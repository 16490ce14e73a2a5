use bentoml::error::Error;
use bentoml::request::Method;
use bentoml::task::{TaskInfo, TaskStatus};
use bentoml::Client;

fn client() -> Client {
    Client::builder()
        .with_base_url("http://localhost:3000/v1")
        .build()
        .unwrap()
}

fn pairs(v: &[(&str, &str)]) -> Vec<(String, String)> {
    v.iter().map(|(a, b)| (a.to_string(), b.to_string())).collect()
}

#[test]
fn endpoint_request_is_a_post_to_the_route() {
    let ep = client().endpoint("/summarize").with_request_id("req-42");
    assert_eq!(ep.route(), "/summarize");
    assert_eq!(ep.request_id(), Some("req-42"));
    let plan = ep.request().unwrap();
    assert_eq!(plan.method, Method::Post);
    assert_eq!(plan.method.as_str(), "POST");
    assert_eq!(plan.url.as_str(), "http://localhost:3000/v1/summarize");
    assert_eq!(plan.headers, pairs(&[("x-request-id", "req-42")]));
}

#[test]
fn endpoint_header_set_twice_keeps_the_last_value() {
    let ep = client()
        .endpoint("summarize")
        .with_header("X-A", "1")
        .with_headers(pairs(&[("x-b", "2"), ("X-a", "3")]));
    assert_eq!(ep.request().unwrap().headers, pairs(&[("x-a", "3"), ("x-b", "2")]));
}

#[test]
fn endpoint_invalid_header_surfaces_when_planning() {
    let ep = client()
        .endpoint("summarize")
        .with_header("x-ok", "fine")
        .with_header("x-bad", "line\nbreak")
        .with_header("x-later", "ignored");
    match ep.request() {
        Err(Error::InvalidRequest { message, source: None }) => {
            assert_eq!(message, "invalid header x-bad: failed to parse header value")
        }
        other => panic!("unexpected {other:?}"),
    }
}

#[test]
fn unresolvable_route_is_an_invalid_url() {
    let c = Client::builder().with_base_url("http://localhost:3000").build().unwrap();
    match c.endpoint("http://[::1").request() {
        Err(Error::InvalidRequest { message, source: Some(_) }) => assert_eq!(message, "invalid url"),
        other => panic!("unexpected {other:?}"),
    }
}

#[test]
fn task_submit_goes_to_the_submit_route() {
    let te = client().task("generate/").with_request_id("r1");
    assert_eq!(te.route(), "generate/");
    let plan = te.submit_request().unwrap();
    assert_eq!(plan.method, Method::Post);
    assert_eq!(plan.url.as_str(), "http://localhost:3000/v1/generate/submit");
    assert_eq!(plan.headers, pairs(&[("x-request-id", "r1")]));
}

#[test]
fn task_handle_operations_carry_the_task_id_and_headers() {
    let te = client().task("generate").with_header("X-Trace", "t");
    let info = TaskInfo::new("task-1".to_string(), TaskStatus::Pending, None, None, None);
    let h = te.submitted(info);
    assert_eq!(h.task_id(), "task-1");
    let status = h.status_request().unwrap();
    assert_eq!(status.method, Method::Get);
    assert_eq!(
        status.url.as_str(),
        "http://localhost:3000/v1/generate/status?task_id=task-1"
    );
    assert_eq!(status.headers, pairs(&[("x-trace", "t")]));
    let retry = h.retry_request().unwrap();
    assert_eq!(retry.method, Method::Post);
    assert_eq!(
        retry.url.as_str(),
        "http://localhost:3000/v1/generate/retry?task_id=task-1"
    );
    let cancel = h.cancel_request().unwrap();
    assert_eq!(cancel.method, Method::Put);
    assert_eq!(
        cancel.url.as_str(),
        "http://localhost:3000/v1/generate/cancel?task_id=task-1"
    );
}

#[test]
fn a_resumed_handle_carries_the_endpoint_headers() {
    let task = client()
        .task("generate")
        .with_request_id("req-42")
        .handle("task-1");
    assert_eq!(task.task_id(), "task-1");
    let plan = task.status_request().unwrap();
    assert_eq!(plan.headers, pairs(&[("x-request-id", "req-42")]));
    assert_eq!(task.request_id(), Some("req-42"));
}

#[test]
fn the_result_is_fetched_only_from_a_completed_task() {
    let h = client().task("generate").handle("t9");
    for status in [TaskStatus::Pending, TaskStatus::InProgress, TaskStatus::Failed, TaskStatus::Canceled] {
        match h.result_request(status) {
            Err(Error::TaskNotComplete { task_id, status: s }) => {
                assert_eq!(task_id, "t9");
                assert_eq!(s, status);
            }
            other => panic!("unexpected {other:?}"),
        }
    }
    let plan = h.result_request(TaskStatus::Completed).unwrap();
    assert_eq!(plan.method, Method::Get);
    assert_eq!(plan.url.as_str(), "http://localhost:3000/v1/generate/get?task_id=t9");
}

#[test]
fn a_retried_task_gets_a_new_id_on_the_same_route() {
    let h = client().task("generate").handle("old");
    let new = h.retried(TaskInfo::new("new".to_string(), TaskStatus::Pending, None, None, None));
    assert_eq!(new.task_id(), "new");
    assert_eq!(new.route(), "generate");
}

#[test]
fn task_routes_join_with_one_slash() {
    assert_eq!(bentoml::task::join("generate", "submit"), "generate/submit");
    assert_eq!(bentoml::task::join("generate//", "status"), "generate/status");
    assert_eq!(bentoml::task::join("", "get"), "/get");
}

#[test]
fn terminal_statuses() {
    assert!(TaskStatus::Completed.is_terminal());
    assert!(TaskStatus::Failed.is_terminal());
    assert!(TaskStatus::Canceled.is_terminal());
    assert!(!TaskStatus::Pending.is_terminal());
    assert!(!TaskStatus::InProgress.is_terminal());
}

#[test]
fn per_call_headers_override_the_client_headers() {
    let c = Client::builder()
        .with_header("X-A", "client")
        .with_header("X-B", "b")
        .with_token("t")
        .build()
        .unwrap();
    let plan = c
        .endpoint("summarize")
        .with_header("x-b", "call")
        .with_header("x-c", "c")
        .request()
        .unwrap();
    assert_eq!(
        plan.headers,
        pairs(&[
            ("x-a", "client"),
            ("x-b", "call"),
            ("authorization", "Bearer t"),
            ("x-c", "c"),
        ])
    );
}
