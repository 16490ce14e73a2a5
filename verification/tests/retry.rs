use bentoml::request::is_idempotent;
use http::Method;

#[test]
fn the_endpoints_that_run_inference_are_not_replayable() {
    // `call` and `submit` are POSTs: a replayed one runs inference twice, or
    // queues a duplicate task.
    assert!(!is_idempotent(Method::POST.as_str()));
    assert!(!is_idempotent(Method::PATCH.as_str()));

    // The task polling path stays retryable.
    assert!(is_idempotent(Method::GET.as_str()));
    assert!(is_idempotent(Method::PUT.as_str()));
    assert!(is_idempotent(Method::DELETE.as_str()));
}

#[test]
fn the_other_safe_methods_are_replayable() {
    assert!(is_idempotent(Method::HEAD.as_str()));
    assert!(is_idempotent(Method::OPTIONS.as_str()));
    assert!(is_idempotent(Method::TRACE.as_str()));
    assert!(!is_idempotent(Method::CONNECT.as_str()));
    assert!(!is_idempotent("get"));
}
