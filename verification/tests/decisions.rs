use std::time::Duration;

use bentoml::error::{Error, ErrorEnvelope};
use bentoml::poll::{ready_step, wait_step};
use bentoml::response::{check_status, is_success};
use bentoml::task::TaskStatus;

fn timeout() -> Duration {
    Duration::from_millis(300)
}

#[test]
fn wait_stops_at_a_terminal_status() {
    assert!(matches!(wait_step(Ok(TaskStatus::Completed), false, timeout()), Ok(Some(TaskStatus::Completed))));
    assert!(matches!(wait_step(Ok(TaskStatus::Failed), true, timeout()), Ok(Some(TaskStatus::Failed))));
    assert!(matches!(wait_step(Ok(TaskStatus::Canceled), false, timeout()), Ok(Some(TaskStatus::Canceled))));
}

#[test]
fn wait_sleeps_then_times_out() {
    assert!(matches!(wait_step(Ok(TaskStatus::Pending), false, timeout()), Ok(None)));
    assert!(matches!(wait_step(Ok(TaskStatus::InProgress), false, timeout()), Ok(None)));
    match wait_step(Ok(TaskStatus::Pending), true, timeout()) {
        Err(Error::Timeout { timeout: t }) => assert_eq!(t, timeout()),
        other => panic!("unexpected {other:?}"),
    }
}

#[test]
fn wait_propagates_a_failed_check() {
    let e = Error::Transport { message: "refused".to_string(), status: None };
    assert!(matches!(wait_step(Err(e), false, timeout()), Err(Error::Transport { .. })));
}

#[test]
fn readiness_ignores_failed_checks_until_the_deadline() {
    assert!(matches!(ready_step(Ok(true), true, timeout()), Ok(true)));
    assert!(matches!(ready_step(Ok(false), false, timeout()), Ok(false)));
    let e = Error::Transport { message: "refused".to_string(), status: None };
    assert!(matches!(ready_step(Err(e), false, timeout()), Ok(false)));
    assert!(matches!(ready_step(Ok(false), true, timeout()), Err(Error::Timeout { .. })));
}

#[test]
fn success_statuses() {
    assert!(is_success(200));
    assert!(is_success(204));
    assert!(is_success(299));
    assert!(!is_success(199));
    assert!(!is_success(300));
    assert!(!is_success(503));
}

#[test]
fn a_service_error_uses_the_envelope_when_there_is_one() {
    assert!(check_status(200, "", None).is_ok());
    let detail: serde_json::Value = serde_json::from_str(r#"[{"loc":["x"]}]"#).unwrap();
    let env = ErrorEnvelope { error: "bad input".to_string(), detail: Some(detail.clone()) };
    match check_status(422, "{...}", Some(env)) {
        Err(e @ Error::Service { .. }) => {
            assert_eq!(e.status(), Some(422));
            match e {
                Error::Service { status, message, detail: d } => {
                    assert_eq!(status, 422);
                    assert_eq!(message, "bad input");
                    assert_eq!(d, Some(detail));
                }
                _ => unreachable!(),
            }
        }
        other => panic!("unexpected {other:?}"),
    }
}

#[test]
fn a_service_error_keeps_a_raw_body() {
    match check_status(503, "<html>down</html>", None) {
        Err(Error::Service { status, message, detail: None }) => {
            assert_eq!(status, 503);
            assert_eq!(message, "<html>down</html>");
        }
        other => panic!("unexpected {other:?}"),
    }
}

#[test]
fn only_service_and_response_transport_errors_carry_a_status() {
    assert_eq!(Error::service(500, "x", None).status(), Some(500));
    assert_eq!(Error::Transport { message: "t".to_string(), status: Some(502) }.status(), Some(502));
    assert_eq!(Error::Transport { message: "t".to_string(), status: None }.status(), None);
    assert_eq!(Error::Timeout { timeout: timeout() }.status(), None);
    assert_eq!(Error::invalid_message("m".to_string()).status(), None);
    assert_eq!(Error::decode("m".to_string(), "s".to_string()).status(), None);
}
