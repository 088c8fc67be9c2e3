use rmcp_client::invoke::InvokeError;
use rmcp_client::invoke::RaceOutcome;
use rmcp_client::invoke::settle_invocation;

#[test]
fn success_passes_through_without_deadline() {
    let r = settle_invocation(
        RaceOutcome::Completed(Ok(42u32)),
        None,
        "list tools".to_string(),
    );
    assert_eq!(r.ok(), Some(42));
}

#[test]
fn failure_is_relabeled_without_deadline() {
    let r: Result<u32, InvokeError> = settle_invocation(
        RaceOutcome::Completed(Err("connection reset".to_string())),
        None,
        "call tool".to_string(),
    );
    match r {
        Err(InvokeError::OperationFailed { label, reason }) => {
            assert_eq!(label, "call tool");
            assert_eq!(reason, "connection reset");
        }
        _ => panic!("expected an operation failure"),
    }
}

#[test]
fn success_passes_through_with_deadline() {
    let r = settle_invocation(
        RaceOutcome::Completed(Ok("done".to_string())),
        Some(250),
        "initialize".to_string(),
    );
    assert_eq!(r.ok(), Some("done".to_string()));
}

#[test]
fn fired_timer_reports_label_and_bound() {
    let r: Result<u32, InvokeError> = settle_invocation(
        RaceOutcome::TimerFired,
        Some(1500),
        "call tool".to_string(),
    );
    match r {
        Err(InvokeError::Timeout { label, timeout_millis }) => {
            assert_eq!(label, "call tool");
            assert_eq!(timeout_millis, 1500);
        }
        _ => panic!("expected a timeout"),
    }
}

#[test]
fn failure_messages_render_label_bound_and_reason() {
    let timeout = InvokeError::Timeout {
        label: "call tool".to_string(),
        timeout_millis: 1500,
    };
    assert_eq!(timeout.describe(), "timed out awaiting call tool after 1500ms");

    let zero = InvokeError::Timeout {
        label: "initialize".to_string(),
        timeout_millis: 0,
    };
    assert_eq!(zero.describe(), "timed out awaiting initialize after 0ms");

    let failed = InvokeError::OperationFailed {
        label: "call tool".to_string(),
        reason: "connection reset".to_string(),
    };
    assert_eq!(failed.describe(), "call tool failed: connection reset");

    let big = InvokeError::Timeout {
        label: "t".to_string(),
        timeout_millis: 9007199254,
    };
    assert_eq!(big.describe(), "timed out awaiting t after 9007199254ms");
}
