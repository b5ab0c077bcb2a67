use tendril::envelope::ErrorCategory;
use tendril::error::DetailValue;
use tendril::execution_lock::{
    disabled_report, is_stale, is_ticket_file, make_token, observe_queue, queue_position, reap_if_stale,
    sanitize_path_component, should_attempt, start_waiting, ticket_file_name, timeout_error, validate_request,
    wait_decision, wait_report, ExecutionLockRequest, QueueState, WaitDecision,
};

fn request(path: &str) -> ExecutionLockRequest {
    ExecutionLockRequest {
        enabled: true,
        lock_path: path.to_owned(),
        timeout_ms: 2_000,
        stale_ms: 500,
        command: "run".to_owned(),
        target_kind: Some("window".to_owned()),
        target_id: Some("demo".to_owned()),
        reason: None,
    }
}

#[test]
fn disabled_lock_returns_metadata_without_acquiring() {
    let disabled = ExecutionLockRequest { enabled: false, reason: Some("--no-lock".to_owned()), ..request("/tmp/x/lock") };
    let report = disabled_report(&disabled, 42, make_token(42, 1_000, 0));

    assert!(!report.enabled);
    assert!(!report.acquired);
    assert_eq!(report.reason.as_deref(), Some("--no-lock"));
    assert_eq!(report.lock_path, "/tmp/x/lock");
    assert_eq!(report.token, "42-1000-0");
    assert_eq!(report.wait_ms, 0);

    let without_reason = ExecutionLockRequest { enabled: false, ..request("/tmp/x/lock") };
    assert_eq!(disabled_report(&without_reason, 1, "t".to_owned()).reason.as_deref(), Some("disabled"));
}

#[test]
fn lock_timeout_reports_queue_metadata() {
    let req = ExecutionLockRequest { timeout_ms: 100, stale_ms: 2_000, ..request("/tmp/x/lock") };
    let tickets = vec![
        ticket_file_name(1_000, 7, "7-1000-0"),
        ticket_file_name(1_050, 8, "8-1050-0"),
    ];
    let own = ticket_file_name(1_050, 8, "8-1050-0");
    let queue = queue_position(&tickets, &own);
    assert_eq!(queue, QueueState { position: 2, depth: 2 });

    let state = observe_queue(start_waiting(), 0, queue);
    let report = wait_report(&req, state, false, 100, 8, "8-1050-0".to_owned());
    let error = timeout_error(&req, report, None, queue);

    assert_eq!(error.category(), ErrorCategory::Timeout);
    assert_eq!(error.code(), "execution_lock_timeout");
    assert_eq!(error.message(), "timed out waiting for Tendril execution lock `/tmp/x/lock` after 100 ms");
    match error.detail("execution_lock") {
        Some(DetailValue::LockReport(report)) => {
            assert!(!report.acquired);
            assert_eq!(report.reason.as_deref(), Some("timeout"));
            assert_eq!(report.queue_position_at_join, 2);
        },
        other => panic!("unexpected execution_lock detail: {other:?}"),
    }
    match error.detail("queue_depth") {
        Some(DetailValue::Number(depth)) => assert!(*depth >= 1),
        other => panic!("unexpected queue_depth detail: {other:?}"),
    }
    assert_eq!(error.detail("holder"), Some(&DetailValue::Null));
}

#[test]
fn lock_requests_need_positive_limits() {
    assert!(validate_request(&request("/tmp/l")).is_ok());
    assert!(validate_request(&ExecutionLockRequest { timeout_ms: 0, ..request("/tmp/l") }).is_err());
    assert!(validate_request(&ExecutionLockRequest { stale_ms: 0, ..request("/tmp/l") }).is_err());
}

#[test]
fn ticket_names_sort_in_joining_order() {
    let early = ticket_file_name(999, 12, "a");
    let late = ticket_file_name(1_000, 3, "b");
    assert_eq!(early, "00000000000000000999-12-a.json");
    assert!(early < late);
    assert!(is_ticket_file(&early));
    assert!(!is_ticket_file("held"));
    assert!(!is_ticket_file(".json"));
}

#[test]
fn only_the_queue_head_attempts_and_stale_holders_are_counted() {
    assert!(should_attempt(QueueState { position: 1, depth: 3 }));
    assert!(!should_attempt(QueueState { position: 2, depth: 3 }));
    let (state, reaped) = reap_if_stale(start_waiting(), true);
    assert!(reaped);
    assert_eq!(state.stale_locks_reaped, 1);
    let (state, reaped) = reap_if_stale(state, false);
    assert!(!reaped);
    assert_eq!(state.stale_locks_reaped, 1);
}

#[test]
fn the_first_queue_look_is_the_joining_position() {
    let first = observe_queue(start_waiting(), 2, QueueState { position: 3, depth: 4 });
    let later = observe_queue(first, u32::MAX, QueueState { position: 1, depth: 2 });
    assert_eq!((later.join_position, later.join_depth), (3, 4));
    assert_eq!(later.stale_tickets_reaped, u32::MAX);
}

#[test]
fn staleness_uses_heartbeat_then_file_age() {
    assert!(is_stale(Some(501), Some(0), 500));
    assert!(!is_stale(Some(500), Some(10_000), 500));
    assert!(is_stale(None, Some(501), 500));
    assert!(is_stale(None, None, 500));
}

#[test]
fn waiting_sleeps_at_most_one_poll_and_never_past_the_timeout() {
    assert_eq!(wait_decision(2_000, 2_000, 0), WaitDecision::TimedOut);
    assert_eq!(wait_decision(0, 2_000, 0), WaitDecision::Sleep { ms: 50, refresh_heartbeat: false });
    assert_eq!(wait_decision(1_990, 2_000, 1_000), WaitDecision::Sleep { ms: 10, refresh_heartbeat: true });
}

#[test]
fn lock_path_components_keep_only_safe_characters() {
    assert_eq!(sanitize_path_component("alice@host:1"), "alice_host_1");
    assert_eq!(sanitize_path_component(""), "default");
}
