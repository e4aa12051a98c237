use sentinelx::fleet::uptime_seconds;
use sentinelx::fleet::ActionLog;
use sentinelx::value::Value;

#[test]
fn request_and_complete_action() {
    let mut log = ActionLog::new();
    let action_id = log.request_action("a1".to_string(), "KillProcess".to_string(), Value::Json("{\"pid\":1234}".to_string()));
    assert!(!action_id.is_empty());
    log.complete_action(&action_id, true, Value::Json("{\"status\":\"killed\"}".to_string()), None, 150);
    let actions = log.action_list(10);
    assert_eq!(actions.len(), 1);
    assert_eq!(actions[0].status, "completed");
    assert_eq!(actions[0].duration_ms, Some(150));
    assert!(actions[0].completed_at.is_some());
}

#[test]
fn action_list_limited() {
    let mut log = ActionLog::new();
    for i in 0..10 {
        log.request_action("a1".to_string(), "RunScan".to_string(), Value::Json(format!("{{\"scan_id\":{}}}", i)));
    }
    let actions = log.action_list(5);
    assert_eq!(actions.len(), 5);
    assert_eq!(actions[0].params, Value::Json("{\"scan_id\":9}".to_string()));
    assert_eq!(actions[4].params, Value::Json("{\"scan_id\":5}".to_string()));
    assert_eq!(log.action_list(100).len(), 10);
}

#[test]
fn failed_and_unknown_completions() {
    let mut log = ActionLog::new();
    let a = log.request_action("a1".to_string(), "Isolate".to_string(), Value::Null);
    let b = log.request_action("a2".to_string(), "Isolate".to_string(), Value::Null);
    log.complete_action(&b, false, Value::Null, Some("denied".to_string()), 7);
    log.complete_action("no-such-id", true, Value::Null, None, 1);
    let actions = log.action_list(2);
    assert_eq!(actions[0].action_id, b);
    assert_eq!(actions[0].status, "failed");
    assert_eq!(actions[0].error.as_deref(), Some("denied"));
    assert_eq!(actions[1].action_id, a);
    assert_eq!(actions[1].status, "pending");
    assert_eq!(actions[1].completed_at, None);
    assert_eq!(log.len(), 2);
}

#[test]
fn fleet_uptime_in_whole_seconds() {
    assert_eq!(uptime_seconds(0, 4_999_999), 4);
    assert_eq!(uptime_seconds(10_000_000, 5_000_000), 0);
    assert_eq!(uptime_seconds(i64::MIN, i64::MAX), u64::MAX / 1_000_000);
}
