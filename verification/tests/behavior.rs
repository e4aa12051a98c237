use sentinelx::behavior::{AnomalousPattern, BehaviorGraph, BehaviorState};
use sentinelx::value::Value;

#[test]
fn test_new_graph() {
    let graph = BehaviorGraph::new();
    assert_eq!(graph.process_count(), 0);
    assert!(!graph.transition_rules().is_empty());
}

#[test]
fn test_observe_process() {
    let mut graph = BehaviorGraph::new();
    graph.observe_process(100, "bash");
    assert_eq!(graph.process_count(), 1);

    let proc = graph.get_process(100).unwrap();
    assert_eq!(proc.name, "bash");
    assert_eq!(proc.current_state, BehaviorState::Running);
    assert_eq!(proc.transitions.len(), 1);
}

#[test]
fn test_transition() {
    let mut graph = BehaviorGraph::new();
    graph.observe_process(100, "malware");

    let result = graph.transition(
        100,
        BehaviorState::SyscallHooked,
        "sys_call_hook",
        Value::Json("{\"syscall\":\"open\"}".to_string()),
    );
    assert!(result);

    let proc = graph.get_process(100).unwrap();
    assert_eq!(proc.current_state, BehaviorState::SyscallHooked);
    assert!(proc.risk_score > 0);
    assert_eq!(proc.transitions.len(), 2);
}

#[test]
fn test_transition_nonexistent() {
    let mut graph = BehaviorGraph::new();
    let result = graph.transition(999, BehaviorState::Running, "test", Value::Json("{}".to_string()));
    assert!(!result);
}

#[test]
fn test_risk_accumulation() {
    let mut graph = BehaviorGraph::new();
    graph.observe_process(100, "evil");
    graph.transition(100, BehaviorState::SyscallHooked, "hook", Value::Json("{}".to_string()));
    let score_after_hook = graph.get_process(100).unwrap().risk_score;
    graph.transition(100, BehaviorState::IntegrityViolation, "violation", Value::Json("{}".to_string()));
    let score_after_violation = graph.get_process(100).unwrap().risk_score;
    assert!(score_after_violation > score_after_hook);
}

#[test]
fn test_anomaly_high_risk() {
    let mut graph = BehaviorGraph::new();
    graph.observe_process(100, "rootkit");
    for _ in 0..10 {
        graph.transition(100, BehaviorState::IntegrityViolation, "violation", Value::Json("{}".to_string()));
    }
    let anomalies = graph.detect_anomalies();
    assert!(!anomalies.is_empty());
    assert_eq!(anomalies[0].pattern_type, "high_risk_score");
}

#[test]
fn test_anomaly_escalation_chain() {
    let mut graph = BehaviorGraph::new();
    graph.observe_process(100, "apt_agent");
    graph.transition(100, BehaviorState::SyscallHooked, "hook", Value::Json("{}".to_string()));
    graph.transition(100, BehaviorState::IntegrityViolation, "violation", Value::Json("{}".to_string()));
    graph.transition(100, BehaviorState::PersistenceInstalled, "persist", Value::Json("{}".to_string()));

    let anomalies = graph.detect_anomalies();
    let chain: Vec<&AnomalousPattern> = anomalies
        .iter()
        .filter(|a| a.pattern_type == "full_escalation_chain")
        .collect();
    assert_eq!(chain.len(), 1);
    assert_eq!(chain[0].severity, "critical");
}

#[test]
fn test_high_risk_processes() {
    let mut graph = BehaviorGraph::new();
    graph.observe_process(1, "good");
    graph.observe_process(2, "bad");
    for _ in 0..5 {
        graph.transition(2, BehaviorState::IntegrityViolation, "v", Value::Json("{}".to_string()));
    }
    let high_risk = graph.high_risk_processes();
    assert_eq!(high_risk.len(), 1);
    assert_eq!(high_risk[0].pid, 2);
}

#[test]
fn test_remove_process() {
    let mut graph = BehaviorGraph::new();
    graph.observe_process(100, "temp");
    assert_eq!(graph.process_count(), 1);
    let removed = graph.remove_process(100);
    assert!(removed.is_some());
    assert_eq!(graph.process_count(), 0);
    assert!(graph.remove_process(100).is_none());
}

#[test]
fn test_all_processes() {
    let mut graph = BehaviorGraph::new();
    graph.observe_process(1, "a");
    graph.observe_process(2, "b");
    assert_eq!(graph.all_processes().len(), 2);
}

#[test]
fn risk_never_exceeds_one() {
    let mut graph = BehaviorGraph::new();
    graph.observe_process(7, "x");
    for _ in 0..50 {
        graph.transition(7, BehaviorState::IntegrityViolation, "v", Value::Null);
    }
    assert_eq!(graph.get_process(7).unwrap().risk_score, 1_000_000);
}

#[test]
fn observing_again_keeps_history() {
    let mut graph = BehaviorGraph::new();
    graph.observe_process(5, "a");
    graph.transition(5, BehaviorState::NetworkActive, "net", Value::Null);
    graph.observe_process(5, "a");
    assert_eq!(graph.process_count(), 1);
    assert_eq!(graph.get_process(5).unwrap().transitions.len(), 2);
}

#[test]
fn state_names() {
    assert_eq!(BehaviorState::SyscallHooked.as_str(), "syscall_hooked");
    assert_eq!(BehaviorState::Terminated.as_str(), "terminated");
}

#[test]
fn rules_stay_the_built_in_ones() {
    let mut graph = BehaviorGraph::new();
    graph.observe_process(7, "p");
    graph.transition(7, BehaviorState::NetworkActive, "net", Value::Json("{}".to_string()));
    graph.remove_process(7);
    let rules = graph.transition_rules();
    assert_eq!(rules.len(), 8);
    assert_eq!(rules[0].risk_delta, 300_000);
    assert_eq!(rules[6].risk_delta, 100_000);
    graph.observe_process(8, "q");
    graph.transition(8, BehaviorState::SyscallHooked, "hook", Value::Json("{}".to_string()));
    assert_eq!(graph.get_process(8).unwrap().risk_score, 300_000);
}
