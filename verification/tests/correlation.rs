use sentinelx::correlation::{CorrelationEngine, CorrelationKind, CorrelationResult, CorrelationRule};
use sentinelx::evidence::{Evidence, EvidenceType, Severity as EvidenceSeverity};
use sentinelx::threat::{ProcessInfo, Severity, ThreatCategory, ThreatEvent, ThreatEvidence};
use sentinelx::value::DataMap;

const NOW: i64 = 1_700_000_000_000_000;
const SECOND: i64 = 1_000_000;

fn make_event(title: &str, severity: Severity, category: ThreatCategory, pid: Option<u32>) -> ThreatEvent {
    let process = pid.map(|p| ProcessInfo {
        pid: p,
        ppid: 1,
        name: format!("proc_{}", p),
        binary_path: format!("/usr/bin/proc_{}", p),
        user: "root".to_string(),
        uid: 0,
        gid: 0,
    });
    ThreatEvent {
        id: uuid::Uuid::new_v4().as_u128(),
        timestamp: NOW,
        severity,
        category,
        title: title.to_string(),
        description: format!("Description of {}", title),
        evidence: vec![ThreatEvidence {
            description: "evidence".to_string(),
            data: DataMap::new(),
            confidence: 900_000,
        }],
        mitre_attack: vec![],
        source_detector: "test".to_string(),
        process,
        tags: vec![],
    }
}

fn make_ev(evidence_type: EvidenceType, severity: EvidenceSeverity, source: &str, description: &str) -> Evidence {
    Evidence::new(evidence_type, severity, source.to_string(), description.to_string())
}

fn named<'a>(results: &'a [CorrelationResult], name: &str) -> Vec<&'a CorrelationResult> {
    results.iter().filter(|r| r.rule_name == name).collect()
}

#[test]
fn test_new_engine_has_default_rules() {
    let engine = CorrelationEngine::new();
    assert_eq!(engine.rules.len(), 6);
}

#[test]
fn test_add_event_and_evidence() {
    let mut engine = CorrelationEngine::new();
    engine.add_event(make_event("test", Severity::Low, ThreatCategory::HookDetected, None));
    assert_eq!(engine.events.len(), 1);
    engine.add_evidence(make_ev(EvidenceType::KernelIntegrity, EvidenceSeverity::High, "kernel", "hook detected"));
    assert_eq!(engine.evidence_items.len(), 1);
}

#[test]
fn test_multi_indicator_correlation() {
    let mut engine = CorrelationEngine::new();
    for i in 0..5u32 {
        let mut ev = make_event(&format!("event_{}", i), Severity::High, ThreatCategory::HookDetected, Some(100 + i));
        ev.timestamp = NOW + i as i64 * SECOND;
        engine.add_event(ev);
    }
    let results = engine.correlate();
    assert!(!named(&results, "multi_indicator").is_empty());
}

#[test]
fn test_privilege_escalation_chain() {
    let mut engine = CorrelationEngine::new();
    let mut pe_event = make_event("priv esc", Severity::High, ThreatCategory::PrivilegeEscalation, Some(50));
    pe_event.timestamp = NOW;
    engine.add_event(pe_event);
    let mut persist_event = make_event("persistence", Severity::Critical, ThreatCategory::PersistenceMechanism, Some(50));
    persist_event.timestamp = NOW + 30 * SECOND;
    engine.add_event(persist_event);

    let results = engine.correlate();
    let chain = named(&results, "privilege_escalation_chain");
    assert_eq!(chain.len(), 1);
    assert_eq!(chain[0].combined_severity, "critical");
    assert_eq!(chain[0].kind, CorrelationKind::CategoryChain);
}

#[test]
fn test_rootkit_indicators() {
    let mut engine = CorrelationEngine::new();
    let mut hook = make_event("hook", Severity::High, ThreatCategory::HookDetected, Some(10));
    hook.timestamp = NOW;
    engine.add_event(hook);
    let mut hidden = make_event("hidden", Severity::High, ThreatCategory::HiddenProcess, Some(10));
    hidden.timestamp = NOW + SECOND;
    engine.add_event(hidden);
    let mut integrity = make_event("integrity", Severity::Critical, ThreatCategory::IntegrityViolation, Some(10));
    integrity.timestamp = NOW + 2 * SECOND;
    engine.add_event(integrity);

    let results = engine.correlate();
    assert_eq!(named(&results, "rootkit_indicators").len(), 1);
}

#[test]
fn test_entity_cluster() {
    let mut engine = CorrelationEngine::new();
    for i in 0..4 {
        let mut ev = make_event(&format!("threat_{}", i), Severity::Medium, ThreatCategory::HookDetected, Some(42));
        ev.timestamp = NOW + i as i64 * SECOND;
        engine.add_event(ev);
    }
    let results = engine.correlate();
    let entity = named(&results, "process_anomaly_cluster");
    assert_eq!(entity.len(), 1);
    assert_eq!(entity[0].entity_key.as_deref(), Some("42"));
}

#[test]
fn test_evidence_cluster() {
    let mut engine = CorrelationEngine::new();
    let mut e1 = make_ev(EvidenceType::KernelIntegrity, EvidenceSeverity::High, "kernel_detector", "hook found");
    e1.timestamp = NOW;
    let mut e2 = make_ev(EvidenceType::ModuleIntegrity, EvidenceSeverity::High, "kernel_detector", "module hidden");
    e2.timestamp = NOW + SECOND;
    let mut e3 = make_ev(EvidenceType::ProcessIntegrity, EvidenceSeverity::Critical, "kernel_detector", "process tampered");
    e3.timestamp = NOW + 2 * SECOND;
    engine.add_evidence_items(vec![e1, e2, e3]);

    let results = engine.correlate();
    let evidence_corr = named(&results, "cross_detector_evidence");
    assert_eq!(evidence_corr.len(), 1);
    assert_eq!(evidence_corr[0].matched_evidence.len(), 3);
}

#[test]
fn lib_test_severity_escalation() {
    let mut engine = CorrelationEngine::new();
    let mut e1 = make_event("low hook", Severity::Low, ThreatCategory::HookDetected, Some(20));
    e1.timestamp = NOW;
    engine.add_event(e1);
    let mut e2 = make_event("medium hook", Severity::Medium, ThreatCategory::HookDetected, Some(20));
    e2.timestamp = NOW + 10 * SECOND;
    engine.add_event(e2);
    let mut e3 = make_event("high hook", Severity::High, ThreatCategory::HookDetected, Some(20));
    e3.timestamp = NOW + 20 * SECOND;
    engine.add_event(e3);

    let results = engine.correlate();
    let escalation = named(&results, "severity_escalation");
    assert_eq!(escalation.len(), 1);
    assert_eq!(escalation[0].matched_events.len(), 3);
}

#[test]
fn test_empty_correlate() {
    let mut engine = CorrelationEngine::new();
    assert!(engine.correlate().is_empty());
}

#[test]
fn test_disabled_rule() {
    let mut engine = CorrelationEngine::new();
    engine.rules.push(CorrelationRule {
        name: "disabled_rule".to_string(),
        description: "should not fire".to_string(),
        kind: CorrelationKind::CoOccurrence,
        min_items: 1,
        time_window_seconds: 300,
        enabled: false,
    });
    let mut ev = make_event("test", Severity::High, ThreatCategory::HookDetected, Some(1));
    ev.timestamp = NOW;
    engine.add_event(ev);
    let results = engine.correlate();
    assert!(named(&results, "disabled_rule").is_empty());
}

#[test]
fn test_stats() {
    let mut engine = CorrelationEngine::new();
    for i in 0..5u32 {
        let mut ev = make_event(&format!("event_{}", i), Severity::High, ThreatCategory::HookDetected, Some(100 + i));
        ev.timestamp = NOW + i as i64 * SECOND;
        engine.add_event(ev);
    }
    let results = engine.correlate();
    assert!(!results.is_empty());
    let stats = engine.stats();
    assert!(stats.total_correlations > 0);
    assert_eq!(stats.total_correlations, engine.results().len());
}

#[test]
fn lib_test_clear() {
    let mut engine = CorrelationEngine::new();
    engine.add_event(make_event("test", Severity::Low, ThreatCategory::HookDetected, Some(1)));
    engine.add_evidence(make_ev(EvidenceType::KernelIntegrity, EvidenceSeverity::Low, "test", "test"));
    engine.clear();
    assert!(engine.events.is_empty());
    assert!(engine.evidence_items.is_empty());
    assert!(engine.results.is_empty());
    assert_eq!(engine.rules.len(), 6);
}

#[test]
fn correlating_twice_gives_the_same_results() {
    let mut engine = CorrelationEngine::new();
    for i in 0..4 {
        let mut ev = make_event("t", Severity::Medium, ThreatCategory::HookDetected, Some(42));
        ev.timestamp = NOW + i * SECOND;
        engine.add_event(ev);
    }
    let first: Vec<String> = engine.correlate().iter().map(|r| r.rule_name.clone()).collect();
    let second: Vec<String> = engine.correlate().iter().map(|r| r.rule_name.clone()).collect();
    assert_eq!(first, second);
}

#[test]
fn evidence_cluster_gives_one_result_per_firing_source() {
    let engine_rule = CorrelationRule {
        name: "cluster".to_string(),
        description: "d".to_string(),
        kind: CorrelationKind::EvidenceCluster,
        min_items: 2,
        time_window_seconds: 10,
        enabled: true,
    };
    let mut engine = CorrelationEngine::new();
    let mut a1 = make_ev(EvidenceType::KernelIntegrity, EvidenceSeverity::Low, "a", "a1");
    a1.timestamp = NOW;
    let mut b1 = make_ev(EvidenceType::KernelIntegrity, EvidenceSeverity::High, "b", "b1");
    b1.timestamp = NOW;
    let mut a2 = make_ev(EvidenceType::FileIntegrity, EvidenceSeverity::Medium, "a", "a2");
    a2.timestamp = NOW + 5 * SECOND;
    let mut a3 = make_ev(EvidenceType::FileIntegrity, EvidenceSeverity::Critical, "a", "a3");
    a3.timestamp = NOW + 60 * SECOND;
    let mut b2 = make_ev(EvidenceType::KernelIntegrity, EvidenceSeverity::High, "b", "b2");
    b2.timestamp = NOW + SECOND;
    let ids = vec![a1.id, a2.id];
    engine.add_evidence_items(vec![a1, b1, a2, a3, b2]);
    let results = engine.match_evidence_cluster(&engine_rule);
    assert_eq!(results.len(), 1);
    assert_eq!(results[0].entity_key, Some("a".to_string()));
    let got: Vec<u128> = results[0].matched_evidence.iter().map(|s| s.id).collect();
    assert_eq!(got, ids);
    assert_eq!(results[0].combined_severity, "medium");
}

#[test]
fn co_occurrence_windows_follow_time_order() {
    let rule = CorrelationRule {
        name: "co".to_string(),
        description: "d".to_string(),
        kind: CorrelationKind::CoOccurrence,
        min_items: 2,
        time_window_seconds: 10,
        enabled: true,
    };
    let mut engine = CorrelationEngine::new();
    let mut late = make_event("late", Severity::Low, ThreatCategory::HookDetected, None);
    late.timestamp = NOW + 8 * SECOND;
    let mut first = make_event("first", Severity::Low, ThreatCategory::HookDetected, None);
    first.timestamp = NOW;
    let mut far = make_event("far", Severity::High, ThreatCategory::HookDetected, None);
    far.timestamp = NOW + 15 * SECOND;
    engine.add_events(vec![late, first, far]);
    let results = engine.match_co_occurrence(&rule);
    assert_eq!(results.len(), 2);
    let titles: Vec<&str> = results[0].matched_events.iter().map(|e| e.title.as_str()).collect();
    assert_eq!(titles, vec!["first", "late"]);
    let titles: Vec<&str> = results[1].matched_events.iter().map(|e| e.title.as_str()).collect();
    assert_eq!(titles, vec!["late", "far"]);
    assert_eq!(results[1].combined_severity, "high");

    let mut few = CorrelationEngine::new();
    few.add_event(make_event("one", Severity::Low, ThreatCategory::HookDetected, None));
    assert!(few.match_co_occurrence(&CorrelationRule { min_items: 2, ..rule }).is_empty());
}

#[test]
fn escalation_chain_needs_order_and_window() {
    let mut engine = CorrelationEngine::new();
    let mut persist = make_event("persistence", Severity::High, ThreatCategory::PersistenceMechanism, Some(5));
    persist.timestamp = NOW;
    let mut pe = make_event("priv esc", Severity::High, ThreatCategory::PrivilegeEscalation, Some(5));
    pe.timestamp = NOW + 3600 * SECOND;
    engine.add_events(vec![persist, pe]);
    assert!(named(&engine.correlate(), "privilege_escalation_chain").is_empty());

    let mut late = CorrelationEngine::new();
    let mut pe = make_event("priv esc", Severity::High, ThreatCategory::PrivilegeEscalation, Some(5));
    pe.timestamp = NOW;
    let mut persist = make_event("persistence", Severity::High, ThreatCategory::PersistenceMechanism, Some(5));
    persist.timestamp = NOW + 700 * SECOND;
    late.add_events(vec![pe, persist]);
    assert!(named(&late.correlate(), "privilege_escalation_chain").is_empty());

    let mut both = CorrelationEngine::new();
    let mut pe = make_event("priv esc", Severity::High, ThreatCategory::PrivilegeEscalation, Some(5));
    pe.timestamp = NOW;
    let mut persist = make_event("persistence", Severity::High, ThreatCategory::PersistenceMechanism, Some(5));
    persist.timestamp = NOW + 600 * SECOND;
    both.add_events(vec![persist, pe]);
    let chain = named(&both.correlate(), "privilege_escalation_chain").len();
    assert_eq!(chain, 1);
}

#[test]
fn escalation_from_info_counts() {
    let mut engine = CorrelationEngine::new();
    let levels = [Severity::Info, Severity::Low, Severity::Medium, Severity::High];
    for (i, s) in levels.iter().enumerate() {
        let mut ev = make_event("hook", *s, ThreatCategory::HookDetected, None);
        ev.timestamp = NOW + 10 * (i as i64) * SECOND;
        engine.add_event(ev);
    }
    let results = engine.correlate();
    let esc = named(&results, "severity_escalation");
    assert_eq!(esc.len(), 1);
    assert_eq!(esc[0].matched_events.len(), 4);
    assert_eq!(esc[0].combined_severity, "high");
}
