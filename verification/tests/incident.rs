use sentinelx::incident::{Incident, IncidentEngine, IncidentSeverity, IncidentStatus};

fn make_incident(title: &str, severity: IncidentSeverity) -> Incident {
    Incident::new(title, "Description", severity, 800_000)
}

fn count_for(counts: &[(String, usize)], key: &str) -> Option<usize> {
    counts.iter().find(|(k, _)| k == key).map(|(_, n)| *n)
}

#[test]
fn test_incident_creation() {
    let incident = Incident::new(
        "Rootkit Detected",
        "Hidden kernel module loaded",
        IncidentSeverity::Critical,
        950_000,
    );
    assert_eq!(incident.title, "Rootkit Detected");
    assert_eq!(incident.severity, IncidentSeverity::Critical);
    assert_eq!(incident.confidence, 950_000);
    assert_eq!(incident.status, IncidentStatus::Open);
}

#[test]
fn test_incident_with_evidence() {
    let incident = Incident::new("Test", "Desc", IncidentSeverity::High, 800_000)
        .with_evidence("ev-001")
        .with_evidence("ev-002")
        .with_object("process:1234")
        .with_process("1234");
    assert_eq!(incident.evidence_ids.len(), 2);
    assert_eq!(incident.object_ids.len(), 1);
    assert_eq!(incident.related_processes.len(), 1);
}

#[test]
fn types_test_severity_escalation() {
    let mut incident = Incident::new("Test", "Desc", IncidentSeverity::Low, 500_000);
    incident.escalate_severity(IncidentSeverity::Critical);
    assert_eq!(incident.severity, IncidentSeverity::Critical);
    incident.escalate_severity(IncidentSeverity::Medium);
    assert_eq!(incident.severity, IncidentSeverity::Critical);
}

#[test]
fn test_status_update() {
    let mut incident = Incident::new("Test", "Desc", IncidentSeverity::High, 800_000);
    assert_eq!(incident.status, IncidentStatus::Open);
    incident.update_status(IncidentStatus::Investigating);
    assert_eq!(incident.status, IncidentStatus::Investigating);
}

#[test]
fn test_severity_ranking() {
    assert!(IncidentSeverity::Critical.rank() > IncidentSeverity::High.rank());
    assert!(IncidentSeverity::High.rank() > IncidentSeverity::Medium.rank());
    assert!(IncidentSeverity::Medium.rank() > IncidentSeverity::Low.rank());
    assert!(IncidentSeverity::Low.rank() > IncidentSeverity::Info.rank());
}

#[test]
fn test_attack_chain() {
    let incident = Incident::new("Test", "Desc", IncidentSeverity::High, 800_000)
        .with_attack_step(1, "ev-001", "process:1234", "Suspicious process spawned")
        .with_attack_step(2, "ev-002", "file:/tmp/evil", "Malicious file created")
        .with_attack_step(3, "ev-003", "kernel_module:rootkit", "Rootkit loaded");
    assert_eq!(incident.attack_chain.len(), 3);
    assert_eq!(incident.attack_chain[0].order, 1);
    assert_eq!(incident.attack_chain[2].object_id, "kernel_module:rootkit");
}

#[test]
fn test_mitre_mapping() {
    let incident = Incident::new("Test", "Desc", IncidentSeverity::High, 800_000).with_mitre(
        "T1014",
        "Rootkit",
        "Defense Evasion",
    );
    assert_eq!(incident.mitre_mappings.len(), 1);
    assert_eq!(incident.mitre_mappings[0].technique_id, "T1014");
}

#[test]
fn test_confidence_clamping() {
    let incident = Incident::new("Test", "Desc", IncidentSeverity::High, 1_500_000);
    assert_eq!(incident.confidence, 1_000_000);
    let incident2 = Incident::new("Test", "Desc", IncidentSeverity::High, -500_000);
    assert_eq!(incident2.confidence, 0);
}

#[test]
fn status_and_severity_names_parse_back() {
    for s in [
        IncidentStatus::Open,
        IncidentStatus::Investigating,
        IncidentStatus::Contained,
        IncidentStatus::Resolved,
        IncidentStatus::Closed,
    ] {
        assert_eq!(IncidentStatus::parse_from(s.as_str()), Some(s));
    }
    for s in [
        IncidentSeverity::Info,
        IncidentSeverity::Low,
        IncidentSeverity::Medium,
        IncidentSeverity::High,
        IncidentSeverity::Critical,
    ] {
        assert_eq!(IncidentSeverity::parse_from(s.as_str()), Some(s));
    }
    assert_eq!(IncidentStatus::parse_from("done"), None);
    assert_eq!(IncidentSeverity::parse_from("CRITICAL"), None);
}

#[test]
fn engine_create_and_get() {
    let mut engine = IncidentEngine::new();
    let incident = make_incident("Test", IncidentSeverity::High);
    let id = incident.id;
    assert_eq!(engine.create_incident(incident), id);
    let found = engine.get_incident(id);
    assert!(found.is_some());
    assert_eq!(found.unwrap().title, "Test");
    assert!(engine.get_incident(id.wrapping_add(1)).is_none());
}

#[test]
fn engine_update_status() {
    let mut engine = IncidentEngine::new();
    let incident = make_incident("Test", IncidentSeverity::High);
    let id = incident.id;
    engine.create_incident(incident);
    engine.update_status(id, IncidentStatus::Investigating).unwrap();
    assert_eq!(engine.get_incident(id).unwrap().status, IncidentStatus::Investigating);
}

#[test]
fn engine_unknown_id_is_an_error() {
    let mut engine = IncidentEngine::new();
    let err = engine.update_status(7, IncidentStatus::Closed).unwrap_err();
    assert_eq!(err, "Incident 00000000-0000-0000-0000-000000000007 not found");
    assert!(engine.escalate(7, IncidentSeverity::High).is_err());
    assert!(engine.add_evidence(7, "ev".to_string()).is_err());
    let err = engine.merge_incidents(1, 7).unwrap_err();
    assert_eq!(err, "Secondary incident 00000000-0000-0000-0000-000000000007 not found");
}

#[test]
fn engine_escalate() {
    let mut engine = IncidentEngine::new();
    let incident = make_incident("Test", IncidentSeverity::Low);
    let id = incident.id;
    engine.create_incident(incident);
    engine.escalate(id, IncidentSeverity::Critical).unwrap();
    assert_eq!(engine.get_incident(id).unwrap().severity, IncidentSeverity::Critical);
    engine.escalate(id, IncidentSeverity::Low).unwrap();
    assert_eq!(engine.get_incident(id).unwrap().severity, IncidentSeverity::Critical);
}

#[test]
fn engine_add_evidence() {
    let mut engine = IncidentEngine::new();
    let incident = make_incident("Test", IncidentSeverity::High);
    let id = incident.id;
    engine.create_incident(incident);
    engine.add_evidence(id, "ev-001".to_string()).unwrap();
    engine.add_evidence(id, "ev-002".to_string()).unwrap();
    engine.add_evidence(id, "ev-001".to_string()).unwrap();
    assert_eq!(engine.get_incident(id).unwrap().evidence_ids.len(), 2);
}

#[test]
fn engine_list_by_status_and_severity() {
    let mut engine = IncidentEngine::new();
    engine.create_incident(make_incident("A", IncidentSeverity::High));
    engine.create_incident(make_incident("B", IncidentSeverity::Low));
    assert_eq!(engine.list_by_status(IncidentStatus::Open).len(), 2);
    assert_eq!(engine.list_by_status(IncidentStatus::Closed).len(), 0);
    assert_eq!(engine.list_by_severity(IncidentSeverity::Medium).len(), 1);
    assert_eq!(engine.active_incidents().len(), 2);
    assert_eq!(engine.list_incidents().len(), 2);
}

#[test]
fn engine_count_by_severity() {
    let mut engine = IncidentEngine::new();
    engine.create_incident(make_incident("A", IncidentSeverity::Critical));
    engine.create_incident(make_incident("B", IncidentSeverity::Critical));
    engine.create_incident(make_incident("C", IncidentSeverity::Low));
    let counts = engine.count_by_severity();
    assert_eq!(count_for(&counts, "critical"), Some(2));
    assert_eq!(count_for(&counts, "low"), Some(1));
    let by_status = engine.count_by_status();
    assert_eq!(count_for(&by_status, "open"), Some(3));
}

#[test]
fn engine_merge_incidents() {
    let mut engine = IncidentEngine::new();
    let primary = make_incident("Primary", IncidentSeverity::Medium).with_evidence("ev-001");
    let primary_id = primary.id;
    engine.create_incident(primary);

    let secondary = make_incident("Secondary", IncidentSeverity::Critical)
        .with_evidence("ev-002")
        .with_object("process:1234");
    let secondary_id = secondary.id;
    engine.create_incident(secondary);

    engine.merge_incidents(primary_id, secondary_id).unwrap();
    assert!(engine.get_incident(secondary_id).is_none());
    let merged = engine.get_incident(primary_id).unwrap();
    assert_eq!(merged.severity, IncidentSeverity::Critical);
    assert_eq!(merged.evidence_ids.len(), 2);
    assert_eq!(merged.object_ids.len(), 1);
    assert_eq!(engine.count(), 1);
}

#[test]
fn engine_prune_closed() {
    let mut engine = IncidentEngine::new();
    let mut incident = make_incident("Old", IncidentSeverity::Low);
    incident.update_status(IncidentStatus::Closed);
    incident.updated_at = 0;
    engine.create_incident(incident);
    engine.create_incident(make_incident("New", IncidentSeverity::High));

    let pruned = engine.prune_closed(0);
    assert_eq!(pruned, 1);
    assert_eq!(engine.count(), 1);
    assert_eq!(engine.incident_count_sync(), 1);
}

#[test]
fn engine_prune_before_cutoff_keeps_open_incidents() {
    let mut engine = IncidentEngine::with_max_incidents(10);
    let mut resolved = make_incident("R", IncidentSeverity::Low);
    resolved.update_status(IncidentStatus::Resolved);
    resolved.updated_at = 100;
    let mut open = make_incident("O", IncidentSeverity::Low);
    open.updated_at = 50;
    engine.create_incident(resolved);
    engine.create_incident(open);
    assert_eq!(engine.prune_closed_before(100), 0);
    assert_eq!(engine.prune_closed_before(101), 1);
    assert_eq!(engine.count(), 1);
}
