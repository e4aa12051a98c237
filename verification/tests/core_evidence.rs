use sentinelx::assessment::AssessmentResult;
use sentinelx::core_evidence::{CoreEvidence, CoreEvidenceType, CoreSeverity};
use sentinelx::evidence::{Evidence, EvidenceType, Severity as EvidenceSeverity};
use sentinelx::threat::{
    ProcessInfo, Severity as ThreatSeverity, ThreatCategory, ThreatEvent, ThreatEvidence,
};
use sentinelx::value::{DataMap, Value};

fn make_threat_event() -> ThreatEvent {
    let mut data = DataMap::new();
    data.insert("hook_type".to_string(), Value::String("syscall".to_string()));
    ThreatEvent {
        id: 0x1234_5678_9abc_def0_1122_3344_5566_7788,
        timestamp: 1_700_000_000_000_000,
        severity: ThreatSeverity::High,
        category: ThreatCategory::HookDetected,
        title: "Test hook detected".to_string(),
        description: "A hook was detected".to_string(),
        evidence: vec![ThreatEvidence {
            description: "hook evidence".to_string(),
            data,
            confidence: 850_000,
        }],
        mitre_attack: vec![],
        source_detector: "hook_detection".to_string(),
        process: Some(ProcessInfo {
            pid: 1234,
            ppid: 1,
            name: "test_proc".to_string(),
            binary_path: "/usr/bin/test".to_string(),
            user: "root".to_string(),
            uid: 0,
            gid: 0,
        }),
        tags: vec!["hook".to_string(), "kernel".to_string()],
    }
}

#[test]
fn test_core_evidence_creation() {
    let evidence = CoreEvidence::new(
        "process:1234",
        CoreEvidenceType::KernelIntegrity,
        CoreSeverity::High,
        "test_source",
    );
    assert_eq!(evidence.object_id, "process:1234");
    assert_eq!(evidence.evidence_type, CoreEvidenceType::KernelIntegrity);
    assert_eq!(evidence.severity, CoreSeverity::High);
    assert_eq!(evidence.source, "test_source");
    assert_eq!(evidence.confidence, 1_000_000);
}

#[test]
fn test_core_evidence_builder() {
    let mut assessment = AssessmentResult::new("test", "test_assessor");
    assessment.confidence = 900_000;

    let evidence = CoreEvidence::new(
        "file:/etc/passwd",
        CoreEvidenceType::FileIntegrity,
        CoreSeverity::Critical,
        "file_integrity",
    )
    .with_confidence(950_000)
    .with_assessment(assessment)
    .with_data("key".to_string(), Value::Bool(true))
    .with_tag("important");

    assert_eq!(evidence.confidence, 950_000);
    assert!(evidence.assessment_snapshot.is_some());
    assert_eq!(evidence.data.get("key"), Some(&Value::Bool(true)));
    assert!(evidence.data.contains_key("tag:important"));
}

#[test]
fn test_from_threat_event() {
    let event = make_threat_event();
    let evidence_items = CoreEvidence::from_threat_event(&event, "hook_detection");
    assert_eq!(evidence_items.len(), 1);

    let ev = &evidence_items[0];
    assert_eq!(ev.severity, CoreSeverity::High);
    assert_eq!(ev.evidence_type, CoreEvidenceType::KernelIntegrity);
    assert_eq!(ev.source, "hook_detection");
    assert_eq!(ev.object_id, "process:1234");
    assert_eq!(ev.confidence, 850_000);
    assert_eq!(
        ev.data.get("threat_title").and_then(|v| v.as_str()),
        Some("Test hook detected")
    );
    assert!(ev.data.contains_key("tag:hook"));
    assert!(ev.data.contains_key("tag:kernel"));
    assert_eq!(
        ev.metadata_snapshot.get("hook_type"),
        Some(&Value::String("syscall".to_string()))
    );
}

#[test]
fn test_to_threat_event_roundtrip() {
    let event = make_threat_event();
    let evidence_items = CoreEvidence::from_threat_event(&event, "hook_detection");
    let reconstructed = evidence_items[0].to_threat_event();

    assert_eq!(reconstructed.severity, ThreatSeverity::High);
    assert_eq!(reconstructed.category, ThreatCategory::HookDetected);
    assert_eq!(reconstructed.source_detector, "hook_detection");
    assert!(reconstructed.tags.contains(&"hook".to_string()));
    assert!(reconstructed.tags.contains(&"kernel".to_string()));
    assert_eq!(reconstructed.title, "Test hook detected");
    assert_eq!(reconstructed.description, "A hook was detected");
    assert_eq!(reconstructed.timestamp, event.timestamp);
    assert_eq!(reconstructed.evidence[0].confidence, 850_000);
}

#[test]
fn test_from_legacy_evidence() {
    let legacy = Evidence::new(
        EvidenceType::KernelIntegrity,
        EvidenceSeverity::Critical,
        "hook_detector".to_string(),
        "Hook found".to_string(),
    )
    .with_data(
        "hook_type".to_string(),
        Value::String("syscall".to_string()),
    )
    .with_tag("hook".to_string())
    .with_confidence(900_000);

    let core = CoreEvidence::from_legacy_evidence(&legacy);
    assert_eq!(core.severity, CoreSeverity::Critical);
    assert_eq!(core.evidence_type, CoreEvidenceType::KernelIntegrity);
    assert_eq!(core.source, "hook_detector");
    assert_eq!(core.confidence, 900_000);
    assert!(core.data.contains_key("tag:hook"));
    assert_eq!(
        core.data.get("hook_type"),
        Some(&Value::String("syscall".to_string()))
    );
    assert_eq!(core.object_id, "legacy:hook_detector");
}

#[test]
fn test_into_legacy_evidence_roundtrip() {
    let core = CoreEvidence::new(
        "process:1",
        CoreEvidenceType::MemoryIntegrity,
        CoreSeverity::High,
        "test",
    )
    .with_confidence(880_000)
    .with_data("custom_key".to_string(), Value::String("value".to_string()))
    .with_tag("memory");

    let legacy = core.into_legacy_evidence();
    assert_eq!(legacy.severity, EvidenceSeverity::High);
    assert_eq!(legacy.evidence_type, EvidenceType::MemoryIntegrity);
    assert_eq!(legacy.source, "test");
    assert_eq!(legacy.confidence, 880_000);
    assert!(legacy.tags.contains(&"memory".to_string()));
    assert_eq!(
        legacy.data.get("custom_key"),
        Some(&Value::String("value".to_string()))
    );
    assert!(!legacy.data.contains_key("tag:memory"));
}

#[test]
fn test_severity_ordering() {
    assert!(CoreSeverity::Info < CoreSeverity::Low);
    assert!(CoreSeverity::Low < CoreSeverity::Medium);
    assert!(CoreSeverity::Medium < CoreSeverity::High);
    assert!(CoreSeverity::High < CoreSeverity::Critical);
}

#[test]
fn test_evidence_type_as_str() {
    assert_eq!(CoreEvidenceType::FileIntegrity.as_str(), "file_integrity");
    assert_eq!(CoreEvidenceType::KernelIntegrity.as_str(), "kernel_integrity");
    assert_eq!(
        CoreEvidenceType::PersistenceIntegrity.as_str(),
        "persistence_integrity"
    );
}

#[test]
fn test_severity_as_str() {
    assert_eq!(CoreSeverity::Info.as_str(), "info");
    assert_eq!(CoreSeverity::Critical.as_str(), "critical");
}

#[test]
fn test_threat_event_without_process() {
    let event = ThreatEvent {
        id: 42,
        timestamp: 0,
        severity: ThreatSeverity::Low,
        category: ThreatCategory::IntegrityViolation,
        title: "File modified".to_string(),
        description: "A file was modified".to_string(),
        evidence: vec![],
        mitre_attack: vec![],
        source_detector: "file_integrity".to_string(),
        process: None,
        tags: vec![],
    };

    let evidence = CoreEvidence::from_threat_event(&event, "file_integrity");
    assert_eq!(
        evidence[0].object_id,
        format!("threat:{}", uuid::Uuid::from_u128(event.id))
    );
    assert_eq!(evidence[0].confidence, 1_000_000);
    assert_eq!(
        evidence[0].data.get("threat_id").and_then(|v| v.as_str()),
        Some("00000000-0000-0000-0000-00000000002a")
    );
}

#[test]
fn legacy_roundtrip_keeps_tags_and_data() {
    let legacy = Evidence::new(
        EvidenceType::FileIntegrity,
        EvidenceSeverity::Medium,
        "fim".to_string(),
        "changed".to_string(),
    )
    .with_data("path".to_string(), Value::String("/etc/hosts".to_string()))
    .with_tag("fim".to_string())
    .with_tag("etc".to_string());
    let back = CoreEvidence::from_legacy_evidence(&legacy).into_legacy_evidence();
    assert_eq!(back.tags, legacy.tags);
    assert_eq!(back.data.len(), legacy.data.len());
    assert_eq!(back.data.get("path"), legacy.data.get("path"));
    assert_eq!(back.severity, legacy.severity);
    assert_eq!(back.evidence_type, legacy.evidence_type);
    assert_eq!(back.confidence, legacy.confidence);
    assert_eq!(back.id, legacy.id);
}

#[test]
fn threat_roundtrip_keeps_representative_categories() {
    let mut event = make_threat_event();
    event.category = ThreatCategory::MemoryTampering;
    let record = &CoreEvidence::from_threat_event(&event, "memory")[0];
    let back = record.to_threat_event();
    assert_eq!(back.category, ThreatCategory::MemoryTampering);
    assert_eq!(back.id, record.id);
    assert_eq!(back.evidence.len(), 1);

    event.category = ThreatCategory::Rootkit;
    let back = CoreEvidence::from_threat_event(&event, "memory")[0].to_threat_event();
    assert_eq!(back.category, ThreatCategory::HookDetected);
}

#[test]
fn legacy_roundtrip_leaves_no_tag_keys_in_data() {
    let legacy = Evidence::new(
        EvidenceType::FileIntegrity,
        EvidenceSeverity::Low,
        "fim".to_string(),
        "changed".to_string(),
    )
    .with_data("tag:odd".to_string(), Value::Bool(true))
    .with_data("path".to_string(), Value::String("/etc/passwd".to_string()))
    .with_tag("fim".to_string());
    let back = CoreEvidence::from_legacy_evidence(&legacy).into_legacy_evidence();
    for i in 0..back.data.len() {
        assert!(!back.data.entry(i).0.starts_with("tag:"));
    }
    assert_eq!(back.data.get("path"), legacy.data.get("path"));
    assert!(back.tags.contains(&"odd".to_string()));
}

#[test]
fn threat_id_is_written_in_hyphenated_hex() {
    let event = make_threat_event();
    let record = &CoreEvidence::from_threat_event(&event, "hook_detection")[0];
    assert_eq!(
        record.data.get("threat_id").and_then(|v| v.as_str()),
        Some("12345678-9abc-def0-1122-334455667788")
    );
}
