use sentinelx::evidence::EvidenceError;
use sentinelx::evidence::{contains_id, contains_string, Evidence, EvidenceStore, EvidenceType, Severity};

fn ev(t: EvidenceType, s: Severity, source: &str) -> Evidence {
    Evidence::new(t, s, source.to_string(), "d".to_string())
}

#[test]
fn store_queries() {
    let mut store = EvidenceStore::new();
    assert!(store.is_empty());
    let a = ev(EvidenceType::FileIntegrity, Severity::High, "fim").with_tag("etc".to_string());
    let a_id = a.id;
    store.add_evidence(a);
    store.add_batch(vec![
        ev(EvidenceType::KernelIntegrity, Severity::Low, "kern").with_confidence(300_000),
        ev(EvidenceType::FileIntegrity, Severity::Low, "fim").with_related_evidence(a_id),
    ]);
    assert_eq!(store.len(), 3);
    assert_eq!(store.get_evidence_by_type(&EvidenceType::FileIntegrity).len(), 2);
    assert_eq!(store.get_evidence_by_severity(&Severity::Low).len(), 2);
    assert_eq!(store.get_evidence_by_source("fim").len(), 2);
    assert_eq!(store.get_evidence_by_tag("etc").len(), 1);
    assert_eq!(store.get_high_confidence_evidence(500_000).len(), 2);
    assert_eq!(store.get_related_evidence(a_id).len(), 1);
    assert_eq!(store.unique_sources(), vec!["fim".to_string(), "kern".to_string()]);
    assert_eq!(store.unique_tags(), vec!["etc".to_string()]);
    store.clear();
    assert_eq!(store.len(), 0);
}

#[test]
fn severity_names() {
    assert_eq!(Severity::from_common("critical"), Severity::Critical);
    assert_eq!(Severity::from_common("weird"), Severity::Info);
    assert_eq!(Severity::High.as_str(), "high");
    assert_eq!(EvidenceType::KernelIntegrity.variant_str(), "KernelIntegrity");
}

#[test]
fn membership_helpers() {
    let v = vec!["a".to_string(), "b".to_string()];
    assert!(contains_string(&v, "b"));
    assert!(!contains_string(&v, "c"));
    assert!(contains_id(&vec![1, 2, 3], 2));
    assert!(!contains_id(&vec![], 2));
}

#[test]
fn evidence_error_messages() {
    assert_eq!(EvidenceError::StorageError("disk".to_string()).message(), "Evidence storage error: disk");
    assert_eq!(EvidenceError::ValidationError("v".to_string()).message(), "Evidence validation error: v");
    assert_eq!(EvidenceError::SerializationError("s".to_string()).message(), "Evidence serialization error: s");
}

#[test]
fn new_ids_are_version_four() {
    let e = Evidence::new(EvidenceType::KernelIntegrity, Severity::Low, "s".to_string(), "d".to_string());
    assert_eq!((e.id >> 76) & 0xf, 4);
    assert_eq!((e.id >> 62) & 3, 2);
}
