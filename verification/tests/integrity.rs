use sentinelx::evidence::{EvidenceType, Severity as EvidenceSeverity};
use sentinelx::integrity::{
    critical_file_list, BaselineRecord, FileObservation, IntegrityBaseline, IntegrityChecker,
};
use sentinelx::threat::{Severity, ThreatCategory};
use sentinelx::value::Value;

fn record(path: &str, hash: &str, mode: u32) -> BaselineRecord {
    BaselineRecord { path: path.to_string(), hash: hash.to_string(), size: 11, permissions: mode, checked_at: 0 }
}

fn read(hash: &str, mode: Option<u32>) -> FileObservation {
    FileObservation::Read { hash: hash.to_string(), mode }
}

#[test]
fn new_baseline_is_empty() {
    let baseline = IntegrityBaseline::new();
    assert!(baseline.records().is_empty());
}

#[test]
fn record_and_verify_no_violations() {
    let mut baseline = IntegrityBaseline::new();
    baseline.add_record(record("/tmp/a", "aa", 0o644));
    let violations = baseline.verify(&vec![read("aa", Some(0o644))], "e3b0");
    assert!(violations.is_empty());
}

#[test]
fn detect_modification() {
    let mut baseline = IntegrityBaseline::new();
    baseline.add_record(record("/tmp/a", "aa", 0o644));
    let violations = baseline.verify(&vec![read("bb", Some(0o644))], "e3b0");
    assert_eq!(violations.len(), 1);
    assert_eq!(violations[0].path, "/tmp/a");
    assert_eq!(violations[0].severity, Severity::High);
    assert_eq!(violations[0].actual_hash, "bb");
}

#[test]
fn detect_permission_change() {
    let mut baseline = IntegrityBaseline::new();
    baseline.add_record(record("/tmp/a", "aa", 0o644));
    let violations = baseline.verify(&vec![read("aa", Some(0o777))], "e3b0");
    assert_eq!(violations.len(), 1);
    assert_eq!(violations[0].severity, Severity::Critical);
}

#[test]
fn unreadable_and_mode_unknown_cases() {
    let mut baseline = IntegrityBaseline::new();
    baseline.add_record(record("/a", "aa", 1));
    baseline.add_record(record("/b", "bb", 1));
    baseline.add_record(record("/c", "cc", 1));
    let v = baseline.verify(
        &vec![FileObservation::Unreadable, read("xx", None), read("cc", None)],
        "e3b0",
    );
    assert_eq!(v.len(), 2);
    assert_eq!((v[0].path.as_str(), v[0].actual_hash.as_str(), v[0].severity), ("/a", "e3b0", Severity::Critical));
    assert_eq!((v[1].path.as_str(), v[1].severity), ("/b", Severity::Critical));
}

#[test]
fn checker_detector_metadata() {
    let d = IntegrityChecker::new();
    assert_eq!(d.name(), "file_integrity");
    assert_eq!(d.category(), ThreatCategory::IntegrityViolation);
    assert_eq!(d.severity(), Severity::Critical);
    assert_eq!(d.get_evidence_type(), EvidenceType::FileIntegrity);
    assert_eq!(d.get_source(), "file_integrity");
    assert!(d.description().contains("critical system files"));
}

#[test]
fn checker_reports_modified_and_unreadable_files() {
    let files = critical_file_list();
    assert_eq!(files.len(), 6);
    let mut checker = IntegrityChecker::new();
    let mut base = vec![None; 6];
    base[0] = Some("h0".to_string());
    base[1] = Some("h1".to_string());
    base[2] = Some("h2".to_string());
    checker.baseline(base);

    let mut now = vec![None; 6];
    now[0] = Some("h0".to_string());
    now[1] = Some("changed".to_string());
    now[3] = Some("no-baseline".to_string());
    let threats = checker.check_files(&now);
    assert_eq!(threats.len(), 2);
    assert_eq!(threats[0].title, "Integrity violation: /etc/shadow");
    assert_eq!(
        threats[0].description,
        "Critical system file /etc/shadow has been modified since baseline. Expected hash h1 but found changed."
    );
    assert_eq!(threats[0].evidence[0].confidence, 1_000_000);
    assert_eq!(threats[0].mitre_attack, vec!["T1070.006".to_string()]);
    assert_eq!(threats[1].title, "Critical file unreadable: /etc/sudoers");
    assert_eq!(threats[1].evidence[0].confidence, 950_000);
    assert_eq!(threats[1].tags, vec!["integrity".to_string(), "critical_file".to_string(), "unreadable".to_string()]);

    let evidence = checker.collect_evidence(&now);
    assert_eq!(evidence.len(), 2);
    assert_eq!(evidence[0].description, "Integrity violation: /etc/shadow");
    assert_eq!(evidence[0].severity, EvidenceSeverity::Critical);
    assert_eq!(evidence[0].data.get("current_hash"), Some(&Value::String("changed".to_string())));
    assert_eq!(evidence[1].data.get("baseline_hash"), Some(&Value::String("h2".to_string())));
    assert_eq!(evidence[1].tags.last().map(|s| s.as_str()), Some("unreadable"));
}

#[test]
fn later_baseline_replaces_earlier_digest() {
    let mut checker = IntegrityChecker::new();
    let mut first = vec![None; 6];
    first[5] = Some("old".to_string());
    checker.baseline(first);
    let mut second = vec![None; 6];
    second[5] = Some("new".to_string());
    checker.baseline(second);
    let mut now = vec![None; 6];
    now[5] = Some("new".to_string());
    assert!(checker.check_files(&now).is_empty());
}
