use sentinelx::evidence::{EvidenceType, Severity as EvidenceSeverity};
use sentinelx::hardening::SecureBootRead;
use sentinelx::kernel_integrity::{hardening_failures, kernel_path_list, KernelIntegrityDetector};
use sentinelx::memory_integrity::{readable_maps_text, MemoryIntegrityChecker};
use sentinelx::threat::{Severity, ThreatCategory};

#[test]
fn integrity_detector_metadata() {
    let d = KernelIntegrityDetector::new();
    assert_eq!(d.name(), "kernel_integrity");
    assert_eq!(d.category(), ThreatCategory::IntegrityViolation);
    let m = MemoryIntegrityChecker::new();
    assert_eq!(m.name(), "memory_integrity");
    assert_eq!(m.category(), ThreatCategory::MemoryTampering);
}

#[test]
fn kernel_integrity_reports_changes_then_hardening() {
    assert_eq!(kernel_path_list(), vec!["/proc/kallsyms".to_string(), "/proc/modules".to_string(), "/sys/module".to_string()]);
    let mut d = KernelIntegrityDetector::new();
    d.baseline(vec![Some("aa".to_string()), Some("bb".to_string()), None]);
    let current = vec![Some("aa".to_string()), Some("cc".to_string()), Some("zz".to_string())];
    let threats = d.detect(&current, Some("0"), Some("1"), Some("1"), &SecureBootRead::NoEfi);
    assert_eq!(threats.len(), 2);
    assert_eq!(threats[0].title, "Kernel integrity violation: /proc/modules");
    assert_eq!(threats[0].description, "Kernel resource /proc/modules has been modified. Baseline hash: bb, Current hash: cc");
    assert_eq!(threats[0].severity, Severity::Critical);
    assert_eq!(threats[0].mitre_attack, vec!["T1014".to_string()]);
    assert_eq!(threats[1].title, "Kernel hardening: kptr_restrict");
    assert_eq!(threats[1].description, "kptr_restrict is not hardened. Kernel pointer exposure is possible.");
    assert_eq!(threats[1].severity, Severity::Medium);
    assert_eq!(threats[1].tags, vec!["kernel".to_string(), "hardening".to_string(), "kptr_restrict".to_string()]);
    let evidence = d.collect_evidence(&current, Some("0"), Some("1"), Some("1"), &SecureBootRead::NoEfi);
    assert_eq!(evidence.len(), 2);
    assert_eq!(evidence[0].evidence_type, EvidenceType::KernelIntegrity);
    assert_eq!(evidence[0].severity, EvidenceSeverity::Critical);
    assert_eq!(evidence[1].severity, EvidenceSeverity::Medium);
    assert_eq!(evidence[1].confidence, 900_000);
}

#[test]
fn kernel_integrity_unreadable_and_secure_boot() {
    let mut d = KernelIntegrityDetector::new();
    d.baseline(vec![Some("aa".to_string()), None, None]);
    let current = vec![None, None, None];
    let threats = d.detect(&current, None, Some("0"), Some("0"), &SecureBootRead::Unreadable);
    assert_eq!(threats.len(), 3);
    assert_eq!(threats[0].title, "Kernel hardening: dmesg_restrict");
    assert_eq!(threats[0].severity, Severity::Low);
    assert_eq!(threats[1].title, "Kernel hardening: modules_disabled");
    assert_eq!(threats[1].severity, Severity::Info);
    assert_eq!(threats[2].description, "Cannot read Secure Boot status.");
    let off = hardening_failures(Some("2"), Some("1"), Some("1"), &SecureBootRead::Bytes(vec![6, 0, 0, 0, 0]));
    assert_eq!(off.len(), 1);
    assert_eq!(off[0].name, "secure_boot");
    assert_eq!(off[0].actual, "disabled");
}

#[test]
fn readable_mappings_are_selected() {
    let maps = "00400000-00452000 r-xp 00000000 08:02 173521 /usr/bin/x\n00651000-00652000 rw-p 00051000 08:02 173521 /usr/bin/x\n7f00-7f01 r--p 0 0 0 /lib/y\n";
    assert_eq!(
        readable_maps_text(maps).as_deref(),
        Some("00400000-00452000 r-xp 00000000 08:02 173521 /usr/bin/x\n7f00-7f01 r--p 0 0 0 /lib/y\n")
    );
    assert_eq!(readable_maps_text("a rw-p b\n"), None);
    assert_eq!(readable_maps_text(""), None);
}

#[test]
fn memory_integrity_reports_changed_digests() {
    let mut m = MemoryIntegrityChecker::new();
    m.baseline(Some("k1".to_string()), Some("m1".to_string()));
    assert!(m.detect(&Some("m1".to_string()), &Some("k1".to_string())).is_empty());
    let threats = m.detect(&Some("m2".to_string()), &Some("k2".to_string()));
    assert_eq!(threats.len(), 2);
    assert_eq!(threats[0].title, "SentinelX memory maps modified");
    assert_eq!(threats[0].severity, Severity::High);
    assert_eq!(threats[1].title, "/proc/kallsyms modified");
    assert_eq!(threats[1].severity, Severity::Critical);
    let only_kallsyms = m.detect(&None, &Some("k3".to_string()));
    assert_eq!(only_kallsyms.len(), 1);
    assert_eq!(only_kallsyms[0].mitre_attack, vec!["T1014".to_string()]);
    let ev = m.collect_evidence(&Some("m2".to_string()), &None);
    assert_eq!(ev.len(), 1);
    assert_eq!(ev[0].evidence_type, EvidenceType::MemoryIntegrity);
    assert_eq!(ev[0].description, "SentinelX memory maps modified");
    let fresh = MemoryIntegrityChecker::new();
    assert!(fresh.detect(&Some("m".to_string()), &Some("k".to_string())).is_empty());
}
