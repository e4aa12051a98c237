use sentinelx::evidence_correlator::{EvidenceCorrelator, EvidenceNode};
use sentinelx::evidence_rules::{CorrelationRuleConfig, EvidenceCorrelationRule};

fn make_evidence(
    id: &str,
    object_id: &str,
    evidence_type: &str,
    severity: &str,
    confidence: u32,
    source: &str,
) -> EvidenceNode {
    EvidenceNode {
        evidence_id: id.to_string(),
        object_id: object_id.to_string(),
        evidence_type: evidence_type.to_string(),
        severity: severity.to_string(),
        confidence,
        source: source.to_string(),
        timestamp: 1_700_000_000_000_000,
        assessment_risk: Some(60),
    }
}

fn rule(name: &str, requires: &[&str], min_evidence: usize, mitre: &[&str]) -> EvidenceCorrelationRule {
    EvidenceCorrelationRule {
        name: name.to_string(),
        description: "Test correlation".to_string(),
        enabled: true,
        requires: requires.iter().map(|s| s.to_string()).collect(),
        min_evidence,
        min_confidence: 500_000,
        min_assessment_risk: 30,
        time_window_seconds: 300,
        severity: "high".to_string(),
        mitre_techniques: mitre.iter().map(|s| s.to_string()).collect(),
        recommended_response: "Test".to_string(),
    }
}

#[test]
fn test_default_config_parses() {
    let config = CorrelationRuleConfig::load_default();
    assert!(!config.rules.is_empty());
    assert_eq!(config.rules.len(), 7);
}

#[test]
fn test_enabled_rules() {
    let config = CorrelationRuleConfig::load_default();
    let enabled = config.enabled_rules();
    assert_eq!(enabled.len(), config.rules.len());
}

#[test]
fn test_find_rule() {
    let config = CorrelationRuleConfig::load_default();
    let rule = config.find_rule("kernel_rootkit");
    assert!(rule.is_some());
    assert_eq!(rule.unwrap().severity, "critical");
    assert!(config.find_rule("nope").is_none());
}

#[test]
fn test_rule_requires() {
    let config = CorrelationRuleConfig::load_default();
    let rule = config.find_rule("kernel_rootkit").unwrap();
    assert_eq!(rule.requires.len(), 3);
    assert!(rule.requires.contains(&"HiddenProcess".to_string()));
}

#[test]
fn disabled_rules_are_not_listed() {
    let mut r = rule("off", &["X"], 1, &[]);
    r.enabled = false;
    let config = CorrelationRuleConfig { rules: vec![r, rule("on", &["Y"], 1, &[])] };
    let enabled = config.enabled_rules();
    assert_eq!(enabled.len(), 1);
    assert_eq!(enabled[0].name, "on");
}

#[test]
fn evidence_correlator_test_add_evidence() {
    let mut correlator = EvidenceCorrelator::new();
    correlator.add_evidence(make_evidence("e1", "process:1", "ProcessIntegrity", "high", 900_000, "scanner"));
    assert_eq!(correlator.evidence_count(), 1);
    assert_eq!(correlator.graph().node_count(), 1);
}

#[test]
fn test_build_relationships() {
    let mut correlator = EvidenceCorrelator::new();
    correlator.add_evidence(make_evidence("e1", "process:1", "ProcessIntegrity", "high", 900_000, "scanner"));
    correlator.add_evidence(make_evidence("e2", "process:1", "MemoryIntegrity", "high", 850_000, "scanner"));
    correlator.build_relationships();
    let edges = correlator.graph().get_edges_from("e1");
    assert!(!edges.is_empty());
    assert_eq!(edges.len(), 2);
}

#[test]
fn test_correlate_with_matching_rule() {
    let config = CorrelationRuleConfig {
        rules: vec![rule("test_rule", &["ProcessIntegrity", "MemoryIntegrity"], 2, &["T1234"])],
    };
    let mut correlator = EvidenceCorrelator::with_rules(config);
    correlator.add_evidence(make_evidence("e1", "process:1", "ProcessIntegrity", "high", 900_000, "scanner"));
    correlator.add_evidence(make_evidence("e2", "process:1", "MemoryIntegrity", "high", 850_000, "scanner"));

    let results = correlator.correlate();
    assert!(!results.is_empty());
    assert_eq!(results[0].rule_name, "test_rule");
    assert_eq!(results[0].confidence, 875_000);
    assert_eq!(results[0].object_ids, vec!["process:1".to_string()]);
    assert_eq!(results[0].evidence_ids.len(), 2);
    assert_eq!(results[0].title, "test_rule: Test correlation");
    assert_eq!(results[0].mitre_techniques, vec!["T1234".to_string()]);
    assert_eq!(correlator.correlated().len(), 1);
}

#[test]
fn test_correlate_no_match() {
    let config = CorrelationRuleConfig { rules: vec![rule("test_rule", &["KernelIntegrity"], 1, &[])] };
    let mut correlator = EvidenceCorrelator::with_rules(config);
    correlator.add_evidence(make_evidence("e1", "process:1", "ProcessIntegrity", "high", 900_000, "scanner"));
    let results = correlator.correlate();
    assert!(results.is_empty());
}

#[test]
fn low_confidence_does_not_fire() {
    let config = CorrelationRuleConfig { rules: vec![rule("r", &[], 1, &[])] };
    let mut correlator = EvidenceCorrelator::with_rules(config);
    correlator.add_evidence(make_evidence("e1", "process:1", "Any", "low", 100_000, "s"));
    assert!(correlator.correlate().is_empty());
}

#[test]
fn evidence_correlator_test_clear() {
    let mut correlator = EvidenceCorrelator::new();
    correlator.add_evidence(make_evidence("e1", "process:1", "ProcessIntegrity", "high", 900_000, "scanner"));
    correlator.clear();
    assert_eq!(correlator.evidence_count(), 0);
    assert_eq!(correlator.graph().node_count(), 0);
}

const RULE_FILE: &str = r#"
[[rules]]
name = "kernel_rootkit"
description = "Detects kernel rootkit: hidden process + kernel hook + hidden module"
enabled = true
requires = ["HiddenProcess", "KernelHook", "HiddenModule"]
min_evidence = 3
min_confidence = 0.95
min_assessment_risk = 70
time_window_seconds = 300
severity = "critical"
mitre_techniques = ["T1014", "T1055"]
recommended_response = "Isolate host immediately. Collect forensic snapshot. Kill malicious process."

[[rules]]
name = "privilege_escalation_chain"
description = "Detects privilege escalation followed by persistence"
enabled = true
requires = ["ProcessIntegrity", "PersistenceIntegrity"]
min_evidence = 2
min_confidence = 0.80
min_assessment_risk = 50
time_window_seconds = 600
severity = "high"
mitre_techniques = ["T1068", "T1543"]
recommended_response = "Investigate process tree. Check for unauthorized service creation."

[[rules]]
name = "network_exfiltration"
description = "Detects potential data exfiltration via suspicious network activity"
enabled = true
requires = ["NetworkIntegrity", "ProcessIntegrity"]
min_evidence = 2
min_confidence = 0.70
min_assessment_risk = 40
time_window_seconds = 300
severity = "high"
mitre_techniques = ["T1041", "T1048"]
recommended_response = "Monitor network traffic. Review process network connections."

[[rules]]
name = "file_tampering"
description = "Detects critical file modification with integrity violations"
enabled = true
requires = ["FileIntegrity", "PersistenceIntegrity"]
min_evidence = 2
min_confidence = 0.75
min_assessment_risk = 60
time_window_seconds = 300
severity = "high"
mitre_techniques = ["T1565", "T1542"]
recommended_response = "Restore file from backup. Check for persistence mechanisms."

[[rules]]
name = "memory_manipulation"
description = "Detects suspicious memory region modifications"
enabled = true
requires = ["MemoryIntegrity", "ProcessIntegrity"]
min_evidence = 2
min_confidence = 0.80
min_assessment_risk = 50
time_window_seconds = 300
severity = "high"
mitre_techniques = ["T1055", "T1620"]
recommended_response = "Analyze process memory. Check for code injection."

[[rules]]
name = "multi_indicator_anomaly"
description = "Multiple evidence types from same source indicating compromise"
enabled = true
requires = []
min_evidence = 3
min_confidence = 0.60
min_assessment_risk = 30
time_window_seconds = 600
severity = "medium"
mitre_techniques = ["T1497"]
recommended_response = "Enhanced monitoring. Review all related evidence and assessments."

[[rules]]
name = "suspicious_persistence"
description = "Suspicious persistence mechanism detected"
enabled = true
requires = ["PersistenceIntegrity"]
min_evidence = 1
min_confidence = 0.70
min_assessment_risk = 40
time_window_seconds = 300
severity = "medium"
mitre_techniques = ["T1543", "T1547"]
recommended_response = "Review persistence locations. Verify service integrity."
"#;

fn texts(v: &toml::Value) -> Vec<String> {
    v.as_array().unwrap().iter().map(|s| s.as_str().unwrap().to_string()).collect()
}

#[test]
fn built_in_rules_match_the_rule_file() {
    let table: toml::Table = RULE_FILE.parse().unwrap();
    let file_rules = table["rules"].as_array().unwrap();
    let built_in = CorrelationRuleConfig::load_default().rules;
    assert_eq!(built_in.len(), file_rules.len());
    for (r, f) in built_in.iter().zip(file_rules.iter()) {
        assert_eq!(r.name, f["name"].as_str().unwrap());
        assert_eq!(r.description, f["description"].as_str().unwrap());
        assert_eq!(r.enabled, f["enabled"].as_bool().unwrap());
        assert_eq!(r.requires, texts(&f["requires"]));
        assert_eq!(r.min_evidence as i64, f["min_evidence"].as_integer().unwrap());
        let conf = (f["min_confidence"].as_float().unwrap() * 1_000_000.0).round() as u32;
        assert_eq!(r.min_confidence, conf);
        assert_eq!(r.min_assessment_risk as i64, f["min_assessment_risk"].as_integer().unwrap());
        assert_eq!(r.time_window_seconds, f["time_window_seconds"].as_integer().unwrap());
        assert_eq!(r.severity, f["severity"].as_str().unwrap());
        assert_eq!(r.mitre_techniques, texts(&f["mitre_techniques"]));
        assert_eq!(r.recommended_response, f["recommended_response"].as_str().unwrap());
    }
}

#[test]
fn kernel_rootkit_needs_every_required_type() {
    let mut correlator = EvidenceCorrelator::new();
    for id in ["h1", "h2", "h3"] {
        let mut e = make_evidence(id, "process:9", "HiddenProcess", "critical", 1_000_000, "scanner");
        e.assessment_risk = Some(80);
        correlator.add_evidence(e);
    }
    assert!(correlator.correlate().iter().all(|c| c.rule_name != "kernel_rootkit"));
    let mut hook = make_evidence("k1", "process:9", "KernelHook", "critical", 1_000_000, "scanner");
    hook.assessment_risk = Some(80);
    correlator.add_evidence(hook);
    let mut module = make_evidence("m1", "process:9", "HiddenModule", "critical", 1_000_000, "scanner");
    module.assessment_risk = Some(80);
    correlator.add_evidence(module);
    assert!(correlator.correlate().iter().any(|c| c.rule_name == "kernel_rootkit"));
}
