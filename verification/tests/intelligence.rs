use sentinelx::intelligence::{
    IntelligenceEngine, IoC, IoCType, MitreMatrix, MitreTechnique, SigmaRule, YaraRule,
};

#[test]
fn ioc_type_as_str() {
    assert_eq!(IoCType::Hash.as_str(), "hash");
    assert_eq!(IoCType::IpAddress.as_str(), "ip_address");
    assert_eq!(IoCType::Domain.as_str(), "domain");
}

#[test]
fn ioc_type_parse() {
    assert_eq!(IoCType::parse_from("hash"), Some(IoCType::Hash));
    assert_eq!(IoCType::parse_from("ip_address"), Some(IoCType::IpAddress));
    assert_eq!(IoCType::parse_from("invalid"), None);
}

#[test]
fn ioc_creation() {
    let ioc = IoC::new(IoCType::Hash, "abc123", "test")
        .with_severity("high")
        .with_confidence(900_000)
        .with_description("Test IOC");
    assert_eq!(ioc.value, "abc123");
    assert_eq!(ioc.severity, "high");
    assert_eq!(ioc.confidence, 900_000);
    assert_eq!(ioc.description, "Test IOC");
}

#[test]
fn ioc_defaults() {
    let ioc = IoC::new(IoCType::Url, "http://x", "feed");
    assert_eq!(ioc.severity, "medium");
    assert_eq!(ioc.confidence, 500_000);
    assert_eq!(ioc.first_seen, ioc.last_seen);
    assert!(ioc.expiry.is_none());
    assert_eq!(IoC::parse_type("url"), Some(IoCType::Url));
}

#[test]
fn mitre_technique_creation() {
    let t = MitreTechnique::new("T1059", "Command Execution", "execution").with_description("Test");
    assert_eq!(t.id, "T1059");
    assert_eq!(t.tactic, "execution");
    assert_eq!(t.description, "Test");
    assert_eq!(t.platforms, vec!["Linux".to_string()]);
}

#[test]
fn mitre_matrix_defaults() {
    let matrix = MitreMatrix::load_defaults();
    assert!(!matrix.techniques.is_empty());
    assert!(matrix.find_technique("T1059").is_some());
    assert!(!matrix.techniques_for_tactic("execution").is_empty());
    assert!(matrix.find_technique("T0000").is_none());
}

#[test]
fn all_ioc_types_parse_roundtrip() {
    let types = vec![
        IoCType::Hash,
        IoCType::IpAddress,
        IoCType::Domain,
        IoCType::Filename,
        IoCType::ProcessName,
        IoCType::ModuleName,
        IoCType::Url,
        IoCType::Email,
    ];
    for t in &types {
        let s = t.as_str();
        let parsed = IoCType::parse_from(s);
        assert_eq!(parsed.as_ref(), Some(t));
    }
}

#[test]
fn engine_creation() {
    let engine = IntelligenceEngine::new();
    assert_eq!(engine.ioc_count(), 0);
    assert!(!engine.list_mitre_techniques().is_empty());
}

#[test]
fn engine_add_and_get_ioc() {
    let mut engine = IntelligenceEngine::new();
    let ioc = IoC::new(IoCType::Hash, "abc123def", "test")
        .with_severity("high")
        .with_confidence(900_000);
    engine.add_ioc(ioc);
    let found = engine.check_hash("abc123def");
    assert!(found.is_some());
    assert_eq!(found.unwrap().severity, "high");
    assert!(engine.get_ioc(IoCType::Hash, "abc123def").is_some());
    assert!(engine.get_ioc(IoCType::Domain, "abc123def").is_none());
}

#[test]
fn engine_replaces_same_indicator() {
    let mut engine = IntelligenceEngine::new();
    engine.add_ioc(IoC::new(IoCType::Domain, "evil.example", "a").with_severity("low"));
    engine.add_ioc(IoC::new(IoCType::Domain, "evil.example", "b").with_severity("high"));
    assert_eq!(engine.ioc_count(), 1);
    assert_eq!(engine.check_domain("evil.example").unwrap().severity, "high");
}

#[test]
fn engine_ioc_by_type() {
    let mut engine = IntelligenceEngine::new();
    engine.add_ioc(IoC::new(IoCType::Hash, "h1", "test"));
    engine.add_ioc(IoC::new(IoCType::IpAddress, "1.2.3.4", "test"));
    assert_eq!(engine.list_iocs_by_type(IoCType::Hash).len(), 1);
    assert_eq!(engine.list_iocs().len(), 2);
    let counts = engine.iocs_by_type_count();
    assert!(counts.iter().any(|(k, n)| k == "hash" && *n == 1));
    assert!(counts.iter().any(|(k, n)| k == "ip_address" && *n == 1));
}

#[test]
fn engine_check_ip() {
    let mut engine = IntelligenceEngine::new();
    engine.add_ioc(IoC::new(IoCType::IpAddress, "10.0.0.1", "test").with_severity("critical"));
    let found = engine.check_ip("10.0.0.1");
    assert!(found.is_some());
    assert_eq!(found.unwrap().severity, "critical");
    assert!(engine.check_ip("10.0.0.2").is_none());
}

#[test]
fn engine_remove_and_clear() {
    let mut engine = IntelligenceEngine::new();
    engine.add_ioc(IoC::new(IoCType::Email, "a@b.c", "t"));
    assert!(engine.remove_ioc(IoCType::Email, "a@b.c"));
    assert!(!engine.remove_ioc(IoCType::Email, "a@b.c"));
    engine.add_ioc(IoC::new(IoCType::Email, "a@b.c", "t"));
    engine.clear();
    assert_eq!(engine.ioc_count(), 0);
}

#[test]
fn engine_mitre_techniques() {
    let engine = IntelligenceEngine::new();
    assert!(!engine.list_mitre_techniques().is_empty());
    assert!(engine.find_mitre_technique("T1059").is_some());
    assert!(!engine.mitre_techniques_for_tactic("execution").is_empty());
}

#[test]
fn yara_rule_creation() {
    let rule = YaraRule::new("test_rule", "rule test { condition: true }")
        .with_description("Test")
        .with_severity("high");
    assert_eq!(rule.name, "test_rule");
    assert!(rule.enabled);
    assert_eq!(rule.severity, "high");
}

#[test]
fn sigma_rule_creation() {
    let rule = SigmaRule::new("test_sigma").with_description("Test detection");
    assert_eq!(rule.name, "test_sigma");
    assert!(rule.enabled);
    let rule = rule.with_logsource_product("linux").with_logsource_category("process_creation");
    assert_eq!(rule.logsource.product.as_deref(), Some("linux"));
    assert_eq!(rule.logsource.category.as_deref(), Some("process_creation"));
    assert!(rule.logsource.service.is_none());
}

#[test]
fn engine_yara_rules() {
    let mut engine = IntelligenceEngine::new();
    engine.add_yara_rule(YaraRule::new("test_rule", "rule test { condition: true }"));
    let rules = engine.list_yara_rules();
    assert_eq!(rules.len(), 1);
    assert_eq!(rules[0].name, "test_rule");
    assert!(engine.find_yara_rule("test_rule").is_some());
    assert!(engine.get_yara_rule("other").is_none());
}

#[test]
fn engine_sigma_rules() {
    let mut engine = IntelligenceEngine::new();
    engine.add_sigma_rule(SigmaRule::new("test_sigma"));
    assert_eq!(engine.list_sigma_rules().len(), 1);
    assert!(engine.get_sigma_rule("test_sigma").is_some());
    assert!(engine.find_sigma_rule("nope").is_none());
}

#[test]
fn engine_remove_ioc() {
    let mut engine = IntelligenceEngine::new();
    engine.add_ioc(IoC::new(IoCType::Hash, "to_remove", "test"));
    assert_eq!(engine.ioc_count(), 1);
    assert!(engine.remove_ioc(IoCType::Hash, "to_remove"));
    assert_eq!(engine.ioc_count(), 0);
}

#[test]
fn engine_clear() {
    let mut engine = IntelligenceEngine::new();
    engine.add_ioc(IoC::new(IoCType::Hash, "h1", "test"));
    engine.add_yara_rule(YaraRule::new("r1", "rule {}"));
    engine.clear();
    assert_eq!(engine.ioc_count(), 0);
    assert!(engine.list_yara_rules().is_empty());
}

#[test]
fn engine_lookups_by_kind_name() {
    let mut engine = IntelligenceEngine::new();
    engine.add_ioc(IoC::new(IoCType::Domain, "bad.example", "t"));
    engine.add_ioc(IoC::new(IoCType::Hash, "abc", "t"));
    assert!(engine.get_ioc_by_str("domain", "bad.example").is_some());
    assert!(engine.get_ioc_by_str("nonsense", "bad.example").is_none());
    assert!(!engine.remove_ioc_by_str("nonsense", "abc"));
    assert!(engine.remove_ioc_by_str("hash", "abc"));
    assert_eq!(engine.list_iocs_limit(10).len(), 1);
    assert_eq!(engine.list_iocs_limit(0).len(), 0);
    assert!(engine.get_mitre_technique("T1059").is_some());
}
