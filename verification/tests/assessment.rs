use sentinelx::assessment::{
    clamped_confidence, AssessmentResult, IntegrityLevel, ReputationLevel, RiskLevel, TrustLevel,
    CONFIDENCE_ONE,
};

#[test]
fn test_trust_level_as_str() {
    assert_eq!(TrustLevel::Trusted.as_str(), "trusted");
    assert_eq!(TrustLevel::Untrusted.as_str(), "untrusted");
    assert_eq!(TrustLevel::Unknown.as_str(), "unknown");
}

#[test]
fn test_risk_level_ordering() {
    assert!(RiskLevel::NoRisk < RiskLevel::Low);
    assert!(RiskLevel::Low < RiskLevel::Medium);
    assert!(RiskLevel::Medium < RiskLevel::High);
    assert!(RiskLevel::High < RiskLevel::Critical);
}

#[test]
fn test_assessment_result_builder() {
    let result = AssessmentResult::new("process:1234", "test_assessor")
        .with_trust(TrustLevel::Trusted)
        .with_integrity(IntegrityLevel::Intact)
        .with_confidence(950_000)
        .with_risk(RiskLevel::Low)
        .with_reputation(ReputationLevel::Known);

    assert_eq!(result.object_id, "process:1234");
    assert_eq!(result.trust, TrustLevel::Trusted);
    assert_eq!(result.integrity, IntegrityLevel::Intact);
    assert_eq!(result.confidence, 950_000);
    assert_eq!(result.risk, RiskLevel::Low);
    assert_eq!(result.reputation, ReputationLevel::Known);
    assert_eq!(result.assessor, "test_assessor");
}

#[test]
fn test_confidence_clamped() {
    let result = AssessmentResult::new("test", "test").with_confidence(2_000_000);
    assert_eq!(result.confidence, CONFIDENCE_ONE);

    let result = AssessmentResult::new("test", "test").with_confidence(-1_000_000);
    assert_eq!(result.confidence, 0);
}

#[test]
fn test_risk_level_as_str() {
    assert_eq!(RiskLevel::NoRisk.as_str(), "none");
    assert_eq!(RiskLevel::Critical.as_str(), "critical");
}

#[test]
fn test_reputation_level_as_str() {
    assert_eq!(ReputationLevel::Known.as_str(), "known");
    assert_eq!(ReputationLevel::Malicious.as_str(), "malicious");
}

#[test]
fn clamped_confidence_keeps_values_in_range() {
    assert_eq!(clamped_confidence(0), 0);
    assert_eq!(clamped_confidence(500_000), 500_000);
    assert_eq!(clamped_confidence(1_000_000), 1_000_000);
    assert_eq!(clamped_confidence(1_000_001), 1_000_000);
    assert_eq!(clamped_confidence(-5), 0);
}

#[test]
fn assessment_result_defaults_and_duplicate() {
    let r = AssessmentResult::new("file:/bin/ls", "checker");
    assert_eq!(r.trust, TrustLevel::Unknown);
    assert_eq!(r.integrity, IntegrityLevel::Unknown);
    assert_eq!(r.risk, RiskLevel::NoRisk);
    assert_eq!(r.reputation, ReputationLevel::Unknown);
    let d = r.duplicate();
    assert_eq!(d.object_id, r.object_id);
    assert_eq!(d.assessor, r.assessor);
    assert_eq!(d.confidence, r.confidence);
}
