use sentinelx::assessment::{AssessmentResult, RiskLevel};
use sentinelx::core_evidence::{CoreEvidenceType, CoreSeverity};
use sentinelx::object::{CoreError, ObjectType, SentinelObject};
use sentinelx::pipeline::{collect_discovered, record_assessment, DiscoveryResult, PipelineCoordinator};

fn found(provider: &str, n: usize) -> DiscoveryResult {
    DiscoveryResult {
        provider: provider.to_string(),
        objects: (0..n)
            .map(|i| SentinelObject::new(ObjectType::Process, provider, &format!("proc_{}", i)))
            .collect(),
        timestamp: 0,
        duration_ms: 1,
    }
}

#[test]
fn discovered_objects_are_concatenated() {
    let objects = collect_discovered(vec![found("a", 2), found("b", 0), found("c", 3)]);
    assert_eq!(objects.len(), 5);
    assert_eq!(objects[0].source, "a");
    assert_eq!(objects[2].source, "c");
    assert!(collect_discovered(vec![]).is_empty());
}

#[test]
fn assessments_are_recorded_only_on_success() {
    let mut o = SentinelObject::new(ObjectType::File, "s", "/bin/ls");
    assert!(record_assessment(&mut o, Ok(AssessmentResult::new("file:/bin/ls", "a"))));
    assert!(!record_assessment(&mut o, Err(CoreError::Assessment("x".to_string()))));
    assert_eq!(o.assessments.len(), 1);
}

#[test]
fn pipeline_run_raises_and_keeps_evidence() {
    let mut coordinator = PipelineCoordinator::new();
    let mut objects = collect_discovered(vec![found("mock", 3)]);
    record_assessment(
        &mut objects[1],
        Ok(AssessmentResult::new("process:proc_1", "risky").with_risk(RiskLevel::Critical).with_confidence(900_000)),
    );
    record_assessment(&mut objects[2], Ok(AssessmentResult::new("process:proc_2", "calm")));
    let result = coordinator.complete_run(objects, 0, 2, 5);
    assert_eq!(result.objects_discovered, 3);
    assert_eq!(result.objects_assessed, 2);
    assert_eq!(result.evidence_count, 1);
    assert_eq!(result.evidence[0].object_id, "process:proc_1");
    assert_eq!(result.evidence[0].severity, CoreSeverity::Critical);
    assert_eq!(result.evidence[0].evidence_type, CoreEvidenceType::ProcessIntegrity);
    assert_eq!(result.evidence[0].confidence, 900_000);
    assert_eq!(coordinator.get_evidence().len(), 1);

    let again = coordinator.complete_run(result.objects, 0, 2, 5);
    assert_eq!(again.evidence_count, 1);
    assert_eq!(coordinator.get_evidence().len(), 2);
    coordinator.clear_evidence();
    assert!(coordinator.get_evidence().is_empty());
}

#[test]
fn unassessed_objects_raise_no_evidence() {
    let mut coordinator = PipelineCoordinator::new();
    let objects = collect_discovered(vec![found("mock", 4)]);
    let result = coordinator.complete_run(objects, 0, 0, 0);
    assert_eq!(result.evidence_count, 0);
    assert_eq!(result.objects_discovered, 4);
    assert!(result.evidence.is_empty());
}
