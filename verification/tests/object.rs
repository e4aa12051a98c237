use sentinelx::assessment::{AssessmentResult, RiskLevel};
use sentinelx::core_evidence::{CoreEvidenceType, CoreSeverity};
use sentinelx::object::{
    assessor_applies, count_enriched, evidence_from_assessments, CoreError, ObjectMetadata,
    ObjectRelationship, ObjectType, OwnershipInfo, PermissionInfo, RelationshipType,
    SentinelObject,
};
use sentinelx::value::Value;

#[test]
fn test_object_type_as_str() {
    assert_eq!(ObjectType::Process.as_str(), "process");
    assert_eq!(ObjectType::KernelModule.as_str(), "kernel_module");
    assert_eq!(ObjectType::File.as_str(), "file");
    assert_eq!(ObjectType::Container.as_str(), "container");
}

#[test]
fn test_create_object() {
    let obj = SentinelObject::new(ObjectType::Process, "process_scanner", "1234");
    assert_eq!(obj.id, "process:1234");
    assert_eq!(obj.object_type, ObjectType::Process);
    assert_eq!(obj.source, "process_scanner");
    assert!(obj.relationships.is_empty());
    assert!(obj.assessments.is_empty());
    assert!(obj.evidence_refs.is_empty());
}

#[test]
fn test_object_with_metadata() {
    let meta = ObjectMetadata::new()
        .with_property("name", Value::String("bash".to_string()))
        .with_tag("shell");
    let obj = SentinelObject::new(ObjectType::Process, "test", "1").with_metadata(meta);

    assert_eq!(
        obj.metadata.properties.get("name").unwrap(),
        &Value::String("bash".to_string())
    );
    assert!(obj.metadata.tags.contains(&"shell".to_string()));
}

#[test]
fn test_object_with_relationships() {
    let obj = SentinelObject::new(ObjectType::Process, "test", "1").with_relationship(
        ObjectRelationship {
            relationship_type: RelationshipType::Parent,
            target_id: "process:0".to_string(),
        },
    );
    assert_eq!(obj.relationships.len(), 1);
    assert_eq!(obj.relationships[0].target_id, "process:0");
}

#[test]
fn test_object_with_ownership() {
    let meta = ObjectMetadata::new().with_ownership(OwnershipInfo {
        uid: 0,
        gid: 0,
        user: "root".to_string(),
        group: "root".to_string(),
    });
    let obj = SentinelObject::new(ObjectType::File, "test", "/etc/passwd").with_metadata(meta);
    assert!(obj.metadata.ownership.is_some());
    assert_eq!(obj.metadata.ownership.as_ref().unwrap().user, "root");
}

#[test]
fn test_object_with_permissions() {
    let meta = ObjectMetadata::new().with_permissions(PermissionInfo {
        mode: 0o4755,
        is_executable: true,
        is_world_writable: false,
        is_setuid: true,
        is_setgid: false,
    });
    let obj = SentinelObject::new(ObjectType::File, "test", "/usr/bin/su").with_metadata(meta);
    let perms = obj.metadata.permissions.as_ref().unwrap();
    assert!(perms.is_setuid);
    assert!(perms.is_executable);
}

#[test]
fn test_metadata_default() {
    let meta = ObjectMetadata::new();
    assert!(meta.properties.is_empty());
    assert!(meta.ownership.is_none());
    assert!(meta.hashes.is_empty());
    assert!(meta.tags.is_empty());
}

#[test]
fn enrichment_is_counted_beyond_tags() {
    let tagged = SentinelObject::new(ObjectType::File, "t", "a")
        .with_metadata(ObjectMetadata::new().with_tag("x"));
    let with_prop = SentinelObject::new(ObjectType::File, "t", "b")
        .with_metadata(ObjectMetadata::new().with_property("size", Value::Null));
    let bare = SentinelObject::new(ObjectType::File, "t", "c");
    assert!(!tagged.metadata.is_enriched());
    assert!(with_prop.metadata.is_enriched());
    let objects = vec![tagged, with_prop, bare];
    assert_eq!(count_enriched(&objects), 1);
}

#[test]
fn assessor_applies_to_listed_types_or_all() {
    assert!(assessor_applies(&vec![], ObjectType::Socket));
    assert!(assessor_applies(&vec![ObjectType::File, ObjectType::Process], ObjectType::Process));
    assert!(!assessor_applies(&vec![ObjectType::File], ObjectType::Process));
}

#[test]
fn evidence_is_raised_only_for_risky_assessments() {
    let mut obj = SentinelObject::new(ObjectType::KernelModule, "scan", "rootkit");
    obj.assessments
        .push(AssessmentResult::new("kernel_module:rootkit", "a1").with_risk(RiskLevel::NoRisk));
    obj.assessments.push(
        AssessmentResult::new("kernel_module:rootkit", "a2")
            .with_risk(RiskLevel::High)
            .with_confidence(700_000),
    );
    let quiet = SentinelObject::new(ObjectType::Process, "scan", "1");
    let raised = evidence_from_assessments(&[obj, quiet]);
    assert_eq!(raised.len(), 1);
    assert_eq!(raised[0].object_id, "kernel_module:rootkit");
    assert_eq!(raised[0].evidence_type, CoreEvidenceType::KernelIntegrity);
    assert_eq!(raised[0].severity, CoreSeverity::High);
    assert_eq!(raised[0].source, "a2");
    assert_eq!(raised[0].confidence, 700_000);
    assert!(raised[0].assessment_snapshot.is_some());
}

#[test]
fn core_error_messages() {
    assert_eq!(
        CoreError::Discovery("no provider".to_string()).message(),
        "Discovery error: no provider"
    );
    assert_eq!(CoreError::Metadata("m".to_string()).message(), "Metadata error: m");
    assert_eq!(CoreError::Assessment("a".to_string()).message(), "Assessment error: a");
    assert_eq!(CoreError::Evidence("e".to_string()).message(), "Evidence error: e");
    assert_eq!(CoreError::Pipeline("p".to_string()).message(), "Pipeline error: p");
}
