use sentinelx::hardening::{KernelObjectType, SecureBootRead};
use sentinelx::hooks::{HookInfo, HookType};
use sentinelx::object::{ObjectMetadata, ObjectType, SentinelObject};
use sentinelx::resources::{
    apply_integrity_probe, apply_memory_probe, integrity_discovery_objects, integrity_target,
    kernel_discovery_objects, kernel_enrich, memory_discovery_objects, memory_resource,
    millionths_string, IntegrityObject, KernelObject, MemoryObject,
};
use sentinelx::value::Value;

fn text(o: &SentinelObject, key: &str) -> Option<String> {
    o.metadata.properties.get(key).and_then(|v| v.as_str()).map(|s| s.to_string())
}

fn flag(o: &SentinelObject, key: &str) -> Option<bool> {
    match o.metadata.properties.get(key) {
        Some(Value::Bool(b)) => Some(*b),
        _ => None,
    }
}

#[test]
fn risk_scores_are_written_as_fractions() {
    assert_eq!(millionths_string(900_000), "0.9");
    assert_eq!(millionths_string(950_000), "0.95");
    assert_eq!(millionths_string(1_000_000), "1.0");
    assert_eq!(millionths_string(0), "0.0");
    assert_eq!(millionths_string(1_234_567), "1.234567");
    assert_eq!(millionths_string(500_000), "0.5");
}

#[test]
fn test_kernel_object_from_hook() {
    let hook = HookInfo {
        hook_type: HookType::SyscallTable,
        address: 0xffffffff81000000,
        target_address: 0,
        symbol: Some("sys_read".to_string()),
        module: None,
        is_inline: false,
    };
    let obj = KernelObject::from_hook(&hook);
    assert_eq!(obj.name, "SyscallTable_hook");
    assert_eq!(obj.severity, "Critical");
    assert_eq!(obj.obj_type, KernelObjectType::HookDetection);
    assert_eq!(obj.description, "Detected SyscallTable hook at 0xffffffff81000000");
}

#[test]
fn objects_test_to_sentinel_object() {
    let obj = KernelObject::from_hardening_check("kptr_restrict", "1 or 2", "0", "Medium");
    let sentinel = obj.to_sentinel_object("kernel_discovery");
    assert_eq!(sentinel.object_type, ObjectType::MemoryRegion);
    assert_eq!(sentinel.source, "kernel_discovery");
    assert!(sentinel.id.starts_with("memory_region:"));
    assert_eq!(text(&sentinel, "name").as_deref(), Some("hardening_kptr_restrict"));
    assert_eq!(sentinel.metadata.properties.get("risk_score"), Some(&Value::Json("0.6".to_string())));
    assert_eq!(sentinel.metadata.tags, vec!["medium".to_string()]);
}

#[test]
fn kernel_integrity_violation_object() {
    let obj = KernelObject::from_integrity_violation("/proc/modules", "aa", "bb");
    assert_eq!(obj.name, "integrity__proc_modules");
    assert_eq!(obj.hash.as_deref(), Some("bb"));
    let s = obj.to_sentinel_object("k");
    assert_eq!(s.metadata.hashes.get("kernel_hash"), Some(&Value::String("bb".to_string())));
    assert_eq!(s.metadata.tags, vec!["critical".to_string()]);
}

#[test]
fn kernel_discovery_reports_failed_checks() {
    let objects = kernel_discovery_objects(Some("0"), Some("1"), None, &SecureBootRead::Unreadable);
    assert_eq!(objects.len(), 2);
    assert_eq!(objects[0].id, "memory_region:hardening_kptr_restrict");
    assert_eq!(
        text(&objects[0], "description").as_deref(),
        Some("Kernel hardening check kptr_restrict: expected 1 or 2, got 0")
    );
    assert_eq!(objects[1].id, "memory_region:hardening_secure_boot");
    assert_eq!(text(&objects[1], "severity").as_deref(), Some("Low"));
    assert!(kernel_discovery_objects(Some("2"), Some("1"), Some("1"), &SecureBootRead::NoEfi).is_empty());
}

#[test]
fn test_enrich_marks_critical() {
    let hook = KernelObject::from_hook(&HookInfo {
        hook_type: HookType::Kprobe,
        address: 0,
        target_address: 0,
        symbol: None,
        module: None,
        is_inline: false,
    })
    .to_sentinel_object("test");
    let hardening = KernelObject::from_hardening_check("x", "1", "0", "Critical").to_sentinel_object("test");
    let file = SentinelObject::new(ObjectType::File, "test", "/etc/passwd");
    let mut objects = vec![hook, hardening, file];
    kernel_enrich(&mut objects);
    assert_eq!(flag(&objects[0], "is_critical_finding"), Some(true));
    assert_eq!(flag(&objects[0], "requires_immediate_attention"), Some(true));
    assert!(objects[0].metadata.tags.contains(&"critical".to_string()));
    assert_eq!(flag(&objects[1], "requires_immediate_attention"), Some(false));
    assert_eq!(flag(&objects[2], "is_critical_finding"), None);
}

#[test]
fn test_memory_object_new() {
    let obj = MemoryObject::new("kallsyms_check", "/proc/kallsyms", "Kernel symbol table integrity");
    assert_eq!(obj.name, "kallsyms_check");
    assert_eq!(obj.resource_path, "/proc/kallsyms");
    assert!(!obj.is_modified);
}

#[test]
fn memory_object_to_sentinel_object() {
    let obj = MemoryObject::new("test", "/proc/self/maps", "test");
    let sentinel = obj.to_sentinel_object("memory_discovery");
    assert_eq!(sentinel.object_type, ObjectType::MemoryRegion);
    assert_eq!(sentinel.source, "memory_discovery");
    assert!(sentinel.id.starts_with("memory_region:"));
    assert_eq!(text(&sentinel, "name").as_deref(), Some("test"));
}

#[test]
fn objects_test_to_sentinel_object_modified() {
    let mut obj = MemoryObject::new("modified", "/proc/kallsyms", "modified");
    obj.is_modified = true;
    obj.risk_score = 950_000;
    let sentinel = obj.to_sentinel_object("test");
    assert!(sentinel.metadata.tags.contains(&"tampering".to_string()));
    assert_eq!(sentinel.metadata.properties.get("risk_score"), Some(&Value::Json("0.95".to_string())));
}

#[test]
fn memory_discovery_and_probe() {
    let mut objects = memory_discovery_objects();
    assert_eq!(objects.len(), 2);
    assert_eq!(memory_resource(&objects[0]).as_deref(), Some("/proc/kallsyms"));
    apply_memory_probe(&mut objects[0], Some("abc".to_string()));
    assert_eq!(flag(&objects[0], "resource_accessible"), Some(true));
    assert_eq!(objects[0].metadata.hashes.get("current_sha256"), Some(&Value::String("abc".to_string())));
    let mut other = SentinelObject::new(ObjectType::MemoryRegion, "s", "x")
        .with_metadata(ObjectMetadata::new().with_property("resource_path", Value::String("/dev/mem".to_string())));
    assert!(memory_resource(&other).is_none());
    apply_memory_probe(&mut other, Some("zzz".to_string()));
    assert_eq!(flag(&other, "resource_accessible"), Some(false));
    assert!(other.metadata.hashes.is_empty());
}

#[test]
fn test_integrity_object_new() {
    let obj = IntegrityObject::new("/etc/passwd");
    assert_eq!(obj.path, "/etc/passwd");
    assert!(!obj.is_modified);
    assert!(obj.is_readable);
}

#[test]
fn integrity_object_to_sentinel_object() {
    let obj = IntegrityObject::new("/etc/passwd");
    let sentinel = obj.to_sentinel_object("integrity_discovery");
    assert_eq!(sentinel.object_type, ObjectType::File);
    assert_eq!(sentinel.source, "integrity_discovery");
    assert!(sentinel.id.starts_with("file:"));
    assert_eq!(sentinel.id, "file:_etc_passwd");
    assert_eq!(text(&sentinel, "path").as_deref(), Some("/etc/passwd"));
}

#[test]
fn integrity_object_modified_and_unreadable_tags() {
    let mut obj = IntegrityObject::new("/etc/shadow");
    obj.is_modified = true;
    obj.is_readable = false;
    let sentinel = obj.to_sentinel_object("test");
    assert_eq!(
        sentinel.metadata.tags,
        vec!["modified".to_string(), "critical".to_string(), "unreadable".to_string()]
    );
}

#[test]
fn integrity_discovery_and_probe() {
    let mut objects = integrity_discovery_objects();
    assert_eq!(objects.len(), 6);
    assert_eq!(integrity_target(&objects[1]).as_deref(), Some("/etc/shadow"));
    apply_integrity_probe(&mut objects[1], false, None);
    assert_eq!(flag(&objects[1], "is_readable"), Some(false));
    assert!(objects[1].metadata.tags.contains(&"unreadable".to_string()));
    apply_integrity_probe(&mut objects[0], true, Some("h".to_string()));
    assert_eq!(objects[0].metadata.hashes.get("current_sha256"), Some(&Value::String("h".to_string())));
    let mut proc_obj = SentinelObject::new(ObjectType::Process, "s", "1");
    assert!(integrity_target(&proc_obj).is_none());
    apply_integrity_probe(&mut proc_obj, false, None);
    assert!(proc_obj.metadata.properties.is_empty());
}
