use sentinelx::evidence::EvidenceType;
use sentinelx::hooks::{
    ftrace_hooks_from_filter, hooks_differ, kprobe_hooks_from_entries, syscall_hooks_from_kallsyms,
    HookDetector, HookInfo, HookType,
};
use sentinelx::threat::{Severity, ThreatCategory};
use sentinelx::value::Value;

fn hook(t: HookType, address: u64, symbol: Option<&str>) -> HookInfo {
    HookInfo {
        hook_type: t,
        address,
        target_address: 0,
        symbol: symbol.map(|s| s.to_string()),
        module: None,
        is_inline: false,
    }
}

#[test]
fn hooks_detector_metadata() {
    let d = HookDetector::new();
    assert_eq!(d.name(), "hook_detection");
    assert_eq!(d.category(), ThreatCategory::HookDetected);
    assert_eq!(d.severity(), Severity::Critical);
    assert_eq!(d.get_evidence_type(), EvidenceType::KernelIntegrity);
    assert_eq!(d.get_source(), "hook_detection");
}

#[test]
fn syscall_entries_are_read_from_kallsyms() {
    let content = "ffffffff81001000 T __x64_sys_read\n\
                   ffffffff81002000 t __x64_sys_hidden\n\
                   ffffffff81003000 T sys_call_table_fn\n\
                   0000000000000000 T sys_zero\n\
                   ffffffff81004000 T do_exit\n\
                   ffffffff81005000 T\n";
    let hooks = syscall_hooks_from_kallsyms(content);
    assert_eq!(hooks.len(), 2);
    assert_eq!(hooks[0].symbol.as_deref(), Some("__x64_sys_read"));
    assert_eq!(hooks[0].address, 0xffffffff81001000);
    assert_eq!(hooks[0].hook_type, HookType::SyscallTable);
    assert_eq!(hooks[1].symbol.as_deref(), Some("sys_call_table_fn"));
}

#[test]
fn ftrace_filters_are_trimmed() {
    let hooks = ftrace_hooks_from_filter("  vfs_read \n\n\tfilldir64\r\n   \n");
    let names: Vec<&str> = hooks.iter().map(|h| h.symbol.as_deref().unwrap()).collect();
    assert_eq!(names, vec!["vfs_read", "filldir64"]);
    assert!(hooks.iter().all(|h| h.hook_type == HookType::Ftrace && h.address == 0));
}

#[test]
fn kprobe_entries_skip_dot_dirs() {
    let hooks = kprobe_hooks_from_entries(&vec![".".to_string(), "..".to_string(), "p_do_sys_open".to_string()]);
    assert_eq!(hooks.len(), 1);
    assert_eq!(hooks[0].symbol.as_deref(), Some("p_do_sys_open"));
    assert_eq!(hooks[0].hook_type, HookType::Kprobe);
}

#[test]
fn differ_keeps_new_keys_once() {
    let a = vec![
        hook(HookType::SyscallTable, 1, Some("x")),
        hook(HookType::Ftrace, 0, Some("y")),
        hook(HookType::Kprobe, 0, Some("y")),
        hook(HookType::Kprobe, 5, None),
    ];
    let b = vec![hook(HookType::SyscallTable, 1, Some("x")), hook(HookType::Kprobe, 5, Some(""))];
    let d = hooks_differ(&a, &b);
    assert_eq!(d.len(), 1);
    assert_eq!(d[0].hook_type, HookType::Kprobe);
    assert_eq!(d[0].symbol.as_deref(), Some("y"));
}

#[test]
fn first_look_is_the_baseline() {
    let mut d = HookDetector::new();
    assert!(d.detect(vec![hook(HookType::SyscallTable, 0x10, Some("sys_a"))]).is_empty());
    let threats = d.detect(vec![
        hook(HookType::SyscallTable, 0x10, Some("sys_a")),
        hook(HookType::SyscallTable, 0xdead, Some("sys_b")),
    ]);
    assert_eq!(threats.len(), 1);
    assert_eq!(threats[0].title, "New SyscallTable hook detected");
    assert_eq!(
        threats[0].description,
        "A new SyscallTable hook was detected at address 0xdead since last baseline"
    );
    assert_eq!(threats[0].tags, vec!["hook".to_string(), "syscalltable".to_string()]);
    assert_eq!(threats[0].evidence[0].data.get("symbol"), Some(&Value::String("sys_b".to_string())));
    assert_eq!(threats[0].evidence[0].confidence, 850_000);
    assert!(d.detect(vec![hook(HookType::SyscallTable, 0xdead, Some("sys_b"))]).is_empty());
}

#[test]
fn evidence_of_new_hooks() {
    let mut d = HookDetector::new();
    assert!(d.collect_evidence(vec![]).is_empty());
    let ev = d.collect_evidence(vec![hook(HookType::Ftrace, 0, Some("f"))]);
    assert_eq!(ev.len(), 1);
    assert_eq!(ev[0].description, "New Ftrace hook detected at 0x0");
    assert_eq!(ev[0].data.get("address"), Some(&Value::String("0x0".to_string())));
    assert_eq!(ev[0].tags, vec!["hook".to_string(), "ftrace".to_string()]);
}
