use sentinelx::telemetry::{ProviderStatus, TelemetryEventType};
use sentinelx::ebpf::{
    attach_target, bpf_event_to_telemetry, EbpfTelemetryProvider, cap_effective_in, capabilities_from_probe, default_programs,
    kernel_version_text, parse_bpf_event_from_bytes, AttachOutcome, AttachTarget, BpfEvent,
    BpfEventType, EbpfConfig, EbpfEngine, EbpfError, EbpfProgramDef, EbpfProgramType,
    KernelCapabilities, BPF_RAW_EVENT_SIZE,
};

fn no_caps() -> KernelCapabilities {
    KernelCapabilities {
        has_bpf: false,
        has_sys_admin: false,
        has_perf_event: false,
        kernel_version: "Linux 6.1.0".to_string(),
        btf_available: false,
    }
}

fn bpf_caps() -> KernelCapabilities {
    KernelCapabilities { has_bpf: true, ..no_caps() }
}

fn make_raw_event(event_type: u32, pid: u32, tgid: u32, uid: u32, comm: &[u8; 16]) -> Vec<u8> {
    let mut b = Vec::with_capacity(BPF_RAW_EVENT_SIZE);
    b.extend_from_slice(&event_type.to_le_bytes());
    b.extend_from_slice(&pid.to_le_bytes());
    b.extend_from_slice(&tgid.to_le_bytes());
    b.extend_from_slice(&uid.to_le_bytes());
    b.extend_from_slice(&99999u64.to_le_bytes());
    b.extend_from_slice(&0u32.to_le_bytes());
    b.extend_from_slice(&pid.saturating_sub(1).to_le_bytes());
    b.extend_from_slice(&pid.saturating_sub(1).to_le_bytes());
    b.extend_from_slice(comm);
    b.extend_from_slice(&[0u8; 4]);
    assert_eq!(b.len(), BPF_RAW_EVENT_SIZE);
    b
}

#[test]
fn default_config_values() {
    let config = EbpfConfig::default();
    assert_eq!(config.map_size, 1024);
    assert_eq!(config.perf_buffer_pages, 64);
    assert_eq!(config.max_events_per_second, 10000);
    assert!(!config.programs.is_empty());
}

#[test]
fn custom_config() {
    let config = EbpfConfig {
        map_size: 2048,
        perf_buffer_pages: 128,
        max_events_per_second: 50000,
        programs: vec![],
    };
    assert_eq!(config.map_size, 2048);
    assert_eq!(config.perf_buffer_pages, 128);
    assert_eq!(config.max_events_per_second, 50000);
}

#[test]
fn engine_creates_with_default_config() {
    let engine = EbpfEngine::new(EbpfConfig::default(), no_caps());
    assert!(!engine.is_loaded());
}

#[test]
fn initialize_sets_loaded() {
    let mut engine = EbpfEngine::new(EbpfConfig::default(), no_caps());
    assert!(!engine.is_loaded());
    assert!(engine.initialize().is_ok());
    assert!(engine.is_loaded());
}

#[test]
fn shutdown_clears_loaded() {
    let mut engine = EbpfEngine::new(EbpfConfig::default(), bpf_caps());
    engine.initialize().unwrap();
    assert!(engine.is_loaded());
    engine.increment_received(4);
    assert!(engine.shutdown().is_ok());
    assert!(!engine.is_loaded());
    assert_eq!(engine.get_stats().events_received, 0);
}

#[test]
fn stats_before_loading() {
    let engine = EbpfEngine::new(EbpfConfig::default(), no_caps());
    let stats = engine.get_stats();
    assert_eq!(stats.events_received, 0);
    assert_eq!(stats.events_dropped, 0);
    assert_eq!(stats.maps_active, 0);
    assert_eq!(stats.ring_buffer_size, 1024);
}

#[test]
fn loaded_programs_when_not_loaded() {
    let engine = EbpfEngine::new(EbpfConfig::default(), no_caps());
    assert!(engine.get_loaded_programs().is_empty());
}

#[test]
fn loaded_programs_after_initialize() {
    let mut engine = EbpfEngine::new(EbpfConfig::default(), bpf_caps());
    engine.initialize().unwrap();
    let programs = engine.get_loaded_programs();
    assert_eq!(programs.len(), 6);
    assert_eq!(programs[0].name, "trace_exec");
    assert_eq!(programs[0].type_str, "Tracepoint");
    assert_eq!(programs[0].id, 1);
    assert_eq!(programs[3].type_str, "Kprobe");
    assert!(programs.iter().all(|p| !p.attached));
}

#[test]
fn default_programs_count() {
    let programs = default_programs();
    assert_eq!(programs.len(), 6);
    assert_eq!(programs[5].attach_point, "security_socket_connect");
}

#[test]
fn bpf_event_type_roundtrip() {
    let event = BpfEvent {
        event_type: BpfEventType::ProcessExec,
        pid: 100,
        tgid: 100,
        uid: 0,
        comm: "bash".to_string(),
        timestamp: 12345,
        flags: 0,
        parent_pid: 50,
        ppid: 50,
    };
    assert_eq!(event.event_type, BpfEventType::ProcessExec);
    assert_eq!(event.pid, 100);
}

#[test]
fn ebpf_error_display() {
    let err = EbpfError::NotAvailable("missing capabilities".to_string());
    assert_eq!(err.message(), "eBPF not available: missing capabilities");
    let err = EbpfError::Config("bad map size".to_string());
    assert_eq!(err.message(), "eBPF configuration error: bad map size");
    let err = EbpfError::Program("load failed".to_string());
    assert_eq!(err.message(), "eBPF program error: load failed");
    let err = EbpfError::MapAccess("map not found".to_string());
    assert_eq!(err.message(), "eBPF map error: map not found");
    let err = EbpfError::Syscall("EPERM".to_string());
    assert_eq!(err.message(), "eBPF syscall error: EPERM");
}

#[test]
fn increment_counters() {
    let mut engine = EbpfEngine::new(EbpfConfig::default(), no_caps());
    assert_eq!(engine.get_stats().events_received, 0);
    engine.increment_received(10);
    assert_eq!(engine.get_stats().events_received, 10);
    engine.increment_received(5);
    assert_eq!(engine.get_stats().events_received, 15);
    engine.increment_dropped(3);
    assert_eq!(engine.get_stats().events_dropped, 3);
}

#[test]
fn counters_wrap_like_atomics() {
    let mut engine = EbpfEngine::new(EbpfConfig::default(), no_caps());
    engine.increment_received(u64::MAX);
    engine.increment_received(2);
    assert_eq!(engine.get_stats().events_received, 1);
}

#[test]
fn parse_bpf_event_short_buffer() {
    assert!(parse_bpf_event_from_bytes(&[0u8; 5]).is_none());
    assert!(parse_bpf_event_from_bytes(&[]).is_none());
    assert!(parse_bpf_event_from_bytes(&[1u8; 55]).is_none());
}

#[test]
fn parse_bpf_event_valid() {
    let mut comm = [0u8; 16];
    comm[..10].copy_from_slice(b"test_proc\0");
    let bytes = make_raw_event(1, 42, 42, 1000, &comm);

    let event = parse_bpf_event_from_bytes(&bytes).unwrap();
    assert_eq!(event.event_type, BpfEventType::ProcessExec);
    assert_eq!(event.pid, 42);
    assert_eq!(event.uid, 1000);
    assert_eq!(event.comm, "test_proc");
    assert_eq!(event.timestamp, 99999);
    assert_eq!(event.ppid, 41);
}

#[test]
fn parse_bpf_event_invalid_type() {
    let comm = [0u8; 16];
    let bytes = make_raw_event(999, 1, 1, 0, &comm);
    assert!(parse_bpf_event_from_bytes(&bytes).is_none());
    let bytes = make_raw_event(0, 1, 1, 0, &comm);
    assert!(parse_bpf_event_from_bytes(&bytes).is_none());
}

#[test]
fn parse_bpf_event_all_types() {
    let comm = [0u8; 16];
    let type_map: Vec<(u32, BpfEventType)> = vec![
        (1, BpfEventType::ProcessExec),
        (2, BpfEventType::ProcessExit),
        (3, BpfEventType::ProcessFork),
        (4, BpfEventType::ProcessClone),
        (9, BpfEventType::FileOpen),
        (10, BpfEventType::FileWrite),
        (15, BpfEventType::NetConnect),
        (16, BpfEventType::NetBind),
        (17, BpfEventType::KernelModuleLoad),
        (20, BpfEventType::KernelParamChange),
    ];

    for (raw_type, expected) in type_map {
        let bytes = make_raw_event(raw_type, 1, 1, 0, &comm);
        let event = parse_bpf_event_from_bytes(&bytes).unwrap();
        assert_eq!(event.event_type, expected);
    }
}

#[test]
fn parse_bpf_event_replaces_invalid_utf8_in_name() {
    let mut comm = [0u8; 16];
    comm[0] = b'a';
    comm[1] = 0xff;
    comm[2] = b'b';
    let bytes = make_raw_event(2, 7, 7, 0, &comm);
    let event = parse_bpf_event_from_bytes(&bytes).unwrap();
    assert_eq!(event.comm, "a\u{fffd}b");
}

#[test]
fn capabilities_are_read_from_the_effective_set() {
    let effective = [1u32 << 21, (1u32 << (39 - 32)) | (1u32 << (38 - 32))];
    assert!(cap_effective_in(effective, 21));
    assert!(cap_effective_in(effective, 39));
    assert!(!cap_effective_in(effective, 0));
    assert!(!cap_effective_in(effective, 64));
    assert!(!cap_effective_in(effective, -1));
    let caps = capabilities_from_probe(Some(("Linux", "6.1.0")), Some(effective), true);
    assert!(caps.has_bpf && caps.has_sys_admin && caps.has_perf_event && caps.btf_available);
    assert_eq!(caps.kernel_version, "Linux 6.1.0");
    let unknown = capabilities_from_probe(None, None, false);
    assert_eq!(unknown.kernel_version, "unknown");
    assert!(!unknown.has_bpf);
    assert_eq!(kernel_version_text("Linux", "5.15"), "Linux 5.15");
}

#[test]
fn attach_targets_follow_the_program_kind() {
    let tp = EbpfProgramDef {
        name: "t".to_string(),
        program_type: EbpfProgramType::Tracepoint,
        attach_point: "sched:sched_process_exec".to_string(),
    };
    match attach_target(&tp).unwrap() {
        AttachTarget::Tracepoint { category, name } => {
            assert_eq!(category, "sched");
            assert_eq!(name, "sched_process_exec");
        }
        other => panic!("unexpected {:?}", other),
    }
    let bad = EbpfProgramDef { attach_point: "nocolon".to_string(), ..tp };
    match attach_target(&bad) {
        Err(e) => assert_eq!(
            e.message(),
            "eBPF configuration error: Invalid tracepoint format: nocolon (expected category:name)"
        ),
        Ok(t) => panic!("unexpected {:?}", t),
    }
    let kp = EbpfProgramDef {
        name: "k".to_string(),
        program_type: EbpfProgramType::Kprobe,
        attach_point: "do_init_module".to_string(),
    };
    assert!(matches!(attach_target(&kp).unwrap(), AttachTarget::Kprobe { function } if function == "do_init_module"));
}

#[test]
fn attachment_outcomes_are_tallied() {
    let mut engine = EbpfEngine::new(EbpfConfig::default(), bpf_caps());
    let n = engine.tally_attachments(&vec![
        AttachOutcome::Attached,
        AttachOutcome::Failed,
        AttachOutcome::NotFound,
        AttachOutcome::Attached,
    ]);
    assert_eq!(n, 2);
    assert_eq!(engine.get_stats().programs_failed, 1);
    assert!(engine.can_load_programs());
}

fn bpf(event_type: BpfEventType, pid: u32, uid: u32, comm: &str) -> BpfEvent {
    BpfEvent {
        event_type,
        pid,
        tgid: pid,
        uid,
        comm: comm.to_string(),
        timestamp: 12345,
        flags: 0,
        parent_pid: pid.saturating_sub(1),
        ppid: pid.saturating_sub(1),
    }
}

#[test]
fn ebpf_provider_info() {
    let provider = EbpfTelemetryProvider::new(EbpfEngine::new(EbpfConfig::default(), no_caps()));
    let info = provider.info();
    assert_eq!(info.name, "ebpf");
    assert_eq!(info.events_received, 0);
}

#[test]
fn ebpf_provider_description() {
    let provider = EbpfTelemetryProvider::new(EbpfEngine::new(EbpfConfig::default(), no_caps()));
    assert!(provider.description().contains("kernel instrumentation"));
    assert_eq!(provider.name(), "ebpf");
}

#[test]
fn bpf_event_to_telemetry_mapping_process() {
    let telemetry = bpf_event_to_telemetry(&bpf(BpfEventType::ProcessExec, 100, 0, "bash")).unwrap();
    assert_eq!(telemetry.provider, "ebpf");
    assert_eq!(telemetry.event_type, TelemetryEventType::ProcessExec);
    assert_eq!(telemetry.pid, Some(100));
    assert_eq!(telemetry.uid, Some(0));
    assert!(telemetry.object_id.is_none());
    assert_eq!(
        telemetry.metadata.get("comm"),
        Some(&sentinelx::value::Value::String("bash".to_string()))
    );
    assert_eq!(
        telemetry.metadata.get("kernel_timestamp"),
        Some(&sentinelx::value::Value::Json("12345".to_string()))
    );
}

#[test]
fn bpf_event_to_telemetry_mapping_file() {
    let telemetry = bpf_event_to_telemetry(&bpf(BpfEventType::FileOpen, 200, 1000, "cat")).unwrap();
    assert_eq!(telemetry.event_type, TelemetryEventType::FileOpen);
    assert_eq!(telemetry.object_id.as_deref(), Some("pid:200"));
}

#[test]
fn bpf_event_to_telemetry_mapping_network() {
    let telemetry = bpf_event_to_telemetry(&bpf(BpfEventType::NetConnect, 300, 1000, "curl")).unwrap();
    assert_eq!(telemetry.event_type, TelemetryEventType::NetConnect);
    assert_eq!(telemetry.object_id.as_deref(), Some("pid:300"));
}

#[test]
fn bpf_event_to_telemetry_mapping_kernel() {
    let telemetry = bpf_event_to_telemetry(&bpf(BpfEventType::KernelModuleLoad, 0, 0, "nvidia")).unwrap();
    assert_eq!(telemetry.event_type, TelemetryEventType::KernelModuleLoad);
    assert_eq!(telemetry.object_id, Some("nvidia".to_string()));
}

#[test]
fn provider_starts_stopped() {
    let provider = EbpfTelemetryProvider::new(EbpfEngine::new(EbpfConfig::default(), no_caps()));
    assert_eq!(provider.status(), ProviderStatus::Stopped);
}

#[test]
fn ebpf_provider_initialize_and_shutdown() {
    let mut provider = EbpfTelemetryProvider::new(EbpfEngine::new(EbpfConfig::default(), no_caps()));
    provider.initialize().unwrap();
    assert_eq!(provider.status(), ProviderStatus::Degraded);
    provider.shutdown().unwrap();
    assert_eq!(provider.status(), ProviderStatus::Stopped);

    let mut privileged = EbpfTelemetryProvider::new(EbpfEngine::new(EbpfConfig::default(), bpf_caps()));
    privileged.initialize().unwrap();
    assert_eq!(privileged.status(), ProviderStatus::Running);
}

#[test]
fn no_map_is_ever_active() {
    let mut engine = EbpfEngine::new(EbpfConfig::default(), bpf_caps());
    assert_eq!(engine.get_stats().maps_active, 0);
    assert!(engine.initialize().is_ok());
    engine.tally_attachments(&vec![AttachOutcome::Attached, AttachOutcome::Failed]);
    engine.increment_received(3);
    engine.increment_dropped(1);
    assert_eq!(engine.get_stats().maps_active, 0);
    assert!(engine.shutdown().is_ok());
    assert_eq!(engine.get_stats().maps_active, 0);
}
