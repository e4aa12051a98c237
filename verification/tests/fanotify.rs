use sentinelx::telemetry::{ProviderStatus, TelemetryEventType};
use sentinelx::fanotify::{
    fanotify_event, FanotifyProvider,
    map_event_type, read_event_metadata, split_events, FanotifyConfig, FanotifyEventMetadata,
    FAN_ACCESS, FAN_ATTRIB, FAN_CLOSE_WRITE, FAN_DELETE, FAN_EVENT_ON_CHILD,
    FAN_MARK_ADD, FAN_MARK_MOUNT, FAN_MODIFY, FAN_OPEN, FAN_OPEN_PERM, MIN_EVENT_METADATA_SIZE,
};

fn encode(meta: &FanotifyEventMetadata) -> Vec<u8> {
    let mut b = Vec::new();
    b.extend_from_slice(&meta.event_len.to_le_bytes());
    b.push(meta.vers);
    b.push(meta.reserved);
    b.extend_from_slice(&meta.metadata_len.to_le_bytes());
    b.extend_from_slice(&meta.mask.to_le_bytes());
    b.extend_from_slice(&meta.fd.to_le_bytes());
    b.extend_from_slice(&meta.pid.to_le_bytes());
    b
}

#[test]
fn config_defaults() {
    let cfg = FanotifyConfig::default();
    assert_eq!(cfg.monitor_paths.len(), 3);
    assert!(cfg.monitor_paths.contains(&"/etc".to_string()));
    assert!(cfg.monitor_paths.contains(&"/usr".to_string()));
    assert!(cfg.monitor_paths.contains(&"/boot".to_string()));
    assert_eq!(
        cfg.event_mask,
        FAN_ACCESS | FAN_OPEN | FAN_MODIFY | FAN_CLOSE_WRITE | FAN_DELETE | FAN_EVENT_ON_CHILD
    );
    assert_ne!(cfg.flags & libc::O_NONBLOCK, 0);
    assert_ne!(cfg.flags & libc::O_CLOEXEC, 0);
    assert_eq!(cfg.mount_flags, FAN_MARK_ADD | FAN_MARK_MOUNT);
}

#[test]
fn config_custom() {
    let cfg = FanotifyConfig {
        monitor_paths: vec!["/var".to_string()],
        event_mask: FAN_OPEN,
        flags: libc::O_CLOEXEC,
        mount_flags: FAN_MARK_ADD,
    };
    assert_eq!(cfg.monitor_paths, vec!["/var"]);
    assert_eq!(cfg.event_mask, FAN_OPEN);
    assert_eq!(cfg.flags, libc::O_CLOEXEC);
    assert_eq!(cfg.mount_flags, FAN_MARK_ADD);
}

#[test]
fn map_access_to_file_read() {
    assert_eq!(map_event_type(FAN_ACCESS), Some(TelemetryEventType::FileRead));
}

#[test]
fn map_open_to_file_open() {
    assert_eq!(map_event_type(FAN_OPEN), Some(TelemetryEventType::FileOpen));
}

#[test]
fn map_modify_to_file_write() {
    assert_eq!(map_event_type(FAN_MODIFY), Some(TelemetryEventType::FileWrite));
}

#[test]
fn map_close_write_to_file_close() {
    assert_eq!(map_event_type(FAN_CLOSE_WRITE), Some(TelemetryEventType::FileClose));
}

#[test]
fn map_delete_to_file_delete() {
    assert_eq!(map_event_type(FAN_DELETE), Some(TelemetryEventType::FileDelete));
}

#[test]
fn map_open_perm_to_file_execute() {
    assert_eq!(map_event_type(FAN_OPEN_PERM), Some(TelemetryEventType::FileExecute));
}

#[test]
fn map_attrib_to_file_perm_change() {
    assert_eq!(map_event_type(FAN_ATTRIB), Some(TelemetryEventType::FilePermChange));
}

#[test]
fn map_unknown_mask_to_none() {
    assert_eq!(map_event_type(0), None);
    assert_eq!(map_event_type(0x8000_0000), None);
}

#[test]
fn map_first_flag_decides() {
    assert_eq!(map_event_type(FAN_MODIFY | FAN_ACCESS), Some(TelemetryEventType::FileRead));
    assert_eq!(map_event_type(FAN_DELETE | FAN_ATTRIB), Some(TelemetryEventType::FileDelete));
}

#[test]
fn read_metadata_valid_buffer() {
    let meta = FanotifyEventMetadata {
        event_len: 32,
        vers: 3,
        reserved: 0,
        metadata_len: 0,
        mask: FAN_OPEN,
        fd: 7,
        pid: 42,
    };
    let mut buf = vec![0u8; 64];
    buf[..28].copy_from_slice(&encode(&meta));
    let got = read_event_metadata(&buf, 0).unwrap();
    assert_eq!(got.event_len, 32);
    assert_eq!(got.vers, 3);
    assert_eq!(got.mask, FAN_OPEN);
    assert_eq!(got.fd, 7);
    assert_eq!(got.pid, 42);
}

#[test]
fn read_metadata_at_offset() {
    let meta = FanotifyEventMetadata {
        event_len: 28,
        vers: 3,
        reserved: 0,
        metadata_len: 0,
        mask: FAN_DELETE,
        fd: 3,
        pid: 999,
    };
    let mut buf = vec![0u8; 64];
    let offset = 8usize;
    buf[offset..offset + 28].copy_from_slice(&encode(&meta));
    let got = read_event_metadata(&buf, offset).unwrap();
    assert_eq!(got.mask, FAN_DELETE);
    assert_eq!(got.fd, 3);
    assert_eq!(got.pid, 999);
    assert_eq!(got, meta);
}

#[test]
fn read_metadata_too_short() {
    let buf = vec![0u8; 10];
    assert!(read_event_metadata(&buf, 0).is_none());
}

#[test]
fn read_metadata_offset_exceeds_buffer() {
    let buf = vec![0u8; 64];
    assert!(read_event_metadata(&buf, 60).is_none());
    assert!(read_event_metadata(&buf, 1000).is_none());
}

#[test]
fn split_events_stops_at_a_cut_record() {
    let a = FanotifyEventMetadata { event_len: 28, vers: 3, reserved: 0, metadata_len: 24, mask: FAN_OPEN, fd: 5, pid: 1 };
    let b = FanotifyEventMetadata { event_len: 28, vers: 3, reserved: 0, metadata_len: 24, mask: FAN_MODIFY, fd: 6, pid: 2 };
    let mut buf = encode(&a);
    buf.extend_from_slice(&encode(&b));
    buf.extend_from_slice(&[0u8; 10]);
    let got = split_events(&buf, buf.len());
    assert_eq!(got, vec![a, b]);
    assert_eq!(split_events(&buf, 40), vec![a]);
    let zero = FanotifyEventMetadata { event_len: 0, ..a };
    assert!(split_events(&encode(&zero), 28).is_empty());
}

#[test]
fn fanotify_constant_values() {
    assert_eq!(FAN_ACCESS, 0x1);
    assert_eq!(FAN_MODIFY, 0x2);
    assert_eq!(FAN_ATTRIB, 0x4);
    assert_eq!(FAN_CLOSE_WRITE, 0x8);
    assert_eq!(FAN_OPEN, 0x20);
    assert_eq!(FAN_DELETE, 0x400);
    assert_eq!(FAN_OPEN_PERM, 0x1_0000);
    assert_eq!(FAN_EVENT_ON_CHILD, 0x0800_0000);
    assert_eq!(FAN_MARK_ADD, 0x1);
    assert_eq!(FAN_MARK_MOUNT, 0x10);
}

#[test]
fn metadata_struct_size() {
    assert_eq!(FanotifyEventMetadata::wire_size(), MIN_EVENT_METADATA_SIZE);
    let meta = FanotifyEventMetadata { event_len: 0, vers: 0, reserved: 0, metadata_len: 0, mask: 0, fd: 0, pid: 0 };
    assert_eq!(encode(&meta).len(), MIN_EVENT_METADATA_SIZE);
}

#[test]
fn provider_creation() {
    let p = FanotifyProvider::new(FanotifyConfig::default());
    assert_eq!(p.name(), "fanotify");
    assert_eq!(p.status(), ProviderStatus::Stopped);
    assert!(p.description().contains("Linux syscalls"));
}

#[test]
fn provider_info_initial() {
    let p = FanotifyProvider::new(FanotifyConfig::default());
    let info = p.info();
    assert_eq!(info.name, "fanotify");
    assert_eq!(info.events_received, 0);
    assert_eq!(info.events_dropped, 0);
    assert_eq!(info.status, ProviderStatus::Stopped);
    assert!(info.started_at.is_none());
}

#[test]
fn provider_degrades_without_descriptor() {
    let mut p = FanotifyProvider::new(FanotifyConfig::default());
    p.begin_initialize();
    assert_eq!(p.status(), ProviderStatus::Initializing);
    p.finish_initialize(-1).unwrap();
    assert_eq!(p.status(), ProviderStatus::Degraded);
    assert!(!p.is_running());
    assert_eq!(p.shutdown(), -1);
    assert_eq!(p.status(), ProviderStatus::Stopped);
}

#[test]
fn provider_runs_and_counts() {
    let mut p = FanotifyProvider::new(FanotifyConfig::default());
    p.finish_initialize(5).unwrap();
    assert_eq!(p.status(), ProviderStatus::Running);
    assert!(p.is_running());
    p.record_delivery(true);
    p.record_delivery(true);
    p.record_delivery(false);
    assert_eq!(p.info().events_received, 2);
    assert_eq!(p.info().events_dropped, 1);
    assert_eq!(p.shutdown(), 5);
    assert!(!p.is_running());
    assert_eq!(p.shutdown(), -1);
}

#[test]
fn fanotify_records_become_telemetry() {
    let meta = FanotifyEventMetadata { event_len: 28, vers: 3, reserved: 0, metadata_len: 24, mask: FAN_MODIFY, fd: 9, pid: 77 };
    let e = fanotify_event(&meta, Some("/etc/passwd".to_string())).unwrap();
    assert_eq!(e.provider, "fanotify");
    assert_eq!(e.event_type, TelemetryEventType::FileWrite);
    assert_eq!(e.pid, Some(77));
    assert_eq!(e.object_id.as_deref(), Some("/etc/passwd"));
    assert_eq!(e.metadata.get("fd").and_then(|v| match v { sentinelx::value::Value::Json(s) => Some(s.clone()), _ => None }), Some("9".to_string()));
    assert_eq!(e.metadata.get("fanotify_mask").and_then(|v| match v { sentinelx::value::Value::Json(s) => Some(s.clone()), _ => None }), Some("2".to_string()));

    let unresolved = fanotify_event(&meta, None).unwrap();
    assert_eq!(unresolved.object_id.as_deref(), Some("fd:9"));
    let negative = FanotifyEventMetadata { fd: u64::MAX, ..meta };
    let e = fanotify_event(&negative, Some("/ignored".to_string())).unwrap();
    assert_eq!(e.object_id.as_deref(), Some("fd:-1"));
    let unknown = FanotifyEventMetadata { mask: 0x8000_0000, ..meta };
    assert!(fanotify_event(&unknown, None).is_none());
}
