use sentinelx::detector::{
    BusEvent, EventHistory, check_not_registered, plugin_init_health, plugin_start_health, rule_context, scoring_context, DetectorError, EventBusError, EventStatsCollector,
    PluginError,
};
use sentinelx::threat::{Severity, ThreatCategory, ThreatEvent};
use sentinelx::value::Value;

#[test]
fn stats_collector() {
    let mut collector = EventStatsCollector::new();
    collector.record("ProcessCreated", "scanner");
    collector.record("HookDetected", "scanner");
    collector.record("ProcessCreated", "scanner");

    let stats = collector.stats(10, 2);
    assert_eq!(stats.total_published, 3);
    assert_eq!(stats.current_subscribers, 2);
    assert_eq!(stats.history_size, 10);
    assert!(stats.by_kind.iter().any(|(k, _)| k == "ProcessCreated"));
    assert_eq!(stats.by_kind, vec![("ProcessCreated".to_string(), 2), ("HookDetected".to_string(), 1)]);
    assert_eq!(stats.by_source, vec![("scanner".to_string(), 3)]);
}

#[test]
fn empty_collector_counts_nothing() {
    let collector = EventStatsCollector::new();
    let stats = collector.stats(0, 0);
    assert_eq!(stats.total_published, 0);
    assert!(stats.by_kind.is_empty());
    assert!(stats.by_source.is_empty());
}

#[test]
fn plugin_health_after_init() {
    let ok = plugin_init_health("p", &Ok(()), "2024-01-01T00:00:00Z".to_string());
    assert!(ok.healthy);
    assert_eq!(ok.message, "Initialized successfully");
    let failed = plugin_init_health(
        "p",
        &Err(PluginError::InitFailed("boom".to_string())),
        "t".to_string(),
    );
    assert!(!failed.healthy);
    assert_eq!(failed.message, "Init failed: Plugin initialization failed: boom");
}

#[test]
fn registering_twice_is_refused() {
    let order = vec!["a".to_string(), "b".to_string()];
    assert!(check_not_registered(&order, "c").is_ok());
    match check_not_registered(&order, "b") {
        Err(e) => assert_eq!(e.message(), "Plugin already registered: b"),
        Ok(()) => panic!("expected an error"),
    }
}

#[test]
fn error_messages() {
    assert_eq!(PluginError::StartFailed("x".to_string()).message(), "Plugin start failed: x");
    assert_eq!(PluginError::StopFailed("x".to_string()).message(), "Plugin stop failed: x");
    assert_eq!(PluginError::ScanFailed("x".to_string()).message(), "Plugin scan failed: x");
    assert_eq!(PluginError::NotFound("x".to_string()).message(), "Plugin not found: x");
    assert_eq!(DetectorError::NotFound("d".to_string()).message(), "Detector not found: d");
    assert_eq!(DetectorError::DetectionFailed("d".to_string()).message(), "Detection failed: d");
    assert_eq!(DetectorError::InitFailed("d".to_string()).message(), "Initialization failed: d");
    assert_eq!(EventBusError::PublishFailed("e".to_string()).message(), "Failed to publish event: e");
    assert_eq!(EventBusError::Lagged("e".to_string()).message(), "Subscriber lagged: e");
}

fn bus(kind: &str, n: u128) -> BusEvent {
    BusEvent {
        id: n,
        kind: kind.to_string(),
        source: "scanner".to_string(),
        timestamp: n as i64,
        payload: sentinelx::value::Value::Null,
    }
}

#[test]
fn history_keeps_published_events() {
    let mut h = EventHistory::new();
    h.record(bus("ProcessCreated", 1));
    h.record(bus("ModuleLoaded", 2));
    assert_eq!(h.history().len(), 2);
    assert_eq!(h.history_by_kind("ModuleLoaded").len(), 1);
    assert_eq!(h.history_count(), 2);
    h.clear_history();
    assert_eq!(h.history_count(), 0);
}

#[test]
fn history_drops_oldest_when_full() {
    let mut h = EventHistory::new().with_history_size(2);
    for n in 1..=5 {
        h.record(bus("K", n));
    }
    let ids: Vec<u128> = h.history().iter().map(|e| e.id).collect();
    assert_eq!(ids, vec![4, 5]);
}

#[test]
fn history_of_size_zero_keeps_the_latest() {
    let mut h = EventHistory::new().with_history_size(0);
    h.record(bus("K", 1));
    h.record(bus("K", 2));
    assert_eq!(h.history_count(), 1);
    assert_eq!(h.history()[0].id, 2);
}

#[test]
fn plugin_health_after_start() {
    let ok = plugin_start_health("p", &Ok(()), "t".to_string());
    assert!(ok.healthy);
    assert_eq!(ok.message, "Started successfully");
    let failed = plugin_start_health("p", &Err(PluginError::StartFailed("no".to_string())), "t".to_string());
    assert!(!failed.healthy);
    assert_eq!(failed.message, "Start failed: Plugin start failed: no");
}

#[test]
fn rule_engine_contexts() {
    let t = ThreatEvent {
        id: 1,
        timestamp: 0,
        severity: Severity::High,
        category: ThreatCategory::Rootkit,
        title: "Hidden module".to_string(),
        description: String::new(),
        evidence: vec![],
        mitre_attack: vec![],
        source_detector: "module_scan".to_string(),
        process: None,
        tags: vec![],
    };
    let s = scoring_context(&t);
    assert_eq!(s.get("severity"), Some(&Value::String("high".to_string())));
    assert_eq!(s.get("category"), Some(&Value::String("rootkit".to_string())));
    assert_eq!(s.get("title"), None);
    let r = rule_context(&t);
    assert_eq!(r.get("title"), Some(&Value::String("Hidden module".to_string())));
    assert_eq!(r.get("source_detector"), Some(&Value::String("module_scan".to_string())));
    assert_eq!(r.len(), 4);
}

#[test]
fn history_keeps_the_latest_in_publish_order() {
    let mut h = EventHistory::new().with_history_size(3);
    for n in 1..=2 {
        h.record(bus("K", n));
    }
    let ids: Vec<u128> = h.history().iter().map(|e| e.id).collect();
    assert_eq!(ids, vec![1, 2]);
    for n in 3..=7 {
        h.record(bus("K", n));
    }
    let ids: Vec<u128> = h.history().iter().map(|e| e.id).collect();
    assert_eq!(ids, vec![5, 6, 7]);
    assert_eq!(h.history_count(), 3);
}
