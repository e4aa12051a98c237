use sentinelx::database::{severity_filter_clause, unacknowledged_query};
use sentinelx::threat::Severity;

#[test]
fn severity_filter_clauses() {
    assert_eq!(severity_filter_clause(Severity::Critical), "AND severity = 'critical'");
    assert_eq!(severity_filter_clause(Severity::High), "AND severity IN ('critical', 'high')");
    assert_eq!(severity_filter_clause(Severity::Medium), "AND severity IN ('critical', 'high', 'medium')");
    assert_eq!(severity_filter_clause(Severity::Low), "AND severity IN ('critical', 'high', 'medium', 'low')");
    assert_eq!(severity_filter_clause(Severity::Info), "");
}

#[test]
fn unacknowledged_query_text() {
    let q = unacknowledged_query(Severity::High);
    assert!(q.starts_with("SELECT id, timestamp, severity"));
    assert!(q.contains("WHERE acknowledged = 0 AND severity IN ('critical', 'high')\n"));
    assert!(q.ends_with("ORDER BY timestamp DESC LIMIT ?"));
    let all = unacknowledged_query(Severity::Info);
    assert!(all.contains("WHERE acknowledged = 0 \n"));
}
