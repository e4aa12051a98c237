use vstd::prelude::*;
use crate::text::{owned, push_str};
use crate::threat::Severity;

verus! {

/// A stored event.
#[derive(Debug, Clone)]
pub struct EventRow {
    pub id: String,
    pub timestamp: String,
    pub kind: String,
    pub source: String,
    pub severity: String,
    pub data: String,
}

/// A stored threat.
#[derive(Debug, Clone)]
pub struct ThreatRow {
    pub id: String,
    pub timestamp: String,
    pub severity: String,
    pub category: String,
    pub title: String,
    pub description: String,
    pub evidence: String,
    pub mitre_attack: String,
    pub source_detector: String,
    pub acknowledged: bool,
}

/// Counts over the stored threats.
#[derive(Debug, Clone)]
pub struct ThreatStats {
    pub total: i64,
    pub unacknowledged: i64,
    pub critical: i64,
    pub high: i64,
}

/// Counts over the stored evidence, overall and by type, severity and
/// source.
#[derive(Debug, Clone)]
pub struct EvidenceStats {
    pub total: i64,
    pub by_type: Vec<(String, i64)>,
    pub by_severity: Vec<(String, i64)>,
    pub by_source: Vec<(String, i64)>,
}

/// A stored edge of the evidence graph.
#[derive(Debug, Clone)]
pub struct GraphEdgeRow {
    pub id: i64,
    pub source_id: String,
    pub target_id: String,
    pub edge_type: String,
    pub properties: String,
    pub created_at: String,
}

/// A stored record of a response action.
#[derive(Debug, Clone)]
pub struct ResponseAuditRow {
    pub id: String,
    pub timestamp: String,
    pub threat_id: String,
    pub workflow_name: String,
    pub action_type: String,
    pub action_params: String,
    pub result: String,
    pub duration_ms: i64,
    pub errors: String,
    pub rollback_status: String,
    pub dry_run: bool,
    pub created_at: String,
}

/// A stored telemetry event.
#[derive(Debug, Clone)]
pub struct TelemetryEventRow {
    pub id: String,
    pub timestamp: String,
    pub provider: String,
    pub category: String,
    pub event_type: String,
    pub pid: Option<i64>,
    pub uid: Option<i64>,
    pub namespace: Option<String>,
    pub container: Option<String>,
    pub object_id: Option<String>,
    pub metadata: String,
}

/// A stored YARA rule.
#[derive(Debug, Clone)]
pub struct YaraRuleRow {
    pub id: String,
    pub name: String,
    pub description: String,
    pub author: String,
    pub severity: String,
    pub tags: String,
    pub rule_content: String,
    pub enabled: i64,
}

/// A stored Sigma rule.
#[derive(Debug, Clone)]
pub struct SigmaRuleRow {
    pub id: String,
    pub name: String,
    pub description: String,
    pub author: String,
    pub severity: String,
    pub tags: String,
    pub logsource_category: Option<String>,
    pub logsource_product: Option<String>,
    pub logsource_service: Option<String>,
    pub detection_condition: String,
    pub detection_fields: String,
    pub falsepositives: String,
    pub enabled: i64,
}

/// A stored fleet agent.
#[derive(Debug, Clone)]
pub struct FleetAgentRow {
    pub id: String,
    pub hostname: String,
    pub version: String,
    pub kernel: String,
    pub distribution: String,
    pub architecture: String,
    pub status: String,
    pub registered_at: String,
    pub last_heartbeat: Option<String>,
    pub events_received: i64,
    pub incidents_received: i64,
    pub policies_sent: i64,
    pub actions_sent: i64,
    pub created_at: String,
}

/// A stored fleet policy.
#[derive(Debug, Clone)]
pub struct FleetPolicyRow {
    pub id: String,
    pub name: String,
    pub policy_type: String,
    pub config: String,
    pub version: i64,
    pub enabled: i64,
    pub distributed_to: String,
    pub created_at: String,
}

/// A stored remote action.
#[derive(Debug, Clone)]
pub struct RemoteActionRow {
    pub id: String,
    pub agent_id: String,
    pub action_type: String,
    pub params: String,
    pub status: String,
    pub result: Option<String>,
    pub error: Option<String>,
    pub duration_ms: Option<i64>,
    pub created_at: String,
    pub completed_at: Option<String>,
}


/// The condition that keeps threats of at least `min` severity, to follow
/// the other conditions of a query on the threat table.
pub open spec fn severity_filter(min: Severity) -> Seq<char> {
    match min {
        Severity::Critical => "AND severity = 'critical'"@,
        Severity::High => "AND severity IN ('critical', 'high')"@,
        Severity::Medium => "AND severity IN ('critical', 'high', 'medium')"@,
        Severity::Low => "AND severity IN ('critical', 'high', 'medium', 'low')"@,
        Severity::Info => Seq::empty(),
    }
}

/// The condition that keeps threats of at least `min_severity`.
pub fn severity_filter_clause(min_severity: Severity) -> (s: &'static str)
    ensures
        s@ == severity_filter(min_severity),
{
    match min_severity {
        Severity::Critical => "AND severity = 'critical'",
        Severity::High => "AND severity IN ('critical', 'high')",
        Severity::Medium => "AND severity IN ('critical', 'high', 'medium')",
        Severity::Low => "AND severity IN ('critical', 'high', 'medium', 'low')",
        Severity::Info => {
            proof {
                reveal_strlit("");
            }
            ""
        },
    }
}

/// The query for the unacknowledged threats of at least `min` severity,
/// newest first, with the row limit as its one parameter.
pub open spec fn unacknowledged_query_text(min: Severity) -> Seq<char> {
    "SELECT id, timestamp, severity, category, title, description, evidence, mitre_attack, source_detector, acknowledged\n            FROM threat_events\n            WHERE acknowledged = 0 "@
        + severity_filter(min) + "\n            ORDER BY timestamp DESC LIMIT ?"@
}

/// The query for the unacknowledged threats of at least `min_severity`.
pub fn unacknowledged_query(min_severity: Severity) -> (q: String)
    ensures
        q@ == unacknowledged_query_text(min_severity),
{
    let mut q = owned("SELECT id, timestamp, severity, category, title, description, evidence, mitre_attack, source_detector, acknowledged\n            FROM threat_events\n            WHERE acknowledged = 0 ");
    push_str(&mut q, severity_filter_clause(min_severity));
    push_str(&mut q, "\n            ORDER BY timestamp DESC LIMIT ?");
    q
}

} // verus!
