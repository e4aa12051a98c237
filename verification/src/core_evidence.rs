use vstd::prelude::*;
use crate::assessment::{clamp_confidence, clamped_confidence, AssessmentResult, CONFIDENCE_ONE};
use crate::clock::{new_id, now_micros, uuid_string, uuid_text};
use crate::evidence::{Evidence, EvidenceModel, EvidenceType, Severity as EvidenceSeverity};
use crate::text::{decimal, is_prefix, owned, push_decimal, push_str, skip_chars, starts_with};
use crate::threat::{
    strings_view, Severity as ThreatSeverity, ThreatCategory, ThreatEvent, ThreatEventModel,
    ThreatEvidence, ThreatEvidenceModel,
};
use crate::value::{
    key_index, keys_distinct, lemma_key_index, lemma_lookup_store, lookup, store, DataMap, Value, ValueModel,
};

verus! {

/// What part of the system a core evidence record is about.
#[derive(Debug, Clone, Copy, PartialEq, Eq, Hash, Structural)]
pub enum CoreEvidenceType {
    FileIntegrity,
    ProcessIntegrity,
    NetworkIntegrity,
    KernelIntegrity,
    MemoryIntegrity,
    ModuleIntegrity,
    PersistenceIntegrity,
    SystemIntegrity,
    UserActivity,
    SecurityEvent,
}

impl CoreEvidenceType {
    /// The snake-case name of the type.
    pub open spec fn name(self) -> Seq<char> {
        match self {
            CoreEvidenceType::FileIntegrity => "file_integrity"@,
            CoreEvidenceType::ProcessIntegrity => "process_integrity"@,
            CoreEvidenceType::NetworkIntegrity => "network_integrity"@,
            CoreEvidenceType::KernelIntegrity => "kernel_integrity"@,
            CoreEvidenceType::MemoryIntegrity => "memory_integrity"@,
            CoreEvidenceType::ModuleIntegrity => "module_integrity"@,
            CoreEvidenceType::PersistenceIntegrity => "persistence_integrity"@,
            CoreEvidenceType::SystemIntegrity => "system_integrity"@,
            CoreEvidenceType::UserActivity => "user_activity"@,
            CoreEvidenceType::SecurityEvent => "security_event"@,
        }
    }

    pub fn as_str(&self) -> (s: &'static str)
        ensures
            s@ == self.name(),
    {
        match self {
            CoreEvidenceType::FileIntegrity => "file_integrity",
            CoreEvidenceType::ProcessIntegrity => "process_integrity",
            CoreEvidenceType::NetworkIntegrity => "network_integrity",
            CoreEvidenceType::KernelIntegrity => "kernel_integrity",
            CoreEvidenceType::MemoryIntegrity => "memory_integrity",
            CoreEvidenceType::ModuleIntegrity => "module_integrity",
            CoreEvidenceType::PersistenceIntegrity => "persistence_integrity",
            CoreEvidenceType::SystemIntegrity => "system_integrity",
            CoreEvidenceType::UserActivity => "user_activity",
            CoreEvidenceType::SecurityEvent => "security_event",
        }
    }
}

/// Severity of a core evidence record, ordered from `Info` to `Critical`.
#[derive(Debug, Clone, Copy, PartialEq, Eq, PartialOrd, Ord, Hash, Structural)]
pub enum CoreSeverity {
    Info,
    Low,
    Medium,
    High,
    Critical,
}

impl CoreSeverity {
    /// The position of the severity in the order `Info < Low < ... < Critical`.
    pub open spec fn rank(self) -> u8 {
        match self {
            CoreSeverity::Info => 0,
            CoreSeverity::Low => 1,
            CoreSeverity::Medium => 2,
            CoreSeverity::High => 3,
            CoreSeverity::Critical => 4,
        }
    }

    /// The lower-case name of the severity.
    pub open spec fn name(self) -> Seq<char> {
        match self {
            CoreSeverity::Info => "info"@,
            CoreSeverity::Low => "low"@,
            CoreSeverity::Medium => "medium"@,
            CoreSeverity::High => "high"@,
            CoreSeverity::Critical => "critical"@,
        }
    }

    pub fn as_str(&self) -> (s: &'static str)
        ensures
            s@ == self.name(),
    {
        match self {
            CoreSeverity::Info => "info",
            CoreSeverity::Low => "low",
            CoreSeverity::Medium => "medium",
            CoreSeverity::High => "high",
            CoreSeverity::Critical => "critical",
        }
    }
}

/// The core severity of the same rank as a threat severity.
pub open spec fn severity_from_threat(s: ThreatSeverity) -> CoreSeverity {
    match s {
        ThreatSeverity::Info => CoreSeverity::Info,
        ThreatSeverity::Low => CoreSeverity::Low,
        ThreatSeverity::Medium => CoreSeverity::Medium,
        ThreatSeverity::High => CoreSeverity::High,
        ThreatSeverity::Critical => CoreSeverity::Critical,
    }
}

/// The threat severity of the same rank as a core severity.
pub open spec fn severity_to_threat(s: CoreSeverity) -> ThreatSeverity {
    match s {
        CoreSeverity::Info => ThreatSeverity::Info,
        CoreSeverity::Low => ThreatSeverity::Low,
        CoreSeverity::Medium => ThreatSeverity::Medium,
        CoreSeverity::High => ThreatSeverity::High,
        CoreSeverity::Critical => ThreatSeverity::Critical,
    }
}

/// The core severity of the same rank as an evidence severity.
pub open spec fn severity_from_evidence(s: EvidenceSeverity) -> CoreSeverity {
    match s {
        EvidenceSeverity::Info => CoreSeverity::Info,
        EvidenceSeverity::Low => CoreSeverity::Low,
        EvidenceSeverity::Medium => CoreSeverity::Medium,
        EvidenceSeverity::High => CoreSeverity::High,
        EvidenceSeverity::Critical => CoreSeverity::Critical,
    }
}

/// The evidence severity of the same rank as a core severity.
pub open spec fn severity_to_evidence(s: CoreSeverity) -> EvidenceSeverity {
    match s {
        CoreSeverity::Info => EvidenceSeverity::Info,
        CoreSeverity::Low => EvidenceSeverity::Low,
        CoreSeverity::Medium => EvidenceSeverity::Medium,
        CoreSeverity::High => EvidenceSeverity::High,
        CoreSeverity::Critical => EvidenceSeverity::Critical,
    }
}

/// The core evidence type of the same name as an evidence type.
pub open spec fn type_from_evidence(t: EvidenceType) -> CoreEvidenceType {
    match t {
        EvidenceType::FileIntegrity => CoreEvidenceType::FileIntegrity,
        EvidenceType::ProcessIntegrity => CoreEvidenceType::ProcessIntegrity,
        EvidenceType::NetworkIntegrity => CoreEvidenceType::NetworkIntegrity,
        EvidenceType::KernelIntegrity => CoreEvidenceType::KernelIntegrity,
        EvidenceType::MemoryIntegrity => CoreEvidenceType::MemoryIntegrity,
        EvidenceType::ModuleIntegrity => CoreEvidenceType::ModuleIntegrity,
        EvidenceType::PersistenceIntegrity => CoreEvidenceType::PersistenceIntegrity,
        EvidenceType::SystemIntegrity => CoreEvidenceType::SystemIntegrity,
        EvidenceType::UserActivity => CoreEvidenceType::UserActivity,
        EvidenceType::SecurityEvent => CoreEvidenceType::SecurityEvent,
    }
}

/// The evidence type of the same name as a core evidence type.
pub open spec fn type_to_evidence(t: CoreEvidenceType) -> EvidenceType {
    match t {
        CoreEvidenceType::FileIntegrity => EvidenceType::FileIntegrity,
        CoreEvidenceType::ProcessIntegrity => EvidenceType::ProcessIntegrity,
        CoreEvidenceType::NetworkIntegrity => EvidenceType::NetworkIntegrity,
        CoreEvidenceType::KernelIntegrity => EvidenceType::KernelIntegrity,
        CoreEvidenceType::MemoryIntegrity => EvidenceType::MemoryIntegrity,
        CoreEvidenceType::ModuleIntegrity => EvidenceType::ModuleIntegrity,
        CoreEvidenceType::PersistenceIntegrity => EvidenceType::PersistenceIntegrity,
        CoreEvidenceType::SystemIntegrity => EvidenceType::SystemIntegrity,
        CoreEvidenceType::UserActivity => EvidenceType::UserActivity,
        CoreEvidenceType::SecurityEvent => EvidenceType::SecurityEvent,
    }
}

/// The part of the system that a threat category concerns.
pub open spec fn category_evidence_type(c: ThreatCategory) -> CoreEvidenceType {
    match c {
        ThreatCategory::HookDetected | ThreatCategory::SuspiciousSyscall | ThreatCategory::Rootkit
        | ThreatCategory::EbpfAbuse => CoreEvidenceType::KernelIntegrity,
        ThreatCategory::HiddenProcess | ThreatCategory::DkomAttack => CoreEvidenceType::ProcessIntegrity,
        ThreatCategory::HiddenConnection | ThreatCategory::ReverseShell => CoreEvidenceType::NetworkIntegrity,
        ThreatCategory::HiddenModule | ThreatCategory::LivepatchAbuse => CoreEvidenceType::ModuleIntegrity,
        ThreatCategory::MemoryTampering | ThreatCategory::FilelessMalware => CoreEvidenceType::MemoryIntegrity,
        ThreatCategory::IntegrityViolation => CoreEvidenceType::FileIntegrity,
        ThreatCategory::PersistenceMechanism => CoreEvidenceType::PersistenceIntegrity,
        ThreatCategory::PrivilegeEscalation | ThreatCategory::ContainerEscape => CoreEvidenceType::SecurityEvent,
        ThreatCategory::Unknown => CoreEvidenceType::SystemIntegrity,
    }
}

/// The representative threat category of an evidence type.
pub open spec fn evidence_type_category(t: CoreEvidenceType) -> ThreatCategory {
    match t {
        CoreEvidenceType::KernelIntegrity => ThreatCategory::HookDetected,
        CoreEvidenceType::ProcessIntegrity => ThreatCategory::HiddenProcess,
        CoreEvidenceType::NetworkIntegrity => ThreatCategory::HiddenConnection,
        CoreEvidenceType::ModuleIntegrity => ThreatCategory::HiddenModule,
        CoreEvidenceType::MemoryIntegrity => ThreatCategory::MemoryTampering,
        CoreEvidenceType::FileIntegrity => ThreatCategory::IntegrityViolation,
        CoreEvidenceType::PersistenceIntegrity => ThreatCategory::PersistenceMechanism,
        CoreEvidenceType::SystemIntegrity => ThreatCategory::Unknown,
        CoreEvidenceType::UserActivity => ThreatCategory::Unknown,
        CoreEvidenceType::SecurityEvent => ThreatCategory::PrivilegeEscalation,
    }
}

/// The part of the system that a threat category concerns.
pub fn threat_category_to_evidence_type(category: &ThreatCategory) -> (t: CoreEvidenceType)
    ensures
        t == category_evidence_type(*category),
{
    match category {
        ThreatCategory::HookDetected | ThreatCategory::SuspiciousSyscall | ThreatCategory::Rootkit
        | ThreatCategory::EbpfAbuse => CoreEvidenceType::KernelIntegrity,
        ThreatCategory::HiddenProcess | ThreatCategory::DkomAttack => CoreEvidenceType::ProcessIntegrity,
        ThreatCategory::HiddenConnection | ThreatCategory::ReverseShell => CoreEvidenceType::NetworkIntegrity,
        ThreatCategory::HiddenModule | ThreatCategory::LivepatchAbuse => CoreEvidenceType::ModuleIntegrity,
        ThreatCategory::MemoryTampering | ThreatCategory::FilelessMalware => CoreEvidenceType::MemoryIntegrity,
        ThreatCategory::IntegrityViolation => CoreEvidenceType::FileIntegrity,
        ThreatCategory::PersistenceMechanism => CoreEvidenceType::PersistenceIntegrity,
        ThreatCategory::PrivilegeEscalation | ThreatCategory::ContainerEscape => CoreEvidenceType::SecurityEvent,
        ThreatCategory::Unknown => CoreEvidenceType::SystemIntegrity,
    }
}

/// The representative threat category of an evidence type.
pub fn evidence_type_to_threat_category(evidence_type: &CoreEvidenceType) -> (c: ThreatCategory)
    ensures
        c == evidence_type_category(*evidence_type),
{
    match evidence_type {
        CoreEvidenceType::KernelIntegrity => ThreatCategory::HookDetected,
        CoreEvidenceType::ProcessIntegrity => ThreatCategory::HiddenProcess,
        CoreEvidenceType::NetworkIntegrity => ThreatCategory::HiddenConnection,
        CoreEvidenceType::ModuleIntegrity => ThreatCategory::HiddenModule,
        CoreEvidenceType::MemoryIntegrity => ThreatCategory::MemoryTampering,
        CoreEvidenceType::FileIntegrity => ThreatCategory::IntegrityViolation,
        CoreEvidenceType::PersistenceIntegrity => ThreatCategory::PersistenceMechanism,
        CoreEvidenceType::SystemIntegrity => ThreatCategory::Unknown,
        CoreEvidenceType::UserActivity => ThreatCategory::Unknown,
        CoreEvidenceType::SecurityEvent => ThreatCategory::PrivilegeEscalation,
    }
}

fn core_severity_of_threat(s: ThreatSeverity) -> (r: CoreSeverity)
    ensures
        r == severity_from_threat(s),
{
    match s {
        ThreatSeverity::Info => CoreSeverity::Info,
        ThreatSeverity::Low => CoreSeverity::Low,
        ThreatSeverity::Medium => CoreSeverity::Medium,
        ThreatSeverity::High => CoreSeverity::High,
        ThreatSeverity::Critical => CoreSeverity::Critical,
    }
}

fn threat_severity_of_core(s: CoreSeverity) -> (r: ThreatSeverity)
    ensures
        r == severity_to_threat(s),
{
    match s {
        CoreSeverity::Info => ThreatSeverity::Info,
        CoreSeverity::Low => ThreatSeverity::Low,
        CoreSeverity::Medium => ThreatSeverity::Medium,
        CoreSeverity::High => ThreatSeverity::High,
        CoreSeverity::Critical => ThreatSeverity::Critical,
    }
}

fn core_severity_of_evidence(s: EvidenceSeverity) -> (r: CoreSeverity)
    ensures
        r == severity_from_evidence(s),
{
    match s {
        EvidenceSeverity::Info => CoreSeverity::Info,
        EvidenceSeverity::Low => CoreSeverity::Low,
        EvidenceSeverity::Medium => CoreSeverity::Medium,
        EvidenceSeverity::High => CoreSeverity::High,
        EvidenceSeverity::Critical => CoreSeverity::Critical,
    }
}

fn evidence_severity_of_core(s: CoreSeverity) -> (r: EvidenceSeverity)
    ensures
        r == severity_to_evidence(s),
{
    match s {
        CoreSeverity::Info => EvidenceSeverity::Info,
        CoreSeverity::Low => EvidenceSeverity::Low,
        CoreSeverity::Medium => EvidenceSeverity::Medium,
        CoreSeverity::High => EvidenceSeverity::High,
        CoreSeverity::Critical => EvidenceSeverity::Critical,
    }
}

fn core_type_of_evidence(t: EvidenceType) -> (r: CoreEvidenceType)
    ensures
        r == type_from_evidence(t),
{
    match t {
        EvidenceType::FileIntegrity => CoreEvidenceType::FileIntegrity,
        EvidenceType::ProcessIntegrity => CoreEvidenceType::ProcessIntegrity,
        EvidenceType::NetworkIntegrity => CoreEvidenceType::NetworkIntegrity,
        EvidenceType::KernelIntegrity => CoreEvidenceType::KernelIntegrity,
        EvidenceType::MemoryIntegrity => CoreEvidenceType::MemoryIntegrity,
        EvidenceType::ModuleIntegrity => CoreEvidenceType::ModuleIntegrity,
        EvidenceType::PersistenceIntegrity => CoreEvidenceType::PersistenceIntegrity,
        EvidenceType::SystemIntegrity => CoreEvidenceType::SystemIntegrity,
        EvidenceType::UserActivity => CoreEvidenceType::UserActivity,
        EvidenceType::SecurityEvent => CoreEvidenceType::SecurityEvent,
    }
}

fn evidence_type_of_core(t: CoreEvidenceType) -> (r: EvidenceType)
    ensures
        r == type_to_evidence(t),
{
    match t {
        CoreEvidenceType::FileIntegrity => EvidenceType::FileIntegrity,
        CoreEvidenceType::ProcessIntegrity => EvidenceType::ProcessIntegrity,
        CoreEvidenceType::NetworkIntegrity => EvidenceType::NetworkIntegrity,
        CoreEvidenceType::KernelIntegrity => EvidenceType::KernelIntegrity,
        CoreEvidenceType::MemoryIntegrity => EvidenceType::MemoryIntegrity,
        CoreEvidenceType::ModuleIntegrity => EvidenceType::ModuleIntegrity,
        CoreEvidenceType::PersistenceIntegrity => EvidenceType::PersistenceIntegrity,
        CoreEvidenceType::SystemIntegrity => EvidenceType::SystemIntegrity,
        CoreEvidenceType::UserActivity => EvidenceType::UserActivity,
        CoreEvidenceType::SecurityEvent => EvidenceType::SecurityEvent,
    }
}

/// An evidence record of the pipeline.  `confidence` is in millionths;
/// `timestamp` is in microseconds since the Unix epoch; ids are 128-bit
/// UUID values.
pub struct CoreEvidence {
    pub id: u128,
    pub timestamp: i64,
    pub object_id: String,
    pub evidence_type: CoreEvidenceType,
    pub source: String,
    pub confidence: u32,
    pub severity: CoreSeverity,
    pub metadata_snapshot: DataMap,
    pub assessment_snapshot: Option<AssessmentResult>,
    pub assessment_id: Option<u128>,
    pub related_evidence: Vec<u128>,
    pub data: DataMap,
}

/// The mathematical content of a [`CoreEvidence`].
pub struct CoreEvidenceModel {
    pub id: u128,
    pub timestamp: i64,
    pub object_id: Seq<char>,
    pub evidence_type: CoreEvidenceType,
    pub source: Seq<char>,
    pub confidence: u32,
    pub severity: CoreSeverity,
    pub metadata_snapshot: Seq<(Seq<char>, ValueModel)>,
    pub assessment_snapshot: Option<AssessmentResult>,
    pub assessment_id: Option<u128>,
    pub related_evidence: Seq<u128>,
    pub data: Seq<(Seq<char>, ValueModel)>,
}

impl View for CoreEvidence {
    type V = CoreEvidenceModel;

    open spec fn view(&self) -> CoreEvidenceModel {
        CoreEvidenceModel {
            id: self.id,
            timestamp: self.timestamp,
            object_id: self.object_id@,
            evidence_type: self.evidence_type,
            source: self.source@,
            confidence: self.confidence,
            severity: self.severity,
            metadata_snapshot: self.metadata_snapshot@,
            assessment_snapshot: self.assessment_snapshot,
            assessment_id: self.assessment_id,
            related_evidence: self.related_evidence@,
            data: self.data@,
        }
    }
}

/// The data key that marks a tag.
pub open spec fn tag_key(tag: Seq<char>) -> Seq<char> {
    "tag:"@ + tag
}

/// The entries `m` after each tag is stored with the value `true`, in order.
pub open spec fn with_tags(m: Seq<(Seq<char>, ValueModel)>, tags: Seq<Seq<char>>) -> Seq<(Seq<char>, ValueModel)>
    decreases tags.len(),
{
    if tags.len() == 0 {
        m
    } else {
        store(with_tags(m, tags.drop_last()), tag_key(tags.last()), ValueModel::Bool(true))
    }
}

/// The entries `m` after each of `es` is stored, in order.
pub open spec fn store_all(m: Seq<(Seq<char>, ValueModel)>, es: Seq<(Seq<char>, ValueModel)>) -> Seq<(Seq<char>, ValueModel)>
    decreases es.len(),
{
    if es.len() == 0 {
        m
    } else {
        store(store_all(m, es.drop_last()), es.last().0, es.last().1)
    }
}

/// The data of all evidence items merged in order, a later key replacing
/// an earlier one.
pub open spec fn merged_data(evs: Seq<ThreatEvidenceModel>) -> Seq<(Seq<char>, ValueModel)>
    decreases evs.len(),
{
    if evs.len() == 0 {
        Seq::empty()
    } else {
        store_all(merged_data(evs.drop_last()), evs.last().data)
    }
}

/// The five entries recorded first from a threat event, before its tags.
pub open spec fn threat_head(e: ThreatEventModel) -> Seq<(Seq<char>, ValueModel)> {
    let m1 = store(Seq::empty(), "threat_id"@, ValueModel::Text(uuid_text(e.id)));
    let m2 = store(m1, "threat_title"@, ValueModel::Text(e.title));
    let m3 = store(m2, "threat_description"@, ValueModel::Text(e.description));
    let m4 = store(m3, "threat_category"@, ValueModel::Text(e.category.name()));
    store(m4, "source_detector"@, ValueModel::Text(e.source_detector))
}

/// The data recorded from a threat event: its id, title, description,
/// category and detector, then one entry per tag.
pub open spec fn threat_data(e: ThreatEventModel) -> Seq<(Seq<char>, ValueModel)> {
    with_tags(threat_head(e), e.tags)
}

/// The object a threat event is about: its process if it names one, else
/// the event itself.
pub open spec fn threat_object_id(e: ThreatEventModel) -> Seq<char> {
    match e.process {
        Some(p) => "process:"@ + decimal(p.pid as nat),
        None => "threat:"@ + uuid_text(e.id),
    }
}

/// The confidence of the first evidence item, full confidence if none.
pub open spec fn first_confidence(e: ThreatEventModel) -> u32 {
    if e.evidence.len() > 0 {
        e.evidence[0].confidence
    } else {
        CONFIDENCE_ONE
    }
}

/// The text stored under `key`, or `default` when there is none.
pub open spec fn text_or(m: Seq<(Seq<char>, ValueModel)>, key: Seq<char>, default: Seq<char>) -> Seq<char> {
    match lookup(m, key) {
        Some(v) => match v.text() {
            Some(t) => t,
            None => default,
        },
        None => default,
    }
}

/// The description of a record: the threat description, else the threat
/// title, else a fixed text.
pub open spec fn description_text(m: Seq<(Seq<char>, ValueModel)>) -> Seq<char> {
    match lookup(m, "threat_description"@) {
        Some(ValueModel::Text(t)) => t,
        _ => text_or(m, "threat_title"@, "Evidence collected"@),
    }
}

/// The tags marked in the entries, in entry order.
pub open spec fn tag_names(m: Seq<(Seq<char>, ValueModel)>) -> Seq<Seq<char>>
    decreases m.len(),
{
    if m.len() == 0 {
        Seq::empty()
    } else if is_prefix("tag:"@, m.last().0) {
        tag_names(m.drop_last()).push(m.last().0.skip(4))
    } else {
        tag_names(m.drop_last())
    }
}

/// The entries that do not mark a tag, in entry order.
pub open spec fn untagged(m: Seq<(Seq<char>, ValueModel)>) -> Seq<(Seq<char>, ValueModel)>
    decreases m.len(),
{
    if m.len() == 0 {
        Seq::empty()
    } else if is_prefix("tag:"@, m.last().0) {
        untagged(m.drop_last())
    } else {
        untagged(m.drop_last()).push(m.last())
    }
}

/// The record made of threat event `e` reported by `detector`, with id `id`.
pub open spec fn threat_record(e: ThreatEventModel, detector: Seq<char>, id: u128) -> CoreEvidenceModel {
    CoreEvidenceModel {
        id,
        timestamp: e.timestamp,
        object_id: threat_object_id(e),
        evidence_type: category_evidence_type(e.category),
        source: detector,
        confidence: first_confidence(e),
        severity: severity_from_threat(e.severity),
        metadata_snapshot: merged_data(e.evidence),
        assessment_snapshot: None,
        assessment_id: None,
        related_evidence: Seq::empty(),
        data: threat_data(e),
    }
}

/// The threat event that record `c` stands for.
pub open spec fn record_threat(c: CoreEvidenceModel) -> ThreatEventModel {
    ThreatEventModel {
        id: c.id,
        timestamp: c.timestamp,
        severity: severity_to_threat(c.severity),
        category: evidence_type_category(c.evidence_type),
        title: text_or(c.data, "threat_title"@, "Evidence collected"@),
        description: text_or(c.data, "threat_description"@, "Evidence was collected by the pipeline"@),
        evidence: seq![ThreatEvidenceModel {
            description: description_text(c.data),
            data: c.metadata_snapshot,
            confidence: c.confidence,
        }],
        mitre_attack: Seq::empty(),
        source_detector: text_or(c.data, "source_detector"@, c.source),
        process: None,
        tags: tag_names(c.data),
    }
}

/// The record made of evidence item `e`.
pub open spec fn legacy_record(e: EvidenceModel) -> CoreEvidenceModel {
    CoreEvidenceModel {
        id: e.id,
        timestamp: e.timestamp,
        object_id: "legacy:"@ + e.source,
        evidence_type: type_from_evidence(e.evidence_type),
        source: e.source,
        confidence: e.confidence,
        severity: severity_from_evidence(e.severity),
        metadata_snapshot: Seq::empty(),
        assessment_snapshot: None,
        assessment_id: None,
        related_evidence: e.related_evidence,
        data: with_tags(e.data, e.tags),
    }
}

/// The evidence item that record `c` stands for.
pub open spec fn record_legacy(c: CoreEvidenceModel) -> EvidenceModel {
    EvidenceModel {
        id: c.id,
        timestamp: c.timestamp,
        evidence_type: type_to_evidence(c.evidence_type),
        severity: severity_to_evidence(c.severity),
        source: c.source,
        description: description_text(c.data),
        data: untagged(c.data),
        tags: tag_names(c.data),
        confidence: c.confidence,
        related_evidence: c.related_evidence,
    }
}

/// Every entry kept by `untagged` is an entry of `m`.
pub proof fn lemma_untagged_entries(m: Seq<(Seq<char>, ValueModel)>)
    ensures
        forall|j: int| 0 <= j < untagged(m).len() ==> m.contains(#[trigger] untagged(m)[j]),
    decreases m.len(),
{
    if m.len() > 0 {
        let p = m.drop_last();
        lemma_untagged_entries(p);
        assert forall|j: int| 0 <= j < untagged(m).len() implies m.contains(#[trigger] untagged(m)[j]) by {
            if j < untagged(p).len() {
                assert(untagged(m)[j] == untagged(p)[j]);
                let t = choose|t: int| 0 <= t < p.len() && p[t] == untagged(p)[j];
                assert(m[t] == p[t]);
            } else {
                assert(untagged(m)[j] == m[m.len() - 1]);
            }
        }
    }
}

/// The text stored under `key`, or `default` when there is none.
fn text_or_default(m: &DataMap, key: &str, default: &str) -> (r: String)
    ensures
        r@ == text_or(m@, key@, default@),
{
    match m.get(key) {
        Some(v) => match v.as_str() {
            Some(t) => owned(t),
            None => owned(default),
        },
        None => owned(default),
    }
}

/// The threat description, else the threat title, else a fixed text.
fn description_of(m: &DataMap) -> (r: String)
    ensures
        r@ == description_text(m@),
{
    match m.get("threat_description") {
        Some(Value::String(t)) => t.clone(),
        _ => text_or_default(m, "threat_title", "Evidence collected"),
    }
}

/// The tags marked in a table, in entry order.
fn tag_list(m: &DataMap) -> (r: Vec<String>)
    ensures
        strings_view(r@) == tag_names(m@),
{
    proof {
        reveal_strlit("tag:");
    }
    let n = m.len();
    let mut r: Vec<String> = Vec::new();
    let mut j: usize = 0;
    while j < n
        invariant
            j <= n,
            n == m@.len(),
            "tag:"@.len() == 4,
            strings_view(r@) == tag_names(m@.take(j as int)),
        decreases n - j,
    {
        let (k, _v) = m.entry(j);
        assert(m@.take(j + 1).drop_last() =~= m@.take(j as int));
        if starts_with(k.as_str(), "tag:") {
            let t = skip_chars(k.as_str(), 4);
            let ghost before = r@;
            r.push(t);
            assert(strings_view(r@) =~= strings_view(before).push(t@));
        }
        j += 1;
    }
    assert(m@.take(n as int) =~= m@);
    r
}

/// The entries of a table that do not mark a tag, in entry order.
fn untagged_data(m: &DataMap) -> (r: DataMap)
    ensures
        r@ == untagged(m@),
{
    proof {
        reveal_strlit("tag:");
    }
    let n = m.len();
    let mut r = DataMap::new();
    let mut j: usize = 0;
    while j < n
        invariant
            j <= n,
            n == m@.len(),
            keys_distinct(m@),
            r@ == untagged(m@.take(j as int)),
        decreases n - j,
    {
        let (k, v) = m.entry(j);
        assert(m@.take(j + 1).drop_last() =~= m@.take(j as int));
        if !starts_with(k.as_str(), "tag:") {
            proof {
                let p = m@.take(j as int);
                lemma_untagged_entries(p);
                lemma_key_index(r@, k@);
                if key_index(r@, k@) is Some {
                    let q = key_index(r@, k@)->0;
                    assert(p.contains(untagged(p)[q]));
                    let t = choose|t: int| 0 <= t < p.len() && p[t] == untagged(p)[q];
                    assert(m@[t].0 == m@[j as int].0);
                }
            }
            r.insert(k.clone(), v.duplicate());
        }
        j += 1;
    }
    assert(m@.take(n as int) =~= m@);
    r
}

impl CoreEvidence {
    /// A record with a new random id, the current time, full confidence and
    /// no data, snapshot or related evidence.
    pub fn new(object_id: &str, evidence_type: CoreEvidenceType, severity: CoreSeverity, source: &str) -> (e: CoreEvidence)
        ensures
            e@.object_id == object_id@,
            e.evidence_type == evidence_type,
            e.severity == severity,
            e@.source == source@,
            e.confidence == CONFIDENCE_ONE,
            e@.metadata_snapshot.len() == 0,
            e.assessment_snapshot is None,
            e.assessment_id is None,
            e@.related_evidence.len() == 0,
            e@.data.len() == 0,
    {
        CoreEvidence {
            id: new_id(),
            timestamp: now_micros(),
            object_id: owned(object_id),
            evidence_type,
            source: owned(source),
            confidence: CONFIDENCE_ONE,
            severity,
            metadata_snapshot: DataMap::new(),
            assessment_snapshot: None,
            assessment_id: None,
            related_evidence: Vec::new(),
            data: DataMap::new(),
        }
    }

    /// A copy of the record.
    pub fn duplicate(&self) -> (r: CoreEvidence)
        ensures
            r@ == self@,
    {
        let assessment_snapshot = match &self.assessment_snapshot {
            Some(a) => Some(a.duplicate()),
            None => None,
        };
        let mut related: Vec<u128> = Vec::new();
        let mut i: usize = 0;
        while i < self.related_evidence.len()
            invariant
                i <= self.related_evidence@.len(),
                related@ == self.related_evidence@.take(i as int),
            decreases self.related_evidence.len() - i,
        {
            related.push(self.related_evidence[i]);
            assert(self.related_evidence@.take(i as int).push(self.related_evidence@[i as int])
                =~= self.related_evidence@.take(i + 1));
            i += 1;
        }
        assert(self.related_evidence@.take(self.related_evidence@.len() as int) =~= self.related_evidence@);
        CoreEvidence {
            id: self.id,
            timestamp: self.timestamp,
            object_id: self.object_id.clone(),
            evidence_type: self.evidence_type,
            source: self.source.clone(),
            confidence: self.confidence,
            severity: self.severity,
            metadata_snapshot: self.metadata_snapshot.duplicate(),
            assessment_snapshot,
            assessment_id: self.assessment_id,
            related_evidence: related,
            data: self.data.duplicate(),
        }
    }

    /// Sets the confidence (in millionths), clamped to `0 ..= CONFIDENCE_ONE`.
    pub fn with_confidence(self, confidence: i64) -> (r: CoreEvidence)
        ensures
            r@ == (CoreEvidenceModel { confidence: clamp_confidence(confidence as int), ..self@ }),
    {
        let mut e = self;
        e.confidence = clamped_confidence(confidence);
        e
    }

    pub fn with_metadata_snapshot(self, snapshot: DataMap) -> (r: CoreEvidence)
        ensures
            r@ == (CoreEvidenceModel { metadata_snapshot: snapshot@, ..self@ }),
    {
        let mut e = self;
        e.metadata_snapshot = snapshot;
        e
    }

    pub fn with_assessment(self, assessment: AssessmentResult) -> (r: CoreEvidence)
        ensures
            r@ == (CoreEvidenceModel { assessment_snapshot: Some(assessment), ..self@ }),
    {
        let mut e = self;
        e.assessment_snapshot = Some(assessment);
        e
    }

    pub fn with_assessment_id(self, assessment_id: u128) -> (r: CoreEvidence)
        ensures
            r@ == (CoreEvidenceModel { assessment_id: Some(assessment_id), ..self@ }),
    {
        let mut e = self;
        e.assessment_id = Some(assessment_id);
        e
    }

    pub fn with_related_evidence(self, evidence_id: u128) -> (r: CoreEvidence)
        ensures
            r@ == (CoreEvidenceModel { related_evidence: self@.related_evidence.push(evidence_id), ..self@ }),
    {
        let mut e = self;
        e.related_evidence.push(evidence_id);
        e
    }

    /// Stores `value` under `key` in the record's data.
    pub fn with_data(self, key: String, value: Value) -> (r: CoreEvidence)
        ensures
            r@ == (CoreEvidenceModel { data: store(self@.data, key@, value@), ..self@ }),
    {
        let mut e = self;
        e.data.insert(key, value);
        e
    }

    /// Marks the record with a tag: `tag:<tag>` is stored as `true`.
    pub fn with_tag(self, tag: &str) -> (r: CoreEvidence)
        ensures
            r@ == (CoreEvidenceModel { data: store(self@.data, tag_key(tag@), ValueModel::Bool(true)), ..self@ }),
    {
        let mut e = self;
        let mut k = owned("tag:");
        push_str(&mut k, tag);
        e.data.insert(k, Value::Bool(true));
        e
    }

    /// The record made of a threat event reported by `detector_name`: one
    /// item, with a new random id.
    pub fn from_threat_event(event: &ThreatEvent, detector_name: &str) -> (r: Vec<CoreEvidence>)
        ensures
            r@.len() == 1,
            r@[0]@ == threat_record(event@, detector_name@, r@[0].id),
    {
        let severity = core_severity_of_threat(event.severity);
        let evidence_type = threat_category_to_evidence_type(&event.category);
        let mut data = DataMap::new();
        data.insert(owned("threat_id"), Value::String(uuid_string(event.id)));
        data.insert(owned("threat_title"), Value::String(event.title.clone()));
        data.insert(owned("threat_description"), Value::String(event.description.clone()));
        data.insert(owned("threat_category"), Value::String(owned(event.category.as_str())));
        data.insert(owned("source_detector"), Value::String(event.source_detector.clone()));
        let ghost base = data@;
        let ghost tags = event@.tags;
        let mut i: usize = 0;
        while i < event.tags.len()
            invariant
                i <= event.tags.len(),
                tags == strings_view(event.tags@),
                data@ == with_tags(base, tags.take(i as int)),
            decreases event.tags.len() - i,
        {
            let mut k = owned("tag:");
            push_str(&mut k, event.tags[i].as_str());
            data.insert(k, Value::Bool(true));
            assert(tags.take(i + 1).drop_last() =~= tags.take(i as int));
            i += 1;
        }
        assert(tags.take(event.tags.len() as int) =~= tags);

        let object_id = match &event.process {
            Some(p) => {
                let mut s = owned("process:");
                push_decimal(&mut s, p.pid as u64);
                s
            },
            None => {
                let mut s = owned("threat:");
                let t = uuid_string(event.id);
                push_str(&mut s, t.as_str());
                s
            },
        };
        let confidence = if event.evidence.len() > 0 {
            event.evidence[0].confidence
        } else {
            CONFIDENCE_ONE
        };

        let mut meta = DataMap::new();
        let ghost evs = event@.evidence;
        let mut i: usize = 0;
        while i < event.evidence.len()
            invariant
                i <= event.evidence.len(),
                evs == event@.evidence,
                meta@ == merged_data(evs.take(i as int)),
            decreases event.evidence.len() - i,
        {
            let d = &event.evidence[i].data;
            let ghost before = meta@;
            let n = d.len();
            let mut j: usize = 0;
            while j < n
                invariant
                    j <= n,
                    n == d@.len(),
                    meta@ == store_all(before, d@.take(j as int)),
                decreases n - j,
            {
                let (k, v) = d.entry(j);
                meta.insert(k.clone(), v.duplicate());
                assert(d@.take(j + 1).drop_last() =~= d@.take(j as int));
                j += 1;
            }
            assert(d@.take(n as int) =~= d@);
            assert(evs.take(i + 1).drop_last() =~= evs.take(i as int));
            assert(evs.take(i + 1).last() == evs[i as int]);
            i += 1;
        }
        assert(evs.take(event.evidence.len() as int) =~= evs);

        let mut r: Vec<CoreEvidence> = Vec::new();
        r.push(CoreEvidence {
            id: new_id(),
            timestamp: event.timestamp,
            object_id,
            evidence_type,
            source: owned(detector_name),
            confidence,
            severity,
            metadata_snapshot: meta,
            assessment_snapshot: None,
            assessment_id: None,
            related_evidence: Vec::new(),
            data,
        });
        r
    }

    /// The threat event that this record stands for.
    pub fn to_threat_event(&self) -> (r: ThreatEvent)
        ensures
            r@ == record_threat(self@),
    {
        let title = text_or_default(&self.data, "threat_title", "Evidence collected");
        let description = text_or_default(&self.data, "threat_description", "Evidence was collected by the pipeline");
        let source_detector = text_or_default(&self.data, "source_detector", self.source.as_str());
        let ev = ThreatEvidence {
            description: description_of(&self.data),
            data: self.metadata_snapshot.duplicate(),
            confidence: self.confidence,
        };
        let mut evidence: Vec<ThreatEvidence> = Vec::new();
        evidence.push(ev);
        let r = ThreatEvent {
            id: self.id,
            timestamp: self.timestamp,
            severity: threat_severity_of_core(self.severity),
            category: evidence_type_to_threat_category(&self.evidence_type),
            title,
            description,
            evidence,
            mitre_attack: Vec::new(),
            source_detector,
            process: None,
            tags: tag_list(&self.data),
        };
        assert(r@.evidence =~= seq![ThreatEvidenceModel {
            description: description_text(self@.data),
            data: self@.metadata_snapshot,
            confidence: self.confidence,
        }]);
        assert(r@.mitre_attack =~= Seq::<Seq<char>>::empty());
        r
    }

    /// The record made of an evidence item: same id, time, type, severity,
    /// source, confidence and related items; its tags become data entries.
    pub fn from_legacy_evidence(evidence: &Evidence) -> (r: CoreEvidence)
        ensures
            r@ == legacy_record(evidence@),
    {
        let mut data = evidence.data.duplicate();
        let ghost base = data@;
        let ghost tags = evidence@.tags;
        let mut i: usize = 0;
        while i < evidence.tags.len()
            invariant
                i <= evidence.tags.len(),
                tags == strings_view(evidence.tags@),
                data@ == with_tags(base, tags.take(i as int)),
            decreases evidence.tags.len() - i,
        {
            let mut k = owned("tag:");
            push_str(&mut k, evidence.tags[i].as_str());
            data.insert(k, Value::Bool(true));
            assert(tags.take(i + 1).drop_last() =~= tags.take(i as int));
            i += 1;
        }
        assert(tags.take(evidence.tags.len() as int) =~= tags);
        let mut object_id = owned("legacy:");
        push_str(&mut object_id, evidence.source.as_str());
        CoreEvidence {
            id: evidence.id,
            timestamp: evidence.timestamp,
            object_id,
            evidence_type: core_type_of_evidence(evidence.evidence_type),
            source: evidence.source.clone(),
            confidence: evidence.confidence,
            severity: core_severity_of_evidence(evidence.severity),
            metadata_snapshot: DataMap::new(),
            assessment_snapshot: None,
            assessment_id: None,
            related_evidence: evidence.related_evidence.clone(),
            data,
        }
    }

    /// The evidence item that this record stands for: tagged entries become
    /// tags, the rest stays data.
    pub fn into_legacy_evidence(self) -> (r: Evidence)
        ensures
            r@ == record_legacy(self@),
    {
        let tags = tag_list(&self.data);
        let description = description_of(&self.data);
        let data = untagged_data(&self.data);
        Evidence {
            id: self.id,
            timestamp: self.timestamp,
            evidence_type: evidence_type_of_core(self.evidence_type),
            severity: evidence_severity_of_core(self.severity),
            source: self.source,
            description,
            data,
            tags,
            confidence: self.confidence,
            related_evidence: self.related_evidence,
        }
    }
}

/// `tag_key(t)` starts with `tag:`, and what follows is `t`.
pub proof fn lemma_tag_key(t: Seq<char>)
    ensures
        is_prefix("tag:"@, tag_key(t)),
        tag_key(t).skip(4) == t,
{
    reveal_strlit("tag:");
    assert(tag_key(t).subrange(0, 4) =~= "tag:"@);
    assert(tag_key(t).skip(4) =~= t);
}

/// A key that starts with `tag:` is the tag key of what follows.
pub proof fn lemma_tagged_key(k: Seq<char>)
    requires
        is_prefix("tag:"@, k),
    ensures
        k == tag_key(k.skip(4)),
{
    reveal_strlit("tag:");
    assert(k =~= "tag:"@ + k.skip(4));
}

/// `tag_names(m)` lists `t` exactly when an entry has the key `tag_key(t)`.
pub proof fn lemma_tag_names(m: Seq<(Seq<char>, ValueModel)>, t: Seq<char>)
    ensures
        tag_names(m).contains(t) <==> exists|j: int| 0 <= j < m.len() && m[j].0 == tag_key(t),
    decreases m.len(),
{
    if m.len() > 0 {
        let p = m.drop_last();
        let k = m.last().0;
        lemma_tag_names(p, t);
        lemma_tag_key(t);
        let tn = tag_names(m);
        let tp = tag_names(p);
        if exists|j: int| 0 <= j < m.len() && m[j].0 == tag_key(t) {
            let j = choose|j: int| 0 <= j < m.len() && m[j].0 == tag_key(t);
            if j == m.len() - 1 {
                assert(tn == tp.push(t));
                assert(tn[tn.len() - 1] == t);
            } else {
                assert(p[j].0 == tag_key(t));
                let q = choose|q: int| 0 <= q < tp.len() && tp[q] == t;
                assert(tn[q] == t);
            }
        } else if tn.contains(t) {
            let q = choose|q: int| 0 <= q < tn.len() && tn[q] == t;
            if q < tp.len() {
                assert(tp[q] == t);
                let j = choose|j: int| 0 <= j < p.len() && p[j].0 == tag_key(t);
                assert(m[j].0 == tag_key(t));
            } else {
                lemma_tagged_key(k);
                assert(m[m.len() - 1].0 == tag_key(t));
            }
        }
    }
}

/// The keys present after storing the tags: those present before and the
/// tag keys.
pub proof fn lemma_with_tags_keys(m: Seq<(Seq<char>, ValueModel)>, tags: Seq<Seq<char>>, key: Seq<char>)
    ensures
        key_index(with_tags(m, tags), key) is Some <==> (key_index(m, key) is Some
            || exists|i: int| 0 <= i < tags.len() && tag_key(tags[i]) == key),
    decreases tags.len(),
{
    if tags.len() > 0 {
        let d = tags.drop_last();
        lemma_with_tags_keys(m, d, key);
        lemma_lookup_store(with_tags(m, d), tag_key(tags.last()), ValueModel::Bool(true), key);
        if exists|i: int| 0 <= i < d.len() && tag_key(d[i]) == key {
            let i = choose|i: int| 0 <= i < d.len() && tag_key(d[i]) == key;
            assert(tags[i] == d[i]);
        }
        if exists|i: int| 0 <= i < tags.len() && tag_key(tags[i]) == key {
            let i = choose|i: int| 0 <= i < tags.len() && tag_key(tags[i]) == key;
            if i < tags.len() - 1 {
                assert(d[i] == tags[i]);
            }
        }
    }
}

/// Storing tags changes no lookup of a key that does not start with `tag:`.
pub proof fn lemma_with_tags_lookup(m: Seq<(Seq<char>, ValueModel)>, tags: Seq<Seq<char>>, key: Seq<char>)
    requires
        !is_prefix("tag:"@, key),
    ensures
        lookup(with_tags(m, tags), key) == lookup(m, key),
    decreases tags.len(),
{
    if tags.len() > 0 {
        lemma_with_tags_lookup(m, tags.drop_last(), key);
        lemma_tag_key(tags.last());
        lemma_lookup_store(with_tags(m, tags.drop_last()), tag_key(tags.last()), ValueModel::Bool(true), key);
    }
}

/// Whether some entry has the key `key`.
pub proof fn lemma_key_present(m: Seq<(Seq<char>, ValueModel)>, key: Seq<char>)
    ensures
        key_index(m, key) is Some <==> exists|j: int| 0 <= j < m.len() && m[j].0 == key,
{
    lemma_key_index(m, key);
}

/// No key of the first five entries starts with `tag:`.
proof fn lemma_threat_head_untagged(e: ThreatEventModel, k: Seq<char>)
    requires
        is_prefix("tag:"@, k),
    ensures
        key_index(threat_head(e), k) is None,
{
    reveal_strlit("tag:");
    reveal_strlit("threat_id");
    reveal_strlit("threat_title");
    reveal_strlit("threat_description");
    reveal_strlit("threat_category");
    reveal_strlit("source_detector");
    let m1 = store(Seq::empty(), "threat_id"@, ValueModel::Text(uuid_text(e.id)));
    let m2 = store(m1, "threat_title"@, ValueModel::Text(e.title));
    let m3 = store(m2, "threat_description"@, ValueModel::Text(e.description));
    let m4 = store(m3, "threat_category"@, ValueModel::Text(e.category.name()));
    assert(k[1] == "tag:"@[1]);
    assert(k[0] == "tag:"@[0]);
    assert(k != "threat_id"@);
    assert(k != "threat_title"@);
    assert(k != "threat_description"@);
    assert(k != "threat_category"@);
    assert(k != "source_detector"@);
    lemma_lookup_store(m4, "source_detector"@, ValueModel::Text(e.source_detector), k);
    lemma_lookup_store(m3, "threat_category"@, ValueModel::Text(e.category.name()), k);
    lemma_lookup_store(m2, "threat_description"@, ValueModel::Text(e.description), k);
    lemma_lookup_store(m1, "threat_title"@, ValueModel::Text(e.title), k);
    lemma_lookup_store(Seq::empty(), "threat_id"@, ValueModel::Text(uuid_text(e.id)), k);
}

/// The tags of the record made of a threat event are the event's tags.
pub proof fn lemma_threat_data_tags(e: ThreatEventModel, t: Seq<char>)
    ensures
        tag_names(threat_data(e)).contains(t) <==> e.tags.contains(t),
{
    let data = threat_data(e);
    let k = tag_key(t);
    lemma_tag_key(t);
    lemma_tag_names(data, t);
    lemma_key_present(data, k);
    lemma_with_tags_keys(threat_head(e), e.tags, k);
    lemma_threat_head_untagged(e, k);
    if e.tags.contains(t) {
        let i = choose|i: int| 0 <= i < e.tags.len() && e.tags[i] == t;
        assert(tag_key(e.tags[i]) == k);
    }
    if exists|i: int| 0 <= i < e.tags.len() && tag_key(e.tags[i]) == k {
        let i = choose|i: int| 0 <= i < e.tags.len() && tag_key(e.tags[i]) == k;
        lemma_tag_key(e.tags[i]);
    }
}

/// The title, description and detector recorded from a threat event.
proof fn lemma_threat_data_texts(e: ThreatEventModel)
    ensures
        lookup(threat_data(e), "threat_title"@) == Some(ValueModel::Text(e.title)),
        lookup(threat_data(e), "threat_description"@) == Some(ValueModel::Text(e.description)),
        lookup(threat_data(e), "source_detector"@) == Some(ValueModel::Text(e.source_detector)),
{
    reveal_strlit("tag:");
    reveal_strlit("threat_title");
    reveal_strlit("threat_description");
    reveal_strlit("threat_category");
    reveal_strlit("source_detector");
    let m1 = store(Seq::empty(), "threat_id"@, ValueModel::Text(uuid_text(e.id)));
    let m2 = store(m1, "threat_title"@, ValueModel::Text(e.title));
    let m3 = store(m2, "threat_description"@, ValueModel::Text(e.description));
    let m4 = store(m3, "threat_category"@, ValueModel::Text(e.category.name()));
    let m5 = threat_head(e);
    assert("threat_category"@[0] != "source_detector"@[0]);
    assert(!is_prefix("tag:"@, "threat_title"@)) by {
        assert("threat_title"@.subrange(0, 4)[1] != "tag:"@[1]);
    }
    assert(!is_prefix("tag:"@, "threat_description"@)) by {
        assert("threat_description"@.subrange(0, 4)[1] != "tag:"@[1]);
    }
    assert(!is_prefix("tag:"@, "source_detector"@)) by {
        assert("source_detector"@.subrange(0, 4)[0] != "tag:"@[0]);
    }
    lemma_with_tags_lookup(m5, e.tags, "threat_title"@);
    lemma_with_tags_lookup(m5, e.tags, "threat_description"@);
    lemma_with_tags_lookup(m5, e.tags, "source_detector"@);
    lemma_lookup_store(m4, "source_detector"@, ValueModel::Text(e.source_detector), "threat_title"@);
    lemma_lookup_store(m3, "threat_category"@, ValueModel::Text(e.category.name()), "threat_title"@);
    lemma_lookup_store(m2, "threat_description"@, ValueModel::Text(e.description), "threat_title"@);
    lemma_lookup_store(m1, "threat_title"@, ValueModel::Text(e.title), "threat_title"@);
    lemma_lookup_store(m4, "source_detector"@, ValueModel::Text(e.source_detector), "threat_description"@);
    lemma_lookup_store(m3, "threat_category"@, ValueModel::Text(e.category.name()), "threat_description"@);
    lemma_lookup_store(m2, "threat_description"@, ValueModel::Text(e.description), "threat_description"@);
    lemma_lookup_store(m4, "source_detector"@, ValueModel::Text(e.source_detector), "source_detector"@);
}

/// Whether a threat category is the representative category of its part
/// of the system, so that it survives a trip through a record.
pub open spec fn representative_category(c: ThreatCategory) -> bool {
    match c {
        ThreatCategory::HookDetected | ThreatCategory::HiddenProcess | ThreatCategory::HiddenConnection
        | ThreatCategory::HiddenModule | ThreatCategory::MemoryTampering | ThreatCategory::IntegrityViolation
        | ThreatCategory::PersistenceMechanism | ThreatCategory::PrivilegeEscalation
        | ThreatCategory::Unknown => true,
        _ => false,
    }
}

/// A threat event turned into a record and back keeps its time, severity,
/// title, description, reporting detector and set of tags, takes the
/// record's id and carries one evidence item; its category stays within
/// the same part of the system, and is kept as it is when it is the
/// representative category of that part.
pub proof fn lemma_threat_record_roundtrip(e: ThreatEventModel, detector: Seq<char>, id: u128)
    ensures
        ({
            let r = record_threat(threat_record(e, detector, id));
            &&& r.id == id
            &&& r.evidence.len() == 1
            &&& representative_category(e.category) ==> r.category == e.category
            &&& r.timestamp == e.timestamp
            &&& r.severity == e.severity
            &&& category_evidence_type(r.category) == category_evidence_type(e.category)
            &&& r.title == e.title
            &&& r.description == e.description
            &&& r.source_detector == e.source_detector
            &&& forall|t: Seq<char>| #[trigger] r.tags.contains(t) <==> e.tags.contains(t)
        }),
{
    lemma_threat_data_texts(e);
    assert forall|t: Seq<char>| #[trigger] tag_names(threat_data(e)).contains(t) <==> e.tags.contains(t) by {
        lemma_threat_data_tags(e, t);
    }
}

/// Whether no key of the entries starts with `tag:`.
pub open spec fn no_tag_keys(m: Seq<(Seq<char>, ValueModel)>) -> bool {
    forall|j: int| 0 <= j < m.len() ==> !is_prefix("tag:"@, #[trigger] m[j].0)
}

/// Replacing a tagged entry by another leaves the untagged entries alone.
proof fn lemma_untagged_update(m: Seq<(Seq<char>, ValueModel)>, i: int, x: (Seq<char>, ValueModel))
    requires
        0 <= i < m.len(),
        is_prefix("tag:"@, m[i].0),
        x.0 == m[i].0,
    ensures
        untagged(m.update(i, x)) == untagged(m),
    decreases m.len(),
{
    let u = m.update(i, x);
    if i == m.len() - 1 {
        assert(u.drop_last() =~= m.drop_last());
    } else {
        assert(u.drop_last() =~= m.drop_last().update(i, x));
        lemma_untagged_update(m.drop_last(), i, x);
    }
}

/// Storing tags leaves the untagged entries alone.
pub proof fn lemma_untagged_with_tags(m: Seq<(Seq<char>, ValueModel)>, tags: Seq<Seq<char>>)
    ensures
        untagged(with_tags(m, tags)) == untagged(m),
    decreases tags.len(),
{
    if tags.len() > 0 {
        let p = with_tags(m, tags.drop_last());
        let k = tag_key(tags.last());
        lemma_untagged_with_tags(m, tags.drop_last());
        lemma_tag_key(tags.last());
        lemma_key_index(p, k);
        match key_index(p, k) {
            Some(i) => {
                lemma_untagged_update(p, i, (k, ValueModel::Bool(true)));
            },
            None => {
                assert(p.push((k, ValueModel::Bool(true))).drop_last() =~= p);
            },
        }
    }
}

/// Entries with no tag key are all kept by `untagged`.
pub proof fn lemma_untagged_plain(m: Seq<(Seq<char>, ValueModel)>)
    requires
        no_tag_keys(m),
    ensures
        untagged(m) == m,
    decreases m.len(),
{
    if m.len() > 0 {
        assert(no_tag_keys(m.drop_last())) by {
            assert forall|j: int| 0 <= j < m.drop_last().len() implies !is_prefix("tag:"@, #[trigger] m.drop_last()[j].0) by {
                assert(m.drop_last()[j] == m[j]);
            }
        }
        lemma_untagged_plain(m.drop_last());
        assert(!is_prefix("tag:"@, m[m.len() - 1].0));
        assert(m.drop_last().push(m.last()) =~= m);
    }
}

/// No key kept by `untagged` starts with `tag:`.
pub proof fn lemma_untagged_no_tag_keys(m: Seq<(Seq<char>, ValueModel)>)
    ensures
        no_tag_keys(untagged(m)),
    decreases m.len(),
{
    if m.len() > 0 {
        lemma_untagged_no_tag_keys(m.drop_last());
        let u = untagged(m.drop_last());
        if !is_prefix("tag:"@, m.last().0) {
            assert forall|j: int| 0 <= j < u.push(m.last()).len() implies !is_prefix("tag:"@, #[trigger] u.push(m.last())[j].0) by {
                if j < u.len() {
                    assert(u.push(m.last())[j] == u[j]);
                }
            }
        }
    }
}

/// An evidence item turned into a record and back keeps its id, time,
/// type, severity, source, confidence and related items, and no key of
/// its data starts with `tag:`; when none of its data keys started with
/// `tag:`, it also keeps its data and its set of tags.
pub proof fn lemma_legacy_record_roundtrip(e: EvidenceModel)
    ensures
        ({
            let r = record_legacy(legacy_record(e));
            &&& no_tag_keys(r.data)
            &&& r.id == e.id
            &&& r.timestamp == e.timestamp
            &&& r.evidence_type == e.evidence_type
            &&& r.severity == e.severity
            &&& r.source == e.source
            &&& r.confidence == e.confidence
            &&& r.related_evidence == e.related_evidence
            &&& no_tag_keys(e.data) ==> r.data == e.data
            &&& no_tag_keys(e.data) ==> forall|t: Seq<char>| #[trigger] r.tags.contains(t) <==> e.tags.contains(t)
        }),
{
    lemma_untagged_with_tags(e.data, e.tags);
    lemma_untagged_no_tag_keys(with_tags(e.data, e.tags));
    if no_tag_keys(e.data) {
        lemma_untagged_plain(e.data);
        assert forall|t: Seq<char>| #[trigger] tag_names(with_tags(e.data, e.tags)).contains(t) <==> e.tags.contains(t) by {
            let k = tag_key(t);
            let data = with_tags(e.data, e.tags);
            lemma_tag_key(t);
            lemma_tag_names(data, t);
            lemma_key_present(data, k);
            lemma_key_present(e.data, k);
            lemma_with_tags_keys(e.data, e.tags, k);
            if exists|j: int| 0 <= j < e.data.len() && e.data[j].0 == k {
                let j = choose|j: int| 0 <= j < e.data.len() && e.data[j].0 == k;
                assert(!is_prefix("tag:"@, e.data[j].0));
            }
            if e.tags.contains(t) {
                let i = choose|i: int| 0 <= i < e.tags.len() && e.tags[i] == t;
                assert(tag_key(e.tags[i]) == k);
            }
            if exists|i: int| 0 <= i < e.tags.len() && tag_key(e.tags[i]) == k {
                let i = choose|i: int| 0 <= i < e.tags.len() && tag_key(e.tags[i]) == k;
                lemma_tag_key(e.tags[i]);
            }
        }
    }
}

} // verus!
