use vstd::prelude::*;
use crate::assessment::{clamp_confidence, clamped_confidence};
use crate::clock::{new_id, now_micros};
use crate::clock::{uuid_string, uuid_text};
use crate::grouping::{counts, counts_view, key_counts};
use crate::text::{owned, push_str, str_eq};
use crate::evidence::contains_string;
use crate::threat::{duplicate_strings, strings_view};
use crate::value::{Value, ValueModel};

verus! {

/// Where an incident stands in its handling.
#[derive(Debug, Clone, Copy, PartialEq, Eq, Hash, Structural)]
pub enum IncidentStatus {
    Open,
    Investigating,
    Contained,
    Resolved,
    Closed,
}

impl IncidentStatus {
    /// The lower-case name of the status.
    pub open spec fn name(self) -> Seq<char> {
        match self {
            IncidentStatus::Open => "open"@,
            IncidentStatus::Investigating => "investigating"@,
            IncidentStatus::Contained => "contained"@,
            IncidentStatus::Resolved => "resolved"@,
            IncidentStatus::Closed => "closed"@,
        }
    }

    /// The status whose name is `s`, if any.
    pub open spec fn named(s: Seq<char>) -> Option<IncidentStatus> {
        if s == "open"@ {
            Some(IncidentStatus::Open)
        } else if s == "investigating"@ {
            Some(IncidentStatus::Investigating)
        } else if s == "contained"@ {
            Some(IncidentStatus::Contained)
        } else if s == "resolved"@ {
            Some(IncidentStatus::Resolved)
        } else if s == "closed"@ {
            Some(IncidentStatus::Closed)
        } else {
            None
        }
    }

    pub fn as_str(&self) -> (s: &'static str)
        ensures
            s@ == self.name(),
    {
        match self {
            IncidentStatus::Open => "open",
            IncidentStatus::Investigating => "investigating",
            IncidentStatus::Contained => "contained",
            IncidentStatus::Resolved => "resolved",
            IncidentStatus::Closed => "closed",
        }
    }

    /// The status named `s`; `None` for any other text.
    pub fn parse_from(s: &str) -> (r: Option<IncidentStatus>)
        ensures
            r == IncidentStatus::named(s@),
    {
        if str_eq(s, "open") {
            Some(IncidentStatus::Open)
        } else if str_eq(s, "investigating") {
            Some(IncidentStatus::Investigating)
        } else if str_eq(s, "contained") {
            Some(IncidentStatus::Contained)
        } else if str_eq(s, "resolved") {
            Some(IncidentStatus::Resolved)
        } else if str_eq(s, "closed") {
            Some(IncidentStatus::Closed)
        } else {
            None
        }
    }
}

/// How serious an incident is, ranked from `Info` to `Critical`.
#[derive(Debug, Clone, Copy, PartialEq, Eq, Hash, Structural)]
pub enum IncidentSeverity {
    Info,
    Low,
    Medium,
    High,
    Critical,
}

impl IncidentSeverity {
    /// The position of the severity in the order `Info < Low < ... < Critical`.
    pub open spec fn level(self) -> u8 {
        match self {
            IncidentSeverity::Info => 0,
            IncidentSeverity::Low => 1,
            IncidentSeverity::Medium => 2,
            IncidentSeverity::High => 3,
            IncidentSeverity::Critical => 4,
        }
    }

    /// The lower-case name of the severity.
    pub open spec fn name(self) -> Seq<char> {
        match self {
            IncidentSeverity::Info => "info"@,
            IncidentSeverity::Low => "low"@,
            IncidentSeverity::Medium => "medium"@,
            IncidentSeverity::High => "high"@,
            IncidentSeverity::Critical => "critical"@,
        }
    }

    /// The severity whose name is `s`, if any.
    pub open spec fn named(s: Seq<char>) -> Option<IncidentSeverity> {
        if s == "info"@ {
            Some(IncidentSeverity::Info)
        } else if s == "low"@ {
            Some(IncidentSeverity::Low)
        } else if s == "medium"@ {
            Some(IncidentSeverity::Medium)
        } else if s == "high"@ {
            Some(IncidentSeverity::High)
        } else if s == "critical"@ {
            Some(IncidentSeverity::Critical)
        } else {
            None
        }
    }

    pub fn as_str(&self) -> (s: &'static str)
        ensures
            s@ == self.name(),
    {
        match self {
            IncidentSeverity::Info => "info",
            IncidentSeverity::Low => "low",
            IncidentSeverity::Medium => "medium",
            IncidentSeverity::High => "high",
            IncidentSeverity::Critical => "critical",
        }
    }

    /// The severity named `s`; `None` for any other text.
    pub fn parse_from(s: &str) -> (r: Option<IncidentSeverity>)
        ensures
            r == IncidentSeverity::named(s@),
    {
        if str_eq(s, "info") {
            Some(IncidentSeverity::Info)
        } else if str_eq(s, "low") {
            Some(IncidentSeverity::Low)
        } else if str_eq(s, "medium") {
            Some(IncidentSeverity::Medium)
        } else if str_eq(s, "high") {
            Some(IncidentSeverity::High)
        } else if str_eq(s, "critical") {
            Some(IncidentSeverity::Critical)
        } else {
            None
        }
    }

    /// The position of the severity in the order `Info < Low < ... < Critical`.
    pub fn rank(&self) -> (r: u8)
        ensures
            r == self.level(),
    {
        match self {
            IncidentSeverity::Info => 0,
            IncidentSeverity::Low => 1,
            IncidentSeverity::Medium => 2,
            IncidentSeverity::High => 3,
            IncidentSeverity::Critical => 4,
        }
    }
}

/// A MITRE ATT&CK technique that an incident matches.
#[derive(Debug)]
pub struct MitreMapping {
    pub technique_id: String,
    pub technique_name: String,
    pub tactic: String,
}

impl MitreMapping {
    pub fn duplicate(&self) -> (r: MitreMapping)
        ensures
            r == *self,
    {
        MitreMapping {
            technique_id: self.technique_id.clone(),
            technique_name: self.technique_name.clone(),
            tactic: self.tactic.clone(),
        }
    }
}

/// One step of the attack an incident reconstructs.  `timestamp` is in
/// microseconds since the Unix epoch.
#[derive(Debug)]
pub struct AttackChainStep {
    pub order: usize,
    pub evidence_id: String,
    pub object_id: String,
    pub description: String,
    pub timestamp: i64,
}

impl AttackChainStep {
    pub fn duplicate(&self) -> (r: AttackChainStep)
        ensures
            r == *self,
    {
        AttackChainStep {
            order: self.order,
            evidence_id: self.evidence_id.clone(),
            object_id: self.object_id.clone(),
            description: self.description.clone(),
            timestamp: self.timestamp,
        }
    }
}

/// A security incident.  `confidence` is in millionths; times are in
/// microseconds since the Unix epoch; `id` is a 128-bit UUID value.
pub struct Incident {
    pub id: u128,
    pub title: String,
    pub description: String,
    pub status: IncidentStatus,
    pub severity: IncidentSeverity,
    pub confidence: u32,
    pub created_at: i64,
    pub updated_at: i64,
    pub evidence_ids: Vec<String>,
    pub object_ids: Vec<String>,
    pub assessment_ids: Vec<String>,
    pub related_processes: Vec<String>,
    pub related_files: Vec<String>,
    pub related_modules: Vec<String>,
    pub attack_chain: Vec<AttackChainStep>,
    pub mitre_mappings: Vec<MitreMapping>,
    pub recommended_response: Option<String>,
    pub tags: Vec<String>,
    pub metadata: Value,
}

/// The mathematical content of an [`Incident`].
pub struct IncidentModel {
    pub id: u128,
    pub title: Seq<char>,
    pub description: Seq<char>,
    pub status: IncidentStatus,
    pub severity: IncidentSeverity,
    pub confidence: u32,
    pub created_at: i64,
    pub updated_at: i64,
    pub evidence_ids: Seq<Seq<char>>,
    pub object_ids: Seq<Seq<char>>,
    pub assessment_ids: Seq<Seq<char>>,
    pub related_processes: Seq<Seq<char>>,
    pub related_files: Seq<Seq<char>>,
    pub related_modules: Seq<Seq<char>>,
    pub attack_chain: Seq<AttackChainStep>,
    pub mitre_mappings: Seq<MitreMapping>,
    pub recommended_response: Option<Seq<char>>,
    pub tags: Seq<Seq<char>>,
    pub metadata: ValueModel,
}

impl View for Incident {
    type V = IncidentModel;

    open spec fn view(&self) -> IncidentModel {
        IncidentModel {
            id: self.id,
            title: self.title@,
            description: self.description@,
            status: self.status,
            severity: self.severity,
            confidence: self.confidence,
            created_at: self.created_at,
            updated_at: self.updated_at,
            evidence_ids: strings_view(self.evidence_ids@),
            object_ids: strings_view(self.object_ids@),
            assessment_ids: strings_view(self.assessment_ids@),
            related_processes: strings_view(self.related_processes@),
            related_files: strings_view(self.related_files@),
            related_modules: strings_view(self.related_modules@),
            attack_chain: self.attack_chain@,
            mitre_mappings: self.mitre_mappings@,
            recommended_response: match self.recommended_response {
                Some(r) => Some(r@),
                None => None,
            },
            tags: strings_view(self.tags@),
            metadata: self.metadata@,
        }
    }
}

/// The severity after escalating `current` to `requested`: the higher of
/// the two.
pub open spec fn escalated(current: IncidentSeverity, requested: IncidentSeverity) -> IncidentSeverity {
    if requested.level() > current.level() {
        requested
    } else {
        current
    }
}

/// Appends `s` to a list of strings, keeping its view in step.
fn push_string(v: &mut Vec<String>, s: String)
    ensures
        strings_view(final(v)@) == strings_view(old(v)@).push(s@),
{
    let ghost before = v@;
    v.push(s);
    assert(strings_view(v@) =~= strings_view(before).push(s@));
}

fn duplicate_steps(v: &Vec<AttackChainStep>) -> (r: Vec<AttackChainStep>)
    ensures
        r@ == v@,
{
    let mut r: Vec<AttackChainStep> = Vec::new();
    let mut i: usize = 0;
    while i < v.len()
        invariant
            i <= v.len(),
            r@ == v@.take(i as int),
        decreases v.len() - i,
    {
        r.push(v[i].duplicate());
        assert(v@.take(i as int).push(v@[i as int]) =~= v@.take(i + 1));
        i += 1;
    }
    assert(v@.take(v.len() as int) =~= v@);
    r
}

fn duplicate_mappings(v: &Vec<MitreMapping>) -> (r: Vec<MitreMapping>)
    ensures
        r@ == v@,
{
    let mut r: Vec<MitreMapping> = Vec::new();
    let mut i: usize = 0;
    while i < v.len()
        invariant
            i <= v.len(),
            r@ == v@.take(i as int),
        decreases v.len() - i,
    {
        r.push(v[i].duplicate());
        assert(v@.take(i as int).push(v@[i as int]) =~= v@.take(i + 1));
        i += 1;
    }
    assert(v@.take(v.len() as int) =~= v@);
    r
}

impl Incident {
    /// A new open incident with a random id, created and updated now, its
    /// confidence (in millionths) clamped to `0 ..= CONFIDENCE_ONE`, and
    /// nothing attached to it.
    pub fn new(title: &str, description: &str, severity: IncidentSeverity, confidence: i64) -> (r: Incident)
        ensures
            r@.title == title@,
            r@.description == description@,
            r.status == IncidentStatus::Open,
            r.severity == severity,
            r.confidence == clamp_confidence(confidence as int),
            r.created_at == r.updated_at,
            r@.evidence_ids.len() == 0,
            r@.object_ids.len() == 0,
            r@.assessment_ids.len() == 0,
            r@.related_processes.len() == 0,
            r@.related_files.len() == 0,
            r@.related_modules.len() == 0,
            r@.attack_chain.len() == 0,
            r@.mitre_mappings.len() == 0,
            r.recommended_response is None,
            r@.tags.len() == 0,
            r.metadata == Value::Null,
    {
        let now = now_micros();
        Incident {
            id: new_id(),
            title: owned(title),
            description: owned(description),
            status: IncidentStatus::Open,
            severity,
            confidence: clamped_confidence(confidence),
            created_at: now,
            updated_at: now,
            evidence_ids: Vec::new(),
            object_ids: Vec::new(),
            assessment_ids: Vec::new(),
            related_processes: Vec::new(),
            related_files: Vec::new(),
            related_modules: Vec::new(),
            attack_chain: Vec::new(),
            mitre_mappings: Vec::new(),
            recommended_response: None,
            tags: Vec::new(),
            metadata: Value::Null,
        }
    }

    /// A copy of the incident.
    pub fn duplicate(&self) -> (r: Incident)
        ensures
            r@ == self@,
    {
        Incident {
            id: self.id,
            title: self.title.clone(),
            description: self.description.clone(),
            status: self.status,
            severity: self.severity,
            confidence: self.confidence,
            created_at: self.created_at,
            updated_at: self.updated_at,
            evidence_ids: duplicate_strings(&self.evidence_ids),
            object_ids: duplicate_strings(&self.object_ids),
            assessment_ids: duplicate_strings(&self.assessment_ids),
            related_processes: duplicate_strings(&self.related_processes),
            related_files: duplicate_strings(&self.related_files),
            related_modules: duplicate_strings(&self.related_modules),
            attack_chain: duplicate_steps(&self.attack_chain),
            mitre_mappings: duplicate_mappings(&self.mitre_mappings),
            recommended_response: match &self.recommended_response {
                Some(r) => Some(r.clone()),
                None => None,
            },
            tags: duplicate_strings(&self.tags),
            metadata: self.metadata.duplicate(),
        }
    }

    /// Sets the status and stamps the incident as updated now.
    pub fn with_status(self, status: IncidentStatus) -> (r: Incident)
        ensures
            r@ == (IncidentModel { status, updated_at: r.updated_at, ..self@ }),
    {
        let mut i = self;
        i.status = status;
        i.updated_at = now_micros();
        i
    }

    pub fn with_evidence(self, evidence_id: &str) -> (r: Incident)
        ensures
            r@ == (IncidentModel { evidence_ids: self@.evidence_ids.push(evidence_id@), ..self@ }),
    {
        let mut i = self;
        push_string(&mut i.evidence_ids, owned(evidence_id));
        i
    }

    pub fn with_object(self, object_id: &str) -> (r: Incident)
        ensures
            r@ == (IncidentModel { object_ids: self@.object_ids.push(object_id@), ..self@ }),
    {
        let mut i = self;
        push_string(&mut i.object_ids, owned(object_id));
        i
    }

    pub fn with_assessment(self, assessment_id: &str) -> (r: Incident)
        ensures
            r@ == (IncidentModel { assessment_ids: self@.assessment_ids.push(assessment_id@), ..self@ }),
    {
        let mut i = self;
        push_string(&mut i.assessment_ids, owned(assessment_id));
        i
    }

    pub fn with_process(self, process_id: &str) -> (r: Incident)
        ensures
            r@ == (IncidentModel { related_processes: self@.related_processes.push(process_id@), ..self@ }),
    {
        let mut i = self;
        push_string(&mut i.related_processes, owned(process_id));
        i
    }

    pub fn with_file(self, file_path: &str) -> (r: Incident)
        ensures
            r@ == (IncidentModel { related_files: self@.related_files.push(file_path@), ..self@ }),
    {
        let mut i = self;
        push_string(&mut i.related_files, owned(file_path));
        i
    }

    pub fn with_module(self, module_name: &str) -> (r: Incident)
        ensures
            r@ == (IncidentModel { related_modules: self@.related_modules.push(module_name@), ..self@ }),
    {
        let mut i = self;
        push_string(&mut i.related_modules, owned(module_name));
        i
    }

    /// Appends a step, stamped with the current time, to the attack chain.
    pub fn with_attack_step(self, order: usize, evidence_id: &str, object_id: &str, description: &str) -> (r: Incident)
        ensures
            r@.attack_chain.len() == self@.attack_chain.len() + 1,
            r@ == (IncidentModel { attack_chain: r@.attack_chain, ..self@ }),
            r@.attack_chain.drop_last() == self@.attack_chain,
            r@.attack_chain.last().order == order,
            r@.attack_chain.last().evidence_id@ == evidence_id@,
            r@.attack_chain.last().object_id@ == object_id@,
            r@.attack_chain.last().description@ == description@,
    {
        let mut i = self;
        let ghost before = i.attack_chain@;
        i.attack_chain.push(AttackChainStep {
            order,
            evidence_id: owned(evidence_id),
            object_id: owned(object_id),
            description: owned(description),
            timestamp: now_micros(),
        });
        assert(i.attack_chain@.drop_last() =~= before);
        i
    }

    pub fn with_mitre(self, technique_id: &str, technique_name: &str, tactic: &str) -> (r: Incident)
        ensures
            r@.mitre_mappings.len() == self@.mitre_mappings.len() + 1,
            r@ == (IncidentModel { mitre_mappings: r@.mitre_mappings, ..self@ }),
            r@.mitre_mappings.drop_last() == self@.mitre_mappings,
            r@.mitre_mappings.last().technique_id@ == technique_id@,
            r@.mitre_mappings.last().technique_name@ == technique_name@,
            r@.mitre_mappings.last().tactic@ == tactic@,
    {
        let mut i = self;
        let ghost before = i.mitre_mappings@;
        i.mitre_mappings.push(MitreMapping {
            technique_id: owned(technique_id),
            technique_name: owned(technique_name),
            tactic: owned(tactic),
        });
        assert(i.mitre_mappings@.drop_last() =~= before);
        i
    }

    pub fn with_recommended_response(self, response: &str) -> (r: Incident)
        ensures
            r@ == (IncidentModel { recommended_response: Some(response@), ..self@ }),
    {
        let mut i = self;
        i.recommended_response = Some(owned(response));
        i
    }

    pub fn with_tag(self, tag: &str) -> (r: Incident)
        ensures
            r@ == (IncidentModel { tags: self@.tags.push(tag@), ..self@ }),
    {
        let mut i = self;
        push_string(&mut i.tags, owned(tag));
        i
    }

    pub fn with_metadata(self, metadata: Value) -> (r: Incident)
        ensures
            r@ == (IncidentModel { metadata: metadata@, ..self@ }),
    {
        let mut i = self;
        i.metadata = metadata;
        i
    }

    /// Raises the severity to `new_severity` when that is higher, stamping
    /// the incident as updated now; a lower or equal severity changes
    /// nothing.
    pub fn escalate_severity(&mut self, new_severity: IncidentSeverity)
        ensures
            new_severity.level() > old(self).severity.level() ==> final(self)@ == (IncidentModel {
                severity: new_severity,
                updated_at: final(self).updated_at,
                ..old(self)@
            }),
            new_severity.level() <= old(self).severity.level() ==> final(self)@ == old(self)@,
            final(self).severity == escalated(old(self).severity, new_severity),
    {
        if new_severity.rank() > self.severity.rank() {
            self.severity = new_severity;
            self.updated_at = now_micros();
        }
    }

    /// Sets the status and stamps the incident as updated now.
    pub fn update_status(&mut self, new_status: IncidentStatus)
        ensures
            final(self)@ == (IncidentModel { status: new_status, updated_at: final(self).updated_at, ..old(self)@ }),
    {
        self.status = new_status;
        self.updated_at = now_micros();
    }
}

/// The position of the entry with key `key`, searching from the end.
pub open spec fn slot(s: Seq<(u128, IncidentModel)>, key: u128) -> Option<int>
    decreases s.len(),
{
    if s.len() == 0 {
        None
    } else if s.last().0 == key {
        Some(s.len() - 1)
    } else {
        slot(s.drop_last(), key)
    }
}

/// No two entries share a key.
pub open spec fn ids_unique(s: Seq<(u128, IncidentModel)>) -> bool {
    forall|i: int, j: int| 0 <= i < s.len() && 0 <= j < s.len() && i != j ==> s[i].0 != s[j].0
}

/// The entries after the incident `v` is stored under `key`: an entry with
/// that key is replaced in place, otherwise a new entry goes at the end.
pub open spec fn put(s: Seq<(u128, IncidentModel)>, key: u128, v: IncidentModel) -> Seq<(u128, IncidentModel)> {
    match slot(s, key) {
        Some(i) => s.update(i, (key, v)),
        None => s.push((key, v)),
    }
}

/// The incident stored under `key`, if any.
pub open spec fn incident_at(s: Seq<(u128, IncidentModel)>, key: u128) -> Option<IncidentModel> {
    match slot(s, key) {
        Some(i) => Some(s[i].1),
        None => None,
    }
}

/// The incidents of the entries, in entry order.
pub open spec fn values(s: Seq<(u128, IncidentModel)>) -> Seq<IncidentModel> {
    Seq::new(s.len(), |i: int| s[i].1)
}

/// The views of a sequence of incidents.
pub open spec fn incidents_view(v: Seq<Incident>) -> Seq<IncidentModel> {
    Seq::new(v.len(), |i: int| v[i]@)
}

/// The views of stored entries.
pub open spec fn entries_view(v: Seq<(u128, Incident)>) -> Seq<(u128, IncidentModel)> {
    Seq::new(v.len(), |i: int| (v[i].0, v[i].1@))
}

pub proof fn lemma_slot(s: Seq<(u128, IncidentModel)>, key: u128)
    ensures
        slot(s, key) matches Some(i) ==> 0 <= i < s.len() && s[i].0 == key,
        slot(s, key) is None <==> forall|j: int| 0 <= j < s.len() ==> s[j].0 != key,
        slot(s, key) is Some && ids_unique(s) ==> forall|j: int| 0 <= j < s.len() && s[j].0 == key ==> j == slot(s, key)->0,
    decreases s.len(),
{
    if s.len() > 0 {
        lemma_slot(s.drop_last(), key);
        assert forall|j: int| 0 <= j < s.len() - 1 implies s[j] == s.drop_last()[j] by {}
        if slot(s, key) is None {
            assert forall|j: int| 0 <= j < s.len() implies s[j].0 != key by {
                if j < s.len() - 1 {
                    assert(s[j] == s.drop_last()[j]);
                }
            }
        }
    }
}

/// The error text for an incident that is not stored.
pub open spec fn not_found(prefix: Seq<char>, id: u128) -> Seq<char> {
    prefix + uuid_text(id) + " not found"@
}

/// Whether a closed or resolved incident was last updated before `cutoff`.
pub open spec fn prunable(m: IncidentModel, cutoff: i64) -> bool {
    (m.status == IncidentStatus::Closed || m.status == IncidentStatus::Resolved) && m.updated_at < cutoff
}

/// The entries that pruning at `cutoff` keeps, in order.
pub open spec fn kept(s: Seq<(u128, IncidentModel)>, cutoff: i64) -> Seq<(u128, IncidentModel)>
    decreases s.len(),
{
    if s.len() == 0 {
        s
    } else if prunable(s.last().1, cutoff) {
        kept(s.drop_last(), cutoff)
    } else {
        kept(s.drop_last(), cutoff).push(s.last())
    }
}

/// `a` followed by each string of `b` that is not already there, in order.
pub open spec fn union_keep(a: Seq<Seq<char>>, b: Seq<Seq<char>>) -> Seq<Seq<char>>
    decreases b.len(),
{
    if b.len() == 0 {
        a
    } else if union_keep(a, b.drop_last()).contains(b.last()) {
        union_keep(a, b.drop_last())
    } else {
        union_keep(a, b.drop_last()).push(b.last())
    }
}

/// Incident `p` after incident `s` is merged into it, stamped `updated_at`:
/// the higher severity, the evidence and objects of both without repeats,
/// and both attack chains and technique lists, `p`'s first.
pub open spec fn merged(p: IncidentModel, s: IncidentModel, updated_at: i64) -> IncidentModel {
    IncidentModel {
        severity: escalated(p.severity, s.severity),
        evidence_ids: union_keep(p.evidence_ids, s.evidence_ids),
        object_ids: union_keep(p.object_ids, s.object_ids),
        attack_chain: p.attack_chain + s.attack_chain,
        mitre_mappings: p.mitre_mappings + s.mitre_mappings,
        updated_at,
        ..p
    }
}

/// Which incidents a listing selects.
pub enum Selector {
    Any,
    Status(IncidentStatus),
    AtLeast(IncidentSeverity),
    Active,
}

/// Whether a listing selects an incident.
pub open spec fn selects(sel: Selector, m: IncidentModel) -> bool {
    match sel {
        Selector::Any => true,
        Selector::Status(s) => m.status == s,
        Selector::AtLeast(min) => m.severity.level() >= min.level(),
        Selector::Active => m.status != IncidentStatus::Closed && m.status != IncidentStatus::Resolved,
    }
}

/// The selected incidents, in entry order.
pub open spec fn selected(s: Seq<IncidentModel>, sel: Selector) -> Seq<IncidentModel>
    decreases s.len(),
{
    if s.len() == 0 {
        s
    } else if selects(sel, s.last()) {
        selected(s.drop_last(), sel).push(s.last())
    } else {
        selected(s.drop_last(), sel)
    }
}

proof fn lemma_kept_entries(s: Seq<(u128, IncidentModel)>, cutoff: i64)
    ensures
        forall|j: int| 0 <= j < kept(s, cutoff).len() ==> s.contains(#[trigger] kept(s, cutoff)[j]),
        kept(s, cutoff).len() <= s.len(),
    decreases s.len(),
{
    if s.len() > 0 {
        let p = s.drop_last();
        lemma_kept_entries(p, cutoff);
        assert forall|j: int| 0 <= j < kept(s, cutoff).len() implies s.contains(#[trigger] kept(s, cutoff)[j]) by {
            if j < kept(p, cutoff).len() {
                assert(kept(s, cutoff)[j] == kept(p, cutoff)[j]);
                let t = choose|t: int| 0 <= t < p.len() && p[t] == kept(p, cutoff)[j];
                assert(s[t] == p[t]);
            } else {
                assert(kept(s, cutoff)[j] == s[s.len() - 1]);
            }
        }
    }
}

/// Appends each string of `b` that `a` does not hold yet.
fn append_missing(a: &mut Vec<String>, b: &Vec<String>)
    ensures
        strings_view(final(a)@) == union_keep(strings_view(old(a)@), strings_view(b@)),
{
    let ghost start = strings_view(a@);
    let ghost bv = strings_view(b@);
    let mut k: usize = 0;
    while k < b.len()
        invariant
            k <= b@.len(),
            bv == strings_view(b@),
            strings_view(a@) == union_keep(start, bv.take(k as int)),
        decreases b.len() - k,
    {
        assert(bv.take(k + 1).drop_last() =~= bv.take(k as int));
        assert(bv.take(k + 1).last() == b@[k as int]@);
        if !contains_string(a, b[k].as_str()) {
            push_string(a, b[k].clone());
        }
        k += 1;
    }
    assert(bv.take(b.len() as int) =~= bv);
}

/// Merges `secondary` into `primary`, stamping it as updated now.
fn merge_into(primary: &mut Incident, secondary: &Incident)
    ensures
        final(primary)@ == merged(old(primary)@, secondary@, final(primary).updated_at),
{
    let ghost p0 = primary@;
    primary.escalate_severity(secondary.severity);
    append_missing(&mut primary.evidence_ids, &secondary.evidence_ids);
    append_missing(&mut primary.object_ids, &secondary.object_ids);
    let ghost pac = primary.attack_chain@;
    let ghost p1 = primary@;
    let mut k: usize = 0;
    while k < secondary.attack_chain.len()
        invariant
            k <= secondary.attack_chain@.len(),
            primary@ == (IncidentModel { attack_chain: primary@.attack_chain, ..p1 }),
            primary.attack_chain@ == pac + secondary.attack_chain@.take(k as int),
        decreases secondary.attack_chain.len() - k,
    {
        primary.attack_chain.push(secondary.attack_chain[k].duplicate());
        assert(pac + secondary.attack_chain@.take(k + 1) =~= (pac + secondary.attack_chain@.take(k as int)).push(secondary.attack_chain@[k as int]));
        k += 1;
    }
    assert(secondary.attack_chain@.take(secondary.attack_chain.len() as int) =~= secondary.attack_chain@);
    let ghost pmm = primary.mitre_mappings@;
    let ghost p2 = primary@;
    let mut k: usize = 0;
    while k < secondary.mitre_mappings.len()
        invariant
            k <= secondary.mitre_mappings@.len(),
            primary@ == (IncidentModel { mitre_mappings: primary@.mitre_mappings, ..p2 }),
            primary.mitre_mappings@ == pmm + secondary.mitre_mappings@.take(k as int),
        decreases secondary.mitre_mappings.len() - k,
    {
        primary.mitre_mappings.push(secondary.mitre_mappings[k].duplicate());
        assert(pmm + secondary.mitre_mappings@.take(k + 1) =~= (pmm + secondary.mitre_mappings@.take(k as int)).push(secondary.mitre_mappings@[k as int]));
        k += 1;
    }
    assert(secondary.mitre_mappings@.take(secondary.mitre_mappings.len() as int) =~= secondary.mitre_mappings@);
    primary.updated_at = now_micros();
    assert(primary@.evidence_ids == union_keep(p0.evidence_ids, secondary@.evidence_ids));
    assert(primary@.attack_chain == p0.attack_chain + secondary@.attack_chain);
}

/// Keeps incidents in memory, each under a 128-bit key (normally its id).
pub struct IncidentEngine {
    incidents: Vec<(u128, Incident)>,
    max_incidents: usize,
}

impl IncidentEngine {
    #[verifier::type_invariant]
    closed spec fn inv(self) -> bool {
        ids_unique(entries_view(self.incidents@))
    }

    /// The stored entries, in the order in which their keys first came.
    pub closed spec fn entries(&self) -> Seq<(u128, IncidentModel)> {
        entries_view(self.incidents@)
    }

    /// The limit the store was made with.
    pub closed spec fn limit(&self) -> usize {
        self.max_incidents
    }

    /// An empty store with a limit of ten thousand incidents.
    pub fn new() -> (e: IncidentEngine)
        ensures
            e.entries().len() == 0,
            e.limit() == 10_000,
    {
        let e = IncidentEngine { incidents: Vec::new(), max_incidents: 10_000 };
        assert(e.entries() =~= Seq::<(u128, IncidentModel)>::empty());
        e
    }

    /// An empty store with the given limit.  The limit is advisory: a full
    /// store still takes new incidents.
    pub fn with_max_incidents(max: usize) -> (e: IncidentEngine)
        ensures
            e.entries().len() == 0,
            e.limit() == max,
    {
        let e = IncidentEngine { incidents: Vec::new(), max_incidents: max };
        assert(e.entries() =~= Seq::<(u128, IncidentModel)>::empty());
        e
    }

    fn find(&self, id: u128) -> (r: Option<usize>)
        ensures
            r matches Some(i) ==> slot(self.entries(), id) == Some(i as int) && i < self.entries().len(),
            r is None ==> slot(self.entries(), id) is None,
    {
        proof {
            use_type_invariant(self);
            lemma_slot(self.entries(), id);
        }
        let mut i: usize = 0;
        while i < self.incidents.len()
            invariant
                i <= self.incidents.len(),
                ids_unique(self.entries()),
                self.entries().len() == self.incidents@.len(),
                forall|j: int| 0 <= j < i ==> self.entries()[j].0 != id,
            decreases self.incidents.len() - i,
        {
            if self.incidents[i].0 == id {
                proof {
                    lemma_slot(self.entries(), id);
                    assert(self.entries()[i as int].0 == id);
                }
                return Some(i);
            }
            i += 1;
        }
        proof {
            lemma_slot(self.entries(), id);
        }
        None
    }

    /// Stores an incident under its id, replacing one stored under the same
    /// id, and returns the id.
    pub fn create_incident(&mut self, incident: Incident) -> (id: u128)
        ensures
            id == incident.id,
            final(self).entries() == put(old(self).entries(), incident.id, incident@),
            final(self).limit() == old(self).limit(),
    {
        proof {
            use_type_invariant(&*self);
            lemma_slot(self.entries(), incident.id);
        }
        let id = incident.id;
        let ghost before = self.entries();
        let ghost iv = incident@;
        let mut v: Vec<(u128, Incident)> = Vec::new();
        std::mem::swap(&mut v, &mut self.incidents);
        match self.find_in(&v, id) {
            Some(i) => {
                v.set(i, (id, incident));
                assert(entries_view(v@) =~= before.update(i as int, (id, iv)));
            },
            None => {
                v.push((id, incident));
                assert(entries_view(v@) =~= before.push((id, iv)));
            },
        }
        assert(ids_unique(entries_view(v@)));
        self.incidents = v;
        id
    }

    fn find_in(&self, v: &Vec<(u128, Incident)>, id: u128) -> (r: Option<usize>)
        requires
            ids_unique(entries_view(v@)),
        ensures
            r matches Some(i) ==> slot(entries_view(v@), id) == Some(i as int) && i < v@.len(),
            r is None ==> slot(entries_view(v@), id) is None,
    {
        proof {
            lemma_slot(entries_view(v@), id);
        }
        let mut i: usize = 0;
        while i < v.len()
            invariant
                i <= v.len(),
                ids_unique(entries_view(v@)),
                forall|j: int| 0 <= j < i ==> entries_view(v@)[j].0 != id,
            decreases v.len() - i,
        {
            if v[i].0 == id {
                proof {
                    lemma_slot(entries_view(v@), id);
                    assert(entries_view(v@)[i as int].0 == id);
                }
                return Some(i);
            }
            i += 1;
        }
        None
    }

    /// A copy of the incident stored under `id`.
    pub fn get_incident(&self, id: u128) -> (r: Option<Incident>)
        ensures
            incident_at(self.entries(), id) matches Some(m) ==> (r matches Some(x) && x@ == m),
            incident_at(self.entries(), id) is None ==> r is None,
    {
        match self.find(id) {
            Some(i) => Some(self.incidents[i].1.duplicate()),
            None => None,
        }
    }

    fn missing(prefix: &str, id: u128) -> (r: String)
        ensures
            r@ == not_found(prefix@, id),
    {
        let mut s = owned(prefix);
        let t = uuid_string(id);
        push_str(&mut s, t.as_str());
        push_str(&mut s, " not found");
        s
    }

    /// Sets the status of the incident stored under `id` and stamps it as
    /// updated now; an error names an id that is not stored.
    pub fn update_status(&mut self, id: u128, status: IncidentStatus) -> (r: Result<(), String>)
        ensures
            slot(old(self).entries(), id) matches Some(i) ==> {
                &&& r is Ok
                &&& final(self).entries() == old(self).entries().update(i, (id, IncidentModel {
                    status,
                    updated_at: final(self).entries()[i].1.updated_at,
                    ..old(self).entries()[i].1
                }))
            },
            slot(old(self).entries(), id) is None ==> r == Err::<(), String>(r->Err_0) && r->Err_0@ == not_found("Incident "@, id)
                && final(self).entries() == old(self).entries(),
            final(self).limit() == old(self).limit(),
    {
        proof {
            use_type_invariant(&*self);
        }
        match self.find(id) {
            Some(i) => {
                let ghost before = self.entries();
                proof {
                    lemma_slot(before, id);
                }
                let mut v: Vec<(u128, Incident)> = Vec::new();
                std::mem::swap(&mut v, &mut self.incidents);
                let mut inc = v[i].1.duplicate();
                inc.update_status(status);
                let ghost iv = inc@;
                v.set(i, (id, inc));
                assert(entries_view(v@) =~= before.update(i as int, (id, iv)));
                assert(ids_unique(entries_view(v@)));
                self.incidents = v;
                Ok(())
            },
            None => Err(Self::missing("Incident ", id)),
        }
    }

    /// Raises the severity of the incident stored under `id` when
    /// `severity` is higher; an error names an id that is not stored.
    pub fn escalate(&mut self, id: u128, severity: IncidentSeverity) -> (r: Result<(), String>)
        ensures
            slot(old(self).entries(), id) matches Some(i) ==> {
                &&& r is Ok
                &&& final(self).entries().len() == old(self).entries().len()
                &&& final(self).entries() == old(self).entries().update(i, (id, final(self).entries()[i].1))
                &&& final(self).entries()[i].1.severity == escalated(old(self).entries()[i].1.severity, severity)
                &&& final(self).entries()[i].1 == (IncidentModel {
                    severity: final(self).entries()[i].1.severity,
                    updated_at: final(self).entries()[i].1.updated_at,
                    ..old(self).entries()[i].1
                })
                &&& severity.level() <= old(self).entries()[i].1.severity.level() ==> final(self).entries() == old(self).entries()
            },
            slot(old(self).entries(), id) is None ==> r == Err::<(), String>(r->Err_0) && r->Err_0@ == not_found("Incident "@, id)
                && final(self).entries() == old(self).entries(),
            final(self).limit() == old(self).limit(),
    {
        proof {
            use_type_invariant(&*self);
        }
        match self.find(id) {
            Some(i) => {
                let ghost before = self.entries();
                proof {
                    lemma_slot(before, id);
                }
                let mut v: Vec<(u128, Incident)> = Vec::new();
                std::mem::swap(&mut v, &mut self.incidents);
                let mut inc = v[i].1.duplicate();
                inc.escalate_severity(severity);
                let ghost iv = inc@;
                v.set(i, (id, inc));
                assert(entries_view(v@) =~= before.update(i as int, (id, iv)));
                assert(ids_unique(entries_view(v@)));
                self.incidents = v;
                proof {
                    if severity.level() <= before[i as int].1.severity.level() {
                        assert(before.update(i as int, (id, iv)) =~= before);
                    }
                }
                Ok(())
            },
            None => Err(Self::missing("Incident ", id)),
        }
    }

    /// Adds an evidence id to the incident stored under `id` unless it is
    /// already listed, then stamps it as updated now; an error names an id
    /// that is not stored.
    pub fn add_evidence(&mut self, id: u128, evidence_id: String) -> (r: Result<(), String>)
        ensures
            slot(old(self).entries(), id) matches Some(i) ==> {
                &&& r is Ok
                &&& old(self).entries()[i].1.evidence_ids.contains(evidence_id@) ==> final(self).entries() == old(self).entries()
                &&& !old(self).entries()[i].1.evidence_ids.contains(evidence_id@) ==> final(self).entries()
                    == old(self).entries().update(i, (id, IncidentModel {
                        evidence_ids: old(self).entries()[i].1.evidence_ids.push(evidence_id@),
                        updated_at: final(self).entries()[i].1.updated_at,
                        ..old(self).entries()[i].1
                    }))
            },
            slot(old(self).entries(), id) is None ==> r == Err::<(), String>(r->Err_0) && r->Err_0@ == not_found("Incident "@, id)
                && final(self).entries() == old(self).entries(),
            final(self).limit() == old(self).limit(),
    {
        proof {
            use_type_invariant(&*self);
        }
        match self.find(id) {
            Some(i) => {
                if !contains_string(&self.incidents[i].1.evidence_ids, evidence_id.as_str()) {
                    let ghost before = self.entries();
                    proof {
                        lemma_slot(before, id);
                    }
                    let mut v: Vec<(u128, Incident)> = Vec::new();
                    std::mem::swap(&mut v, &mut self.incidents);
                    let mut inc = v[i].1.duplicate();
                    push_string(&mut inc.evidence_ids, evidence_id);
                    inc.updated_at = now_micros();
                    let ghost iv = inc@;
                    v.set(i, (id, inc));
                    assert(entries_view(v@) =~= before.update(i as int, (id, iv)));
                    assert(ids_unique(entries_view(v@)));
                    self.incidents = v;
                }
                Ok(())
            },
            None => Err(Self::missing("Incident ", id)),
        }
    }

    fn select(&self, sel: Selector) -> (r: Vec<Incident>)
        ensures
            incidents_view(r@) == selected(values(self.entries()), sel),
    {
        let ghost vals = values(self.entries());
        let mut r: Vec<Incident> = Vec::new();
        let mut i: usize = 0;
        while i < self.incidents.len()
            invariant
                i <= self.incidents.len(),
                vals == values(self.entries()),
                vals.len() == self.incidents@.len(),
                incidents_view(r@) == selected(vals.take(i as int), sel),
            decreases self.incidents.len() - i,
        {
            let inc = &self.incidents[i].1;
            let take = match sel {
                Selector::Any => true,
                Selector::Status(s) => inc.status == s,
                Selector::AtLeast(min) => inc.severity.rank() >= min.rank(),
                Selector::Active => inc.status != IncidentStatus::Closed && inc.status != IncidentStatus::Resolved,
            };
            assert(vals.take(i + 1).drop_last() =~= vals.take(i as int));
            assert(vals[i as int] == inc@);
            if take {
                let ghost before = r@;
                r.push(inc.duplicate());
                assert(incidents_view(r@) =~= incidents_view(before).push(inc@));
            }
            i += 1;
        }
        assert(vals.take(self.incidents.len() as int) =~= vals);
        r
    }

    /// Copies of all stored incidents, in entry order.
    pub fn list_incidents(&self) -> (r: Vec<Incident>)
        ensures
            incidents_view(r@) == selected(values(self.entries()), Selector::Any),
    {
        self.select(Selector::Any)
    }

    /// Copies of the stored incidents with the given status, in entry order.
    pub fn list_by_status(&self, status: IncidentStatus) -> (r: Vec<Incident>)
        ensures
            incidents_view(r@) == selected(values(self.entries()), Selector::Status(status)),
    {
        self.select(Selector::Status(status))
    }

    /// Copies of the stored incidents at least as severe as `min_severity`,
    /// in entry order.
    pub fn list_by_severity(&self, min_severity: IncidentSeverity) -> (r: Vec<Incident>)
        ensures
            incidents_view(r@) == selected(values(self.entries()), Selector::AtLeast(min_severity)),
            forall|m: IncidentModel| #[trigger] incidents_view(r@).contains(m)
                <==> values(self.entries()).contains(m) && m.severity.level() >= min_severity.level(),
    {
        proof {
            lemma_at_least_lists(values(self.entries()), min_severity);
        }
        self.select(Selector::AtLeast(min_severity))
    }

    /// Copies of the stored incidents that are neither closed nor resolved,
    /// in entry order.
    pub fn active_incidents(&self) -> (r: Vec<Incident>)
        ensures
            incidents_view(r@) == selected(values(self.entries()), Selector::Active),
    {
        self.select(Selector::Active)
    }

    /// The number of stored incidents.
    pub fn count(&self) -> (n: usize)
        ensures
            n == self.entries().len(),
    {
        self.incidents.len()
    }

    /// The number of stored incidents.
    pub fn incident_count_sync(&self) -> (n: usize)
        ensures
            n == self.entries().len(),
    {
        self.incidents.len()
    }

    /// How many stored incidents have each status, by status name, in
    /// order of first appearance.
    pub fn count_by_status(&self) -> (r: Vec<(String, usize)>)
        ensures
            counts_view(r@) == key_counts(Seq::new(self.entries().len(), |i: int| self.entries()[i].1.status.name())),
    {
        let mut names: Vec<String> = Vec::new();
        let mut i: usize = 0;
        while i < self.incidents.len()
            invariant
                i <= self.incidents.len(),
                names@.len() == i,
                forall|k: int| 0 <= k < i ==> names@[k]@ == self.entries()[k].1.status.name(),
            decreases self.incidents.len() - i,
        {
            names.push(owned(self.incidents[i].1.status.as_str()));
            i += 1;
        }
        assert(strings_view(names@) =~= Seq::new(self.entries().len(), |i: int| self.entries()[i].1.status.name()));
        counts(&names)
    }

    /// How many stored incidents have each severity, by severity name, in
    /// order of first appearance.
    pub fn count_by_severity(&self) -> (r: Vec<(String, usize)>)
        ensures
            counts_view(r@) == key_counts(Seq::new(self.entries().len(), |i: int| self.entries()[i].1.severity.name())),
    {
        let mut names: Vec<String> = Vec::new();
        let mut i: usize = 0;
        while i < self.incidents.len()
            invariant
                i <= self.incidents.len(),
                names@.len() == i,
                forall|k: int| 0 <= k < i ==> names@[k]@ == self.entries()[k].1.severity.name(),
            decreases self.incidents.len() - i,
        {
            names.push(owned(self.incidents[i].1.severity.as_str()));
            i += 1;
        }
        assert(strings_view(names@) =~= Seq::new(self.entries().len(), |i: int| self.entries()[i].1.severity.name()));
        counts(&names)
    }

    /// Removes closed and resolved incidents last updated before `cutoff`
    /// (microseconds since the Unix epoch) and returns how many went.
    pub fn prune_closed_before(&mut self, cutoff: i64) -> (n: usize)
        ensures
            final(self).entries() == kept(old(self).entries(), cutoff),
            n == old(self).entries().len() - final(self).entries().len(),
            final(self).limit() == old(self).limit(),
    {
        proof {
            use_type_invariant(&*self);
        }
        let ghost before = self.entries();
        let mut v: Vec<(u128, Incident)> = Vec::new();
        std::mem::swap(&mut v, &mut self.incidents);
        let mut out: Vec<(u128, Incident)> = Vec::new();
        let mut i: usize = 0;
        while i < v.len()
            invariant
                i <= v.len(),
                before == entries_view(v@),
                ids_unique(before),
                entries_view(out@) == kept(before.take(i as int), cutoff),
            decreases v.len() - i,
        {
            let inc = &v[i].1;
            let gone = (inc.status == IncidentStatus::Closed || inc.status == IncidentStatus::Resolved)
                && inc.updated_at < cutoff;
            assert(before.take(i + 1).drop_last() =~= before.take(i as int));
            assert(before[i as int] == (v@[i as int].0, inc@));
            if !gone {
                let ghost prev = out@;
                out.push((v[i].0, inc.duplicate()));
                assert(entries_view(out@) =~= entries_view(prev).push(before[i as int]));
            }
            i += 1;
        }
        assert(before.take(v.len() as int) =~= before);
        proof {
            let k = kept(before, cutoff);
            lemma_kept_entries(before, cutoff);
            assert forall|a: int, b: int| 0 <= a < k.len() && 0 <= b < k.len() && a != b implies k[a].0 != k[b].0 by {
                lemma_kept_order(before, cutoff, a, b);
            }
        }
        let n = v.len() - out.len();
        self.incidents = out;
        n
    }

    /// Removes closed and resolved incidents last updated more than
    /// `max_age_micros` ago and returns how many went.  A cutoff that falls
    /// outside the time range removes nothing.
    pub fn prune_closed(&mut self, max_age_micros: i64) -> (n: usize)
        ensures
            exists|cutoff: i64| final(self).entries() == kept(old(self).entries(), cutoff),
            n == old(self).entries().len() - final(self).entries().len(),
            final(self).limit() == old(self).limit(),
    {
        let now = now_micros();
        let cutoff = match now.checked_sub(max_age_micros) {
            Some(c) => c,
            None => i64::MIN,
        };
        self.prune_closed_before(cutoff)
    }

    /// Merges the incident stored under `secondary_id` into the one stored
    /// under `primary_id` and removes it.  When nothing is stored under
    /// `primary_id`, the secondary incident is stored there instead.  An
    /// error names a secondary id that is not stored, and changes nothing.
    pub fn merge_incidents(&mut self, primary_id: u128, secondary_id: u128) -> (r: Result<(), String>)
        ensures
            slot(old(self).entries(), secondary_id) matches Some(j) ==> {
                let rest = old(self).entries().remove(j);
                let sec = old(self).entries()[j].1;
                &&& r is Ok
                &&& slot(rest, primary_id) matches Some(i) ==> final(self).entries() == rest.update(i, (primary_id,
                    merged(rest[i].1, sec, final(self).entries()[i].1.updated_at)))
                &&& slot(rest, primary_id) is None ==> final(self).entries() == rest.push((primary_id, sec))
            },
            slot(old(self).entries(), secondary_id) is None ==> r == Err::<(), String>(r->Err_0)
                && r->Err_0@ == not_found("Secondary incident "@, secondary_id)
                && final(self).entries() == old(self).entries(),
            final(self).limit() == old(self).limit(),
    {
        proof {
            use_type_invariant(&*self);
        }
        let j = match self.find(secondary_id) {
            Some(j) => j,
            None => {
                return Err(Self::missing("Secondary incident ", secondary_id));
            },
        };
        let ghost before = self.entries();
        let mut v: Vec<(u128, Incident)> = Vec::new();
        std::mem::swap(&mut v, &mut self.incidents);
        let (_, secondary) = v.remove(j);
        let ghost rest = entries_view(v@);
        assert(rest =~= before.remove(j as int));
        assert(ids_unique(rest)) by {
            assert forall|a: int, b: int| 0 <= a < rest.len() && 0 <= b < rest.len() && a != b implies rest[a].0 != rest[b].0 by {
                let a2 = if a < j { a } else { a + 1 };
                let b2 = if b < j { b } else { b + 1 };
                assert(rest[a] == before[a2]);
                assert(rest[b] == before[b2]);
            }
        }
        match self.find_in(&v, primary_id) {
            Some(i) => {
                let mut primary = v[i].1.duplicate();
                assert(primary@ == rest[i as int].1);
                assert(secondary@ == before[j as int].1);
                merge_into(&mut primary, &secondary);
                let ghost pv = primary@;
                v.set(i, (primary_id, primary));
                assert(entries_view(v@) =~= rest.update(i as int, (primary_id, pv)));
                assert(pv == merged(rest[i as int].1, before[j as int].1, pv.updated_at));
                proof {
                    lemma_slot(rest, primary_id);
                }
                assert(ids_unique(entries_view(v@)));
                self.incidents = v;
            },
            None => {
                let ghost sv = secondary@;
                v.push((primary_id, secondary));
                assert(entries_view(v@) =~= rest.push((primary_id, sv)));
                proof {
                    lemma_slot(rest, primary_id);
                }
                assert(ids_unique(entries_view(v@)));
                self.incidents = v;
            },
        }
        Ok(())
    }
}

/// Entries kept by pruning keep their order: two kept entries are two
/// distinct entries of the store.
proof fn lemma_kept_order(s: Seq<(u128, IncidentModel)>, cutoff: i64, a: int, b: int)
    requires
        ids_unique(s),
        0 <= a < kept(s, cutoff).len(),
        0 <= b < kept(s, cutoff).len(),
        a != b,
    ensures
        kept(s, cutoff)[a].0 != kept(s, cutoff)[b].0,
    decreases s.len(),
{
    let p = s.drop_last();
    let k = kept(s, cutoff);
    let kp = kept(p, cutoff);
    assert(ids_unique(p)) by {
        assert forall|x: int, y: int| 0 <= x < p.len() && 0 <= y < p.len() && x != y implies p[x].0 != p[y].0 by {
            assert(p[x] == s[x]);
            assert(p[y] == s[y]);
        }
    }
    if prunable(s.last().1, cutoff) {
        lemma_kept_order(p, cutoff, a, b);
    } else if a < kp.len() && b < kp.len() {
        lemma_kept_order(p, cutoff, a, b);
    } else {
        lemma_kept_entries(p, cutoff);
        let x = if a < kp.len() { a } else { b };
        assert(p.contains(kp[x]));
        let t = choose|t: int| 0 <= t < p.len() && p[t] == kp[x];
        assert(s[t] == p[t]);
        assert(s[t].0 != s[s.len() - 1].0);
    }
}

impl Default for IncidentEngine {
    fn default() -> (e: IncidentEngine)
        ensures
            e.entries().len() == 0,
            e.limit() == 10_000,
    {
        IncidentEngine::new()
    }
}

/// Reading back a stored incident: after an incident is stored under a
/// key, a lookup of that key finds it, a lookup of any other key finds
/// what it found before, and no two entries share a key.
pub proof fn lemma_put_then_get(s: Seq<(u128, IncidentModel)>, key: u128, v: IncidentModel, other: u128)
    requires
        ids_unique(s),
    ensures
        incident_at(put(s, key, v), key) == Some(v),
        other != key ==> incident_at(put(s, key, v), other) == incident_at(s, other),
        ids_unique(put(s, key, v)),
{
    lemma_slot(s, key);
    lemma_slot(s, other);
    let t = put(s, key, v);
    match slot(s, key) {
        Some(i) => {
            assert(ids_unique(t));
            lemma_slot(t, key);
            lemma_slot(t, other);
            assert(t[i].0 == key);
            if other != key {
                match slot(s, other) {
                    Some(q) => {
                        assert(t[q].0 == other);
                        assert(slot(t, other) == Some(q));
                    },
                    None => {},
                }
            }
        },
        None => {
            assert(ids_unique(t));
            lemma_slot(t, key);
            lemma_slot(t, other);
            assert(t[t.len() - 1].0 == key);
            if other != key {
                assert(t.drop_last() =~= s);
            }
        },
    }
}

/// Escalation never lowers a severity: the result is the higher of the two,
/// and escalating again to the same severity changes nothing.
pub proof fn lemma_escalation_monotone(current: IncidentSeverity, requested: IncidentSeverity)
    ensures
        escalated(current, requested).level() >= current.level(),
        escalated(current, requested).level() >= requested.level(),
        escalated(current, requested) == current || escalated(current, requested) == requested,
        escalated(escalated(current, requested), requested) == escalated(current, requested),
{
}

/// Merging lists of ids keeps every id of both lists, adds no other, and
/// adds no repeat to a list without repeats.
pub proof fn lemma_union_keep(a: Seq<Seq<char>>, b: Seq<Seq<char>>)
    ensures
        forall|x: Seq<char>| #[trigger] union_keep(a, b).contains(x) <==> (a.contains(x) || b.contains(x)),
        a.no_duplicates() ==> union_keep(a, b).no_duplicates(),
    decreases b.len(),
{
    if b.len() > 0 {
        let d = b.drop_last();
        let u = union_keep(a, d);
        lemma_union_keep(a, d);
        assert forall|x: Seq<char>| #[trigger] union_keep(a, b).contains(x) <==> (a.contains(x) || b.contains(x)) by {
            if d.contains(x) {
                let i = choose|i: int| 0 <= i < d.len() && d[i] == x;
                assert(b[i] == x);
            }
            if b.contains(x) {
                let i = choose|i: int| 0 <= i < b.len() && b[i] == x;
                if i < d.len() {
                    assert(d[i] == x);
                }
            }
            if !u.contains(b.last()) {
                assert(u.push(b.last())[u.len() as int] == b.last());
                if u.push(b.last()).contains(x) {
                    let i = choose|i: int| 0 <= i < u.len() + 1 && u.push(b.last())[i] == x;
                    if i < u.len() {
                        assert(u[i] == x);
                    }
                }
                if u.contains(x) {
                    let i = choose|i: int| 0 <= i < u.len() && u[i] == x;
                    assert(u.push(b.last())[i] == x);
                }
            }
        }
    }
}

/// Adding an evidence id that may already be listed leaves a list without
/// repeats without repeats, and lists the id afterwards.
pub proof fn lemma_add_evidence_once(ids: Seq<Seq<char>>, e: Seq<char>)
    requires
        ids.no_duplicates(),
    ensures
        ({
            let after = if ids.contains(e) { ids } else { ids.push(e) };
            &&& after.no_duplicates()
            &&& after.contains(e)
            &&& (if after.contains(e) { after } else { after.push(e) }) == after
        }),
{
    if !ids.contains(e) {
        assert(ids.push(e)[ids.len() as int] == e);
    }
}

/// Pruning removes exactly the closed or resolved incidents last updated
/// before the cutoff, and keeps every other entry.
pub proof fn lemma_prune_exact(s: Seq<(u128, IncidentModel)>, cutoff: i64)
    ensures
        forall|j: int| 0 <= j < kept(s, cutoff).len() ==> !prunable(#[trigger] kept(s, cutoff)[j].1, cutoff),
        forall|j: int| 0 <= j < s.len() && !prunable(s[j].1, cutoff) ==> kept(s, cutoff).contains(#[trigger] s[j]),
    decreases s.len(),
{
    if s.len() > 0 {
        let p = s.drop_last();
        let kp = kept(p, cutoff);
        lemma_prune_exact(p, cutoff);
        assert forall|j: int| 0 <= j < kept(s, cutoff).len() implies !prunable(#[trigger] kept(s, cutoff)[j].1, cutoff) by {
            if j < kp.len() {
                assert(kept(s, cutoff)[j] == kp[j]);
            }
        }
        assert forall|j: int| 0 <= j < s.len() && !prunable(s[j].1, cutoff) implies kept(s, cutoff).contains(#[trigger] s[j]) by {
            if j < s.len() - 1 {
                assert(s[j] == p[j]);
                assert(kp.contains(p[j]));
                let q = choose|q: int| 0 <= q < kp.len() && kp[q] == p[j];
                assert(kept(s, cutoff)[q] == kp[q]);
            } else {
                assert(kept(s, cutoff)[kp.len() as int] == s[j]);
            }
        }
    }
}

/// Listing by least severity keeps, in order, exactly the incidents whose
/// severity is at least the minimum, that of the minimum itself included:
/// an incident is listed exactly when it is among those given and its
/// severity is the minimum or a more serious one.
pub proof fn lemma_at_least_lists(s: Seq<IncidentModel>, min: IncidentSeverity)
    ensures
        forall|m: IncidentModel| #[trigger] selected(s, Selector::AtLeast(min)).contains(m)
            <==> s.contains(m) && m.severity.level() >= min.level(),
        forall|m: IncidentModel| s.contains(m) && m.severity == min
            ==> #[trigger] selected(s, Selector::AtLeast(min)).contains(m),
    decreases s.len(),
{
    if s.len() > 0 {
        let d = s.drop_last();
        lemma_at_least_lists(d, min);
        let sd = selected(d, Selector::AtLeast(min));
        let r = selected(s, Selector::AtLeast(min));
        assert forall|m: IncidentModel| #[trigger] r.contains(m) <==> s.contains(m) && m.severity.level() >= min.level() by {
            if s.contains(m) {
                let j = choose|j: int| 0 <= j < s.len() && s[j] == m;
                if j < d.len() {
                    assert(d[j] == m);
                    assert(d.contains(m));
                }
            }
            if d.contains(m) {
                let j = choose|j: int| 0 <= j < d.len() && d[j] == m;
                assert(s[j] == m);
            }
            if m.severity.level() >= min.level() {
                assert(selects(Selector::AtLeast(min), m));
            }
            if s.last().severity.level() >= min.level() {
                assert(r == sd.push(s.last()));
                if r.contains(m) {
                    let j = choose|j: int| 0 <= j < r.len() && r[j] == m;
                    if j < sd.len() {
                        assert(sd[j] == m);
                    }
                }
                if sd.contains(m) {
                    let j = choose|j: int| 0 <= j < sd.len() && sd[j] == m;
                    assert(r[j] == m);
                }
                if m == s.last() {
                    assert(r[sd.len() as int] == m);
                }
            } else {
                assert(r == sd);
            }
        }
    }
}

} // verus!
