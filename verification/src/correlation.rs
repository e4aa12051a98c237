use vstd::prelude::*;
use crate::clock::{new_id, now_micros, MICROS_PER_SECOND};
use crate::evidence::{evidence_view, Evidence, EvidenceModel, EvidenceType};
use crate::grouping::{
    counts, counts_view, distinct, distinct_keys, distinct_prefix, ints, join, key_counts, key_members, keys_of,
    keys_sorted, lemma_distinct_prefix, lemma_join_push, lemma_stable_sort_sorted, members_of, seq_key, stable_sort,
    stable_sort_by_key,
};
use crate::text::{decimal, push_decimal, push_str, str_eq};
use crate::threat::{events_view, strings_view, Severity, ThreatCategory, ThreatEvent, ThreatEventModel};

verus! {

/// How a correlation rule combines its inputs.
#[derive(Debug, Clone, Copy, PartialEq, Eq, Structural)]
pub enum CorrelationKind {
    CoOccurrence,
    CategoryChain,
    EntityCluster,
    EvidenceCluster,
    TimeWindow,
    SeverityEscalation,
}

impl CorrelationKind {
    /// The variant's name as written in the source.
    pub open spec fn variant_name(self) -> Seq<char> {
        match self {
            CorrelationKind::CoOccurrence => "CoOccurrence"@,
            CorrelationKind::CategoryChain => "CategoryChain"@,
            CorrelationKind::EntityCluster => "EntityCluster"@,
            CorrelationKind::EvidenceCluster => "EvidenceCluster"@,
            CorrelationKind::TimeWindow => "TimeWindow"@,
            CorrelationKind::SeverityEscalation => "SeverityEscalation"@,
        }
    }

    /// The variant's name as written in the source.
    pub fn variant_str(&self) -> (s: &'static str)
        ensures
            s@ == self.variant_name(),
    {
        match self {
            CorrelationKind::CoOccurrence => "CoOccurrence",
            CorrelationKind::CategoryChain => "CategoryChain",
            CorrelationKind::EntityCluster => "EntityCluster",
            CorrelationKind::EvidenceCluster => "EvidenceCluster",
            CorrelationKind::TimeWindow => "TimeWindow",
            CorrelationKind::SeverityEscalation => "SeverityEscalation",
        }
    }
}

/// A correlation rule.  `time_window_seconds` bounds how far apart (in
/// seconds) the items of one match may lie.
pub struct CorrelationRule {
    pub name: String,
    pub description: String,
    pub kind: CorrelationKind,
    pub min_items: usize,
    pub time_window_seconds: i64,
    pub enabled: bool,
}

/// The mathematical content of a [`CorrelationRule`].
pub struct RuleModel {
    pub name: Seq<char>,
    pub description: Seq<char>,
    pub kind: CorrelationKind,
    pub min_items: usize,
    pub time_window_seconds: i64,
    pub enabled: bool,
}

impl View for CorrelationRule {
    type V = RuleModel;

    open spec fn view(&self) -> RuleModel {
        RuleModel {
            name: self.name@,
            description: self.description@,
            kind: self.kind,
            min_items: self.min_items,
            time_window_seconds: self.time_window_seconds,
            enabled: self.enabled,
        }
    }
}

/// The views of a sequence of rules.
pub open spec fn rules_view(v: Seq<CorrelationRule>) -> Seq<RuleModel> {
    Seq::new(v.len(), |i: int| v[i]@)
}

/// A summary of one piece of evidence inside a correlation result.
pub struct EvidenceSummary {
    pub id: u128,
    pub evidence_type: String,
    pub severity: String,
    pub source: String,
    pub description: String,
    pub confidence: u32,
}

/// The mathematical content of an [`EvidenceSummary`].
pub struct SummaryModel {
    pub id: u128,
    pub evidence_type: Seq<char>,
    pub severity: Seq<char>,
    pub source: Seq<char>,
    pub description: Seq<char>,
    pub confidence: u32,
}

impl View for EvidenceSummary {
    type V = SummaryModel;

    open spec fn view(&self) -> SummaryModel {
        SummaryModel {
            id: self.id,
            evidence_type: self.evidence_type@,
            severity: self.severity@,
            source: self.source@,
            description: self.description@,
            confidence: self.confidence,
        }
    }
}

/// The summary of one piece of evidence.
pub open spec fn summarize(e: EvidenceModel) -> SummaryModel {
    SummaryModel {
        id: e.id,
        evidence_type: e.evidence_type.variant_name(),
        severity: e.severity.name(),
        source: e.source,
        description: e.description,
        confidence: e.confidence,
    }
}

/// The views of a sequence of summaries.
pub open spec fn summaries_view(v: Seq<EvidenceSummary>) -> Seq<SummaryModel> {
    Seq::new(v.len(), |i: int| v[i]@)
}

/// A match of one correlation rule.  `timestamp` is in microseconds since
/// the Unix epoch; `id` is random.
pub struct CorrelationResult {
    pub id: u128,
    pub rule_name: String,
    pub kind: CorrelationKind,
    pub matched_events: Vec<ThreatEvent>,
    pub matched_evidence: Vec<EvidenceSummary>,
    pub combined_severity: String,
    pub title: String,
    pub description: String,
    pub timestamp: i64,
    pub entity_key: Option<String>,
}

/// What a correlation result says, apart from its random id and the time
/// at which it was made.
pub struct ResultModel {
    pub rule_name: Seq<char>,
    pub kind: CorrelationKind,
    pub events: Seq<ThreatEventModel>,
    pub evidence: Seq<SummaryModel>,
    pub combined_severity: Seq<char>,
    pub title: Seq<char>,
    pub description: Seq<char>,
    pub entity_key: Option<Seq<char>>,
}

impl CorrelationResult {
    pub open spec fn essence(&self) -> ResultModel {
        ResultModel {
            rule_name: self.rule_name@,
            kind: self.kind,
            events: events_view(self.matched_events@),
            evidence: summaries_view(self.matched_evidence@),
            combined_severity: self.combined_severity@,
            title: self.title@,
            description: self.description@,
            entity_key: match self.entity_key {
                Some(k) => Some(k@),
                None => None,
            },
        }
    }
}

/// What a sequence of results says.
pub open spec fn essences(v: Seq<CorrelationResult>) -> Seq<ResultModel> {
    Seq::new(v.len(), |i: int| v[i].essence())
}

// ---------------------------------------------------------------------
// The specification of the matchers.
// ---------------------------------------------------------------------

/// A time window of `w` seconds, in microseconds.
pub open spec fn window(w: i64) -> int {
    w as int * MICROS_PER_SECOND as int
}

/// The timestamps of the events.
pub open spec fn timestamps(ev: Seq<ThreatEventModel>) -> Seq<int> {
    Seq::new(ev.len(), |i: int| ev[i].timestamp as int)
}

/// `0, 1, ..., n - 1`.
pub open spec fn range(n: nat) -> Seq<usize> {
    Seq::new(n, |i: int| i as usize)
}

/// The event positions ordered by time, ties keeping position order.
pub open spec fn time_order(ev: Seq<ThreatEventModel>) -> Seq<usize> {
    stable_sort(range(ev.len()), seq_key(timestamps(ev)))
}

/// The first position `j` (scanning from `j`) in `idx` whose event lies
/// more than the window after the event at position `i` of `idx`.
pub open spec fn scan_end(ev: Seq<ThreatEventModel>, idx: Seq<usize>, i: int, j: int, w: i64) -> int
    decreases idx.len() - j,
{
    if j >= idx.len() {
        idx.len() as int
    } else if ev[idx[j] as int].timestamp - ev[idx[i] as int].timestamp > window(w) {
        j
    } else {
        scan_end(ev, idx, i, j + 1, w)
    }
}

/// The cluster starting at position `i` of the time order: that event and
/// the following ones up to the first that lies outside the window.
pub open spec fn cluster(ev: Seq<ThreatEventModel>, idx: Seq<usize>, i: int, w: i64) -> Seq<usize> {
    idx.subrange(i, scan_end(ev, idx, i, i + 1, w))
}

/// The highest severity rank among the listed events (0 when none).
pub open spec fn max_rank(ev: Seq<ThreatEventModel>, m: Seq<usize>) -> u8
    decreases m.len(),
{
    if m.len() == 0 {
        0
    } else {
        let r = ev[m.last() as int].severity.rank();
        let p = max_rank(ev, m.drop_last());
        if r > p { r } else { p }
    }
}

/// The severity of a rank.
pub open spec fn severity_of_rank(r: u8) -> Severity {
    if r == 0 {
        Severity::Info
    } else if r == 1 {
        Severity::Low
    } else if r == 2 {
        Severity::Medium
    } else if r == 3 {
        Severity::High
    } else {
        Severity::Critical
    }
}

/// The name of the highest severity among the listed events (`info` when none).
pub open spec fn combined_name(ev: Seq<ThreatEventModel>, m: Seq<usize>) -> Seq<char> {
    severity_of_rank(max_rank(ev, m)).name()
}

/// The listed events.
pub open spec fn pick_events(ev: Seq<ThreatEventModel>, m: Seq<usize>) -> Seq<ThreatEventModel> {
    Seq::new(m.len(), |k: int| ev[m[k] as int])
}

/// The titles of the listed events.
pub open spec fn titles(ev: Seq<ThreatEventModel>, m: Seq<usize>) -> Seq<Seq<char>> {
    Seq::new(m.len(), |k: int| ev[m[k] as int].title)
}

/// Whether one of the listed events has category `c`.
pub open spec fn has_category(ev: Seq<ThreatEventModel>, m: Seq<usize>, c: ThreatCategory) -> bool {
    exists|k: int| 0 <= k < m.len() && ev[m[k] as int].category == c
}

/// Whether a co-occurrence cluster fires: it is large enough and, for the
/// rootkit rule, holds a hook, a hidden process and an integrity violation.
pub open spec fn co_fires(ev: Seq<ThreatEventModel>, rule: RuleModel, c: Seq<usize>) -> bool {
    &&& c.len() >= rule.min_items
    &&& rule.name == "rootkit_indicators"@ ==> {
        &&& has_category(ev, c, ThreatCategory::HookDetected)
        &&& has_category(ev, c, ThreatCategory::HiddenProcess)
        &&& has_category(ev, c, ThreatCategory::IntegrityViolation)
    }
}

/// The result a co-occurrence cluster gives.
pub open spec fn co_result(ev: Seq<ThreatEventModel>, rule: RuleModel, c: Seq<usize>) -> ResultModel {
    ResultModel {
        rule_name: rule.name,
        kind: CorrelationKind::CoOccurrence,
        events: pick_events(ev, c),
        evidence: Seq::empty(),
        combined_severity: combined_name(ev, c),
        title: rule.name + ": correlated threat"@,
        description: rule.description + " - triggered by: "@ + join(titles(ev, c), ", "@),
        entity_key: None,
    }
}

/// The result a time-window cluster gives.
pub open spec fn tw_result(ev: Seq<ThreatEventModel>, rule: RuleModel, c: Seq<usize>) -> ResultModel {
    ResultModel {
        rule_name: rule.name,
        kind: CorrelationKind::TimeWindow,
        events: pick_events(ev, c),
        evidence: Seq::empty(),
        combined_severity: combined_name(ev, c),
        title: "Events within time window"@,
        description: rule.description,
        entity_key: None,
    }
}

/// The results of the clusters starting at the first `i` positions of the
/// time order (`co_occurrence` chooses the co-occurrence or the
/// time-window form).
pub open spec fn window_results(ev: Seq<ThreatEventModel>, idx: Seq<usize>, rule: RuleModel, i: int, co_occurrence: bool) -> Seq<ResultModel>
    decreases i,
{
    if i <= 0 {
        Seq::empty()
    } else {
        let prev = window_results(ev, idx, rule, i - 1, co_occurrence);
        let c = cluster(ev, idx, i - 1, rule.time_window_seconds);
        if co_occurrence {
            if co_fires(ev, rule, c) { prev.push(co_result(ev, rule, c)) } else { prev }
        } else {
            if c.len() >= rule.min_items { prev.push(tw_result(ev, rule, c)) } else { prev }
        }
    }
}

/// What the co-occurrence matcher gives.
pub open spec fn co_occurrence_matches(ev: Seq<ThreatEventModel>, rule: RuleModel) -> Seq<ResultModel> {
    if ev.len() < rule.min_items {
        Seq::empty()
    } else {
        window_results(ev, time_order(ev), rule, ev.len() as int, true)
    }
}

/// What the time-window matcher gives.
pub open spec fn time_window_matches(ev: Seq<ThreatEventModel>, rule: RuleModel) -> Seq<ResultModel> {
    window_results(ev, time_order(ev), rule, ev.len() as int, false)
}


/// The positions `i < n` of events with category `c`, in increasing order.
pub open spec fn cat_prefix(ev: Seq<ThreatEventModel>, c: ThreatCategory, n: int) -> Seq<usize>
    decreases n,
{
    if n <= 0 {
        Seq::empty()
    } else if ev[n - 1].category == c {
        cat_prefix(ev, c, n - 1).push((n - 1) as usize)
    } else {
        cat_prefix(ev, c, n - 1)
    }
}

/// The positions of events with category `c`, in increasing order.
pub open spec fn cat_members(ev: Seq<ThreatEventModel>, c: ThreatCategory) -> Seq<usize> {
    cat_prefix(ev, c, ev.len() as int)
}

/// The category names of the events.
pub open spec fn category_names(ev: Seq<ThreatEventModel>) -> Seq<Seq<char>> {
    Seq::new(ev.len(), |i: int| ev[i].category.name())
}

/// The result of the privilege-escalation chain rule.
pub open spec fn chain_result(ev: Seq<ThreatEventModel>, rule: RuleModel, chain: Seq<usize>) -> ResultModel {
    ResultModel {
        rule_name: rule.name,
        kind: CorrelationKind::CategoryChain,
        events: pick_events(ev, chain),
        evidence: Seq::empty(),
        combined_severity: "critical"@,
        title: "Privilege escalation chain detected"@,
        description: "Privilege escalation followed by persistence mechanism installation"@,
        entity_key: None,
    }
}

/// The result of a group of same-category events.
pub open spec fn category_group_result(ev: Seq<ThreatEventModel>, rule: RuleModel, g: Seq<char>, m: Seq<usize>) -> ResultModel {
    ResultModel {
        rule_name: rule.name,
        kind: CorrelationKind::CategoryChain,
        events: pick_events(ev, m),
        evidence: Seq::empty(),
        combined_severity: combined_name(ev, m),
        title: "Multiple "@ + g + " events"@,
        description: rule.description,
        entity_key: None,
    }
}

/// The results of the first `k` category groups.
pub open spec fn category_group_results(ev: Seq<ThreatEventModel>, rule: RuleModel, groups: Seq<Seq<char>>, k: int) -> Seq<ResultModel>
    decreases k,
{
    if k <= 0 {
        Seq::empty()
    } else {
        let prev = category_group_results(ev, rule, groups, k - 1);
        let m = key_members(category_names(ev), groups[k - 1]);
        if m.len() >= rule.min_items {
            prev.push(category_group_result(ev, rule, groups[k - 1], m))
        } else {
            prev
        }
    }
}

/// Whether the event at `i` is a privilege escalation that the event at
/// `j`, a persistence mechanism, follows (at the same time or later)
/// within `w` seconds.
pub open spec fn chain_pair(ev: Seq<ThreatEventModel>, w: i64, i: int, j: int) -> bool {
    &&& 0 <= i < ev.len()
    &&& 0 <= j < ev.len()
    &&& ev[i].category == ThreatCategory::PrivilegeEscalation
    &&& ev[j].category == ThreatCategory::PersistenceMechanism
    &&& ev[i].timestamp <= ev[j].timestamp
    &&& ev[j].timestamp - ev[i].timestamp <= window(w)
}

/// Whether some privilege escalation is followed by a persistence
/// mechanism within `w` seconds.
pub open spec fn escalation_followed(ev: Seq<ThreatEventModel>, w: i64) -> bool {
    exists|i: int, j: int| #[trigger] chain_pair(ev, w, i, j)
}

/// What the category-chain matcher gives.  The privilege-escalation chain
/// rule reports every privilege escalation and persistence event, in time
/// order, once a privilege escalation is followed by a persistence
/// mechanism within the rule's window; any other rule reports each
/// category with at least `min_items` events, categories in order of first
/// appearance.
pub open spec fn category_chain_matches(ev: Seq<ThreatEventModel>, rule: RuleModel) -> Seq<ResultModel> {
    if rule.name == "privilege_escalation_chain"@ {
        let pe = cat_members(ev, ThreatCategory::PrivilegeEscalation);
        let pers = cat_members(ev, ThreatCategory::PersistenceMechanism);
        if escalation_followed(ev, rule.time_window_seconds) {
            seq![chain_result(ev, rule, stable_sort(pe + pers, seq_key(timestamps(ev))))]
        } else {
            Seq::empty()
        }
    } else {
        let groups = distinct_keys(category_names(ev));
        category_group_results(ev, rule, groups, groups.len() as int)
    }
}

/// The entity an event belongs to: its process id in decimal, or else the
/// detector that reported it.
pub open spec fn entity_key(e: ThreatEventModel) -> Seq<char> {
    match e.process {
        Some(p) => decimal(p.pid as nat),
        None => e.source_detector,
    }
}

/// The entity keys of the events.
pub open spec fn entity_keys(ev: Seq<ThreatEventModel>) -> Seq<Seq<char>> {
    Seq::new(ev.len(), |i: int| entity_key(ev[i]))
}

/// The first `k` listed items whose time is at most the window after `base`.
pub open spec fn within_window(times: Seq<int>, m: Seq<usize>, base: int, w: i64, k: int) -> Seq<usize>
    decreases k,
{
    if k <= 0 {
        Seq::empty()
    } else if times[m[k - 1] as int] - base <= window(w) {
        within_window(times, m, base, w, k - 1).push(m[k - 1])
    } else {
        within_window(times, m, base, w, k - 1)
    }
}

/// The listed items within the window after the first of them.
pub open spec fn window_members(times: Seq<int>, m: Seq<usize>, w: i64) -> Seq<usize> {
    within_window(times, m, times[m[0] as int], w, m.len() as int)
}

/// The result of an entity cluster.
pub open spec fn entity_result(ev: Seq<ThreatEventModel>, rule: RuleModel, g: Seq<char>, wi: Seq<usize>) -> ResultModel {
    ResultModel {
        rule_name: rule.name,
        kind: CorrelationKind::EntityCluster,
        events: pick_events(ev, wi),
        evidence: Seq::empty(),
        combined_severity: combined_name(ev, wi),
        title: "Multiple threats from entity "@ + g,
        description: rule.description + " - events: "@ + join(titles(ev, wi), ", "@),
        entity_key: Some(g),
    }
}

/// The results of the first `k` entity groups.
pub open spec fn entity_group_results(ev: Seq<ThreatEventModel>, rule: RuleModel, groups: Seq<Seq<char>>, k: int) -> Seq<ResultModel>
    decreases k,
{
    if k <= 0 {
        Seq::empty()
    } else {
        let prev = entity_group_results(ev, rule, groups, k - 1);
        let m = key_members(entity_keys(ev), groups[k - 1]);
        let wi = window_members(timestamps(ev), m, rule.time_window_seconds);
        if m.len() >= rule.min_items && wi.len() >= rule.min_items {
            prev.push(entity_result(ev, rule, groups[k - 1], wi))
        } else {
            prev
        }
    }
}

/// What the entity-cluster matcher gives: for each entity (in order of
/// first appearance) with at least `min_items` events, the events within
/// the window after its first one, when there are at least `min_items`.
pub open spec fn entity_cluster_matches(ev: Seq<ThreatEventModel>, rule: RuleModel) -> Seq<ResultModel> {
    let groups = distinct_keys(entity_keys(ev));
    entity_group_results(ev, rule, groups, groups.len() as int)
}

/// The sources of the evidence items.
pub open spec fn source_keys(items: Seq<EvidenceModel>) -> Seq<Seq<char>> {
    Seq::new(items.len(), |i: int| items[i].source)
}

/// The times of the evidence items.
pub open spec fn item_times(items: Seq<EvidenceModel>) -> Seq<int> {
    Seq::new(items.len(), |i: int| items[i].timestamp as int)
}

/// The distinct evidence types among the first `k` listed items.
pub open spec fn types_prefix(items: Seq<EvidenceModel>, m: Seq<usize>, k: int) -> Seq<EvidenceType>
    decreases k,
{
    if k <= 0 {
        Seq::empty()
    } else {
        let d = types_prefix(items, m, k - 1);
        let t = items[m[k - 1] as int].evidence_type;
        if d.contains(t) { d } else { d.push(t) }
    }
}

/// The highest severity rank among the listed evidence items (0 when none).
pub open spec fn item_max_rank(items: Seq<EvidenceModel>, m: Seq<usize>) -> u8
    decreases m.len(),
{
    if m.len() == 0 {
        0
    } else {
        let r = items[m.last() as int].severity.rank();
        let p = item_max_rank(items, m.drop_last());
        if r > p { r } else { p }
    }
}

/// The name of a severity rank.
pub open spec fn severity_name_of_rank(rank: u8) -> Seq<char> {
    if rank == 4 {
        "critical"@
    } else if rank == 3 {
        "high"@
    } else if rank == 2 {
        "medium"@
    } else if rank == 1 {
        "low"@
    } else {
        "info"@
    }
}

/// The name of the evidence severity of rank `rank` (0 to 4, higher ranks
/// counting as critical).
pub fn evidence_severity_name(rank: u8) -> (s: String)
    ensures
        s@ == severity_name_of_rank(rank),
{
    if rank == 4 {
        "critical".to_owned()
    } else if rank == 3 {
        "high".to_owned()
    } else if rank == 2 {
        "medium".to_owned()
    } else if rank == 1 {
        "low".to_owned()
    } else {
        "info".to_owned()
    }
}

/// The summaries of the listed evidence items.
pub open spec fn pick_summaries(items: Seq<EvidenceModel>, m: Seq<usize>) -> Seq<SummaryModel> {
    Seq::new(m.len(), |k: int| summarize(items[m[k] as int]))
}

/// The descriptions of the listed evidence items.
pub open spec fn item_descriptions(items: Seq<EvidenceModel>, m: Seq<usize>) -> Seq<Seq<char>> {
    Seq::new(m.len(), |k: int| items[m[k] as int].description)
}

/// The result of an evidence cluster.
pub open spec fn evidence_result(items: Seq<EvidenceModel>, rule: RuleModel, g: Seq<char>, wi: Seq<usize>) -> ResultModel {
    ResultModel {
        rule_name: rule.name,
        kind: CorrelationKind::EvidenceCluster,
        events: Seq::empty(),
        evidence: pick_summaries(items, wi),
        combined_severity: severity_name_of_rank(item_max_rank(items, wi)),
        title: "Cross-detector evidence from source "@ + g,
        description: rule.description + " - evidence: "@ + join(item_descriptions(items, wi), "; "@),
        entity_key: Some(g),
    }
}

/// The results of the first `k` source groups.
pub open spec fn evidence_group_results(items: Seq<EvidenceModel>, rule: RuleModel, groups: Seq<Seq<char>>, k: int) -> Seq<ResultModel>
    decreases k,
{
    if k <= 0 {
        Seq::empty()
    } else {
        let prev = evidence_group_results(items, rule, groups, k - 1);
        let m = key_members(source_keys(items), groups[k - 1]);
        let wi = window_members(item_times(items), m, rule.time_window_seconds);
        if types_prefix(items, m, m.len() as int).len() >= rule.min_items && wi.len() >= rule.min_items {
            prev.push(evidence_result(items, rule, groups[k - 1], wi))
        } else {
            prev
        }
    }
}

/// What the evidence-cluster matcher gives: for each source (in order of
/// first appearance) whose evidence has at least `min_items` distinct
/// types, its evidence within the window after its first item, when there
/// are at least `min_items` such items.
pub open spec fn evidence_cluster_matches(items: Seq<EvidenceModel>, rule: RuleModel) -> Seq<ResultModel> {
    let groups = distinct_keys(source_keys(items));
    evidence_group_results(items, rule, groups, groups.len() as int)
}

/// The escalating subsequence of the first `k` listed events, with the
/// rank of its last member: an event joins when the list is empty, or when
/// its rank is at least the last member's.
pub open spec fn escalation(ev: Seq<ThreatEventModel>, s: Seq<usize>, k: int) -> (Seq<usize>, u8)
    decreases k,
{
    if k <= 0 {
        (Seq::empty(), 0)
    } else {
        let (l, prev) = escalation(ev, s, k - 1);
        let r = ev[s[k - 1] as int].severity.rank();
        if l.len() == 0 || r >= prev {
            (l.push(s[k - 1]), r)
        } else {
            (l, prev)
        }
    }
}

/// The result of an escalation.
pub open spec fn escalation_result(ev: Seq<ThreatEventModel>, rule: RuleModel, esc: Seq<usize>) -> ResultModel {
    ResultModel {
        rule_name: rule.name,
        kind: CorrelationKind::SeverityEscalation,
        events: pick_events(ev, esc),
        evidence: Seq::empty(),
        combined_severity: combined_name(ev, esc),
        title: "Severity escalation in "@ + (if esc.len() > 0 { ev[esc[0] as int].category.name() } else { Seq::empty() }),
        description: rule.description,
        entity_key: None,
    }
}

/// The results of the first `k` category groups for escalation.
pub open spec fn escalation_group_results(ev: Seq<ThreatEventModel>, rule: RuleModel, groups: Seq<Seq<char>>, k: int) -> Seq<ResultModel>
    decreases k,
{
    if k <= 0 {
        Seq::empty()
    } else {
        let prev = escalation_group_results(ev, rule, groups, k - 1);
        let m = key_members(category_names(ev), groups[k - 1]);
        let sorted = stable_sort(m, seq_key(timestamps(ev)));
        let esc = escalation(ev, sorted, sorted.len() as int).0;
        if sorted.len() >= rule.min_items && esc.len() >= rule.min_items {
            prev.push(escalation_result(ev, rule, esc))
        } else {
            prev
        }
    }
}

/// What the severity-escalation matcher gives: for each category (in order
/// of first appearance), its escalating events in time order, when there
/// are at least `min_items` of them.
pub open spec fn severity_escalation_matches(ev: Seq<ThreatEventModel>, rule: RuleModel) -> Seq<ResultModel> {
    let groups = distinct_keys(category_names(ev));
    escalation_group_results(ev, rule, groups, groups.len() as int)
}

/// What one rule gives.
pub open spec fn rule_matches(ev: Seq<ThreatEventModel>, items: Seq<EvidenceModel>, rule: RuleModel) -> Seq<ResultModel> {
    match rule.kind {
        CorrelationKind::CoOccurrence => co_occurrence_matches(ev, rule),
        CorrelationKind::CategoryChain => category_chain_matches(ev, rule),
        CorrelationKind::EntityCluster => entity_cluster_matches(ev, rule),
        CorrelationKind::EvidenceCluster => evidence_cluster_matches(items, rule),
        CorrelationKind::TimeWindow => time_window_matches(ev, rule),
        CorrelationKind::SeverityEscalation => severity_escalation_matches(ev, rule),
    }
}

/// What the first `k` rules give, enabled rules only, in rule order.
pub open spec fn all_matches(ev: Seq<ThreatEventModel>, items: Seq<EvidenceModel>, rules: Seq<RuleModel>, k: int) -> Seq<ResultModel>
    decreases k,
{
    if k <= 0 {
        Seq::empty()
    } else {
        let prev = all_matches(ev, items, rules, k - 1);
        if rules[k - 1].enabled {
            prev + rule_matches(ev, items, rules[k - 1])
        } else {
            prev
        }
    }
}

/// What identifies a result for de-duplication: its rule's name and the
/// ids of its events followed by the ids of its evidence.
#[verifier::opaque]
pub open spec fn signature(r: ResultModel) -> (Seq<char>, Seq<u128>) {
    (r.rule_name, Seq::new(r.events.len(), |i: int| r.events[i].id)
        + Seq::new(r.evidence.len(), |i: int| r.evidence[i].id))
}

/// Walking the first `n` results in order, the results whose signature
/// had not been seen yet, and the set of signatures seen.
pub open spec fn dedup_state(rs: Seq<ResultModel>, n: int) -> (Seq<ResultModel>, Set<(Seq<char>, Seq<u128>)>)
    decreases n,
{
    if n <= 0 {
        (Seq::empty(), Set::empty())
    } else {
        let (kept, seen) = dedup_state(rs, n - 1);
        let sig = signature(rs[n - 1]);
        if seen.contains(sig) {
            (kept, seen)
        } else {
            (kept.push(rs[n - 1]), seen.insert(sig))
        }
    }
}

/// The first `n` results without those whose signature an earlier result has.
pub open spec fn dedup(rs: Seq<ResultModel>, n: int) -> Seq<ResultModel> {
    dedup_state(rs, n).0
}

/// What `correlate` gives.
pub open spec fn correlation(ev: Seq<ThreatEventModel>, items: Seq<EvidenceModel>, rules: Seq<RuleModel>) -> Seq<ResultModel> {
    let all = all_matches(ev, items, rules, rules.len() as int);
    dedup(all, all.len() as int)
}

/// A rule whose matcher builds a time span from its window has a window
/// small enough for that.
pub open spec fn rule_window_ok(r: RuleModel, ev: Seq<ThreatEventModel>, items: Seq<EvidenceModel>) -> bool {
    window_compared(r, ev, items) ==> window_in_range(r.time_window_seconds)
}

/// Whether matching rule `r` compares times with its window as a time
/// span: a co-occurrence rule with at least `min_items` and at least two
/// events, a time-window rule with at least two events, an entity-cluster
/// rule with an entity of at least `min_items` events, and an
/// evidence-cluster rule with a source of at least `min_items` distinct
/// evidence types.
pub open spec fn window_compared(r: RuleModel, ev: Seq<ThreatEventModel>, items: Seq<EvidenceModel>) -> bool {
    &&& r.enabled
    &&& match r.kind {
        CorrelationKind::CoOccurrence => ev.len() >= r.min_items && ev.len() >= 2,
        CorrelationKind::TimeWindow => ev.len() >= 2,
        CorrelationKind::EntityCluster => exists|i: int| 0 <= i < ev.len()
            && #[trigger] key_members(entity_keys(ev), entity_keys(ev)[i]).len() >= r.min_items,
        CorrelationKind::EvidenceCluster => exists|i: int| 0 <= i < items.len()
            && source_fires_types(items, r, #[trigger] source_keys(items)[i]),
        _ => false,
    }
}

/// Whether the evidence from source `s` has at least `min_items` distinct
/// types.
pub open spec fn source_fires_types(items: Seq<EvidenceModel>, r: RuleModel, s: Seq<char>) -> bool {
    let m = key_members(source_keys(items), s);
    types_prefix(items, m, m.len() as int).len() >= r.min_items
}


/// The rules a new engine holds.
pub open spec fn default_correlation_rules() -> Seq<RuleModel> {
    seq![
        RuleModel {
            name: "multi_indicator"@,
            description: "Detects when 3 or more threat events fire in a short time window"@,
            kind: CorrelationKind::CoOccurrence,
            min_items: 3,
            time_window_seconds: 300,
            enabled: true,
        },
        RuleModel {
            name: "privilege_escalation_chain"@,
            description: "Detects privilege escalation followed by persistence mechanism"@,
            kind: CorrelationKind::CategoryChain,
            min_items: 2,
            time_window_seconds: 600,
            enabled: true,
        },
        RuleModel {
            name: "rootkit_indicators"@,
            description: "Detects hook + hidden process + integrity violation together"@,
            kind: CorrelationKind::CoOccurrence,
            min_items: 3,
            time_window_seconds: 300,
            enabled: true,
        },
        RuleModel {
            name: "process_anomaly_cluster"@,
            description: "Detects multiple events from the same process suggesting compromise"@,
            kind: CorrelationKind::EntityCluster,
            min_items: 3,
            time_window_seconds: 600,
            enabled: true,
        },
        RuleModel {
            name: "cross_detector_evidence"@,
            description: "Detects evidence from multiple detector types for the same entity"@,
            kind: CorrelationKind::EvidenceCluster,
            min_items: 2,
            time_window_seconds: 300,
            enabled: true,
        },
        RuleModel {
            name: "severity_escalation"@,
            description: "Detects escalating severity levels for the same category"@,
            kind: CorrelationKind::SeverityEscalation,
            min_items: 3,
            time_window_seconds: 600,
            enabled: true,
        },
    ]
}

/// A window is small enough to be built as a time span without overflow.
pub open spec fn window_in_range(w: i64) -> bool {
    -(i64::MAX / 1000) <= w <= i64::MAX / 1000
}


/// Counts of the current correlation results.
pub struct CorrelationStats {
    pub total_correlations: usize,
    pub by_rule: Vec<(String, usize)>,
    pub by_kind: Vec<(String, usize)>,
}

impl CorrelationResult {
    /// A copy of the result.
    pub fn duplicate(&self) -> (r: CorrelationResult)
        ensures
            r.essence() == self.essence(),
            r.id == self.id,
            r.timestamp == self.timestamp,
    {
        let mut events: Vec<ThreatEvent> = Vec::new();
        let mut i: usize = 0;
        while i < self.matched_events.len()
            invariant
                i <= self.matched_events.len(),
                events@.len() == i,
                forall|k: int| 0 <= k < i ==> events@[k]@ == self.matched_events@[k]@,
            decreases self.matched_events.len() - i,
        {
            events.push(self.matched_events[i].duplicate());
            i += 1;
        }
        let mut evidence: Vec<EvidenceSummary> = Vec::new();
        let mut j: usize = 0;
        while j < self.matched_evidence.len()
            invariant
                j <= self.matched_evidence.len(),
                evidence@.len() == j,
                forall|k: int| 0 <= k < j ==> evidence@[k]@ == self.matched_evidence@[k]@,
            decreases self.matched_evidence.len() - j,
        {
            let e = &self.matched_evidence[j];
            evidence.push(EvidenceSummary {
                id: e.id,
                evidence_type: e.evidence_type.clone(),
                severity: e.severity.clone(),
                source: e.source.clone(),
                description: e.description.clone(),
                confidence: e.confidence,
            });
            j += 1;
        }
        let entity_key = match &self.entity_key {
            Some(k) => Some(k.clone()),
            None => None,
        };
        let r = CorrelationResult {
            id: self.id,
            rule_name: self.rule_name.clone(),
            kind: self.kind,
            matched_events: events,
            matched_evidence: evidence,
            combined_severity: self.combined_severity.clone(),
            title: self.title.clone(),
            description: self.description.clone(),
            timestamp: self.timestamp,
            entity_key,
        };
        assert(events_view(r.matched_events@) =~= events_view(self.matched_events@));
        assert(summaries_view(r.matched_evidence@) =~= summaries_view(self.matched_evidence@));
        r
    }

    /// The ids of the result's events followed by those of its evidence.
    fn signature_ids(&self) -> (ids: Vec<u128>)
        ensures
            ids@ == signature(self.essence()).1,
    {
        let mut ids: Vec<u128> = Vec::new();
        let mut i: usize = 0;
        while i < self.matched_events.len()
            invariant
                i <= self.matched_events.len(),
                ids@ == Seq::new(i as nat, |k: int| self.matched_events@[k].id),
            decreases self.matched_events.len() - i,
        {
            ids.push(self.matched_events[i].id);
            assert(ids@ =~= Seq::new((i + 1) as nat, |k: int| self.matched_events@[k].id));
            i += 1;
        }
        let n = ids.len();
        let mut j: usize = 0;
        while j < self.matched_evidence.len()
            invariant
                j <= self.matched_evidence.len(),
                n == self.matched_events@.len(),
                ids@ == Seq::new(n as nat, |k: int| self.matched_events@[k].id)
                    + Seq::new(j as nat, |k: int| self.matched_evidence@[k].id),
            decreases self.matched_evidence.len() - j,
        {
            ids.push(self.matched_evidence[j].id);
            assert(ids@ =~= Seq::new(n as nat, |k: int| self.matched_events@[k].id)
                + Seq::new((j + 1) as nat, |k: int| self.matched_evidence@[k].id));
            j += 1;
        }
        let ghost e = self.essence();
        reveal(signature);
        assert(Seq::new(n as nat, |k: int| self.matched_events@[k].id) =~= Seq::new(e.events.len(), |k: int| e.events[k].id));
        assert(Seq::new(self.matched_evidence@.len(), |k: int| self.matched_evidence@[k].id) =~= Seq::new(e.evidence.len(), |k: int| e.evidence[k].id));
        ids
    }
}

/// Whether two id lists are equal.
fn same_ids(a: &Vec<u128>, b: &Vec<u128>) -> (r: bool)
    ensures
        r == (a@ == b@),
{
    if a.len() != b.len() {
        return false;
    }
    let mut i: usize = 0;
    while i < a.len()
        invariant
            i <= a.len(),
            a@.len() == b@.len(),
            forall|k: int| 0 <= k < i ==> a@[k] == b@[k],
        decreases a.len() - i,
    {
        if a[i] != b[i] {
            return false;
        }
        i += 1;
    }
    assert(a@ =~= b@);
    true
}

/// The correlation engine: it holds threat events, evidence and rules, and
/// matches the rules against what it holds.
pub struct CorrelationEngine {
    pub events: Vec<ThreatEvent>,
    pub evidence_items: Vec<Evidence>,
    pub rules: Vec<CorrelationRule>,
    pub results: Vec<CorrelationResult>,
}



/// Whether a recorded signature equals `(name, sig)`.
fn seen_before(names: &Vec<String>, ids: &Vec<Vec<u128>>, name: &String, sig: &Vec<u128>) -> (found: bool)
    requires
        names@.len() == ids@.len(),
    ensures
        found == exists|q: int| 0 <= q < names@.len() && (#[trigger] names@[q]@, ids@[q]@) == (name@, sig@),
{
    let mut k: usize = 0;
    while k < names.len()
        invariant
            k <= names@.len(),
            names@.len() == ids@.len(),
            forall|q: int| 0 <= q < k ==> (#[trigger] names@[q]@, ids@[q]@) != (name@, sig@),
        decreases names.len() - k,
    {
        if names[k] == *name && same_ids(&ids[k], sig) {
            assert((names@[k as int]@, ids@[k as int]@) == (name@, sig@));
            return true;
        }
        k += 1;
    }
    false
}

/// The results without those whose signature an earlier result has.
fn dedup_results(all: &Vec<CorrelationResult>) -> (out: Vec<CorrelationResult>)
    ensures
        essences(out@) == dedup(essences(all@), all@.len() as int),
{
    let ghost allv = essences(all@);
    let mut out: Vec<CorrelationResult> = Vec::new();
    let mut names: Vec<String> = Vec::new();
    let mut ids: Vec<Vec<u128>> = Vec::new();
    assert(essences(out@) =~= Seq::<ResultModel>::empty());
    let mut i: usize = 0;
    while i < all.len()
        invariant
            i <= all@.len(),
            allv == essences(all@),
            essences(out@) == dedup_state(allv, i as int).0,
            names@.len() == ids@.len(),
            forall|x: (Seq<char>, Seq<u128>)| dedup_state(allv, i as int).1.contains(x) <==>
                exists|q: int| 0 <= q < names@.len() && (#[trigger] names@[q]@, ids@[q]@) == x,
        decreases all.len() - i,
    {
        let ghost before = essences(out@);
        let ghost seen = dedup_state(allv, i as int).1;
        let r = &all[i];
        let sig = r.signature_ids();
        let found = seen_before(&names, &ids, &r.rule_name, &sig);
        assert(allv[i as int] == r.essence());
        assert(signature(allv[i as int]) == (r.rule_name@, sig@)) by {
            reveal(signature);
        }
        if !found {
            let ghost old_names = names@;
            let ghost old_ids = ids@;
            names.push(r.rule_name.clone());
            ids.push(sig);
            out.push(r.duplicate());
            assert(essences(out@) =~= before.push(allv[i as int]));
            assert forall|x: (Seq<char>, Seq<u128>)| seen.insert(signature(allv[i as int])).contains(x) <==>
                exists|q: int| 0 <= q < names@.len() && (#[trigger] names@[q]@, ids@[q]@) == x by {
                if seen.contains(x) {
                    let q = choose|q: int| 0 <= q < old_names.len() && (#[trigger] old_names[q]@, old_ids[q]@) == x;
                    assert((names@[q]@, ids@[q]@) == x);
                }
                if x == signature(allv[i as int]) {
                    assert((names@[old_names.len() as int]@, ids@[old_names.len() as int]@) == x);
                }
                if exists|q: int| 0 <= q < names@.len() && (#[trigger] names@[q]@, ids@[q]@) == x {
                    let q = choose|q: int| 0 <= q < names@.len() && (#[trigger] names@[q]@, ids@[q]@) == x;
                    if q < old_names.len() {
                        assert((old_names[q]@, old_ids[q]@) == x);
                    }
                }
            }
        }
        i += 1;
    }
    out
}

fn concat_text(a: &str, b: &str) -> (r: String)
    ensures
        r@ == a@ + b@,
{
    let mut s = a.to_owned();
    push_str(&mut s, b);
    s
}

impl CorrelationEngine {
    pub open spec fn ev(&self) -> Seq<ThreatEventModel> {
        events_view(self.events@)
    }

    pub open spec fn items(&self) -> Seq<EvidenceModel> {
        evidence_view(self.evidence_items@)
    }

    /// The timestamps of the held events.
    fn event_times(&self) -> (ts: Vec<i64>)
        ensures
            ints(ts@) == timestamps(self.ev()),
    {
        let mut ts: Vec<i64> = Vec::new();
        let mut i: usize = 0;
        while i < self.events.len()
            invariant
                i <= self.events.len(),
                ts@.len() == i,
                forall|k: int| 0 <= k < i ==> ts@[k] == self.events@[k].timestamp,
            decreases self.events.len() - i,
        {
            ts.push(self.events[i].timestamp);
            i += 1;
        }
        assert(ints(ts@) =~= timestamps(self.ev()));
        ts
    }

    /// The event positions ordered by time, ties keeping position order.
    fn sorted_event_indices(&self) -> (r: Vec<usize>)
        ensures
            r@ == time_order(self.ev()),
            r@.len() == self.events@.len(),
            forall|j: int| 0 <= j < r@.len() ==> r@[j] < self.events@.len(),
    {
        let ts = self.event_times();
        let mut all: Vec<usize> = Vec::new();
        let mut i: usize = 0;
        while i < self.events.len()
            invariant
                i <= self.events.len(),
                all@ == range(i as nat),
            decreases self.events.len() - i,
        {
            all.push(i);
            assert(all@ =~= range((i + 1) as nat));
            i += 1;
        }
        assert(ints(ts@).len() == timestamps(self.ev()).len());
        assert forall|j: int| 0 <= j < all@.len() implies all@[j] < ts@.len() by {
            assert(all@[j] == j);
        }
        stable_sort_by_key(&all, &ts)
    }

    /// Where the cluster starting at position `i` of `idx` ends.
    fn cluster_end(&self, idx: &Vec<usize>, i: usize, w: i64) -> (e: usize)
        requires
            i < idx@.len(),
            forall|j: int| 0 <= j < idx@.len() ==> idx@[j] < self.events@.len(),
        ensures
            e == scan_end(self.ev(), idx@, i as int, i + 1, w),
            i < e <= idx@.len(),
    {
        let base = self.events[idx[i]].timestamp;
        let n = idx.len();
        let mut j: usize = i + 1;
        while j < idx.len()
            invariant
                i < j <= idx@.len(),
                forall|k: int| 0 <= k < idx@.len() ==> idx@[k] < self.events@.len(),
                base == self.ev()[idx@[i as int] as int].timestamp,
                scan_end(self.ev(), idx@, i as int, i + 1, w) == scan_end(self.ev(), idx@, i as int, j as int, w),
            decreases idx.len() - j,
        {
            let diff = self.events[idx[j]].timestamp as i128 - base as i128;
            if diff > w as i128 * MICROS_PER_SECOND as i128 {
                return j;
            }
            j += 1;
        }
        j
    }

    /// The highest severity among the listed events.
    fn max_severity(&self, m: &Vec<usize>) -> (s: Severity)
        requires
            forall|j: int| 0 <= j < m@.len() ==> m@[j] < self.events@.len(),
        ensures
            s == severity_of_rank(max_rank(self.ev(), m@)),
    {
        let mut best: u8 = 0;
        let mut k: usize = 0;
        while k < m.len()
            invariant
                k <= m@.len(),
                forall|j: int| 0 <= j < m@.len() ==> m@[j] < self.events@.len(),
                best == max_rank(self.ev(), m@.take(k as int)),
                best <= 4,
            decreases m.len() - k,
        {
            let r = self.events[m[k]].severity.rank_of();
            assert(m@.take(k + 1).drop_last() =~= m@.take(k as int));
            if r > best {
                best = r;
            }
            k += 1;
        }
        assert(m@.take(m.len() as int) =~= m@);
        if best == 0 {
            Severity::Info
        } else if best == 1 {
            Severity::Low
        } else if best == 2 {
            Severity::Medium
        } else if best == 3 {
            Severity::High
        } else {
            Severity::Critical
        }
    }

    /// Copies of the listed events.
    fn pick(&self, m: &Vec<usize>) -> (r: Vec<ThreatEvent>)
        requires
            forall|j: int| 0 <= j < m@.len() ==> m@[j] < self.events@.len(),
        ensures
            events_view(r@) == pick_events(self.ev(), m@),
    {
        let mut r: Vec<ThreatEvent> = Vec::new();
        let mut k: usize = 0;
        while k < m.len()
            invariant
                k <= m@.len(),
                forall|j: int| 0 <= j < m@.len() ==> m@[j] < self.events@.len(),
                r@.len() == k,
                forall|j: int| 0 <= j < k ==> r@[j]@ == self.ev()[m@[j] as int],
            decreases m.len() - k,
        {
            r.push(self.events[m[k]].duplicate());
            k += 1;
        }
        assert(events_view(r@) =~= pick_events(self.ev(), m@));
        r
    }

    /// `prefix` followed by the titles of the listed events joined by `sep`.
    fn join_titles(&self, prefix: String, m: &Vec<usize>, sep: &str) -> (r: String)
        requires
            forall|j: int| 0 <= j < m@.len() ==> m@[j] < self.events@.len(),
        ensures
            r@ == prefix@ + join(titles(self.ev(), m@), sep@),
    {
        let mut d = prefix;
        let ghost p = d@;
        let mut k: usize = 0;
        while k < m.len()
            invariant
                k <= m@.len(),
                forall|j: int| 0 <= j < m@.len() ==> m@[j] < self.events@.len(),
                d@ == p + join(titles(self.ev(), m@).take(k as int), sep@),
            decreases m.len() - k,
        {
            proof {
                lemma_join_push(titles(self.ev(), m@).take(k as int), sep@, self.ev()[m@[k as int] as int].title);
                assert(titles(self.ev(), m@).take(k + 1) =~= titles(self.ev(), m@).take(k as int).push(self.ev()[m@[k as int] as int].title));
            }
            if k > 0 {
                push_str(&mut d, sep);
            }
            push_str(&mut d, self.events[m[k]].title.as_str());
            k += 1;
        }
        assert(titles(self.ev(), m@).take(m.len() as int) =~= titles(self.ev(), m@));
        d
    }

    /// Whether one of the listed events has category `c`.
    fn any_category(&self, m: &Vec<usize>, c: ThreatCategory) -> (b: bool)
        requires
            forall|j: int| 0 <= j < m@.len() ==> m@[j] < self.events@.len(),
        ensures
            b == has_category(self.ev(), m@, c),
    {
        let mut k: usize = 0;
        while k < m.len()
            invariant
                k <= m@.len(),
                forall|j: int| 0 <= j < m@.len() ==> m@[j] < self.events@.len(),
                forall|j: int| 0 <= j < k ==> self.ev()[m@[j] as int].category != c,
            decreases m.len() - k,
        {
            if self.events[m[k]].category == c {
                return true;
            }
            k += 1;
        }
        false
    }

    /// The matches of a co-occurrence (`co_occurrence`) or time-window rule.
    fn match_windows(&self, rule: &CorrelationRule, co_occurrence: bool) -> (r: Vec<CorrelationResult>)
        ensures
            essences(r@) == window_results(self.ev(), time_order(self.ev()), rule@, self.ev().len() as int, co_occurrence),
    {
        let idx = self.sorted_event_indices();
        let ghost ev = self.ev();
        let ghost rv = rule@;
        let mut results: Vec<CorrelationResult> = Vec::new();
        let mut i: usize = 0;
        while i < idx.len()
            invariant
                i <= idx@.len(),
                ev == self.ev(),
                rv == rule@,
                idx@ == time_order(ev),
                idx@.len() == self.events@.len(),
                forall|j: int| 0 <= j < idx@.len() ==> idx@[j] < self.events@.len(),
                essences(results@) == window_results(ev, idx@, rv, i as int, co_occurrence),
            decreases idx.len() - i,
        {
            let e = self.cluster_end(&idx, i, rule.time_window_seconds);
            let mut c: Vec<usize> = Vec::new();
            let mut j: usize = i;
            while j < e
                invariant
                    i <= j <= e <= idx@.len(),
                    forall|k: int| 0 <= k < idx@.len() ==> idx@[k] < self.events@.len(),
                    c@ == idx@.subrange(i as int, j as int),
                decreases e - j,
            {
                c.push(idx[j]);
                assert(c@ =~= idx@.subrange(i as int, j + 1));
                j += 1;
            }
            assert(c@ == cluster(ev, idx@, i as int, rule.time_window_seconds));
            assert forall|k: int| 0 <= k < c@.len() implies c@[k] < self.events@.len() by {
                assert(c@[k] == idx@[i + k]);
            }
            let ghost before = essences(results@);
            let fires = if co_occurrence {
                let big = c.len() >= rule.min_items;
                if big && str_eq(rule.name.as_str(), "rootkit_indicators") {
                    self.any_category(&c, ThreatCategory::HookDetected)
                        && self.any_category(&c, ThreatCategory::HiddenProcess)
                        && self.any_category(&c, ThreatCategory::IntegrityViolation)
                } else {
                    big
                }
            } else {
                c.len() >= rule.min_items
            };
            if fires {
                let sev = self.max_severity(&c);
                let events = self.pick(&c);
                let res = if co_occurrence {
                    let title = concat_text(rule.name.as_str(), ": correlated threat");
                    let prefix = concat_text(rule.description.as_str(), " - triggered by: ");
                    let description = self.join_titles(prefix, &c, ", ");
                    CorrelationResult {
                        id: new_id(),
                        rule_name: rule.name.clone(),
                        kind: CorrelationKind::CoOccurrence,
                        matched_events: events,
                        matched_evidence: Vec::new(),
                        combined_severity: sev.as_str().to_owned(),
                        title,
                        description,
                        timestamp: now_micros(),
                        entity_key: None,
                    }
                } else {
                    CorrelationResult {
                        id: new_id(),
                        rule_name: rule.name.clone(),
                        kind: CorrelationKind::TimeWindow,
                        matched_events: events,
                        matched_evidence: Vec::new(),
                        combined_severity: sev.as_str().to_owned(),
                        title: "Events within time window".to_owned(),
                        description: rule.description.clone(),
                        timestamp: now_micros(),
                        entity_key: None,
                    }
                };
                proof {
                    if co_occurrence {
                        assert(res.essence() == co_result(ev, rv, c@)) by {
                            assert(summaries_view(res.matched_evidence@) =~= Seq::<SummaryModel>::empty());
                        }
                    } else {
                        assert(res.essence() == tw_result(ev, rv, c@)) by {
                            assert(summaries_view(res.matched_evidence@) =~= Seq::<SummaryModel>::empty());
                        }
                    }
                }
                results.push(res);
                assert(essences(results@) =~= before.push(res.essence()));
            }
            i += 1;
        }
        results
    }


    /// The category names of the held events.
    fn category_keys(&self) -> (r: Vec<String>)
        ensures
            strings_view(r@) == category_names(self.ev()),
    {
        let mut r: Vec<String> = Vec::new();
        let mut i: usize = 0;
        while i < self.events.len()
            invariant
                i <= self.events.len(),
                r@.len() == i,
                forall|k: int| 0 <= k < i ==> r@[k]@ == self.ev()[k].category.name(),
            decreases self.events.len() - i,
        {
            r.push(self.events[i].category.as_str().to_owned());
            i += 1;
        }
        assert(strings_view(r@) =~= category_names(self.ev()));
        r
    }

    /// The entity keys of the held events.
    fn entity_key_strings(&self) -> (r: Vec<String>)
        ensures
            strings_view(r@) == entity_keys(self.ev()),
    {
        let mut r: Vec<String> = Vec::new();
        let mut i: usize = 0;
        while i < self.events.len()
            invariant
                i <= self.events.len(),
                r@.len() == i,
                forall|k: int| 0 <= k < i ==> r@[k]@ == entity_key(self.ev()[k]),
            decreases self.events.len() - i,
        {
            let key = match &self.events[i].process {
                Some(p) => {
                    let mut k = String::new();
                    push_decimal(&mut k, p.pid as u64);
                    k
                },
                None => self.events[i].source_detector.clone(),
            };
            r.push(key);
            i += 1;
        }
        assert(strings_view(r@) =~= entity_keys(self.ev()));
        r
    }

    /// The positions of held events with category `c`.
    fn category_positions(&self, c: ThreatCategory) -> (r: Vec<usize>)
        ensures
            r@ == cat_members(self.ev(), c),
            forall|j: int| 0 <= j < r@.len() ==> r@[j] < self.events@.len(),
    {
        let mut r: Vec<usize> = Vec::new();
        let mut i: usize = 0;
        while i < self.events.len()
            invariant
                i <= self.events.len(),
                r@ == cat_prefix(self.ev(), c, i as int),
                forall|j: int| 0 <= j < r@.len() ==> r@[j] < i,
            decreases self.events.len() - i,
        {
            if self.events[i].category == c {
                r.push(i);
            }
            i += 1;
        }
        r
    }

    /// Whether some privilege escalation is followed by a persistence
    /// mechanism within `w` seconds.
    fn escalation_then_persistence(&self, w: i64) -> (b: bool)
        ensures
            b == escalation_followed(self.ev(), w),
    {
        let ghost ev = self.ev();
        let n = self.events.len();
        let mut a: usize = 0;
        while a < n
            invariant
                a <= n,
                n == ev.len(),
                ev == self.ev(),
                forall|i: int, j: int| 0 <= i < a ==> !#[trigger] chain_pair(ev, w, i, j),
            decreases n - a,
        {
            let mut b: usize = 0;
            while b < n
                invariant
                    a < n,
                    b <= n,
                    n == ev.len(),
                    ev == self.ev(),
                    forall|j: int| 0 <= j < b ==> !#[trigger] chain_pair(ev, w, a as int, j),
                decreases n - b,
            {
                let ta = self.events[a].timestamp;
                let tb = self.events[b].timestamp;
                let span: i128 = w as i128 * MICROS_PER_SECOND as i128;
                assert(span == window(w));
                if self.events[a].category == ThreatCategory::PrivilegeEscalation
                    && self.events[b].category == ThreatCategory::PersistenceMechanism
                    && ta <= tb
                    && (tb as i128 - ta as i128) <= span {
                    assert(chain_pair(ev, w, a as int, b as int));
                    return true;
                }
                b += 1;
            }
            assert forall|i: int, j: int| 0 <= i < a + 1 implies !#[trigger] chain_pair(ev, w, i, j) by {
                if i == a && chain_pair(ev, w, i, j) {
                    assert(0 <= j < b);
                }
            }
            a += 1;
        }
        assert forall|i: int, j: int| !#[trigger] chain_pair(ev, w, i, j) by {
            if chain_pair(ev, w, i, j) {
                assert(0 <= i < a);
            }
        }
        false
    }

    /// The matches of a category-chain rule.
    pub fn match_category_chain(&self, rule: &CorrelationRule) -> (r: Vec<CorrelationResult>)
        ensures
            essences(r@) == category_chain_matches(self.ev(), rule@),
    {
        let ghost ev = self.ev();
        let mut results: Vec<CorrelationResult> = Vec::new();
        if str_eq(rule.name.as_str(), "privilege_escalation_chain") {
            let pe = self.category_positions(ThreatCategory::PrivilegeEscalation);
            let pers = self.category_positions(ThreatCategory::PersistenceMechanism);
            if self.escalation_then_persistence(rule.time_window_seconds) {
                let mut chain = pe.clone();
                let mut k: usize = 0;
                while k < pers.len()
                    invariant
                        k <= pers@.len(),
                        chain@ == pe@ + pers@.take(k as int),
                    decreases pers.len() - k,
                {
                    chain.push(pers[k]);
                    assert(pe@ + pers@.take(k + 1) =~= (pe@ + pers@.take(k as int)).push(pers@[k as int]));
                    k += 1;
                }
                assert(pers@.take(pers.len() as int) =~= pers@);
                let ts = self.event_times();
                assert forall|j: int| 0 <= j < chain@.len() implies chain@[j] < ts@.len() by {
                    assert(ints(ts@).len() == timestamps(self.ev()).len());
                    if j < pe@.len() {
                        assert(chain@[j] == pe@[j]);
                    } else {
                        assert(chain@[j] == pers@[j - pe@.len()]);
                    }
                }
                let sorted = stable_sort_by_key(&chain, &ts);
                assert(ints(ts@).len() == timestamps(self.ev()).len());
                let events = self.pick(&sorted);
                let res = CorrelationResult {
                    id: new_id(),
                    rule_name: rule.name.clone(),
                    kind: CorrelationKind::CategoryChain,
                    matched_events: events,
                    matched_evidence: Vec::new(),
                    combined_severity: "critical".to_owned(),
                    title: "Privilege escalation chain detected".to_owned(),
                    description: "Privilege escalation followed by persistence mechanism installation".to_owned(),
                    timestamp: now_micros(),
                    entity_key: None,
                };
                assert(summaries_view(res.matched_evidence@) =~= Seq::<SummaryModel>::empty());
                assert(res.essence() == chain_result(ev, rule@, stable_sort(pe@ + pers@, seq_key(timestamps(ev)))));
                results.push(res);
                assert(essences(results@) =~= seq![res.essence()]);
            } else {
                assert(essences(results@) =~= Seq::<ResultModel>::empty());
            }
            return results;
        }
        let keys = self.category_keys();
        let groups = distinct(&keys);
        let mut g: usize = 0;
        assert(essences(results@) =~= Seq::<ResultModel>::empty());
        while g < groups.len()
            invariant
                g <= groups@.len(),
                ev == self.ev(),
                rule@.name != "privilege_escalation_chain"@,
                strings_view(keys@) == category_names(ev),
                strings_view(groups@) == distinct_keys(category_names(ev)),
                essences(results@) == category_group_results(ev, rule@, strings_view(groups@), g as int),
            decreases groups.len() - g,
        {
            let m = members_of(&keys, &groups[g]);
            assert(strings_view(groups@)[g as int] == groups@[g as int]@);
            assert forall|j: int| 0 <= j < m@.len() implies m@[j] < self.events@.len() by {
                assert(strings_view(keys@).len() == category_names(ev).len());
            }
            if m.len() >= rule.min_items {
                let sev = self.max_severity(&m);
                let events = self.pick(&m);
                let mut title = "Multiple ".to_owned();
                push_str(&mut title, groups[g].as_str());
                push_str(&mut title, " events");
                let res = CorrelationResult {
                    id: new_id(),
                    rule_name: rule.name.clone(),
                    kind: CorrelationKind::CategoryChain,
                    matched_events: events,
                    matched_evidence: Vec::new(),
                    combined_severity: sev.as_str().to_owned(),
                    title,
                    description: rule.description.clone(),
                    timestamp: now_micros(),
                    entity_key: None,
                };
                assert(summaries_view(res.matched_evidence@) =~= Seq::<SummaryModel>::empty());
                assert(res.essence() == category_group_result(ev, rule@, groups@[g as int]@, m@));
                let ghost before = essences(results@);
                results.push(res);
                assert(essences(results@) =~= before.push(res.essence()));
            }
            g += 1;
        }
        results
    }

    /// The items of `m` (positions into `times`) whose time is at most the
    /// window after that of the first one.
    fn window_filter(times: &Vec<i64>, m: &Vec<usize>, w: i64) -> (r: Vec<usize>)
        requires
            forall|j: int| 0 <= j < m@.len() ==> m@[j] < times@.len(),
        ensures
            r@ == window_members(ints(times@), m@, w),
            forall|j: int| 0 <= j < r@.len() ==> r@[j] < times@.len(),
    {
        let mut r: Vec<usize> = Vec::new();
        if m.len() == 0 {
            return r;
        }
        let base = times[m[0]];
        let mut k: usize = 0;
        while k < m.len()
            invariant
                k <= m@.len(),
                m@.len() > 0,
                forall|j: int| 0 <= j < m@.len() ==> m@[j] < times@.len(),
                base == times@[m@[0] as int],
                r@ == within_window(ints(times@), m@, base as int, w, k as int),
                forall|j: int| 0 <= j < r@.len() ==> r@[j] < times@.len(),
            decreases m.len() - k,
        {
            let diff = times[m[k]] as i128 - base as i128;
            if diff <= w as i128 * MICROS_PER_SECOND as i128 {
                r.push(m[k]);
            }
            k += 1;
        }
        r
    }

    /// The matches of an entity-cluster rule.
    pub fn match_entity_cluster(&self, rule: &CorrelationRule) -> (r: Vec<CorrelationResult>)
        ensures
            essences(r@) == entity_cluster_matches(self.ev(), rule@),
    {
        let ghost ev = self.ev();
        let ts = self.event_times();
        let keys = self.entity_key_strings();
        let groups = distinct(&keys);
        let mut results: Vec<CorrelationResult> = Vec::new();
        let mut g: usize = 0;
        assert(essences(results@) =~= Seq::<ResultModel>::empty());
        while g < groups.len()
            invariant
                g <= groups@.len(),
                ev == self.ev(),
                ints(ts@) == timestamps(ev),
                strings_view(keys@) == entity_keys(ev),
                strings_view(groups@) == distinct_keys(entity_keys(ev)),
                essences(results@) == entity_group_results(ev, rule@, strings_view(groups@), g as int),
            decreases groups.len() - g,
        {
            let m = members_of(&keys, &groups[g]);
            assert(strings_view(groups@)[g as int] == groups@[g as int]@);
            assert(ints(ts@).len() == timestamps(ev).len());
            assert(strings_view(keys@).len() == entity_keys(ev).len());
            if m.len() >= rule.min_items {
                let wi = Self::window_filter(&ts, &m, rule.time_window_seconds);
                if wi.len() >= rule.min_items {
                    let sev = self.max_severity(&wi);
                    let events = self.pick(&wi);
                    let title = concat_text("Multiple threats from entity ", groups[g].as_str());
                    let prefix = concat_text(rule.description.as_str(), " - events: ");
                    let description = self.join_titles(prefix, &wi, ", ");
                    let res = CorrelationResult {
                        id: new_id(),
                        rule_name: rule.name.clone(),
                        kind: CorrelationKind::EntityCluster,
                        matched_events: events,
                        matched_evidence: Vec::new(),
                        combined_severity: sev.as_str().to_owned(),
                        title,
                        description,
                        timestamp: now_micros(),
                        entity_key: Some(groups[g].clone()),
                    };
                    assert(summaries_view(res.matched_evidence@) =~= Seq::<SummaryModel>::empty());
                    assert(res.essence() == entity_result(ev, rule@, groups@[g as int]@, wi@));
                    let ghost before = essences(results@);
                    results.push(res);
                    assert(essences(results@) =~= before.push(res.essence()));
                }
            }
            g += 1;
        }
        results
    }

    /// The sources of the held evidence.
    fn source_key_strings(&self) -> (r: Vec<String>)
        ensures
            strings_view(r@) == source_keys(self.items()),
    {
        let mut r: Vec<String> = Vec::new();
        let mut i: usize = 0;
        while i < self.evidence_items.len()
            invariant
                i <= self.evidence_items.len(),
                r@.len() == i,
                forall|k: int| 0 <= k < i ==> r@[k]@ == self.items()[k].source,
            decreases self.evidence_items.len() - i,
        {
            r.push(self.evidence_items[i].source.clone());
            i += 1;
        }
        assert(strings_view(r@) =~= source_keys(self.items()));
        r
    }

    /// The times of the held evidence.
    fn item_times_vec(&self) -> (ts: Vec<i64>)
        ensures
            ints(ts@) == item_times(self.items()),
    {
        let mut ts: Vec<i64> = Vec::new();
        let mut i: usize = 0;
        while i < self.evidence_items.len()
            invariant
                i <= self.evidence_items.len(),
                ts@.len() == i,
                forall|k: int| 0 <= k < i ==> ts@[k] == self.evidence_items@[k].timestamp,
            decreases self.evidence_items.len() - i,
        {
            ts.push(self.evidence_items[i].timestamp);
            i += 1;
        }
        assert(ints(ts@) =~= item_times(self.items()));
        ts
    }

    /// The number of distinct evidence types among the listed items.
    fn type_count(&self, m: &Vec<usize>) -> (n: usize)
        requires
            forall|j: int| 0 <= j < m@.len() ==> m@[j] < self.evidence_items@.len(),
        ensures
            n == types_prefix(self.items(), m@, m@.len() as int).len(),
    {
        let mut seen: Vec<EvidenceType> = Vec::new();
        let mut k: usize = 0;
        while k < m.len()
            invariant
                k <= m@.len(),
                forall|j: int| 0 <= j < m@.len() ==> m@[j] < self.evidence_items@.len(),
                seen@ == types_prefix(self.items(), m@, k as int),
            decreases m.len() - k,
        {
            let t = self.evidence_items[m[k]].evidence_type;
            let mut found = false;
            let mut q: usize = 0;
            while q < seen.len()
                invariant
                    q <= seen@.len(),
                    found == (exists|x: int| 0 <= x < q && seen@[x] == t),
                decreases seen.len() - q,
            {
                if seen[q] == t {
                    found = true;
                }
                q += 1;
            }
            if !found {
                seen.push(t);
            }
            k += 1;
        }
        seen.len()
    }

    /// The name of the highest severity among the listed evidence items.
    fn item_max_severity(&self, m: &Vec<usize>) -> (s: String)
        requires
            forall|j: int| 0 <= j < m@.len() ==> m@[j] < self.evidence_items@.len(),
        ensures
            s@ == severity_name_of_rank(item_max_rank(self.items(), m@)),
    {
        let mut best: u8 = 0;
        let mut k: usize = 0;
        while k < m.len()
            invariant
                k <= m@.len(),
                forall|j: int| 0 <= j < m@.len() ==> m@[j] < self.evidence_items@.len(),
                best == item_max_rank(self.items(), m@.take(k as int)),
            decreases m.len() - k,
        {
            let r = self.evidence_items[m[k]].severity.rank_of();
            assert(m@.take(k + 1).drop_last() =~= m@.take(k as int));
            if r > best {
                best = r;
            }
            k += 1;
        }
        assert(m@.take(m.len() as int) =~= m@);
        evidence_severity_name(best)
    }

    /// The summaries of the listed evidence items.
    fn summaries(&self, m: &Vec<usize>) -> (r: Vec<EvidenceSummary>)
        requires
            forall|j: int| 0 <= j < m@.len() ==> m@[j] < self.evidence_items@.len(),
        ensures
            summaries_view(r@) == pick_summaries(self.items(), m@),
    {
        let mut r: Vec<EvidenceSummary> = Vec::new();
        let mut k: usize = 0;
        while k < m.len()
            invariant
                k <= m@.len(),
                forall|j: int| 0 <= j < m@.len() ==> m@[j] < self.evidence_items@.len(),
                r@.len() == k,
                forall|j: int| 0 <= j < k ==> r@[j]@ == summarize(self.items()[m@[j] as int]),
            decreases m.len() - k,
        {
            let e = &self.evidence_items[m[k]];
            r.push(EvidenceSummary {
                id: e.id,
                evidence_type: e.evidence_type.variant_str().to_owned(),
                severity: e.severity.as_str().to_owned(),
                source: e.source.clone(),
                description: e.description.clone(),
                confidence: e.confidence,
            });
            k += 1;
        }
        assert(summaries_view(r@) =~= pick_summaries(self.items(), m@));
        r
    }

    /// `prefix` followed by the descriptions of the listed evidence items
    /// joined by `sep`.
    fn join_descriptions(&self, prefix: String, m: &Vec<usize>, sep: &str) -> (r: String)
        requires
            forall|j: int| 0 <= j < m@.len() ==> m@[j] < self.evidence_items@.len(),
        ensures
            r@ == prefix@ + join(item_descriptions(self.items(), m@), sep@),
    {
        let mut d = prefix;
        let ghost p = d@;
        let ghost texts = item_descriptions(self.items(), m@);
        let mut k: usize = 0;
        while k < m.len()
            invariant
                k <= m@.len(),
                texts == item_descriptions(self.items(), m@),
                forall|j: int| 0 <= j < m@.len() ==> m@[j] < self.evidence_items@.len(),
                d@ == p + join(texts.take(k as int), sep@),
            decreases m.len() - k,
        {
            proof {
                lemma_join_push(texts.take(k as int), sep@, texts[k as int]);
                assert(texts.take(k + 1) =~= texts.take(k as int).push(texts[k as int]));
            }
            if k > 0 {
                push_str(&mut d, sep);
            }
            push_str(&mut d, self.evidence_items[m[k]].description.as_str());
            k += 1;
        }
        assert(texts.take(m.len() as int) =~= texts);
        d
    }

    /// The matches of an evidence-cluster rule.
    pub fn match_evidence_cluster(&self, rule: &CorrelationRule) -> (r: Vec<CorrelationResult>)
        ensures
            essences(r@) == evidence_cluster_matches(self.items(), rule@),
    {
        let ghost items = self.items();
        let ts = self.item_times_vec();
        let keys = self.source_key_strings();
        let groups = distinct(&keys);
        let mut results: Vec<CorrelationResult> = Vec::new();
        let mut g: usize = 0;
        assert(essences(results@) =~= Seq::<ResultModel>::empty());
        while g < groups.len()
            invariant
                g <= groups@.len(),
                items == self.items(),
                ints(ts@) == item_times(items),
                strings_view(keys@) == source_keys(items),
                strings_view(groups@) == distinct_keys(source_keys(items)),
                essences(results@) == evidence_group_results(items, rule@, strings_view(groups@), g as int),
            decreases groups.len() - g,
        {
            let m = members_of(&keys, &groups[g]);
            assert(strings_view(groups@)[g as int] == groups@[g as int]@);
            assert(ints(ts@).len() == item_times(items).len());
            assert(strings_view(keys@).len() == source_keys(items).len());
            if self.type_count(&m) >= rule.min_items {
                let wi = Self::window_filter(&ts, &m, rule.time_window_seconds);
                if wi.len() >= rule.min_items {
                    let combined = self.item_max_severity(&wi);
                    let summaries = self.summaries(&wi);
                    let title = concat_text("Cross-detector evidence from source ", groups[g].as_str());
                    let prefix = concat_text(rule.description.as_str(), " - evidence: ");
                    let description = self.join_descriptions(prefix, &wi, "; ");
                    let res = CorrelationResult {
                        id: new_id(),
                        rule_name: rule.name.clone(),
                        kind: CorrelationKind::EvidenceCluster,
                        matched_events: Vec::new(),
                        matched_evidence: summaries,
                        combined_severity: combined,
                        title,
                        description,
                        timestamp: now_micros(),
                        entity_key: Some(groups[g].clone()),
                    };
                    assert(events_view(res.matched_events@) =~= Seq::<ThreatEventModel>::empty());
                    assert(res.essence() == evidence_result(items, rule@, groups@[g as int]@, wi@));
                    let ghost before = essences(results@);
                    results.push(res);
                    assert(essences(results@) =~= before.push(res.essence()));
                }
            }
            g += 1;
        }
        results
    }

    /// The escalating subsequence of the listed events.
    fn escalating(&self, s: &Vec<usize>) -> (r: Vec<usize>)
        requires
            forall|j: int| 0 <= j < s@.len() ==> s@[j] < self.events@.len(),
        ensures
            r@ == escalation(self.ev(), s@, s@.len() as int).0,
            forall|j: int| 0 <= j < r@.len() ==> r@[j] < self.events@.len(),
    {
        let mut l: Vec<usize> = Vec::new();
        let mut prev: u8 = 0;
        let mut k: usize = 0;
        while k < s.len()
            invariant
                k <= s@.len(),
                forall|j: int| 0 <= j < s@.len() ==> s@[j] < self.events@.len(),
                (l@, prev) == escalation(self.ev(), s@, k as int),
                forall|j: int| 0 <= j < l@.len() ==> l@[j] < self.events@.len(),
            decreases s.len() - k,
        {
            let r = self.events[s[k]].severity.rank_of();
            if l.len() == 0 || r >= prev {
                l.push(s[k]);
                prev = r;
            }
            k += 1;
        }
        l
    }

    /// The matches of a severity-escalation rule.
    pub fn match_severity_escalation(&self, rule: &CorrelationRule) -> (r: Vec<CorrelationResult>)
        ensures
            essences(r@) == severity_escalation_matches(self.ev(), rule@),
    {
        let ghost ev = self.ev();
        let ts = self.event_times();
        let keys = self.category_keys();
        let groups = distinct(&keys);
        let mut results: Vec<CorrelationResult> = Vec::new();
        let mut g: usize = 0;
        assert(essences(results@) =~= Seq::<ResultModel>::empty());
        while g < groups.len()
            invariant
                g <= groups@.len(),
                ev == self.ev(),
                ints(ts@) == timestamps(ev),
                strings_view(keys@) == category_names(ev),
                strings_view(groups@) == distinct_keys(category_names(ev)),
                essences(results@) == escalation_group_results(ev, rule@, strings_view(groups@), g as int),
            decreases groups.len() - g,
        {
            let m = members_of(&keys, &groups[g]);
            assert(strings_view(groups@)[g as int] == groups@[g as int]@);
            assert(ints(ts@).len() == timestamps(ev).len());
            assert(strings_view(keys@).len() == category_names(ev).len());
            let sorted = stable_sort_by_key(&m, &ts);
            if sorted.len() >= rule.min_items {
                let esc = self.escalating(&sorted);
                if esc.len() >= rule.min_items {
                    let sev = self.max_severity(&esc);
                    let events = self.pick(&esc);
                    let mut title = "Severity escalation in ".to_owned();
                    if esc.len() > 0 {
                        push_str(&mut title, self.events[esc[0]].category.as_str());
                    }
                    let res = CorrelationResult {
                        id: new_id(),
                        rule_name: rule.name.clone(),
                        kind: CorrelationKind::SeverityEscalation,
                        matched_events: events,
                        matched_evidence: Vec::new(),
                        combined_severity: sev.as_str().to_owned(),
                        title,
                        description: rule.description.clone(),
                        timestamp: now_micros(),
                        entity_key: None,
                    };
                    assert(summaries_view(res.matched_evidence@) =~= Seq::<SummaryModel>::empty());
                    assert(res.essence() == escalation_result(ev, rule@, esc@)) by {
                        if esc@.len() == 0 {
                            assert(title@ =~= "Severity escalation in "@ + Seq::<char>::empty());
                        }
                    }
                    let ghost before = essences(results@);
                    results.push(res);
                    assert(essences(results@) =~= before.push(res.essence()));
                }
            }
            g += 1;
        }
        results
    }


    /// An engine holding the default rules and nothing else.
    pub fn new() -> (e: CorrelationEngine)
        ensures
            rules_view(e.rules@) == default_correlation_rules(),
            e.events@.len() == 0,
            e.evidence_items@.len() == 0,
            e.results@.len() == 0,
    {
        let mut rules: Vec<CorrelationRule> = Vec::new();
        rules.push(CorrelationRule {
            name: "multi_indicator".to_owned(),
            description: "Detects when 3 or more threat events fire in a short time window".to_owned(),
            kind: CorrelationKind::CoOccurrence,
            min_items: 3,
            time_window_seconds: 300,
            enabled: true,
        });
        rules.push(CorrelationRule {
            name: "privilege_escalation_chain".to_owned(),
            description: "Detects privilege escalation followed by persistence mechanism".to_owned(),
            kind: CorrelationKind::CategoryChain,
            min_items: 2,
            time_window_seconds: 600,
            enabled: true,
        });
        rules.push(CorrelationRule {
            name: "rootkit_indicators".to_owned(),
            description: "Detects hook + hidden process + integrity violation together".to_owned(),
            kind: CorrelationKind::CoOccurrence,
            min_items: 3,
            time_window_seconds: 300,
            enabled: true,
        });
        rules.push(CorrelationRule {
            name: "process_anomaly_cluster".to_owned(),
            description: "Detects multiple events from the same process suggesting compromise".to_owned(),
            kind: CorrelationKind::EntityCluster,
            min_items: 3,
            time_window_seconds: 600,
            enabled: true,
        });
        rules.push(CorrelationRule {
            name: "cross_detector_evidence".to_owned(),
            description: "Detects evidence from multiple detector types for the same entity".to_owned(),
            kind: CorrelationKind::EvidenceCluster,
            min_items: 2,
            time_window_seconds: 300,
            enabled: true,
        });
        rules.push(CorrelationRule {
            name: "severity_escalation".to_owned(),
            description: "Detects escalating severity levels for the same category".to_owned(),
            kind: CorrelationKind::SeverityEscalation,
            min_items: 3,
            time_window_seconds: 600,
            enabled: true,
        });
        assert(rules_view(rules@) =~= default_correlation_rules());
        CorrelationEngine { events: Vec::new(), evidence_items: Vec::new(), rules, results: Vec::new() }
    }

    pub fn add_event(&mut self, event: ThreatEvent)
        ensures
            final(self).ev() == old(self).ev().push(event@),
            final(self).items() == old(self).items(),
            rules_view(final(self).rules@) == rules_view(old(self).rules@),
            essences(final(self).results@) == essences(old(self).results@),
    {
        let ghost before = self.ev();
        self.events.push(event);
        assert(self.ev() =~= before.push(event@));
    }

    /// Adds the events in order.
    pub fn add_events(&mut self, events: Vec<ThreatEvent>)
        ensures
            final(self).ev() == old(self).ev() + events_view(events@),
            final(self).items() == old(self).items(),
            rules_view(final(self).rules@) == rules_view(old(self).rules@),
            essences(final(self).results@) == essences(old(self).results@),
    {
        let ghost before = self.ev();
        let mut more = events;
        self.events.append(&mut more);
        assert(self.ev() =~= before + events_view(events@));
    }

    pub fn add_evidence(&mut self, evidence: Evidence)
        ensures
            final(self).items() == old(self).items().push(evidence@),
            final(self).ev() == old(self).ev(),
            rules_view(final(self).rules@) == rules_view(old(self).rules@),
            essences(final(self).results@) == essences(old(self).results@),
    {
        let ghost before = self.items();
        self.evidence_items.push(evidence);
        assert(self.items() =~= before.push(evidence@));
    }

    /// Adds the evidence items in order.
    pub fn add_evidence_items(&mut self, evidence: Vec<Evidence>)
        ensures
            final(self).items() == old(self).items() + evidence_view(evidence@),
            final(self).ev() == old(self).ev(),
            rules_view(final(self).rules@) == rules_view(old(self).rules@),
            essences(final(self).results@) == essences(old(self).results@),
    {
        let ghost before = self.items();
        let mut more = evidence;
        self.evidence_items.append(&mut more);
        assert(self.items() =~= before + evidence_view(evidence@));
    }

    pub fn add_rule(&mut self, rule: CorrelationRule)
        ensures
            rules_view(final(self).rules@) == rules_view(old(self).rules@).push(rule@),
            final(self).ev() == old(self).ev(),
            final(self).items() == old(self).items(),
            essences(final(self).results@) == essences(old(self).results@),
    {
        let ghost before = rules_view(self.rules@);
        self.rules.push(rule);
        assert(rules_view(self.rules@) =~= before.push(rule@));
    }

    pub fn set_rules(&mut self, rules: Vec<CorrelationRule>)
        ensures
            rules_view(final(self).rules@) == rules_view(rules@),
            final(self).ev() == old(self).ev(),
            final(self).items() == old(self).items(),
            essences(final(self).results@) == essences(old(self).results@),
    {
        self.rules = rules;
    }

    /// The matches of one rule.
    fn rule_results(&self, rule: &CorrelationRule) -> (r: Vec<CorrelationResult>)
        ensures
            essences(r@) == rule_matches(self.ev(), self.items(), rule@),
    {
        match rule.kind {
            CorrelationKind::CoOccurrence => self.match_co_occurrence(rule),
            CorrelationKind::CategoryChain => self.match_category_chain(rule),
            CorrelationKind::EntityCluster => self.match_entity_cluster(rule),
            CorrelationKind::EvidenceCluster => self.match_evidence_cluster(rule),
            CorrelationKind::TimeWindow => self.match_time_window(rule),
            CorrelationKind::SeverityEscalation => self.match_severity_escalation(rule),
        }
    }

    /// Matches every enabled rule, in rule order, against the held events
    /// and evidence, drops results whose rule name and matched ids repeat
    /// an earlier result's, stores what is left and returns a copy of it.
    pub fn correlate(&mut self) -> (r: Vec<CorrelationResult>)
        requires
            forall|i: int| 0 <= i < old(self).rules@.len()
                ==> rule_window_ok(#[trigger] old(self).rules@[i]@, old(self).ev(), old(self).items()),
        ensures
            essences(final(self).results@) == correlation(old(self).ev(), old(self).items(), rules_view(old(self).rules@)),
            essences(r@) == essences(final(self).results@),
            final(self).ev() == old(self).ev(),
            final(self).items() == old(self).items(),
            rules_view(final(self).rules@) == rules_view(old(self).rules@),
    {
        let ghost ev = self.ev();
        let ghost items = self.items();
        let ghost rv = rules_view(self.rules@);
        let mut all: Vec<CorrelationResult> = Vec::new();
        let mut i: usize = 0;
        assert(essences(all@) =~= Seq::<ResultModel>::empty());
        while i < self.rules.len()
            invariant
                i <= self.rules@.len(),
                ev == self.ev(),
                items == self.items(),
                rv == rules_view(self.rules@),
                essences(all@) == all_matches(ev, items, rv, i as int),
            decreases self.rules.len() - i,
        {
            if self.rules[i].enabled {
                let mut m = self.rule_results(&self.rules[i]);
                let ghost before = essences(all@);
                let ghost mm = essences(m@);
                all.append(&mut m);
                assert(essences(all@) =~= before + mm);
            }
            i += 1;
        }
        let out = dedup_results(&all);
        self.results = out;
        let mut copy: Vec<CorrelationResult> = Vec::new();
        let mut c: usize = 0;
        while c < self.results.len()
            invariant
                c <= self.results@.len(),
                copy@.len() == c,
                forall|k: int| 0 <= k < c ==> copy@[k].essence() == self.results@[k].essence(),
            decreases self.results.len() - c,
        {
            copy.push(self.results[c].duplicate());
            c += 1;
        }
        assert(essences(copy@) =~= essences(self.results@));
        copy
    }

    /// The results of the last correlation.
    pub fn results(&self) -> (r: &[CorrelationResult])
        ensures
            r@ == self.results@,
    {
        self.results.as_slice()
    }

    /// Counts of the current results: in all, per rule name and per kind
    /// (the kind's variant name), each in order of first appearance.
    pub fn stats(&self) -> (st: CorrelationStats)
        ensures
            st.total_correlations == self.results@.len(),
            counts_view(st.by_rule@) == key_counts(Seq::new(self.results@.len(), |i: int| self.results@[i].rule_name@)),
            counts_view(st.by_kind@) == key_counts(Seq::new(self.results@.len(), |i: int| self.results@[i].kind.variant_name())),
    {
        let mut names: Vec<String> = Vec::new();
        let mut kinds: Vec<String> = Vec::new();
        let mut i: usize = 0;
        while i < self.results.len()
            invariant
                i <= self.results@.len(),
                names@.len() == i,
                kinds@.len() == i,
                forall|k: int| 0 <= k < i ==> names@[k]@ == self.results@[k].rule_name@,
                forall|k: int| 0 <= k < i ==> kinds@[k]@ == self.results@[k].kind.variant_name(),
            decreases self.results.len() - i,
        {
            names.push(self.results[i].rule_name.clone());
            kinds.push(self.results[i].kind.variant_str().to_owned());
            i += 1;
        }
        assert(strings_view(names@) =~= Seq::new(self.results@.len(), |i: int| self.results@[i].rule_name@));
        assert(strings_view(kinds@) =~= Seq::new(self.results@.len(), |i: int| self.results@[i].kind.variant_name()));
        let by_rule = counts(&names);
        let by_kind = counts(&kinds);
        CorrelationStats { total_correlations: self.results.len(), by_rule, by_kind }
    }

    /// Forgets all events, evidence and results; the rules stay.
    pub fn clear(&mut self)
        ensures
            final(self).events@.len() == 0,
            final(self).evidence_items@.len() == 0,
            final(self).results@.len() == 0,
            rules_view(final(self).rules@) == rules_view(old(self).rules@),
    {
        self.events.clear();
        self.evidence_items.clear();
        self.results.clear();
    }

    /// The matches of a co-occurrence rule.
    pub fn match_co_occurrence(&self, rule: &CorrelationRule) -> (r: Vec<CorrelationResult>)
        ensures
            essences(r@) == co_occurrence_matches(self.ev(), rule@),
    {
        if self.events.len() < rule.min_items {
            let r: Vec<CorrelationResult> = Vec::new();
            assert(essences(r@) =~= Seq::<ResultModel>::empty());
            return r;
        }
        self.match_windows(rule, true)
    }

    /// The matches of a time-window rule.
    pub fn match_time_window(&self, rule: &CorrelationRule) -> (r: Vec<CorrelationResult>)
        ensures
            essences(r@) == time_window_matches(self.ev(), rule@),
    {
        self.match_windows(rule, false)
    }
}

/// The positions of the evidence items from source `s`, in order.
pub open spec fn source_members(items: Seq<EvidenceModel>, s: Seq<char>) -> Seq<usize> {
    key_members(source_keys(items), s)
}

/// The positions of the items from source `s` that lie within the window
/// after its first item, in order.
pub open spec fn source_window(items: Seq<EvidenceModel>, rule: RuleModel, s: Seq<char>) -> Seq<usize> {
    window_members(item_times(items), source_members(items, s), rule.time_window_seconds)
}

/// Whether the evidence from source `s` makes a cluster: it has at least
/// `min_items` distinct types, and at least `min_items` of its items lie
/// within the window after its first.
pub open spec fn source_fires(items: Seq<EvidenceModel>, rule: RuleModel, s: Seq<char>) -> bool {
    let m = source_members(items, s);
    &&& types_prefix(items, m, m.len() as int).len() >= rule.min_items
    &&& source_window(items, rule, s).len() >= rule.min_items
}

/// The evidence-cluster matcher gives exactly one result for each source
/// whose evidence makes a cluster, and nothing else: that result is keyed
/// by the source and holds the source's items within the window after its
/// first, in order, with the highest of their severities.
pub proof fn lemma_evidence_cluster_law(items: Seq<EvidenceModel>, rule: RuleModel)
    ensures
        ({
            let r = evidence_cluster_matches(items, rule);
            &&& forall|k: int| 0 <= k < r.len() ==> {
                &&& (#[trigger] r[k]).entity_key is Some
                &&& source_keys(items).contains(r[k].entity_key->0)
                &&& source_fires(items, rule, r[k].entity_key->0)
                &&& r[k] == evidence_result(items, rule, r[k].entity_key->0,
                    source_window(items, rule, r[k].entity_key->0))
            }
            &&& forall|s: Seq<char>| source_keys(items).contains(s) && #[trigger] source_fires(items, rule, s) ==>
                exists|k: int| 0 <= k < r.len() && r[k].entity_key == Some(s)
            &&& forall|j: int, k: int| 0 <= j < k < r.len() ==> r[j].entity_key != r[k].entity_key
        }),
{
    let keys = source_keys(items);
    let groups = distinct_keys(keys);
    lemma_distinct_prefix(keys, keys.len() as int);
    assert(keys.take(keys.len() as int) =~= keys);
    lemma_evidence_groups(items, rule, groups, groups.len() as int);
    assert(groups.take(groups.len() as int) =~= groups);
}

proof fn lemma_evidence_groups(items: Seq<EvidenceModel>, rule: RuleModel, groups: Seq<Seq<char>>, n: int)
    requires
        0 <= n <= groups.len(),
        groups.no_duplicates(),
    ensures
        ({
            let r = evidence_group_results(items, rule, groups, n);
            &&& forall|k: int| 0 <= k < r.len() ==> {
                &&& (#[trigger] r[k]).entity_key is Some
                &&& groups.take(n).contains(r[k].entity_key->0)
                &&& source_fires(items, rule, r[k].entity_key->0)
                &&& r[k] == evidence_result(items, rule, r[k].entity_key->0,
                    source_window(items, rule, r[k].entity_key->0))
            }
            &&& forall|s: Seq<char>| groups.take(n).contains(s) && #[trigger] source_fires(items, rule, s) ==>
                exists|k: int| 0 <= k < r.len() && r[k].entity_key == Some(s)
            &&& forall|j: int, k: int| 0 <= j < k < r.len() ==> r[j].entity_key != r[k].entity_key
        }),
    decreases n,
{
    if n > 0 {
        lemma_evidence_groups(items, rule, groups, n - 1);
        let prev = evidence_group_results(items, rule, groups, n - 1);
        let r = evidence_group_results(items, rule, groups, n);
        let g = groups[n - 1];
        let t = groups.take(n);
        let p = groups.take(n - 1);
        assert(p =~= t.drop_last());
        assert forall|x: Seq<char>| #[trigger] t.contains(x) <==> p.contains(x) || x == g by {
            if t.contains(x) {
                let j = choose|j: int| 0 <= j < t.len() && t[j] == x;
                if j < n - 1 {
                    assert(p[j] == x);
                }
            }
            if p.contains(x) {
                let j = choose|j: int| 0 <= j < p.len() && p[j] == x;
                assert(t[j] == x);
            }
            if x == g {
                assert(t[n - 1] == x);
            }
        }
        assert(!p.contains(g)) by {
            if p.contains(g) {
                let j = choose|j: int| 0 <= j < p.len() && p[j] == g;
                assert(groups[j] == groups[n - 1]);
            }
        }
        if source_fires(items, rule, g) {
            let res = evidence_result(items, rule, g, source_window(items, rule, g));
            assert(r == prev.push(res));
            assert forall|k: int| 0 <= k < r.len() implies {
                &&& (#[trigger] r[k]).entity_key is Some
                &&& t.contains(r[k].entity_key->0)
                &&& source_fires(items, rule, r[k].entity_key->0)
                &&& r[k] == evidence_result(items, rule, r[k].entity_key->0,
                    source_window(items, rule, r[k].entity_key->0))
            } by {
                if k < prev.len() {
                    assert(r[k] == prev[k]);
                }
            }
            assert forall|s: Seq<char>| t.contains(s) && #[trigger] source_fires(items, rule, s) implies
                exists|k: int| 0 <= k < r.len() && r[k].entity_key == Some(s) by {
                if s == g {
                    assert(r[prev.len() as int].entity_key == Some(s));
                } else {
                    let k = choose|k: int| 0 <= k < prev.len() && prev[k].entity_key == Some(s);
                    assert(r[k] == prev[k]);
                }
            }
            assert forall|j: int, k: int| 0 <= j < k < r.len() implies r[j].entity_key != r[k].entity_key by {
                assert(r[j] == prev[j]);
                if k < prev.len() {
                    assert(r[k] == prev[k]);
                } else {
                    assert(p.contains(prev[j].entity_key->0));
                }
            }
        } else {
            assert(r == prev);
            assert forall|k: int| 0 <= k < r.len() implies t.contains((#[trigger] r[k]).entity_key->0) by {
                assert(p.contains(prev[k].entity_key->0));
            }
        }
    }
}

/// The positions `idx[j]`, for `i < j < k`, whose events lie within the
/// window after the event at `idx[i]`, in order.
pub open spec fn later_within(ev: Seq<ThreatEventModel>, idx: Seq<usize>, i: int, w: i64, k: int) -> Seq<usize>
    decreases k - i,
{
    if k <= i + 1 {
        Seq::empty()
    } else {
        let prev = later_within(ev, idx, i, w, k - 1);
        if ev[idx[k - 1] as int].timestamp - ev[idx[i] as int].timestamp <= window(w) {
            prev.push(idx[k - 1])
        } else {
            prev
        }
    }
}

/// The co-occurrence window starting at position `i` of the time order:
/// that event, then every later one in time order that lies within the
/// window after it.
pub open spec fn co_window(ev: Seq<ThreatEventModel>, rule: RuleModel, i: int) -> Seq<usize> {
    let idx = time_order(ev);
    seq![idx[i]] + later_within(ev, idx, i, rule.time_window_seconds, idx.len() as int)
}

/// The results of the co-occurrence windows that fire among those starting
/// at the first `k` positions of the time order, in order.
pub open spec fn firing_windows(ev: Seq<ThreatEventModel>, rule: RuleModel, k: int) -> Seq<ResultModel>
    decreases k,
{
    if k <= 0 {
        Seq::empty()
    } else {
        let prev = firing_windows(ev, rule, k - 1);
        let c = co_window(ev, rule, k - 1);
        if co_fires(ev, rule, c) { prev.push(co_result(ev, rule, c)) } else { prev }
    }
}

/// The co-occurrence matcher orders the events by time (a stable order of
/// all positions), gives nothing when there are fewer than `min_items`
/// events, and otherwise gives, for each start in time order whose window
/// fires, the result of that window, in order of the starts.
pub proof fn lemma_co_occurrence_law(ev: Seq<ThreatEventModel>, rule: RuleModel)
    ensures
        time_order(ev).len() == ev.len(),
        forall|k: int| 0 <= k < ev.len() ==> #[trigger] time_order(ev)[k] < ev.len(),
        forall|a: int, b: int| 0 <= a <= b < ev.len() ==>
            ev[time_order(ev)[a] as int].timestamp <= ev[time_order(ev)[b] as int].timestamp,
        ev.len() < rule.min_items ==> co_occurrence_matches(ev, rule).len() == 0,
        ev.len() >= rule.min_items ==> co_occurrence_matches(ev, rule) == firing_windows(ev, rule, ev.len() as int),
{
    lemma_time_order(ev);
    if ev.len() >= rule.min_items {
        lemma_windows_agree(ev, rule, ev.len() as int);
    }
}

proof fn lemma_time_order(ev: Seq<ThreatEventModel>)
    ensures
        time_order(ev).len() == ev.len(),
        forall|k: int| 0 <= k < ev.len() ==> #[trigger] time_order(ev)[k] < ev.len(),
        forall|a: int, b: int| 0 <= a <= b < ev.len() ==>
            ev[time_order(ev)[a] as int].timestamp <= ev[time_order(ev)[b] as int].timestamp,
{
    let key = seq_key(timestamps(ev));
    let s = range(ev.len());
    lemma_stable_sort_sorted(s, key);
    let idx = time_order(ev);
    assert forall|k: int| 0 <= k < ev.len() implies #[trigger] idx[k] < ev.len() by {
        assert(s.contains(idx[k]));
        let q = choose|q: int| 0 <= q < s.len() && s[q] == idx[k];
    }
    assert forall|a: int, b: int| 0 <= a <= b < ev.len() implies
        ev[idx[a] as int].timestamp <= ev[idx[b] as int].timestamp by {
        assert(idx[a] < ev.len());
        assert(idx[b] < ev.len());
        assert(keys_of(idx, key)[a] <= keys_of(idx, key)[b]);
    }
}

proof fn lemma_scan_end_bounds(ev: Seq<ThreatEventModel>, idx: Seq<usize>, i: int, j: int, w: i64)
    requires
        0 <= i < j <= idx.len(),
    ensures
        j <= scan_end(ev, idx, i, j, w) <= idx.len(),
        forall|m: int| j <= m < scan_end(ev, idx, i, j, w) ==>
            ev[idx[m] as int].timestamp - ev[idx[i] as int].timestamp <= window(w),
        scan_end(ev, idx, i, j, w) < idx.len() ==>
            ev[idx[scan_end(ev, idx, i, j, w)] as int].timestamp - ev[idx[i] as int].timestamp > window(w),
    decreases idx.len() - j,
{
    if j < idx.len() && ev[idx[j] as int].timestamp - ev[idx[i] as int].timestamp <= window(w) {
        lemma_scan_end_bounds(ev, idx, i, j + 1, w);
    }
}

proof fn lemma_later_within(ev: Seq<ThreatEventModel>, rule: RuleModel, i: int, k: int)
    requires
        0 <= i < ev.len(),
        i + 1 <= k <= ev.len(),
    ensures
        ({
            let idx = time_order(ev);
            let e = scan_end(ev, idx, i, i + 1, rule.time_window_seconds);
            later_within(ev, idx, i, rule.time_window_seconds, k) == idx.subrange(i + 1, if k < e { k } else { e })
        }),
    decreases k,
{
    let idx = time_order(ev);
    let w = rule.time_window_seconds;
    lemma_time_order(ev);
    lemma_scan_end_bounds(ev, idx, i, i + 1, w);
    let e = scan_end(ev, idx, i, i + 1, w);
    if k > i + 1 {
        lemma_later_within(ev, rule, i, k - 1);
        if k - 1 < e {
            assert(idx.subrange(i + 1, k) =~= idx.subrange(i + 1, k - 1).push(idx[k - 1]));
        } else {
            assert(ev[idx[e] as int].timestamp <= ev[idx[k - 1] as int].timestamp);
        }
    } else {
        assert(idx.subrange(i + 1, i + 1) =~= Seq::<usize>::empty());
    }
}

proof fn lemma_windows_agree(ev: Seq<ThreatEventModel>, rule: RuleModel, k: int)
    requires
        0 <= k <= ev.len(),
    ensures
        window_results(ev, time_order(ev), rule, k, true) == firing_windows(ev, rule, k),
    decreases k,
{
    if k > 0 {
        lemma_windows_agree(ev, rule, k - 1);
        let idx = time_order(ev);
        let w = rule.time_window_seconds;
        let i = k - 1;
        lemma_time_order(ev);
        lemma_scan_end_bounds(ev, idx, i, i + 1, w);
        lemma_later_within(ev, rule, i, ev.len() as int);
        assert(cluster(ev, idx, i, w) =~= co_window(ev, rule, i));
    }
}

} // verus!
