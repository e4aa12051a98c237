use vstd::prelude::*;
use crate::text::{owned, push_str, str_eq};
use crate::value::{store, DataMap, Value, ValueModel};
use crate::threat::{ThreatEvent, ThreatEventModel};

verus! {

/// Where a plugin stands in its life.
#[derive(Debug, Clone, Copy, PartialEq, Eq, Structural)]
pub enum PluginState {
    Registered,
    Initializing,
    Running,
    Stopped,
    Error,
}

/// What a plugin says of itself.
#[derive(Debug)]
pub struct PluginMetadata {
    pub name: String,
    pub version: String,
    pub author: String,
    pub description: String,
    pub enabled: bool,
    pub state: PluginState,
}

/// The result of checking on a plugin; `last_check` is an RFC 3339 time.
#[derive(Debug)]
pub struct PluginHealth {
    pub name: String,
    pub healthy: bool,
    pub message: String,
    pub last_check: String,
}

/// A failure of a plugin, with its message.
#[derive(Debug)]
pub enum PluginError {
    InitFailed(String),
    StartFailed(String),
    StopFailed(String),
    ScanFailed(String),
    NotFound(String),
    AlreadyRegistered(String),
}

impl PluginError {
    /// The text of the error: what failed and the message.
    pub open spec fn text(self) -> Seq<char> {
        match self {
            PluginError::InitFailed(m) => "Plugin initialization failed: "@ + m@,
            PluginError::StartFailed(m) => "Plugin start failed: "@ + m@,
            PluginError::StopFailed(m) => "Plugin stop failed: "@ + m@,
            PluginError::ScanFailed(m) => "Plugin scan failed: "@ + m@,
            PluginError::NotFound(m) => "Plugin not found: "@ + m@,
            PluginError::AlreadyRegistered(m) => "Plugin already registered: "@ + m@,
        }
    }

    /// The text of the error: what failed and the message.
    pub fn message(&self) -> (s: String)
        ensures
            s@ == self.text(),
    {
        let (prefix, m) = match self {
            PluginError::InitFailed(m) => ("Plugin initialization failed: ", m),
            PluginError::StartFailed(m) => ("Plugin start failed: ", m),
            PluginError::StopFailed(m) => ("Plugin stop failed: ", m),
            PluginError::ScanFailed(m) => ("Plugin scan failed: ", m),
            PluginError::NotFound(m) => ("Plugin not found: ", m),
            PluginError::AlreadyRegistered(m) => ("Plugin already registered: ", m),
        };
        let mut s = owned(prefix);
        push_str(&mut s, m.as_str());
        s
    }
}

/// The health record of a plugin after an attempt to initialize it,
/// checked at `last_check`.
pub fn plugin_init_health(name: &str, outcome: &Result<(), PluginError>, last_check: String) -> (h: PluginHealth)
    ensures
        h.name@ == name@,
        h.healthy == (outcome is Ok),
        outcome is Ok ==> h.message@ == "Initialized successfully"@,
        outcome matches Err(e) ==> h.message@ == "Init failed: "@ + e.text(),
        h.last_check@ == last_check@,
{
    match outcome {
        Ok(()) => PluginHealth {
            name: owned(name),
            healthy: true,
            message: owned("Initialized successfully"),
            last_check,
        },
        Err(e) => {
            let mut message = owned("Init failed: ");
            let t = e.message();
            push_str(&mut message, t.as_str());
            PluginHealth { name: owned(name), healthy: false, message, last_check }
        },
    }
}

/// The health record of a plugin after an attempt to start it, checked
/// at `last_check`.
pub fn plugin_start_health(name: &str, outcome: &Result<(), PluginError>, last_check: String) -> (h: PluginHealth)
    ensures
        h.name@ == name@,
        h.healthy == (outcome is Ok),
        outcome is Ok ==> h.message@ == "Started successfully"@,
        outcome matches Err(e) ==> h.message@ == "Start failed: "@ + e.text(),
        h.last_check@ == last_check@,
{
    match outcome {
        Ok(()) => PluginHealth {
            name: owned(name),
            healthy: true,
            message: owned("Started successfully"),
            last_check,
        },
        Err(e) => {
            let mut message = owned("Start failed: ");
            let t = e.message();
            push_str(&mut message, t.as_str());
            PluginHealth { name: owned(name), healthy: false, message, last_check }
        },
    }
}

/// Whether a plugin of that name is registered already; registering it
/// again is refused.
pub fn check_not_registered(load_order: &Vec<String>, name: &str) -> (r: Result<(), PluginError>)
    ensures
        r is Ok <==> forall|i: int| 0 <= i < load_order@.len() ==> load_order@[i]@ != name@,
        r matches Err(e) ==> e.text() == "Plugin already registered: "@ + name@,
{
    let mut i: usize = 0;
    while i < load_order.len()
        invariant
            i <= load_order@.len(),
            forall|j: int| 0 <= j < i ==> load_order@[j]@ != name@,
        decreases load_order.len() - i,
    {
        if str_eq(load_order[i].as_str(), name) {
            return Err(PluginError::AlreadyRegistered(owned(name)));
        }
        i += 1;
    }
    Ok(())
}

/// The facts of a threat that the rule engine scores it on: its severity
/// and category names.
pub open spec fn scoring_facts(t: ThreatEventModel) -> Seq<(Seq<char>, ValueModel)> {
    store(store(Seq::empty(), "severity"@, ValueModel::Text(t.severity.name())), "category"@, ValueModel::Text(t.category.name()))
}

/// The facts of a threat that the rule engine matches its rules on: its
/// severity and category names, title and detector.
pub open spec fn rule_facts(t: ThreatEventModel) -> Seq<(Seq<char>, ValueModel)> {
    store(store(scoring_facts(t), "title"@, ValueModel::Text(t.title)), "source_detector"@, ValueModel::Text(t.source_detector))
}

/// The facts of a threat that the rule engine scores it on.
pub fn scoring_context(threat: &ThreatEvent) -> (m: DataMap)
    ensures
        m@ == scoring_facts(threat@),
{
    let mut m = DataMap::new();
    m.insert(owned("severity"), Value::String(owned(threat.severity.as_str())));
    m.insert(owned("category"), Value::String(owned(threat.category.as_str())));
    m
}

/// The facts of a threat that the rule engine matches its rules on.
pub fn rule_context(threat: &ThreatEvent) -> (m: DataMap)
    ensures
        m@ == rule_facts(threat@),
{
    let mut m = scoring_context(threat);
    m.insert(owned("title"), Value::String(threat.title.clone()));
    m.insert(owned("source_detector"), Value::String(threat.source_detector.clone()));
    m
}

/// What the registry says of one detector.
#[derive(Debug)]
pub struct DetectorInfo {
    pub name: String,
    pub description: String,
    pub category: String,
    pub severity: String,
}

/// A failure of the detector registry, with its message.
#[derive(Debug)]
pub enum DetectorError {
    NotFound(String),
    DetectionFailed(String),
    InitFailed(String),
}

impl DetectorError {
    /// The text of the error: what failed and the message.
    pub open spec fn text(self) -> Seq<char> {
        match self {
            DetectorError::NotFound(m) => "Detector not found: "@ + m@,
            DetectorError::DetectionFailed(m) => "Detection failed: "@ + m@,
            DetectorError::InitFailed(m) => "Initialization failed: "@ + m@,
        }
    }

    /// The text of the error: what failed and the message.
    pub fn message(&self) -> (s: String)
        ensures
            s@ == self.text(),
    {
        let (prefix, m) = match self {
            DetectorError::NotFound(m) => ("Detector not found: ", m),
            DetectorError::DetectionFailed(m) => ("Detection failed: ", m),
            DetectorError::InitFailed(m) => ("Initialization failed: ", m),
        };
        let mut s = owned(prefix);
        push_str(&mut s, m.as_str());
        s
    }
}

/// What a trust event records.
#[derive(Debug, Clone, Copy, PartialEq, Eq, Structural)]
pub enum TrustEventType {
    ConfirmedPositive,
    FalsePositive,
    TrueNegative,
    FalseNegative,
    ManualAdjustment,
}

/// One change to the trust in a detection source; `timestamp` is an RFC
/// 3339 time.
#[derive(Debug)]
pub struct TrustEvent {
    pub source_name: String,
    pub event_type: TrustEventType,
    pub details: String,
    pub timestamp: String,
}

/// A failure of the event bus, with its message.
#[derive(Debug)]
pub enum EventBusError {
    PublishFailed(String),
    Lagged(String),
}

impl EventBusError {
    /// The text of the error: what failed and the message.
    pub open spec fn text(self) -> Seq<char> {
        match self {
            EventBusError::PublishFailed(m) => "Failed to publish event: "@ + m@,
            EventBusError::Lagged(m) => "Subscriber lagged: "@ + m@,
        }
    }

    /// The text of the error: what failed and the message.
    pub fn message(&self) -> (s: String)
        ensures
            s@ == self.text(),
    {
        let (prefix, m) = match self {
            EventBusError::PublishFailed(m) => ("Failed to publish event: ", m),
            EventBusError::Lagged(m) => ("Subscriber lagged: ", m),
        };
        let mut s = owned(prefix);
        push_str(&mut s, m.as_str());
        s
    }
}

/// Counts per key, one entry per key in order of first appearance.
pub open spec fn tallied(s: Seq<(Seq<char>, u64)>, key: Seq<char>) -> Seq<(Seq<char>, u64)> {
    if exists|i: int| 0 <= i < s.len() && s[i].0 == key {
        let i = choose|i: int| 0 <= i < s.len() && s[i].0 == key;
        s.update(i, (key, (s[i].1 + 1) as u64))
    } else {
        s.push((key, 1))
    }
}

/// No two entries share a key.
pub open spec fn tally_keys_distinct(s: Seq<(Seq<char>, u64)>) -> bool {
    forall|i: int, j: int| 0 <= i < s.len() && 0 <= j < s.len() && i != j ==> s[i].0 != s[j].0
}

/// The views of counters.
pub open spec fn tally_view(v: Seq<(String, u64)>) -> Seq<(Seq<char>, u64)> {
    Seq::new(v.len(), |i: int| (v[i].0@, v[i].1))
}

/// Counts of published events.
#[derive(Debug)]
pub struct EventStats {
    pub total_published: u64,
    pub by_kind: Vec<(String, u64)>,
    pub by_source: Vec<(String, u64)>,
    pub history_size: usize,
    pub current_subscribers: usize,
}

/// Counts published events in all, by kind and by source.
pub struct EventStatsCollector {
    total_published: u64,
    by_kind: Vec<(String, u64)>,
    by_source: Vec<(String, u64)>,
}

/// Adds one to the counter of `key`, or starts it at one.
fn bump(v: &mut Vec<(String, u64)>, key: &str, limit: u64)
    requires
        limit >= 1,
        tally_keys_distinct(tally_view(old(v)@)),
        forall|i: int| 0 <= i < old(v)@.len() ==> old(v)@[i].1 < limit,
    ensures
        tally_view(final(v)@) == tallied(tally_view(old(v)@), key@),
        tally_keys_distinct(tally_view(final(v)@)),
        forall|i: int| 0 <= i < final(v)@.len() ==> final(v)@[i].1 <= limit,
{
    let ghost before = tally_view(v@);
    let mut i: usize = 0;
    while i < v.len()
        invariant
            i <= v@.len(),
            limit >= 1,
            before == tally_view(v@),
            before == tally_view(old(v)@),
            tally_keys_distinct(before),
            forall|j: int| 0 <= j < v@.len() ==> v@[j].1 < limit,
            forall|j: int| 0 <= j < i ==> v@[j].0@ != key@,
        decreases v.len() - i,
    {
        if str_eq(v[i].0.as_str(), key) {
            let c = v[i].1 + 1;
            let k = v[i].0.clone();
            proof {
                assert(before[i as int].0 == key@);
                assert(exists|w: int| 0 <= w < before.len() && before[w].0 == key@);
                let w = choose|w: int| 0 <= w < before.len() && before[w].0 == key@;
                if w != i {
                    assert(before[w].0 != before[i as int].0);
                }
                assert(w == i);
            }
            v.set(i, (k, c));
            assert(tally_view(v@) =~= tallied(before, key@));
            assert(tally_keys_distinct(tally_view(v@))) by {
                assert forall|a: int, b: int| 0 <= a < v@.len() && 0 <= b < v@.len() && a != b implies
                    tally_view(v@)[a].0 != tally_view(v@)[b].0 by {
                    assert(tally_view(v@)[a].0 == before[a].0);
                    assert(tally_view(v@)[b].0 == before[b].0);
                }
            }
            return;
        }
        i += 1;
    }
    v.push((owned(key), 1));
    assert(tally_view(v@) =~= before.push((key@, 1)));
    assert(forall|j: int| 0 <= j < before.len() ==> before[j].0 != key@);
}

impl EventStatsCollector {
    #[verifier::type_invariant]
    closed spec fn inv(self) -> bool {
        &&& tally_keys_distinct(tally_view(self.by_kind@))
        &&& tally_keys_distinct(tally_view(self.by_source@))
        &&& forall|i: int| 0 <= i < self.by_kind@.len() ==> self.by_kind@[i].1 <= self.total_published
        &&& forall|i: int| 0 <= i < self.by_source@.len() ==> self.by_source@[i].1 <= self.total_published
    }

    /// The number of events recorded.
    pub closed spec fn total(&self) -> u64 {
        self.total_published
    }

    /// The counts by kind, in order of first appearance.
    pub closed spec fn kinds(&self) -> Seq<(Seq<char>, u64)> {
        tally_view(self.by_kind@)
    }

    /// The counts by source, in order of first appearance.
    pub closed spec fn sources(&self) -> Seq<(Seq<char>, u64)> {
        tally_view(self.by_source@)
    }

    /// A collector that has counted nothing.
    pub fn new() -> (c: EventStatsCollector)
        ensures
            c.total() == 0,
            c.kinds().len() == 0,
            c.sources().len() == 0,
    {
        let c = EventStatsCollector { total_published: 0, by_kind: Vec::new(), by_source: Vec::new() };
        assert(c.kinds() =~= Seq::<(Seq<char>, u64)>::empty());
        assert(c.sources() =~= Seq::<(Seq<char>, u64)>::empty());
        c
    }

    /// Counts one published event of kind `kind` from source `source`
    /// (each named as it is printed).
    pub fn record(&mut self, kind: &str, source: &str)
        requires
            old(self).total() < u64::MAX,
        ensures
            final(self).total() == old(self).total() + 1,
            final(self).kinds() == tallied(old(self).kinds(), kind@),
            final(self).sources() == tallied(old(self).sources(), source@),
    {
        proof {
            use_type_invariant(&*self);
        }
        let limit = self.total_published + 1;
        let mut by_kind: Vec<(String, u64)> = Vec::new();
        std::mem::swap(&mut by_kind, &mut self.by_kind);
        bump(&mut by_kind, kind, limit);
        let mut by_source: Vec<(String, u64)> = Vec::new();
        std::mem::swap(&mut by_source, &mut self.by_source);
        bump(&mut by_source, source, limit);
        self.total_published = limit;
        self.by_kind = by_kind;
        self.by_source = by_source;
    }

    /// The counts so far, with the given history size and subscriber
    /// count.
    pub fn stats(&self, history_size: usize, current_subscribers: usize) -> (s: EventStats)
        ensures
            s.total_published == self.total(),
            tally_view(s.by_kind@) == self.kinds(),
            tally_view(s.by_source@) == self.sources(),
            s.history_size == history_size,
            s.current_subscribers == current_subscribers,
    {
        EventStats {
            total_published: self.total_published,
            by_kind: copy_tally(&self.by_kind),
            by_source: copy_tally(&self.by_source),
            history_size,
            current_subscribers,
        }
    }
}

fn copy_tally(v: &Vec<(String, u64)>) -> (r: Vec<(String, u64)>)
    ensures
        tally_view(r@) == tally_view(v@),
{
    let mut r: Vec<(String, u64)> = Vec::new();
    let mut i: usize = 0;
    while i < v.len()
        invariant
            i <= v@.len(),
            r@.len() == i,
            forall|k: int| 0 <= k < i ==> r@[k].0@ == v@[k].0@ && r@[k].1 == v@[k].1,
        decreases v.len() - i,
    {
        r.push((v[i].0.clone(), v[i].1));
        i += 1;
    }
    assert(tally_view(r@) =~= tally_view(v@));
    r
}

impl Default for EventStatsCollector {
    fn default() -> (c: EventStatsCollector)
        ensures
            c.total() == 0,
            c.kinds().len() == 0,
            c.sources().len() == 0,
    {
        EventStatsCollector::new()
    }
}

/// Recording an event counts it once under its kind: the kind's count
/// goes up by one (from zero when it is new), and every other kind keeps
/// its count.
pub proof fn lemma_tally_counts_once(s: Seq<(Seq<char>, u64)>, key: Seq<char>, other: Seq<char>, bound: u64)
    requires
        tally_keys_distinct(s),
        forall|i: int| 0 <= i < s.len() ==> s[i].1 < bound,
    ensures
        tally_keys_distinct(tallied(s, key)),
        exists|i: int| 0 <= i < tallied(s, key).len() && tallied(s, key)[i].0 == key
            && tallied(s, key)[i].1 == (if exists|j: int| 0 <= j < s.len() && s[j].0 == key {
                s[choose|j: int| 0 <= j < s.len() && s[j].0 == key].1 + 1
            } else {
                1
            }),
        other != key ==> forall|i: int| 0 <= i < s.len() && s[i].0 == other ==> tallied(s, key).contains(s[i]),
{
    let t = tallied(s, key);
    if exists|j: int| 0 <= j < s.len() && s[j].0 == key {
        let w = choose|j: int| 0 <= j < s.len() && s[j].0 == key;
        assert(t[w].0 == key);
        assert forall|i: int| 0 <= i < s.len() && s[i].0 == other && other != key implies t.contains(s[i]) by {
            assert(t[i] == s[i]);
        }
    } else {
        assert(t[s.len() as int].0 == key);
        assert forall|i: int| 0 <= i < s.len() && s[i].0 == other && other != key implies t.contains(s[i]) by {
            assert(t[i] == s[i]);
        }
    }
}

/// An event carried by the event bus: its kind and source named as they
/// are printed, and what it carries.  `timestamp` is in microseconds since
/// the Unix epoch; `id` is a 128-bit UUID value.
pub struct BusEvent {
    pub id: u128,
    pub kind: String,
    pub source: String,
    pub timestamp: i64,
    pub payload: Value,
}

/// The mathematical content of a [`BusEvent`].
pub struct BusEventModel {
    pub id: u128,
    pub kind: Seq<char>,
    pub source: Seq<char>,
    pub timestamp: i64,
    pub payload: ValueModel,
}

impl View for BusEvent {
    type V = BusEventModel;

    open spec fn view(&self) -> BusEventModel {
        BusEventModel {
            id: self.id,
            kind: self.kind@,
            source: self.source@,
            timestamp: self.timestamp,
            payload: self.payload@,
        }
    }
}

impl BusEvent {
    pub fn duplicate(&self) -> (r: BusEvent)
        ensures
            r@ == self@,
    {
        BusEvent {
            id: self.id,
            kind: self.kind.clone(),
            source: self.source.clone(),
            timestamp: self.timestamp,
            payload: self.payload.duplicate(),
        }
    }
}

/// The views of bus events.
pub open spec fn bus_events_view(v: Seq<BusEvent>) -> Seq<BusEventModel> {
    Seq::new(v.len(), |i: int| v[i]@)
}

/// The history after `e` is published with room for `size` events: when
/// the history is full the oldest event goes first.
pub open spec fn history_push(h: Seq<BusEventModel>, e: BusEventModel, size: usize) -> Seq<BusEventModel> {
    if h.len() >= size && h.len() > 0 {
        h.drop_first().push(e)
    } else {
        h.push(e)
    }
}

/// The events of one kind, in order.
pub open spec fn of_kind(h: Seq<BusEventModel>, kind: Seq<char>) -> Seq<BusEventModel>
    decreases h.len(),
{
    if h.len() == 0 {
        h
    } else if h.last().kind == kind {
        of_kind(h.drop_last(), kind).push(h.last())
    } else {
        of_kind(h.drop_last(), kind)
    }
}

/// The default number of events the history keeps.
pub const DEFAULT_HISTORY_SIZE: usize = 1_000;

/// The recent events published on the event bus, oldest first.
pub struct EventHistory {
    events: Vec<BusEvent>,
    history_size: usize,
}

impl EventHistory {
    /// The events kept, oldest first.
    pub closed spec fn kept(&self) -> Seq<BusEventModel> {
        bus_events_view(self.events@)
    }

    /// The number of events the history has room for.
    pub closed spec fn room(&self) -> usize {
        self.history_size
    }

    /// An empty history with room for a thousand events.
    pub fn new() -> (h: EventHistory)
        ensures
            h.kept().len() == 0,
            h.room() == DEFAULT_HISTORY_SIZE,
    {
        let h = EventHistory { events: Vec::new(), history_size: DEFAULT_HISTORY_SIZE };
        assert(h.kept() =~= Seq::<BusEventModel>::empty());
        h
    }

    /// The same history with room for `size` events.
    pub fn with_history_size(self, size: usize) -> (h: EventHistory)
        ensures
            h.kept() == self.kept(),
            h.room() == size,
    {
        EventHistory { history_size: size, ..self }
    }

    /// Keeps a published event, dropping the oldest when full.
    pub fn record(&mut self, event: BusEvent)
        ensures
            final(self).kept() == history_push(old(self).kept(), event@, old(self).room()),
            final(self).room() == old(self).room(),
    {
        let ghost before = self.kept();
        let ghost e = event@;
        if self.events.len() >= self.history_size && self.events.len() > 0 {
            self.events.remove(0);
            assert(self.kept() =~= before.drop_first());
        }
        self.events.push(event);
        assert(self.kept() =~= history_push(before, e, self.history_size));
    }

    /// Copies of the events kept, oldest first.
    pub fn history(&self) -> (r: Vec<BusEvent>)
        ensures
            bus_events_view(r@) == self.kept(),
    {
        let mut r: Vec<BusEvent> = Vec::new();
        let mut i: usize = 0;
        while i < self.events.len()
            invariant
                i <= self.events@.len(),
                r@.len() == i,
                forall|k: int| 0 <= k < i ==> r@[k]@ == self.kept()[k],
            decreases self.events.len() - i,
        {
            r.push(self.events[i].duplicate());
            i += 1;
        }
        assert(bus_events_view(r@) =~= self.kept());
        r
    }

    /// Copies of the events of kind `kind` kept, oldest first.
    pub fn history_by_kind(&self, kind: &str) -> (r: Vec<BusEvent>)
        ensures
            bus_events_view(r@) == of_kind(self.kept(), kind@),
    {
        let ghost h = self.kept();
        let mut r: Vec<BusEvent> = Vec::new();
        let mut i: usize = 0;
        while i < self.events.len()
            invariant
                i <= self.events@.len(),
                h == self.kept(),
                bus_events_view(r@) == of_kind(h.take(i as int), kind@),
            decreases self.events.len() - i,
        {
            assert(h.take(i + 1).drop_last() =~= h.take(i as int));
            if str_eq(self.events[i].kind.as_str(), kind) {
                let ghost before = r@;
                r.push(self.events[i].duplicate());
                assert(bus_events_view(r@) =~= bus_events_view(before).push(h[i as int]));
            }
            i += 1;
        }
        assert(h.take(self.events.len() as int) =~= h);
        r
    }

    /// The number of events kept.
    pub fn history_count(&self) -> (n: usize)
        ensures
            n == self.kept().len(),
    {
        self.events.len()
    }

    /// Forgets the events kept.
    pub fn clear_history(&mut self)
        ensures
            final(self).kept().len() == 0,
            final(self).room() == old(self).room(),
    {
        self.events.clear();
    }
}

/// The history never grows past its room (or one event, when it has
/// none): publishing onto a history within that bound stays within it,
/// keeps the newest event last, and otherwise never lengthens it.
pub proof fn lemma_history_bounded(h: Seq<BusEventModel>, e: BusEventModel, size: usize)
    ensures
        history_push(h, e, size).last() == e,
        h.len() <= (if size > 0 { size as int } else { 1 }) ==> history_push(h, e, size).len() <= (if size > 0 { size as int } else { 1 }),
        h.len() >= size && h.len() > 0 ==> history_push(h, e, size).len() == h.len(),
        history_push(h, e, size).drop_last() == (if h.len() >= size && h.len() > 0 { h.drop_first() } else { h }),
{
    if h.len() >= size && h.len() > 0 {
        assert(h.drop_first().push(e).drop_last() =~= h.drop_first());
    } else {
        assert(h.push(e).drop_last() =~= h);
    }
}

/// The history after each of `es` is published in turn onto `h`, with
/// room for `size` events.
pub open spec fn history_after(h: Seq<BusEventModel>, es: Seq<BusEventModel>, size: usize) -> Seq<BusEventModel>
    decreases es.len(),
{
    if es.len() == 0 {
        h
    } else {
        history_push(history_after(h, es.drop_last(), size), es.last(), size)
    }
}

/// The number of events the latest ones keep out of `total`, with room for
/// `size`.
pub open spec fn kept_count(total: int, size: usize) -> int {
    if total < size { total } else { size as int }
}

/// With room for at least one event, publishing `es` in turn onto a
/// history within its room keeps exactly the latest events of the history
/// followed by `es`, as many as there is room for, in publish order: from
/// an empty history, the last min(k, size) of the k events published.
pub proof fn lemma_history_keeps_latest(h: Seq<BusEventModel>, es: Seq<BusEventModel>, size: usize)
    requires
        size >= 1,
        h.len() <= size,
    ensures
        history_after(h, es, size).len() == kept_count(h.len() + es.len() as int, size),
        history_after(h, es, size) == (h + es).subrange(h.len() + es.len() - kept_count(h.len() + es.len() as int, size),
            h.len() + es.len() as int),
    decreases es.len(),
{
    let all = h + es;
    let k = kept_count(all.len() as int, size);
    if es.len() == 0 {
        assert(all =~= h);
        assert(all.subrange(all.len() - k, all.len() as int) =~= h);
    } else {
        let d = es.drop_last();
        let e = es.last();
        lemma_history_keeps_latest(h, d, size);
        let t = h + d;
        let kt = kept_count(t.len() as int, size);
        let r = history_after(h, d, size);
        assert(r == t.subrange(t.len() - kt, t.len() as int));
        assert(all =~= t.push(e));
        if r.len() >= size && r.len() > 0 {
            assert(r.drop_first().push(e) =~= all.subrange(all.len() - k, all.len() as int));
        } else {
            assert(r =~= t);
            assert(r.push(e) =~= all.subrange(all.len() - k, all.len() as int));
        }
    }
}

} // verus!
