use vstd::prelude::*;
use crate::assessment::{clamp_confidence, clamped_confidence};
use crate::clock::{new_id, now_micros};
use crate::text::{owned, push_str, str_eq};
use crate::threat::{duplicate_strings, strings_view};
use crate::value::{store, DataMap, Value, ValueModel};

verus! {

/// A failure of the evidence store, with its message.
#[derive(Debug)]
pub enum EvidenceError {
    StorageError(String),
    ValidationError(String),
    SerializationError(String),
}

impl EvidenceError {
    /// The text of the error: what failed and the message.
    pub open spec fn text(self) -> Seq<char> {
        match self {
            EvidenceError::StorageError(m) => "Evidence storage error: "@ + m@,
            EvidenceError::ValidationError(m) => "Evidence validation error: "@ + m@,
            EvidenceError::SerializationError(m) => "Evidence serialization error: "@ + m@,
        }
    }

    /// The text of the error: what failed and the message.
    pub fn message(&self) -> (s: String)
        ensures
            s@ == self.text(),
    {
        let (prefix, m) = match self {
            EvidenceError::StorageError(m) => ("Evidence storage error: ", m),
            EvidenceError::ValidationError(m) => ("Evidence validation error: ", m),
            EvidenceError::SerializationError(m) => ("Evidence serialization error: ", m),
        };
        let mut s = owned(prefix);
        push_str(&mut s, m.as_str());
        s
    }
}


/// What part of the system a piece of evidence is about.
#[derive(Debug, Clone, Copy, PartialEq, Eq, Hash, Structural)]
pub enum EvidenceType {
    FileIntegrity,
    ProcessIntegrity,
    NetworkIntegrity,
    KernelIntegrity,
    MemoryIntegrity,
    ModuleIntegrity,
    PersistenceIntegrity,
    SystemIntegrity,
    UserActivity,
    SecurityEvent,
}

impl EvidenceType {
    /// The variant's name as written in the source (`KernelIntegrity`, ...).
    pub open spec fn variant_name(self) -> Seq<char> {
        match self {
            EvidenceType::FileIntegrity => "FileIntegrity"@,
            EvidenceType::ProcessIntegrity => "ProcessIntegrity"@,
            EvidenceType::NetworkIntegrity => "NetworkIntegrity"@,
            EvidenceType::KernelIntegrity => "KernelIntegrity"@,
            EvidenceType::MemoryIntegrity => "MemoryIntegrity"@,
            EvidenceType::ModuleIntegrity => "ModuleIntegrity"@,
            EvidenceType::PersistenceIntegrity => "PersistenceIntegrity"@,
            EvidenceType::SystemIntegrity => "SystemIntegrity"@,
            EvidenceType::UserActivity => "UserActivity"@,
            EvidenceType::SecurityEvent => "SecurityEvent"@,
        }
    }

    /// The variant's name as written in the source (`KernelIntegrity`, ...).
    pub fn variant_str(&self) -> (s: &'static str)
        ensures
            s@ == self.variant_name(),
    {
        match self {
            EvidenceType::FileIntegrity => "FileIntegrity",
            EvidenceType::ProcessIntegrity => "ProcessIntegrity",
            EvidenceType::NetworkIntegrity => "NetworkIntegrity",
            EvidenceType::KernelIntegrity => "KernelIntegrity",
            EvidenceType::MemoryIntegrity => "MemoryIntegrity",
            EvidenceType::ModuleIntegrity => "ModuleIntegrity",
            EvidenceType::PersistenceIntegrity => "PersistenceIntegrity",
            EvidenceType::SystemIntegrity => "SystemIntegrity",
            EvidenceType::UserActivity => "UserActivity",
            EvidenceType::SecurityEvent => "SecurityEvent",
        }
    }
}

/// Severity of a piece of evidence.
#[derive(Debug, Clone, Copy, PartialEq, Eq, Hash, Structural)]
pub enum Severity {
    Info,
    Low,
    Medium,
    High,
    Critical,
}

impl Severity {
    /// The position of the severity in the order `Info < Low < ... < Critical`.
    pub open spec fn rank(self) -> u8 {
        match self {
            Severity::Info => 0,
            Severity::Low => 1,
            Severity::Medium => 2,
            Severity::High => 3,
            Severity::Critical => 4,
        }
    }

    /// The lower-case name of the severity.
    pub open spec fn name(self) -> Seq<char> {
        match self {
            Severity::Info => "info"@,
            Severity::Low => "low"@,
            Severity::Medium => "medium"@,
            Severity::High => "high"@,
            Severity::Critical => "critical"@,
        }
    }

    /// The severity named `s`; any other text is `Info`.
    pub open spec fn from_name(s: Seq<char>) -> Severity {
        if s == "critical"@ {
            Severity::Critical
        } else if s == "high"@ {
            Severity::High
        } else if s == "medium"@ {
            Severity::Medium
        } else if s == "low"@ {
            Severity::Low
        } else {
            Severity::Info
        }
    }

    pub fn from_common(severity: &str) -> (r: Severity)
        ensures
            r == Severity::from_name(severity@),
    {
        if str_eq(severity, "critical") {
            Severity::Critical
        } else if str_eq(severity, "high") {
            Severity::High
        } else if str_eq(severity, "medium") {
            Severity::Medium
        } else if str_eq(severity, "low") {
            Severity::Low
        } else {
            Severity::Info
        }
    }

    pub fn as_str(&self) -> (s: &'static str)
        ensures
            s@ == self.name(),
    {
        match self {
            Severity::Info => "info",
            Severity::Low => "low",
            Severity::Medium => "medium",
            Severity::High => "high",
            Severity::Critical => "critical",
        }
    }

    /// The position of the severity in the order `Info < Low < ... < Critical`.
    pub fn rank_of(&self) -> (r: u8)
        ensures
            r == self.rank(),
    {
        match self {
            Severity::Info => 0,
            Severity::Low => 1,
            Severity::Medium => 2,
            Severity::High => 3,
            Severity::Critical => 4,
        }
    }
}

/// A recorded piece of evidence.  `timestamp` is in microseconds since the
/// Unix epoch; `confidence` is in millionths.
pub struct Evidence {
    pub id: u128,
    pub timestamp: i64,
    pub evidence_type: EvidenceType,
    pub severity: Severity,
    pub source: String,
    pub description: String,
    pub data: DataMap,
    pub tags: Vec<String>,
    pub confidence: u32,
    pub related_evidence: Vec<u128>,
}

/// The mathematical content of an [`Evidence`].
pub struct EvidenceModel {
    pub id: u128,
    pub timestamp: i64,
    pub evidence_type: EvidenceType,
    pub severity: Severity,
    pub source: Seq<char>,
    pub description: Seq<char>,
    pub data: Seq<(Seq<char>, ValueModel)>,
    pub tags: Seq<Seq<char>>,
    pub confidence: u32,
    pub related_evidence: Seq<u128>,
}

impl View for Evidence {
    type V = EvidenceModel;

    open spec fn view(&self) -> EvidenceModel {
        EvidenceModel {
            id: self.id,
            timestamp: self.timestamp,
            evidence_type: self.evidence_type,
            severity: self.severity,
            source: self.source@,
            description: self.description@,
            data: self.data@,
            tags: strings_view(self.tags@),
            confidence: self.confidence,
            related_evidence: self.related_evidence@,
        }
    }
}

/// The views of a sequence of evidence.
pub open spec fn evidence_view(v: Seq<Evidence>) -> Seq<EvidenceModel> {
    Seq::new(v.len(), |i: int| v[i]@)
}

impl Evidence {
    /// Fresh evidence with a new random id, the current time, full
    /// confidence and no data, tags or related evidence.
    pub fn new(evidence_type: EvidenceType, severity: Severity, source: String, description: String) -> (e: Evidence)
        ensures
            e.evidence_type == evidence_type,
            e.severity == severity,
            e.source@ == source@,
            e.description@ == description@,
            e.data@.len() == 0,
            e.tags@.len() == 0,
            e.confidence == crate::assessment::CONFIDENCE_ONE,
            e.related_evidence@.len() == 0,
    {
        Evidence {
            id: new_id(),
            timestamp: now_micros(),
            evidence_type,
            severity,
            source,
            description,
            data: DataMap::new(),
            tags: Vec::new(),
            confidence: crate::assessment::CONFIDENCE_ONE,
            related_evidence: Vec::new(),
        }
    }

    /// Stores `value` under `key` in the evidence's data.
    pub fn with_data(self, key: String, value: Value) -> (r: Evidence)
        ensures
            r@ == (EvidenceModel { data: store(self@.data, key@, value@), ..self@ }),
    {
        let mut e = self;
        e.data.insert(key, value);
        e
    }

    pub fn with_tag(self, tag: String) -> (r: Evidence)
        ensures
            r@ == (EvidenceModel { tags: self@.tags.push(tag@), ..self@ }),
    {
        let mut e = self;
        let ghost old_tags = e.tags@;
        e.tags.push(tag);
        assert(strings_view(e.tags@) =~= strings_view(old_tags).push(tag@));
        e
    }

    /// Sets the confidence (in millionths), clamped to `0 ..= CONFIDENCE_ONE`.
    pub fn with_confidence(self, confidence: i64) -> (r: Evidence)
        ensures
            r@ == (EvidenceModel { confidence: clamp_confidence(confidence as int), ..self@ }),
    {
        let mut e = self;
        e.confidence = clamped_confidence(confidence);
        e
    }

    pub fn with_related_evidence(self, evidence_id: u128) -> (r: Evidence)
        ensures
            r@ == (EvidenceModel { related_evidence: self@.related_evidence.push(evidence_id), ..self@ }),
    {
        let mut e = self;
        e.related_evidence.push(evidence_id);
        e
    }

    pub fn duplicate(&self) -> (r: Evidence)
        ensures
            r@ == self@,
    {
        Evidence {
            id: self.id,
            timestamp: self.timestamp,
            evidence_type: self.evidence_type,
            severity: self.severity,
            source: self.source.clone(),
            description: self.description.clone(),
            data: self.data.duplicate(),
            tags: duplicate_strings(&self.tags),
            confidence: self.confidence,
            related_evidence: self.related_evidence.clone(),
        }
    }
}

/// The positions `i` (in increasing order) of the items for which `p(i)`.
pub open spec fn positions(n: int, p: spec_fn(int) -> bool) -> Seq<int>
    decreases n,
{
    if n <= 0 {
        Seq::empty()
    } else if p(n - 1) {
        positions(n - 1, p).push(n - 1)
    } else {
        positions(n - 1, p)
    }
}

/// The items of `v` whose positions are listed in `idx`.
pub open spec fn pick<T>(v: Seq<T>, idx: Seq<int>) -> Seq<T> {
    Seq::new(idx.len(), |k: int| v[idx[k]])
}

/// The views of the referenced evidence.
pub open spec fn ref_view(v: Seq<&Evidence>) -> Seq<EvidenceModel> {
    Seq::new(v.len(), |i: int| v[i]@)
}

/// An append-only collection of evidence with lookups by type, severity,
/// source and tag; lookups return items in the order they were added.
pub struct EvidenceStore {
    pub evidence: Vec<Evidence>,
}

impl EvidenceStore {
    pub open spec fn items(&self) -> Seq<EvidenceModel> {
        evidence_view(self.evidence@)
    }

    pub fn new() -> (s: EvidenceStore)
        ensures
            s.evidence@.len() == 0,
    {
        EvidenceStore { evidence: Vec::new() }
    }

    pub fn with_capacity(capacity: usize) -> (s: EvidenceStore)
        ensures
            s.evidence@.len() == 0,
    {
        EvidenceStore { evidence: Vec::with_capacity(capacity) }
    }

    pub fn add_evidence(&mut self, evidence: Evidence)
        ensures
            final(self).items() == old(self).items().push(evidence@),
    {
        let ghost old_items = self.items();
        self.evidence.push(evidence);
        assert(self.items() =~= old_items.push(evidence@));
    }

    /// Adds the items in order.
    pub fn add_batch(&mut self, items: Vec<Evidence>)
        ensures
            final(self).items() == old(self).items() + evidence_view(items@),
    {
        let ghost old_items = self.items();
        let ghost all = evidence_view(items@);
        let n = items.len();
        let mut src = items;
        let mut stack: Vec<Evidence> = Vec::new();
        while src.len() > 0
            invariant
                src.len() + stack.len() == n,
                n == all.len(),
                evidence_view(src@) == all.subrange(0, src.len() as int),
                forall|k: int| 0 <= k < stack.len() ==> stack@[k]@ == all[n - 1 - k],
            decreases src.len(),
        {
            let ghost old_src = src@;
            let e = src.pop().unwrap();
            assert(evidence_view(old_src)[src.len() as int] == e@);
            assert(all.subrange(0, old_src.len() as int)[src.len() as int] == all[src.len() as int]);
            stack.push(e);
            assert(evidence_view(src@) =~= all.subrange(0, src.len() as int));
        }
        let mut k: usize = 0;
        while stack.len() > 0
            invariant
                k + stack.len() == n,
                n == all.len(),
                forall|j: int| 0 <= j < stack.len() ==> stack@[j]@ == all[n - 1 - j],
                self.items() == old_items + all.subrange(0, k as int),
            decreases stack.len(),
        {
            let e = stack.pop().unwrap();
            let ghost before = self.items();
            self.evidence.push(e);
            assert(self.items() =~= before.push(e@));
            assert(all.subrange(0, k + 1) =~= all.subrange(0, k as int).push(all[k as int]));
            k += 1;
        }
        assert(all.subrange(0, n as int) =~= all);
    }

    /// The items satisfying `p`, in the order they were added.
    fn select(&self, which: u8, ty: EvidenceType, sev: Severity, key: &str, threshold: u32, id: u128) -> (r: Vec<&Evidence>)
        ensures
            ref_view(r@) == pick(self.items(), positions(self.items().len() as int,
                |i: int| Self::selects(self.items()[i], which, ty, sev, key@, threshold, id))),
    {
        let ghost p = |i: int| Self::selects(self.items()[i], which, ty, sev, key@, threshold, id);
        let mut r: Vec<&Evidence> = Vec::new();
        let mut i: usize = 0;
        while i < self.evidence.len()
            invariant
                i <= self.evidence.len(),
                p == (|i: int| Self::selects(self.items()[i], which, ty, sev, key@, threshold, id)),
                ref_view(r@) == pick(self.items(), positions(i as int, p)),
            decreases self.evidence.len() - i,
        {
            let e = &self.evidence[i];
            let hit = if which == 0 {
                e.evidence_type == ty
            } else if which == 1 {
                e.severity == sev
            } else if which == 2 {
                e.source == key.to_owned()
            } else if which == 3 {
                contains_string(&e.tags, key)
            } else if which == 4 {
                e.confidence >= threshold
            } else {
                contains_id(&e.related_evidence, id)
            };
            let ghost before = r@;
            if hit {
                r.push(e);
                assert(ref_view(r@) =~= ref_view(before).push(self.items()[i as int]));
                assert(pick(self.items(), positions(i + 1, p)) =~= pick(self.items(), positions(i as int, p)).push(self.items()[i as int]));
            } else {
                assert(positions(i + 1, p) == positions(i as int, p));
            }
            i += 1;
        }
        r
    }

    /// Whether the evidence `e` is chosen by the lookup `which`.
    pub open spec fn selects(e: EvidenceModel, which: u8, ty: EvidenceType, sev: Severity, key: Seq<char>, threshold: u32, id: u128) -> bool {
        if which == 0 {
            e.evidence_type == ty
        } else if which == 1 {
            e.severity == sev
        } else if which == 2 {
            e.source == key
        } else if which == 3 {
            e.tags.contains(key)
        } else if which == 4 {
            e.confidence >= threshold
        } else {
            e.related_evidence.contains(id)
        }
    }

    pub fn get_evidence_by_type(&self, evidence_type: &EvidenceType) -> (r: Vec<&Evidence>)
        ensures
            ref_view(r@) == pick(self.items(), positions(self.items().len() as int,
                |i: int| self.items()[i].evidence_type == *evidence_type)),
    {
        let r = self.select(0, *evidence_type, Severity::Info, "", 0, 0);
        assert((|i: int| Self::selects(self.items()[i], 0, *evidence_type, Severity::Info, ""@, 0, 0))
            == (|i: int| self.items()[i].evidence_type == *evidence_type));
        r
    }

    pub fn get_evidence_by_severity(&self, severity: &Severity) -> (r: Vec<&Evidence>)
        ensures
            ref_view(r@) == pick(self.items(), positions(self.items().len() as int,
                |i: int| self.items()[i].severity == *severity)),
    {
        let r = self.select(1, EvidenceType::FileIntegrity, *severity, "", 0, 0);
        assert((|i: int| Self::selects(self.items()[i], 1, EvidenceType::FileIntegrity, *severity, ""@, 0, 0))
            == (|i: int| self.items()[i].severity == *severity));
        r
    }

    pub fn get_evidence_by_source(&self, source: &str) -> (r: Vec<&Evidence>)
        ensures
            ref_view(r@) == pick(self.items(), positions(self.items().len() as int,
                |i: int| self.items()[i].source == source@)),
    {
        let r = self.select(2, EvidenceType::FileIntegrity, Severity::Info, source, 0, 0);
        assert((|i: int| Self::selects(self.items()[i], 2, EvidenceType::FileIntegrity, Severity::Info, source@, 0, 0))
            == (|i: int| self.items()[i].source == source@));
        r
    }

    pub fn get_evidence_by_tag(&self, tag: &str) -> (r: Vec<&Evidence>)
        ensures
            ref_view(r@) == pick(self.items(), positions(self.items().len() as int,
                |i: int| self.items()[i].tags.contains(tag@))),
    {
        let r = self.select(3, EvidenceType::FileIntegrity, Severity::Info, tag, 0, 0);
        assert((|i: int| Self::selects(self.items()[i], 3, EvidenceType::FileIntegrity, Severity::Info, tag@, 0, 0))
            == (|i: int| self.items()[i].tags.contains(tag@)));
        r
    }

    /// The items whose confidence (in millionths) is at least `threshold`.
    pub fn get_high_confidence_evidence(&self, threshold: u32) -> (r: Vec<&Evidence>)
        ensures
            ref_view(r@) == pick(self.items(), positions(self.items().len() as int,
                |i: int| self.items()[i].confidence >= threshold)),
    {
        let r = self.select(4, EvidenceType::FileIntegrity, Severity::Info, "", threshold, 0);
        assert((|i: int| Self::selects(self.items()[i], 4, EvidenceType::FileIntegrity, Severity::Info, ""@, threshold, 0))
            == (|i: int| self.items()[i].confidence >= threshold));
        r
    }

    /// The items that list `evidence_id` among their related evidence.
    pub fn get_related_evidence(&self, evidence_id: u128) -> (r: Vec<&Evidence>)
        ensures
            ref_view(r@) == pick(self.items(), positions(self.items().len() as int,
                |i: int| self.items()[i].related_evidence.contains(evidence_id))),
    {
        let r = self.select(5, EvidenceType::FileIntegrity, Severity::Info, "", 0, evidence_id);
        assert((|i: int| Self::selects(self.items()[i], 5, EvidenceType::FileIntegrity, Severity::Info, ""@, 0, evidence_id))
            == (|i: int| self.items()[i].related_evidence.contains(evidence_id)));
        r
    }

    /// The distinct sources of the stored items, in order of first appearance.
    pub fn unique_sources(&self) -> (r: Vec<String>)
        ensures
            forall|s: Seq<char>| strings_view(r@).contains(s) <==>
                exists|i: int| 0 <= i < self.items().len() && self.items()[i].source == s,
            strings_view(r@).no_duplicates(),
    {
        let mut r: Vec<String> = Vec::new();
        let mut i: usize = 0;
        while i < self.evidence.len()
            invariant
                i <= self.evidence.len(),
                strings_view(r@).no_duplicates(),
                forall|s: Seq<char>| strings_view(r@).contains(s) <==>
                    exists|j: int| 0 <= j < i && self.items()[j].source == s,
            decreases self.evidence.len() - i,
        {
            let ghost before = strings_view(r@);
            let src = &self.evidence[i].source;
            if !contains_string(&r, src.as_str()) {
                r.push(src.clone());
                assert(strings_view(r@) =~= before.push(src@));
            }
            assert forall|s: Seq<char>| strings_view(r@).contains(s) <==>
                exists|j: int| 0 <= j < i + 1 && self.items()[j].source == s by {
                if strings_view(r@).contains(s) && !before.contains(s) {
                    assert(self.items()[i as int].source == s);
                }
                if exists|j: int| 0 <= j < i + 1 && self.items()[j].source == s {
                    let j = choose|j: int| 0 <= j < i + 1 && self.items()[j].source == s;
                    if j < i {
                        assert(before.contains(s));
                        let k = choose|k: int| 0 <= k < before.len() && before[k] == s;
                        assert(strings_view(r@)[k] == s);
                    } else {
                        if before.contains(s) {
                            let k = choose|k: int| 0 <= k < before.len() && before[k] == s;
                            assert(strings_view(r@)[k] == s);
                        } else {
                            assert(strings_view(r@)[strings_view(r@).len() - 1] == s);
                        }
                    }
                }
            }
            i += 1;
        }
        r
    }

    /// The distinct tags of the stored items, in order of first appearance.
    pub fn unique_tags(&self) -> (r: Vec<String>)
        ensures
            forall|s: Seq<char>| strings_view(r@).contains(s) <==>
                exists|i: int| 0 <= i < self.items().len() && self.items()[i].tags.contains(s),
            strings_view(r@).no_duplicates(),
    {
        let mut r: Vec<String> = Vec::new();
        let mut i: usize = 0;
        while i < self.evidence.len()
            invariant
                i <= self.evidence.len(),
                strings_view(r@).no_duplicates(),
                forall|s: Seq<char>| strings_view(r@).contains(s) <==>
                    exists|j: int| 0 <= j < i && self.items()[j].tags.contains(s),
            decreases self.evidence.len() - i,
        {
            let tags = &self.evidence[i].tags;
            let mut t: usize = 0;
            while t < tags.len()
                invariant
                    i < self.evidence.len(),
                    tags == &self.evidence@[i as int].tags,
                    t <= tags.len(),
                    strings_view(r@).no_duplicates(),
                    forall|s: Seq<char>| strings_view(r@).contains(s) <==>
                        (exists|j: int| 0 <= j < i && self.items()[j].tags.contains(s))
                        || strings_view(tags@).subrange(0, t as int).contains(s),
                decreases tags.len() - t,
            {
                let ghost before = strings_view(r@);
                let tag = &tags[t];
                if !contains_string(&r, tag.as_str()) {
                    r.push(tag.clone());
                    assert(strings_view(r@) =~= before.push(tag@));
                }
                let ghost after = strings_view(r@);
                let ghost sub0 = strings_view(tags@).subrange(0, t as int);
                let ghost sub1 = strings_view(tags@).subrange(0, t + 1);
                assert(sub1 =~= sub0.push(tag@));
                assert forall|s: Seq<char>| after.contains(s) <==>
                    (exists|j: int| 0 <= j < i && self.items()[j].tags.contains(s))
                    || sub1.contains(s) by {
                    if before.contains(s) {
                        let k = choose|k: int| 0 <= k < before.len() && #[trigger] before[k] == s;
                        assert(after[k] == s);
                        if sub0.contains(s) {
                            let m = choose|m: int| 0 <= m < sub0.len() && #[trigger] sub0[m] == s;
                            assert(sub1[m] == s);
                        }
                    }
                    if s == tag@ {
                        assert(sub1[t as int] == s);
                        if !before.contains(s) {
                            assert(after[after.len() - 1] == s);
                        }
                    }
                    if sub1.contains(s) {
                        let m = choose|m: int| 0 <= m < sub1.len() && #[trigger] sub1[m] == s;
                        if m < t {
                            assert(sub0[m] == s);
                        }
                    }
                    if after.contains(s) && !before.contains(s) {
                        let m = choose|m: int| 0 <= m < after.len() && #[trigger] after[m] == s;
                        if m < before.len() {
                            assert(before[m] == s);
                        }
                    }
                }
                t += 1;
            }
            assert(strings_view(tags@).subrange(0, tags@.len() as int) =~= self.items()[i as int].tags);
            assert forall|s: Seq<char>| strings_view(r@).contains(s) <==>
                exists|j: int| 0 <= j < i + 1 && self.items()[j].tags.contains(s) by {
                if self.items()[i as int].tags.contains(s) {
                } 
            }
            i += 1;
        }
        r
    }

    pub fn clear(&mut self)
        ensures
            final(self).items().len() == 0,
    {
        self.evidence.clear();
    }

    pub fn len(&self) -> (n: usize)
        ensures
            n == self.items().len(),
    {
        self.evidence.len()
    }

    pub fn is_empty(&self) -> (b: bool)
        ensures
            b == (self.items().len() == 0),
    {
        self.evidence.len() == 0
    }
}

/// Whether the vector holds a string equal to `s`.
pub fn contains_string(v: &Vec<String>, s: &str) -> (r: bool)
    ensures
        r == strings_view(v@).contains(s@),
{
    let k = s.to_owned();
    let mut i: usize = 0;
    while i < v.len()
        invariant
            i <= v.len(),
            k@ == s@,
            forall|j: int| 0 <= j < i ==> v@[j]@ != s@,
        decreases v.len() - i,
    {
        if v[i] == k {
            assert(strings_view(v@)[i as int] == s@);
            return true;
        }
        i += 1;
    }
    assert forall|j: int| 0 <= j < strings_view(v@).len() implies strings_view(v@)[j] != s@ by {
        assert(strings_view(v@)[j] == v@[j]@);
    }
    false
}

/// Whether the vector holds `id`.
pub fn contains_id(v: &Vec<u128>, id: u128) -> (r: bool)
    ensures
        r == v@.contains(id),
{
    let mut i: usize = 0;
    while i < v.len()
        invariant
            i <= v.len(),
            forall|j: int| 0 <= j < i ==> v@[j] != id,
        decreases v.len() - i,
    {
        if v[i] == id {
            return true;
        }
        i += 1;
    }
    false
}

} // verus!
