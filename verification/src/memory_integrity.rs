use vstd::prelude::*;
use crate::clock::{new_id, now_micros};
use crate::evidence::{Evidence, EvidenceModel, EvidenceType, Severity as EvidenceSeverity};
use crate::forensics::key_pos;
use crate::symbols::{lines_of, text_lines};
use crate::text::{contains_seq, owned, push_char, push_str, seq_contains, str_eq, string_from_chars};
use crate::threat::{strings_view, Severity, ThreatCategory, ThreatEvent, ThreatEventModel, ThreatEvidence, ThreatEvidenceModel};
use crate::value::{store, DataMap, Value, ValueModel};

verus! {

/// Whether a line of a memory map describes a readable, non-writable
/// private mapping (`r-xp` or `r--p`).
pub open spec fn readable_mapping(line: Seq<char>) -> bool {
    contains_seq(line, "r-xp"@) || contains_seq(line, "r--p"@)
}

/// The readable mappings among the first `n` lines, each followed by a
/// newline.
pub open spec fn readable_prefix(lines: Seq<Seq<char>>, n: int) -> Seq<char>
    decreases n,
{
    if n <= 0 {
        Seq::empty()
    } else if readable_mapping(lines[n - 1]) {
        readable_prefix(lines, n - 1) + lines[n - 1] + seq!['\n']
    } else {
        readable_prefix(lines, n - 1)
    }
}

/// What is hashed of a process's memory map: the text of its readable
/// private mappings, each line followed by a newline; `None` when there
/// is none.
pub open spec fn readable_maps(content: Seq<char>) -> Option<Seq<char>> {
    let t = readable_prefix(text_lines(content), text_lines(content).len() as int);
    if t.len() == 0 { None } else { Some(t) }
}

/// The text of the readable private mappings of a memory map, to be
/// hashed; `None` when there is none.
pub fn readable_maps_text(content: &str) -> (r: Option<String>)
    ensures
        match readable_maps(content@) {
            Some(t) => r matches Some(s) && s@ == t,
            None => r is None,
        },
{
    let lines = lines_of(content);
    let ghost tl = text_lines(content@);
    let mut out = String::new();
    let mut i: usize = 0;
    while i < lines.len()
        invariant
            i <= lines@.len() == tl.len(),
            tl == text_lines(content@),
            forall|k: int| 0 <= k < lines@.len() ==> lines@[k]@ == tl[k],
            out@ == readable_prefix(tl, i as int),
        decreases lines.len() - i,
    {
        let line = &lines[i];
        assert(line@ == tl[i as int]);
        if seq_contains(line, "r-xp") || seq_contains(line, "r--p") {
            push_str(&mut out, string_from_chars(line).as_str());
            push_char(&mut out, '\n');
            assert(out@ =~= readable_prefix(tl, i as int) + tl[i as int] + seq!['\n']);
        }
        i += 1;
    }
    if out.as_str().is_empty() {
        None
    } else {
        Some(out)
    }
}

/// The key under which the digest of the readable mappings is kept.
pub open spec fn maps_key() -> Seq<char> {
    "self_maps_r"@
}

/// The key under which the digest of the kernel symbol list is kept.
pub open spec fn kallsyms_key() -> Seq<char> {
    "/proc/kallsyms"@
}

/// The digest kept under `k`, if any.
pub open spec fn kept(b: Seq<(Seq<char>, Seq<char>)>, k: Seq<char>) -> Option<Seq<char>> {
    match key_pos(b, k) {
        Some(i) => Some(b[i].1),
        None => None,
    }
}

/// The entries after `k` is set to digest `v`: one of that key keeps
/// its place, otherwise the entry goes at the end.
pub open spec fn keep(b: Seq<(Seq<char>, Seq<char>)>, k: Seq<char>, v: Seq<char>) -> Seq<(Seq<char>, Seq<char>)> {
    match key_pos(b, k) {
        Some(i) => b.update(i, (k, v)),
        None => b.push((k, v)),
    }
}

/// What the checker found of one watched digest: the baseline and the
/// current digest, where both exist and differ.
pub open spec fn changed(b: Seq<(Seq<char>, Seq<char>)>, k: Seq<char>, current: Option<Seq<char>>) -> Option<(Seq<char>, Seq<char>)> {
    match (current, kept(b, k)) {
        (Some(c), Some(bh)) => if c != bh { Some((bh, c)) } else { None },
        _ => None,
    }
}

/// A digest read back unchanged from the baseline is no change, and
/// without a baseline digest nothing is a change.
pub proof fn lemma_unchanged_digest_is_no_change(b: Seq<(Seq<char>, Seq<char>)>, k: Seq<char>, current: Option<Seq<char>>)
    requires
        current is None || current == kept(b, k) || kept(b, k) is None,
    ensures
        changed(b, k, current) is None,
{
}

/// The data recorded of a changed digest.
pub open spec fn change_data(d: (Seq<char>, Seq<char>)) -> Seq<(Seq<char>, ValueModel)> {
    store(store(Seq::empty(), "baseline"@, ValueModel::Text(d.0)), "current"@, ValueModel::Text(d.1))
}

/// The threat reported when the readable mappings changed.
pub open spec fn maps_threat(d: (Seq<char>, Seq<char>), id: u128, timestamp: i64) -> ThreatEventModel {
    ThreatEventModel {
        id,
        timestamp,
        severity: Severity::High,
        category: ThreatCategory::MemoryTampering,
        title: "SentinelX memory maps modified"@,
        description: "The memory mappings of the sentinelx process have changed since baseline."@,
        evidence: seq![ThreatEvidenceModel { description: "Memory maps hash mismatch"@, data: change_data(d), confidence: 900_000 }],
        mitre_attack: seq!["T1055"@],
        source_detector: "memory_integrity"@,
        process: None,
        tags: seq!["memory"@, "tampering"@],
    }
}

/// The threat reported when the kernel symbol list changed.
pub open spec fn kallsyms_threat(d: (Seq<char>, Seq<char>), id: u128, timestamp: i64) -> ThreatEventModel {
    ThreatEventModel {
        id,
        timestamp,
        severity: Severity::Critical,
        category: ThreatCategory::MemoryTampering,
        title: "/proc/kallsyms modified"@,
        description: "Kernel symbol table has been modified since baseline."@,
        evidence: seq![ThreatEvidenceModel { description: "kallsyms hash mismatch"@, data: change_data(d), confidence: 950_000 }],
        mitre_attack: seq!["T1014"@],
        source_detector: "memory_integrity"@,
        process: None,
        tags: seq!["memory"@, "kallsyms"@],
    }
}

/// The evidence recorded when the readable mappings changed.
pub open spec fn maps_evidence(d: (Seq<char>, Seq<char>), id: u128, timestamp: i64) -> EvidenceModel {
    EvidenceModel {
        id,
        timestamp,
        evidence_type: EvidenceType::MemoryIntegrity,
        severity: EvidenceSeverity::High,
        source: "memory_integrity"@,
        description: "SentinelX memory maps modified"@,
        data: change_data(d),
        tags: seq!["memory"@, "tampering"@],
        confidence: 900_000,
        related_evidence: Seq::empty(),
    }
}

/// The evidence recorded when the kernel symbol list changed.
pub open spec fn kallsyms_evidence(d: (Seq<char>, Seq<char>), id: u128, timestamp: i64) -> EvidenceModel {
    EvidenceModel {
        id,
        timestamp,
        evidence_type: EvidenceType::MemoryIntegrity,
        severity: EvidenceSeverity::Critical,
        source: "memory_integrity"@,
        description: "/proc/kallsyms modified"@,
        data: change_data(d),
        tags: seq!["memory"@, "kallsyms"@],
        confidence: 950_000,
        related_evidence: Seq::empty(),
    }
}

/// The plain contents of optional text.
pub open spec fn opt_view(o: Option<String>) -> Option<Seq<char>> {
    match o {
        Some(s) => Some(s@),
        None => None,
    }
}

fn data2(b: &String, c: &String) -> (m: DataMap)
    ensures
        m@ == change_data((b@, c@)),
{
    let mut m = DataMap::new();
    m.insert(owned("baseline"), Value::String(b.clone()));
    m.insert(owned("current"), Value::String(c.clone()));
    m
}

fn two(a: &str, b: &str) -> (r: Vec<String>)
    ensures
        strings_view(r@) == seq![a@, b@],
{
    let mut r: Vec<String> = Vec::new();
    r.push(owned(a));
    r.push(owned(b));
    assert(strings_view(r@) =~= seq![a@, b@]);
    r
}

fn one(a: &str) -> (r: Vec<String>)
    ensures
        strings_view(r@) == seq![a@],
{
    let mut r: Vec<String> = Vec::new();
    r.push(owned(a));
    assert(strings_view(r@) =~= seq![a@]);
    r
}

/// Watches the process's readable memory mappings and the kernel symbol
/// list against the digests taken as a baseline.
pub struct MemoryIntegrityChecker {
    baseline: Vec<(String, String)>,
}

impl MemoryIntegrityChecker {
    /// The baseline digests by key.
    pub closed spec fn digests(&self) -> Seq<(Seq<char>, Seq<char>)> {
        self.baseline@.map_values(|p: (String, String)| (p.0@, p.1@))
    }

    /// A checker with no baseline.
    pub fn new() -> (c: MemoryIntegrityChecker)
        ensures
            c.digests().len() == 0,
    {
        let c = MemoryIntegrityChecker { baseline: Vec::new() };
        assert(c.digests() =~= Seq::<(Seq<char>, Seq<char>)>::empty());
        c
    }

    fn find(&self, k: &str) -> (r: Option<usize>)
        ensures
            r matches Some(i) ==> key_pos(self.digests(), k@) == Some(i as int) && i < self.baseline@.len(),
            r is None ==> key_pos(self.digests(), k@) is None,
    {
        let ghost d = self.digests();
        let mut j: usize = self.baseline.len();
        assert(d.take(j as int) =~= d);
        while j > 0
            invariant
                j <= self.baseline@.len() == d.len(),
                d == self.digests(),
                key_pos(d, k@) == key_pos(d.take(j as int), k@),
            decreases j,
        {
            assert(d.take(j as int).drop_last() =~= d.take(j - 1));
            if str_eq(self.baseline[j - 1].0.as_str(), k) {
                return Some(j - 1);
            }
            j -= 1;
        }
        None
    }

    fn put(&mut self, k: &str, v: String)
        ensures
            final(self).digests() == keep(old(self).digests(), k@, v@),
    {
        let ghost before = self.digests();
        let ghost vv = v@;
        match self.find(k) {
            Some(i) => {
                self.baseline.set(i, (owned(k), v));
                assert(self.digests() =~= before.update(i as int, (k@, vv)));
            },
            None => {
                self.baseline.push((owned(k), v));
                assert(self.digests() =~= before.push((k@, vv)));
            },
        }
    }

    fn get(&self, k: &str) -> (r: Option<&String>)
        ensures
            match kept(self.digests(), k@) {
                Some(h) => r matches Some(s) && s@ == h,
                None => r is None,
            },
    {
        match self.find(k) {
            Some(i) => Some(&self.baseline[i].1),
            None => None,
        }
    }

    /// Takes the baseline: the digest of the kernel symbol list and that
    /// of the readable mappings, each where it could be taken.
    pub fn baseline(&mut self, kallsyms: Option<String>, maps: Option<String>)
        ensures
            final(self).digests() == ({
                let a = match kallsyms {
                    Some(h) => keep(old(self).digests(), kallsyms_key(), h@),
                    None => old(self).digests(),
                };
                match maps {
                    Some(h) => keep(a, maps_key(), h@),
                    None => a,
                }
            }),
    {
        if let Some(h) = kallsyms {
            self.put("/proc/kallsyms", h);
        }
        if let Some(h) = maps {
            self.put("self_maps_r", h);
        }
    }

    /// The threats found, given the digest of the readable mappings and of
    /// the kernel symbol list read now (`None` where they could not be
    /// taken): one for the mappings, then one for the symbol list, each
    /// where its digest changed from the baseline.
    pub fn detect(&self, maps: &Option<String>, kallsyms: &Option<String>) -> (r: Vec<ThreatEvent>)
        ensures
            ({
                let m = changed(self.digests(), maps_key(), opt_view(*maps));
                let k = changed(self.digests(), kallsyms_key(), opt_view(*kallsyms));
                &&& r@.len() == (if m is Some { 1int } else { 0 }) + (if k is Some { 1int } else { 0 })
                &&& (m matches Some(d) ==> r@[0]@ == maps_threat(d, r@[0].id, r@[0].timestamp))
                &&& (k matches Some(d) ==> r@.last()@ == kallsyms_threat(d, r@.last().id, r@.last().timestamp))
            }),
    {
        let mut r: Vec<ThreatEvent> = Vec::new();
        if let Some(c) = maps {
            if let Some(b) = self.get("self_maps_r") {
                if !str_eq(c.as_str(), b.as_str()) {
                    let t = ThreatEvent {
                        id: new_id(),
                        timestamp: now_micros(),
                        severity: Severity::High,
                        category: ThreatCategory::MemoryTampering,
                        title: owned("SentinelX memory maps modified"),
                        description: owned("The memory mappings of the sentinelx process have changed since baseline."),
                        evidence: vec![ThreatEvidence {
                            description: owned("Memory maps hash mismatch"),
                            data: data2(b, c),
                            confidence: 900_000,
                        }],
                        mitre_attack: one("T1055"),
                        source_detector: owned("memory_integrity"),
                        process: None,
                        tags: two("memory", "tampering"),
                    };
                    assert(t@.evidence =~= seq![ThreatEvidenceModel {
                        description: "Memory maps hash mismatch"@,
                        data: change_data((b@, c@)),
                        confidence: 900_000,
                    }]);
                    r.push(t);
                }
            }
        }
        if let Some(c) = kallsyms {
            if let Some(b) = self.get("/proc/kallsyms") {
                if !str_eq(c.as_str(), b.as_str()) {
                    let t = ThreatEvent {
                        id: new_id(),
                        timestamp: now_micros(),
                        severity: Severity::Critical,
                        category: ThreatCategory::MemoryTampering,
                        title: owned("/proc/kallsyms modified"),
                        description: owned("Kernel symbol table has been modified since baseline."),
                        evidence: vec![ThreatEvidence {
                            description: owned("kallsyms hash mismatch"),
                            data: data2(b, c),
                            confidence: 950_000,
                        }],
                        mitre_attack: one("T1014"),
                        source_detector: owned("memory_integrity"),
                        process: None,
                        tags: two("memory", "kallsyms"),
                    };
                    assert(t@.evidence =~= seq![ThreatEvidenceModel {
                        description: "kallsyms hash mismatch"@,
                        data: change_data((b@, c@)),
                        confidence: 950_000,
                    }]);
                    r.push(t);
                }
            }
        }
        r
    }

    /// The evidence found, as for `detect`: one item for the mappings,
    /// then one for the symbol list, each where its digest changed.
    pub fn collect_evidence(&self, maps: &Option<String>, kallsyms: &Option<String>) -> (r: Vec<Evidence>)
        ensures
            ({
                let m = changed(self.digests(), maps_key(), opt_view(*maps));
                let k = changed(self.digests(), kallsyms_key(), opt_view(*kallsyms));
                &&& r@.len() == (if m is Some { 1int } else { 0 }) + (if k is Some { 1int } else { 0 })
                &&& (m matches Some(d) ==> r@[0]@ == maps_evidence(d, r@[0].id, r@[0].timestamp))
                &&& (k matches Some(d) ==> r@.last()@ == kallsyms_evidence(d, r@.last().id, r@.last().timestamp))
            }),
    {
        let mut r: Vec<Evidence> = Vec::new();
        if let Some(c) = maps {
            if let Some(b) = self.get("self_maps_r") {
                if !str_eq(c.as_str(), b.as_str()) {
                    let e = Evidence::new(EvidenceType::MemoryIntegrity, EvidenceSeverity::High, owned("memory_integrity"),
                        owned("SentinelX memory maps modified"));
                    assert(e@.data =~= Seq::<(Seq<char>, ValueModel)>::empty());
                    assert(e@.tags =~= Seq::<Seq<char>>::empty());
                    assert(e@.related_evidence =~= Seq::<u128>::empty());
                    let e = e.with_data(owned("baseline"), Value::String(b.clone()))
                        .with_data(owned("current"), Value::String(c.clone()))
                        .with_confidence(900_000)
                        .with_tag(owned("memory"))
                        .with_tag(owned("tampering"));
                    assert(e@.tags =~= seq!["memory"@, "tampering"@]);
                    r.push(e);
                }
            }
        }
        if let Some(c) = kallsyms {
            if let Some(b) = self.get("/proc/kallsyms") {
                if !str_eq(c.as_str(), b.as_str()) {
                    let e = Evidence::new(EvidenceType::MemoryIntegrity, EvidenceSeverity::Critical, owned("memory_integrity"),
                        owned("/proc/kallsyms modified"));
                    assert(e@.data =~= Seq::<(Seq<char>, ValueModel)>::empty());
                    assert(e@.tags =~= Seq::<Seq<char>>::empty());
                    assert(e@.related_evidence =~= Seq::<u128>::empty());
                    let e = e.with_data(owned("baseline"), Value::String(b.clone()))
                        .with_data(owned("current"), Value::String(c.clone()))
                        .with_confidence(950_000)
                        .with_tag(owned("memory"))
                        .with_tag(owned("kallsyms"));
                    assert(e@.tags =~= seq!["memory"@, "kallsyms"@]);
                    r.push(e);
                }
            }
        }
        r
    }

    pub fn name(&self) -> (s: &'static str)
        ensures
            s@ == "memory_integrity"@,
    {
        "memory_integrity"
    }

    pub fn description(&self) -> (s: &'static str)
        ensures
            s@ == "Monitors kernel memory sections, symbol tables, and process memory mappings"@,
    {
        "Monitors kernel memory sections, symbol tables, and process memory mappings"
    }

    pub fn category(&self) -> (c: ThreatCategory)
        ensures
            c == ThreatCategory::MemoryTampering,
    {
        ThreatCategory::MemoryTampering
    }

    pub fn severity(&self) -> (s: Severity)
        ensures
            s == Severity::High,
    {
        Severity::High
    }

    pub fn get_evidence_type(&self) -> (t: EvidenceType)
        ensures
            t == EvidenceType::MemoryIntegrity,
    {
        EvidenceType::MemoryIntegrity
    }

    pub fn get_source(&self) -> (s: String)
        ensures
            s@ == "memory_integrity"@,
    {
        owned("memory_integrity")
    }
}

} // verus!
