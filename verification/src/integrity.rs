use vstd::prelude::*;
use crate::clock::{new_id, now_micros};
use crate::evidence::{Evidence, EvidenceModel, EvidenceType, Severity as EvidenceSeverity};
use crate::text::{owned, push_str, str_eq};
use crate::threat::{strings_view, Severity, ThreatCategory, ThreatEvent, ThreatEventModel, ThreatEvidence, ThreatEvidenceModel};
use crate::value::{store, DataMap, Value, ValueModel};

verus! {

/// What a file looked like when the baseline was taken.  `hash` is the
/// hexadecimal digest of its content; `permissions` its mode bits;
/// `checked_at` is in microseconds since the Unix epoch.
#[derive(Debug)]
pub struct BaselineRecord {
    pub path: String,
    pub hash: String,
    pub size: u64,
    pub permissions: u32,
    pub checked_at: i64,
}

/// A file that no longer matches its baseline.
#[derive(Debug)]
pub struct IntegrityViolation {
    pub path: String,
    pub expected_hash: String,
    pub actual_hash: String,
    pub severity: Severity,
}

/// What reading a baselined file again gave.
pub enum FileObservation {
    /// The file could not be read.
    Unreadable,
    /// The digest of its content, and its mode bits when its metadata
    /// could be read.
    Read { hash: String, mode: Option<u32> },
}

/// The verdict on one file as its parts: path, expected digest, actual
/// digest and severity.
pub type Verdict = (Seq<char>, Seq<char>, Seq<char>, Severity);

/// The verdict on a baselined file given what reading it again gave
/// (`empty_hash` being the digest of no bytes): an unreadable file is a
/// critical violation; a changed digest is a violation, critical when the
/// mode changed too or could not be read and high otherwise; an unchanged
/// digest with a changed mode is a critical violation.
pub open spec fn verdict(rec: BaselineRecord, obs: FileObservation, empty_hash: Seq<char>) -> Option<Verdict> {
    match obs {
        FileObservation::Unreadable => Some((rec.path@, rec.hash@, empty_hash, Severity::Critical)),
        FileObservation::Read { hash, mode } => {
            if hash@ != rec.hash@ {
                Some((rec.path@, rec.hash@, hash@, if mode == Some(rec.permissions) { Severity::High } else { Severity::Critical }))
            } else {
                match mode {
                    Some(m) if m != rec.permissions => Some((rec.path@, rec.hash@, hash@, Severity::Critical)),
                    _ => None,
                }
            }
        },
    }
}

/// The violations over the first `n` records, in record order.
pub open spec fn verdicts(recs: Seq<BaselineRecord>, obs: Seq<FileObservation>, empty_hash: Seq<char>, n: int) -> Seq<Verdict>
    decreases n,
{
    if n <= 0 {
        Seq::empty()
    } else {
        let prev = verdicts(recs, obs, empty_hash, n - 1);
        match verdict(recs[n - 1], obs[n - 1], empty_hash) {
            Some(v) => prev.push(v),
            None => prev,
        }
    }
}

/// The parts of a violation.
pub open spec fn violation_view(v: IntegrityViolation) -> Verdict {
    (v.path@, v.expected_hash@, v.actual_hash@, v.severity)
}

fn judge(rec: &BaselineRecord, obs: &FileObservation, empty_hash: &str) -> (r: Option<IntegrityViolation>)
    ensures
        match verdict(*rec, *obs, empty_hash@) {
            Some(v) => r matches Some(x) && violation_view(x) == v,
            None => r is None,
        },
{
    match obs {
        FileObservation::Unreadable => Some(IntegrityViolation {
            path: rec.path.clone(),
            expected_hash: rec.hash.clone(),
            actual_hash: owned(empty_hash),
            severity: Severity::Critical,
        }),
        FileObservation::Read { hash, mode } => {
            if !str_eq(hash.as_str(), rec.hash.as_str()) {
                let same_mode = match mode {
                    Some(m) => *m == rec.permissions,
                    None => false,
                };
                Some(IntegrityViolation {
                    path: rec.path.clone(),
                    expected_hash: rec.hash.clone(),
                    actual_hash: hash.clone(),
                    severity: if same_mode { Severity::High } else { Severity::Critical },
                })
            } else {
                match mode {
                    Some(m) => {
                        if *m != rec.permissions {
                            Some(IntegrityViolation {
                                path: rec.path.clone(),
                                expected_hash: rec.hash.clone(),
                                actual_hash: hash.clone(),
                                severity: Severity::Critical,
                            })
                        } else {
                            None
                        }
                    },
                    None => None,
                }
            }
        },
    }
}

/// The files whose integrity is watched, with what they looked like.
pub struct IntegrityBaseline {
    records: Vec<BaselineRecord>,
}

impl IntegrityBaseline {
    /// The records, in the order taken.
    pub closed spec fn taken(&self) -> Seq<BaselineRecord> {
        self.records@
    }

    /// A baseline with no record.
    pub fn new() -> (b: IntegrityBaseline)
        ensures
            b.taken().len() == 0,
    {
        IntegrityBaseline { records: Vec::new() }
    }

    /// Adds the record of one file, read around the baseline.
    pub fn add_record(&mut self, record: BaselineRecord)
        ensures
            final(self).taken() == old(self).taken().push(record),
    {
        self.records.push(record);
    }

    /// The records, in the order taken.
    pub fn records(&self) -> (r: &[BaselineRecord])
        ensures
            r@ == self.taken(),
    {
        self.records.as_slice()
    }

    /// The violations found when each record's file was read again, given
    /// what each read gave (one observation per record, in order) and the
    /// digest of no bytes.
    pub fn verify(&self, observations: &Vec<FileObservation>, empty_hash: &str) -> (r: Vec<IntegrityViolation>)
        requires
            observations@.len() == self.taken().len(),
        ensures
            Seq::new(r@.len(), |k: int| violation_view(r@[k]))
                == verdicts(self.taken(), observations@, empty_hash@, self.taken().len() as int),
    {
        let ghost recs = self.taken();
        let mut r: Vec<IntegrityViolation> = Vec::new();
        let mut i: usize = 0;
        while i < self.records.len()
            invariant
                i <= self.records@.len(),
                recs == self.taken(),
                observations@.len() == recs.len(),
                Seq::new(r@.len(), |k: int| violation_view(r@[k])) == verdicts(recs, observations@, empty_hash@, i as int),
            decreases self.records.len() - i,
        {
            let ghost before = Seq::new(r@.len(), |k: int| violation_view(r@[k]));
            match judge(&self.records[i], &observations[i], empty_hash) {
                Some(v) => {
                    r.push(v);
                    assert(Seq::new(r@.len(), |k: int| violation_view(r@[k])) =~= before.push(violation_view(r@.last())));
                },
                None => {},
            }
            i += 1;
        }
        r
    }
}

/// The critical system files the integrity detector watches.
pub open spec fn critical_files() -> Seq<Seq<char>> {
    seq!["/etc/passwd"@, "/etc/shadow"@, "/etc/sudoers"@, "/etc/ld.so.preload"@, "/boot/grub/grub.cfg"@, "/etc/crontab"@]
}

/// No critical file is listed twice.
pub proof fn lemma_critical_files_distinct()
    ensures
        forall|a: int, b: int| 0 <= a < critical_files().len() && 0 <= b < critical_files().len() && a != b
            ==> critical_files()[a] != critical_files()[b],
{
    reveal_strlit("/etc/passwd");
    reveal_strlit("/etc/shadow");
    reveal_strlit("/etc/sudoers");
    reveal_strlit("/etc/ld.so.preload");
    reveal_strlit("/boot/grub/grub.cfg");
    reveal_strlit("/etc/crontab");
    let f = critical_files();
    assert(f[0].len() == 11 && f[1].len() == 11 && f[2].len() == 12 && f[3].len() == 18 && f[4].len() == 19
        && f[5].len() == 12);
    assert(f[0][5] != f[1][5]);
    assert(f[2][5] != f[5][5]);
    assert forall|a: int, b: int| 0 <= a < f.len() && 0 <= b < f.len() && a != b implies f[a] != f[b] by {
        if f[a] == f[b] {
            assert(f[a].len() == f[b].len());
            assert(f[a][5] == f[b][5]);
        }
    }
}

/// The critical system files the integrity detector watches.
pub fn critical_file_list() -> (r: Vec<String>)
    ensures
        strings_view(r@) == critical_files(),
{
    let mut r: Vec<String> = Vec::new();
    r.push(owned("/etc/passwd"));
    r.push(owned("/etc/shadow"));
    r.push(owned("/etc/sudoers"));
    r.push(owned("/etc/ld.so.preload"));
    r.push(owned("/boot/grub/grub.cfg"));
    r.push(owned("/etc/crontab"));
    assert(strings_view(r@) =~= critical_files());
    r
}

/// The digest recorded for `path`, if any.
pub open spec fn baseline_hash(b: Seq<(Seq<char>, Seq<char>)>, path: Seq<char>) -> Option<Seq<char>>
    decreases b.len(),
{
    if b.len() == 0 {
        None
    } else if b.last().0 == path {
        Some(b.last().1)
    } else {
        baseline_hash(b.drop_last(), path)
    }
}

/// What the detector found of one critical file: unreadable, or changed
/// from one digest to another.
pub enum Finding {
    Unreadable { path: Seq<char>, baseline: Seq<char> },
    Modified { path: Seq<char>, baseline: Seq<char>, current: Seq<char> },
}

/// The findings over the first `n` critical files, given the digest read
/// now of each (`None` when unreadable): files without a baseline digest
/// are skipped.
pub open spec fn findings(b: Seq<(Seq<char>, Seq<char>)>, current: Seq<Option<Seq<char>>>, n: int) -> Seq<Finding>
    decreases n,
{
    if n <= 0 {
        Seq::empty()
    } else {
        let prev = findings(b, current, n - 1);
        let path = critical_files()[n - 1];
        match baseline_hash(b, path) {
            None => prev,
            Some(bh) => match current[n - 1] {
                None => prev.push(Finding::Unreadable { path, baseline: bh }),
                Some(ch) => if ch != bh {
                    prev.push(Finding::Modified { path, baseline: bh, current: ch })
                } else {
                    prev
                },
            },
        }
    }
}

/// The data recorded for a finding: the path and the baseline digest,
/// and the current digest of a modified file.
pub open spec fn finding_data(f: Finding) -> Seq<(Seq<char>, ValueModel)> {
    match f {
        Finding::Unreadable { path, baseline } =>
            store(store(Seq::empty(), "path"@, ValueModel::Text(path)), "baseline_hash"@, ValueModel::Text(baseline)),
        Finding::Modified { path, baseline, current } =>
            store(store(store(Seq::empty(), "path"@, ValueModel::Text(path)), "baseline_hash"@, ValueModel::Text(baseline)),
                "current_hash"@, ValueModel::Text(current)),
    }
}

/// The threat reported for a finding, with the given id and time.
pub open spec fn finding_threat(f: Finding, id: u128, timestamp: i64) -> ThreatEventModel {
    match f {
        Finding::Unreadable { path, baseline } => ThreatEventModel {
            id,
            timestamp,
            severity: Severity::Critical,
            category: ThreatCategory::IntegrityViolation,
            title: "Critical file unreadable: "@ + path,
            description: "The critical system file "@ + path + " could not be read during integrity check."@,
            evidence: seq![ThreatEvidenceModel { description: "File unreadable"@, data: finding_data(f), confidence: 950_000 }],
            mitre_attack: seq!["T1070"@],
            source_detector: "file_integrity"@,
            process: None,
            tags: seq!["integrity"@, "critical_file"@, "unreadable"@],
        },
        Finding::Modified { path, baseline, current } => ThreatEventModel {
            id,
            timestamp,
            severity: Severity::Critical,
            category: ThreatCategory::IntegrityViolation,
            title: "Integrity violation: "@ + path,
            description: "Critical system file "@ + path + " has been modified since baseline. Expected hash "@ + baseline
                + " but found "@ + current + "."@,
            evidence: seq![ThreatEvidenceModel { description: "File hash mismatch"@, data: finding_data(f), confidence: 1_000_000 }],
            mitre_attack: seq!["T1070.006"@],
            source_detector: "file_integrity"@,
            process: None,
            tags: seq!["integrity"@, "critical_file"@, "modified"@],
        },
    }
}

/// The evidence recorded for a finding, with the given id and time.
pub open spec fn finding_evidence(f: Finding, id: u128, timestamp: i64) -> EvidenceModel {
    match f {
        Finding::Unreadable { path, baseline } => EvidenceModel {
            id,
            timestamp,
            evidence_type: EvidenceType::FileIntegrity,
            severity: EvidenceSeverity::Critical,
            source: "file_integrity"@,
            description: "Critical file unreadable: "@ + path,
            data: finding_data(f),
            tags: seq!["integrity"@, "critical_file"@, "unreadable"@],
            confidence: 950_000,
            related_evidence: Seq::empty(),
        },
        Finding::Modified { path, baseline, current } => EvidenceModel {
            id,
            timestamp,
            evidence_type: EvidenceType::FileIntegrity,
            severity: EvidenceSeverity::Critical,
            source: "file_integrity"@,
            description: "Integrity violation: "@ + path,
            data: finding_data(f),
            tags: seq!["integrity"@, "critical_file"@, "modified"@],
            confidence: 1_000_000,
            related_evidence: Seq::empty(),
        },
    }
}

/// A string made of two parts.
fn joined(a: &str, b: &str) -> (s: String)
    ensures
        s@ == a@ + b@,
{
    let mut s = owned(a);
    push_str(&mut s, b);
    s
}

fn strings3(a: &str, b: &str, c: &str) -> (r: Vec<String>)
    ensures
        strings_view(r@) == seq![a@, b@, c@],
{
    let mut r: Vec<String> = Vec::new();
    r.push(owned(a));
    r.push(owned(b));
    r.push(owned(c));
    assert(strings_view(r@) =~= seq![a@, b@, c@]);
    r
}

/// The data of a finding on `path` with baseline digest `bh` and, for a
/// modified file, current digest `ch`.
fn finding_map(path: &str, bh: &str, ch: Option<&str>) -> (m: DataMap)
    ensures
        ch is None ==> m@ == finding_data(Finding::Unreadable { path: path@, baseline: bh@ }),
        ch matches Some(c) ==> m@ == finding_data(Finding::Modified { path: path@, baseline: bh@, current: c@ }),
{
    let mut m = DataMap::new();
    m.insert(owned("path"), Value::String(owned(path)));
    m.insert(owned("baseline_hash"), Value::String(owned(bh)));
    match ch {
        Some(c) => {
            m.insert(owned("current_hash"), Value::String(owned(c)));
        },
        None => {},
    }
    m
}

fn make_threat(path: &str, bh: &str, ch: Option<&str>) -> (t: ThreatEvent)
    ensures
        ch is None ==> t@ == finding_threat(Finding::Unreadable { path: path@, baseline: bh@ }, t.id, t.timestamp),
        ch matches Some(c) ==> t@ == finding_threat(Finding::Modified { path: path@, baseline: bh@, current: c@ }, t.id, t.timestamp),
{
    let mut mitre: Vec<String> = Vec::new();
    match ch {
        None => {
            mitre.push(owned("T1070"));
            let mut description = joined("The critical system file ", path);
            push_str(&mut description, " could not be read during integrity check.");
            let t = ThreatEvent {
                id: new_id(),
                timestamp: now_micros(),
                severity: Severity::Critical,
                category: ThreatCategory::IntegrityViolation,
                title: joined("Critical file unreadable: ", path),
                description,
                evidence: vec![ThreatEvidence {
                    description: owned("File unreadable"),
                    data: finding_map(path, bh, None),
                    confidence: 950_000,
                }],
                mitre_attack: mitre,
                source_detector: owned("file_integrity"),
                process: None,
                tags: strings3("integrity", "critical_file", "unreadable"),
            };
            assert(t@.evidence =~= seq![ThreatEvidenceModel {
                description: "File unreadable"@,
                data: finding_data(Finding::Unreadable { path: path@, baseline: bh@ }),
                confidence: 950_000,
            }]);
            assert(t@.mitre_attack =~= seq!["T1070"@]);
            t
        },
        Some(c) => {
            mitre.push(owned("T1070.006"));
            let mut description = joined("Critical system file ", path);
            push_str(&mut description, " has been modified since baseline. Expected hash ");
            push_str(&mut description, bh);
            push_str(&mut description, " but found ");
            push_str(&mut description, c);
            push_str(&mut description, ".");
            let t = ThreatEvent {
                id: new_id(),
                timestamp: now_micros(),
                severity: Severity::Critical,
                category: ThreatCategory::IntegrityViolation,
                title: joined("Integrity violation: ", path),
                description,
                evidence: vec![ThreatEvidence {
                    description: owned("File hash mismatch"),
                    data: finding_map(path, bh, Some(c)),
                    confidence: 1_000_000,
                }],
                mitre_attack: mitre,
                source_detector: owned("file_integrity"),
                process: None,
                tags: strings3("integrity", "critical_file", "modified"),
            };
            assert(t@.evidence =~= seq![ThreatEvidenceModel {
                description: "File hash mismatch"@,
                data: finding_data(Finding::Modified { path: path@, baseline: bh@, current: c@ }),
                confidence: 1_000_000,
            }]);
            assert(t@.mitre_attack =~= seq!["T1070.006"@]);
            t
        },
    }
}

fn make_evidence(path: &str, bh: &str, ch: Option<&str>) -> (e: Evidence)
    ensures
        ch is None ==> e@ == finding_evidence(Finding::Unreadable { path: path@, baseline: bh@ }, e.id, e.timestamp),
        ch matches Some(c) ==> e@ == finding_evidence(Finding::Modified { path: path@, baseline: bh@, current: c@ }, e.id, e.timestamp),
{
    let (title, last_tag, confidence): (String, &str, i64) = match ch {
        None => (joined("Critical file unreadable: ", path), "unreadable", 950_000),
        Some(_) => (joined("Integrity violation: ", path), "modified", 1_000_000),
    };
    let e = Evidence::new(EvidenceType::FileIntegrity, EvidenceSeverity::Critical, owned("file_integrity"), title);
    assert(e@.data =~= Seq::<(Seq<char>, ValueModel)>::empty());
    assert(e@.tags =~= Seq::<Seq<char>>::empty());
    assert(e@.related_evidence =~= Seq::<u128>::empty());
    let mut e = e.with_data(owned("path"), Value::String(owned(path)))
        .with_data(owned("baseline_hash"), Value::String(owned(bh)));
    match ch {
        Some(c) => {
            e = e.with_data(owned("current_hash"), Value::String(owned(c)));
        },
        None => {},
    }
    let e = e.with_confidence(confidence)
        .with_tag(owned("integrity"))
        .with_tag(owned("critical_file"))
        .with_tag(owned(last_tag));
    assert(e@.tags =~= seq!["integrity"@, "critical_file"@, last_tag@]);
    assert(e@.related_evidence =~= Seq::<u128>::empty());
    e
}

/// Watches the critical system files against the digests taken as a
/// baseline.
pub struct IntegrityChecker {
    baseline: Vec<(String, String)>,
}

/// The views of (path, digest) pairs.
pub open spec fn pairs_view(v: Seq<(String, String)>) -> Seq<(Seq<char>, Seq<char>)> {
    Seq::new(v.len(), |i: int| (v[i].0@, v[i].1@))
}

impl IntegrityChecker {
    /// The baseline digests by path.
    pub closed spec fn digests(&self) -> Seq<(Seq<char>, Seq<char>)> {
        pairs_view(self.baseline@)
    }

    /// A checker with no baseline.
    pub fn new() -> (c: IntegrityChecker)
        ensures
            c.digests().len() == 0,
    {
        let c = IntegrityChecker { baseline: Vec::new() };
        assert(c.digests() =~= Seq::<(Seq<char>, Seq<char>)>::empty());
        c
    }

    /// Takes the baseline from the digests read of the critical files (in
    /// the order of `critical_file_list`, `None` for a file that could not
    /// be hashed): each one read replaces the digest kept for its path.
    pub fn baseline(&mut self, hashes: Vec<Option<String>>)
        requires
            hashes@.len() == critical_files().len(),
        ensures
            forall|k: int| 0 <= k < critical_files().len() ==> baseline_hash(final(self).digests(), #[trigger] critical_files()[k])
                == (match hashes@[k] { Some(h) => Some(h@), None => baseline_hash(old(self).digests(), critical_files()[k]) }),
    {
        let files = critical_file_list();
        proof {
            lemma_critical_files_distinct();
        }
        let mut i: usize = 0;
        while i < hashes.len()
            invariant
                i <= hashes@.len() == critical_files().len(),
                strings_view(files@) == critical_files(),
                forall|a: int, b: int| 0 <= a < critical_files().len() && 0 <= b < critical_files().len() && a != b
                    ==> critical_files()[a] != critical_files()[b],
                forall|k: int| 0 <= k < critical_files().len() ==> baseline_hash(self.digests(), #[trigger] critical_files()[k])
                    == (match (if k < i { hashes@[k] } else { None }) { Some(h) => Some(h@), None => baseline_hash(old(self).digests(), critical_files()[k]) }),
            decreases hashes.len() - i,
        {
            match &hashes[i] {
                Some(h) => {
                    let ghost before = self.digests();
                    let path = files[i].clone();
                    self.baseline.push((path, h.clone()));
                    assert(self.digests() =~= before.push((files@[i as int]@, h@)));
                    assert forall|k: int| 0 <= k < critical_files().len() implies baseline_hash(self.digests(), #[trigger] critical_files()[k])
                        == (match (if k < i + 1 { hashes@[k] } else { None }) { Some(h) => Some(h@), None => baseline_hash(old(self).digests(), critical_files()[k]) }) by {
                        assert(self.digests().drop_last() =~= before);
                        if k != i {
                            assert(critical_files()[k] != critical_files()[i as int]);
                        }
                    }
                },
                None => {},
            }
            i += 1;
        }
    }

    /// The threats found of the critical files, given the digest read now
    /// of each (in the order of `critical_file_list`, `None` for a file
    /// that could not be read): one per unreadable or changed file that
    /// has a baseline digest, in file order.
    pub fn check_files(&self, current: &Vec<Option<String>>) -> (r: Vec<ThreatEvent>)
        requires
            current@.len() == critical_files().len(),
        ensures
            r@.len() == findings(self.digests(), opt_strings(current@), critical_files().len() as int).len(),
            forall|k: int| 0 <= k < r@.len() ==> (#[trigger] r@[k])@
                == finding_threat(findings(self.digests(), opt_strings(current@), critical_files().len() as int)[k], r@[k].id, r@[k].timestamp),
    {
        let files = critical_file_list();
        let ghost cur = opt_strings(current@);
        let mut r: Vec<ThreatEvent> = Vec::new();
        let mut i: usize = 0;
        while i < files.len()
            invariant
                i <= files@.len() == critical_files().len() == current@.len(),
                strings_view(files@) == critical_files(),
                cur == opt_strings(current@),
                r@.len() == findings(self.digests(), cur, i as int).len(),
                forall|k: int| 0 <= k < r@.len() ==> (#[trigger] r@[k])@
                    == finding_threat(findings(self.digests(), cur, i as int)[k], r@[k].id, r@[k].timestamp),
            decreases files.len() - i,
        {
            let path = files[i].as_str();
            assert(strings_view(files@)[i as int] == files@[i as int]@);
            assert(path@ == critical_files()[i as int]);
            match self.lookup(path) {
                None => {},
                Some(bh) => {
                    match &current[i] {
                        None => {
                            r.push(make_threat(path, bh.as_str(), None));
                        },
                        Some(ch) => {
                            if !str_eq(ch.as_str(), bh.as_str()) {
                                r.push(make_threat(path, bh.as_str(), Some(ch.as_str())));
                            }
                        },
                    }
                },
            }
            i += 1;
        }
        r
    }

    /// The evidence found of the critical files, given the digest read now
    /// of each (as for `check_files`): one item per unreadable or changed
    /// file that has a baseline digest, in file order.
    pub fn collect_evidence(&self, current: &Vec<Option<String>>) -> (r: Vec<Evidence>)
        requires
            current@.len() == critical_files().len(),
        ensures
            r@.len() == findings(self.digests(), opt_strings(current@), critical_files().len() as int).len(),
            forall|k: int| 0 <= k < r@.len() ==> (#[trigger] r@[k])@
                == finding_evidence(findings(self.digests(), opt_strings(current@), critical_files().len() as int)[k], r@[k].id, r@[k].timestamp),
    {
        let files = critical_file_list();
        let ghost cur = opt_strings(current@);
        let mut r: Vec<Evidence> = Vec::new();
        let mut i: usize = 0;
        while i < files.len()
            invariant
                i <= files@.len() == critical_files().len() == current@.len(),
                strings_view(files@) == critical_files(),
                cur == opt_strings(current@),
                r@.len() == findings(self.digests(), cur, i as int).len(),
                forall|k: int| 0 <= k < r@.len() ==> (#[trigger] r@[k])@
                    == finding_evidence(findings(self.digests(), cur, i as int)[k], r@[k].id, r@[k].timestamp),
            decreases files.len() - i,
        {
            let path = files[i].as_str();
            assert(strings_view(files@)[i as int] == files@[i as int]@);
            assert(path@ == critical_files()[i as int]);
            match self.lookup(path) {
                None => {},
                Some(bh) => {
                    match &current[i] {
                        None => {
                            r.push(make_evidence(path, bh.as_str(), None));
                        },
                        Some(ch) => {
                            if !str_eq(ch.as_str(), bh.as_str()) {
                                r.push(make_evidence(path, bh.as_str(), Some(ch.as_str())));
                            }
                        },
                    }
                },
            }
            i += 1;
        }
        r
    }

    fn lookup(&self, path: &str) -> (r: Option<&String>)
        ensures
            match baseline_hash(self.digests(), path@) {
                Some(h) => r matches Some(s) && s@ == h,
                None => r is None,
            },
    {
        let mut i: usize = self.baseline.len();
        assert(self.digests().take(i as int) =~= self.digests());
        while i > 0
            invariant
                i <= self.baseline@.len(),
                baseline_hash(self.digests(), path@) == baseline_hash(self.digests().take(i as int), path@),
            decreases i,
        {
            assert(self.digests().take(i as int).drop_last() =~= self.digests().take(i - 1));
            if str_eq(self.baseline[i - 1].0.as_str(), path) {
                return Some(&self.baseline[i - 1].1);
            }
            i -= 1;
        }
        None
    }

    pub fn name(&self) -> (s: &'static str)
        ensures
            s@ == "file_integrity"@,
    {
        "file_integrity"
    }

    pub fn description(&self) -> (s: &'static str)
        ensures
            s@ == "Monitors critical system files for unauthorized modifications"@,
    {
        "Monitors critical system files for unauthorized modifications"
    }

    pub fn category(&self) -> (c: ThreatCategory)
        ensures
            c == ThreatCategory::IntegrityViolation,
    {
        ThreatCategory::IntegrityViolation
    }

    pub fn severity(&self) -> (s: Severity)
        ensures
            s == Severity::Critical,
    {
        Severity::Critical
    }

    pub fn get_evidence_type(&self) -> (t: EvidenceType)
        ensures
            t == EvidenceType::FileIntegrity,
    {
        EvidenceType::FileIntegrity
    }

    pub fn get_source(&self) -> (s: String)
        ensures
            s@ == "file_integrity"@,
    {
        owned("file_integrity")
    }
}

/// The views of optional strings.
pub open spec fn opt_strings(v: Seq<Option<String>>) -> Seq<Option<Seq<char>>> {
    Seq::new(v.len(), |i: int| match v[i] {
        Some(s) => Some(s@),
        None => None,
    })
}

} // verus!
