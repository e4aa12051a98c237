use vstd::prelude::*;
use crate::clock::{new_id, now_micros};
use crate::evidence::{Evidence, EvidenceModel, EvidenceType, Severity as EvidenceSeverity};
use crate::hardening::{check_dmesg_restrict, check_kptr_restrict, check_modules_disabled, check_secure_boot, finding, HardeningCheck, SecureBootRead};
use crate::integrity::{baseline_hash, opt_strings, pairs_view};
use crate::resources::{dmesg_finding, failed_checks, kptr_finding, modules_finding, opt_text, secure_boot_finding, somes, Finding4};
use crate::text::{owned, push_str, str_eq};
use crate::threat::{strings_view, Severity, ThreatCategory, ThreatEvent, ThreatEventModel, ThreatEvidence, ThreatEvidenceModel};
use crate::value::{store, DataMap, Value, ValueModel};

verus! {

/// The kernel resources whose content is watched, in order.
pub open spec fn kernel_paths() -> Seq<Seq<char>> {
    seq!["/proc/kallsyms"@, "/proc/modules"@, "/sys/module"@]
}

proof fn lemma_kernel_paths_distinct()
    ensures
        forall|a: int, b: int| 0 <= a < kernel_paths().len() && 0 <= b < kernel_paths().len() && a != b
            ==> kernel_paths()[a] != kernel_paths()[b],
{
    reveal_strlit("/proc/kallsyms");
    reveal_strlit("/proc/modules");
    reveal_strlit("/sys/module");
    let f = kernel_paths();
    assert(f[0].len() == 14 && f[1].len() == 13 && f[2].len() == 11);
}

/// The kernel resources whose content is watched, in order.
pub fn kernel_path_list() -> (r: Vec<String>)
    ensures
        strings_view(r@) == kernel_paths(),
{
    let mut r: Vec<String> = Vec::new();
    r.push(owned("/proc/kallsyms"));
    r.push(owned("/proc/modules"));
    r.push(owned("/sys/module"));
    assert(strings_view(r@) =~= kernel_paths());
    r
}

/// A watched resource whose digest changed: its path, the baseline
/// digest and the digest read now.
pub type Mismatch = (Seq<char>, Seq<char>, Seq<char>);

/// The changed resources among the first `n` watched ones, given the
/// digest read now of each (`None` when unreadable, which is skipped), and
/// those without a baseline digest skipped too.
pub open spec fn kernel_mismatches(b: Seq<(Seq<char>, Seq<char>)>, current: Seq<Option<Seq<char>>>, n: int) -> Seq<Mismatch>
    decreases n,
{
    if n <= 0 {
        Seq::empty()
    } else {
        let prev = kernel_mismatches(b, current, n - 1);
        let path = kernel_paths()[n - 1];
        match current[n - 1] {
            None => prev,
            Some(ch) => match baseline_hash(b, path) {
                Some(bh) => if ch != bh { prev.push((path, bh, ch)) } else { prev },
                None => prev,
            },
        }
    }
}

/// Reading back the digests the baseline holds finds no changed
/// resource: a resource is reported only when its digest moved.
pub proof fn lemma_unchanged_digests_report_nothing(b: Seq<(Seq<char>, Seq<char>)>, current: Seq<Option<Seq<char>>>, n: int)
    requires
        0 <= n <= current.len(),
        n <= kernel_paths().len(),
        forall|k: int| 0 <= k < n ==> (#[trigger] current[k]) is None || current[k] == baseline_hash(b, kernel_paths()[k]),
    ensures
        kernel_mismatches(b, current, n).len() == 0,
    decreases n,
{
    if n > 0 {
        lemma_unchanged_digests_report_nothing(b, current, n - 1);
        assert(current[n - 1] is None || current[n - 1] == baseline_hash(b, kernel_paths()[n - 1]));
    }
}

/// What a failed hardening check says of the system.
pub open spec fn check_description(c: Finding4) -> Seq<char> {
    if c.0 == "kptr_restrict"@ {
        "kptr_restrict is not hardened. Kernel pointer exposure is possible."@
    } else if c.0 == "dmesg_restrict"@ {
        "dmesg_restrict is not enabled. Kernel logs are exposed."@
    } else if c.0 == "modules_disabled"@ {
        "Module loading is not disabled (normal for most systems)."@
    } else if c.2 == "unreadable"@ {
        "Cannot read Secure Boot status."@
    } else {
        "Secure Boot is not enabled. Boot chain integrity cannot be verified."@
    }
}

/// The severity that a check's severity name stands for.
pub open spec fn severity_named(s: Seq<char>) -> Severity {
    if s == "Critical"@ {
        Severity::Critical
    } else if s == "High"@ {
        Severity::High
    } else if s == "Medium"@ {
        Severity::Medium
    } else if s == "Low"@ {
        Severity::Low
    } else {
        Severity::Info
    }
}

/// The evidence severity of a threat severity.
pub open spec fn evidence_severity(s: Severity) -> EvidenceSeverity {
    match s {
        Severity::Critical => EvidenceSeverity::Critical,
        Severity::High => EvidenceSeverity::High,
        Severity::Medium => EvidenceSeverity::Medium,
        Severity::Low => EvidenceSeverity::Low,
        Severity::Info => EvidenceSeverity::Info,
    }
}

/// The data recorded of a changed resource.
pub open spec fn mismatch_data(m: Mismatch) -> Seq<(Seq<char>, ValueModel)> {
    store(store(store(Seq::empty(), "path"@, ValueModel::Text(m.0)), "baseline_hash"@, ValueModel::Text(m.1)),
        "current_hash"@, ValueModel::Text(m.2))
}

/// The data recorded of a failed hardening check.
pub open spec fn check_data(c: Finding4) -> Seq<(Seq<char>, ValueModel)> {
    store(store(store(Seq::empty(), "check_name"@, ValueModel::Text(c.0)), "expected"@, ValueModel::Text(c.1)),
        "actual"@, ValueModel::Text(c.2))
}

/// The threat reported for a changed resource, with the given id and time.
pub open spec fn mismatch_threat(m: Mismatch, id: u128, timestamp: i64) -> ThreatEventModel {
    ThreatEventModel {
        id,
        timestamp,
        severity: Severity::Critical,
        category: ThreatCategory::IntegrityViolation,
        title: "Kernel integrity violation: "@ + m.0,
        description: "Kernel resource "@ + m.0 + " has been modified. Baseline hash: "@ + m.1 + ", Current hash: "@ + m.2,
        evidence: seq![ThreatEvidenceModel { description: "Hash mismatch on "@ + m.0, data: mismatch_data(m), confidence: 950_000 }],
        mitre_attack: seq!["T1014"@],
        source_detector: "kernel_integrity"@,
        process: None,
        tags: seq!["kernel"@, "integrity"@],
    }
}

/// The threat reported for a failed hardening check, with the given id
/// and time.
pub open spec fn check_threat(c: Finding4, id: u128, timestamp: i64) -> ThreatEventModel {
    ThreatEventModel {
        id,
        timestamp,
        severity: severity_named(c.3),
        category: ThreatCategory::IntegrityViolation,
        title: "Kernel hardening: "@ + c.0,
        description: check_description(c),
        evidence: seq![ThreatEvidenceModel { description: "Hardening check failed: "@ + c.0, data: check_data(c), confidence: 900_000 }],
        mitre_attack: seq!["T1014"@],
        source_detector: "kernel_integrity"@,
        process: None,
        tags: seq!["kernel"@, "hardening"@, c.0],
    }
}

/// The evidence recorded for a changed resource, with the given id and
/// time.
pub open spec fn mismatch_evidence(m: Mismatch, id: u128, timestamp: i64) -> EvidenceModel {
    EvidenceModel {
        id,
        timestamp,
        evidence_type: EvidenceType::KernelIntegrity,
        severity: EvidenceSeverity::Critical,
        source: "kernel_integrity"@,
        description: "Kernel integrity violation: "@ + m.0,
        data: mismatch_data(m),
        tags: seq!["kernel"@, "integrity"@],
        confidence: 950_000,
        related_evidence: Seq::empty(),
    }
}

/// The evidence recorded for a failed hardening check, with the given id
/// and time.
pub open spec fn check_evidence(c: Finding4, id: u128, timestamp: i64) -> EvidenceModel {
    EvidenceModel {
        id,
        timestamp,
        evidence_type: EvidenceType::KernelIntegrity,
        severity: evidence_severity(severity_named(c.3)),
        source: "kernel_integrity"@,
        description: check_description(c),
        data: check_data(c),
        tags: seq!["kernel"@, "hardening"@, c.0],
        confidence: 900_000,
        related_evidence: Seq::empty(),
    }
}

fn joined(a: &str, b: &str) -> (s: String)
    ensures
        s@ == a@ + b@,
{
    let mut s = owned(a);
    push_str(&mut s, b);
    s
}

fn describe(c: &HardeningCheck) -> (s: String)
    ensures
        s@ == check_description(finding(*c)),
{
    if str_eq(c.name.as_str(), "kptr_restrict") {
        owned("kptr_restrict is not hardened. Kernel pointer exposure is possible.")
    } else if str_eq(c.name.as_str(), "dmesg_restrict") {
        owned("dmesg_restrict is not enabled. Kernel logs are exposed.")
    } else if str_eq(c.name.as_str(), "modules_disabled") {
        owned("Module loading is not disabled (normal for most systems).")
    } else if str_eq(c.actual.as_str(), "unreadable") {
        owned("Cannot read Secure Boot status.")
    } else {
        owned("Secure Boot is not enabled. Boot chain integrity cannot be verified.")
    }
}

fn severity_of_name(s: &String) -> (r: Severity)
    ensures
        r == severity_named(s@),
{
    if str_eq(s.as_str(), "Critical") {
        Severity::Critical
    } else if str_eq(s.as_str(), "High") {
        Severity::High
    } else if str_eq(s.as_str(), "Medium") {
        Severity::Medium
    } else if str_eq(s.as_str(), "Low") {
        Severity::Low
    } else {
        Severity::Info
    }
}

fn to_evidence_severity(s: Severity) -> (r: EvidenceSeverity)
    ensures
        r == evidence_severity(s),
{
    match s {
        Severity::Critical => EvidenceSeverity::Critical,
        Severity::High => EvidenceSeverity::High,
        Severity::Medium => EvidenceSeverity::Medium,
        Severity::Low => EvidenceSeverity::Low,
        Severity::Info => EvidenceSeverity::Info,
    }
}

fn data3(k1: &str, v1: &str, k2: &str, v2: &str, k3: &str, v3: &str) -> (m: DataMap)
    ensures
        m@ == store(store(store(Seq::empty(), k1@, ValueModel::Text(v1@)), k2@, ValueModel::Text(v2@)), k3@, ValueModel::Text(v3@)),
{
    let mut m = DataMap::new();
    m.insert(owned(k1), Value::String(owned(v1)));
    m.insert(owned(k2), Value::String(owned(v2)));
    m.insert(owned(k3), Value::String(owned(v3)));
    m
}

fn strings_of(a: &str, b: &str) -> (r: Vec<String>)
    ensures
        strings_view(r@) == seq![a@, b@],
{
    let mut r: Vec<String> = Vec::new();
    r.push(owned(a));
    r.push(owned(b));
    assert(strings_view(r@) =~= seq![a@, b@]);
    r
}

fn mitre_rootkit() -> (r: Vec<String>)
    ensures
        strings_view(r@) == seq!["T1014"@],
{
    let mut r: Vec<String> = Vec::new();
    r.push(owned("T1014"));
    assert(strings_view(r@) =~= seq!["T1014"@]);
    r
}

fn make_mismatch_threat(path: &str, bh: &str, ch: &str) -> (t: ThreatEvent)
    ensures
        t@ == mismatch_threat((path@, bh@, ch@), t.id, t.timestamp),
{
    let mut description = joined("Kernel resource ", path);
    push_str(&mut description, " has been modified. Baseline hash: ");
    push_str(&mut description, bh);
    push_str(&mut description, ", Current hash: ");
    push_str(&mut description, ch);
    let t = ThreatEvent {
        id: new_id(),
        timestamp: now_micros(),
        severity: Severity::Critical,
        category: ThreatCategory::IntegrityViolation,
        title: joined("Kernel integrity violation: ", path),
        description,
        evidence: vec![ThreatEvidence {
            description: joined("Hash mismatch on ", path),
            data: data3("path", path, "baseline_hash", bh, "current_hash", ch),
            confidence: 950_000,
        }],
        mitre_attack: mitre_rootkit(),
        source_detector: owned("kernel_integrity"),
        process: None,
        tags: strings_of("kernel", "integrity"),
    };
    assert(t@.evidence =~= seq![ThreatEvidenceModel {
        description: "Hash mismatch on "@ + path@,
        data: mismatch_data((path@, bh@, ch@)),
        confidence: 950_000,
    }]);
    t
}

fn make_check_threat(c: &HardeningCheck) -> (t: ThreatEvent)
    ensures
        t@ == check_threat(finding(*c), t.id, t.timestamp),
{
    let mut tags = strings_of("kernel", "hardening");
    let ghost tv = strings_view(tags@);
    tags.push(c.name.clone());
    assert(strings_view(tags@) =~= tv.push(c.name@));
    let t = ThreatEvent {
        id: new_id(),
        timestamp: now_micros(),
        severity: severity_of_name(&c.severity),
        category: ThreatCategory::IntegrityViolation,
        title: joined("Kernel hardening: ", c.name.as_str()),
        description: describe(c),
        evidence: vec![ThreatEvidence {
            description: joined("Hardening check failed: ", c.name.as_str()),
            data: data3("check_name", c.name.as_str(), "expected", c.expected.as_str(), "actual", c.actual.as_str()),
            confidence: 900_000,
        }],
        mitre_attack: mitre_rootkit(),
        source_detector: owned("kernel_integrity"),
        process: None,
        tags,
    };
    assert(t@.evidence =~= seq![ThreatEvidenceModel {
        description: "Hardening check failed: "@ + c.name@,
        data: check_data(finding(*c)),
        confidence: 900_000,
    }]);
    assert(t@.tags == seq!["kernel"@, "hardening"@, c.name@]);
    assert(t@.mitre_attack == seq!["T1014"@]);
    assert(t@.severity == severity_named(c.severity@));
    assert(t@.description == check_description(finding(*c)));
    t
}

fn make_mismatch_evidence(path: &str, bh: &str, ch: &str) -> (e: Evidence)
    ensures
        e@ == mismatch_evidence((path@, bh@, ch@), e.id, e.timestamp),
{
    let e = Evidence::new(EvidenceType::KernelIntegrity, EvidenceSeverity::Critical, owned("kernel_integrity"),
        joined("Kernel integrity violation: ", path));
    assert(e@.data =~= Seq::<(Seq<char>, ValueModel)>::empty());
    assert(e@.tags =~= Seq::<Seq<char>>::empty());
    assert(e@.related_evidence =~= Seq::<u128>::empty());
    let e = e.with_data(owned("path"), Value::String(owned(path)))
        .with_data(owned("baseline_hash"), Value::String(owned(bh)))
        .with_data(owned("current_hash"), Value::String(owned(ch)))
        .with_confidence(950_000)
        .with_tag(owned("kernel"))
        .with_tag(owned("integrity"));
    assert(e@.tags =~= seq!["kernel"@, "integrity"@]);
    e
}

fn make_check_evidence(c: &HardeningCheck) -> (e: Evidence)
    ensures
        e@ == check_evidence(finding(*c), e.id, e.timestamp),
{
    let sev = to_evidence_severity(severity_of_name(&c.severity));
    let e = Evidence::new(EvidenceType::KernelIntegrity, sev, owned("kernel_integrity"), describe(c));
    assert(e@.data =~= Seq::<(Seq<char>, ValueModel)>::empty());
    assert(e@.tags =~= Seq::<Seq<char>>::empty());
    assert(e@.related_evidence =~= Seq::<u128>::empty());
    let e = e.with_data(owned("check_name"), Value::String(c.name.clone()))
        .with_data(owned("expected"), Value::String(c.expected.clone()))
        .with_data(owned("actual"), Value::String(c.actual.clone()))
        .with_confidence(900_000)
        .with_tag(owned("kernel"))
        .with_tag(owned("hardening"))
        .with_tag(c.name.clone());
    assert(e@.tags =~= seq!["kernel"@, "hardening"@, c.name@]);
    e
}

/// The failed hardening checks, given the trimmed values of
/// `kernel.kptr_restrict`, `kernel.dmesg_restrict` and
/// `kernel.modules_disabled` (`None` where unreadable) and what reading
/// the Secure Boot variable gave.
pub fn hardening_failures(kptr: Option<&str>, dmesg: Option<&str>, modules: Option<&str>, secure_boot: &SecureBootRead) -> (r: Vec<HardeningCheck>)
    ensures
        r@.len() == failed_checks(opt_text(kptr), opt_text(dmesg), opt_text(modules), *secure_boot).len(),
        forall|k: int| 0 <= k < r@.len() ==> finding(#[trigger] r@[k]) == failed_checks(opt_text(kptr), opt_text(dmesg), opt_text(modules), *secure_boot)[k],
{
    let checks: Vec<Option<HardeningCheck>> = vec![
        check_kptr_restrict(kptr),
        check_dmesg_restrict(dmesg),
        check_modules_disabled(modules),
        check_secure_boot(secure_boot),
    ];
    let ghost wanted = seq![kptr_finding(opt_text(kptr)), dmesg_finding(opt_text(dmesg)),
        modules_finding(opt_text(modules)), secure_boot_finding(*secure_boot)];
    assert forall|q: int| 0 <= q < 4 implies (match #[trigger] checks@[q] {
        Some(c) => wanted[q] == Some(finding(c)),
        None => wanted[q] is None,
    }) by {
        reveal_strlit("1");
        reveal_strlit("2");
    }
    let ghost all = checks@;
    let mut checks = checks;
    let mut r: Vec<HardeningCheck> = Vec::new();
    let mut i: usize = 0;
    assert(all.skip(0) =~= all);
    while i < 4
        invariant
            i <= 4,
            all.len() == 4,
            checks@ == all.skip(i as int),
            wanted.len() == 4,
            forall|q: int| 0 <= q < 4 ==> (match #[trigger] all[q] {
                Some(c) => wanted[q] == Some(finding(c)),
                None => wanted[q] is None,
            }),
            r@.len() == somes(wanted, i as int).len(),
            forall|k: int| 0 <= k < r@.len() ==> finding(#[trigger] r@[k]) == somes(wanted, i as int)[k],
        decreases 4 - i,
    {
        let c = checks.remove(0);
        assert(c == all[i as int]);
        assert(checks@ =~= all.skip(i + 1));
        match c {
            Some(c) => {
                r.push(c);
            },
            None => {},
        }
        i += 1;
    }
    r
}

/// Watches the kernel's symbol and module lists against the digests taken
/// as a baseline, and the kernel's hardening settings.
pub struct KernelIntegrityDetector {
    baseline: Vec<(String, String)>,
}

impl KernelIntegrityDetector {
    /// The baseline digests by path.
    pub closed spec fn digests(&self) -> Seq<(Seq<char>, Seq<char>)> {
        pairs_view(self.baseline@)
    }

    /// A detector with no baseline.
    pub fn new() -> (d: KernelIntegrityDetector)
        ensures
            d.digests().len() == 0,
    {
        let d = KernelIntegrityDetector { baseline: Vec::new() };
        assert(d.digests() =~= Seq::<(Seq<char>, Seq<char>)>::empty());
        d
    }

    /// Takes the baseline from the digests read of the watched resources
    /// (in the order of `kernel_path_list`, `None` for one that could not
    /// be read): each one read replaces the digest kept for its path.
    pub fn baseline(&mut self, hashes: Vec<Option<String>>)
        requires
            hashes@.len() == kernel_paths().len(),
        ensures
            forall|k: int| 0 <= k < kernel_paths().len() ==> baseline_hash(final(self).digests(), #[trigger] kernel_paths()[k])
                == (match hashes@[k] { Some(h) => Some(h@), None => baseline_hash(old(self).digests(), kernel_paths()[k]) }),
    {
        let files = kernel_path_list();
        proof {
            lemma_kernel_paths_distinct();
        }
        let mut i: usize = 0;
        while i < hashes.len()
            invariant
                i <= hashes@.len() == kernel_paths().len(),
                strings_view(files@) == kernel_paths(),
                forall|a: int, b: int| 0 <= a < kernel_paths().len() && 0 <= b < kernel_paths().len() && a != b
                    ==> kernel_paths()[a] != kernel_paths()[b],
                forall|k: int| 0 <= k < kernel_paths().len() ==> baseline_hash(self.digests(), #[trigger] kernel_paths()[k])
                    == (match (if k < i { hashes@[k] } else { None }) { Some(h) => Some(h@), None => baseline_hash(old(self).digests(), kernel_paths()[k]) }),
            decreases hashes.len() - i,
        {
            match &hashes[i] {
                Some(h) => {
                    let ghost before = self.digests();
                    let path = files[i].clone();
                    self.baseline.push((path, h.clone()));
                    assert(self.digests() =~= before.push((files@[i as int]@, h@)));
                    assert forall|k: int| 0 <= k < kernel_paths().len() implies baseline_hash(self.digests(), #[trigger] kernel_paths()[k])
                        == (match (if k < i + 1 { hashes@[k] } else { None }) { Some(h) => Some(h@), None => baseline_hash(old(self).digests(), kernel_paths()[k]) }) by {
                        assert(self.digests().drop_last() =~= before);
                        if k != i {
                            assert(kernel_paths()[k] != kernel_paths()[i as int]);
                        }
                    }
                },
                None => {},
            }
            i += 1;
        }
    }

    fn lookup(&self, path: &str) -> (r: Option<&String>)
        ensures
            match baseline_hash(self.digests(), path@) {
                Some(h) => r matches Some(s) && s@ == h,
                None => r is None,
            },
    {
        let mut i: usize = self.baseline.len();
        assert(self.digests().take(i as int) =~= self.digests());
        while i > 0
            invariant
                i <= self.baseline@.len(),
                baseline_hash(self.digests(), path@) == baseline_hash(self.digests().take(i as int), path@),
            decreases i,
        {
            assert(self.digests().take(i as int).drop_last() =~= self.digests().take(i - 1));
            if str_eq(self.baseline[i - 1].0.as_str(), path) {
                return Some(&self.baseline[i - 1].1);
            }
            i -= 1;
        }
        None
    }

    /// The changed watched resources, given the digest read now of each.
    fn mismatches(&self, current: &Vec<Option<String>>) -> (r: Vec<(String, String, String)>)
        requires
            current@.len() == kernel_paths().len(),
        ensures
            r@.len() == kernel_mismatches(self.digests(), opt_strings(current@), 3).len(),
            forall|k: int| 0 <= k < r@.len() ==> ((#[trigger] r@[k]).0@, r@[k].1@, r@[k].2@)
                == kernel_mismatches(self.digests(), opt_strings(current@), 3)[k],
    {
        let files = kernel_path_list();
        let ghost cur = opt_strings(current@);
        let mut r: Vec<(String, String, String)> = Vec::new();
        let mut i: usize = 0;
        while i < files.len()
            invariant
                i <= files@.len() == kernel_paths().len() == current@.len(),
                strings_view(files@) == kernel_paths(),
                cur == opt_strings(current@),
                r@.len() == kernel_mismatches(self.digests(), cur, i as int).len(),
                forall|k: int| 0 <= k < r@.len() ==> ((#[trigger] r@[k]).0@, r@[k].1@, r@[k].2@)
                    == kernel_mismatches(self.digests(), cur, i as int)[k],
            decreases files.len() - i,
        {
            let path = files[i].as_str();
            assert(strings_view(files@)[i as int] == files@[i as int]@);
            match &current[i] {
                None => {},
                Some(ch) => {
                    match self.lookup(path) {
                        None => {},
                        Some(bh) => {
                            if !str_eq(ch.as_str(), bh.as_str()) {
                                r.push((owned(path), bh.clone(), ch.clone()));
                            }
                        },
                    }
                },
            }
            i += 1;
        }
        r
    }

    /// The threats found, given the digest read now of each watched
    /// resource and the hardening readings: one per changed resource with
    /// a baseline digest, in path order, then one per failed hardening
    /// check.
    pub fn detect(
        &self,
        current: &Vec<Option<String>>,
        kptr: Option<&str>,
        dmesg: Option<&str>,
        modules: Option<&str>,
        secure_boot: &SecureBootRead,
    ) -> (r: Vec<ThreatEvent>)
        requires
            current@.len() == kernel_paths().len(),
        ensures
            ({
                let m = kernel_mismatches(self.digests(), opt_strings(current@), 3);
                let c = failed_checks(opt_text(kptr), opt_text(dmesg), opt_text(modules), *secure_boot);
                &&& r@.len() == m.len() + c.len()
                &&& forall|k: int| 0 <= k < m.len() ==> (#[trigger] r@[k])@ == mismatch_threat(m[k], r@[k].id, r@[k].timestamp)
                &&& forall|k: int| m.len() <= k < r@.len() ==> (#[trigger] r@[k])@ == check_threat(c[k - m.len()], r@[k].id, r@[k].timestamp)
            }),
    {
        let ms = self.mismatches(current);
        let cs = hardening_failures(kptr, dmesg, modules, secure_boot);
        let ghost m = kernel_mismatches(self.digests(), opt_strings(current@), 3);
        let ghost c = failed_checks(opt_text(kptr), opt_text(dmesg), opt_text(modules), *secure_boot);
        let mut r: Vec<ThreatEvent> = Vec::new();
        let mut i: usize = 0;
        while i < ms.len()
            invariant
                i <= ms@.len() == m.len(),
                forall|k: int| 0 <= k < ms@.len() ==> ((#[trigger] ms@[k]).0@, ms@[k].1@, ms@[k].2@) == m[k],
                r@.len() == i,
                forall|k: int| 0 <= k < i ==> (#[trigger] r@[k])@ == mismatch_threat(m[k], r@[k].id, r@[k].timestamp),
            decreases ms.len() - i,
        {
            let (p, b, h) = &ms[i];
            assert((p@, b@, h@) == m[i as int]);
            r.push(make_mismatch_threat(p.as_str(), b.as_str(), h.as_str()));
            i += 1;
        }
        let mut j: usize = 0;
        while j < cs.len()
            invariant
                j <= cs@.len() == c.len(),
                ms@.len() == m.len(),
                forall|k: int| 0 <= k < cs@.len() ==> finding(#[trigger] cs@[k]) == c[k],
                r@.len() == m.len() + j,
                forall|k: int| 0 <= k < m.len() ==> (#[trigger] r@[k])@ == mismatch_threat(m[k], r@[k].id, r@[k].timestamp),
                forall|k: int| m.len() <= k < r@.len() ==> (#[trigger] r@[k])@ == check_threat(c[k - m.len()], r@[k].id, r@[k].timestamp),
            decreases cs.len() - j,
        {
            assert(finding(cs@[j as int]) == c[j as int]);
            r.push(make_check_threat(&cs[j]));
            j += 1;
        }
        r
    }

    /// The evidence found, as for `detect`: one item per changed resource,
    /// then one per failed hardening check.
    pub fn collect_evidence(
        &self,
        current: &Vec<Option<String>>,
        kptr: Option<&str>,
        dmesg: Option<&str>,
        modules: Option<&str>,
        secure_boot: &SecureBootRead,
    ) -> (r: Vec<Evidence>)
        requires
            current@.len() == kernel_paths().len(),
        ensures
            ({
                let m = kernel_mismatches(self.digests(), opt_strings(current@), 3);
                let c = failed_checks(opt_text(kptr), opt_text(dmesg), opt_text(modules), *secure_boot);
                &&& r@.len() == m.len() + c.len()
                &&& forall|k: int| 0 <= k < m.len() ==> (#[trigger] r@[k])@ == mismatch_evidence(m[k], r@[k].id, r@[k].timestamp)
                &&& forall|k: int| m.len() <= k < r@.len() ==> (#[trigger] r@[k])@ == check_evidence(c[k - m.len()], r@[k].id, r@[k].timestamp)
            }),
    {
        let ms = self.mismatches(current);
        let cs = hardening_failures(kptr, dmesg, modules, secure_boot);
        let ghost m = kernel_mismatches(self.digests(), opt_strings(current@), 3);
        let ghost c = failed_checks(opt_text(kptr), opt_text(dmesg), opt_text(modules), *secure_boot);
        let mut r: Vec<Evidence> = Vec::new();
        let mut i: usize = 0;
        while i < ms.len()
            invariant
                i <= ms@.len() == m.len(),
                forall|k: int| 0 <= k < ms@.len() ==> ((#[trigger] ms@[k]).0@, ms@[k].1@, ms@[k].2@) == m[k],
                r@.len() == i,
                forall|k: int| 0 <= k < i ==> (#[trigger] r@[k])@ == mismatch_evidence(m[k], r@[k].id, r@[k].timestamp),
            decreases ms.len() - i,
        {
            let (p, b, h) = &ms[i];
            assert((p@, b@, h@) == m[i as int]);
            r.push(make_mismatch_evidence(p.as_str(), b.as_str(), h.as_str()));
            i += 1;
        }
        let mut j: usize = 0;
        while j < cs.len()
            invariant
                j <= cs@.len() == c.len(),
                ms@.len() == m.len(),
                forall|k: int| 0 <= k < cs@.len() ==> finding(#[trigger] cs@[k]) == c[k],
                r@.len() == m.len() + j,
                forall|k: int| 0 <= k < m.len() ==> (#[trigger] r@[k])@ == mismatch_evidence(m[k], r@[k].id, r@[k].timestamp),
                forall|k: int| m.len() <= k < r@.len() ==> (#[trigger] r@[k])@ == check_evidence(c[k - m.len()], r@[k].id, r@[k].timestamp),
            decreases cs.len() - j,
        {
            assert(finding(cs@[j as int]) == c[j as int]);
            r.push(make_check_evidence(&cs[j]));
            j += 1;
        }
        r
    }

    pub fn name(&self) -> (s: &'static str)
        ensures
            s@ == "kernel_integrity"@,
    {
        "kernel_integrity"
    }

    pub fn description(&self) -> (s: &'static str)
        ensures
            s@ == "Monitors kernel text, read-only sections, sysctl hardening, and critical structures"@,
    {
        "Monitors kernel text, read-only sections, sysctl hardening, and critical structures"
    }

    pub fn category(&self) -> (c: ThreatCategory)
        ensures
            c == ThreatCategory::IntegrityViolation,
    {
        ThreatCategory::IntegrityViolation
    }

    pub fn severity(&self) -> (s: Severity)
        ensures
            s == Severity::High,
    {
        Severity::High
    }

    pub fn get_evidence_type(&self) -> (t: EvidenceType)
        ensures
            t == EvidenceType::KernelIntegrity,
    {
        EvidenceType::KernelIntegrity
    }

    pub fn get_source(&self) -> (s: String)
        ensures
            s@ == "kernel_integrity"@,
    {
        owned("kernel_integrity")
    }
}

} // verus!
