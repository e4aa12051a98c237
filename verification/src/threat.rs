use vstd::prelude::*;
use crate::value::DataMap;

verus! {

/// Severity of a detected threat, ordered from `Info` to `Critical`.
#[derive(Debug, Clone, Copy, PartialEq, Eq, PartialOrd, Ord, Hash, Structural)]
pub enum Severity {
    Info,
    Low,
    Medium,
    High,
    Critical,
}

impl Severity {
    /// The position of the severity in the order `Info < Low < ... < Critical`.
    pub open spec fn rank(self) -> u8 {
        match self {
            Severity::Info => 0,
            Severity::Low => 1,
            Severity::Medium => 2,
            Severity::High => 3,
            Severity::Critical => 4,
        }
    }

    /// The lower-case name of the severity.
    pub open spec fn name(self) -> Seq<char> {
        match self {
            Severity::Info => "info"@,
            Severity::Low => "low"@,
            Severity::Medium => "medium"@,
            Severity::High => "high"@,
            Severity::Critical => "critical"@,
        }
    }

    pub fn as_str(&self) -> (s: &'static str)
        ensures
            s@ == self.name(),
    {
        match self {
            Severity::Info => "info",
            Severity::Low => "low",
            Severity::Medium => "medium",
            Severity::High => "high",
            Severity::Critical => "critical",
        }
    }

    /// The position of the severity in the order `Info < Low < ... < Critical`.
    pub fn rank_of(&self) -> (r: u8)
        ensures
            r == self.rank(),
    {
        match self {
            Severity::Info => 0,
            Severity::Low => 1,
            Severity::Medium => 2,
            Severity::High => 3,
            Severity::Critical => 4,
        }
    }
}

/// The kind of threat a detector reports.
#[derive(Debug, Clone, Copy, PartialEq, Eq, Hash, Structural)]
pub enum ThreatCategory {
    HookDetected,
    SuspiciousSyscall,
    Rootkit,
    EbpfAbuse,
    HiddenProcess,
    DkomAttack,
    HiddenConnection,
    ReverseShell,
    HiddenModule,
    LivepatchAbuse,
    MemoryTampering,
    FilelessMalware,
    IntegrityViolation,
    PersistenceMechanism,
    PrivilegeEscalation,
    ContainerEscape,
    Unknown,
}

impl ThreatCategory {
    /// The snake-case name of the category.
    pub open spec fn name(self) -> Seq<char> {
        match self {
            ThreatCategory::HookDetected => "hook_detected"@,
            ThreatCategory::SuspiciousSyscall => "suspicious_syscall"@,
            ThreatCategory::Rootkit => "rootkit"@,
            ThreatCategory::EbpfAbuse => "ebpf_abuse"@,
            ThreatCategory::HiddenProcess => "hidden_process"@,
            ThreatCategory::DkomAttack => "dkom_attack"@,
            ThreatCategory::HiddenConnection => "hidden_connection"@,
            ThreatCategory::ReverseShell => "reverse_shell"@,
            ThreatCategory::HiddenModule => "hidden_module"@,
            ThreatCategory::LivepatchAbuse => "livepatch_abuse"@,
            ThreatCategory::MemoryTampering => "memory_tampering"@,
            ThreatCategory::FilelessMalware => "fileless_malware"@,
            ThreatCategory::IntegrityViolation => "integrity_violation"@,
            ThreatCategory::PersistenceMechanism => "persistence_mechanism"@,
            ThreatCategory::PrivilegeEscalation => "privilege_escalation"@,
            ThreatCategory::ContainerEscape => "container_escape"@,
            ThreatCategory::Unknown => "unknown"@,
        }
    }

    pub fn as_str(&self) -> (s: &'static str)
        ensures
            s@ == self.name(),
    {
        match self {
            ThreatCategory::HookDetected => "hook_detected",
            ThreatCategory::SuspiciousSyscall => "suspicious_syscall",
            ThreatCategory::Rootkit => "rootkit",
            ThreatCategory::EbpfAbuse => "ebpf_abuse",
            ThreatCategory::HiddenProcess => "hidden_process",
            ThreatCategory::DkomAttack => "dkom_attack",
            ThreatCategory::HiddenConnection => "hidden_connection",
            ThreatCategory::ReverseShell => "reverse_shell",
            ThreatCategory::HiddenModule => "hidden_module",
            ThreatCategory::LivepatchAbuse => "livepatch_abuse",
            ThreatCategory::MemoryTampering => "memory_tampering",
            ThreatCategory::FilelessMalware => "fileless_malware",
            ThreatCategory::IntegrityViolation => "integrity_violation",
            ThreatCategory::PersistenceMechanism => "persistence_mechanism",
            ThreatCategory::PrivilegeEscalation => "privilege_escalation",
            ThreatCategory::ContainerEscape => "container_escape",
            ThreatCategory::Unknown => "unknown",
        }
    }
}

/// A process taking part in a threat.
#[derive(Debug)]
pub struct ProcessInfo {
    pub pid: u32,
    pub ppid: u32,
    pub name: String,
    pub binary_path: String,
    pub user: String,
    pub uid: u32,
    pub gid: u32,
}

/// The mathematical content of a [`ProcessInfo`].
pub struct ProcessModel {
    pub pid: u32,
    pub ppid: u32,
    pub name: Seq<char>,
    pub binary_path: Seq<char>,
    pub user: Seq<char>,
    pub uid: u32,
    pub gid: u32,
}

impl View for ProcessInfo {
    type V = ProcessModel;

    open spec fn view(&self) -> ProcessModel {
        ProcessModel {
            pid: self.pid,
            ppid: self.ppid,
            name: self.name@,
            binary_path: self.binary_path@,
            user: self.user@,
            uid: self.uid,
            gid: self.gid,
        }
    }
}

impl ProcessInfo {
    pub fn duplicate(&self) -> (r: ProcessInfo)
        ensures
            r@ == self@,
    {
        ProcessInfo {
            pid: self.pid,
            ppid: self.ppid,
            name: self.name.clone(),
            binary_path: self.binary_path.clone(),
            user: self.user.clone(),
            uid: self.uid,
            gid: self.gid,
        }
    }
}

/// One piece of supporting evidence inside a threat event.  `confidence`
/// is in millionths.
pub struct ThreatEvidence {
    pub description: String,
    pub data: DataMap,
    pub confidence: u32,
}

/// The mathematical content of a [`ThreatEvidence`].
pub struct ThreatEvidenceModel {
    pub description: Seq<char>,
    pub data: Seq<(Seq<char>, crate::value::ValueModel)>,
    pub confidence: u32,
}

impl View for ThreatEvidence {
    type V = ThreatEvidenceModel;

    open spec fn view(&self) -> ThreatEvidenceModel {
        ThreatEvidenceModel {
            description: self.description@,
            data: self.data@,
            confidence: self.confidence,
        }
    }
}

impl ThreatEvidence {
    pub fn duplicate(&self) -> (r: ThreatEvidence)
        ensures
            r@ == self@,
    {
        ThreatEvidence {
            description: self.description.clone(),
            data: self.data.duplicate(),
            confidence: self.confidence,
        }
    }
}

/// The views of a sequence of strings.
pub open spec fn strings_view(v: Seq<String>) -> Seq<Seq<char>> {
    Seq::new(v.len(), |i: int| v[i]@)
}

/// A copy of a vector of strings.
pub fn duplicate_strings(v: &Vec<String>) -> (r: Vec<String>)
    ensures
        strings_view(r@) == strings_view(v@),
{
    let mut r: Vec<String> = Vec::new();
    let mut i: usize = 0;
    while i < v.len()
        invariant
            i <= v.len(),
            r@.len() == i,
            forall|k: int| 0 <= k < i ==> r@[k]@ == v@[k]@,
        decreases v.len() - i,
    {
        r.push(v[i].clone());
        i += 1;
    }
    assert(strings_view(r@) =~= strings_view(v@));
    r
}

/// A threat reported by a detector.  `timestamp` is in microseconds since
/// the Unix epoch.
pub struct ThreatEvent {
    pub id: u128,
    pub timestamp: i64,
    pub severity: Severity,
    pub category: ThreatCategory,
    pub title: String,
    pub description: String,
    pub evidence: Vec<ThreatEvidence>,
    pub mitre_attack: Vec<String>,
    pub source_detector: String,
    pub process: Option<ProcessInfo>,
    pub tags: Vec<String>,
}

/// The mathematical content of a [`ThreatEvent`].
pub struct ThreatEventModel {
    pub id: u128,
    pub timestamp: i64,
    pub severity: Severity,
    pub category: ThreatCategory,
    pub title: Seq<char>,
    pub description: Seq<char>,
    pub evidence: Seq<ThreatEvidenceModel>,
    pub mitre_attack: Seq<Seq<char>>,
    pub source_detector: Seq<char>,
    pub process: Option<ProcessModel>,
    pub tags: Seq<Seq<char>>,
}

/// The views of a sequence of evidence items.
pub open spec fn threat_evidence_view(v: Seq<ThreatEvidence>) -> Seq<ThreatEvidenceModel> {
    Seq::new(v.len(), |i: int| v[i]@)
}

impl View for ThreatEvent {
    type V = ThreatEventModel;

    open spec fn view(&self) -> ThreatEventModel {
        ThreatEventModel {
            id: self.id,
            timestamp: self.timestamp,
            severity: self.severity,
            category: self.category,
            title: self.title@,
            description: self.description@,
            evidence: threat_evidence_view(self.evidence@),
            mitre_attack: strings_view(self.mitre_attack@),
            source_detector: self.source_detector@,
            process: match self.process {
                Some(p) => Some(p@),
                None => None,
            },
            tags: strings_view(self.tags@),
        }
    }
}

/// The views of a sequence of threat events.
pub open spec fn events_view(v: Seq<ThreatEvent>) -> Seq<ThreatEventModel> {
    Seq::new(v.len(), |i: int| v[i]@)
}

impl ThreatEvent {
    pub fn duplicate(&self) -> (r: ThreatEvent)
        ensures
            r@ == self@,
    {
        let mut evidence: Vec<ThreatEvidence> = Vec::new();
        let mut i: usize = 0;
        while i < self.evidence.len()
            invariant
                i <= self.evidence.len(),
                evidence@.len() == i,
                forall|k: int| 0 <= k < i ==> evidence@[k]@ == self.evidence@[k]@,
            decreases self.evidence.len() - i,
        {
            evidence.push(self.evidence[i].duplicate());
            i += 1;
        }
        let process = match &self.process {
            Some(p) => Some(p.duplicate()),
            None => None,
        };
        let r = ThreatEvent {
            id: self.id,
            timestamp: self.timestamp,
            severity: self.severity,
            category: self.category,
            title: self.title.clone(),
            description: self.description.clone(),
            evidence,
            mitre_attack: duplicate_strings(&self.mitre_attack),
            source_detector: self.source_detector.clone(),
            process,
            tags: duplicate_strings(&self.tags),
        };
        assert(threat_evidence_view(r.evidence@) =~= threat_evidence_view(self.evidence@));
        r
    }
}

} // verus!
