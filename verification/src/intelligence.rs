use vstd::prelude::*;
use crate::assessment::{clamp_confidence, clamped_confidence};
use crate::clock::{new_id, now_micros};
use crate::grouping::{counts, counts_view, key_counts};
use crate::text::{owned, str_eq};
use crate::threat::{duplicate_strings, strings_view};
use crate::value::{DataMap, Value, ValueModel};

verus! {

/// The kinds of indicator of compromise.
#[derive(Debug, Clone, Copy, PartialEq, Eq, Hash, Structural)]
pub enum IoCType {
    Hash,
    IpAddress,
    Domain,
    Filename,
    ProcessName,
    ModuleName,
    Url,
    Email,
}

impl IoCType {
    /// The snake-case name of the kind.
    pub open spec fn name(self) -> Seq<char> {
        match self {
            IoCType::Hash => "hash"@,
            IoCType::IpAddress => "ip_address"@,
            IoCType::Domain => "domain"@,
            IoCType::Filename => "filename"@,
            IoCType::ProcessName => "process_name"@,
            IoCType::ModuleName => "module_name"@,
            IoCType::Url => "url"@,
            IoCType::Email => "email"@,
        }
    }

    /// The kind whose name is `s`, if any.
    pub open spec fn named(s: Seq<char>) -> Option<IoCType> {
        if s == "hash"@ {
            Some(IoCType::Hash)
        } else if s == "ip_address"@ {
            Some(IoCType::IpAddress)
        } else if s == "domain"@ {
            Some(IoCType::Domain)
        } else if s == "filename"@ {
            Some(IoCType::Filename)
        } else if s == "process_name"@ {
            Some(IoCType::ProcessName)
        } else if s == "module_name"@ {
            Some(IoCType::ModuleName)
        } else if s == "url"@ {
            Some(IoCType::Url)
        } else if s == "email"@ {
            Some(IoCType::Email)
        } else {
            None
        }
    }

    pub fn as_str(&self) -> (s: &'static str)
        ensures
            s@ == self.name(),
    {
        match self {
            IoCType::Hash => "hash",
            IoCType::IpAddress => "ip_address",
            IoCType::Domain => "domain",
            IoCType::Filename => "filename",
            IoCType::ProcessName => "process_name",
            IoCType::ModuleName => "module_name",
            IoCType::Url => "url",
            IoCType::Email => "email",
        }
    }

    /// The kind named `s`; `None` for any other text.
    pub fn parse_from(s: &str) -> (r: Option<IoCType>)
        ensures
            r == IoCType::named(s@),
    {
        if str_eq(s, "hash") {
            Some(IoCType::Hash)
        } else if str_eq(s, "ip_address") {
            Some(IoCType::IpAddress)
        } else if str_eq(s, "domain") {
            Some(IoCType::Domain)
        } else if str_eq(s, "filename") {
            Some(IoCType::Filename)
        } else if str_eq(s, "process_name") {
            Some(IoCType::ProcessName)
        } else if str_eq(s, "module_name") {
            Some(IoCType::ModuleName)
        } else if str_eq(s, "url") {
            Some(IoCType::Url)
        } else if str_eq(s, "email") {
            Some(IoCType::Email)
        } else {
            None
        }
    }
}

/// Each kind's name reads back as that kind.
pub proof fn lemma_ioc_type_roundtrip(t: IoCType)
    ensures
        IoCType::named(t.name()) == Some(t),
{
    reveal_strlit("hash");
    reveal_strlit("ip_address");
    reveal_strlit("domain");
    reveal_strlit("filename");
    reveal_strlit("process_name");
    reveal_strlit("module_name");
    reveal_strlit("url");
    reveal_strlit("email");
    assert("hash"@.len() == 4 && "ip_address"@.len() == 10 && "domain"@.len() == 6 && "filename"@.len() == 8);
    assert("process_name"@.len() == 12 && "module_name"@.len() == 11 && "url"@.len() == 3 && "email"@.len() == 5);
    match t {
        IoCType::Hash => {},
        IoCType::IpAddress => {
            assert("ip_address"@ != "hash"@);
        },
        IoCType::Domain => {
            assert("domain"@ != "hash"@);
            assert("domain"@ != "ip_address"@);
        },
        IoCType::Filename => {
            assert("filename"@ != "hash"@);
            assert("filename"@ != "ip_address"@);
            assert("filename"@ != "domain"@);
        },
        IoCType::ProcessName => {
            assert("process_name"@ != "hash"@);
            assert("process_name"@ != "ip_address"@);
            assert("process_name"@ != "domain"@);
            assert("process_name"@ != "filename"@);
        },
        IoCType::ModuleName => {
            assert("module_name"@ != "hash"@);
            assert("module_name"@ != "ip_address"@);
            assert("module_name"@ != "domain"@);
            assert("module_name"@ != "filename"@);
            assert("module_name"@ != "process_name"@);
        },
        IoCType::Url => {
            assert("url"@ != "hash"@);
            assert("url"@ != "ip_address"@);
            assert("url"@ != "domain"@);
            assert("url"@ != "filename"@);
            assert("url"@ != "process_name"@);
            assert("url"@ != "module_name"@);
        },
        IoCType::Email => {
            assert("email"@ != "hash"@);
            assert("email"@ != "ip_address"@);
            assert("email"@ != "domain"@);
            assert("email"@ != "filename"@);
            assert("email"@ != "process_name"@);
            assert("email"@ != "module_name"@);
            assert("email"@ != "url"@);
        },
    }
}

/// An indicator of compromise.  `confidence` is in millionths; times are
/// in microseconds since the Unix epoch; `id` is a 128-bit UUID value.
pub struct IoC {
    pub id: u128,
    pub ioc_type: IoCType,
    pub value: String,
    pub severity: String,
    pub confidence: u32,
    pub source: String,
    pub description: String,
    pub tags: Vec<String>,
    pub first_seen: i64,
    pub last_seen: i64,
    pub expiry: Option<i64>,
    pub metadata: Value,
}

/// The mathematical content of an [`IoC`].
pub struct IoCModel {
    pub id: u128,
    pub ioc_type: IoCType,
    pub value: Seq<char>,
    pub severity: Seq<char>,
    pub confidence: u32,
    pub source: Seq<char>,
    pub description: Seq<char>,
    pub tags: Seq<Seq<char>>,
    pub first_seen: i64,
    pub last_seen: i64,
    pub expiry: Option<i64>,
    pub metadata: ValueModel,
}

impl View for IoC {
    type V = IoCModel;

    open spec fn view(&self) -> IoCModel {
        IoCModel {
            id: self.id,
            ioc_type: self.ioc_type,
            value: self.value@,
            severity: self.severity@,
            confidence: self.confidence,
            source: self.source@,
            description: self.description@,
            tags: strings_view(self.tags@),
            first_seen: self.first_seen,
            last_seen: self.last_seen,
            expiry: self.expiry,
            metadata: self.metadata@,
        }
    }
}

impl IoC {
    /// A new indicator with a random id, seen first and last now, of
    /// medium severity and half confidence, with no description, tags,
    /// expiry or metadata.
    pub fn new(ioc_type: IoCType, value: &str, source: &str) -> (r: IoC)
        ensures
            r.ioc_type == ioc_type,
            r@.value == value@,
            r@.severity == "medium"@,
            r.confidence == 500_000,
            r@.source == source@,
            r@.description.len() == 0,
            r@.tags.len() == 0,
            r.first_seen == r.last_seen,
            r.expiry is None,
            r.metadata == Value::Null,
    {
        let now = now_micros();
        IoC {
            id: new_id(),
            ioc_type,
            value: owned(value),
            severity: owned("medium"),
            confidence: 500_000,
            source: owned(source),
            description: String::new(),
            tags: Vec::new(),
            first_seen: now,
            last_seen: now,
            expiry: None,
            metadata: Value::Null,
        }
    }

    pub fn duplicate(&self) -> (r: IoC)
        ensures
            r@ == self@,
    {
        IoC {
            id: self.id,
            ioc_type: self.ioc_type,
            value: self.value.clone(),
            severity: self.severity.clone(),
            confidence: self.confidence,
            source: self.source.clone(),
            description: self.description.clone(),
            tags: duplicate_strings(&self.tags),
            first_seen: self.first_seen,
            last_seen: self.last_seen,
            expiry: self.expiry,
            metadata: self.metadata.duplicate(),
        }
    }

    pub fn with_severity(self, severity: &str) -> (r: IoC)
        ensures
            r@ == (IoCModel { severity: severity@, ..self@ }),
    {
        let mut i = self;
        i.severity = owned(severity);
        i
    }

    /// Sets the confidence (in millionths), clamped to `0 ..= CONFIDENCE_ONE`.
    pub fn with_confidence(self, confidence: i64) -> (r: IoC)
        ensures
            r@ == (IoCModel { confidence: clamp_confidence(confidence as int), ..self@ }),
    {
        let mut i = self;
        i.confidence = clamped_confidence(confidence);
        i
    }

    pub fn with_description(self, description: &str) -> (r: IoC)
        ensures
            r@ == (IoCModel { description: description@, ..self@ }),
    {
        let mut i = self;
        i.description = owned(description);
        i
    }

    pub fn with_tags(self, tags: Vec<String>) -> (r: IoC)
        ensures
            r@ == (IoCModel { tags: strings_view(tags@), ..self@ }),
    {
        let mut i = self;
        i.tags = tags;
        i
    }

    /// Sets the expiry (microseconds since the Unix epoch).
    pub fn with_expiry(self, expiry: i64) -> (r: IoC)
        ensures
            r@ == (IoCModel { expiry: Some(expiry), ..self@ }),
    {
        let mut i = self;
        i.expiry = Some(expiry);
        i
    }

    /// The kind named `s`; `None` for any other text.
    pub fn parse_type(s: &str) -> (r: Option<IoCType>)
        ensures
            r == IoCType::named(s@),
    {
        IoCType::parse_from(s)
    }
}

/// A MITRE ATT&CK technique.
pub struct MitreTechnique {
    pub id: String,
    pub name: String,
    pub tactic: String,
    pub description: String,
    pub data_sources: Vec<String>,
    pub platforms: Vec<String>,
    pub detection: String,
}

/// The mathematical content of a [`MitreTechnique`].
#[verifier::ext_equal]
pub struct TechniqueModel {
    pub id: Seq<char>,
    pub name: Seq<char>,
    pub tactic: Seq<char>,
    pub description: Seq<char>,
    pub data_sources: Seq<Seq<char>>,
    pub platforms: Seq<Seq<char>>,
    pub detection: Seq<char>,
}

impl View for MitreTechnique {
    type V = TechniqueModel;

    open spec fn view(&self) -> TechniqueModel {
        TechniqueModel {
            id: self.id@,
            name: self.name@,
            tactic: self.tactic@,
            description: self.description@,
            data_sources: strings_view(self.data_sources@),
            platforms: strings_view(self.platforms@),
            detection: self.detection@,
        }
    }
}

/// A technique on Linux with nothing but its id, name and tactic.
pub open spec fn plain_technique(id: Seq<char>, name: Seq<char>, tactic: Seq<char>) -> TechniqueModel {
    TechniqueModel {
        id,
        name,
        tactic,
        description: Seq::empty(),
        data_sources: Seq::empty(),
        platforms: seq!["Linux"@],
        detection: Seq::empty(),
    }
}

impl MitreTechnique {
    /// A Linux technique with no description, data sources or detection.
    pub fn new(id: &str, name: &str, tactic: &str) -> (t: MitreTechnique)
        ensures
            t@ == plain_technique(id@, name@, tactic@),
    {
        let mut platforms: Vec<String> = Vec::new();
        platforms.push(owned("Linux"));
        let t = MitreTechnique {
            id: owned(id),
            name: owned(name),
            tactic: owned(tactic),
            description: String::new(),
            data_sources: Vec::new(),
            platforms,
            detection: String::new(),
        };
        assert(t@ =~~= plain_technique(id@, name@, tactic@));
        t
    }

    pub fn with_description(self, desc: &str) -> (t: MitreTechnique)
        ensures
            t@ == (TechniqueModel { description: desc@, ..self@ }),
    {
        let mut t = self;
        t.description = owned(desc);
        t
    }

    pub fn duplicate(&self) -> (t: MitreTechnique)
        ensures
            t@ == self@,
    {
        MitreTechnique {
            id: self.id.clone(),
            name: self.name.clone(),
            tactic: self.tactic.clone(),
            description: self.description.clone(),
            data_sources: duplicate_strings(&self.data_sources),
            platforms: duplicate_strings(&self.platforms),
            detection: self.detection.clone(),
        }
    }
}

/// The views of a sequence of techniques.
pub open spec fn techniques_view(v: Seq<MitreTechnique>) -> Seq<TechniqueModel> {
    Seq::new(v.len(), |i: int| v[i]@)
}

/// The views of a sequence of technique references.
pub open spec fn technique_refs_view(v: Seq<&MitreTechnique>) -> Seq<TechniqueModel> {
    Seq::new(v.len(), |i: int| v[i]@)
}

/// The tactic table after technique `id` of tactic `t` is listed: under
/// the tactic's entry, or a new entry at the end.
pub open spec fn map_add(m: Seq<(Seq<char>, Seq<Seq<char>>)>, t: Seq<char>, id: Seq<char>) -> Seq<(Seq<char>, Seq<Seq<char>>)> {
    if exists|i: int| 0 <= i < m.len() && m[i].0 == t {
        let i = choose|i: int| 0 <= i < m.len() && m[i].0 == t;
        m.update(i, (t, m[i].1.push(id)))
    } else {
        m.push((t, seq![id]))
    }
}

/// The tactic table of the techniques, built in order.
pub open spec fn tactic_table(ts: Seq<TechniqueModel>) -> Seq<(Seq<char>, Seq<Seq<char>>)>
    decreases ts.len(),
{
    if ts.len() == 0 {
        Seq::empty()
    } else {
        map_add(tactic_table(ts.drop_last()), ts.last().tactic, ts.last().id)
    }
}

/// The views of a tactic table.
pub open spec fn table_view(v: Seq<(String, Vec<String>)>) -> Seq<(Seq<char>, Seq<Seq<char>>)> {
    Seq::new(v.len(), |i: int| (v[i].0@, strings_view(v[i].1@)))
}

/// Tactics are pairwise distinct.
pub open spec fn tactics_distinct(m: Seq<(Seq<char>, Seq<Seq<char>>)>) -> bool {
    forall|i: int, j: int| 0 <= i < m.len() && 0 <= j < m.len() && i != j ==> m[i].0 != m[j].0
}

/// The techniques, and for each tactic in order of first appearance the
/// ids of its techniques.
pub struct MitreMatrix {
    pub techniques: Vec<MitreTechnique>,
    pub tactic_mapping: Vec<(String, Vec<String>)>,
}

/// A technique with a description.
pub open spec fn described(id: Seq<char>, name: Seq<char>, tactic: Seq<char>, description: Seq<char>) -> TechniqueModel {
    TechniqueModel { description, ..plain_technique(id, name, tactic) }
}

/// The built-in techniques.
pub open spec fn default_techniques() -> Seq<TechniqueModel> {
    seq![
        described("T1014"@, "Rootkit"@, "defense-evasion"@,
            "Adversaries may use rootkits to hide the presence of programs, files, network connections, services, and other system components."@),
        described("T1055"@, "Process Injection"@, "defense-evasion"@,
            "Adversaries may inject code into processes in order to evade process-based defenses."@),
        described("T1059"@, "Command and Scripting Interpreter"@, "execution"@,
            "Adversaries may abuse command and script interpreters to execute commands, scripts, or binaries."@),
        described("T1068"@, "Exploitation for Privilege Escalation"@, "privilege-escalation"@,
            "Adversaries may exploit software vulnerabilities to escalate privileges."@),
        described("T1547"@, "Boot or Logon Autostart Execution"@, "persistence"@,
            "Adversaries may configure system settings to automatically execute a program during boot or logon."@),
        described("T1548"@, "Abuse Elevation Control Mechanism"@, "privilege-escalation"@,
            "Adversaries may circumvent mechanisms designed to control elevated privileges."@),
        plain_technique("T1014"@, "Rootkit"@, "defense-evasion"@),
        described("T1041"@, "Exfiltration Over C2 Channel"@, "exfiltration"@,
            "Adversaries may steal data by exfiltrating it over an existing command and control channel."@),
        described("T1048"@, "Exfiltration Over Alternative Protocol"@, "exfiltration"@,
            "Adversaries may steal data by exfiltrating it over a different protocol than that of the existing command and control channel."@),
        described("T1057"@, "Process Discovery"@, "discovery"@,
            "Adversaries may attempt to get information about running processes on a system."@),
        described("T1082"@, "System Information Discovery"@, "discovery"@,
            "An adversary may attempt to get detailed information about the operating system and hardware."@),
        described("T1083"@, "File and Directory Discovery"@, "discovery"@,
            "Adversaries may enumerate files and directories or may search in specific locations of a host or network share."@),
        described("T1105"@, "Ingress Tool Transfer"@, "command-and-control"@,
            "Adversaries may transfer tools or other files from an external system into a compromised environment."@),
        described("T1070"@, "Indicator Removal"@, "defense-evasion"@,
            "Adversaries may delete or modify artifacts generated within systems to remove evidence of their presence."@),
        described("T1003"@, "OS Credential Dumping"@, "credential-access"@,
            "Adversaries may attempt to dump credentials to obtain account login and credential material."@),
        described("T1574"@, "Hijack Execution Flow"@, "persistence"@,
            "Adversaries may execute their own malicious payloads by hijacking the way operating systems run programs."@),
    ]
}

/// The techniques of the first `n` that belong to `tactic`, in order.
pub open spec fn of_tactic(ts: Seq<TechniqueModel>, tactic: Seq<char>) -> Seq<TechniqueModel>
    decreases ts.len(),
{
    if ts.len() == 0 {
        ts
    } else if ts.last().tactic == tactic {
        of_tactic(ts.drop_last(), tactic).push(ts.last())
    } else {
        of_tactic(ts.drop_last(), tactic)
    }
}

impl MitreMatrix {
    /// An empty matrix.
    pub fn new() -> (m: MitreMatrix)
        ensures
            m.techniques@.len() == 0,
            m.tactic_mapping@.len() == 0,
    {
        MitreMatrix { techniques: Vec::new(), tactic_mapping: Vec::new() }
    }

    /// Lists a technique: appends it, and its id under its tactic.
    fn add(&mut self, t: MitreTechnique)
        requires
            tactics_distinct(table_view(old(self).tactic_mapping@)),
        ensures
            techniques_view(final(self).techniques@) == techniques_view(old(self).techniques@).push(t@),
            table_view(final(self).tactic_mapping@) == map_add(table_view(old(self).tactic_mapping@), t@.tactic, t@.id),
            tactics_distinct(table_view(final(self).tactic_mapping@)),
    {
        let ghost m0 = table_view(self.tactic_mapping@);
        let mut i: usize = 0;
        while i < self.tactic_mapping.len()
            invariant
                i <= self.tactic_mapping@.len(),
                m0 == table_view(self.tactic_mapping@),
                m0 == table_view(old(self).tactic_mapping@),
                self.techniques@ == old(self).techniques@,
                tactics_distinct(m0),
                forall|j: int| 0 <= j < i ==> m0[j].0 != t@.tactic,
            decreases self.tactic_mapping.len() - i,
        {
            if str_eq(self.tactic_mapping[i].0.as_str(), t.tactic.as_str()) {
                let mut ids = duplicate_strings(&self.tactic_mapping[i].1);
                let ghost ids0 = strings_view(ids@);
                ids.push(t.id.clone());
                assert(strings_view(ids@) =~= ids0.push(t@.id));
                let key = self.tactic_mapping[i].0.clone();
                self.tactic_mapping.set(i, (key, ids));
                proof {
                    assert(m0[i as int].0 == t@.tactic);
                    let w = choose|w: int| 0 <= w < m0.len() && m0[w].0 == t@.tactic;
                    if w != i {
                        assert(m0[w].0 != m0[i as int].0);
                    }
                    assert(table_view(self.tactic_mapping@) =~= map_add(m0, t@.tactic, t@.id));
                    assert forall|a: int, b: int| 0 <= a < m0.len() && 0 <= b < m0.len() && a != b implies
                        table_view(self.tactic_mapping@)[a].0 != table_view(self.tactic_mapping@)[b].0 by {
                        assert(table_view(self.tactic_mapping@)[a].0 == m0[a].0);
                        assert(table_view(self.tactic_mapping@)[b].0 == m0[b].0);
                    }
                }
                let ghost before = self.techniques@;
                self.techniques.push(t);
                assert(techniques_view(self.techniques@) =~= techniques_view(before).push(self.techniques@.last()@));
                return;
            }
            i += 1;
        }
        let mut ids: Vec<String> = Vec::new();
        ids.push(t.id.clone());
        assert(strings_view(ids@) =~= seq![t@.id]);
        self.tactic_mapping.push((t.tactic.clone(), ids));
        assert(table_view(self.tactic_mapping@) =~= m0.push((t@.tactic, seq![t@.id])));
        let ghost before = self.techniques@;
        self.techniques.push(t);
        assert(techniques_view(self.techniques@) =~= techniques_view(before).push(self.techniques@.last()@));
    }

    /// The built-in matrix.
    pub fn load_defaults() -> (m: MitreMatrix)
        ensures
            techniques_view(m.techniques@) == default_techniques(),
            table_view(m.tactic_mapping@) == tactic_table(default_techniques()),
    {
        let ghost d = default_techniques();
        let mut m = MitreMatrix::new();
        assert(techniques_view(m.techniques@) =~= d.take(0));
        assert(table_view(m.tactic_mapping@) =~= tactic_table(d.take(0)));
        let mut defaults: Vec<MitreTechnique> = Vec::new();
        defaults.push(MitreTechnique::new("T1014", "Rootkit", "defense-evasion")
            .with_description("Adversaries may use rootkits to hide the presence of programs, files, network connections, services, and other system components."));
        defaults.push(MitreTechnique::new("T1055", "Process Injection", "defense-evasion")
            .with_description("Adversaries may inject code into processes in order to evade process-based defenses."));
        defaults.push(MitreTechnique::new("T1059", "Command and Scripting Interpreter", "execution")
            .with_description("Adversaries may abuse command and script interpreters to execute commands, scripts, or binaries."));
        defaults.push(MitreTechnique::new("T1068", "Exploitation for Privilege Escalation", "privilege-escalation")
            .with_description("Adversaries may exploit software vulnerabilities to escalate privileges."));
        defaults.push(MitreTechnique::new("T1547", "Boot or Logon Autostart Execution", "persistence")
            .with_description("Adversaries may configure system settings to automatically execute a program during boot or logon."));
        defaults.push(MitreTechnique::new("T1548", "Abuse Elevation Control Mechanism", "privilege-escalation")
            .with_description("Adversaries may circumvent mechanisms designed to control elevated privileges."));
        defaults.push(MitreTechnique::new("T1014", "Rootkit", "defense-evasion"));
        defaults.push(MitreTechnique::new("T1041", "Exfiltration Over C2 Channel", "exfiltration")
            .with_description("Adversaries may steal data by exfiltrating it over an existing command and control channel."));
        defaults.push(MitreTechnique::new("T1048", "Exfiltration Over Alternative Protocol", "exfiltration")
            .with_description("Adversaries may steal data by exfiltrating it over a different protocol than that of the existing command and control channel."));
        defaults.push(MitreTechnique::new("T1057", "Process Discovery", "discovery")
            .with_description("Adversaries may attempt to get information about running processes on a system."));
        defaults.push(MitreTechnique::new("T1082", "System Information Discovery", "discovery")
            .with_description("An adversary may attempt to get detailed information about the operating system and hardware."));
        defaults.push(MitreTechnique::new("T1083", "File and Directory Discovery", "discovery")
            .with_description("Adversaries may enumerate files and directories or may search in specific locations of a host or network share."));
        defaults.push(MitreTechnique::new("T1105", "Ingress Tool Transfer", "command-and-control")
            .with_description("Adversaries may transfer tools or other files from an external system into a compromised environment."));
        defaults.push(MitreTechnique::new("T1070", "Indicator Removal", "defense-evasion")
            .with_description("Adversaries may delete or modify artifacts generated within systems to remove evidence of their presence."));
        defaults.push(MitreTechnique::new("T1003", "OS Credential Dumping", "credential-access")
            .with_description("Adversaries may attempt to dump credentials to obtain account login and credential material."));
        defaults.push(MitreTechnique::new("T1574", "Hijack Execution Flow", "persistence")
            .with_description("Adversaries may execute their own malicious payloads by hijacking the way operating systems run programs."));
        assert(techniques_view(defaults@) =~~= d);
        let mut i: usize = 0;
        while i < defaults.len()
            invariant
                i <= defaults@.len(),
                techniques_view(defaults@) == d,
                techniques_view(m.techniques@) == d.take(i as int),
                table_view(m.tactic_mapping@) == tactic_table(d.take(i as int)),
                tactics_distinct(table_view(m.tactic_mapping@)),
            decreases defaults.len() - i,
        {
            m.add(defaults[i].duplicate());
            assert(d.take(i + 1).drop_last() =~= d.take(i as int));
            assert(d.take(i as int).push(d[i as int]) =~= d.take(i + 1));
            i += 1;
        }
        assert(d.take(defaults.len() as int) =~= d);
        m
    }

    /// The first technique with id `id`.
    pub fn find_technique(&self, id: &str) -> (r: Option<&MitreTechnique>)
        ensures
            r matches Some(t) ==> (exists|i: int| 0 <= i < self.techniques@.len() && self.techniques@[i]@ == t@
                && forall|j: int| 0 <= j < i ==> self.techniques@[j].id@ != id@) && t.id@ == id@,
            r is None ==> forall|j: int| 0 <= j < self.techniques@.len() ==> self.techniques@[j].id@ != id@,
    {
        let mut i: usize = 0;
        while i < self.techniques.len()
            invariant
                i <= self.techniques@.len(),
                forall|j: int| 0 <= j < i ==> self.techniques@[j].id@ != id@,
            decreases self.techniques.len() - i,
        {
            if str_eq(self.techniques[i].id.as_str(), id) {
                return Some(&self.techniques[i]);
            }
            i += 1;
        }
        None
    }

    /// The techniques of a tactic, in order.
    pub fn techniques_for_tactic(&self, tactic: &str) -> (r: Vec<&MitreTechnique>)
        ensures
            technique_refs_view(r@) == of_tactic(techniques_view(self.techniques@), tactic@),
    {
        let ghost all = techniques_view(self.techniques@);
        let mut r: Vec<&MitreTechnique> = Vec::new();
        let mut i: usize = 0;
        while i < self.techniques.len()
            invariant
                i <= self.techniques@.len(),
                all == techniques_view(self.techniques@),
                technique_refs_view(r@) == of_tactic(all.take(i as int), tactic@),
            decreases self.techniques.len() - i,
        {
            assert(all.take(i + 1).drop_last() =~= all.take(i as int));
            if str_eq(self.techniques[i].tactic.as_str(), tactic) {
                let ghost before = r@;
                r.push(&self.techniques[i]);
                assert(technique_refs_view(r@) =~= technique_refs_view(before).push(all[i as int]));
            }
            i += 1;
        }
        assert(all.take(self.techniques.len() as int) =~= all);
        r
    }
}

impl Default for MitreMatrix {
    fn default() -> (m: MitreMatrix)
        ensures
            techniques_view(m.techniques@) == default_techniques(),
    {
        MitreMatrix::load_defaults()
    }
}

/// Where the events a Sigma rule reads come from.
#[derive(Debug)]
pub struct SigmaLogSource {
    pub category: Option<String>,
    pub product: Option<String>,
    pub service: Option<String>,
}

/// The views of optional strings.
pub open spec fn opt_view(o: Option<String>) -> Option<Seq<char>> {
    match o {
        Some(s) => Some(s@),
        None => None,
    }
}

fn dup_opt(o: &Option<String>) -> (r: Option<String>)
    ensures
        opt_view(r) == opt_view(*o),
{
    match o {
        Some(s) => Some(s.clone()),
        None => None,
    }
}

/// A YARA rule kept by the store.  `created_at` is in microseconds since
/// the Unix epoch; `id` is a 128-bit UUID value.
pub struct YaraRule {
    pub id: u128,
    pub name: String,
    pub description: String,
    pub author: String,
    pub severity: String,
    pub tags: Vec<String>,
    pub rule_content: String,
    pub enabled: bool,
    pub created_at: i64,
}

/// The mathematical content of a [`YaraRule`].
pub struct YaraModel {
    pub id: u128,
    pub name: Seq<char>,
    pub description: Seq<char>,
    pub author: Seq<char>,
    pub severity: Seq<char>,
    pub tags: Seq<Seq<char>>,
    pub rule_content: Seq<char>,
    pub enabled: bool,
    pub created_at: i64,
}

impl View for YaraRule {
    type V = YaraModel;

    open spec fn view(&self) -> YaraModel {
        YaraModel {
            id: self.id,
            name: self.name@,
            description: self.description@,
            author: self.author@,
            severity: self.severity@,
            tags: strings_view(self.tags@),
            rule_content: self.rule_content@,
            enabled: self.enabled,
            created_at: self.created_at,
        }
    }
}

impl YaraRule {
    /// An enabled rule of medium severity with a random id, made now, with
    /// no description, author or tags.
    pub fn new(name: &str, rule_content: &str) -> (r: YaraRule)
        ensures
            r@.name == name@,
            r@.rule_content == rule_content@,
            r@.description.len() == 0,
            r@.author.len() == 0,
            r@.severity == "medium"@,
            r@.tags.len() == 0,
            r.enabled,
    {
        let r = YaraRule {
            id: new_id(),
            name: owned(name),
            description: String::new(),
            author: String::new(),
            severity: owned("medium"),
            tags: Vec::new(),
            rule_content: owned(rule_content),
            enabled: true,
            created_at: now_micros(),
        };
        assert(r@.tags =~= Seq::<Seq<char>>::empty());
        r
    }

    pub fn with_description(self, desc: &str) -> (r: YaraRule)
        ensures
            r@ == (YaraModel { description: desc@, ..self@ }),
    {
        YaraRule { description: owned(desc), ..self }
    }

    pub fn with_severity(self, severity: &str) -> (r: YaraRule)
        ensures
            r@ == (YaraModel { severity: severity@, ..self@ }),
    {
        YaraRule { severity: owned(severity), ..self }
    }

    pub fn with_author(self, author: &str) -> (r: YaraRule)
        ensures
            r@ == (YaraModel { author: author@, ..self@ }),
    {
        YaraRule { author: owned(author), ..self }
    }

    pub fn with_tags(self, tags: Vec<String>) -> (r: YaraRule)
        ensures
            r@ == (YaraModel { tags: strings_view(tags@), ..self@ }),
    {
        YaraRule { tags, ..self }
    }

    pub fn duplicate(&self) -> (r: YaraRule)
        ensures
            r@ == self@,
    {
        YaraRule {
            id: self.id,
            name: self.name.clone(),
            description: self.description.clone(),
            author: self.author.clone(),
            severity: self.severity.clone(),
            tags: duplicate_strings(&self.tags),
            rule_content: self.rule_content.clone(),
            enabled: self.enabled,
            created_at: self.created_at,
        }
    }
}

/// What a Sigma rule looks for: a condition over named fields.
pub struct SigmaDetection {
    pub condition: String,
    pub fields: DataMap,
}

/// A Sigma rule kept by the store.  `created_at` is in microseconds since
/// the Unix epoch; `id` is a 128-bit UUID value.
pub struct SigmaRule {
    pub id: u128,
    pub name: String,
    pub description: String,
    pub author: String,
    pub severity: String,
    pub tags: Vec<String>,
    pub logsource: SigmaLogSource,
    pub detection: SigmaDetection,
    pub falsepositives: Vec<String>,
    pub enabled: bool,
    pub created_at: i64,
}

/// The mathematical content of a [`SigmaRule`].
pub struct SigmaModel {
    pub id: u128,
    pub name: Seq<char>,
    pub description: Seq<char>,
    pub author: Seq<char>,
    pub severity: Seq<char>,
    pub tags: Seq<Seq<char>>,
    pub category: Option<Seq<char>>,
    pub product: Option<Seq<char>>,
    pub service: Option<Seq<char>>,
    pub condition: Seq<char>,
    pub fields: Seq<(Seq<char>, ValueModel)>,
    pub falsepositives: Seq<Seq<char>>,
    pub enabled: bool,
    pub created_at: i64,
}

impl View for SigmaRule {
    type V = SigmaModel;

    open spec fn view(&self) -> SigmaModel {
        SigmaModel {
            id: self.id,
            name: self.name@,
            description: self.description@,
            author: self.author@,
            severity: self.severity@,
            tags: strings_view(self.tags@),
            category: opt_view(self.logsource.category),
            product: opt_view(self.logsource.product),
            service: opt_view(self.logsource.service),
            condition: self.detection.condition@,
            fields: self.detection.fields@,
            falsepositives: strings_view(self.falsepositives@),
            enabled: self.enabled,
            created_at: self.created_at,
        }
    }
}

impl SigmaRule {
    /// An enabled rule of medium severity with a random id, made now, with
    /// no description, author, tags, log source, detection or false
    /// positives.
    pub fn new(name: &str) -> (r: SigmaRule)
        ensures
            r@.name == name@,
            r@.description.len() == 0,
            r@.author.len() == 0,
            r@.severity == "medium"@,
            r@.tags.len() == 0,
            r@.category is None,
            r@.product is None,
            r@.service is None,
            r@.condition.len() == 0,
            r@.fields.len() == 0,
            r@.falsepositives.len() == 0,
            r.enabled,
    {
        let r = SigmaRule {
            id: new_id(),
            name: owned(name),
            description: String::new(),
            author: String::new(),
            severity: owned("medium"),
            tags: Vec::new(),
            logsource: SigmaLogSource { category: None, product: None, service: None },
            detection: SigmaDetection { condition: String::new(), fields: DataMap::new() },
            falsepositives: Vec::new(),
            enabled: true,
            created_at: now_micros(),
        };
        assert(r@.tags =~= Seq::<Seq<char>>::empty());
        assert(r@.falsepositives =~= Seq::<Seq<char>>::empty());
        r
    }

    pub fn with_description(self, desc: &str) -> (r: SigmaRule)
        ensures
            r@ == (SigmaModel { description: desc@, ..self@ }),
    {
        SigmaRule { description: owned(desc), ..self }
    }

    pub fn with_author(self, author: &str) -> (r: SigmaRule)
        ensures
            r@ == (SigmaModel { author: author@, ..self@ }),
    {
        SigmaRule { author: owned(author), ..self }
    }

    pub fn with_severity(self, severity: &str) -> (r: SigmaRule)
        ensures
            r@ == (SigmaModel { severity: severity@, ..self@ }),
    {
        SigmaRule { severity: owned(severity), ..self }
    }

    pub fn with_tags(self, tags: Vec<String>) -> (r: SigmaRule)
        ensures
            r@ == (SigmaModel { tags: strings_view(tags@), ..self@ }),
    {
        SigmaRule { tags, ..self }
    }

    pub fn with_logsource_category(self, category: &str) -> (r: SigmaRule)
        ensures
            r@ == (SigmaModel { category: Some(category@), ..self@ }),
    {
        let mut r = self;
        r.logsource.category = Some(owned(category));
        r
    }

    pub fn with_logsource_product(self, product: &str) -> (r: SigmaRule)
        ensures
            r@ == (SigmaModel { product: Some(product@), ..self@ }),
    {
        let mut r = self;
        r.logsource.product = Some(owned(product));
        r
    }

    pub fn with_logsource_service(self, service: &str) -> (r: SigmaRule)
        ensures
            r@ == (SigmaModel { service: Some(service@), ..self@ }),
    {
        let mut r = self;
        r.logsource.service = Some(owned(service));
        r
    }

    pub fn with_falsepositives(self, fps: Vec<String>) -> (r: SigmaRule)
        ensures
            r@ == (SigmaModel { falsepositives: strings_view(fps@), ..self@ }),
    {
        SigmaRule { falsepositives: fps, ..self }
    }

    pub fn duplicate(&self) -> (r: SigmaRule)
        ensures
            r@ == self@,
    {
        SigmaRule {
            id: self.id,
            name: self.name.clone(),
            description: self.description.clone(),
            author: self.author.clone(),
            severity: self.severity.clone(),
            tags: duplicate_strings(&self.tags),
            logsource: SigmaLogSource {
                category: dup_opt(&self.logsource.category),
                product: dup_opt(&self.logsource.product),
                service: dup_opt(&self.logsource.service),
            },
            detection: SigmaDetection {
                condition: self.detection.condition.clone(),
                fields: self.detection.fields.duplicate(),
            },
            falsepositives: duplicate_strings(&self.falsepositives),
            enabled: self.enabled,
            created_at: self.created_at,
        }
    }
}

/// The views of YARA rules.
pub open spec fn yara_view(v: Seq<YaraRule>) -> Seq<YaraModel> {
    Seq::new(v.len(), |i: int| v[i]@)
}

/// The views of Sigma rules.
pub open spec fn sigma_view(v: Seq<SigmaRule>) -> Seq<SigmaModel> {
    Seq::new(v.len(), |i: int| v[i]@)
}

/// Counts of what the intelligence store holds.  `iocs_by_type` counts
/// indicators by kind name, in order of first appearance.
#[derive(Debug)]
pub struct IntelligenceStats {
    pub total_iocs: usize,
    pub iocs_by_type: Vec<(String, usize)>,
    pub total_mitre_techniques: usize,
    pub total_yara_rules: usize,
    pub total_sigma_rules: usize,
    pub total_cves: usize,
}

/// The views of a sequence of indicators.
pub open spec fn iocs_view(v: Seq<IoC>) -> Seq<IoCModel> {
    Seq::new(v.len(), |i: int| v[i]@)
}

/// The position of the indicator of kind `t` and value `v`, if any.
pub open spec fn ioc_pos(s: Seq<IoCModel>, t: IoCType, v: Seq<char>) -> Option<int> {
    if exists|i: int| 0 <= i < s.len() && s[i].ioc_type == t && s[i].value == v {
        Some(choose|i: int| 0 <= i < s.len() && s[i].ioc_type == t && s[i].value == v)
    } else {
        None
    }
}

/// No two indicators share both kind and value (the store's key).
pub open spec fn iocs_unique(s: Seq<IoCModel>) -> bool {
    forall|i: int, j: int| 0 <= i < s.len() && 0 <= j < s.len() && i != j
        ==> !(s[i].ioc_type == s[j].ioc_type && s[i].value == s[j].value)
}

/// The indicators after `m` is stored: one of the same kind and value is
/// replaced in place, otherwise `m` goes at the end.
pub open spec fn ioc_put(s: Seq<IoCModel>, m: IoCModel) -> Seq<IoCModel> {
    match ioc_pos(s, m.ioc_type, m.value) {
        Some(i) => s.update(i, m),
        None => s.push(m),
    }
}

/// The indicators of one kind, in order.
pub open spec fn iocs_of_type(s: Seq<IoCModel>, t: IoCType) -> Seq<IoCModel>
    decreases s.len(),
{
    if s.len() == 0 {
        s
    } else if s.last().ioc_type == t {
        iocs_of_type(s.drop_last(), t).push(s.last())
    } else {
        iocs_of_type(s.drop_last(), t)
    }
}

/// Keeps indicators of compromise, keyed by kind and value, and the MITRE
/// ATT&CK matrix.
pub struct IntelligenceEngine {
    iocs: Vec<IoC>,
    mitre: MitreMatrix,
    yara_rules: Vec<YaraRule>,
    sigma_rules: Vec<SigmaRule>,
}

impl IntelligenceEngine {
    #[verifier::type_invariant]
    closed spec fn inv(self) -> bool {
        iocs_unique(iocs_view(self.iocs@))
    }

    /// The stored indicators, in the order their keys first came.
    pub closed spec fn indicators(&self) -> Seq<IoCModel> {
        iocs_view(self.iocs@)
    }

    /// The techniques of the matrix.
    pub closed spec fn techniques(&self) -> Seq<TechniqueModel> {
        techniques_view(self.mitre.techniques@)
    }

    /// The YARA rules, in the order added.
    pub closed spec fn yara(&self) -> Seq<YaraModel> {
        yara_view(self.yara_rules@)
    }

    /// The Sigma rules, in the order added.
    pub closed spec fn sigma(&self) -> Seq<SigmaModel> {
        sigma_view(self.sigma_rules@)
    }

    /// A store with no indicator or rule and the built-in matrix.
    pub fn new() -> (e: IntelligenceEngine)
        ensures
            e.indicators().len() == 0,
            e.techniques() == default_techniques(),
            e.yara().len() == 0,
            e.sigma().len() == 0,
    {
        let e = IntelligenceEngine {
            iocs: Vec::new(),
            mitre: MitreMatrix::load_defaults(),
            yara_rules: Vec::new(),
            sigma_rules: Vec::new(),
        };
        assert(e.indicators() =~= Seq::<IoCModel>::empty());
        assert(e.yara() =~= Seq::<YaraModel>::empty());
        assert(e.sigma() =~= Seq::<SigmaModel>::empty());
        e
    }

    fn find(&self, t: IoCType, value: &str) -> (r: Option<usize>)
        ensures
            r matches Some(i) ==> i < self.indicators().len() && ioc_pos(self.indicators(), t, value@) == Some(i as int),
            r is None ==> ioc_pos(self.indicators(), t, value@) is None,
    {
        proof {
            use_type_invariant(self);
        }
        let ghost s = self.indicators();
        let mut i: usize = 0;
        while i < self.iocs.len()
            invariant
                i <= self.iocs@.len(),
                s == self.indicators(),
                iocs_unique(s),
                forall|j: int| 0 <= j < i ==> !(s[j].ioc_type == t && s[j].value == value@),
            decreases self.iocs.len() - i,
        {
            if self.iocs[i].ioc_type == t && str_eq(self.iocs[i].value.as_str(), value) {
                proof {
                    assert(s[i as int].ioc_type == t && s[i as int].value == value@);
                    let w = choose|w: int| 0 <= w < s.len() && s[w].ioc_type == t && s[w].value == value@;
                    if w != i {
                        assert(!(s[w].ioc_type == s[i as int].ioc_type && s[w].value == s[i as int].value));
                    }
                }
                return Some(i);
            }
            i += 1;
        }
        None
    }

    /// Stores an indicator under its kind and value, replacing one stored
    /// under the same.
    pub fn add_ioc(&mut self, ioc: IoC)
        ensures
            final(self).indicators() == ioc_put(old(self).indicators(), ioc@),
            final(self).techniques() == old(self).techniques(),
            final(self).yara() == old(self).yara(),
            final(self).sigma() == old(self).sigma(),
    {
        proof {
            use_type_invariant(&*self);
        }
        let ghost before = self.indicators();
        let ghost m = ioc@;
        let found = self.find(ioc.ioc_type, ioc.value.as_str());
        let mut v: Vec<IoC> = Vec::new();
        std::mem::swap(&mut v, &mut self.iocs);
        match found {
            Some(i) => {
                v.set(i, ioc);
                assert(iocs_view(v@) =~= before.update(i as int, m));
                proof {
                    let w = choose|w: int| 0 <= w < before.len() && before[w].ioc_type == m.ioc_type && before[w].value == m.value;
                    assert forall|a: int, b: int| 0 <= a < v@.len() && 0 <= b < v@.len() && a != b implies
                        !(iocs_view(v@)[a].ioc_type == iocs_view(v@)[b].ioc_type && iocs_view(v@)[a].value == iocs_view(v@)[b].value) by {
                        if a == i {
                            assert(iocs_view(v@)[b] == before[b]);
                        } else if b == i {
                            assert(iocs_view(v@)[a] == before[a]);
                        } else {
                            assert(iocs_view(v@)[a] == before[a]);
                            assert(iocs_view(v@)[b] == before[b]);
                        }
                    }
                }
            },
            None => {
                v.push(ioc);
                assert(iocs_view(v@) =~= before.push(m));
                proof {
                    assert forall|a: int, b: int| 0 <= a < v@.len() && 0 <= b < v@.len() && a != b implies
                        !(iocs_view(v@)[a].ioc_type == iocs_view(v@)[b].ioc_type && iocs_view(v@)[a].value == iocs_view(v@)[b].value) by {
                        if a < before.len() && b < before.len() {
                            assert(iocs_view(v@)[a] == before[a]);
                            assert(iocs_view(v@)[b] == before[b]);
                        } else if a < before.len() {
                            assert(iocs_view(v@)[a] == before[a]);
                        } else {
                            assert(iocs_view(v@)[b] == before[b]);
                        }
                    }
                }
            },
        }
        self.iocs = v;
    }

    /// A copy of the indicator of kind `t` and value `value`.
    pub fn get_ioc(&self, t: IoCType, value: &str) -> (r: Option<IoC>)
        ensures
            ioc_pos(self.indicators(), t, value@) matches Some(i) ==> (r matches Some(x) && x@ == self.indicators()[i]),
            ioc_pos(self.indicators(), t, value@) is None ==> r is None,
    {
        match self.find(t, value) {
            Some(i) => Some(self.iocs[i].duplicate()),
            None => None,
        }
    }

    /// The hash indicator with this value.
    pub fn check_hash(&self, hash: &str) -> (r: Option<IoC>)
        ensures
            ioc_pos(self.indicators(), IoCType::Hash, hash@) matches Some(i) ==> (r matches Some(x) && x@ == self.indicators()[i]),
            ioc_pos(self.indicators(), IoCType::Hash, hash@) is None ==> r is None,
    {
        self.get_ioc(IoCType::Hash, hash)
    }

    /// The IP address indicator with this value.
    pub fn check_ip(&self, ip: &str) -> (r: Option<IoC>)
        ensures
            ioc_pos(self.indicators(), IoCType::IpAddress, ip@) matches Some(i) ==> (r matches Some(x) && x@ == self.indicators()[i]),
            ioc_pos(self.indicators(), IoCType::IpAddress, ip@) is None ==> r is None,
    {
        self.get_ioc(IoCType::IpAddress, ip)
    }

    /// The domain indicator with this value.
    pub fn check_domain(&self, domain: &str) -> (r: Option<IoC>)
        ensures
            ioc_pos(self.indicators(), IoCType::Domain, domain@) matches Some(i) ==> (r matches Some(x) && x@ == self.indicators()[i]),
            ioc_pos(self.indicators(), IoCType::Domain, domain@) is None ==> r is None,
    {
        self.get_ioc(IoCType::Domain, domain)
    }

    /// Copies of all indicators, in order.
    pub fn list_iocs(&self) -> (r: Vec<IoC>)
        ensures
            iocs_view(r@) == self.indicators(),
    {
        let mut r: Vec<IoC> = Vec::new();
        let mut i: usize = 0;
        while i < self.iocs.len()
            invariant
                i <= self.iocs@.len(),
                r@.len() == i,
                forall|k: int| 0 <= k < i ==> r@[k]@ == self.indicators()[k],
            decreases self.iocs.len() - i,
        {
            r.push(self.iocs[i].duplicate());
            i += 1;
        }
        assert(iocs_view(r@) =~= self.indicators());
        r
    }

    /// Copies of the indicators of one kind, in order.
    pub fn list_iocs_by_type(&self, t: IoCType) -> (r: Vec<IoC>)
        ensures
            iocs_view(r@) == iocs_of_type(self.indicators(), t),
    {
        let ghost s = self.indicators();
        let mut r: Vec<IoC> = Vec::new();
        let mut i: usize = 0;
        while i < self.iocs.len()
            invariant
                i <= self.iocs@.len(),
                s == self.indicators(),
                iocs_view(r@) == iocs_of_type(s.take(i as int), t),
            decreases self.iocs.len() - i,
        {
            assert(s.take(i + 1).drop_last() =~= s.take(i as int));
            if self.iocs[i].ioc_type == t {
                let ghost before = r@;
                r.push(self.iocs[i].duplicate());
                assert(iocs_view(r@) =~= iocs_view(before).push(s[i as int]));
            }
            i += 1;
        }
        assert(s.take(self.iocs.len() as int) =~= s);
        r
    }

    /// Removes the indicator of kind `t` and value `value`; returns whether
    /// there was one.
    pub fn remove_ioc(&mut self, t: IoCType, value: &str) -> (b: bool)
        ensures
            b == (ioc_pos(old(self).indicators(), t, value@) is Some),
            ioc_pos(old(self).indicators(), t, value@) matches Some(i) ==> final(self).indicators() == old(self).indicators().remove(i),
            ioc_pos(old(self).indicators(), t, value@) is None ==> final(self).indicators() == old(self).indicators(),
            final(self).techniques() == old(self).techniques(),
            final(self).yara() == old(self).yara(),
            final(self).sigma() == old(self).sigma(),
    {
        proof {
            use_type_invariant(&*self);
        }
        match self.find(t, value) {
            Some(i) => {
                let ghost before = self.indicators();
                let mut v: Vec<IoC> = Vec::new();
                std::mem::swap(&mut v, &mut self.iocs);
                v.remove(i);
                assert(iocs_view(v@) =~= before.remove(i as int));
                proof {
                    let after = iocs_view(v@);
                    assert forall|a: int, b: int| 0 <= a < after.len() && 0 <= b < after.len() && a != b implies
                        !(after[a].ioc_type == after[b].ioc_type && after[a].value == after[b].value) by {
                        let a2 = if a < i { a } else { a + 1 };
                        let b2 = if b < i { b } else { b + 1 };
                        assert(after[a] == before[a2]);
                        assert(after[b] == before[b2]);
                    }
                }
                self.iocs = v;
                true
            },
            None => false,
        }
    }

    /// The number of indicators.
    pub fn ioc_count(&self) -> (n: usize)
        ensures
            n == self.indicators().len(),
    {
        self.iocs.len()
    }

    /// How many indicators of each kind there are, by kind name, in order
    /// of first appearance.
    pub fn iocs_by_type_count(&self) -> (r: Vec<(String, usize)>)
        ensures
            counts_view(r@) == key_counts(Seq::new(self.indicators().len(), |i: int| self.indicators()[i].ioc_type.name())),
    {
        let mut names: Vec<String> = Vec::new();
        let mut i: usize = 0;
        while i < self.iocs.len()
            invariant
                i <= self.iocs@.len(),
                names@.len() == i,
                forall|k: int| 0 <= k < i ==> names@[k]@ == self.indicators()[k].ioc_type.name(),
            decreases self.iocs.len() - i,
        {
            names.push(owned(self.iocs[i].ioc_type.as_str()));
            i += 1;
        }
        assert(strings_view(names@) =~= Seq::new(self.indicators().len(), |i: int| self.indicators()[i].ioc_type.name()));
        counts(&names)
    }

    /// A copy of the first technique with id `id`.
    pub fn find_mitre_technique(&self, id: &str) -> (r: Option<MitreTechnique>)
        ensures
            r matches Some(t) ==> (exists|i: int| 0 <= i < self.techniques().len() && self.techniques()[i] == t@
                && forall|j: int| 0 <= j < i ==> self.techniques()[j].id != id@),
            r is None ==> forall|j: int| 0 <= j < self.techniques().len() ==> self.techniques()[j].id != id@,
    {
        match self.mitre.find_technique(id) {
            Some(t) => {
                let c = t.duplicate();
                proof {
                    let i = choose|i: int| 0 <= i < self.mitre.techniques@.len() && self.mitre.techniques@[i]@ == t@
                        && forall|j: int| 0 <= j < i ==> self.mitre.techniques@[j].id@ != id@;
                    assert(self.techniques()[i] == c@);
                    assert forall|j: int| 0 <= j < i implies self.techniques()[j].id != id@ by {
                        assert(self.techniques()[j] == self.mitre.techniques@[j]@);
                    }
                }
                Some(c)
            },
            None => {
                proof {
                    assert forall|j: int| 0 <= j < self.techniques().len() implies self.techniques()[j].id != id@ by {
                        assert(self.techniques()[j] == self.mitre.techniques@[j]@);
                    }
                }
                None
            },
        }
    }

    /// Copies of all techniques, in order.
    pub fn list_mitre_techniques(&self) -> (r: Vec<MitreTechnique>)
        ensures
            techniques_view(r@) == self.techniques(),
    {
        let mut r: Vec<MitreTechnique> = Vec::new();
        let mut i: usize = 0;
        while i < self.mitre.techniques.len()
            invariant
                i <= self.mitre.techniques@.len(),
                r@.len() == i,
                forall|k: int| 0 <= k < i ==> r@[k]@ == self.techniques()[k],
            decreases self.mitre.techniques.len() - i,
        {
            r.push(self.mitre.techniques[i].duplicate());
            i += 1;
        }
        assert(techniques_view(r@) =~= self.techniques());
        r
    }

    /// Copies of the techniques of a tactic, in order.
    pub fn mitre_techniques_for_tactic(&self, tactic: &str) -> (r: Vec<MitreTechnique>)
        ensures
            techniques_view(r@) == of_tactic(self.techniques(), tactic@),
    {
        let refs = self.mitre.techniques_for_tactic(tactic);
        let mut r: Vec<MitreTechnique> = Vec::new();
        let mut i: usize = 0;
        while i < refs.len()
            invariant
                i <= refs@.len(),
                r@.len() == i,
                forall|k: int| 0 <= k < i ==> r@[k]@ == refs@[k]@,
            decreases refs.len() - i,
        {
            r.push(refs[i].duplicate());
            i += 1;
        }
        assert(techniques_view(r@) =~= technique_refs_view(refs@));
        r
    }

    /// Forgets all indicators and rules; the matrix stays.
    pub fn clear(&mut self)
        ensures
            final(self).indicators().len() == 0,
            final(self).yara().len() == 0,
            final(self).sigma().len() == 0,
            final(self).techniques() == old(self).techniques(),
    {
        proof {
            use_type_invariant(&*self);
        }
        let mut v: Vec<IoC> = Vec::new();
        std::mem::swap(&mut v, &mut self.iocs);
        assert(self.indicators() =~= Seq::<IoCModel>::empty());
        let mut y: Vec<YaraRule> = Vec::new();
        std::mem::swap(&mut y, &mut self.yara_rules);
        let mut g: Vec<SigmaRule> = Vec::new();
        std::mem::swap(&mut g, &mut self.sigma_rules);
        assert(self.yara() =~= Seq::<YaraModel>::empty());
        assert(self.sigma() =~= Seq::<SigmaModel>::empty());
    }

    /// The indicator whose kind is named `ioc_type` and whose value is
    /// `value`; nothing when the kind name is unknown.
    pub fn get_ioc_by_str(&self, ioc_type: &str, value: &str) -> (r: Option<IoC>)
        ensures
            IoCType::named(ioc_type@) is None ==> r is None,
            IoCType::named(ioc_type@) matches Some(t) ==> (match ioc_pos(self.indicators(), t, value@) {
                Some(i) => r matches Some(x) && x@ == self.indicators()[i],
                None => r is None,
            }),
    {
        match IoCType::parse_from(ioc_type) {
            Some(t) => self.get_ioc(t, value),
            None => None,
        }
    }

    /// Removes the indicator whose kind is named `ioc_type` and whose value
    /// is `value`; returns whether there was one.
    pub fn remove_ioc_by_str(&mut self, ioc_type: &str, value: &str) -> (b: bool)
        ensures
            IoCType::named(ioc_type@) is None ==> !b && final(self).indicators() == old(self).indicators(),
            IoCType::named(ioc_type@) matches Some(t) ==> {
                &&& b == (ioc_pos(old(self).indicators(), t, value@) is Some)
                &&& ioc_pos(old(self).indicators(), t, value@) matches Some(i) ==> final(self).indicators() == old(self).indicators().remove(i)
                &&& ioc_pos(old(self).indicators(), t, value@) is None ==> final(self).indicators() == old(self).indicators()
            },
            final(self).techniques() == old(self).techniques(),
            final(self).yara() == old(self).yara(),
            final(self).sigma() == old(self).sigma(),
    {
        match IoCType::parse_from(ioc_type) {
            Some(t) => self.remove_ioc(t, value),
            None => false,
        }
    }

    /// Copies of the first `limit` indicators, in order.
    pub fn list_iocs_limit(&self, limit: usize) -> (r: Vec<IoC>)
        ensures
            iocs_view(r@) == self.indicators().take(if limit < self.indicators().len() { limit as int } else { self.indicators().len() as int }),
    {
        let n = if limit < self.iocs.len() { limit } else { self.iocs.len() };
        let mut r: Vec<IoC> = Vec::new();
        let mut i: usize = 0;
        while i < n
            invariant
                n <= self.iocs@.len(),
                i <= n,
                r@.len() == i,
                forall|k: int| 0 <= k < i ==> r@[k]@ == self.indicators()[k],
            decreases n - i,
        {
            r.push(self.iocs[i].duplicate());
            i += 1;
        }
        assert(iocs_view(r@) =~= self.indicators().take(n as int));
        r
    }

    /// A copy of the first technique with id `id` (as `find_mitre_technique`).
    pub fn get_mitre_technique(&self, id: &str) -> (r: Option<MitreTechnique>)
        ensures
            r matches Some(t) ==> (exists|i: int| 0 <= i < self.techniques().len() && self.techniques()[i] == t@
                && forall|j: int| 0 <= j < i ==> self.techniques()[j].id != id@),
            r is None ==> forall|j: int| 0 <= j < self.techniques().len() ==> self.techniques()[j].id != id@,
    {
        self.find_mitre_technique(id)
    }

    /// Adds a YARA rule at the end.
    pub fn add_yara_rule(&mut self, rule: YaraRule)
        ensures
            final(self).yara() == old(self).yara().push(rule@),
            final(self).indicators() == old(self).indicators(),
            final(self).sigma() == old(self).sigma(),
            final(self).techniques() == old(self).techniques(),
    {
        proof {
            use_type_invariant(&*self);
        }
        let ghost before = self.yara();
        let ghost m = rule@;
        let mut v: Vec<YaraRule> = Vec::new();
        std::mem::swap(&mut v, &mut self.yara_rules);
        v.push(rule);
        self.yara_rules = v;
        assert(self.yara() =~= before.push(m));
    }

    /// Copies of the YARA rules, in order.
    pub fn list_yara_rules(&self) -> (r: Vec<YaraRule>)
        ensures
            yara_view(r@) == self.yara(),
    {
        let mut r: Vec<YaraRule> = Vec::new();
        let mut i: usize = 0;
        while i < self.yara_rules.len()
            invariant
                i <= self.yara_rules@.len(),
                r@.len() == i,
                forall|k: int| 0 <= k < i ==> r@[k]@ == self.yara()[k],
            decreases self.yara_rules.len() - i,
        {
            r.push(self.yara_rules[i].duplicate());
            i += 1;
        }
        assert(yara_view(r@) =~= self.yara());
        r
    }

    /// A copy of the first YARA rule named `name`.
    pub fn find_yara_rule(&self, name: &str) -> (r: Option<YaraRule>)
        ensures
            r matches Some(x) ==> (exists|i: int| 0 <= i < self.yara().len() && self.yara()[i] == x@
                && forall|j: int| 0 <= j < i ==> self.yara()[j].name != name@),
            r is None ==> forall|j: int| 0 <= j < self.yara().len() ==> self.yara()[j].name != name@,
    {
        let mut i: usize = 0;
        while i < self.yara_rules.len()
            invariant
                i <= self.yara_rules@.len(),
                forall|j: int| 0 <= j < i ==> self.yara()[j].name != name@,
            decreases self.yara_rules.len() - i,
        {
            if str_eq(self.yara_rules[i].name.as_str(), name) {
                let c = self.yara_rules[i].duplicate();
                assert(self.yara()[i as int] == c@);
                return Some(c);
            }
            i += 1;
        }
        None
    }

    /// A copy of the first YARA rule named `name` (as `find_yara_rule`).
    pub fn get_yara_rule(&self, name: &str) -> (r: Option<YaraRule>)
        ensures
            r matches Some(x) ==> (exists|i: int| 0 <= i < self.yara().len() && self.yara()[i] == x@
                && forall|j: int| 0 <= j < i ==> self.yara()[j].name != name@),
            r is None ==> forall|j: int| 0 <= j < self.yara().len() ==> self.yara()[j].name != name@,
    {
        self.find_yara_rule(name)
    }

    /// Adds a Sigma rule at the end.
    pub fn add_sigma_rule(&mut self, rule: SigmaRule)
        ensures
            final(self).sigma() == old(self).sigma().push(rule@),
            final(self).indicators() == old(self).indicators(),
            final(self).yara() == old(self).yara(),
            final(self).techniques() == old(self).techniques(),
    {
        proof {
            use_type_invariant(&*self);
        }
        let ghost before = self.sigma();
        let ghost m = rule@;
        let mut v: Vec<SigmaRule> = Vec::new();
        std::mem::swap(&mut v, &mut self.sigma_rules);
        v.push(rule);
        self.sigma_rules = v;
        assert(self.sigma() =~= before.push(m));
    }

    /// Copies of the Sigma rules, in order.
    pub fn list_sigma_rules(&self) -> (r: Vec<SigmaRule>)
        ensures
            sigma_view(r@) == self.sigma(),
    {
        let mut r: Vec<SigmaRule> = Vec::new();
        let mut i: usize = 0;
        while i < self.sigma_rules.len()
            invariant
                i <= self.sigma_rules@.len(),
                r@.len() == i,
                forall|k: int| 0 <= k < i ==> r@[k]@ == self.sigma()[k],
            decreases self.sigma_rules.len() - i,
        {
            r.push(self.sigma_rules[i].duplicate());
            i += 1;
        }
        assert(sigma_view(r@) =~= self.sigma());
        r
    }

    /// A copy of the first Sigma rule named `name`.
    pub fn find_sigma_rule(&self, name: &str) -> (r: Option<SigmaRule>)
        ensures
            r matches Some(x) ==> (exists|i: int| 0 <= i < self.sigma().len() && self.sigma()[i] == x@
                && forall|j: int| 0 <= j < i ==> self.sigma()[j].name != name@),
            r is None ==> forall|j: int| 0 <= j < self.sigma().len() ==> self.sigma()[j].name != name@,
    {
        let mut i: usize = 0;
        while i < self.sigma_rules.len()
            invariant
                i <= self.sigma_rules@.len(),
                forall|j: int| 0 <= j < i ==> self.sigma()[j].name != name@,
            decreases self.sigma_rules.len() - i,
        {
            if str_eq(self.sigma_rules[i].name.as_str(), name) {
                let c = self.sigma_rules[i].duplicate();
                assert(self.sigma()[i as int] == c@);
                return Some(c);
            }
            i += 1;
        }
        None
    }

    /// A copy of the first Sigma rule named `name` (as `find_sigma_rule`).
    pub fn get_sigma_rule(&self, name: &str) -> (r: Option<SigmaRule>)
        ensures
            r matches Some(x) ==> (exists|i: int| 0 <= i < self.sigma().len() && self.sigma()[i] == x@
                && forall|j: int| 0 <= j < i ==> self.sigma()[j].name != name@),
            r is None ==> forall|j: int| 0 <= j < self.sigma().len() ==> self.sigma()[j].name != name@,
    {
        self.find_sigma_rule(name)
    }
}

/// Reading back a stored indicator: after it is stored, a lookup of its
/// kind and value finds it, and a lookup of any other key finds what it
/// found before.
pub proof fn lemma_ioc_put_then_get(s: Seq<IoCModel>, m: IoCModel, t: IoCType, v: Seq<char>)
    requires
        iocs_unique(s),
    ensures
        ioc_pos(ioc_put(s, m), m.ioc_type, m.value) matches Some(i) && ioc_put(s, m)[i] == m,
        !(t == m.ioc_type && v == m.value) ==> (match ioc_pos(s, t, v) {
            Some(i) => ioc_pos(ioc_put(s, m), t, v) matches Some(k) && ioc_put(s, m)[k] == s[i],
            None => ioc_pos(ioc_put(s, m), t, v) is None,
        }),
{
    let p = ioc_put(s, m);
    match ioc_pos(s, m.ioc_type, m.value) {
        Some(i) => {
            assert(p[i] == m);
            let w = choose|w: int| 0 <= w < p.len() && p[w].ioc_type == m.ioc_type && p[w].value == m.value;
            if w != i {
                assert(p[w] == s[w]);
                assert(s[i].ioc_type == m.ioc_type && s[i].value == m.value);
            }
            if !(t == m.ioc_type && v == m.value) {
                match ioc_pos(s, t, v) {
                    Some(q) => {
                        assert(q != i);
                        assert(p[q] == s[q]);
                        let k = choose|k: int| 0 <= k < p.len() && p[k].ioc_type == t && p[k].value == v;
                        if k != q {
                            assert(k != i);
                            assert(p[k] == s[k]);
                        }
                    },
                    None => {
                        if exists|k: int| 0 <= k < p.len() && p[k].ioc_type == t && p[k].value == v {
                            let k = choose|k: int| 0 <= k < p.len() && p[k].ioc_type == t && p[k].value == v;
                            assert(k != i);
                            assert(p[k] == s[k]);
                        }
                    },
                }
            }
        },
        None => {
            assert(p[s.len() as int] == m);
            let w = choose|w: int| 0 <= w < p.len() && p[w].ioc_type == m.ioc_type && p[w].value == m.value;
            if w < s.len() {
                assert(p[w] == s[w]);
            }
            if !(t == m.ioc_type && v == m.value) {
                match ioc_pos(s, t, v) {
                    Some(q) => {
                        assert(p[q] == s[q]);
                        let k = choose|k: int| 0 <= k < p.len() && p[k].ioc_type == t && p[k].value == v;
                        if k != q && k < s.len() {
                            assert(p[k] == s[k]);
                        }
                    },
                    None => {
                        if exists|k: int| 0 <= k < p.len() && p[k].ioc_type == t && p[k].value == v {
                            let k = choose|k: int| 0 <= k < p.len() && p[k].ioc_type == t && p[k].value == v;
                            if k < s.len() {
                                assert(p[k] == s[k]);
                            }
                        }
                    },
                }
            }
        },
    }
}

} // verus!
