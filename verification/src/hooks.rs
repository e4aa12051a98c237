use vstd::prelude::*;
use crate::clock::{new_id, now_micros};
use crate::evidence::{Evidence, EvidenceModel, EvidenceType, Severity as EvidenceSeverity};
use crate::symbols::{chars_eq, is_space, parse_hex, parse_hex_u64, pieces, space, split_lines, split_words, words};
use crate::text::{hex_text, is_prefix, owned, push_hex, push_str, seq_starts_with, str_eq, string_from_chars};
use crate::threat::{strings_view, Severity, ThreatCategory, ThreatEvent, ThreatEventModel, ThreatEvidence, ThreatEvidenceModel};
use crate::value::{store, DataMap, Value, ValueModel};

verus! {

/// Where in the kernel a hook was found.
#[derive(Debug, Clone, Copy, PartialEq, Eq, Structural)]
pub enum HookType {
    SyscallTable,
    Ftrace,
    Kprobe,
}

impl HookType {
    /// The variant's name as written in the source.
    pub open spec fn variant_name(self) -> Seq<char> {
        match self {
            HookType::SyscallTable => "SyscallTable"@,
            HookType::Ftrace => "Ftrace"@,
            HookType::Kprobe => "Kprobe"@,
        }
    }

    /// The variant's name in lower case.
    pub open spec fn lower_name(self) -> Seq<char> {
        match self {
            HookType::SyscallTable => "syscalltable"@,
            HookType::Ftrace => "ftrace"@,
            HookType::Kprobe => "kprobe"@,
        }
    }

    pub fn variant_str(&self) -> (s: &'static str)
        ensures
            s@ == self.variant_name(),
    {
        match self {
            HookType::SyscallTable => "SyscallTable",
            HookType::Ftrace => "Ftrace",
            HookType::Kprobe => "Kprobe",
        }
    }

    pub fn lower_str(&self) -> (s: &'static str)
        ensures
            s@ == self.lower_name(),
    {
        match self {
            HookType::SyscallTable => "syscalltable",
            HookType::Ftrace => "ftrace",
            HookType::Kprobe => "kprobe",
        }
    }
}

/// A hook found in the kernel.
#[derive(Debug)]
pub struct HookInfo {
    pub hook_type: HookType,
    pub address: u64,
    pub target_address: u64,
    pub symbol: Option<String>,
    pub module: Option<String>,
    pub is_inline: bool,
}

/// The mathematical content of a [`HookInfo`].
pub struct HookModel {
    pub hook_type: HookType,
    pub address: u64,
    pub target_address: u64,
    pub symbol: Option<Seq<char>>,
    pub module: Option<Seq<char>>,
    pub is_inline: bool,
}

impl View for HookInfo {
    type V = HookModel;

    open spec fn view(&self) -> HookModel {
        HookModel {
            hook_type: self.hook_type,
            address: self.address,
            target_address: self.target_address,
            symbol: match self.symbol {
                Some(s) => Some(s@),
                None => None,
            },
            module: match self.module {
                Some(s) => Some(s@),
                None => None,
            },
            is_inline: self.is_inline,
        }
    }
}

/// The views of hooks.
pub open spec fn hooks_view(v: Seq<HookInfo>) -> Seq<HookModel> {
    Seq::new(v.len(), |i: int| v[i]@)
}

impl HookInfo {
    pub fn duplicate(&self) -> (r: HookInfo)
        ensures
            r@ == self@,
    {
        HookInfo {
            hook_type: self.hook_type,
            address: self.address,
            target_address: self.target_address,
            symbol: match &self.symbol {
                Some(s) => Some(s.clone()),
                None => None,
            },
            module: match &self.module {
                Some(s) => Some(s.clone()),
                None => None,
            },
            is_inline: self.is_inline,
        }
    }
}

/// A hook of one kind on a named symbol, at an address.
pub open spec fn plain_hook(t: HookType, address: u64, symbol: Seq<char>) -> HookModel {
    HookModel { hook_type: t, address, target_address: 0, symbol: Some(symbol), module: None, is_inline: false }
}

fn make_hook(t: HookType, address: u64, symbol: String) -> (h: HookInfo)
    ensures
        h@ == plain_hook(t, address, symbol@),
{
    HookInfo { hook_type: t, address, target_address: 0, symbol: Some(symbol), module: None, is_inline: false }
}

/// The syscall entry a line of `/proc/kallsyms` names: a global text
/// symbol (`T`) named `__x64_sys_...` or `sys_...` at a nonzero address.
pub open spec fn syscall_hook_of_line(line: Seq<char>) -> Option<HookModel> {
    let w = words(line);
    if w.len() >= 3 && w[1] == "T"@ && (is_prefix("__x64_sys_"@, w[2]) || is_prefix("sys_"@, w[2])) {
        let address = match parse_hex(w[0]) { Some(a) => a, None => 0 };
        if address != 0 {
            Some(plain_hook(HookType::SyscallTable, address, w[2]))
        } else {
            None
        }
    } else {
        None
    }
}

/// The syscall entries the first `n` lines name, in order.
pub open spec fn syscall_hooks(lines: Seq<Seq<char>>, n: int) -> Seq<HookModel>
    decreases n,
{
    if n <= 0 {
        Seq::empty()
    } else {
        match syscall_hook_of_line(lines[n - 1]) {
            Some(h) => syscall_hooks(lines, n - 1).push(h),
            None => syscall_hooks(lines, n - 1),
        }
    }
}

/// The syscall entries that the text of `/proc/kallsyms` lists, in order.
pub fn syscall_hooks_from_kallsyms(content: &str) -> (r: Vec<HookInfo>)
    ensures
        hooks_view(r@) == syscall_hooks(pieces(content@), pieces(content@).len() as int),
{
    let lines = split_lines(content);
    let ghost ls = pieces(content@);
    let mut r: Vec<HookInfo> = Vec::new();
    let mut i: usize = 0;
    while i < lines.len()
        invariant
            i <= lines@.len() == ls.len(),
            forall|k: int| 0 <= k < lines@.len() ==> lines@[k]@ == ls[k],
            hooks_view(r@) == syscall_hooks(ls, i as int),
        decreases lines.len() - i,
    {
        let w = split_words(&lines[i]);
        let ghost ws = words(ls[i as int]);
        if w.len() >= 3 && chars_eq(&w[1], "T") && (seq_starts_with(&w[2], "__x64_sys_") || seq_starts_with(&w[2], "sys_")) {
            let address = match parse_hex_u64(&w[0]) {
                Some(a) => a,
                None => 0,
            };
            if address != 0 {
                let ghost before = r@;
                let h = make_hook(HookType::SyscallTable, address, string_from_chars(&w[2]));
                r.push(h);
                assert(hooks_view(r@) =~= hooks_view(before).push(plain_hook(HookType::SyscallTable, address, ws[2])));
            }
        }
        i += 1;
    }
    r
}

/// The text without leading white space.
pub open spec fn trim_front(s: Seq<char>) -> Seq<char>
    decreases s.len(),
{
    if s.len() > 0 && is_space(s[0]) { trim_front(s.drop_first()) } else { s }
}

/// The text without trailing white space.
pub open spec fn trim_back(s: Seq<char>) -> Seq<char>
    decreases s.len(),
{
    if s.len() > 0 && is_space(s.last()) { trim_back(s.drop_last()) } else { s }
}

/// The text without white space at either end (as `str::trim` gives it).
pub open spec fn trimmed(s: Seq<char>) -> Seq<char> {
    trim_back(trim_front(s))
}

/// The characters without white space at either end.
pub(crate) fn trim_chars(s: &Vec<char>) -> (r: Vec<char>)
    ensures
        r@ == trimmed(s@),
{
    let n = s.len();
    let mut i: usize = 0;
    assert(s@.subrange(0, n as int) =~= s@);
    while i < n && space(s[i])
        invariant
            i <= n == s@.len(),
            trim_front(s@) == trim_front(s@.subrange(i as int, n as int)),
        decreases n - i,
    {
        assert(s@.subrange(i as int, n as int).drop_first() =~= s@.subrange(i + 1, n as int));
        i += 1;
    }
    let ghost front = s@.subrange(i as int, n as int);
    assert(trim_front(s@) == front);
    let mut j: usize = n;
    assert(front.subrange(0, (j - i) as int) =~= front);
    while j > i && space(s[j - 1])
        invariant
            i <= j <= n == s@.len(),
            front == s@.subrange(i as int, n as int),
            trim_back(front) == trim_back(s@.subrange(i as int, j as int)),
        decreases j - i,
    {
        assert(s@.subrange(i as int, j as int).drop_last() =~= s@.subrange(i as int, j - 1));
        j -= 1;
    }
    let mut r: Vec<char> = Vec::new();
    let mut k: usize = i;
    while k < j
        invariant
            i <= k <= j <= n == s@.len(),
            r@ == s@.subrange(i as int, k as int),
        decreases j - k,
    {
        r.push(s[k]);
        assert(s@.subrange(i as int, k as int).push(s@[k as int]) =~= s@.subrange(i as int, k + 1));
        k += 1;
    }
    r
}

/// The ftrace-filtered functions that the first `n` lines of a
/// `set_ftrace_filter` file list: each line, trimmed, that is not blank.
pub open spec fn ftrace_hooks(lines: Seq<Seq<char>>, n: int) -> Seq<HookModel>
    decreases n,
{
    if n <= 0 {
        Seq::empty()
    } else if trimmed(lines[n - 1]).len() > 0 {
        ftrace_hooks(lines, n - 1).push(plain_hook(HookType::Ftrace, 0, trimmed(lines[n - 1])))
    } else {
        ftrace_hooks(lines, n - 1)
    }
}

/// The ftrace hooks that the text of a `set_ftrace_filter` file lists.
pub fn ftrace_hooks_from_filter(content: &str) -> (r: Vec<HookInfo>)
    ensures
        hooks_view(r@) == ftrace_hooks(pieces(content@), pieces(content@).len() as int),
{
    let lines = split_lines(content);
    let ghost ls = pieces(content@);
    let mut r: Vec<HookInfo> = Vec::new();
    let mut i: usize = 0;
    while i < lines.len()
        invariant
            i <= lines@.len() == ls.len(),
            forall|k: int| 0 <= k < lines@.len() ==> lines@[k]@ == ls[k],
            hooks_view(r@) == ftrace_hooks(ls, i as int),
        decreases lines.len() - i,
    {
        let t = trim_chars(&lines[i]);
        if t.len() > 0 {
            let ghost before = r@;
            r.push(make_hook(HookType::Ftrace, 0, string_from_chars(&t)));
            assert(hooks_view(r@) =~= hooks_view(before).push(plain_hook(HookType::Ftrace, 0, trimmed(ls[i as int]))));
        }
        i += 1;
    }
    r
}

/// The kprobe events named by the entries of the kprobes event
/// directory, skipping `.` and `..`.
pub open spec fn kprobe_hooks(names: Seq<Seq<char>>) -> Seq<HookModel>
    decreases names.len(),
{
    if names.len() == 0 {
        Seq::empty()
    } else if names.last() != "."@ && names.last() != ".."@ {
        kprobe_hooks(names.drop_last()).push(plain_hook(HookType::Kprobe, 0, names.last()))
    } else {
        kprobe_hooks(names.drop_last())
    }
}

/// The kprobe hooks named by the entries of the kprobes event directory.
pub fn kprobe_hooks_from_entries(names: &Vec<String>) -> (r: Vec<HookInfo>)
    ensures
        hooks_view(r@) == kprobe_hooks(strings_view(names@)),
{
    let ghost ns = strings_view(names@);
    let mut r: Vec<HookInfo> = Vec::new();
    let mut i: usize = 0;
    while i < names.len()
        invariant
            i <= names@.len(),
            ns == strings_view(names@),
            hooks_view(r@) == kprobe_hooks(ns.take(i as int)),
        decreases names.len() - i,
    {
        assert(ns.take(i + 1).drop_last() =~= ns.take(i as int));
        assert(ns.take(i + 1).last() == names@[i as int]@);
        if !str_eq(names[i].as_str(), ".") && !str_eq(names[i].as_str(), "..") {
            let ghost before = r@;
            r.push(make_hook(HookType::Kprobe, 0, names[i].clone()));
            assert(hooks_view(r@) =~= hooks_view(before).push(plain_hook(HookType::Kprobe, 0, names@[i as int]@)));
        }
        i += 1;
    }
    assert(ns.take(names.len() as int) =~= ns);
    r
}

/// The key that tells hooks apart: the symbol (empty when none) and the
/// address.
pub open spec fn hook_key(h: HookModel) -> (Seq<char>, u64) {
    (match h.symbol { Some(s) => s, None => Seq::empty() }, h.address)
}

/// Whether some hook of `b` has key `k`.
pub open spec fn has_key(b: Seq<HookModel>, k: (Seq<char>, u64)) -> bool {
    exists|j: int| 0 <= j < b.len() && hook_key(b[j]) == k
}

/// Whether the hook at position `i` of `a` is the last one with its key.
pub open spec fn last_of_key(a: Seq<HookModel>, i: int) -> bool {
    forall|j: int| i < j < a.len() ==> hook_key(a[j]) != hook_key(a[i])
}

/// The hooks of `a` (the last one of each key, among the first `n`) whose
/// key `b` lacks, in order.
pub open spec fn new_hooks(a: Seq<HookModel>, b: Seq<HookModel>, n: int) -> Seq<HookModel>
    decreases n,
{
    if n <= 0 {
        Seq::empty()
    } else if !has_key(b, hook_key(a[n - 1])) && last_of_key(a, n - 1) {
        new_hooks(a, b, n - 1).push(a[n - 1])
    } else {
        new_hooks(a, b, n - 1)
    }
}

fn key_symbol(h: &HookInfo) -> (s: &str)
    ensures
        s@ == hook_key(h@).0,
{
    match &h.symbol {
        Some(s) => s.as_str(),
        None => {
            proof {
                reveal_strlit("");
            }
            ""
        },
    }
}

fn same_key(x: &HookInfo, y: &HookInfo) -> (b: bool)
    ensures
        b == (hook_key(x@) == hook_key(y@)),
{
    x.address == y.address && str_eq(key_symbol(x), key_symbol(y))
}

/// The hooks of `a` whose key `b` lacks, one per key (the last one of
/// `a` with it), in order.
pub fn hooks_differ(a: &Vec<HookInfo>, b: &Vec<HookInfo>) -> (r: Vec<HookInfo>)
    ensures
        hooks_view(r@) == new_hooks(hooks_view(a@), hooks_view(b@), a@.len() as int),
{
    let ghost av = hooks_view(a@);
    let ghost bv = hooks_view(b@);
    let mut r: Vec<HookInfo> = Vec::new();
    let mut i: usize = 0;
    while i < a.len()
        invariant
            i <= a@.len(),
            av == hooks_view(a@),
            bv == hooks_view(b@),
            hooks_view(r@) == new_hooks(av, bv, i as int),
        decreases a.len() - i,
    {
        let mut later = false;
        let mut j: usize = i + 1;
        while j < a.len()
            invariant
                i < j <= a@.len(),
                i < a@.len(),
                av == hooks_view(a@),
                !later ==> forall|q: int| i < q < j ==> hook_key(av[q]) != hook_key(av[i as int]),
                later ==> !last_of_key(av, i as int),
            decreases a.len() - j,
        {
            if same_key(&a[j], &a[i]) {
                assert(av[j as int] == a@[j as int]@ && av[i as int] == a@[i as int]@);
                later = true;
            }
            j += 1;
        }
        let mut seen = false;
        let mut k: usize = 0;
        while k < b.len()
            invariant
                k <= b@.len(),
                i < a@.len(),
                av == hooks_view(a@),
                bv == hooks_view(b@),
                !seen ==> forall|q: int| 0 <= q < k ==> hook_key(bv[q]) != hook_key(av[i as int]),
                seen ==> has_key(bv, hook_key(av[i as int])),
            decreases b.len() - k,
        {
            if same_key(&b[k], &a[i]) {
                assert(bv[k as int] == b@[k as int]@ && av[i as int] == a@[i as int]@);
                seen = true;
            }
            k += 1;
        }
        proof {
            if !later {
                assert forall|q: int| i < q < av.len() implies hook_key(av[q]) != hook_key(av[i as int]) by {}
                assert(last_of_key(av, i as int));
            }
            if !seen {
                if has_key(bv, hook_key(av[i as int])) {
                    let q = choose|q: int| 0 <= q < bv.len() && hook_key(bv[q]) == hook_key(av[i as int]);
                    assert(hook_key(bv[q]) != hook_key(av[i as int]));
                }
            }
        }
        if !later && !seen {
            let ghost before = r@;
            r.push(a[i].duplicate());
            assert(hooks_view(r@) =~= hooks_view(before).push(av[i as int]));
        }
        i += 1;
    }
    r
}

/// The data recorded for a new hook: its kind and address, and its symbol
/// when it has one.
pub open spec fn hook_data(h: HookModel) -> Seq<(Seq<char>, ValueModel)> {
    let m = store(store(Seq::empty(), "hook_type"@, ValueModel::Text(h.hook_type.variant_name())),
        "address"@, ValueModel::Text("0x"@ + hex_text(h.address as nat)));
    match h.symbol {
        Some(s) => store(m, "symbol"@, ValueModel::Text(s)),
        None => m,
    }
}

/// The threat reported for a new hook, with the given id and time.
pub open spec fn hook_threat(h: HookModel, id: u128, timestamp: i64) -> ThreatEventModel {
    ThreatEventModel {
        id,
        timestamp,
        severity: Severity::Critical,
        category: ThreatCategory::HookDetected,
        title: "New "@ + h.hook_type.variant_name() + " hook detected"@,
        description: "A new "@ + h.hook_type.variant_name() + " hook was detected at address 0x"@
            + hex_text(h.address as nat) + " since last baseline"@,
        evidence: seq![ThreatEvidenceModel {
            description: "Detected new "@ + h.hook_type.variant_name(),
            data: hook_data(h),
            confidence: 850_000,
        }],
        mitre_attack: seq!["T1014"@],
        source_detector: "hook_detection"@,
        process: None,
        tags: seq!["hook"@, h.hook_type.lower_name()],
    }
}

/// The evidence recorded for a new hook, with the given id and time.
pub open spec fn hook_evidence(h: HookModel, id: u128, timestamp: i64) -> EvidenceModel {
    EvidenceModel {
        id,
        timestamp,
        evidence_type: EvidenceType::KernelIntegrity,
        severity: EvidenceSeverity::Critical,
        source: "hook_detection"@,
        description: "New "@ + h.hook_type.variant_name() + " hook detected at 0x"@ + hex_text(h.address as nat),
        data: store(store(Seq::empty(), "hook_type"@, ValueModel::Text(h.hook_type.variant_name())),
            "address"@, ValueModel::Text("0x"@ + hex_text(h.address as nat))),
        tags: seq!["hook"@, h.hook_type.lower_name()],
        confidence: 850_000,
        related_evidence: Seq::empty(),
    }
}

fn address_text(address: u64) -> (s: String)
    ensures
        s@ == "0x"@ + hex_text(address as nat),
{
    let mut s = owned("0x");
    push_hex(&mut s, address);
    s
}

fn threat_of_hook(h: &HookInfo) -> (t: ThreatEvent)
    ensures
        t@ == hook_threat(h@, t.id, t.timestamp),
{
    let name = h.hook_type.variant_str();
    let mut data = DataMap::new();
    data.insert(owned("hook_type"), Value::String(owned(name)));
    data.insert(owned("address"), Value::String(address_text(h.address)));
    match &h.symbol {
        Some(s) => {
            data.insert(owned("symbol"), Value::String(s.clone()));
        },
        None => {},
    }
    let mut title = owned("New ");
    push_str(&mut title, name);
    push_str(&mut title, " hook detected");
    let mut description = owned("A new ");
    push_str(&mut description, name);
    push_str(&mut description, " hook was detected at address 0x");
    push_hex(&mut description, h.address);
    push_str(&mut description, " since last baseline");
    let mut ev_description = owned("Detected new ");
    push_str(&mut ev_description, name);
    let mut mitre: Vec<String> = Vec::new();
    mitre.push(owned("T1014"));
    let mut tags: Vec<String> = Vec::new();
    tags.push(owned("hook"));
    tags.push(owned(h.hook_type.lower_str()));
    let t = ThreatEvent {
        id: new_id(),
        timestamp: now_micros(),
        severity: Severity::Critical,
        category: ThreatCategory::HookDetected,
        title,
        description,
        evidence: vec![ThreatEvidence { description: ev_description, data, confidence: 850_000 }],
        mitre_attack: mitre,
        source_detector: owned("hook_detection"),
        process: None,
        tags,
    };
    assert(t@.evidence =~= seq![ThreatEvidenceModel {
        description: "Detected new "@ + h@.hook_type.variant_name(),
        data: hook_data(h@),
        confidence: 850_000,
    }]);
    assert(t@.mitre_attack =~= seq!["T1014"@]);
    assert(t@.tags =~= seq!["hook"@, h@.hook_type.lower_name()]);
    t
}

fn evidence_of_hook(h: &HookInfo) -> (e: Evidence)
    ensures
        e@ == hook_evidence(h@, e.id, e.timestamp),
{
    let name = h.hook_type.variant_str();
    let mut title = owned("New ");
    push_str(&mut title, name);
    push_str(&mut title, " hook detected at 0x");
    push_hex(&mut title, h.address);
    let e = Evidence::new(EvidenceType::KernelIntegrity, EvidenceSeverity::Critical, owned("hook_detection"), title);
    assert(e@.data =~= Seq::<(Seq<char>, ValueModel)>::empty());
    assert(e@.tags =~= Seq::<Seq<char>>::empty());
    assert(e@.related_evidence =~= Seq::<u128>::empty());
    let e = e.with_data(owned("hook_type"), Value::String(owned(name)))
        .with_data(owned("address"), Value::String(address_text(h.address)))
        .with_confidence(850_000)
        .with_tag(owned("hook"))
        .with_tag(owned(h.hook_type.lower_str()));
    assert(e@.tags =~= seq!["hook"@, h@.hook_type.lower_name()]);
    e
}

/// Detects kernel hooks that appeared since the previous look.
pub struct HookDetector {
    baseline: Option<Vec<HookInfo>>,
}

impl HookDetector {
    /// The hooks seen at the previous look, none before the first.
    pub closed spec fn previous(&self) -> Option<Seq<HookModel>> {
        match self.baseline {
            Some(v) => Some(hooks_view(v@)),
            None => None,
        }
    }

    /// A detector that has not looked yet.
    pub fn new() -> (d: HookDetector)
        ensures
            d.previous() is None,
    {
        HookDetector { baseline: None }
    }

    /// Takes the hooks found now as the new baseline and returns the new
    /// ones: none at the first look.
    fn advance(&mut self, current: Vec<HookInfo>) -> (fresh: Vec<HookInfo>)
        ensures
            final(self).previous() == Some(hooks_view(current@)),
            old(self).previous() is None ==> fresh@.len() == 0,
            old(self).previous() matches Some(p) ==> hooks_view(fresh@) == new_hooks(hooks_view(current@), p, current@.len() as int),
    {
        let mut previous: Option<Vec<HookInfo>> = None;
        std::mem::swap(&mut previous, &mut self.baseline);
        let fresh = match &previous {
            Some(prev) => hooks_differ(&current, prev),
            None => Vec::new(),
        };
        self.baseline = Some(current);
        fresh
    }

    /// The threats of a look at the kernel, given the hooks found now
    /// (syscall entries, ftrace filters and kprobes): one per hook whose
    /// key was not seen at the previous look; none at the first look.  The
    /// hooks found become the baseline.
    pub fn detect(&mut self, current: Vec<HookInfo>) -> (r: Vec<ThreatEvent>)
        ensures
            final(self).previous() == Some(hooks_view(current@)),
            old(self).previous() is None ==> r@.len() == 0,
            old(self).previous() matches Some(p) ==> {
                let fresh = new_hooks(hooks_view(current@), p, current@.len() as int);
                &&& r@.len() == fresh.len()
                &&& forall|k: int| 0 <= k < r@.len() ==> (#[trigger] r@[k])@ == hook_threat(fresh[k], r@[k].id, r@[k].timestamp)
            },
    {
        let fresh = self.advance(current);
        let mut r: Vec<ThreatEvent> = Vec::new();
        let mut i: usize = 0;
        while i < fresh.len()
            invariant
                i <= fresh@.len(),
                r@.len() == i,
                forall|k: int| 0 <= k < i ==> (#[trigger] r@[k])@ == hook_threat(fresh@[k]@, r@[k].id, r@[k].timestamp),
            decreases fresh.len() - i,
        {
            r.push(threat_of_hook(&fresh[i]));
            i += 1;
        }
        proof {
            if old(self).previous() is Some {
                assert forall|k: int| 0 <= k < r@.len() implies (#[trigger] r@[k])@
                    == hook_threat(hooks_view(fresh@)[k], r@[k].id, r@[k].timestamp) by {}
            }
        }
        r
    }

    /// The evidence of a look at the kernel, given the hooks found now:
    /// one item per hook whose key was not seen at the previous look; none
    /// at the first look.  The hooks found become the baseline.
    pub fn collect_evidence(&mut self, current: Vec<HookInfo>) -> (r: Vec<Evidence>)
        ensures
            final(self).previous() == Some(hooks_view(current@)),
            old(self).previous() is None ==> r@.len() == 0,
            old(self).previous() matches Some(p) ==> {
                let fresh = new_hooks(hooks_view(current@), p, current@.len() as int);
                &&& r@.len() == fresh.len()
                &&& forall|k: int| 0 <= k < r@.len() ==> (#[trigger] r@[k])@ == hook_evidence(fresh[k], r@[k].id, r@[k].timestamp)
            },
    {
        let fresh = self.advance(current);
        let mut r: Vec<Evidence> = Vec::new();
        let mut i: usize = 0;
        while i < fresh.len()
            invariant
                i <= fresh@.len(),
                r@.len() == i,
                forall|k: int| 0 <= k < i ==> (#[trigger] r@[k])@ == hook_evidence(fresh@[k]@, r@[k].id, r@[k].timestamp),
            decreases fresh.len() - i,
        {
            r.push(evidence_of_hook(&fresh[i]));
            i += 1;
        }
        proof {
            if old(self).previous() is Some {
                assert forall|k: int| 0 <= k < r@.len() implies (#[trigger] r@[k])@
                    == hook_evidence(hooks_view(fresh@)[k], r@[k].id, r@[k].timestamp) by {}
            }
        }
        r
    }

    pub fn name(&self) -> (s: &'static str)
        ensures
            s@ == "hook_detection"@,
    {
        "hook_detection"
    }

    pub fn description(&self) -> (s: &'static str)
        ensures
            s@ == "Detects syscall table hooks, inline hooks, ftrace hooks, and kprobe abuse"@,
    {
        "Detects syscall table hooks, inline hooks, ftrace hooks, and kprobe abuse"
    }

    pub fn category(&self) -> (c: ThreatCategory)
        ensures
            c == ThreatCategory::HookDetected,
    {
        ThreatCategory::HookDetected
    }

    pub fn severity(&self) -> (s: Severity)
        ensures
            s == Severity::Critical,
    {
        Severity::Critical
    }

    pub fn get_evidence_type(&self) -> (t: EvidenceType)
        ensures
            t == EvidenceType::KernelIntegrity,
    {
        EvidenceType::KernelIntegrity
    }

    pub fn get_source(&self) -> (s: String)
        ensures
            s@ == "hook_detection"@,
    {
        owned("hook_detection")
    }
}

/// A look that finds the same hooks as the previous one reports nothing
/// new.
pub proof fn lemma_same_hooks_nothing_new(a: Seq<HookModel>, n: int)
    requires
        0 <= n <= a.len(),
    ensures
        new_hooks(a, a, n).len() == 0,
    decreases n,
{
    if n > 0 {
        lemma_same_hooks_nothing_new(a, n - 1);
        assert(hook_key(a[n - 1]) == hook_key(a[n - 1]));
        assert(has_key(a, hook_key(a[n - 1])));
    }
}

} // verus!
