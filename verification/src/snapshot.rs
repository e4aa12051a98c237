use vstd::prelude::*;
use crate::text::{chars_of, string_from_chars, decimal, owned, push_decimal, push_str, str_eq};
use crate::threat::{strings_view, ThreatEvent};
use crate::hooks::HookInfo;
use crate::grouping::{join, key_counts, counts, counts_view, stable_sort, seq_key, ints, stable_sort_by_key, lemma_join_push, members_prefix, key_members, distinct_keys};
use crate::correlation::range;
use crate::forensics::{key_pos, pairs_view, ProcessStatus, KernelModuleInfo, NetworkConnection, ConnectionModel, StatusFields, StatusModel, decode_capabilities, capability_names, CAPABILITY_COUNT, status_of_char, process_status, hex64_or_zero, suspicious_path, suspicious_module_name, is_suspicious_path, is_suspicious_module, opt_text};
use crate::symbols::{parse_hex_u64, words, split_words};
use crate::hooks::{trimmed, trim_chars};

verus! {

/// Whether text `a` sorts strictly before text `b`: character codes
/// compared in order, a proper prefix first (the order of `String`'s
/// `Ord`, which compares UTF-8 bytes and so code points).
pub open spec fn lex_lt(a: Seq<char>, b: Seq<char>) -> bool
    decreases a.len(),
{
    if b.len() == 0 {
        false
    } else if a.len() == 0 {
        true
    } else if (a[0] as u32) < (b[0] as u32) {
        true
    } else if a[0] == b[0] {
        lex_lt(a.drop_first(), b.drop_first())
    } else {
        false
    }
}

proof fn lemma_char_order(x: char, y: char)
    ensures
        x != y ==> (x as u32) != (y as u32),
{
    if x != y && (x as u32) == (y as u32) {
        vstd::utf8::char_u32_cast(x, x as u32);
        vstd::utf8::char_u32_cast(y, y as u32);
    }
}

/// No text sorts before itself.
pub proof fn lemma_lex_irreflexive(a: Seq<char>)
    ensures
        !lex_lt(a, a),
    decreases a.len(),
{
    if a.len() > 0 {
        lemma_lex_irreflexive(a.drop_first());
    }
}

/// Of two different texts, exactly one sorts before the other.
pub proof fn lemma_lex_total(a: Seq<char>, b: Seq<char>)
    ensures
        a != b ==> (lex_lt(a, b) || lex_lt(b, a)),
        !(lex_lt(a, b) && lex_lt(b, a)),
    decreases a.len(),
{
    if a.len() > 0 && b.len() > 0 {
        lemma_char_order(a[0], b[0]);
        lemma_lex_total(a.drop_first(), b.drop_first());
        if a[0] == b[0] && a.drop_first() == b.drop_first() {
            assert(a =~= seq![a[0]] + a.drop_first());
            assert(b =~= seq![b[0]] + b.drop_first());
        }
    } else if a.len() == 0 && b.len() == 0 {
        assert(a =~= b);
    }
}

/// The order is transitive.
pub proof fn lemma_lex_transitive(a: Seq<char>, b: Seq<char>, c: Seq<char>)
    requires
        lex_lt(a, b),
        lex_lt(b, c),
    ensures
        lex_lt(a, c),
    decreases a.len(),
{
    if a.len() > 0 && b.len() > 0 && c.len() > 0 && a[0] == b[0] && b[0] == c[0] {
        lemma_lex_transitive(a.drop_first(), b.drop_first(), c.drop_first());
    }
}

proof fn lemma_lex_skip(a: Seq<char>, b: Seq<char>, i: int)
    requires
        0 <= i < a.len(),
        i < b.len(),
        a[i] == b[i],
    ensures
        lex_lt(a.skip(i), b.skip(i)) == lex_lt(a.skip(i + 1), b.skip(i + 1)),
{
    assert(a.skip(i).drop_first() =~= a.skip(i + 1));
    assert(b.skip(i).drop_first() =~= b.skip(i + 1));
}

/// Whether text `a` sorts strictly before text `b`.
pub fn text_lt(a: &Vec<char>, b: &Vec<char>) -> (r: bool)
    ensures
        r == lex_lt(a@, b@),
{
    let mut i: usize = 0;
    assert(a@.skip(0) =~= a@);
    assert(b@.skip(0) =~= b@);
    while i < a.len() && i < b.len()
        invariant
            i <= a@.len(),
            i <= b@.len(),
            lex_lt(a@, b@) == lex_lt(a@.skip(i as int), b@.skip(i as int)),
        decreases a.len() - i,
    {
        if (a[i] as u32) < (b[i] as u32) {
            return true;
        }
        if a[i] != b[i] {
            proof {
                lemma_char_order(a@[i as int], b@[i as int]);
            }
            return false;
        }
        proof {
            lemma_lex_skip(a@, b@, i as int);
        }
        i += 1;
    }
    i < b.len()
}

/// Whether two texts are the same.
pub fn text_eq(a: &Vec<char>, b: &Vec<char>) -> (r: bool)
    ensures
        r == (a@ == b@),
{
    if a.len() != b.len() {
        return false;
    }
    let mut i: usize = 0;
    while i < a.len()
        invariant
            a@.len() == b@.len(),
            i <= a@.len(),
            forall|q: int| 0 <= q < i ==> a@[q] == b@[q],
        decreases a.len() - i,
    {
        if a[i] != b[i] {
            return false;
        }
        i += 1;
    }
    assert(a@ =~= b@);
    true
}

/// Whether the texts are in strictly increasing order.
pub open spec fn strictly_sorted(s: Seq<Seq<char>>) -> bool {
    forall|i: int, j: int| 0 <= i < j < s.len() ==> lex_lt(#[trigger] s[i], #[trigger] s[j])
}

proof fn lemma_sorted_first_is_least(a: Seq<Seq<char>>, t: Seq<char>)
    requires
        strictly_sorted(a),
        a.len() > 0,
        a.contains(t),
        t != a[0],
    ensures
        lex_lt(a[0], t),
{
    let w = choose|w: int| 0 <= w < a.len() && a[w] == t;
    assert(w != 0);
    assert(lex_lt(a[0], a[w]));
}

/// Two strictly increasing sequences of texts that hold the same texts
/// are the same sequence: a sorted, duplicate-free list is fixed by its
/// set of texts.
pub proof fn lemma_sorted_unique_determined(a: Seq<Seq<char>>, b: Seq<Seq<char>>)
    requires
        strictly_sorted(a),
        strictly_sorted(b),
        forall|t: Seq<char>| a.contains(t) <==> b.contains(t),
    ensures
        a == b,
    decreases a.len() + b.len(),
{
    if a.len() == 0 {
        if b.len() > 0 {
            assert(b.contains(b[0]));
        }
        assert(a =~= b);
    } else if b.len() == 0 {
        assert(a.contains(a[0]));
    } else {
        assert(a.contains(a[0]));
        assert(b.contains(b[0]));
        if a[0] != b[0] {
            lemma_sorted_first_is_least(a, b[0]);
            lemma_sorted_first_is_least(b, a[0]);
            lemma_lex_total(a[0], b[0]);
        }
        let a1 = a.drop_first();
        let b1 = b.drop_first();
        assert(strictly_sorted(a1)) by {
            assert forall|i: int, j: int| 0 <= i < j < a1.len() implies lex_lt(#[trigger] a1[i], #[trigger] a1[j]) by {
                assert(a1[i] == a[i + 1] && a1[j] == a[j + 1]);
            }
        }
        assert(strictly_sorted(b1)) by {
            assert forall|i: int, j: int| 0 <= i < j < b1.len() implies lex_lt(#[trigger] b1[i], #[trigger] b1[j]) by {
                assert(b1[i] == b[i + 1] && b1[j] == b[j + 1]);
            }
        }
        assert forall|t: Seq<char>| a1.contains(t) <==> b1.contains(t) by {
            if a1.contains(t) {
                let w = choose|w: int| 0 <= w < a1.len() && a1[w] == t;
                assert(a[w + 1] == t);
                assert(lex_lt(a[0], a[w + 1]));
                lemma_lex_irreflexive(a[0]);
                assert(a.contains(t));
                assert(b.contains(t));
                let u = choose|u: int| 0 <= u < b.len() && b[u] == t;
                assert(u != 0);
                assert(b1[u - 1] == t);
            }
            if b1.contains(t) {
                let w = choose|w: int| 0 <= w < b1.len() && b1[w] == t;
                assert(b[w + 1] == t);
                assert(lex_lt(b[0], b[w + 1]));
                lemma_lex_irreflexive(b[0]);
                assert(b.contains(t));
                assert(a.contains(t));
                let u = choose|u: int| 0 <= u < a.len() && a[u] == t;
                assert(u != 0);
                assert(a1[u - 1] == t);
            }
        }
        lemma_sorted_unique_determined(a1, b1);
        assert(a =~= seq![a[0]] + a1);
        assert(b =~= seq![b[0]] + b1);
    }
}

/// The texts, sorted and each kept once (`sort` then `dedup`): the
/// strictly increasing sequence of exactly the texts that occur in `v`.
pub fn sorted_unique(v: &Vec<String>) -> (r: Vec<String>)
    ensures
        strictly_sorted(strings_view(r@)),
        forall|t: Seq<char>| strings_view(r@).contains(t) <==> strings_view(v@).contains(t),
{
    let ghost vv = strings_view(v@);
    let mut r: Vec<String> = Vec::new();
    let mut rc: Vec<Vec<char>> = Vec::new();
    let mut k: usize = 0;
    while k < v.len()
        invariant
            k <= v.len(),
            vv == strings_view(v@),
            rc@.len() == r@.len(),
            forall|q: int| 0 <= q < r@.len() ==> (#[trigger] rc@[q])@ == r@[q]@,
            strictly_sorted(strings_view(r@)),
            forall|t: Seq<char>| strings_view(r@).contains(t) <==> vv.take(k as int).contains(t),
        decreases v.len() - k,
    {
        let c = chars_of(v[k].as_str());
        let ghost rv = strings_view(r@);
        let mut p: usize = 0;
        while p < rc.len() && text_lt(&rc[p], &c)
            invariant
                p <= rc@.len() == r@.len(),
                rv == strings_view(r@),
                forall|q: int| 0 <= q < r@.len() ==> (#[trigger] rc@[q])@ == r@[q]@,
                forall|q: int| 0 <= q < p ==> lex_lt(#[trigger] rv[q], c@),
            decreases rc.len() - p,
        {
            assert(rc@[p as int]@ == rv[p as int]);
            p += 1;
        }
        assert(vv.take(k + 1) =~= vv.take(k as int).push(c@));
        assert(vv[k as int] == c@);
        let dup = p < rc.len() && text_eq(&rc[p], &c);
        if dup {
            assert(rv[p as int] == c@);
            assert forall|t: Seq<char>| rv.contains(t) <==> vv.take(k + 1).contains(t) by {
                if t == c@ {
                    assert(rv[p as int] == t);
                }
                if vv.take(k + 1).contains(t) && t != c@ {
                    let w = choose|w: int| 0 <= w < vv.take(k + 1).len() && #[trigger] vv.take(k + 1)[w] == t;
                    assert(vv.take(k as int)[w] == t);
                }
            }
        } else {
            proof {
                if p < rc@.len() {
                    assert(rc@[p as int]@ == rv[p as int]);
                    assert(!lex_lt(rv[p as int], c@));
                    lemma_lex_total(rv[p as int], c@);
                    assert(lex_lt(c@, rv[p as int]));
                    assert forall|q: int| p <= q < rv.len() implies lex_lt(c@, #[trigger] rv[q]) by {
                        if q > p {
                            lemma_lex_transitive(c@, rv[p as int], rv[q]);
                        }
                    }
                }
            }
            let s = string_from_chars(&c);
            let ghost rc_before = rc@;
            let ghost r_before = r@;
            r.insert(p, s);
            rc.insert(p, c);
            proof {
                let nv = strings_view(r@);
                assert(nv =~= rv.insert(p as int, c@));
                assert forall|i: int, j: int| 0 <= i < j < nv.len() implies lex_lt(#[trigger] nv[i], #[trigger] nv[j]) by {
                    if j < p {
                        assert(nv[i] == rv[i] && nv[j] == rv[j]);
                    } else if j == p {
                        assert(nv[i] == rv[i]);
                    } else if i < p {
                        assert(nv[i] == rv[i] && nv[j] == rv[j - 1]);
                        lemma_lex_transitive(rv[i], c@, rv[j - 1]);
                    } else if i == p {
                        assert(nv[j] == rv[j - 1]);
                    } else {
                        assert(nv[i] == rv[i - 1] && nv[j] == rv[j - 1]);
                    }
                }
                assert forall|t: Seq<char>| nv.contains(t) <==> vv.take(k + 1).contains(t) by {
                    if nv.contains(t) {
                        let w = choose|w: int| 0 <= w < nv.len() && #[trigger] nv[w] == t;
                        if w == p {
                            assert(vv.take(k + 1)[k as int] == t);
                        } else {
                            if w < p {
                                assert(rv[w] == t);
                            } else {
                                assert(rv[w - 1] == t);
                            }
                            assert(rv.contains(t));
                            assert(vv.take(k as int).contains(t));
                            let x = choose|x: int| 0 <= x < vv.take(k as int).len() && #[trigger] vv.take(k as int)[x] == t;
                            assert(vv.take(k + 1)[x] == t);
                        }
                    }
                    if vv.take(k + 1).contains(t) {
                        if t == c@ {
                            assert(nv[p as int] == t);
                        } else {
                            let w = choose|w: int| 0 <= w < vv.take(k + 1).len() && #[trigger] vv.take(k + 1)[w] == t;
                            assert(vv.take(k as int)[w] == t);
                            assert(rv.contains(t));
                            let u = choose|u: int| 0 <= u < rv.len() && #[trigger] rv[u] == t;
                            if u < p {
                                assert(nv[u] == t);
                            } else {
                                assert(nv[u + 1] == t);
                            }
                        }
                    }
                }
                assert forall|q: int| 0 <= q < r@.len() implies (#[trigger] rc@[q])@ == r@[q]@ by {
                    if q < p {
                        assert(rc@[q] == rc_before[q] && r@[q] == r_before[q]);
                    } else if q > p {
                        assert(rc@[q] == rc_before[q - 1] && r@[q] == r_before[q - 1]);
                    }
                }
            }
        }
        k += 1;
    }
    assert(vv.take(v.len() as int) =~= vv);
    r
}

/// The namespaces of a process, by inode, where they could be read.
#[derive(Debug, Clone, Copy, PartialEq, Eq, Structural)]
pub struct NamespaceInfo {
    pub pid_ns: Option<u64>,
    pub net_ns: Option<u64>,
    pub mnt_ns: Option<u64>,
    pub user_ns: Option<u64>,
    pub uts_ns: Option<u64>,
    pub ipc_ns: Option<u64>,
}

/// A process of the host.
pub struct ProcessInfo {
    pub pid: u32,
    pub ppid: u32,
    pub name: String,
    pub binary_path: String,
    pub command_line: Vec<String>,
    pub user: String,
    pub uid: u32,
    pub gid: u32,
    pub start_time: i64,
    pub status: ProcessStatus,
    pub hash: Option<String>,
    pub namespace: NamespaceInfo,
    pub capabilities: Vec<String>,
    pub threads: u32,
    pub memory_usage_kb: u64,
}

/// The plain contents of a [`ProcessInfo`].
pub struct ProcessModel {
    pub pid: u32,
    pub ppid: u32,
    pub name: Seq<char>,
    pub binary_path: Seq<char>,
    pub command_line: Seq<Seq<char>>,
    pub user: Seq<char>,
    pub uid: u32,
    pub gid: u32,
    pub start_time: i64,
    pub status: ProcessStatus,
    pub hash: Option<Seq<char>>,
    pub namespace: NamespaceInfo,
    pub capabilities: Seq<Seq<char>>,
    pub threads: u32,
    pub memory_usage_kb: u64,
}

impl View for ProcessInfo {
    type V = ProcessModel;

    open spec fn view(&self) -> ProcessModel {
        ProcessModel {
            pid: self.pid,
            ppid: self.ppid,
            name: self.name@,
            binary_path: self.binary_path@,
            command_line: strings_view(self.command_line@),
            user: self.user@,
            uid: self.uid,
            gid: self.gid,
            start_time: self.start_time,
            status: self.status,
            hash: opt_text(self.hash),
            namespace: self.namespace,
            capabilities: strings_view(self.capabilities@),
            threads: self.threads,
            memory_usage_kb: self.memory_usage_kb,
        }
    }
}

/// The process record that the fields of its status text and what was
/// read beside it make: its run state from the state letter, its
/// capabilities from the effective mask (none where the mask cannot be
/// read), and no hash yet.
pub open spec fn process_of(
    pid: u32,
    f: StatusModel,
    start_time: i64,
    command_line: Seq<Seq<char>>,
    binary_path: Seq<char>,
    user: Seq<char>,
    namespace: NamespaceInfo,
) -> ProcessModel {
    ProcessModel {
        pid,
        ppid: f.ppid,
        name: f.name,
        binary_path,
        command_line,
        user,
        uid: f.uid,
        gid: f.gid,
        start_time,
        status: status_of_char(f.state),
        hash: None,
        namespace,
        capabilities: capability_names(hex64_or_zero(f.cap_hex), CAPABILITY_COUNT as nat),
        threads: f.threads,
        memory_usage_kb: f.vm_rss_kb,
    }
}

/// The process record of `pid`, from the fields of its status text, its
/// start time, its arguments, the target of its `exe` link, its user's
/// name and its namespaces.
pub fn assemble_process(
    pid: u32,
    fields: StatusFields,
    start_time: i64,
    command_line: Vec<String>,
    binary_path: String,
    user: String,
    namespace: NamespaceInfo,
) -> (p: ProcessInfo)
    ensures
        p@ == process_of(pid, fields@, start_time, strings_view(command_line@), binary_path@, user@, namespace),
{
    let cap_chars = chars_of(fields.cap_hex.as_str());
    let cap = match parse_hex_u64(&cap_chars) {
        Some(v) => v,
        None => 0,
    };
    let capabilities = decode_capabilities(cap);
    let status = process_status(fields.state);
    let p = ProcessInfo {
        pid,
        ppid: fields.ppid,
        name: fields.name,
        binary_path,
        command_line,
        user,
        uid: fields.uid,
        gid: fields.gid,
        start_time,
        status,
        hash: None,
        namespace,
        capabilities,
        threads: fields.threads,
        memory_usage_kb: fields.vm_rss_kb,
    };
    assert(strings_view(p.capabilities@) =~= capability_names(cap, CAPABILITY_COUNT as nat));
    p
}

/// What a forensic snapshot of the host holds: its id and time as text,
/// the host and kernel names, and the processes, modules, connections,
/// hooks, threats, memory hashes (path and hexadecimal digest), open
/// files and environment variables found.
pub struct ForensicSnapshot {
    pub id: String,
    pub timestamp: String,
    pub hostname: String,
    pub kernel_version: String,
    pub processes: Vec<ProcessInfo>,
    pub modules: Vec<KernelModuleInfo>,
    pub connections: Vec<NetworkConnection>,
    pub hooks: Vec<HookInfo>,
    pub threats: Vec<ThreatEvent>,
    pub memory_hashes: Vec<(String, String)>,
    pub open_files: Vec<String>,
    pub env_vars: Vec<(String, String)>,
}

/// A report on a forensic snapshot.
pub struct ForensicReport {
    snapshot: ForensicSnapshot,
}

/// Whether an address counts as an indicator: not empty and not an
/// unspecified address.
pub open spec fn ip_indicator(ip: Seq<char>) -> bool {
    ip.len() > 0 && ip != "0.0.0.0"@ && ip != "::"@
}

/// Whether a connection's remote address is `t`.
pub open spec fn remote_ip_is(c: ConnectionModel, t: Seq<char>) -> bool {
    match c.remote {
        Some(r) => r.0 == t,
        None => false,
    }
}

/// The indicator candidates of a snapshot, in the order they are
/// gathered: the addresses of its connections, the hashes of its
/// processes, `path:digest` of each memory hash, the open files and
/// process binaries under suspicious paths, and the modules with
/// suspicious names.
pub open spec fn indicator_candidates(s: ForensicSnapshot) -> Seq<Seq<char>> {
    conn_indicators(s.connections@, s.connections@.len() as int)
        + hash_indicators(s.processes@, s.processes@.len() as int)
        + memory_indicators(s.memory_hashes@, s.memory_hashes@.len() as int)
        + file_indicators(s.open_files@, s.open_files@.len() as int)
        + binary_indicators(s.processes@, s.processes@.len() as int)
        + module_indicators(s.modules@, s.modules@.len() as int)
}

fn ip_is_indicator(ip: &String) -> (b: bool)
    ensures
        b == ip_indicator(ip@),
{
    !ip.as_str().is_empty() && !str_eq(ip.as_str(), "0.0.0.0") && !str_eq(ip.as_str(), "::")
}

/// The address indicators that connection `c` gives: its local, then
/// its remote address, each where it counts as an indicator.
pub open spec fn conn_texts(c: NetworkConnection) -> Seq<Seq<char>> {
    let l = if ip_indicator(c@.local.0) { seq![c@.local.0] } else { Seq::empty() };
    match c@.remote {
        Some(r) => if ip_indicator(r.0) { l.push(r.0) } else { l },
        None => l,
    }
}

/// The address indicators of the first `n` connections, in order.
pub open spec fn conn_indicators(c: Seq<NetworkConnection>, n: int) -> Seq<Seq<char>>
    decreases n,
{
    if n <= 0 { Seq::empty() } else { conn_indicators(c, n - 1) + conn_texts(c[n - 1]) }
}

fn push_conn_indicators(c: &Vec<NetworkConnection>, out: &mut Vec<String>)
    ensures
        strings_view(final(out)@) == strings_view(old(out)@) + conn_indicators(c@, c@.len() as int),
{
    let ghost start = strings_view(out@);
    let mut i: usize = 0;
    while i < c.len()
        invariant
            i <= c@.len(),
            strings_view(out@) == start + conn_indicators(c@, i as int),
        decreases c.len() - i,
    {
        let conn = &c[i];
        let ghost before = strings_view(out@);
        if ip_is_indicator(&conn.local_addr.ip) {
            out.push(conn.local_addr.ip.clone());
        }
        match &conn.remote_addr {
            Some(r) => {
                if ip_is_indicator(&r.ip) {
                    out.push(r.ip.clone());
                }
            },
            None => {},
        }
        assert(strings_view(out@) =~= before + conn_texts(c@[i as int]));
        assert(start + conn_indicators(c@, i + 1) =~= start + conn_indicators(c@, i as int) + conn_texts(c@[i as int]));
        i += 1;
    }
}

/// The hashes of the first `n` processes that have one, in order.
pub open spec fn hash_indicators(p: Seq<ProcessInfo>, n: int) -> Seq<Seq<char>>
    decreases n,
{
    if n <= 0 {
        Seq::empty()
    } else {
        match p[n - 1]@.hash {
            Some(h) => hash_indicators(p, n - 1).push(h),
            None => hash_indicators(p, n - 1),
        }
    }
}

fn push_hash_indicators(p: &Vec<ProcessInfo>, out: &mut Vec<String>)
    ensures
        strings_view(final(out)@) == strings_view(old(out)@) + hash_indicators(p@, p@.len() as int),
{
    let ghost start = strings_view(out@);
    let mut i: usize = 0;
    while i < p.len()
        invariant
            i <= p@.len(),
            strings_view(out@) == start + hash_indicators(p@, i as int),
        decreases p.len() - i,
    {
        let ghost before = strings_view(out@);
        match &p[i].hash {
            Some(h) => {
                out.push(h.clone());
                assert(strings_view(out@) =~= before.push(h@));
            },
            None => {},
        }
        assert(start + hash_indicators(p@, i + 1) =~= strings_view(out@));
        i += 1;
    }
}

/// `path:digest` of each of the first `n` memory hashes, in order.
pub open spec fn memory_indicators(m: Seq<(String, String)>, n: int) -> Seq<Seq<char>>
    decreases n,
{
    if n <= 0 { Seq::empty() } else { memory_indicators(m, n - 1).push(m[n - 1].0@ + ":"@ + m[n - 1].1@) }
}

fn push_memory_indicators(m: &Vec<(String, String)>, out: &mut Vec<String>)
    ensures
        strings_view(final(out)@) == strings_view(old(out)@) + memory_indicators(m@, m@.len() as int),
{
    let ghost start = strings_view(out@);
    let mut i: usize = 0;
    while i < m.len()
        invariant
            i <= m@.len(),
            strings_view(out@) == start + memory_indicators(m@, i as int),
        decreases m.len() - i,
    {
        let ghost before = strings_view(out@);
        let mut x = m[i].0.clone();
        push_str(&mut x, ":");
        push_str(&mut x, m[i].1.as_str());
        out.push(x);
        assert(strings_view(out@) =~= before.push(m@[i as int].0@ + ":"@ + m@[i as int].1@));
        assert(start + memory_indicators(m@, i + 1) =~= strings_view(out@));
        i += 1;
    }
}

/// The first `n` open files that lie under a suspicious path, in order.
pub open spec fn file_indicators(f: Seq<String>, n: int) -> Seq<Seq<char>>
    decreases n,
{
    if n <= 0 {
        Seq::empty()
    } else if suspicious_path(f[n - 1]@) {
        file_indicators(f, n - 1).push(f[n - 1]@)
    } else {
        file_indicators(f, n - 1)
    }
}

fn push_file_indicators(f: &Vec<String>, out: &mut Vec<String>)
    ensures
        strings_view(final(out)@) == strings_view(old(out)@) + file_indicators(f@, f@.len() as int),
{
    let ghost start = strings_view(out@);
    let mut i: usize = 0;
    while i < f.len()
        invariant
            i <= f@.len(),
            strings_view(out@) == start + file_indicators(f@, i as int),
        decreases f.len() - i,
    {
        let ghost before = strings_view(out@);
        if is_suspicious_path(f[i].as_str()) {
            out.push(f[i].clone());
            assert(strings_view(out@) =~= before.push(f@[i as int]@));
        }
        assert(start + file_indicators(f@, i + 1) =~= strings_view(out@));
        i += 1;
    }
}

/// The binaries of the first `n` processes that lie under a suspicious
/// path, in order.
pub open spec fn binary_indicators(p: Seq<ProcessInfo>, n: int) -> Seq<Seq<char>>
    decreases n,
{
    if n <= 0 {
        Seq::empty()
    } else if suspicious_path(p[n - 1]@.binary_path) {
        binary_indicators(p, n - 1).push(p[n - 1]@.binary_path)
    } else {
        binary_indicators(p, n - 1)
    }
}

fn push_binary_indicators(p: &Vec<ProcessInfo>, out: &mut Vec<String>)
    ensures
        strings_view(final(out)@) == strings_view(old(out)@) + binary_indicators(p@, p@.len() as int),
{
    let ghost start = strings_view(out@);
    let mut i: usize = 0;
    while i < p.len()
        invariant
            i <= p@.len(),
            strings_view(out@) == start + binary_indicators(p@, i as int),
        decreases p.len() - i,
    {
        let ghost before = strings_view(out@);
        if is_suspicious_path(p[i].binary_path.as_str()) {
            out.push(p[i].binary_path.clone());
            assert(strings_view(out@) =~= before.push(p@[i as int]@.binary_path));
        }
        assert(start + binary_indicators(p@, i + 1) =~= strings_view(out@));
        i += 1;
    }
}

/// The names of the first `n` modules that look suspicious, in order.
pub open spec fn module_indicators(m: Seq<KernelModuleInfo>, n: int) -> Seq<Seq<char>>
    decreases n,
{
    if n <= 0 {
        Seq::empty()
    } else if suspicious_module_name(m[n - 1].name@) {
        module_indicators(m, n - 1).push(m[n - 1].name@)
    } else {
        module_indicators(m, n - 1)
    }
}

fn push_module_indicators(m: &Vec<KernelModuleInfo>, out: &mut Vec<String>)
    ensures
        strings_view(final(out)@) == strings_view(old(out)@) + module_indicators(m@, m@.len() as int),
{
    let ghost start = strings_view(out@);
    let mut i: usize = 0;
    while i < m.len()
        invariant
            i <= m@.len(),
            strings_view(out@) == start + module_indicators(m@, i as int),
        decreases m.len() - i,
    {
        let ghost before = strings_view(out@);
        if is_suspicious_module(m[i].name.as_str()) {
            out.push(m[i].name.clone());
            assert(strings_view(out@) =~= before.push(m@[i as int].name@));
        }
        assert(start + module_indicators(m@, i + 1) =~= strings_view(out@));
        i += 1;
    }
}

/// The texts joined with `sep` between them.
pub fn join_texts(lines: &Vec<String>, sep: &str) -> (r: String)
    ensures
        r@ == join(strings_view(lines@), sep@),
{
    let ghost lv = strings_view(lines@);
    let mut r = String::new();
    let mut i: usize = 0;
    while i < lines.len()
        invariant
            i <= lines@.len(),
            lv == strings_view(lines@),
            r@ == join(lv.take(i as int), sep@),
        decreases lines.len() - i,
    {
        proof {
            lemma_join_push(lv.take(i as int), sep@, lv[i as int]);
            assert(lv.take(i + 1) =~= lv.take(i as int).push(lv[i as int]));
        }
        if i > 0 {
            push_str(&mut r, sep);
        }
        push_str(&mut r, lines[i].as_str());
        i += 1;
    }
    assert(lv.take(lines@.len() as int) =~= lv);
    r
}

proof fn lemma_members_bound(keys: Seq<Seq<char>>, k: Seq<char>, n: int)
    requires
        0 <= n <= keys.len(),
    ensures
        members_prefix(keys, k, n).len() <= n,
    decreases n,
{
    if n > 0 {
        lemma_members_bound(keys, k, n - 1);
    }
}

/// A line of a count in the report: two spaces, the name, `: ` and the
/// count.
pub open spec fn count_line(name: Seq<char>, n: nat) -> Seq<char> {
    "  "@ + name + ": "@ + decimal(n)
}

/// The counts negated, so that an ascending sort puts the largest first.
pub open spec fn neg_counts(kc: Seq<(Seq<char>, nat)>) -> Seq<int> {
    Seq::new(kc.len(), |i: int| -(kc[i].1 as int))
}

/// The lines of a tally, largest count first, equal counts in order of
/// first appearance.
pub open spec fn count_lines(kc: Seq<(Seq<char>, nat)>) -> Seq<Seq<char>> {
    let order = stable_sort(range(kc.len()), seq_key(neg_counts(kc)));
    Seq::new(order.len(), |j: int| count_line(kc[order[j] as int].0, kc[order[j] as int].1))
}

/// The lines that tally `names`.
fn count_lines_of(names: &Vec<String>) -> (r: Vec<String>)
    requires
        names@.len() <= u32::MAX,
    ensures
        strings_view(r@) == count_lines(key_counts(strings_view(names@))),
{
    let kc = counts(names);
    let ghost kv = key_counts(strings_view(names@));
    assert(counts_view(kc@) == kv);
    let mut negs: Vec<i64> = Vec::new();
    let mut idx: Vec<usize> = Vec::new();
    let mut i: usize = 0;
    while i < kc.len()
        invariant
            i <= kc@.len() == kv.len(),
            counts_view(kc@) == kv,
            kv == key_counts(strings_view(names@)),
            names@.len() <= u32::MAX,
            negs@.len() == i,
            idx@.len() == i,
            forall|q: int| 0 <= q < i ==> negs@[q] as int == -(kv[q].1 as int),
            forall|q: int| 0 <= q < i ==> idx@[q] == q,
        decreases kc.len() - i,
    {
        proof {
            let d = distinct_keys(strings_view(names@));
            assert(kv[i as int].1 == key_members(strings_view(names@), d[i as int]).len());
            lemma_members_bound(strings_view(names@), d[i as int], strings_view(names@).len() as int);
            assert(counts_view(kc@)[i as int].1 == kc@[i as int].1 as nat);
        }
        let c = kc[i].1;
        negs.push(-(c as i64));
        idx.push(i);
        i += 1;
    }
    assert(idx@ =~= range(kc@.len()));
    assert(ints(negs@) =~= neg_counts(kv));
    let order = stable_sort_by_key(&idx, &negs);
    let mut r: Vec<String> = Vec::new();
    let mut j: usize = 0;
    while j < order.len()
        invariant
            j <= order@.len(),
            order@ == stable_sort(range(kv.len()), seq_key(neg_counts(kv))),
            forall|q: int| 0 <= q < order@.len() ==> order@[q] < negs@.len(),
            negs@.len() == kc@.len() == kv.len(),
            counts_view(kc@) == kv,
            r@.len() == j,
            forall|q: int| 0 <= q < j ==> (#[trigger] r@[q])@ == count_line(kv[order@[q] as int].0, kv[order@[q] as int].1),
        decreases order.len() - j,
    {
        let k = order[j];
        let mut line = owned("  ");
        push_str(&mut line, kc[k].0.as_str());
        push_str(&mut line, ": ");
        push_decimal(&mut line, kc[k].1 as u64);
        proof {
            assert(counts_view(kc@)[k as int] == (kc@[k as int].0@, kc@[k as int].1 as nat));
        }
        r.push(line);
        j += 1;
    }
    assert(strings_view(r@) =~= count_lines(kv));
    r
}

/// The run-state names of the processes, in order.
pub open spec fn status_names(p: Seq<ProcessInfo>) -> Seq<Seq<char>> {
    Seq::new(p.len(), |i: int| p[i].status.variant_name())
}

/// The protocol names of the connections, in order.
pub open spec fn protocol_names(c: Seq<NetworkConnection>) -> Seq<Seq<char>> {
    Seq::new(c.len(), |i: int| c[i].protocol.variant_name())
}

/// The lines of a snapshot's summary: its id, time, host and kernel;
/// how many processes, modules, connections, open files and environment
/// variables it holds; the processes by run state and the connections by
/// protocol, largest count first; and how many hooks, threats and memory
/// hashes it holds.
pub open spec fn summary_lines(s: ForensicSnapshot) -> Seq<Seq<char>> {
    seq![
        "Forensic Report: "@ + s.id@,
        "Timestamp: "@ + s.timestamp@,
        "Hostname: "@ + s.hostname@,
        "Kernel: "@ + s.kernel_version@,
        "Processes: "@ + decimal(s.processes@.len()),
        "Kernel Modules: "@ + decimal(s.modules@.len()),
        "Network Connections: "@ + decimal(s.connections@.len()),
        "Open Files: "@ + decimal(s.open_files@.len()),
        "Environment Variables: "@ + decimal(s.env_vars@.len()),
        "Process States:"@
    ]
        + count_lines(key_counts(status_names(s.processes@)))
        + seq!["Connections by Protocol:"@]
        + count_lines(key_counts(protocol_names(s.connections@)))
        + seq![
        "Hooks Detected: "@ + decimal(s.hooks@.len()),
        "Threats Detected: "@ + decimal(s.threats@.len()),
        "Memory Hashes: "@ + decimal(s.memory_hashes@.len())
    ]
}

fn labelled(label: &str, text: &String) -> (r: String)
    ensures
        r@ == label@ + text@,
{
    let mut r = owned(label);
    push_str(&mut r, text.as_str());
    r
}

fn labelled_count(label: &str, n: usize) -> (r: String)
    ensures
        r@ == label@ + decimal(n as nat),
{
    let mut r = owned(label);
    push_decimal(&mut r, n as u64);
    r
}

fn push_lines(out: &mut Vec<String>, more: Vec<String>)
    ensures
        strings_view(final(out)@) == strings_view(old(out)@) + strings_view(more@),
{
    let ghost start = strings_view(out@);
    let mut i: usize = 0;
    let mut more = more;
    let ghost mv = strings_view(more@);
    let mut rest: Vec<String> = Vec::new();
    while i < more.len()
        invariant
            i <= more@.len(),
            mv == strings_view(more@),
            strings_view(out@) == start + mv.take(i as int),
        decreases more.len() - i,
    {
        let ghost before = strings_view(out@);
        let x = more[i].clone();
        assert(x@ == mv[i as int]);
        out.push(x);
        assert(strings_view(out@) =~= before.push(mv[i as int]));
        assert(start + mv.take(i + 1) =~= (start + mv.take(i as int)).push(mv[i as int]));
        i += 1;
    }
    assert(mv.take(more@.len() as int) =~= mv);
}

/// The distinct targets of open descriptors, sorted.
pub fn open_file_list(targets: &Vec<String>) -> (r: Vec<String>)
    ensures
        strictly_sorted(strings_view(r@)),
        forall|t: Seq<char>| strings_view(r@).contains(t) <==> strings_view(targets@).contains(t),
{
    sorted_unique(targets)
}

/// The system facts that the host's files give, where they could be
/// read: the kernel version and host name trimmed, and the uptime's first
/// word with `s` after it.
pub open spec fn system_facts(version: Option<Seq<char>>, hostname: Option<Seq<char>>, uptime: Option<Seq<char>>) -> Seq<(Seq<char>, Seq<char>)> {
    let a: Seq<(Seq<char>, Seq<char>)> = match version {
        Some(v) => seq![("kernel_version"@, trimmed(v))],
        None => Seq::empty(),
    };
    let b = match hostname {
        Some(h) => a.push(("hostname"@, trimmed(h))),
        None => a,
    };
    match uptime {
        Some(u) => if words(u).len() > 0 { b.push(("uptime"@, words(u)[0] + "s"@)) } else { b },
        None => b,
    }
}

/// The plain text of an optional string slice.
pub open spec fn opt_str(o: Option<&str>) -> Option<Seq<char>> {
    match o {
        Some(s) => Some(s@),
        None => None,
    }
}

/// The system facts from the texts of `/proc/version`,
/// `/proc/sys/kernel/hostname` and `/proc/uptime`.
pub fn system_info(version: Option<&str>, hostname: Option<&str>, uptime: Option<&str>) -> (r: Vec<(String, String)>)
    ensures
        pairs_view(r@) == system_facts(opt_str(version), opt_str(hostname), opt_str(uptime)),
{
    let mut r: Vec<(String, String)> = Vec::new();
    if let Some(v) = version {
        let t = string_from_chars(&trim_chars(&chars_of(v)));
        r.push((owned("kernel_version"), t));
    }
    let ghost a = pairs_view(r@);
    if let Some(h) = hostname {
        let t = string_from_chars(&trim_chars(&chars_of(h)));
        r.push((owned("hostname"), t));
        assert(pairs_view(r@) =~= a.push(("hostname"@, trimmed(h@))));
    }
    let ghost b = pairs_view(r@);
    if let Some(u) = uptime {
        let w = split_words(&chars_of(u));
        if w.len() > 0 {
            let mut t = string_from_chars(&w[0]);
            push_str(&mut t, "s");
            r.push((owned("uptime"), t));
            assert(pairs_view(r@) =~= b.push(("uptime"@, words(u@)[0] + "s"@)));
        }
    }
    assert(pairs_view(r@) =~= system_facts(opt_str(version), opt_str(hostname), opt_str(uptime)));
    r
}

/// The value of key `k` among the facts, or empty.
pub open spec fn fact_or_empty(facts: Seq<(Seq<char>, Seq<char>)>, k: Seq<char>) -> Seq<char> {
    match key_pos(facts, k) {
        Some(i) => facts[i].1,
        None => Seq::empty(),
    }
}

fn fact_of(facts: &Vec<(String, String)>, k: &str) -> (r: String)
    ensures
        r@ == fact_or_empty(pairs_view(facts@), k@),
{
    let ghost fv = pairs_view(facts@);
    let mut j: usize = facts.len();
    assert(fv.take(j as int) =~= fv);
    while j > 0
        invariant
            j <= facts@.len() == fv.len(),
            fv == pairs_view(facts@),
            key_pos(fv, k@) == key_pos(fv.take(j as int), k@),
        decreases j,
    {
        assert(fv.take(j as int).drop_last() =~= fv.take(j - 1));
        assert(fv[j - 1] == (facts@[j - 1].0@, facts@[j - 1].1@));
        if str_eq(facts[j - 1].0.as_str(), k) {
            return facts[j - 1].1.clone();
        }
        j -= 1;
    }
    String::new()
}

/// A snapshot of what was collected: the host and kernel names from the
/// system facts (empty where missing), no hooks, threats or memory
/// hashes yet.
pub fn snapshot_from(
    id: String,
    timestamp: String,
    facts: &Vec<(String, String)>,
    processes: Vec<ProcessInfo>,
    modules: Vec<KernelModuleInfo>,
    connections: Vec<NetworkConnection>,
    open_files: Vec<String>,
    env_vars: Vec<(String, String)>,
) -> (s: ForensicSnapshot)
    ensures
        s.id == id,
        s.timestamp == timestamp,
        s.hostname@ == fact_or_empty(pairs_view(facts@), "hostname"@),
        s.kernel_version@ == fact_or_empty(pairs_view(facts@), "kernel_version"@),
        s.processes == processes,
        s.modules == modules,
        s.connections == connections,
        s.hooks@.len() == 0,
        s.threats@.len() == 0,
        s.memory_hashes@.len() == 0,
        s.open_files == open_files,
        s.env_vars == env_vars,
{
    ForensicSnapshot {
        id,
        timestamp,
        hostname: fact_of(facts, "hostname"),
        kernel_version: fact_of(facts, "kernel_version"),
        processes,
        modules,
        connections,
        hooks: Vec::new(),
        threats: Vec::new(),
        memory_hashes: Vec::new(),
        open_files,
        env_vars,
    }
}

impl ForensicReport {
    /// The snapshot the report is on.
    pub closed spec fn snapshot(&self) -> ForensicSnapshot {
        self.snapshot
    }

    /// The snapshot the report is on.
    pub fn get_snapshot(&self) -> (r: &ForensicSnapshot)
        ensures
            *r == self.snapshot(),
    {
        &self.snapshot
    }

    /// A report on `snapshot`.
    pub fn new(snapshot: ForensicSnapshot) -> (r: ForensicReport)
        ensures
            r.snapshot() == snapshot,
    {
        ForensicReport { snapshot }
    }

    /// A text summary of the snapshot, its lines joined by newlines.
    pub fn to_summary(&self) -> (r: String)
        requires
            self.snapshot().processes@.len() <= u32::MAX,
            self.snapshot().connections@.len() <= u32::MAX,
        ensures
            r@ == join(summary_lines(self.snapshot()), "\n"@),
    {
        let s = &self.snapshot;
        let mut lines: Vec<String> = Vec::new();
        lines.push(labelled("Forensic Report: ", &s.id));
        lines.push(labelled("Timestamp: ", &s.timestamp));
        lines.push(labelled("Hostname: ", &s.hostname));
        lines.push(labelled("Kernel: ", &s.kernel_version));
        lines.push(labelled_count("Processes: ", s.processes.len()));
        lines.push(labelled_count("Kernel Modules: ", s.modules.len()));
        lines.push(labelled_count("Network Connections: ", s.connections.len()));
        lines.push(labelled_count("Open Files: ", s.open_files.len()));
        lines.push(labelled_count("Environment Variables: ", s.env_vars.len()));
        lines.push(owned("Process States:"));
        let ghost head = strings_view(lines@);
        assert(head =~= seq![
            "Forensic Report: "@ + s.id@,
            "Timestamp: "@ + s.timestamp@,
            "Hostname: "@ + s.hostname@,
            "Kernel: "@ + s.kernel_version@,
            "Processes: "@ + decimal(s.processes@.len()),
            "Kernel Modules: "@ + decimal(s.modules@.len()),
            "Network Connections: "@ + decimal(s.connections@.len()),
            "Open Files: "@ + decimal(s.open_files@.len()),
            "Environment Variables: "@ + decimal(s.env_vars@.len()),
            "Process States:"@
        ]);
        let mut states: Vec<String> = Vec::new();
        let mut i: usize = 0;
        while i < s.processes.len()
            invariant
                i <= s.processes@.len(),
                strings_view(states@) == status_names(s.processes@).take(i as int),
            decreases s.processes.len() - i,
        {
            let ghost before = strings_view(states@);
            let x = owned(s.processes[i].status.variant_str());
            assert(x@ == status_names(s.processes@)[i as int]);
            states.push(x);
            assert(strings_view(states@) =~= before.push(x@));
            assert(status_names(s.processes@).take(i + 1) =~= status_names(s.processes@).take(i as int).push(x@));
            i += 1;
        }
        assert(strings_view(states@) =~= status_names(s.processes@));
        push_lines(&mut lines, count_lines_of(&states));
        let ghost part1 = strings_view(lines@);
        lines.push(owned("Connections by Protocol:"));
        let ghost part2 = strings_view(lines@);
        assert(part2 =~= part1.push("Connections by Protocol:"@));
        let mut protos: Vec<String> = Vec::new();
        let mut j: usize = 0;
        while j < s.connections.len()
            invariant
                j <= s.connections@.len(),
                strings_view(protos@) == protocol_names(s.connections@).take(j as int),
            decreases s.connections.len() - j,
        {
            let ghost before = strings_view(protos@);
            let x = owned(s.connections[j].protocol.variant_str());
            assert(x@ == protocol_names(s.connections@)[j as int]);
            protos.push(x);
            assert(strings_view(protos@) =~= before.push(x@));
            assert(protocol_names(s.connections@).take(j + 1) =~= protocol_names(s.connections@).take(j as int).push(x@));
            j += 1;
        }
        assert(strings_view(protos@) =~= protocol_names(s.connections@));
        push_lines(&mut lines, count_lines_of(&protos));
        let ghost part3 = strings_view(lines@);
        let h = labelled_count("Hooks Detected: ", s.hooks.len());
        let t = labelled_count("Threats Detected: ", s.threats.len());
        let m = labelled_count("Memory Hashes: ", s.memory_hashes.len());
        let ghost tail = seq![h@, t@, m@];
        lines.push(h);
        lines.push(t);
        lines.push(m);
        assert(strings_view(lines@) =~= part3 + tail);
        assert(strings_view(lines@) =~= summary_lines(*s));
        join_texts(&lines, "\n")
    }

    /// The snapshot's indicators of compromise, sorted and each once.
    pub fn compute_iocs(&self) -> (r: Vec<String>)
        ensures
            strictly_sorted(strings_view(r@)),
            forall|t: Seq<char>| strings_view(r@).contains(t) <==> indicator_candidates(self.snapshot()).contains(t),
    {
        let s = &self.snapshot;
        let mut c: Vec<String> = Vec::new();
        push_conn_indicators(&s.connections, &mut c);
        push_hash_indicators(&s.processes, &mut c);
        push_memory_indicators(&s.memory_hashes, &mut c);
        push_file_indicators(&s.open_files, &mut c);
        push_binary_indicators(&s.processes, &mut c);
        push_module_indicators(&s.modules, &mut c);
        assert(strings_view(c@) =~= indicator_candidates(*s));
        sorted_unique(&c)
    }
}

} // verus!
