use vstd::prelude::*;
use crate::symbols::{chars_eq, all_hex, hex_value, parse_hex, parse_hex_u64, unsigned_digits, parse_dec, parse_dec32, parse_dec_u64, parse_dec_u32, words, split_words, text_lines, lines_of, chars_range};
use crate::hooks::{trimmed, trim_chars};
use crate::text::{hex_char, hex_digit_char, chars_of, contains, contains_seq, decimal, is_prefix, owned, push_char, push_decimal, starts_with, str_eq, seq_starts_with, string_from_chars};

verus! {

/// Whether a path lies in a world-writable scratch directory or climbs
/// out of its directory: under `/tmp/`, `/dev/shm/` or `/var/tmp/`, or
/// holding `/..`.
pub open spec fn suspicious_path(path: Seq<char>) -> bool {
    is_prefix("/tmp/"@, path) || is_prefix("/dev/shm/"@, path) || is_prefix("/var/tmp/"@, path)
        || contains_seq(path, "/.."@)
}

/// Whether a path lies in a world-writable scratch directory or climbs
/// out of its directory.
pub fn is_suspicious_path(path: &str) -> (b: bool)
    ensures
        b == suspicious_path(path@),
{
    starts_with(path, "/tmp/") || starts_with(path, "/dev/shm/") || starts_with(path, "/var/tmp/")
        || contains(path, "/..")
}

/// Whether a kernel module's name looks like a hidden or malicious one: it
/// starts with a dot, or names a rootkit or hiding.
pub open spec fn suspicious_module_name(name: Seq<char>) -> bool {
    is_prefix("."@, name) || contains_seq(name, "rootkit"@) || contains_seq(name, "hide"@)
}

/// Whether a kernel module's name looks like a hidden or malicious one.
pub fn is_suspicious_module(name: &str) -> (b: bool)
    ensures
        b == suspicious_module_name(name@),
{
    starts_with(name, ".") || contains(name, "rootkit") || contains(name, "hide")
}

/// The state of a TCP connection, as `/proc/net/tcp` numbers it.
#[derive(Debug, Clone, Copy, PartialEq, Eq, Hash, Structural)]
pub enum ConnectionState {
    Established,
    SynSent,
    SynRecv,
    FinWait1,
    FinWait2,
    TimeWait,
    Close,
    CloseWait,
    LastAck,
    Listen,
    Closing,
    Unknown,
}

/// The state that a two-digit code of `/proc/net/tcp` names.
pub open spec fn conn_state_of(code: Seq<char>) -> ConnectionState {
    if code == "01"@ {
        ConnectionState::Established
    } else if code == "02"@ {
        ConnectionState::SynSent
    } else if code == "03"@ {
        ConnectionState::SynRecv
    } else if code == "04"@ {
        ConnectionState::FinWait1
    } else if code == "05"@ {
        ConnectionState::FinWait2
    } else if code == "06"@ {
        ConnectionState::TimeWait
    } else if code == "07"@ {
        ConnectionState::Close
    } else if code == "08"@ {
        ConnectionState::CloseWait
    } else if code == "09"@ {
        ConnectionState::LastAck
    } else if code == "0A"@ {
        ConnectionState::Listen
    } else if code == "0B"@ {
        ConnectionState::Closing
    } else {
        ConnectionState::Unknown
    }
}

/// The state that a code of `/proc/net/tcp` names; `Unknown` for any
/// other text.
pub fn parse_conn_state(hex: &str) -> (s: ConnectionState)
    ensures
        s == conn_state_of(hex@),
{
    if str_eq(hex, "01") {
        ConnectionState::Established
    } else if str_eq(hex, "02") {
        ConnectionState::SynSent
    } else if str_eq(hex, "03") {
        ConnectionState::SynRecv
    } else if str_eq(hex, "04") {
        ConnectionState::FinWait1
    } else if str_eq(hex, "05") {
        ConnectionState::FinWait2
    } else if str_eq(hex, "06") {
        ConnectionState::TimeWait
    } else if str_eq(hex, "07") {
        ConnectionState::Close
    } else if str_eq(hex, "08") {
        ConnectionState::CloseWait
    } else if str_eq(hex, "09") {
        ConnectionState::LastAck
    } else if str_eq(hex, "0A") {
        ConnectionState::Listen
    } else if str_eq(hex, "0B") {
        ConnectionState::Closing
    } else {
        ConnectionState::Unknown
    }
}

/// The 32-bit number a hexadecimal text writes (`u32::from_str_radix`
/// with radix 16), if it writes one.
pub open spec fn parse_hex32(s: Seq<char>) -> Option<u32> {
    let d = unsigned_digits(s);
    if d.len() > 0 && all_hex(d) && hex_value(d) <= u32::MAX {
        Some(hex_value(d) as u32)
    } else {
        None
    }
}

/// The dotted text of an IPv4 address that `/proc/net` writes as eight
/// hexadecimal digits of a little-endian number: its lowest byte first.
pub open spec fn dotted(v: u32) -> Seq<char> {
    decimal((v % 256) as nat) + "."@ + decimal(((v / 256) % 256) as nat) + "."@
        + decimal(((v / 65536) % 256) as nat) + "."@ + decimal((v / 16777216) as nat)
}

/// The dotted IPv4 address that a hexadecimal field of `/proc/net` holds,
/// if it holds a 32-bit number.
pub fn parse_hex_ip(hex_str: &str) -> (r: Option<String>)
    ensures
        r matches Some(s) ==> parse_hex32(hex_str@) matches Some(v) && s@ == dotted(v),
        r is None ==> parse_hex32(hex_str@) is None,
{
    let chars = chars_of(hex_str);
    let v = match parse_hex_u64(&chars) {
        Some(v) => v,
        None => {
            return None;
        },
    };
    if v > 0xFFFF_FFFF {
        return None;
    }
    let val = v as u32;
    let mut s = String::new();
    push_decimal(&mut s, (val % 256) as u64);
    push_char(&mut s, '.');
    push_decimal(&mut s, ((val / 256) % 256) as u64);
    push_char(&mut s, '.');
    push_decimal(&mut s, ((val / 65536) % 256) as u64);
    push_char(&mut s, '.');
    push_decimal(&mut s, (val / 16777216) as u64);
    proof {
        reveal_strlit(".");
        assert(s@ =~= dotted(val));
    }
    Some(s)
}

/// The name of a Linux capability by its bit number; empty past the
/// last one known.
pub open spec fn capability_name(bit: nat) -> Seq<char> {
    if bit == 0 {
        "chown"@
    } else if bit == 1 {
        "dac_override"@
    } else if bit == 2 {
        "dac_read_search"@
    } else if bit == 3 {
        "fowner"@
    } else if bit == 4 {
        "fsetid"@
    } else if bit == 5 {
        "kill"@
    } else if bit == 6 {
        "setgid"@
    } else if bit == 7 {
        "setuid"@
    } else if bit == 8 {
        "setpcap"@
    } else if bit == 9 {
        "linux_immutable"@
    } else if bit == 10 {
        "net_bind_service"@
    } else if bit == 11 {
        "net_broadcast"@
    } else if bit == 12 {
        "net_admin"@
    } else if bit == 13 {
        "net_raw"@
    } else if bit == 14 {
        "ipc_lock"@
    } else if bit == 15 {
        "ipc_owner"@
    } else if bit == 16 {
        "sys_module"@
    } else if bit == 17 {
        "sys_rawio"@
    } else if bit == 18 {
        "sys_chroot"@
    } else if bit == 19 {
        "sys_ptrace"@
    } else if bit == 20 {
        "sys_pacct"@
    } else if bit == 21 {
        "sys_admin"@
    } else if bit == 22 {
        "sys_boot"@
    } else if bit == 23 {
        "sys_nice"@
    } else if bit == 24 {
        "sys_resource"@
    } else if bit == 25 {
        "sys_time"@
    } else if bit == 26 {
        "sys_tty_config"@
    } else if bit == 27 {
        "mknod"@
    } else if bit == 28 {
        "lease"@
    } else if bit == 29 {
        "audit_write"@
    } else if bit == 30 {
        "audit_control"@
    } else if bit == 31 {
        "setfcap"@
    } else if bit == 32 {
        "mac_override"@
    } else if bit == 33 {
        "mac_admin"@
    } else if bit == 34 {
        "syslog"@
    } else if bit == 35 {
        "wake_alarm"@
    } else if bit == 36 {
        "block_suspend"@
    } else if bit == 37 {
        "audit_read"@
    } else if bit == 38 {
        "perfmon"@
    } else if bit == 39 {
        "bpf"@
    } else if bit == 40 {
        "checkpoint_restore"@
    } else {
        Seq::empty()
    }
}

fn capability_str(bit: u64) -> (s: &'static str)
    ensures
        s@ == capability_name(bit as nat),
{
    if bit == 0 {
        "chown"
    } else if bit == 1 {
        "dac_override"
    } else if bit == 2 {
        "dac_read_search"
    } else if bit == 3 {
        "fowner"
    } else if bit == 4 {
        "fsetid"
    } else if bit == 5 {
        "kill"
    } else if bit == 6 {
        "setgid"
    } else if bit == 7 {
        "setuid"
    } else if bit == 8 {
        "setpcap"
    } else if bit == 9 {
        "linux_immutable"
    } else if bit == 10 {
        "net_bind_service"
    } else if bit == 11 {
        "net_broadcast"
    } else if bit == 12 {
        "net_admin"
    } else if bit == 13 {
        "net_raw"
    } else if bit == 14 {
        "ipc_lock"
    } else if bit == 15 {
        "ipc_owner"
    } else if bit == 16 {
        "sys_module"
    } else if bit == 17 {
        "sys_rawio"
    } else if bit == 18 {
        "sys_chroot"
    } else if bit == 19 {
        "sys_ptrace"
    } else if bit == 20 {
        "sys_pacct"
    } else if bit == 21 {
        "sys_admin"
    } else if bit == 22 {
        "sys_boot"
    } else if bit == 23 {
        "sys_nice"
    } else if bit == 24 {
        "sys_resource"
    } else if bit == 25 {
        "sys_time"
    } else if bit == 26 {
        "sys_tty_config"
    } else if bit == 27 {
        "mknod"
    } else if bit == 28 {
        "lease"
    } else if bit == 29 {
        "audit_write"
    } else if bit == 30 {
        "audit_control"
    } else if bit == 31 {
        "setfcap"
    } else if bit == 32 {
        "mac_override"
    } else if bit == 33 {
        "mac_admin"
    } else if bit == 34 {
        "syslog"
    } else if bit == 35 {
        "wake_alarm"
    } else if bit == 36 {
        "block_suspend"
    } else if bit == 37 {
        "audit_read"
    } else if bit == 38 {
        "perfmon"
    } else if bit == 39 {
        "bpf"
    } else if bit == 40 {
        "checkpoint_restore"
    } else {
        proof {
            reveal_strlit("");
        }
        ""
    }
}

/// The number of capabilities that have a name.
pub const CAPABILITY_COUNT: u64 = 41;

/// Whether bit `bit` of a capability mask is set.
pub open spec fn cap_bit_set(cap: u64, bit: u64) -> bool {
    cap & (1u64 << bit) != 0
}

/// The names of the capabilities among the first `n` whose bits are set
/// in `cap`, by bit number.
pub open spec fn capability_names(cap: u64, n: nat) -> Seq<Seq<char>>
    decreases n,
{
    if n == 0 {
        Seq::empty()
    } else {
        let prev = capability_names(cap, (n - 1) as nat);
        if cap_bit_set(cap, (n - 1) as u64) {
            prev.push(capability_name((n - 1) as nat))
        } else {
            prev
        }
    }
}

/// The names of the capabilities that an effective-capability mask
/// grants, by bit number.
pub fn decode_capabilities(cap: u64) -> (r: Vec<String>)
    ensures
        r@.len() == capability_names(cap, CAPABILITY_COUNT as nat).len(),
        forall|k: int| 0 <= k < r@.len() ==> r@[k]@ == capability_names(cap, CAPABILITY_COUNT as nat)[k],
{
    let mut r: Vec<String> = Vec::new();
    let mut bit: u64 = 0;
    while bit < CAPABILITY_COUNT
        invariant
            bit <= CAPABILITY_COUNT,
            r@.len() == capability_names(cap, bit as nat).len(),
            forall|k: int| 0 <= k < r@.len() ==> r@[k]@ == capability_names(cap, bit as nat)[k],
        decreases CAPABILITY_COUNT - bit,
    {
        if cap & (1u64 << bit) != 0 {
            r.push(owned(capability_str(bit)));
        }
        bit += 1;
    }
    r
}

/// The run state of a process.
#[derive(Debug, Clone, Copy, PartialEq, Eq, Hash, Structural)]
pub enum ProcessStatus {
    Running,
    Sleeping,
    Stopped,
    Zombie,
    Dead,
    Unknown,
}

impl ProcessStatus {
    /// The variant's name.
    pub open spec fn variant_name(self) -> Seq<char> {
        match self {
            ProcessStatus::Running => "Running"@,
            ProcessStatus::Sleeping => "Sleeping"@,
            ProcessStatus::Stopped => "Stopped"@,
            ProcessStatus::Zombie => "Zombie"@,
            ProcessStatus::Dead => "Dead"@,
            ProcessStatus::Unknown => "Unknown"@,
        }
    }

    /// The variant's name, as `{:?}` writes it.
    pub fn variant_str(&self) -> (s: &'static str)
        ensures
            s@ == self.variant_name(),
    {
        match self {
            ProcessStatus::Running => "Running",
            ProcessStatus::Sleeping => "Sleeping",
            ProcessStatus::Stopped => "Stopped",
            ProcessStatus::Zombie => "Zombie",
            ProcessStatus::Dead => "Dead",
            ProcessStatus::Unknown => "Unknown",
        }
    }
}

/// The run state that the first letter of a `State:` field names.
pub open spec fn status_of_char(c: char) -> ProcessStatus {
    if c == 'R' {
        ProcessStatus::Running
    } else if c == 'S' {
        ProcessStatus::Sleeping
    } else if c == 'T' {
        ProcessStatus::Stopped
    } else if c == 'Z' {
        ProcessStatus::Zombie
    } else if c == 'D' || c == 'X' {
        ProcessStatus::Dead
    } else {
        ProcessStatus::Unknown
    }
}

/// The run state that the first letter of a `State:` field names.
pub fn process_status(c: char) -> (s: ProcessStatus)
    ensures
        s == status_of_char(c),
{
    if c == 'R' {
        ProcessStatus::Running
    } else if c == 'S' {
        ProcessStatus::Sleeping
    } else if c == 'T' {
        ProcessStatus::Stopped
    } else if c == 'Z' {
        ProcessStatus::Zombie
    } else if c == 'D' || c == 'X' {
        ProcessStatus::Dead
    } else {
        ProcessStatus::Unknown
    }
}

/// The fields of a `/proc/<pid>/status` text that a process record needs.
pub struct StatusFields {
    pub name: String,
    pub state: char,
    pub ppid: u32,
    pub uid: u32,
    pub gid: u32,
    pub threads: u32,
    pub vm_rss_kb: u64,
    pub cap_hex: String,
}

/// The plain contents of a [`StatusFields`].
pub struct StatusModel {
    pub name: Seq<char>,
    pub state: char,
    pub ppid: u32,
    pub uid: u32,
    pub gid: u32,
    pub threads: u32,
    pub vm_rss_kb: u64,
    pub cap_hex: Seq<char>,
}

impl View for StatusFields {
    type V = StatusModel;

    open spec fn view(&self) -> StatusModel {
        StatusModel {
            name: self.name@,
            state: self.state,
            ppid: self.ppid,
            uid: self.uid,
            gid: self.gid,
            threads: self.threads,
            vm_rss_kb: self.vm_rss_kb,
            cap_hex: self.cap_hex@,
        }
    }
}

/// The fields before any line of the text is read.
pub open spec fn no_status() -> StatusModel {
    StatusModel {
        name: Seq::empty(),
        state: ' ',
        ppid: 0,
        uid: 0,
        gid: 0,
        threads: 0,
        vm_rss_kb: 0,
        cap_hex: Seq::empty(),
    }
}

/// A 32-bit number, or 0 where the text writes none.
pub open spec fn dec32_or_zero(t: Seq<char>) -> u32 {
    match parse_dec32(t) {
        Some(v) => v,
        None => 0,
    }
}

/// A 64-bit number, or 0 where the text writes none.
pub open spec fn dec64_or_zero(t: Seq<char>) -> u64 {
    match parse_dec(t) {
        Some(v) => v,
        None => 0,
    }
}

/// The first word of a text; `"0"` where it has none.
pub open spec fn first_word_or_zero(t: Seq<char>) -> Seq<char> {
    if words(t).len() > 0 { words(t)[0] } else { "0"@ }
}

/// The fields after one more line of the status text is read: a line
/// that starts with a known key sets that field (a later line of the same
/// key wins); any other line changes nothing.
pub open spec fn status_step(m: StatusModel, line: Seq<char>) -> StatusModel {
    if is_prefix("Name:"@, line) {
        StatusModel { name: trimmed(line.skip(5)), ..m }
    } else if is_prefix("State:"@, line) {
        let t = trimmed(line.skip(6));
        StatusModel { state: if t.len() > 0 { t[0] } else { ' ' }, ..m }
    } else if is_prefix("PPid:"@, line) {
        StatusModel { ppid: dec32_or_zero(trimmed(line.skip(5))), ..m }
    } else if is_prefix("Uid:"@, line) {
        StatusModel { uid: dec32_or_zero(first_word_or_zero(line.skip(4))), ..m }
    } else if is_prefix("Gid:"@, line) {
        StatusModel { gid: dec32_or_zero(first_word_or_zero(line.skip(4))), ..m }
    } else if is_prefix("Threads:"@, line) {
        StatusModel { threads: dec32_or_zero(trimmed(line.skip(8))), ..m }
    } else if is_prefix("VmRSS:"@, line) {
        StatusModel { vm_rss_kb: dec64_or_zero(first_word_or_zero(line.skip(6))), ..m }
    } else if is_prefix("CapEff:"@, line) {
        StatusModel { cap_hex: trimmed(line.skip(7)), ..m }
    } else {
        m
    }
}

/// The fields that the first `n` lines set.
pub open spec fn status_of_lines(lines: Seq<Seq<char>>, n: int) -> StatusModel
    decreases n,
{
    if n <= 0 {
        no_status()
    } else {
        status_step(status_of_lines(lines, n - 1), lines[n - 1])
    }
}

/// The fields that a whole status text sets.
pub open spec fn status_of_text(text: Seq<char>) -> StatusModel {
    status_of_lines(text_lines(text), text_lines(text).len() as int)
}

fn dec32_or_zero_of(t: &Vec<char>) -> (r: u32)
    ensures
        r == dec32_or_zero(t@),
{
    match parse_dec_u32(t) {
        Some(v) => v,
        None => 0,
    }
}

fn first_word_or_zero_of(t: &Vec<char>) -> (r: Vec<char>)
    ensures
        r@ == first_word_or_zero(t@),
{
    let w = split_words(t);
    if w.len() > 0 {
        let f = &w[0];
        let r = chars_range(f, 0, f.len());
        assert(r@ =~= f@);
        r
    } else {
        let r = chars_of("0");
        r
    }
}

/// The fields of a `/proc/<pid>/status` text: the name, the first letter
/// of the state, the parent pid, the real uid and gid, the thread count,
/// the resident size in kB and the effective capability mask in
/// hexadecimal; each 0 or empty where no line gives it.
pub fn parse_status(text: &str) -> (f: StatusFields)
    ensures
        f@ == status_of_text(text@),
{
    let lines = lines_of(text);
    let mut f = StatusFields {
        name: String::new(),
        state: ' ',
        ppid: 0,
        uid: 0,
        gid: 0,
        threads: 0,
        vm_rss_kb: 0,
        cap_hex: String::new(),
    };
    let mut i: usize = 0;
    while i < lines.len()
        invariant
            i <= lines@.len() == text_lines(text@).len(),
            forall|k: int| 0 <= k < lines@.len() ==> lines@[k]@ == text_lines(text@)[k],
            f@ == status_of_lines(text_lines(text@), i as int),
        decreases lines.len() - i,
    {
        let line = &lines[i];
        assert(line@ == text_lines(text@)[i as int]);
        if seq_starts_with(line, "Name:") {
            proof { reveal_strlit("Name:"); }
            let v = chars_range(line, 5, line.len());
            assert(v@ =~= line@.skip(5));
            f.name = string_from_chars(&trim_chars(&v));
        } else if seq_starts_with(line, "State:") {
            proof { reveal_strlit("State:"); }
            let v = chars_range(line, 6, line.len());
            assert(v@ =~= line@.skip(6));
            let t = trim_chars(&v);
            f.state = if t.len() > 0 { t[0] } else { ' ' };
        } else if seq_starts_with(line, "PPid:") {
            proof { reveal_strlit("PPid:"); }
            let v = chars_range(line, 5, line.len());
            assert(v@ =~= line@.skip(5));
            f.ppid = dec32_or_zero_of(&trim_chars(&v));
        } else if seq_starts_with(line, "Uid:") {
            proof { reveal_strlit("Uid:"); }
            let v = chars_range(line, 4, line.len());
            assert(v@ =~= line@.skip(4));
            f.uid = dec32_or_zero_of(&first_word_or_zero_of(&v));
        } else if seq_starts_with(line, "Gid:") {
            proof { reveal_strlit("Gid:"); }
            let v = chars_range(line, 4, line.len());
            assert(v@ =~= line@.skip(4));
            f.gid = dec32_or_zero_of(&first_word_or_zero_of(&v));
        } else if seq_starts_with(line, "Threads:") {
            proof { reveal_strlit("Threads:"); }
            let v = chars_range(line, 8, line.len());
            assert(v@ =~= line@.skip(8));
            f.threads = dec32_or_zero_of(&trim_chars(&v));
        } else if seq_starts_with(line, "VmRSS:") {
            proof { reveal_strlit("VmRSS:"); }
            let v = chars_range(line, 6, line.len());
            assert(v@ =~= line@.skip(6));
            let w = first_word_or_zero_of(&v);
            f.vm_rss_kb = match parse_dec_u64(&w) {
                Some(x) => x,
                None => 0,
            };
        } else if seq_starts_with(line, "CapEff:") {
            proof { reveal_strlit("CapEff:"); }
            let v = chars_range(line, 7, line.len());
            assert(v@ =~= line@.skip(7));
            f.cap_hex = string_from_chars(&trim_chars(&v));
        }
        i += 1;
    }
    f
}

/// The first position at or after `i` that holds `c`.
pub open spec fn find_from(s: Seq<char>, c: char, i: int) -> Option<int>
    decreases s.len() - i,
{
    if i < 0 || i >= s.len() {
        None
    } else if s[i] == c {
        Some(i)
    } else {
        find_from(s, c, i + 1)
    }
}

/// The last position before `j` that holds `c`.
pub open spec fn rfind_before(s: Seq<char>, c: char, j: int) -> Option<int>
    decreases j,
{
    if j <= 0 || j > s.len() {
        None
    } else if s[j - 1] == c {
        Some(j - 1)
    } else {
        rfind_before(s, c, j - 1)
    }
}

proof fn lemma_find_from_at(s: Seq<char>, c: char, i: int, k: int)
    requires
        0 <= i <= k <= s.len(),
        forall|q: int| i <= q < k ==> s[q] != c,
    ensures
        find_from(s, c, i) == find_from(s, c, k),
    decreases k - i,
{
    if i < k {
        lemma_find_from_at(s, c, i + 1, k);
    }
}

proof fn lemma_rfind_before_at(s: Seq<char>, c: char, k: int, j: int)
    requires
        0 <= k <= j <= s.len(),
        forall|q: int| k <= q < j ==> s[q] != c,
    ensures
        rfind_before(s, c, j) == rfind_before(s, c, k),
    decreases j - k,
{
    if k < j {
        lemma_rfind_before_at(s, c, k, j - 1);
    }
}

proof fn lemma_find_from_range(s: Seq<char>, c: char, i: int)
    ensures
        find_from(s, c, i) matches Some(k) ==> i <= k < s.len() && s[k] == c,
    decreases s.len() - i,
{
    if 0 <= i < s.len() && s[i] != c {
        lemma_find_from_range(s, c, i + 1);
    }
}

proof fn lemma_rfind_before_range(s: Seq<char>, c: char, j: int)
    ensures
        rfind_before(s, c, j) matches Some(k) ==> 0 <= k < j && s[k] == c,
    decreases j,
{
    if 0 < j <= s.len() && s[j - 1] != c {
        lemma_rfind_before_range(s, c, j - 1);
    }
}

/// The first position of `c` in `v`, from `i` on.
pub(crate) fn find_char_from(v: &Vec<char>, c: char, i: usize) -> (r: Option<usize>)
    requires
        i <= v@.len(),
    ensures
        r matches Some(k) ==> find_from(v@, c, i as int) == Some(k as int) && i <= k < v.len(),
        r is None ==> find_from(v@, c, i as int) is None,
{
    let mut k: usize = i;
    while k < v.len()
        invariant
            i <= k <= v@.len(),
            forall|q: int| i <= q < k ==> v@[q] != c,
        decreases v.len() - k,
    {
        if v[k] == c {
            proof {
                lemma_find_from_at(v@, c, i as int, k as int);
            }
            return Some(k);
        }
        k += 1;
    }
    proof {
        lemma_find_from_at(v@, c, i as int, k as int);
    }
    None
}

/// The last position of `c` in `v`.
pub(crate) fn rfind_char(v: &Vec<char>, c: char) -> (r: Option<usize>)
    ensures
        r matches Some(k) ==> rfind_before(v@, c, v@.len() as int) == Some(k as int) && k < v@.len(),
        r is None ==> rfind_before(v@, c, v@.len() as int) is None,
{
    let mut j: usize = v.len();
    while j > 0
        invariant
            j <= v@.len(),
            forall|q: int| j <= q < v@.len() ==> v@[q] != c,
        decreases j,
    {
        if v[j - 1] == c {
            proof {
                lemma_rfind_before_at(v@, c, j as int, v@.len() as int);
            }
            return Some(j - 1);
        }
        j -= 1;
    }
    proof {
        lemma_rfind_before_at(v@, c, 0, v@.len() as int);
    }
    None
}

/// Where a `/proc/<pid>/stat` text puts its fields after the command
/// name: two characters past the last `)` that follows the first `(`.
pub open spec fn stat_fields_start(s: Seq<char>) -> Option<int> {
    match find_from(s, '(', 0) {
        None => None,
        Some(o) => match rfind_before(s, ')', s.len() as int) {
            Some(c) => if c >= o { Some(c + 2) } else { None },
            None => None,
        },
    }
}

/// Whether a stat text can be cut after its command name: the character
/// right after the closing `)`, where there is one, takes one byte.
pub open spec fn stat_cut_ok(s: Seq<char>) -> bool {
    match stat_fields_start(s) {
        Some(a) => a - 1 < s.len() ==> (s[a - 1] as u32) < 0x80,
        None => true,
    }
}

/// The start time in clock ticks that a `/proc/<pid>/stat` text gives
/// (its 22nd field, the 20th after the state): `None` without a command
/// name in brackets followed by more text; 0 where the field is missing
/// or not a number.
pub open spec fn stat_start_ticks(s: Seq<char>) -> Option<u64> {
    match stat_fields_start(s) {
        None => None,
        Some(a) => if a >= s.len() {
            None
        } else {
            let w = words(s.skip(a));
            Some(if w.len() > 19 { dec64_or_zero(w[19]) } else { 0 })
        },
    }
}

/// The start time in clock ticks that a `/proc/<pid>/stat` text gives.
pub fn parse_stat_start_ticks(stat: &str) -> (r: Option<u64>)
    requires
        stat_cut_ok(stat@),
    ensures
        r == stat_start_ticks(stat@),
{
    let v = chars_of(stat);
    let open = match find_char_from(&v, '(', 0) {
        Some(o) => o,
        None => {
            return None;
        },
    };
    let close = match rfind_char(&v, ')') {
        Some(c) => c,
        None => {
            return None;
        },
    };
    if close < open {
        return None;
    }
    if close >= v.len() - 1 || close + 2 >= v.len() {
        return None;
    }
    let rest = chars_range(&v, close + 2, v.len());
    assert(rest@ =~= stat@.skip(close + 2));
    let w = split_words(&rest);
    if w.len() > 19 {
        let t = match parse_dec_u64(&w[19]) {
            Some(x) => x,
            None => 0,
        };
        Some(t)
    } else {
        Some(0)
    }
}

/// The pieces of a text between the separator `sep`, in order (as
/// `str::split` with one character gives them): one more than the text
/// holds separators.
pub open spec fn split_on(s: Seq<char>, sep: char) -> Seq<Seq<char>>
    decreases s.len(),
{
    if s.len() == 0 {
        seq![Seq::empty()]
    } else {
        let p = split_on(s.drop_last(), sep);
        if s.last() == sep {
            p.push(Seq::empty())
        } else {
            p.update(p.len() - 1, p.last().push(s.last()))
        }
    }
}

proof fn lemma_split_on_nonempty(s: Seq<char>, sep: char)
    ensures
        split_on(s, sep).len() >= 1,
    decreases s.len(),
{
    if s.len() > 0 {
        lemma_split_on_nonempty(s.drop_last(), sep);
    }
}

/// The pieces of a text between separators.
pub(crate) fn split_chars(v: &Vec<char>, sep: char) -> (r: Vec<Vec<char>>)
    ensures
        r@.len() == split_on(v@, sep).len(),
        forall|k: int| 0 <= k < r@.len() ==> r@[k]@ == split_on(v@, sep)[k],
{
    let mut r: Vec<Vec<char>> = Vec::new();
    let mut cur: Vec<char> = Vec::new();
    let mut i: usize = 0;
    while i < v.len()
        invariant
            i <= v@.len(),
            r@.len() + 1 == split_on(v@.take(i as int), sep).len(),
            forall|k: int| 0 <= k < r@.len() ==> r@[k]@ == split_on(v@.take(i as int), sep)[k],
            cur@ == split_on(v@.take(i as int), sep).last(),
        decreases v.len() - i,
    {
        let c = v[i];
        assert(v@.take(i + 1).drop_last() =~= v@.take(i as int));
        proof {
            lemma_split_on_nonempty(v@.take(i as int), sep);
        }
        if c == sep {
            let mut done: Vec<char> = Vec::new();
            std::mem::swap(&mut done, &mut cur);
            r.push(done);
        } else {
            cur.push(c);
        }
        i += 1;
    }
    assert(v@.take(v.len() as int) =~= v@);
    r.push(cur);
    r
}

/// The pieces among the first `n` that are not empty, in order.
pub open spec fn nonempty_pieces(ps: Seq<Seq<char>>, n: int) -> Seq<Seq<char>>
    decreases n,
{
    if n <= 0 {
        Seq::empty()
    } else {
        let prev = nonempty_pieces(ps, n - 1);
        if ps[n - 1].len() > 0 { prev.push(ps[n - 1]) } else { prev }
    }
}

/// The arguments of a `/proc/<pid>/cmdline` text: the non-empty pieces
/// between NUL characters.
pub open spec fn cmdline_args(s: Seq<char>) -> Seq<Seq<char>> {
    nonempty_pieces(split_on(s, '\0'), split_on(s, '\0').len() as int)
}

/// The arguments of a `/proc/<pid>/cmdline` text.
pub fn parse_cmdline(text: &str) -> (r: Vec<String>)
    ensures
        r@.len() == cmdline_args(text@).len(),
        forall|k: int| 0 <= k < r@.len() ==> r@[k]@ == cmdline_args(text@)[k],
{
    let v = chars_of(text);
    let ps = split_chars(&v, '\0');
    let ghost sp = split_on(text@, '\0');
    let mut r: Vec<String> = Vec::new();
    let mut i: usize = 0;
    while i < ps.len()
        invariant
            i <= ps@.len() == sp.len(),
            sp == split_on(text@, '\0'),
            forall|k: int| 0 <= k < ps@.len() ==> ps@[k]@ == sp[k],
            r@.len() == nonempty_pieces(sp, i as int).len(),
            forall|k: int| 0 <= k < r@.len() ==> r@[k]@ == nonempty_pieces(sp, i as int)[k],
        decreases ps.len() - i,
    {
        assert(ps@[i as int]@ == sp[i as int]);
        if ps[i].len() > 0 {
            r.push(string_from_chars(&ps[i]));
        }
        i += 1;
    }
    r
}

/// The socket inode that a descriptor link such as `socket:[1234]`
/// names.
pub open spec fn socket_inode_of(link: Seq<char>) -> Option<u64> {
    if is_prefix("socket:["@, link) && link.len() >= 9 && link.last() == ']' {
        parse_dec(link.subrange(8, link.len() - 1))
    } else {
        None
    }
}

/// The socket inode that a descriptor link names, if it names a socket.
pub fn socket_inode(link: &str) -> (r: Option<u64>)
    ensures
        r == socket_inode_of(link@),
{
    let v = chars_of(link);
    proof {
        reveal_strlit("socket:[");
    }
    if !seq_starts_with(&v, "socket:[") || v.len() < 9 || v[v.len() - 1] != ']' {
        return None;
    }
    let inner = chars_range(&v, 8, v.len() - 1);
    parse_dec_u64(&inner)
}

/// The map from socket inode to the process holding it, as descriptor
/// links list them: each socket link gives its inode the pid it was
/// found under, a later one replacing an earlier one.
pub open spec fn inode_pairs(links: Seq<(u32, Seq<char>)>, n: int) -> Seq<(u64, u32)>
    decreases n,
{
    if n <= 0 {
        Seq::empty()
    } else {
        let prev = inode_pairs(links, n - 1);
        match socket_inode_of(links[n - 1].1) {
            Some(ino) => prev.push((ino, links[n - 1].0)),
            None => prev,
        }
    }
}

/// The pid that the last entry of `inode` holds in the map.
pub open spec fn pid_of_inode(map: Seq<(u64, u32)>, inode: u64) -> Option<u32>
    decreases map.len(),
{
    if map.len() == 0 {
        None
    } else if map.last().0 == inode {
        Some(map.last().1)
    } else {
        pid_of_inode(map.drop_last(), inode)
    }
}

/// The socket map built from `(pid, link)` pairs of descriptor links.
pub fn build_inode_map(links: &Vec<(u32, String)>) -> (r: Vec<(u64, u32)>)
    ensures
        r@ == inode_pairs(links@.map_values(|p: (u32, String)| (p.0, p.1@)), links@.len() as int),
{
    let ghost lv = links@.map_values(|p: (u32, String)| (p.0, p.1@));
    let mut r: Vec<(u64, u32)> = Vec::new();
    let mut i: usize = 0;
    while i < links.len()
        invariant
            i <= links@.len() == lv.len(),
            lv == links@.map_values(|p: (u32, String)| (p.0, p.1@)),
            r@ == inode_pairs(lv, i as int),
        decreases links.len() - i,
    {
        let (pid, link) = &links[i];
        assert(lv[i as int] == (*pid, link@));
        match socket_inode(link.as_str()) {
            Some(ino) => {
                r.push((ino, *pid));
            },
            None => {},
        }
        i += 1;
    }
    r
}

/// The pid that a socket map gives an inode.
pub fn lookup_inode(map: &Vec<(u64, u32)>, inode: u64) -> (r: Option<u32>)
    ensures
        r == pid_of_inode(map@, inode),
{
    let mut j: usize = map.len();
    assert(map@.take(j as int) =~= map@);
    while j > 0
        invariant
            j <= map@.len(),
            pid_of_inode(map@, inode) == pid_of_inode(map@.take(j as int), inode),
        decreases j,
    {
        assert(map@.take(j as int).drop_last() =~= map@.take(j - 1));
        if map[j - 1].0 == inode {
            return Some(map[j - 1].1);
        }
        j -= 1;
    }
    None
}

/// The position of the entry with key `k`.
pub open spec fn key_pos(env: Seq<(Seq<char>, Seq<char>)>, k: Seq<char>) -> Option<int>
    decreases env.len(),
{
    if env.len() == 0 {
        None
    } else if env.last().0 == k {
        Some(env.len() - 1)
    } else {
        key_pos(env.drop_last(), k)
    }
}

/// The entries after `k` is set to `v`: an entry of that key keeps its
/// place and takes the value, otherwise the entry goes at the end.
pub open spec fn env_put(env: Seq<(Seq<char>, Seq<char>)>, k: Seq<char>, v: Seq<char>) -> Seq<(Seq<char>, Seq<char>)> {
    match key_pos(env, k) {
        Some(i) => env.update(i, (k, v)),
        None => env.push((k, v)),
    }
}

/// The key and value that a `KEY=value` entry holds: the text before and
/// after its first `=`.
pub open spec fn env_entry(e: Seq<char>) -> Option<(Seq<char>, Seq<char>)> {
    match find_from(e, '=', 0) {
        Some(i) => Some((e.take(i), e.skip(i + 1))),
        None => None,
    }
}

/// The variables that the first `n` entries set, a later entry of a key
/// replacing the value of an earlier one.
pub open spec fn env_of_entries(es: Seq<Seq<char>>, n: int) -> Seq<(Seq<char>, Seq<char>)>
    decreases n,
{
    if n <= 0 {
        Seq::empty()
    } else {
        let prev = env_of_entries(es, n - 1);
        match env_entry(es[n - 1]) {
            Some(kv) => env_put(prev, kv.0, kv.1),
            None => prev,
        }
    }
}

/// Whether no key occurs twice.
pub open spec fn keys_distinct(env: Seq<(Seq<char>, Seq<char>)>) -> bool {
    forall|i: int, j: int| 0 <= i < j < env.len() ==> (#[trigger] env[i]).0 != (#[trigger] env[j]).0
}

proof fn lemma_key_pos(env: Seq<(Seq<char>, Seq<char>)>, k: Seq<char>)
    ensures
        key_pos(env, k) matches Some(i) ==> 0 <= i < env.len() && env[i].0 == k,
        key_pos(env, k) is None ==> forall|i: int| 0 <= i < env.len() ==> (#[trigger] env[i]).0 != k,
    decreases env.len(),
{
    if env.len() > 0 && env.last().0 != k {
        lemma_key_pos(env.drop_last(), k);
        assert forall|i: int| 0 <= i < env.len() - 1 implies (#[trigger] env[i]).0 == env.drop_last()[i].0 by {}
    }
}

proof fn lemma_env_put_distinct(env: Seq<(Seq<char>, Seq<char>)>, k: Seq<char>, v: Seq<char>)
    requires
        keys_distinct(env),
    ensures
        keys_distinct(env_put(env, k, v)),
{
    lemma_key_pos(env, k);
}

/// The variables read from an environment text hold each key once.
pub proof fn lemma_environ_keys_distinct(es: Seq<Seq<char>>, n: int)
    ensures
        keys_distinct(env_of_entries(es, n)),
    decreases n,
{
    if n > 0 {
        lemma_environ_keys_distinct(es, n - 1);
        match env_entry(es[n - 1]) {
            Some(kv) => lemma_env_put_distinct(env_of_entries(es, n - 1), kv.0, kv.1),
            None => {},
        }
    }
}

/// The variables of a `/proc/<pid>/environ` text: its NUL-separated
/// `KEY=value` entries.
pub open spec fn environ_vars(s: Seq<char>) -> Seq<(Seq<char>, Seq<char>)> {
    env_of_entries(split_on(s, '\0'), split_on(s, '\0').len() as int)
}

/// The plain contents of a list of string pairs.
pub open spec fn pairs_view(v: Seq<(String, String)>) -> Seq<(Seq<char>, Seq<char>)> {
    v.map_values(|p: (String, String)| (p.0@, p.1@))
}

fn find_key(env: &Vec<(String, String)>, k: &String) -> (r: Option<usize>)
    ensures
        r matches Some(i) ==> key_pos(pairs_view(env@), k@) == Some(i as int) && i < env@.len(),
        r is None ==> key_pos(pairs_view(env@), k@) is None,
{
    let ghost ev = pairs_view(env@);
    let mut j: usize = env.len();
    assert(ev.take(j as int) =~= ev);
    while j > 0
        invariant
            j <= env@.len() == ev.len(),
            ev == pairs_view(env@),
            key_pos(ev, k@) == key_pos(ev.take(j as int), k@),
        decreases j,
    {
        assert(ev.take(j as int).drop_last() =~= ev.take(j - 1));
        assert(ev[j - 1] == (env@[j - 1].0@, env@[j - 1].1@));
        if str_eq(env[j - 1].0.as_str(), k.as_str()) {
            return Some(j - 1);
        }
        j -= 1;
    }
    None
}

/// The variables of a `/proc/<pid>/environ` text, each key once.
pub fn parse_environ(text: &str) -> (r: Vec<(String, String)>)
    ensures
        pairs_view(r@) == environ_vars(text@),
{
    let v = chars_of(text);
    let es = split_chars(&v, '\0');
    let ghost sp = split_on(text@, '\0');
    let mut r: Vec<(String, String)> = Vec::new();
    let mut i: usize = 0;
    while i < es.len()
        invariant
            i <= es@.len() == sp.len(),
            sp == split_on(text@, '\0'),
            forall|k: int| 0 <= k < es@.len() ==> es@[k]@ == sp[k],
            pairs_view(r@) == env_of_entries(sp, i as int),
        decreases es.len() - i,
    {
        let e = &es[i];
        assert(e@ == sp[i as int]);
        match find_char_from(e, '=', 0) {
            Some(eq) => {
                assert(eq < e.len());
                let key = string_from_chars(&chars_range(e, 0, eq));
                let val = string_from_chars(&chars_range(e, eq + 1, e.len()));
                assert(key@ =~= e@.take(eq as int));
                assert(val@ =~= e@.skip(eq + 1));
                let ghost before = pairs_view(r@);
                match find_key(&r, &key) {
                    Some(j) => {
                        r.set(j, (key, val));
                        assert(pairs_view(r@) =~= before.update(j as int, (key@, val@)));
                    },
                    None => {
                        r.push((key, val));
                        assert(pairs_view(r@) =~= before.push((key@, val@)));
                    },
                }
            },
            None => {},
        }
        i += 1;
    }
    r
}

/// The user name that a line of `/etc/passwd` gives `uid`: its first
/// field, where its third field is that number.
pub open spec fn passwd_user(line: Seq<char>, uid: u32) -> Option<Seq<char>> {
    let p = split_on(line, ':');
    if p.len() >= 3 && parse_dec32(p[2]) == Some(uid) { Some(p[0]) } else { None }
}

/// The user name that the first line from `i` on that names `uid` gives.
pub open spec fn passwd_lookup(lines: Seq<Seq<char>>, uid: u32, i: int) -> Option<Seq<char>>
    decreases lines.len() - i,
{
    if i < 0 || i >= lines.len() {
        None
    } else {
        match passwd_user(lines[i], uid) {
            Some(n) => Some(n),
            None => passwd_lookup(lines, uid, i + 1),
        }
    }
}

/// The name under which a user is shown: from the passwd text where one
/// of its lines names the uid, else `uid:` and the number.
pub open spec fn user_name(passwd: Option<Seq<char>>, uid: u32) -> Seq<char> {
    let fallback = "uid:"@ + decimal(uid as nat);
    match passwd {
        Some(t) => match passwd_lookup(text_lines(t), uid, 0) {
            Some(n) => n,
            None => fallback,
        },
        None => fallback,
    }
}

/// The name under which a user is shown, given the text of
/// `/etc/passwd` where it could be read.
pub fn lookup_uid(passwd: Option<&str>, uid: u32) -> (r: String)
    ensures
        r@ == user_name(match passwd { Some(t) => Some(t@), None => None }, uid),
{
    if let Some(t) = passwd {
        let lines = lines_of(t);
        let ghost tl = text_lines(t@);
        let mut i: usize = 0;
        while i < lines.len()
            invariant
                i <= lines@.len() == tl.len(),
                tl == text_lines(t@),
                passwd == Some(t),
                forall|k: int| 0 <= k < lines@.len() ==> lines@[k]@ == tl[k],
                passwd_lookup(tl, uid, 0) == passwd_lookup(tl, uid, i as int),
            decreases lines.len() - i,
        {
            let p = split_chars(&lines[i], ':');
            assert(lines@[i as int]@ == tl[i as int]);
            let ghost sp = split_on(tl[i as int], ':');
            if p.len() >= 3 {
                assert(p@[0]@ == sp[0]);
                assert(p@[2]@ == sp[2]);
                if let Some(x) = parse_dec_u32(&p[2]) {
                    if x == uid {
                        let n = string_from_chars(&p[0]);
                        assert(passwd_user(tl[i as int], uid) == Some(sp[0]));
                        assert(passwd_lookup(tl, uid, i as int) == Some(sp[0]));
                        assert(n@ == sp[0]);
                        assert(n@ == user_name(Some(t@), uid));
                        return n;
                    }
                }
            }
            i += 1;
        }
    }
    let mut r = owned("uid:");
    push_decimal(&mut r, uid as u64);
    r
}

/// The namespace inode that a link such as `net:[4026531840]` names:
/// the number between the first `[` and the last `]`.
pub open spec fn ns_inode_of(link: Seq<char>) -> Option<u64> {
    match (find_from(link, '[', 0), rfind_before(link, ']', link.len() as int)) {
        (Some(o), Some(c)) => parse_dec(link.subrange(o + 1, c)),
        _ => None,
    }
}

/// Whether the last `]` of a namespace link, if any, follows its first
/// `[`, if any.
pub open spec fn ns_link_ok(link: Seq<char>) -> bool {
    match (find_from(link, '[', 0), rfind_before(link, ']', link.len() as int)) {
        (Some(o), Some(c)) => o < c,
        _ => true,
    }
}

/// The namespace inode that a namespace link names.
pub fn ns_inode(link: &str) -> (r: Option<u64>)
    requires
        ns_link_ok(link@),
    ensures
        r == ns_inode_of(link@),
{
    let v = chars_of(link);
    let o = match find_char_from(&v, '[', 0) {
        Some(o) => o,
        None => {
            return None;
        },
    };
    let c = match rfind_char(&v, ']') {
        Some(c) => c,
        None => {
            return None;
        },
    };
    assert(o < c);
    let inner = chars_range(&v, o + 1, c);
    parse_dec_u64(&inner)
}

/// How a kernel module is loaded, as `/proc/modules` gives it.
#[derive(Debug, Clone, Copy, PartialEq, Eq, Hash, Structural)]
pub enum ModuleState {
    Live,
    Coming,
    Going,
    Unknown,
}

/// Where a module record was read from.
#[derive(Debug, Clone, Copy, PartialEq, Eq, Hash, Structural)]
pub enum ModuleSource {
    ProcModules,
}

/// A loaded kernel module.
pub struct KernelModuleInfo {
    pub name: String,
    pub size: u64,
    pub ref_count: u32,
    pub load_address: u64,
    pub state: ModuleState,
    pub version: Option<String>,
    pub license: Option<String>,
    pub hash: Option<String>,
    pub signature_valid: Option<bool>,
    pub source: ModuleSource,
}

/// The plain contents of a module record read from `/proc/modules`.
pub struct ModuleModel {
    pub name: Seq<char>,
    pub size: u64,
    pub ref_count: u32,
    pub load_address: u64,
    pub state: ModuleState,
}

impl KernelModuleInfo {
    /// Whether the record is one read from `/proc/modules` with these
    /// contents: no version, license, hash or signature.
    pub open spec fn read_as(&self, m: ModuleModel) -> bool {
        &&& self.name@ == m.name
        &&& self.size == m.size
        &&& self.ref_count == m.ref_count
        &&& self.load_address == m.load_address
        &&& self.state == m.state
        &&& self.version is None
        &&& self.license is None
        &&& self.hash is None
        &&& self.signature_valid is None
        &&& self.source == ModuleSource::ProcModules
    }
}

/// The state that the fifth field of a module line names.
pub open spec fn module_state_of(t: Seq<char>) -> ModuleState {
    if t == "Live"@ {
        ModuleState::Live
    } else if t == "Coming"@ {
        ModuleState::Coming
    } else if t == "Going"@ {
        ModuleState::Going
    } else {
        ModuleState::Unknown
    }
}

/// The text without any number of leading `0x` (as
/// `str::trim_start_matches("0x")` gives it).
pub open spec fn strip_0x(s: Seq<char>) -> Seq<char>
    decreases s.len(),
{
    if s.len() >= 2 && s[0] == '0' && s[1] == 'x' { strip_0x(s.skip(2)) } else { s }
}

/// A hexadecimal 64-bit number, or 0 where the text writes none.
pub open spec fn hex64_or_zero(t: Seq<char>) -> u64 {
    match parse_hex(t) {
        Some(v) => v,
        None => 0,
    }
}

/// The module that a line of `/proc/modules` describes, if it has at
/// least six fields: name, size, reference count, (ignored), state and
/// load address; a number that cannot be read counts 0.
pub open spec fn module_of_line(line: Seq<char>) -> Option<ModuleModel> {
    let w = words(line);
    if w.len() < 6 {
        None
    } else {
        Some(ModuleModel {
            name: w[0],
            size: dec64_or_zero(w[1]),
            ref_count: dec32_or_zero(w[2]),
            load_address: hex64_or_zero(strip_0x(w[3])),
            state: module_state_of(w[4]),
        })
    }
}

fn strip_0x_of(v: &Vec<char>) -> (r: Vec<char>)
    ensures
        r@ == strip_0x(v@),
{
    let mut i: usize = 0;
    assert(v@.skip(0) =~= v@);
    while i < v.len() && v.len() - i >= 2 && v[i] == '0' && v[i + 1] == 'x'
        invariant
            i <= v@.len(),
            strip_0x(v@) == strip_0x(v@.skip(i as int)),
        decreases v.len() - i,
    {
        assert(v@.skip(i as int).skip(2) =~= v@.skip(i + 2));
        i += 2;
    }
    let r = chars_range(v, i, v.len());
    assert(r@ =~= v@.skip(i as int));
    r
}

/// The module that a line of `/proc/modules` describes.
pub fn parse_module_line(line: &str) -> (r: Option<KernelModuleInfo>)
    ensures
        r matches Some(m) ==> module_of_line(line@) matches Some(mm) && m.read_as(mm),
        r is None ==> module_of_line(line@) is None,
{
    let v = chars_of(line);
    let w = split_words(&v);
    if w.len() < 6 {
        return None;
    }
    let size = match parse_dec_u64(&w[1]) {
        Some(x) => x,
        None => 0,
    };
    let load_address = match parse_hex_u64(&strip_0x_of(&w[3])) {
        Some(x) => x,
        None => 0,
    };
    let state = if chars_eq(&w[4], "Live") {
        ModuleState::Live
    } else if chars_eq(&w[4], "Coming") {
        ModuleState::Coming
    } else if chars_eq(&w[4], "Going") {
        ModuleState::Going
    } else {
        ModuleState::Unknown
    };
    Some(KernelModuleInfo {
        name: string_from_chars(&w[0]),
        size,
        ref_count: dec32_or_zero_of(&w[2]),
        load_address,
        state,
        version: None,
        license: None,
        hash: None,
        signature_valid: None,
        source: ModuleSource::ProcModules,
    })
}

/// The number of bytes that UTF-8 takes to write a character.
pub open spec fn char_utf8_len(c: char) -> nat {
    let u = c as u32;
    if u < 0x80 { 1 } else if u < 0x800 { 2 } else if u < 0x10000 { 3 } else { 4 }
}

/// The number of bytes that UTF-8 takes to write a text (its `str::len`).
pub open spec fn utf8_len(s: Seq<char>) -> nat
    decreases s.len(),
{
    if s.len() == 0 { 0 } else { utf8_len(s.drop_last()) + char_utf8_len(s.last()) }
}

proof fn lemma_utf8_len_grows(s: Seq<char>, j: int, k: int)
    requires
        0 <= j <= k <= s.len(),
    ensures
        utf8_len(s.take(j)) + (k - j) <= utf8_len(s.take(k)),
    decreases k - j,
{
    if j < k {
        lemma_utf8_len_grows(s, j, k - 1);
        assert(s.take(k).drop_last() =~= s.take(k - 1));
    }
}

fn char_bytes(c: char) -> (n: usize)
    ensures
        n == char_utf8_len(c),
{
    let u = c as u32;
    if u < 0x80 { 1 } else if u < 0x800 { 2 } else if u < 0x10000 { 3 } else { 4 }
}

/// Whether a text takes exactly `n` bytes in UTF-8.
pub(crate) fn utf8_len_is(v: &Vec<char>, n: usize) -> (b: bool)
    ensures
        b == (utf8_len(v@) == n),
{
    let mut acc: usize = 0;
    let mut i: usize = 0;
    while i < v.len()
        invariant
            i <= v@.len(),
            acc <= n,
            acc == utf8_len(v@.take(i as int)),
        decreases v.len() - i,
    {
        assert(v@.take(i + 1).drop_last() =~= v@.take(i as int));
        let c = char_bytes(v[i]);
        if c > n - acc {
            proof {
                lemma_utf8_len_grows(v@, i + 1, v@.len() as int);
                assert(v@.take(v@.len() as int) =~= v@);
            }
            return false;
        }
        acc = acc + c;
        i += 1;
    }
    assert(v@.take(v@.len() as int) =~= v@);
    acc == n
}

/// Two lower-case hexadecimal digits of a byte (`{:02x}`).
pub open spec fn hex2(b: nat) -> Seq<char> {
    seq![hex_char(b / 16), hex_char(b % 16)]
}

/// The two groups of four hexadecimal digits that a little-endian
/// 32-bit word of an IPv6 address gives.
pub open spec fn word_groups(w: u32) -> Seq<char> {
    hex2((w % 256) as nat) + hex2(((w / 256) % 256) as nat) + ":"@
        + hex2(((w / 65536) % 256) as nat) + hex2((w / 16777216) as nat)
}

/// The text of an IPv6 address that `/proc/net` writes as four
/// little-endian words.
pub open spec fn ipv6_text(a: u32, b: u32, c: u32, d: u32) -> Seq<char> {
    word_groups(a) + ":"@ + word_groups(b) + ":"@ + word_groups(c) + ":"@ + word_groups(d)
}

/// The IPv6 address that a 32-digit hexadecimal field of `/proc/net`
/// holds, if each of its four 8-digit words is a number.
pub open spec fn ipv6_of(s: Seq<char>) -> Option<Seq<char>> {
    if utf8_len(s) != 32 || s.len() != 32 {
        None
    } else {
        match (parse_hex32(s.subrange(0, 8)), parse_hex32(s.subrange(8, 16)), parse_hex32(s.subrange(16, 24)), parse_hex32(s.subrange(24, 32))) {
            (Some(a), Some(b), Some(c), Some(d)) => Some(ipv6_text(a, b, c, d)),
            _ => None,
        }
    }
}

/// Whether the first `k` characters of `t` take exactly eight bytes.
pub open spec fn eight_bytes_at(t: Seq<char>, k: int) -> bool {
    0 <= k <= t.len() && utf8_len(t.take(k)) == 8
}

/// Whether reading the words of a 32-byte IPv6 field from word `i` on
/// would cut a character: a word does not end on a character boundary
/// before a word fails to read.
pub open spec fn ipv6_cut_from(s: Seq<char>, i: int) -> bool
    decreases 4 - i,
{
    if i < 0 || i >= 4 {
        false
    } else {
        let t = s.skip(8 * i);
        (!exists|k: int| #[trigger] eight_bytes_at(t, k)) || (s.len() >= 8 * i + 8 && parse_hex32(s.subrange(8 * i, 8 * i + 8)) is Some
            && ipv6_cut_from(s, i + 1))
    }
}

/// Whether reading an IPv6 field would cut a character.
pub open spec fn ipv6_cut(s: Seq<char>) -> bool {
    utf8_len(s) == 32 && ipv6_cut_from(s, 0)
}

fn push_hex2(s: &mut String, b: u32)
    requires
        b < 256,
    ensures
        final(s)@ == old(s)@ + hex2(b as nat),
{
    push_char(s, hex_digit_char((b / 16) as u64));
    push_char(s, hex_digit_char((b % 16) as u64));
    assert(final(s)@ =~= old(s)@ + hex2(b as nat));
}

fn push_word_groups(s: &mut String, w: u32)
    ensures
        final(s)@ == old(s)@ + word_groups(w),
{
    push_hex2(s, w % 256);
    push_hex2(s, (w / 256) % 256);
    push_char(s, ':');
    push_hex2(s, (w / 65536) % 256);
    push_hex2(s, w / 16777216);
    proof {
        reveal_strlit(":");
    }
    assert(final(s)@ =~= old(s)@ + word_groups(w));
}

fn hex32_of(v: &Vec<char>, start: usize) -> (r: Option<u32>)
    requires
        start + 8 <= v.len(),
    ensures
        r == parse_hex32(v@.subrange(start as int, start + 8)),
{
    let c = chars_range(v, start, start + 8);
    match parse_hex_u64(&c) {
        Some(x) => if x <= 0xffff_ffff { Some(x as u32) } else { None },
        None => None,
    }
}

/// The IPv6 address that a 32-digit hexadecimal field of `/proc/net`
/// holds.
pub fn parse_hex_ipv6(hex_str: &str) -> (r: Option<String>)
    requires
        !ipv6_cut(hex_str@),
    ensures
        r matches Some(t) ==> ipv6_of(hex_str@) == Some(t@),
        r is None ==> ipv6_of(hex_str@) is None,
{
    let v = chars_of(hex_str);
    if !utf8_len_is(&v, 32) || v.len() != 32 {
        return None;
    }
    let a = match hex32_of(&v, 0) { Some(x) => x, None => { return None; } };
    let b = match hex32_of(&v, 8) { Some(x) => x, None => { return None; } };
    let c = match hex32_of(&v, 16) { Some(x) => x, None => { return None; } };
    let d = match hex32_of(&v, 24) { Some(x) => x, None => { return None; } };
    let mut s = String::new();
    push_word_groups(&mut s, a);
    push_char(&mut s, ':');
    push_word_groups(&mut s, b);
    push_char(&mut s, ':');
    push_word_groups(&mut s, c);
    push_char(&mut s, ':');
    push_word_groups(&mut s, d);
    proof {
        reveal_strlit(":");
    }
    assert(s@ =~= ipv6_text(a, b, c, d));
    Some(s)
}

/// The 16-bit number a hexadecimal text writes (`u16::from_str_radix`
/// with radix 16).
pub open spec fn parse_hex16(s: Seq<char>) -> Option<u16> {
    match parse_hex(s) {
        Some(v) => if v <= u16::MAX { Some(v as u16) } else { None },
        None => None,
    }
}

/// The address and port that an `ADDR:PORT` field of `/proc/net` holds:
/// an 8-digit IPv4 or 32-digit IPv6 address in hexadecimal, a colon, and
/// a hexadecimal port.
pub open spec fn addr_port_of(s: Seq<char>) -> Option<(Seq<char>, u16)> {
    match find_from(s, ':', 0) {
        None => None,
        Some(i) => {
            let ip = s.take(i);
            let port = s.skip(i + 1);
            let ipt = if utf8_len(ip) == 8 {
                match parse_hex32(ip) {
                    Some(v) => Some(dotted(v)),
                    None => None,
                }
            } else if utf8_len(ip) == 32 {
                ipv6_of(ip)
            } else {
                None
            };
            match (ipt, parse_hex16(port)) {
                (Some(t), Some(p)) => Some((t, p)),
                _ => None,
            }
        },
    }
}

/// Whether reading an `ADDR:PORT` field would cut a character of its
/// IPv6 address.
pub open spec fn addr_cut(s: Seq<char>) -> bool {
    match find_from(s, ':', 0) {
        Some(i) => utf8_len(s.take(i)) == 32 && ipv6_cut(s.take(i)),
        None => false,
    }
}

/// The address and port that an `ADDR:PORT` field of `/proc/net` holds.
pub fn parse_addr_port(addr: &Vec<char>) -> (r: Option<(String, u16)>)
    requires
        !addr_cut(addr@),
    ensures
        r matches Some(p) ==> addr_port_of(addr@) == Some((p.0@, p.1)),
        r is None ==> addr_port_of(addr@) is None,
{
    let i = match find_char_from(addr, ':', 0) {
        Some(i) => i,
        None => {
            return None;
        },
    };
    let ip = chars_range(addr, 0, i);
    let port = chars_range(addr, i + 1, addr.len());
    assert(ip@ =~= addr@.take(i as int));
    assert(port@ =~= addr@.skip(i + 1));
    let ip_text = if utf8_len_is(&ip, 8) {
        let t = string_from_chars(&ip);
        parse_hex_ip(t.as_str())
    } else if utf8_len_is(&ip, 32) {
        let t = string_from_chars(&ip);
        parse_hex_ipv6(t.as_str())
    } else {
        None
    };
    let ip_text = match ip_text {
        Some(t) => t,
        None => {
            return None;
        },
    };
    let p = match parse_hex_u64(&port) {
        Some(x) => if x <= 0xffff { x as u16 } else { return None; },
        None => {
            return None;
        },
    };
    Some((ip_text, p))
}

/// The transport protocol of a connection, by the `/proc/net` file that
/// lists it.
#[derive(Debug, Clone, Copy, PartialEq, Eq, Hash, Structural)]
pub enum Protocol {
    Tcp,
    Tcp6,
    Udp,
    Udp6,
}

impl Protocol {
    /// The variant's name.
    pub open spec fn variant_name(self) -> Seq<char> {
        match self {
            Protocol::Tcp => "Tcp"@,
            Protocol::Tcp6 => "Tcp6"@,
            Protocol::Udp => "Udp"@,
            Protocol::Udp6 => "Udp6"@,
        }
    }

    /// The variant's name, as `{:?}` writes it.
    pub fn variant_str(&self) -> (s: &'static str)
        ensures
            s@ == self.variant_name(),
    {
        match self {
            Protocol::Tcp => "Tcp",
            Protocol::Tcp6 => "Tcp6",
            Protocol::Udp => "Udp",
            Protocol::Udp6 => "Udp6",
        }
    }
}

/// An address and port.
pub struct SocketAddr {
    pub ip: String,
    pub port: u16,
}

/// A network connection of the host.
pub struct NetworkConnection {
    pub local_addr: SocketAddr,
    pub remote_addr: Option<SocketAddr>,
    pub protocol: Protocol,
    pub state: ConnectionState,
    pub pid: Option<u32>,
    pub inode: u64,
    pub uid: u32,
    pub process_name: Option<String>,
    pub process_hash: Option<String>,
}

/// The plain contents of a [`NetworkConnection`].
pub struct ConnectionModel {
    pub local: (Seq<char>, u16),
    pub remote: Option<(Seq<char>, u16)>,
    pub protocol: Protocol,
    pub state: ConnectionState,
    pub pid: Option<u32>,
    pub inode: u64,
    pub uid: u32,
    pub process_name: Option<Seq<char>>,
    pub process_hash: Option<Seq<char>>,
}

/// The plain contents of an optional string.
pub open spec fn opt_text(o: Option<String>) -> Option<Seq<char>> {
    match o {
        Some(s) => Some(s@),
        None => None,
    }
}

impl View for NetworkConnection {
    type V = ConnectionModel;

    open spec fn view(&self) -> ConnectionModel {
        ConnectionModel {
            local: (self.local_addr.ip@, self.local_addr.port),
            remote: match self.remote_addr {
                Some(a) => Some((a.ip@, a.port)),
                None => None,
            },
            protocol: self.protocol,
            state: self.state,
            pid: self.pid,
            inode: self.inode,
            uid: self.uid,
            process_name: opt_text(self.process_name),
            process_hash: opt_text(self.process_hash),
        }
    }
}

/// The connection that a line of a `/proc/net` table describes, if it
/// has at least ten fields and its addresses, uid (8th field) and inode
/// (10th field) can be read; its process is the one the socket map gives
/// the inode, and its process name is left for the caller to read.
pub open spec fn connection_of_line(line: Seq<char>, protocol: Protocol, map: Seq<(u64, u32)>) -> Option<ConnectionModel> {
    let w = words(line);
    if w.len() < 10 {
        None
    } else {
        match (parse_dec32(w[7]), parse_dec(w[9]), addr_port_of(w[1]), addr_port_of(w[2])) {
            (Some(uid), Some(inode), Some(l), Some(r)) => Some(ConnectionModel {
                local: l,
                remote: Some(r),
                protocol,
                state: conn_state_of(w[3]),
                pid: pid_of_inode(map, inode),
                inode,
                uid,
                process_name: None,
                process_hash: None,
            }),
            _ => None,
        }
    }
}

/// Whether reading a line of a `/proc/net` table would cut a character
/// of an IPv6 address: an address field is read only once the uid and
/// inode are, and the remote one only once the local one is.
pub open spec fn net_line_cut(line: Seq<char>) -> bool {
    let w = words(line);
    &&& w.len() >= 10
    &&& parse_dec32(w[7]) is Some
    &&& parse_dec(w[9]) is Some
    &&& (addr_cut(w[1]) || (addr_port_of(w[1]) is Some && addr_cut(w[2])))
}

/// The connection that a line of a `/proc/net` table describes.
pub fn parse_net_line(line: &str, protocol: Protocol, map: &Vec<(u64, u32)>) -> (r: Option<NetworkConnection>)
    requires
        !net_line_cut(line@),
    ensures
        r matches Some(c) ==> connection_of_line(line@, protocol, map@) == Some(c@),
        r is None ==> connection_of_line(line@, protocol, map@) is None,
{
    let v = chars_of(line);
    let w = split_words(&v);
    if w.len() < 10 {
        return None;
    }
    let ghost ws = words(line@);
    assert(w@[1]@ == ws[1]);
    assert(w@[2]@ == ws[2]);
    assert(w@[3]@ == ws[3]);
    assert(w@[7]@ == ws[7]);
    assert(w@[9]@ == ws[9]);
    let uid = match parse_dec_u32(&w[7]) {
        Some(u) => u,
        None => {
            return None;
        },
    };
    let inode = match parse_dec_u64(&w[9]) {
        Some(n) => n,
        None => {
            return None;
        },
    };
    let (local_ip, local_port) = match parse_addr_port(&w[1]) {
        Some(a) => a,
        None => {
            return None;
        },
    };
    let (remote_ip, remote_port) = match parse_addr_port(&w[2]) {
        Some(a) => a,
        None => {
            return None;
        },
    };
    let state_text = string_from_chars(&w[3]);
    let state = parse_conn_state(state_text.as_str());
    let pid = lookup_inode(map, inode);
    let c = NetworkConnection {
        local_addr: SocketAddr { ip: local_ip, port: local_port },
        remote_addr: Some(SocketAddr { ip: remote_ip, port: remote_port }),
        protocol,
        state,
        pid,
        inode,
        uid,
        process_name: None,
        process_hash: None,
    };
    assert(c@ == connection_of_line(line@, protocol, map@).unwrap());
    Some(c)
}

} // verus!
