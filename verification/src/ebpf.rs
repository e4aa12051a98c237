use vstd::prelude::*;
use crate::text::{chars_of, owned, push_str, string_from_chars};

use crate::telemetry::{ProviderInfo, ProviderStatus, TelemetryEvent, TelemetryEventType, TelemetryModel};
use crate::text::{decimal, push_decimal};
use crate::value::{store, DataMap, Value, ValueModel};

verus! {

/// A failure of the eBPF engine, with its message.
#[derive(Debug)]
pub enum EbpfError {
    NotAvailable(String),
    Config(String),
    Program(String),
    MapAccess(String),
    Syscall(String),
}

impl EbpfError {
    /// The text of the error: what failed and the message.
    pub open spec fn text(self) -> Seq<char> {
        match self {
            EbpfError::NotAvailable(m) => "eBPF not available: "@ + m@,
            EbpfError::Config(m) => "eBPF configuration error: "@ + m@,
            EbpfError::Program(m) => "eBPF program error: "@ + m@,
            EbpfError::MapAccess(m) => "eBPF map error: "@ + m@,
            EbpfError::Syscall(m) => "eBPF syscall error: "@ + m@,
        }
    }

    /// The text of the error: what failed and the message.
    pub fn message(&self) -> (s: String)
        ensures
            s@ == self.text(),
    {
        let (prefix, m) = match self {
            EbpfError::NotAvailable(m) => ("eBPF not available: ", m),
            EbpfError::Config(m) => ("eBPF configuration error: ", m),
            EbpfError::Program(m) => ("eBPF program error: ", m),
            EbpfError::MapAccess(m) => ("eBPF map error: ", m),
            EbpfError::Syscall(m) => ("eBPF syscall error: ", m),
        };
        let mut s = owned(prefix);
        push_str(&mut s, m.as_str());
        s
    }
}

/// How an eBPF program hooks into the kernel.
#[derive(Debug, Clone, Copy, PartialEq, Eq, Structural)]
pub enum EbpfProgramType {
    Tracepoint,
    Kprobe,
    Xdp,
    PerfEvent,
}

impl EbpfProgramType {
    /// The variant's name as written in the source.
    pub open spec fn variant_name(self) -> Seq<char> {
        match self {
            EbpfProgramType::Tracepoint => "Tracepoint"@,
            EbpfProgramType::Kprobe => "Kprobe"@,
            EbpfProgramType::Xdp => "Xdp"@,
            EbpfProgramType::PerfEvent => "PerfEvent"@,
        }
    }

    /// The variant's name as written in the source.
    pub fn variant_str(&self) -> (s: &'static str)
        ensures
            s@ == self.variant_name(),
    {
        match self {
            EbpfProgramType::Tracepoint => "Tracepoint",
            EbpfProgramType::Kprobe => "Kprobe",
            EbpfProgramType::Xdp => "Xdp",
            EbpfProgramType::PerfEvent => "PerfEvent",
        }
    }
}

/// A program to load: its name in the object file, its kind and where it
/// attaches.
#[derive(Debug)]
pub struct EbpfProgramDef {
    pub name: String,
    pub program_type: EbpfProgramType,
    pub attach_point: String,
}

/// The mathematical content of an [`EbpfProgramDef`].
pub struct ProgramDefModel {
    pub name: Seq<char>,
    pub program_type: EbpfProgramType,
    pub attach_point: Seq<char>,
}

impl View for EbpfProgramDef {
    type V = ProgramDefModel;

    open spec fn view(&self) -> ProgramDefModel {
        ProgramDefModel { name: self.name@, program_type: self.program_type, attach_point: self.attach_point@ }
    }
}

/// The views of a sequence of program definitions.
pub open spec fn defs_view(v: Seq<EbpfProgramDef>) -> Seq<ProgramDefModel> {
    Seq::new(v.len(), |i: int| v[i]@)
}

/// The settings of the eBPF engine.
#[derive(Debug)]
pub struct EbpfConfig {
    pub map_size: u32,
    pub perf_buffer_pages: u32,
    pub max_events_per_second: u32,
    pub programs: Vec<EbpfProgramDef>,
}

/// A program definition as the built-in list writes it.
pub open spec fn def_model(name: Seq<char>, program_type: EbpfProgramType, attach_point: Seq<char>) -> ProgramDefModel {
    ProgramDefModel { name, program_type, attach_point }
}

/// The built-in programs: process exec, exit and fork tracepoints, and
/// kprobes on binary checks, module loading and socket connections.
pub open spec fn default_program_defs() -> Seq<ProgramDefModel> {
    seq![
        def_model("trace_exec"@, EbpfProgramType::Tracepoint, "sched:sched_process_exec"@),
        def_model("trace_exit"@, EbpfProgramType::Tracepoint, "sched:sched_process_exit"@),
        def_model("trace_fork"@, EbpfProgramType::Tracepoint, "sched:sched_process_fork"@),
        def_model("kprobe_security_bprm_check"@, EbpfProgramType::Kprobe, "security_bprm_check"@),
        def_model("kprobe_do_init_module"@, EbpfProgramType::Kprobe, "do_init_module"@),
        def_model("kprobe_security_socket_connect"@, EbpfProgramType::Kprobe, "security_socket_connect"@),
    ]
}

fn def(name: &str, program_type: EbpfProgramType, attach_point: &str) -> (d: EbpfProgramDef)
    ensures
        d@ == def_model(name@, program_type, attach_point@),
{
    EbpfProgramDef { name: owned(name), program_type, attach_point: owned(attach_point) }
}

/// The built-in programs.
pub fn default_programs() -> (r: Vec<EbpfProgramDef>)
    ensures
        defs_view(r@) == default_program_defs(),
{
    let mut r: Vec<EbpfProgramDef> = Vec::new();
    r.push(def("trace_exec", EbpfProgramType::Tracepoint, "sched:sched_process_exec"));
    r.push(def("trace_exit", EbpfProgramType::Tracepoint, "sched:sched_process_exit"));
    r.push(def("trace_fork", EbpfProgramType::Tracepoint, "sched:sched_process_fork"));
    r.push(def("kprobe_security_bprm_check", EbpfProgramType::Kprobe, "security_bprm_check"));
    r.push(def("kprobe_do_init_module", EbpfProgramType::Kprobe, "do_init_module"));
    r.push(def("kprobe_security_socket_connect", EbpfProgramType::Kprobe, "security_socket_connect"));
    assert(defs_view(r@) =~= default_program_defs());
    r
}

impl Default for EbpfConfig {
    /// A map of 1024 entries, 64 perf-buffer pages, at most 10000 events a
    /// second, and the built-in programs.
    fn default() -> (c: EbpfConfig)
        ensures
            c.map_size == 1024,
            c.perf_buffer_pages == 64,
            c.max_events_per_second == 10000,
            defs_view(c.programs@) == default_program_defs(),
    {
        EbpfConfig { map_size: 1024, perf_buffer_pages: 64, max_events_per_second: 10000, programs: default_programs() }
    }
}

/// Counters of the eBPF engine.
#[derive(Debug, Clone, Copy, PartialEq, Eq, Structural)]
pub struct EbpfStats {
    pub events_received: u64,
    pub events_dropped: u64,
    pub maps_active: u32,
    pub programs_loaded: u32,
    pub programs_failed: u32,
    pub ring_buffer_size: u32,
}

/// What the engine reports of one configured program.
#[derive(Debug)]
pub struct EbpfProgramInfo {
    pub name: String,
    pub type_str: String,
    pub attached: bool,
    pub id: u32,
}

/// What the running kernel lets the agent do.
#[derive(Debug)]
pub struct KernelCapabilities {
    pub has_bpf: bool,
    pub has_sys_admin: bool,
    pub has_perf_event: bool,
    pub kernel_version: String,
    pub btf_available: bool,
}

/// The capability bit numbers the engine checks.
pub const CAP_SYS_ADMIN: i32 = 21;
pub const CAP_PERFMON: i32 = 38;
pub const CAP_BPF: i32 = 39;

/// Whether capability `cap` is set in the two 32-bit words of an effective
/// capability set, lowest bits first.
pub open spec fn cap_set(effective: Seq<u32>, cap: i32) -> bool {
    0 <= cap < 64 && (effective[cap / 32] >> ((cap % 32) as u32)) & 1 == 1
}

/// Whether capability `cap` is set in the effective set that the kernel
/// reported; a negative or too large number is never set.
pub fn cap_effective_in(effective: [u32; 2], cap: i32) -> (b: bool)
    ensures
        b == cap_set(effective@, cap),
{
    if cap < 0 || cap >= 64 {
        return false;
    }
    let idx: usize = (cap / 32) as usize;
    let shift: u32 = (cap % 32) as u32;
    let word = effective[idx];
    let bit: u32 = 1u32 << shift;
    let r = (word & bit) != 0;
    assert(((word & (1u32 << shift)) != 0) == ((word >> shift) & 1 == 1)) by (bit_vector)
        requires
            shift < 32;
    r
}

/// The kernel's name and release joined by a space, as the engine reports
/// its version.
pub fn kernel_version_text(sysname: &str, release: &str) -> (s: String)
    ensures
        s@ == sysname@ + " "@ + release@,
{
    let mut s = owned(sysname);
    push_str(&mut s, " ");
    push_str(&mut s, release);
    s
}

/// The capabilities found by probing the kernel: its name and release
/// (when `uname` answered), its effective capability set (when `capget`
/// answered), and whether BTF type information is present.
pub fn capabilities_from_probe(uname: Option<(&str, &str)>, effective: Option<[u32; 2]>, btf_available: bool) -> (c: KernelCapabilities)
    ensures
        c.kernel_version@ == (match uname {
            Some((sysname, release)) => sysname@ + " "@ + release@,
            None => "unknown"@,
        }),
        c.has_bpf == (match effective { Some(e) => cap_set(e@, CAP_BPF), None => false }),
        c.has_sys_admin == (match effective { Some(e) => cap_set(e@, CAP_SYS_ADMIN), None => false }),
        c.has_perf_event == (match effective { Some(e) => cap_set(e@, CAP_PERFMON), None => false }),
        c.btf_available == btf_available,
{
    let kernel_version = match uname {
        Some((sysname, release)) => kernel_version_text(sysname, release),
        None => owned("unknown"),
    };
    let (has_bpf, has_sys_admin, has_perf_event) = match effective {
        Some(e) => (cap_effective_in(e, CAP_BPF), cap_effective_in(e, CAP_SYS_ADMIN), cap_effective_in(e, CAP_PERFMON)),
        None => (false, false, false),
    };
    KernelCapabilities { has_bpf, has_sys_admin, has_perf_event, kernel_version, btf_available }
}

/// The kinds of kernel event that the eBPF programs report.
#[derive(Debug, Clone, Copy, PartialEq, Eq, Hash, Structural)]
pub enum BpfEventType {
    ProcessExec,
    ProcessExit,
    ProcessFork,
    ProcessClone,
    ProcessSetuid,
    ProcessSetgid,
    ProcessPtrace,
    ProcessCapChange,
    FileOpen,
    FileWrite,
    FileDelete,
    FileRename,
    FilePermChange,
    FileExecute,
    NetConnect,
    NetBind,
    KernelModuleLoad,
    KernelModuleUnload,
    KernelBpfLoad,
    KernelParamChange,
}

impl BpfEventType {
    /// The number by which the eBPF programs mark events of this kind:
    /// the kinds are numbered from 1 in the order process execution, exit,
    /// fork, clone, setuid, setgid, ptrace and capability change; file
    /// open, write, delete, rename, permission change and execution;
    /// network connect and bind; kernel module load and unload, BPF
    /// program load and kernel parameter change.
    pub open spec fn wire_code(self) -> u32 {
        match self {
            BpfEventType::ProcessExec => 1,
            BpfEventType::ProcessExit => 2,
            BpfEventType::ProcessFork => 3,
            BpfEventType::ProcessClone => 4,
            BpfEventType::ProcessSetuid => 5,
            BpfEventType::ProcessSetgid => 6,
            BpfEventType::ProcessPtrace => 7,
            BpfEventType::ProcessCapChange => 8,
            BpfEventType::FileOpen => 9,
            BpfEventType::FileWrite => 10,
            BpfEventType::FileDelete => 11,
            BpfEventType::FileRename => 12,
            BpfEventType::FilePermChange => 13,
            BpfEventType::FileExecute => 14,
            BpfEventType::NetConnect => 15,
            BpfEventType::NetBind => 16,
            BpfEventType::KernelModuleLoad => 17,
            BpfEventType::KernelModuleUnload => 18,
            BpfEventType::KernelBpfLoad => 19,
            BpfEventType::KernelParamChange => 20,
        }
    }
}

/// Decoding a kind code undoes the programs' numbering: a code decodes to
/// a kind exactly when that kind is numbered by it, and the codes that
/// decode are exactly 1 to 20.
pub proof fn lemma_event_codes_decode(code: u32, t: BpfEventType)
    ensures
        event_type_of_code(code) == Some(t) <==> t.wire_code() == code,
        event_type_of_code(code) is Some <==> 1 <= code <= 20,
        event_type_of_code(t.wire_code()) == Some(t),
{
}

/// The event kind with the wire code `code` (1 to 20), if any.
pub open spec fn event_type_of_code(code: u32) -> Option<BpfEventType> {
    if code == 1 { Some(BpfEventType::ProcessExec) }
    else if code == 2 { Some(BpfEventType::ProcessExit) }
    else if code == 3 { Some(BpfEventType::ProcessFork) }
    else if code == 4 { Some(BpfEventType::ProcessClone) }
    else if code == 5 { Some(BpfEventType::ProcessSetuid) }
    else if code == 6 { Some(BpfEventType::ProcessSetgid) }
    else if code == 7 { Some(BpfEventType::ProcessPtrace) }
    else if code == 8 { Some(BpfEventType::ProcessCapChange) }
    else if code == 9 { Some(BpfEventType::FileOpen) }
    else if code == 10 { Some(BpfEventType::FileWrite) }
    else if code == 11 { Some(BpfEventType::FileDelete) }
    else if code == 12 { Some(BpfEventType::FileRename) }
    else if code == 13 { Some(BpfEventType::FilePermChange) }
    else if code == 14 { Some(BpfEventType::FileExecute) }
    else if code == 15 { Some(BpfEventType::NetConnect) }
    else if code == 16 { Some(BpfEventType::NetBind) }
    else if code == 17 { Some(BpfEventType::KernelModuleLoad) }
    else if code == 18 { Some(BpfEventType::KernelModuleUnload) }
    else if code == 19 { Some(BpfEventType::KernelBpfLoad) }
    else if code == 20 { Some(BpfEventType::KernelParamChange) }
    else { None }
}

fn event_type_from_code(code: u32) -> (r: Option<BpfEventType>)
    ensures
        r == event_type_of_code(code),
{
    match code {
        1 => Some(BpfEventType::ProcessExec),
        2 => Some(BpfEventType::ProcessExit),
        3 => Some(BpfEventType::ProcessFork),
        4 => Some(BpfEventType::ProcessClone),
        5 => Some(BpfEventType::ProcessSetuid),
        6 => Some(BpfEventType::ProcessSetgid),
        7 => Some(BpfEventType::ProcessPtrace),
        8 => Some(BpfEventType::ProcessCapChange),
        9 => Some(BpfEventType::FileOpen),
        10 => Some(BpfEventType::FileWrite),
        11 => Some(BpfEventType::FileDelete),
        12 => Some(BpfEventType::FileRename),
        13 => Some(BpfEventType::FilePermChange),
        14 => Some(BpfEventType::FileExecute),
        15 => Some(BpfEventType::NetConnect),
        16 => Some(BpfEventType::NetBind),
        17 => Some(BpfEventType::KernelModuleLoad),
        18 => Some(BpfEventType::KernelModuleUnload),
        19 => Some(BpfEventType::KernelBpfLoad),
        20 => Some(BpfEventType::KernelParamChange),
        _ => None,
    }
}

/// A kernel event as the agent keeps it.
#[derive(Debug)]
pub struct BpfEvent {
    pub event_type: BpfEventType,
    pub pid: u32,
    pub tgid: u32,
    pub uid: u32,
    pub comm: String,
    pub timestamp: u64,
    pub flags: u32,
    pub parent_pid: u32,
    pub ppid: u32,
}

/// A kernel event as the eBPF programs lay it out in memory.
#[derive(Debug, Clone, Copy)]
pub struct BpfRawEvent {
    pub event_type: u32,
    pub pid: u32,
    pub tgid: u32,
    pub uid: u32,
    pub timestamp: u64,
    pub flags: u32,
    pub parent_pid: u32,
    pub ppid: u32,
    pub comm: [u8; 16],
}

/// The size in bytes of a raw event record: its fields in order, the
/// 64-bit timestamp on an 8-byte boundary, padded to a multiple of 8.
pub const BPF_RAW_EVENT_SIZE: usize = 56;

/// The little-endian 32-bit number at byte `off`.
pub open spec fn le_u32(b: Seq<u8>, off: int) -> int {
    b[off] + b[off + 1] * 256 + b[off + 2] * 65536 + b[off + 3] * 16777216
}

/// The little-endian 64-bit number at byte `off`.
pub open spec fn le_u64(b: Seq<u8>, off: int) -> int {
    le_u32(b, off) + le_u32(b, off + 4) * 4294967296
}

/// The text that decoding `bytes` as UTF-8 gives, each invalid sequence
/// replaced by U+FFFD (`String::from_utf8_lossy`).
pub uninterp spec fn utf8_lossy(bytes: Seq<u8>) -> Seq<char>;

/// The characters of bytes that are all ASCII.
pub open spec fn ascii_text(bytes: Seq<u8>) -> Seq<char> {
    Seq::new(bytes.len(), |i: int| bytes[i] as char)
}

/// Whether all bytes are ASCII.
pub open spec fn all_ascii(bytes: Seq<u8>) -> bool {
    forall|i: int| 0 <= i < bytes.len() ==> bytes[i] < 128
}

/// `String::from_utf8_lossy(bytes)`: its text is named `utf8_lossy`; the
/// documentation gives that valid UTF-8, ASCII among it, is kept as it is.
#[verifier::external_body]
fn lossy_text(bytes: &[u8]) -> (s: String)
    ensures
        s@ == utf8_lossy(bytes@),
        all_ascii(bytes@) ==> s@ == ascii_text(bytes@),
{
    String::from_utf8_lossy(bytes).into_owned()
}

/// The text without its trailing NUL characters.
pub open spec fn trim_nuls(s: Seq<char>) -> Seq<char>
    decreases s.len(),
{
    if s.len() > 0 && s.last() == '\0' {
        trim_nuls(s.drop_last())
    } else {
        s
    }
}

/// The process name of a raw record: its first 15 name bytes decoded,
/// trailing NULs removed.
pub open spec fn comm_text(b: Seq<u8>) -> Seq<char> {
    trim_nuls(utf8_lossy(b.subrange(36, 51)))
}

fn read_u32(data: &[u8], off: usize) -> (v: u32)
    requires
        off + 4 <= data@.len(),
    ensures
        v == le_u32(data@, off as int),
{
    let b0 = data[off] as u32;
    let b1 = data[off + 1] as u32;
    let b2 = data[off + 2] as u32;
    let b3 = data[off + 3] as u32;
    assert(b0 < 256 && b1 < 256 && b2 < 256 && b3 < 256);
    assert(b0 + b1 * 256 + b2 * 65536 + b3 * 16777216 <= 4294967295);
    b0 + b1 * 256 + b2 * 65536 + b3 * 16777216
}

fn read_u64(data: &[u8], off: usize) -> (v: u64)
    requires
        off + 8 <= data@.len(),
    ensures
        v == le_u64(data@, off as int),
{
    let len = data.len();
    assert(off + 8 <= len);
    let lo = read_u32(data, off) as u64;
    let hi = read_u32(data, off + 4) as u64;
    assert(hi * 4294967296 <= 18446744069414584320) by (nonlinear_arith)
        requires
            hi <= 4294967295;
    lo + hi * 4294967296
}

fn trim_trailing_nuls(s: &str) -> (r: String)
    ensures
        r@ == trim_nuls(s@),
{
    let v = chars_of(s);
    let mut n: usize = v.len();
    assert(v@.take(n as int) =~= v@);
    while n > 0 && v[n - 1] == '\0'
        invariant
            n <= v@.len(),
            v@ == s@,
            trim_nuls(s@) == trim_nuls(v@.take(n as int)),
        decreases n,
    {
        assert(v@.take(n as int).drop_last() =~= v@.take(n - 1));
        n -= 1;
    }
    let mut kept: Vec<char> = Vec::new();
    let mut i: usize = 0;
    while i < n
        invariant
            i <= n <= v@.len(),
            kept@ == v@.take(i as int),
        decreases n - i,
    {
        kept.push(v[i]);
        assert(v@.take(i as int).push(v@[i as int]) =~= v@.take(i + 1));
        i += 1;
    }
    assert(trim_nuls(v@.take(n as int)) == v@.take(n as int));
    string_from_chars(&kept)
}

/// The event a raw record holds, read from its first 56 bytes in little-
/// endian order; `None` when the record is shorter or its kind code is
/// not one of the twenty known.
pub fn parse_bpf_event_from_bytes(data: &[u8]) -> (r: Option<BpfEvent>)
    ensures
        data@.len() < BPF_RAW_EVENT_SIZE ==> r is None,
        r is Some <==> data@.len() >= BPF_RAW_EVENT_SIZE && 1 <= le_u32(data@, 0) <= 20,
        r matches Some(e) ==> e.event_type.wire_code() == le_u32(data@, 0),
        data@.len() >= BPF_RAW_EVENT_SIZE ==> (match event_type_of_code(le_u32(data@, 0) as u32) {
            None => r is None,
            Some(t) => r matches Some(e) && e.event_type == t
                && e.pid == le_u32(data@, 4)
                && e.tgid == le_u32(data@, 8)
                && e.uid == le_u32(data@, 12)
                && e.timestamp == le_u64(data@, 16)
                && e.flags == le_u32(data@, 24)
                && e.parent_pid == le_u32(data@, 28)
                && e.ppid == le_u32(data@, 32)
                && e.comm@ == comm_text(data@),
        }),
{
    if data.len() < BPF_RAW_EVENT_SIZE {
        return None;
    }
    let code = read_u32(data, 0);
    let event_type = match event_type_from_code(code) {
        Some(t) => t,
        None => {
            return None;
        },
    };
    let name = lossy_text(slice_subrange(data, 36, 51));
    let comm = trim_trailing_nuls(name.as_str());
    Some(BpfEvent {
        event_type,
        pid: read_u32(data, 4),
        tgid: read_u32(data, 8),
        uid: read_u32(data, 12),
        comm,
        timestamp: read_u64(data, 16),
        flags: read_u32(data, 24),
        parent_pid: read_u32(data, 28),
        ppid: read_u32(data, 32),
    })
}

/// The bytes `data[start..end]`.
fn slice_subrange(data: &[u8], start: usize, end: usize) -> (r: &[u8])
    requires
        start <= end <= data@.len(),
    ensures
        r@ == data@.subrange(start as int, end as int),
{
    vstd::slice::slice_subrange(data, start, end)
}

/// Where a program is to be attached, as read from its definition.
#[derive(Debug)]
pub enum AttachTarget {
    Tracepoint { category: String, name: String },
    Kprobe { function: String },
    Xdp { interface: String },
    PerfEvent,
}

/// The position of the first `:` in `s`, if any.
pub open spec fn first_colon(s: Seq<char>) -> Option<int> {
    if exists|i: int| 0 <= i < s.len() && s[i] == ':' {
        Some(choose|i: int| 0 <= i < s.len() && s[i] == ':' && forall|j: int| 0 <= j < i ==> s[j] != ':')
    } else {
        None
    }
}

/// The message for a tracepoint attach point without a `:`.
pub open spec fn bad_tracepoint(ap: Seq<char>) -> Seq<char> {
    "Invalid tracepoint format: "@ + ap + " (expected category:name)"@
}

/// The position of the first `:` among the characters.
fn find_colon(v: &Vec<char>) -> (r: Option<usize>)
    ensures
        r matches Some(i) ==> i < v@.len() && v@[i as int] == ':' && forall|j: int| 0 <= j < i ==> v@[j] != ':',
        r is None ==> forall|j: int| 0 <= j < v@.len() ==> v@[j] != ':',
{
    let mut i: usize = 0;
    while i < v.len()
        invariant
            i <= v@.len(),
            forall|j: int| 0 <= j < i ==> v@[j] != ':',
        decreases v.len() - i,
    {
        if v[i] == ':' {
            return Some(i);
        }
        i += 1;
    }
    None
}

proof fn lemma_first_colon_some(s: Seq<char>, i: int)
    requires
        0 <= i < s.len(),
        s[i] == ':',
        forall|j: int| 0 <= j < i ==> s[j] != ':',
    ensures
        first_colon(s) == Some(i),
{
    let w = choose|w: int| 0 <= w < s.len() && s[w] == ':' && forall|j: int| 0 <= j < w ==> s[j] != ':';
    assert(0 <= w < s.len() && s[w] == ':' && forall|j: int| 0 <= j < w ==> s[j] != ':');
    if w < i {
        assert(s[w] != ':');
    } else if w > i {
        assert(s[i] != ':');
    }
}

proof fn lemma_first_colon_none(s: Seq<char>)
    requires
        forall|j: int| 0 <= j < s.len() ==> s[j] != ':',
    ensures
        first_colon(s) is None,
{
}

/// The string of the characters `v[start..end]`.
fn chars_between(v: &Vec<char>, start: usize, end: usize) -> (r: String)
    requires
        start <= end <= v@.len(),
    ensures
        r@ == v@.subrange(start as int, end as int),
{
    let mut out: Vec<char> = Vec::new();
    let mut k: usize = start;
    while k < end
        invariant
            start <= k <= end <= v@.len(),
            out@ == v@.subrange(start as int, k as int),
        decreases end - k,
    {
        out.push(v[k]);
        assert(v@.subrange(start as int, k as int).push(v@[k as int]) =~= v@.subrange(start as int, k + 1));
        k += 1;
    }
    string_from_chars(&out)
}

/// Where a program definition attaches: a tracepoint's attach point is
/// split at its first `:` into category and name (an error when there is
/// none); a kprobe attaches to the function and XDP to the interface named
/// by the attach point; a perf event needs no target.
pub fn attach_target(def: &EbpfProgramDef) -> (r: Result<AttachTarget, EbpfError>)
    ensures
        def.program_type == EbpfProgramType::Tracepoint ==> (match first_colon(def.attach_point@) {
            Some(i) => r matches Ok(AttachTarget::Tracepoint { category, name })
                && category@ == def.attach_point@.subrange(0, i)
                && name@ == def.attach_point@.subrange(i + 1, def.attach_point@.len() as int),
            None => r matches Err(EbpfError::Config(m)) && m@ == bad_tracepoint(def.attach_point@),
        }),
        def.program_type == EbpfProgramType::Kprobe ==> (r matches Ok(AttachTarget::Kprobe { function })
            && function@ == def.attach_point@),
        def.program_type == EbpfProgramType::Xdp ==> (r matches Ok(AttachTarget::Xdp { interface })
            && interface@ == def.attach_point@),
        def.program_type == EbpfProgramType::PerfEvent ==> (r matches Ok(AttachTarget::PerfEvent)),
{
    match def.program_type {
        EbpfProgramType::Tracepoint => {
            let v = chars_of(def.attach_point.as_str());
            match find_colon(&v) {
                None => {
                    proof {
                        lemma_first_colon_none(v@);
                    }
                    let mut m = owned("Invalid tracepoint format: ");
                    push_str(&mut m, def.attach_point.as_str());
                    push_str(&mut m, " (expected category:name)");
                    Err(EbpfError::Config(m))
                },
                Some(i) => {
                    proof {
                        lemma_first_colon_some(v@, i as int);
                    }
                    let n = v.len();
                    let category = chars_between(&v, 0, i);
                    let name = chars_between(&v, i + 1, n);
                    Ok(AttachTarget::Tracepoint { category, name })
                },
            }
        },
        EbpfProgramType::Kprobe => Ok(AttachTarget::Kprobe { function: def.attach_point.clone() }),
        EbpfProgramType::Xdp => Ok(AttachTarget::Xdp { interface: def.attach_point.clone() }),
        EbpfProgramType::PerfEvent => Ok(AttachTarget::PerfEvent),
    }
}

/// What became of one attempt to attach a program.
#[derive(Debug, Clone, Copy, PartialEq, Eq, Structural)]
pub enum AttachOutcome {
    Attached,
    NotFound,
    Failed,
}

/// The number of outcomes equal to `o`.
pub open spec fn count_of(outcomes: Seq<AttachOutcome>, o: AttachOutcome) -> nat
    decreases outcomes.len(),
{
    if outcomes.len() == 0 {
        0
    } else {
        count_of(outcomes.drop_last(), o) + if outcomes.last() == o { 1nat } else { 0nat }
    }
}

proof fn lemma_count_bound(outcomes: Seq<AttachOutcome>, o: AttachOutcome)
    ensures
        count_of(outcomes, o) <= outcomes.len(),
    decreases outcomes.len(),
{
    if outcomes.len() > 0 {
        lemma_count_bound(outcomes.drop_last(), o);
    }
}

/// The eBPF engine: its settings, the kernel's capabilities and its
/// counters.
pub struct EbpfEngine {
    config: EbpfConfig,
    capabilities: KernelCapabilities,
    loaded: bool,
    events_received: u64,
    events_dropped: u64,
    programs_loaded: u32,
    programs_failed: u32,
    has_ring_buffer: bool,
}

impl EbpfEngine {
    /// No ring buffer is ever opened, so no map is ever active.
    #[verifier::type_invariant]
    spec fn no_ring_buffer(self) -> bool {
        !self.has_ring_buffer
    }

    /// The configured programs.
    pub closed spec fn programs(&self) -> Seq<ProgramDefModel> {
        defs_view(self.config.programs@)
    }

    /// The configured map size.
    pub closed spec fn map_size(&self) -> u32 {
        self.config.map_size
    }

    /// Whether the engine has been started.
    pub closed spec fn started(&self) -> bool {
        self.loaded
    }

    /// The counters, as `get_stats` reports them.
    pub closed spec fn stats_view(&self) -> EbpfStats {
        EbpfStats {
            events_received: self.events_received,
            events_dropped: self.events_dropped,
            maps_active: if self.has_ring_buffer { 1 } else { 0 },
            programs_loaded: self.programs_loaded,
            programs_failed: self.programs_failed,
            ring_buffer_size: self.config.map_size,
        }
    }

    /// Whether the kernel lets the engine load programs.
    pub closed spec fn may_load(&self) -> bool {
        self.capabilities.has_bpf || self.capabilities.has_sys_admin
    }

    /// An engine for `config` on a kernel with `capabilities`, not started,
    /// with every counter at zero.
    pub fn new(config: EbpfConfig, capabilities: KernelCapabilities) -> (e: EbpfEngine)
        ensures
            !e.started(),
            e.stats_view() == (EbpfStats {
                events_received: 0,
                events_dropped: 0,
                maps_active: 0,
                programs_loaded: 0,
                programs_failed: 0,
                ring_buffer_size: config.map_size,
            }),
            e.programs() == defs_view(config.programs@),
            e.may_load() == (capabilities.has_bpf || capabilities.has_sys_admin),
    {
        EbpfEngine {
            config,
            capabilities,
            loaded: false,
            events_received: 0,
            events_dropped: 0,
            programs_loaded: 0,
            programs_failed: 0,
            has_ring_buffer: false,
        }
    }

    /// The kernel's capabilities.
    pub fn capabilities(&self) -> (c: &KernelCapabilities)
        ensures
            self.may_load() == (c.has_bpf || c.has_sys_admin),
    {
        &self.capabilities
    }

    /// Whether the kernel lets the engine load programs (`CAP_BPF` or
    /// `CAP_SYS_ADMIN`).
    pub fn can_load_programs(&self) -> (b: bool)
        ensures
            b == self.may_load(),
    {
        self.capabilities.has_bpf || self.capabilities.has_sys_admin
    }

    /// Loads the configured programs from the built-in bytecode: there is
    /// none, so nothing is loaded.
    pub fn try_load_programs(&self) -> (r: Result<u32, EbpfError>)
        ensures
            r matches Ok(n) && n == 0,
    {
        Ok(0)
    }

    /// Starts the engine.  Without the capabilities to load programs it
    /// runs degraded; otherwise the programs loaded are counted.  It always
    /// ends started, and never fails.
    pub fn initialize(&mut self) -> (r: Result<(), EbpfError>)
        ensures
            r is Ok,
            final(self).started(),
            final(self).stats_view() == (EbpfStats {
                programs_loaded: if old(self).may_load() { 0 } else { old(self).stats_view().programs_loaded },
                ..old(self).stats_view()
            }),
            final(self).stats_view().maps_active == 0,
            final(self).programs() == old(self).programs(),
            final(self).may_load() == old(self).may_load(),
    {
        proof {
            use_type_invariant(&*self);
        }
        if !self.can_load_programs() {
            self.loaded = true;
            return Ok(());
        }
        match self.try_load_programs() {
            Ok(count) => {
                self.programs_loaded = count;
                self.loaded = true;
            },
            Err(_) => {
                self.loaded = true;
            },
        }
        Ok(())
    }

    /// Counts the outcomes of attaching the configured programs: returns
    /// how many were attached, and adds the failures to the failure count
    /// (wrapping, as an atomic counter does).
    pub fn tally_attachments(&mut self, outcomes: &Vec<AttachOutcome>) -> (n: u32)
        requires
            outcomes@.len() <= u32::MAX,
        ensures
            n == count_of(outcomes@, AttachOutcome::Attached),
            final(self).stats_view() == (EbpfStats {
                programs_failed: ((old(self).stats_view().programs_failed as nat + count_of(outcomes@, AttachOutcome::Failed))
                    % 4294967296) as u32,
                ..old(self).stats_view()
            }),
            final(self).stats_view().maps_active == 0,
            final(self).started() == old(self).started(),
            final(self).programs() == old(self).programs(),
            final(self).may_load() == old(self).may_load(),
    {
        proof {
            use_type_invariant(&*self);
        }
        let mut loaded: u32 = 0;
        let mut i: usize = 0;
        while i < outcomes.len()
            invariant
                i <= outcomes@.len() <= u32::MAX,
                loaded == count_of(outcomes@.take(i as int), AttachOutcome::Attached),
                self.programs_failed == ((old(self).programs_failed as nat
                    + count_of(outcomes@.take(i as int), AttachOutcome::Failed)) % 4294967296) as u32,
                self.events_received == old(self).events_received,
                self.events_dropped == old(self).events_dropped,
                self.has_ring_buffer == old(self).has_ring_buffer,
                !self.has_ring_buffer,
                self.programs_loaded == old(self).programs_loaded,
                self.config == old(self).config,
                self.capabilities == old(self).capabilities,
                self.loaded == old(self).loaded,
            decreases outcomes.len() - i,
        {
            proof {
                lemma_count_bound(outcomes@.take(i as int), AttachOutcome::Attached);
            }
            assert(outcomes@.take(i + 1).drop_last() =~= outcomes@.take(i as int));
            match outcomes[i] {
                AttachOutcome::Attached => {
                    loaded = loaded + 1;
                },
                AttachOutcome::NotFound => {},
                AttachOutcome::Failed => {
                    self.programs_failed = self.programs_failed.wrapping_add(1);
                },
            }
            i += 1;
        }
        assert(outcomes@.take(outcomes.len() as int) =~= outcomes@);
        loaded
    }

    /// Stops the engine and zeroes its counters.
    pub fn shutdown(&mut self) -> (r: Result<(), EbpfError>)
        ensures
            r is Ok,
            !final(self).started(),
            final(self).stats_view() == (EbpfStats {
                events_received: 0,
                events_dropped: 0,
                maps_active: 0,
                programs_loaded: 0,
                programs_failed: 0,
                ring_buffer_size: old(self).map_size(),
            }),
            final(self).programs() == old(self).programs(),
            final(self).may_load() == old(self).may_load(),
    {
        proof {
            use_type_invariant(&*self);
        }
        self.loaded = false;
        self.has_ring_buffer = false;
        self.events_received = 0;
        self.events_dropped = 0;
        self.programs_loaded = 0;
        self.programs_failed = 0;
        Ok(())
    }

    /// Whether the engine has been started.
    pub fn is_loaded(&self) -> (b: bool)
        ensures
            b == self.started(),
    {
        self.loaded
    }

    /// The counters.
    pub fn get_stats(&self) -> (s: EbpfStats)
        ensures
            s == self.stats_view(),
            s.maps_active == 0,
    {
        proof {
            use_type_invariant(self);
        }
        EbpfStats {
            events_received: self.events_received,
            events_dropped: self.events_dropped,
            maps_active: if self.has_ring_buffer { 1 } else { 0 },
            programs_loaded: self.programs_loaded,
            programs_failed: self.programs_failed,
            ring_buffer_size: self.config.map_size,
        }
    }

    /// For a started engine, each configured program in order with its
    /// kind, numbered from 1, and attached when its position is below the
    /// count of loaded programs; nothing for an engine not started.
    pub fn get_loaded_programs(&self) -> (r: Vec<EbpfProgramInfo>)
        requires
            self.programs().len() < u32::MAX,
        ensures
            !self.started() ==> r@.len() == 0,
            self.started() ==> r@.len() == self.programs().len(),
            self.started() ==> forall|i: int| 0 <= i < r@.len() ==> {
                &&& (#[trigger] r@[i]).name@ == self.programs()[i].name
                &&& r@[i].type_str@ == self.programs()[i].program_type.variant_name()
                &&& r@[i].attached == (i < self.stats_view().programs_loaded)
                &&& r@[i].id == i + 1
            },
    {
        let mut r: Vec<EbpfProgramInfo> = Vec::new();
        if !self.loaded {
            return r;
        }
        let loaded = self.programs_loaded;
        let mut i: usize = 0;
        while i < self.config.programs.len()
            invariant
                self.loaded,
                i <= self.config.programs@.len() < u32::MAX,
                loaded == self.programs_loaded,
                r@.len() == i,
                forall|k: int| 0 <= k < i ==> {
                    &&& (#[trigger] r@[k]).name@ == self.programs()[k].name
                    &&& r@[k].type_str@ == self.programs()[k].program_type.variant_name()
                    &&& r@[k].attached == (k < loaded)
                    &&& r@[k].id == k + 1
                },
            decreases self.config.programs.len() - i,
        {
            let p = &self.config.programs[i];
            let n = i as u32;
            r.push(EbpfProgramInfo {
                name: p.name.clone(),
                type_str: owned(p.program_type.variant_str()),
                attached: n < loaded,
                id: n + 1,
            });
            i += 1;
        }
        r
    }

    /// Counts events received (wrapping, as an atomic counter does).
    pub fn increment_received(&mut self, count: u64)
        ensures
            final(self).stats_view() == (EbpfStats {
                events_received: ((old(self).stats_view().events_received + count) % 18446744073709551616) as u64,
                ..old(self).stats_view()
            }),
            final(self).started() == old(self).started(),
            final(self).programs() == old(self).programs(),
            final(self).may_load() == old(self).may_load(),
            final(self).stats_view().maps_active == 0,
    {
        proof {
            use_type_invariant(&*self);
        }
        self.events_received = self.events_received.wrapping_add(count);
    }

    /// Counts events dropped (wrapping, as an atomic counter does).
    pub fn increment_dropped(&mut self, count: u64)
        ensures
            final(self).stats_view() == (EbpfStats {
                events_dropped: ((old(self).stats_view().events_dropped + count) % 18446744073709551616) as u64,
                ..old(self).stats_view()
            }),
            final(self).started() == old(self).started(),
            final(self).programs() == old(self).programs(),
            final(self).may_load() == old(self).may_load(),
            final(self).stats_view().maps_active == 0,
    {
        proof {
            use_type_invariant(&*self);
        }
        self.events_dropped = self.events_dropped.wrapping_add(count);
    }
}

/// A 64-bit counter after each of `counts` is added in turn, wrapping.
pub open spec fn counter_after(start: u64, counts: Seq<u64>) -> u64
    decreases counts.len(),
{
    if counts.len() == 0 {
        start
    } else {
        ((counter_after(start, counts.drop_last()) + counts.last()) % 18446744073709551616) as u64
    }
}

/// The sum of the counts.
pub open spec fn count_sum(counts: Seq<u64>) -> nat
    decreases counts.len(),
{
    if counts.len() == 0 {
        0
    } else {
        count_sum(counts.drop_last()) + counts.last() as nat
    }
}

/// Adding counts one by one to an event counter (as `increment_received`
/// and `increment_dropped` do) leaves it at its start plus their sum,
/// wrapping.
pub proof fn lemma_counter_sums(start: u64, counts: Seq<u64>)
    ensures
        counter_after(start, counts) == (start + count_sum(counts)) % 18446744073709551616,
    decreases counts.len(),
{
    if counts.len() > 0 {
        let d = counts.drop_last();
        lemma_counter_sums(start, d);
        let m: int = 18446744073709551616;
        let a: int = start + count_sum(d);
        let x: int = counts.last() as int;
        vstd::arithmetic::div_mod::lemma_add_mod_noop(a, x, m);
        vstd::arithmetic::div_mod::lemma_small_mod(x as nat, m as nat);
        vstd::arithmetic::div_mod::lemma_mod_twice(a + x, m);
        assert((a % m + x) % m == (a + x) % m);
    }
}

/// Splitting a tracepoint attach point at its first `:` loses nothing:
/// category, `:` and name give the attach point back, and the category
/// holds no `:`.
pub proof fn lemma_tracepoint_split_rejoins(ap: Seq<char>, i: int)
    requires
        0 <= i < ap.len(),
        ap[i] == ':',
        forall|j: int| 0 <= j < i ==> ap[j] != ':',
    ensures
        first_colon(ap) == Some(i),
        ap.subrange(0, i) + seq![':'] + ap.subrange(i + 1, ap.len() as int) == ap,
        !ap.subrange(0, i).contains(':'),
{
    lemma_first_colon_some(ap, i);
    assert(ap.subrange(0, i) + seq![':'] + ap.subrange(i + 1, ap.len() as int) =~= ap);
    if ap.subrange(0, i).contains(':') {
        let j = choose|j: int| 0 <= j < i && ap.subrange(0, i)[j] == ':';
        assert(ap[j] == ':');
    }
}


/// The telemetry kind of an eBPF event kind (the same name).
pub open spec fn telemetry_type_of(t: BpfEventType) -> TelemetryEventType {
    match t {
        BpfEventType::ProcessExec => TelemetryEventType::ProcessExec,
        BpfEventType::ProcessExit => TelemetryEventType::ProcessExit,
        BpfEventType::ProcessFork => TelemetryEventType::ProcessFork,
        BpfEventType::ProcessClone => TelemetryEventType::ProcessClone,
        BpfEventType::ProcessSetuid => TelemetryEventType::ProcessSetuid,
        BpfEventType::ProcessSetgid => TelemetryEventType::ProcessSetgid,
        BpfEventType::ProcessPtrace => TelemetryEventType::ProcessPtrace,
        BpfEventType::ProcessCapChange => TelemetryEventType::ProcessCapChange,
        BpfEventType::FileOpen => TelemetryEventType::FileOpen,
        BpfEventType::FileWrite => TelemetryEventType::FileWrite,
        BpfEventType::FileDelete => TelemetryEventType::FileDelete,
        BpfEventType::FileRename => TelemetryEventType::FileRename,
        BpfEventType::FilePermChange => TelemetryEventType::FilePermChange,
        BpfEventType::FileExecute => TelemetryEventType::FileExecute,
        BpfEventType::NetConnect => TelemetryEventType::NetConnect,
        BpfEventType::NetBind => TelemetryEventType::NetBind,
        BpfEventType::KernelModuleLoad => TelemetryEventType::KernelModuleLoad,
        BpfEventType::KernelModuleUnload => TelemetryEventType::KernelModuleUnload,
        BpfEventType::KernelBpfLoad => TelemetryEventType::KernelBpfLoad,
        BpfEventType::KernelParamChange => TelemetryEventType::KernelParamChange,
    }
}

fn telemetry_type(t: BpfEventType) -> (r: TelemetryEventType)
    ensures
        r == telemetry_type_of(t),
{
    match t {
        BpfEventType::ProcessExec => TelemetryEventType::ProcessExec,
        BpfEventType::ProcessExit => TelemetryEventType::ProcessExit,
        BpfEventType::ProcessFork => TelemetryEventType::ProcessFork,
        BpfEventType::ProcessClone => TelemetryEventType::ProcessClone,
        BpfEventType::ProcessSetuid => TelemetryEventType::ProcessSetuid,
        BpfEventType::ProcessSetgid => TelemetryEventType::ProcessSetgid,
        BpfEventType::ProcessPtrace => TelemetryEventType::ProcessPtrace,
        BpfEventType::ProcessCapChange => TelemetryEventType::ProcessCapChange,
        BpfEventType::FileOpen => TelemetryEventType::FileOpen,
        BpfEventType::FileWrite => TelemetryEventType::FileWrite,
        BpfEventType::FileDelete => TelemetryEventType::FileDelete,
        BpfEventType::FileRename => TelemetryEventType::FileRename,
        BpfEventType::FilePermChange => TelemetryEventType::FilePermChange,
        BpfEventType::FileExecute => TelemetryEventType::FileExecute,
        BpfEventType::NetConnect => TelemetryEventType::NetConnect,
        BpfEventType::NetBind => TelemetryEventType::NetBind,
        BpfEventType::KernelModuleLoad => TelemetryEventType::KernelModuleLoad,
        BpfEventType::KernelModuleUnload => TelemetryEventType::KernelModuleUnload,
        BpfEventType::KernelBpfLoad => TelemetryEventType::KernelBpfLoad,
        BpfEventType::KernelParamChange => TelemetryEventType::KernelParamChange,
    }
}

/// The object an eBPF event is about: the process (`pid:<pid>`) for file
/// and network events, the module (the event's process name) for module
/// loads and unloads, none otherwise.
pub open spec fn bpf_object_id(e: BpfEvent) -> Option<Seq<char>> {
    match e.event_type {
        BpfEventType::FileOpen | BpfEventType::FileWrite | BpfEventType::FileDelete | BpfEventType::FileRename
        | BpfEventType::FilePermChange | BpfEventType::FileExecute | BpfEventType::NetConnect
        | BpfEventType::NetBind => Some("pid:"@ + decimal(e.pid as nat)),
        BpfEventType::KernelModuleLoad | BpfEventType::KernelModuleUnload => Some(e.comm@),
        _ => None,
    }
}

/// A number held as its JSON text.
pub open spec fn json_number(n: nat) -> ValueModel {
    ValueModel::Json(decimal(n))
}

/// The details recorded of an eBPF event, by key in sorted order: the
/// process name, flags, kernel time, parent pids and thread group.
pub open spec fn bpf_metadata(e: BpfEvent) -> Seq<(Seq<char>, ValueModel)> {
    let m1 = store(Seq::empty(), "comm"@, ValueModel::Text(e.comm@));
    let m2 = store(m1, "flags"@, json_number(e.flags as nat));
    let m3 = store(m2, "kernel_timestamp"@, json_number(e.timestamp as nat));
    let m4 = store(m3, "parent_pid"@, json_number(e.parent_pid as nat));
    let m5 = store(m4, "ppid"@, json_number(e.ppid as nat));
    store(m5, "tgid"@, json_number(e.tgid as nat))
}

/// The telemetry an eBPF event becomes.
pub open spec fn bpf_telemetry(e: BpfEvent) -> TelemetryModel {
    TelemetryModel {
        provider: "ebpf"@,
        event_type: telemetry_type_of(e.event_type),
        pid: Some(e.pid),
        uid: Some(e.uid),
        object_id: bpf_object_id(e),
        metadata: bpf_metadata(e),
    }
}

fn number_value(n: u64) -> (v: Value)
    ensures
        v@ == json_number(n as nat),
{
    let mut s = String::new();
    push_decimal(&mut s, n);
    assert(s@ =~= decimal(n as nat));
    Value::Json(s)
}

/// The telemetry event an eBPF event becomes; every kind maps.
pub fn bpf_event_to_telemetry(event: &BpfEvent) -> (r: Option<TelemetryEvent>)
    ensures
        r matches Some(t) && t.report() == bpf_telemetry(*event),
{
    let mut metadata = DataMap::new();
    metadata.insert(owned("comm"), Value::String(event.comm.clone()));
    metadata.insert(owned("flags"), number_value(event.flags as u64));
    metadata.insert(owned("kernel_timestamp"), number_value(event.timestamp));
    metadata.insert(owned("parent_pid"), number_value(event.parent_pid as u64));
    metadata.insert(owned("ppid"), number_value(event.ppid as u64));
    metadata.insert(owned("tgid"), number_value(event.tgid as u64));
    let t = TelemetryEvent::new("ebpf", telemetry_type(event.event_type))
        .with_pid(event.pid)
        .with_uid(event.uid)
        .with_metadata(metadata);
    let object_id: Option<String> = match event.event_type {
        BpfEventType::FileOpen | BpfEventType::FileWrite | BpfEventType::FileDelete | BpfEventType::FileRename
        | BpfEventType::FilePermChange | BpfEventType::FileExecute | BpfEventType::NetConnect
        | BpfEventType::NetBind => {
            let mut s = owned("pid:");
            push_decimal(&mut s, event.pid as u64);
            Some(s)
        },
        BpfEventType::KernelModuleLoad | BpfEventType::KernelModuleUnload => Some(event.comm.clone()),
        _ => None,
    };
    match object_id {
        Some(o) => Some(t.with_object_id(o.as_str())),
        None => Some(t),
    }
}

/// The eBPF engine as a telemetry source.
pub struct EbpfTelemetryProvider {
    engine: EbpfEngine,
    status: ProviderStatus,
    events_received: u64,
    events_dropped: u64,
}

impl EbpfTelemetryProvider {
    /// The source's status.
    pub closed spec fn state(&self) -> ProviderStatus {
        self.status
    }

    /// The engine behind the source.
    pub closed spec fn engine_view(&self) -> EbpfEngine {
        self.engine
    }

    /// The number of events the source has counted as received.
    pub closed spec fn received(&self) -> u64 {
        self.events_received
    }

    /// The number of events the source has counted as dropped.
    pub closed spec fn dropped(&self) -> u64 {
        self.events_dropped
    }

    /// A stopped source around `engine`, with no events counted.
    pub fn new(engine: EbpfEngine) -> (p: EbpfTelemetryProvider)
        ensures
            p.state() == ProviderStatus::Stopped,
            p.engine_view() == engine,
            p.received() == 0,
            p.dropped() == 0,
    {
        EbpfTelemetryProvider { engine, status: ProviderStatus::Stopped, events_received: 0, events_dropped: 0 }
    }

    pub fn name(&self) -> (s: &'static str)
        ensures
            s@ == "ebpf"@,
    {
        "ebpf"
    }

    pub fn description(&self) -> (s: &'static str)
        ensures
            s@ == "eBPF telemetry provider (real kernel instrumentation via Aya)"@,
    {
        "eBPF telemetry provider (real kernel instrumentation via Aya)"
    }

    pub fn status(&self) -> (s: ProviderStatus)
        ensures
            s == self.state(),
    {
        self.status
    }

    /// Starts the engine: the source runs when the kernel lets programs
    /// load, and runs degraded otherwise.  It never fails.
    pub fn initialize(&mut self) -> (r: Result<(), EbpfError>)
        ensures
            r is Ok,
            final(self).state() == (if old(self).engine_view().may_load() {
                ProviderStatus::Running
            } else {
                ProviderStatus::Degraded
            }),
            final(self).engine_view().started(),
            final(self).received() == old(self).received(),
            final(self).dropped() == old(self).dropped(),
    {
        self.status = ProviderStatus::Initializing;
        match self.engine.initialize() {
            Ok(()) => {
                if self.engine.can_load_programs() {
                    let caps = self.engine.capabilities();
                    if caps.has_bpf || caps.has_sys_admin {
                        self.status = ProviderStatus::Running;
                    } else {
                        self.status = ProviderStatus::Degraded;
                    }
                } else {
                    self.status = ProviderStatus::Degraded;
                }
                Ok(())
            },
            Err(_) => {
                self.status = ProviderStatus::Degraded;
                Ok(())
            },
        }
    }

    /// Stops the engine; the source is then stopped.
    pub fn shutdown(&mut self) -> (r: Result<(), EbpfError>)
        ensures
            r is Ok,
            final(self).state() == ProviderStatus::Stopped,
            !final(self).engine_view().started(),
            final(self).received() == old(self).received(),
            final(self).dropped() == old(self).dropped(),
    {
        match self.engine.shutdown() {
            Ok(()) => {
                self.status = ProviderStatus::Stopped;
                Ok(())
            },
            Err(e) => {
                self.status = ProviderStatus::Error;
                Err(e)
            },
        }
    }

    /// What the source says of itself.
    pub fn info(&self) -> (i: ProviderInfo)
        ensures
            i.name@ == "ebpf"@,
            i.status == self.state(),
            i.events_received == self.received(),
            i.events_dropped == self.dropped(),
            i.started_at is None,
    {
        ProviderInfo {
            name: owned("ebpf"),
            status: self.status,
            events_received: self.events_received,
            events_dropped: self.events_dropped,
            started_at: None,
        }
    }
}

} // verus!
