use vstd::prelude::*;
use crate::ebpf::{le_u32, le_u64};
use crate::text::{decimal, int_text, owned, push_decimal, push_signed};
use crate::telemetry::{ProviderInfo, ProviderStatus, TelemetryEvent, TelemetryEventType, TelemetryModel};
use crate::value::{store, DataMap, Value, ValueModel};
use crate::threat::strings_view;

verus! {

/// The fanotify event and mark flags the agent uses.
pub const FAN_ACCESS: u64 = 0x0000_0001;
pub const FAN_MODIFY: u64 = 0x0000_0002;
pub const FAN_ATTRIB: u64 = 0x0000_0004;
pub const FAN_CLOSE_WRITE: u64 = 0x0000_0008;
pub const FAN_OPEN: u64 = 0x0000_0020;
pub const FAN_DELETE: u64 = 0x0000_0400;
pub const FAN_OPEN_PERM: u64 = 0x0001_0000;
pub const FAN_EVENT_ON_CHILD: u64 = 0x0800_0000;
pub const FAN_MARK_ADD: i32 = 0x0000_0001;
pub const FAN_MARK_MOUNT: i32 = 0x0000_0010;

/// The size of one event record header: event length (4 bytes), version,
/// reserved byte, header length (2), mask (8), descriptor (8) and pid (4),
/// packed.
pub const MIN_EVENT_METADATA_SIZE: usize = 28;

/// The size of the buffer events are read into.
pub const EVENT_BUFFER_SIZE: usize = 4096;

/// The header of one fanotify event record.
#[derive(Debug, Clone, Copy, PartialEq, Eq, Structural)]
pub struct FanotifyEventMetadata {
    pub event_len: u32,
    pub vers: u8,
    pub reserved: u8,
    pub metadata_len: u16,
    pub mask: u64,
    pub fd: u64,
    pub pid: u32,
}

impl FanotifyEventMetadata {
    /// The number of bytes a header takes in the kernel's buffer.
    pub fn wire_size() -> (n: usize)
        ensures
            n == MIN_EVENT_METADATA_SIZE,
    {
        MIN_EVENT_METADATA_SIZE
    }
}

/// The header held by the 28 bytes at `off`, little-endian.
pub open spec fn metadata_at(b: Seq<u8>, off: int) -> FanotifyEventMetadata {
    FanotifyEventMetadata {
        event_len: le_u32(b, off) as u32,
        vers: b[off + 4],
        reserved: b[off + 5],
        metadata_len: (b[off + 6] + b[off + 7] * 256) as u16,
        mask: le_u64(b, off + 8) as u64,
        fd: le_u64(b, off + 16) as u64,
        pid: le_u32(b, off + 24) as u32,
    }
}

fn get_u32(b: &[u8], off: usize) -> (v: u32)
    requires
        off + 4 <= b@.len(),
    ensures
        v == le_u32(b@, off as int),
{
    let b0 = b[off] as u32;
    let b1 = b[off + 1] as u32;
    let b2 = b[off + 2] as u32;
    let b3 = b[off + 3] as u32;
    b0 + b1 * 256 + b2 * 65536 + b3 * 16777216
}

fn get_u64(b: &[u8], off: usize) -> (v: u64)
    requires
        off + 8 <= b@.len(),
    ensures
        v == le_u64(b@, off as int),
{
    let len = b.len();
    assert(off + 8 <= len);
    let lo = get_u32(b, off) as u64;
    let hi = get_u32(b, off + 4) as u64;
    assert(hi * 4294967296 <= 18446744069414584320) by (nonlinear_arith)
        requires
            hi <= 4294967295;
    lo + hi * 4294967296
}

/// The event header at `offset` in `buf`; `None` when fewer than 28 bytes
/// remain there.
pub fn read_event_metadata(buf: &[u8], offset: usize) -> (r: Option<FanotifyEventMetadata>)
    ensures
        offset + MIN_EVENT_METADATA_SIZE > buf@.len() ==> r is None,
        offset + MIN_EVENT_METADATA_SIZE <= buf@.len() ==> r == Some(metadata_at(buf@, offset as int)),
{
    let len = buf.len();
    if offset > len || len - offset < MIN_EVENT_METADATA_SIZE {
        return None;
    }
    let lo = buf[offset + 6] as u16;
    let hi = buf[offset + 7] as u16;
    Some(FanotifyEventMetadata {
        event_len: get_u32(buf, offset),
        vers: buf[offset + 4],
        reserved: buf[offset + 5],
        metadata_len: lo + hi * 256,
        mask: get_u64(buf, offset + 8),
        fd: get_u64(buf, offset + 16),
        pid: get_u32(buf, offset + 24),
    })
}

/// The kind of file event a mask reports, the first flag set deciding in
/// the order access, open, modify, close-after-write, delete, open
/// permission, attribute change.
pub open spec fn event_type_of_mask(mask: u64) -> Option<TelemetryEventType> {
    if mask & FAN_ACCESS != 0 {
        Some(TelemetryEventType::FileRead)
    } else if mask & FAN_OPEN != 0 {
        Some(TelemetryEventType::FileOpen)
    } else if mask & FAN_MODIFY != 0 {
        Some(TelemetryEventType::FileWrite)
    } else if mask & FAN_CLOSE_WRITE != 0 {
        Some(TelemetryEventType::FileClose)
    } else if mask & FAN_DELETE != 0 {
        Some(TelemetryEventType::FileDelete)
    } else if mask & FAN_OPEN_PERM != 0 {
        Some(TelemetryEventType::FileExecute)
    } else if mask & FAN_ATTRIB != 0 {
        Some(TelemetryEventType::FilePermChange)
    } else {
        None
    }
}

/// The kind of file event a mask reports.
pub fn map_event_type(mask: u64) -> (r: Option<TelemetryEventType>)
    ensures
        r == event_type_of_mask(mask),
{
    if mask & FAN_ACCESS != 0 {
        Some(TelemetryEventType::FileRead)
    } else if mask & FAN_OPEN != 0 {
        Some(TelemetryEventType::FileOpen)
    } else if mask & FAN_MODIFY != 0 {
        Some(TelemetryEventType::FileWrite)
    } else if mask & FAN_CLOSE_WRITE != 0 {
        Some(TelemetryEventType::FileClose)
    } else if mask & FAN_DELETE != 0 {
        Some(TelemetryEventType::FileDelete)
    } else if mask & FAN_OPEN_PERM != 0 {
        Some(TelemetryEventType::FileExecute)
    } else if mask & FAN_ATTRIB != 0 {
        Some(TelemetryEventType::FilePermChange)
    } else {
        None
    }
}

/// The complete event records in the first `total` bytes of a buffer,
/// from byte `off` on: each header in turn, advancing by its event length,
/// stopping at a header that is cut short, a length below a header's
/// size, or a record that runs past `total`.
pub open spec fn records(b: Seq<u8>, off: int, total: int) -> Seq<FanotifyEventMetadata>
    decreases total - off,
{
    if off < 0 || off + MIN_EVENT_METADATA_SIZE > total || off + MIN_EVENT_METADATA_SIZE > b.len() {
        Seq::empty()
    } else {
        let m = metadata_at(b, off);
        if (m.event_len as int) < MIN_EVENT_METADATA_SIZE || off + m.event_len > total {
            Seq::empty()
        } else {
            seq![m] + records(b, off + m.event_len, total)
        }
    }
}

/// The complete event records among the first `total` bytes read into
/// `buf`, in order.
pub fn split_events(buf: &[u8], total: usize) -> (r: Vec<FanotifyEventMetadata>)
    requires
        total <= buf@.len(),
    ensures
        r@ == records(buf@, 0, total as int),
{
    let mut r: Vec<FanotifyEventMetadata> = Vec::new();
    let mut offset: usize = 0;
    while offset <= total && total - offset >= MIN_EVENT_METADATA_SIZE
        invariant
            total <= buf@.len(),
            offset <= total,
            r@ + records(buf@, offset as int, total as int) == records(buf@, 0, total as int),
        decreases total - offset,
    {
        let meta = match read_event_metadata(buf, offset) {
            Some(m) => m,
            None => {
                assert(records(buf@, offset as int, total as int) == Seq::<FanotifyEventMetadata>::empty());
                assert(r@ + Seq::<FanotifyEventMetadata>::empty() =~= r@);
                return r;
            },
        };
        let event_len = meta.event_len as usize;
        if event_len < MIN_EVENT_METADATA_SIZE || event_len > total - offset {
            assert(records(buf@, offset as int, total as int) == Seq::<FanotifyEventMetadata>::empty());
            assert(r@ + Seq::<FanotifyEventMetadata>::empty() =~= r@);
            return r;
        }
        let ghost before = r@;
        r.push(meta);
        assert(records(buf@, offset as int, total as int) == seq![meta] + records(buf@, offset + event_len, total as int));
        assert(r@ + records(buf@, offset + event_len, total as int) =~= before + records(buf@, offset as int, total as int));
        offset = offset + event_len;
    }
    proof {
        if !(offset <= total && total - offset >= MIN_EVENT_METADATA_SIZE) {
            assert(records(buf@, offset as int, total as int) == Seq::<FanotifyEventMetadata>::empty());
        }
    }
    assert(r@ + Seq::<FanotifyEventMetadata>::empty() =~= r@);
    r
}

/// The open flags `O_CLOEXEC` of the C library.
#[verifier::external_body]
fn o_cloexec() -> (f: i32) {
    libc::O_CLOEXEC
}

/// The open flag `O_NONBLOCK` of the C library.
#[verifier::external_body]
fn o_nonblock() -> (f: i32) {
    libc::O_NONBLOCK
}

/// Settings of the fanotify source.
#[derive(Debug)]
pub struct FanotifyConfig {
    /// Directories to watch; each watch covers the whole mount holding it.
    pub monitor_paths: Vec<String>,
    /// The fanotify event flags to report.
    pub event_mask: u64,
    /// Flags for `fanotify_init`.
    pub flags: i32,
    /// Flags for `fanotify_mark`.
    pub mount_flags: i32,
}

impl Default for FanotifyConfig {
    /// Watches `/etc`, `/usr` and `/boot` for access, open, modify,
    /// close-after-write and delete, children included, with a
    /// close-on-exec non-blocking descriptor, marking whole mounts.
    fn default() -> (c: FanotifyConfig)
        ensures
            strings_view(c.monitor_paths@) == seq!["/etc"@, "/usr"@, "/boot"@],
            c.event_mask == FAN_ACCESS | FAN_OPEN | FAN_MODIFY | FAN_CLOSE_WRITE | FAN_DELETE | FAN_EVENT_ON_CHILD,
            c.mount_flags == FAN_MARK_ADD | FAN_MARK_MOUNT,
    {
        let mut monitor_paths: Vec<String> = Vec::new();
        monitor_paths.push(owned("/etc"));
        monitor_paths.push(owned("/usr"));
        monitor_paths.push(owned("/boot"));
        assert(strings_view(monitor_paths@) =~= seq!["/etc"@, "/usr"@, "/boot"@]);
        FanotifyConfig {
            monitor_paths,
            event_mask: FAN_ACCESS | FAN_OPEN | FAN_MODIFY | FAN_CLOSE_WRITE | FAN_DELETE | FAN_EVENT_ON_CHILD,
            flags: o_cloexec() | o_nonblock(),
            mount_flags: FAN_MARK_ADD | FAN_MARK_MOUNT,
        }
    }
}

/// Splitting a buffer yields records of at least a header's size each,
/// lying one after another within the bytes read: there are at most a
/// header's worth of them per 28 bytes.
pub proof fn lemma_records_bounded(b: Seq<u8>, off: int, total: int)
    requires
        0 <= off,
    ensures
        forall|k: int| 0 <= k < records(b, off, total).len()
            ==> (#[trigger] records(b, off, total)[k]).event_len >= MIN_EVENT_METADATA_SIZE,
        records(b, off, total).len() * 28 <= if total - off > 0 { total - off } else { 0 },
    decreases total - off,
{
    if !(off < 0 || off + MIN_EVENT_METADATA_SIZE > total || off + MIN_EVENT_METADATA_SIZE > b.len()) {
        let m = metadata_at(b, off);
        if !((m.event_len as int) < MIN_EVENT_METADATA_SIZE || off + m.event_len > total) {
            let rest = records(b, off + m.event_len, total);
            lemma_records_bounded(b, off + m.event_len, total);
            assert forall|k: int| 0 <= k < records(b, off, total).len()
                implies (#[trigger] records(b, off, total)[k]).event_len >= MIN_EVENT_METADATA_SIZE by {
                if k > 0 {
                    assert(records(b, off, total)[k] == rest[k - 1]);
                }
            }
        }
    }
}

/// The descriptor of a record as the C library's `int` reads it (the
/// low 32 bits).
pub open spec fn record_fd(m: FanotifyEventMetadata) -> i32 {
    m.fd as i32
}

/// The path reported for an event on descriptor `fd`: the path it
/// resolved to, if it is a valid descriptor that resolved, else `fd:<n>`.
pub open spec fn event_path(fd: i32, resolved: Option<Seq<char>>) -> Seq<char> {
    match resolved {
        Some(p) if fd >= 0 => p,
        _ => "fd:"@ + int_text(fd as int),
    }
}

/// The telemetry a fanotify record becomes, given what its descriptor
/// resolved to: nothing when its mask names no known event.  The details
/// are the mask, the descriptor and the path, by key in sorted order.
pub open spec fn fanotify_telemetry(m: FanotifyEventMetadata, resolved: Option<Seq<char>>) -> Option<TelemetryModel> {
    match event_type_of_mask(m.mask) {
        None => None,
        Some(t) => {
            let path = event_path(record_fd(m), resolved);
            let d1 = store(Seq::empty(), "fanotify_mask"@, ValueModel::Json(decimal(m.mask as nat)));
            let d2 = store(d1, "fd"@, ValueModel::Json(int_text(record_fd(m) as int)));
            let d3 = store(d2, "path"@, ValueModel::Text(path));
            Some(TelemetryModel {
                provider: "fanotify"@,
                event_type: t,
                pid: Some(m.pid),
                uid: None,
                object_id: Some(path),
                metadata: d3,
            })
        },
    }
}

/// The telemetry event of a fanotify record, given the path its
/// descriptor resolved to (`None` when it did not resolve).
pub fn fanotify_event(meta: &FanotifyEventMetadata, resolved: Option<String>) -> (r: Option<TelemetryEvent>)
    ensures
        fanotify_telemetry(*meta, match resolved { Some(p) => Some(p@), None => None }) matches Some(t)
            ==> (r matches Some(e) && e.report() == t),
        fanotify_telemetry(*meta, match resolved { Some(p) => Some(p@), None => None }) is None ==> r is None,
{
    let event_type = match map_event_type(meta.mask) {
        Some(t) => t,
        None => {
            return None;
        },
    };
    let fd = meta.fd as i32;
    let path = match resolved {
        Some(p) if fd >= 0 => p,
        _ => {
            let mut s = owned("fd:");
            push_signed(&mut s, fd as i64);
            s
        },
    };
    let mut mask_text = String::new();
    push_decimal(&mut mask_text, meta.mask);
    let mut fd_text = String::new();
    push_signed(&mut fd_text, fd as i64);
    let mut metadata = DataMap::new();
    metadata.insert(owned("fanotify_mask"), Value::Json(mask_text));
    metadata.insert(owned("fd"), Value::Json(fd_text));
    metadata.insert(owned("path"), Value::String(path.clone()));
    Some(TelemetryEvent::new("fanotify", event_type)
        .with_pid(meta.pid)
        .with_object_id(path.as_str())
        .with_metadata(metadata))
}

/// The fanotify source: its settings, its status, its counters and the
/// descriptor it reads from (`-1` when it has none).  The system calls are
/// made around it; it decides what each outcome means.
pub struct FanotifyProvider {
    config: FanotifyConfig,
    status: ProviderStatus,
    events_received: u64,
    events_dropped: u64,
    running: bool,
    fanotify_fd: i32,
}

impl FanotifyProvider {
    pub closed spec fn state(&self) -> ProviderStatus {
        self.status
    }

    pub closed spec fn received(&self) -> u64 {
        self.events_received
    }

    pub closed spec fn dropped(&self) -> u64 {
        self.events_dropped
    }

    /// Whether the read loop is to keep reading.
    pub closed spec fn reading(&self) -> bool {
        self.running
    }

    /// The descriptor held, `-1` for none.
    pub closed spec fn descriptor(&self) -> i32 {
        self.fanotify_fd
    }

    /// The settings the source was made with.
    pub closed spec fn settings(&self) -> FanotifyConfig {
        self.config
    }

    /// A stopped source with the given settings, no descriptor and no
    /// events counted.
    pub fn new(config: FanotifyConfig) -> (p: FanotifyProvider)
        ensures
            p.state() == ProviderStatus::Stopped,
            p.received() == 0,
            p.dropped() == 0,
            !p.reading(),
            p.descriptor() == -1,
            p.settings() == config,
    {
        FanotifyProvider {
            config,
            status: ProviderStatus::Stopped,
            events_received: 0,
            events_dropped: 0,
            running: false,
            fanotify_fd: -1,
        }
    }

    /// The settings.
    pub fn config(&self) -> (c: &FanotifyConfig)
        ensures
            *c == self.settings(),
    {
        &self.config
    }

    pub fn name(&self) -> (s: &'static str)
        ensures
            s@ == "fanotify"@,
    {
        "fanotify"
    }

    pub fn description(&self) -> (s: &'static str)
        ensures
            s@ == "fanotify filesystem monitoring provider (Linux syscalls)"@,
    {
        "fanotify filesystem monitoring provider (Linux syscalls)"
    }

    pub fn status(&self) -> (s: ProviderStatus)
        ensures
            s == self.state(),
    {
        self.status
    }

    /// Marks the start of initialization.
    pub fn begin_initialize(&mut self)
        ensures
            final(self).settings() == old(self).settings(),
            final(self).state() == ProviderStatus::Initializing,
            final(self).received() == old(self).received(),
            final(self).dropped() == old(self).dropped(),
            final(self).reading() == old(self).reading(),
            final(self).descriptor() == old(self).descriptor(),
    {
        self.status = ProviderStatus::Initializing;
    }

    /// Takes the descriptor that `fanotify_init` returned: a negative one
    /// (no privilege) leaves the source degraded; otherwise it is kept and
    /// the source runs.  Initialization never fails.
    pub fn finish_initialize(&mut self, fd: i32) -> (r: Result<(), String>)
        ensures
            final(self).settings() == old(self).settings(),
            r is Ok,
            fd < 0 ==> final(self).state() == ProviderStatus::Degraded
                && final(self).descriptor() == old(self).descriptor()
                && final(self).reading() == old(self).reading(),
            fd >= 0 ==> final(self).state() == ProviderStatus::Running
                && final(self).descriptor() == fd
                && final(self).reading(),
            final(self).received() == old(self).received(),
            final(self).dropped() == old(self).dropped(),
    {
        if fd < 0 {
            self.status = ProviderStatus::Degraded;
            return Ok(());
        }
        self.fanotify_fd = fd;
        self.running = true;
        self.status = ProviderStatus::Running;
        Ok(())
    }

    /// Counts one event handed on (`sent`) or dropped, wrapping as an
    /// atomic counter does.
    pub fn record_delivery(&mut self, sent: bool)
        ensures
            final(self).settings() == old(self).settings(),
            sent ==> final(self).received() == ((old(self).received() + 1) % 18446744073709551616) as u64
                && final(self).dropped() == old(self).dropped(),
            !sent ==> final(self).dropped() == ((old(self).dropped() + 1) % 18446744073709551616) as u64
                && final(self).received() == old(self).received(),
            final(self).state() == old(self).state(),
            final(self).reading() == old(self).reading(),
            final(self).descriptor() == old(self).descriptor(),
    {
        if sent {
            self.events_received = self.events_received.wrapping_add(1);
        } else {
            self.events_dropped = self.events_dropped.wrapping_add(1);
        }
    }

    /// Stops reading, gives up the descriptor (returned, for closing when
    /// it is not negative) and leaves the source stopped.
    pub fn shutdown(&mut self) -> (fd: i32)
        ensures
            final(self).settings() == old(self).settings(),
            fd == old(self).descriptor(),
            final(self).descriptor() == -1,
            !final(self).reading(),
            final(self).state() == ProviderStatus::Stopped,
            final(self).received() == old(self).received(),
            final(self).dropped() == old(self).dropped(),
    {
        self.running = false;
        let fd = self.fanotify_fd;
        self.fanotify_fd = -1;
        self.status = ProviderStatus::Stopped;
        fd
    }

    /// Whether the read loop is to keep reading.
    pub fn is_running(&self) -> (b: bool)
        ensures
            b == self.reading(),
    {
        self.running
    }

    /// What the source says of itself.
    pub fn info(&self) -> (i: ProviderInfo)
        ensures
            i.name@ == "fanotify"@,
            i.status == self.state(),
            i.events_received == self.received(),
            i.events_dropped == self.dropped(),
            i.started_at is None,
    {
        ProviderInfo {
            name: owned("fanotify"),
            status: self.status,
            events_received: self.events_received,
            events_dropped: self.events_dropped,
            started_at: None,
        }
    }
}

} // verus!
