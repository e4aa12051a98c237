use vstd::prelude::*;
use crate::clock::{new_id, now_micros};
use crate::text::owned;
use crate::value::{DataMap, ValueModel};

verus! {

/// The kinds of event that telemetry sources report.
#[derive(Debug, Clone, Copy, PartialEq, Eq, Hash, Structural)]
pub enum TelemetryEventType {
    ProcessExec,
    ProcessExit,
    ProcessFork,
    ProcessClone,
    ProcessSetuid,
    ProcessSetgid,
    ProcessPtrace,
    ProcessCapChange,
    FileOpen,
    FileRead,
    FileWrite,
    FileClose,
    FileDelete,
    FileRename,
    FilePermChange,
    FileExecute,
    NetConnect,
    NetBind,
    KernelModuleLoad,
    KernelModuleUnload,
    KernelBpfLoad,
    KernelParamChange,
}

/// Where a telemetry source stands in its life.
#[derive(Debug, Clone, Copy, PartialEq, Eq, Hash, Structural)]
pub enum ProviderStatus {
    Stopped,
    Initializing,
    Running,
    Degraded,
    Error,
}

/// What a telemetry source says of itself; `started_at` is in microseconds
/// since the Unix epoch.
#[derive(Debug)]
pub struct ProviderInfo {
    pub name: String,
    pub status: ProviderStatus,
    pub events_received: u64,
    pub events_dropped: u64,
    pub started_at: Option<i64>,
}

/// One event reported by a telemetry source.  `timestamp` is in
/// microseconds since the Unix epoch; `id` is a 128-bit UUID value.
pub struct TelemetryEvent {
    pub id: u128,
    pub timestamp: i64,
    pub provider: String,
    pub event_type: TelemetryEventType,
    pub pid: Option<u32>,
    pub uid: Option<u32>,
    pub object_id: Option<String>,
    pub metadata: DataMap,
}

/// What a telemetry event reports, apart from its random id and its time.
pub struct TelemetryModel {
    pub provider: Seq<char>,
    pub event_type: TelemetryEventType,
    pub pid: Option<u32>,
    pub uid: Option<u32>,
    pub object_id: Option<Seq<char>>,
    pub metadata: Seq<(Seq<char>, ValueModel)>,
}

impl TelemetryEvent {
    /// What the event reports, apart from its random id and its time.
    pub open spec fn report(&self) -> TelemetryModel {
        TelemetryModel {
            provider: self.provider@,
            event_type: self.event_type,
            pid: self.pid,
            uid: self.uid,
            object_id: match self.object_id {
                Some(o) => Some(o@),
                None => None,
            },
            metadata: self.metadata@,
        }
    }

    /// A new event of `event_type` from `provider`, with a random id, the
    /// current time and nothing else known.
    pub fn new(provider: &str, event_type: TelemetryEventType) -> (e: TelemetryEvent)
        ensures
            e.report() == (TelemetryModel {
                provider: provider@,
                event_type,
                pid: None,
                uid: None,
                object_id: None,
                metadata: Seq::empty(),
            }),
    {
        TelemetryEvent {
            id: new_id(),
            timestamp: now_micros(),
            provider: owned(provider),
            event_type,
            pid: None,
            uid: None,
            object_id: None,
            metadata: DataMap::new(),
        }
    }

    pub fn with_pid(self, pid: u32) -> (e: TelemetryEvent)
        ensures
            e.report() == (TelemetryModel { pid: Some(pid), ..self.report() }),
            e.id == self.id,
            e.timestamp == self.timestamp,
    {
        TelemetryEvent { pid: Some(pid), ..self }
    }

    pub fn with_uid(self, uid: u32) -> (e: TelemetryEvent)
        ensures
            e.report() == (TelemetryModel { uid: Some(uid), ..self.report() }),
            e.id == self.id,
            e.timestamp == self.timestamp,
    {
        TelemetryEvent { uid: Some(uid), ..self }
    }

    pub fn with_object_id(self, object_id: &str) -> (e: TelemetryEvent)
        ensures
            e.report() == (TelemetryModel { object_id: Some(object_id@), ..self.report() }),
            e.id == self.id,
            e.timestamp == self.timestamp,
    {
        TelemetryEvent { object_id: Some(owned(object_id)), ..self }
    }

    pub fn with_metadata(self, metadata: DataMap) -> (e: TelemetryEvent)
        ensures
            e.report() == (TelemetryModel { metadata: metadata@, ..self.report() }),
            e.id == self.id,
            e.timestamp == self.timestamp,
    {
        TelemetryEvent { metadata, ..self }
    }
}

} // verus!
