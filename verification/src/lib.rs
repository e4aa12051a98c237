//! Verified core logic of a host intrusion-detection agent: the object and
//! evidence model, threat correlation, the evidence graph, incident
//! bookkeeping, threat-intelligence lookups and the binary formats of the
//! kernel event sources.

pub mod assessment;
pub mod text;
pub mod clock;
pub mod value;
pub mod threat;
pub mod evidence;
pub mod grouping;
pub mod correlation;
pub mod graph;
pub mod core_evidence;
pub mod object;
pub mod incident;
pub mod evidence_rules;
pub mod evidence_correlator;
pub mod behavior;
pub mod ebpf;
pub mod fanotify;
pub mod detector;
pub mod intelligence;
pub mod symbols;
pub mod providers;
pub mod forensics;
pub mod hardening;
pub mod telemetry;
pub mod pipeline;
pub mod integrity;
pub mod hooks;
pub mod resources;
pub mod snapshot;
pub mod kernel_integrity;
pub mod memory_integrity;
pub mod fleet;
pub mod database;
