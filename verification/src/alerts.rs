//! Alert kinds and events: one kind per watched metric.
use vstd::prelude::*;

verus! {

#[verifier::external_type_specification]
#[verifier::external_body]
pub struct ExInstant(std::time::Instant);

#[derive(Debug, Clone, Copy, PartialEq, Eq, Structural)]
pub enum AlertKind {
    Cpu,
    Ram,
    GpuTemp,
    GpuUsage,
    DiskFree,
    Ping,
    Battery,
    FanStopped,
}

#[derive(Debug)]
pub struct AlertEvent {
    pub kind: AlertKind,
    pub message: String,
    pub triggered_at: std::time::Instant,
}

} // verus!
