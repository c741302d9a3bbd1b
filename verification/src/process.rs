//! Processes: how many are kept, and ending one.
use vstd::prelude::*;

use crate::MonDashboardError;

verus! {

/// Number of processes kept. The full list (often 400+) is never shown and
/// would be costly to sort at every tick.
pub const MAX_PROCESSES: usize = 50;

/// Ending a process is not offered in this version: every request is
/// refused with a `Process` error, whatever the pid.
pub fn kill_process(pid: u32) -> (r: Result<(), MonDashboardError>)
    ensures
        r matches Err(MonDashboardError::Process(_)),
{
    let text = crate::text::chars_of("ending a process is not supported");
    let message = crate::text::string_of(text.as_slice());
    Err(MonDashboardError::Process(message))
}

} // verus!
