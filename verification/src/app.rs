//! The outcome of command-line argument handling. Sometimes the handling
//! has already done all the work and the run should stop; otherwise the
//! timetables are printed afterwards.

use vstd::prelude::*;

verus! {

/// Whether the run continues after argument handling.
#[derive(Clone, Copy, PartialEq, Eq, Structural, Debug)]
pub enum ArgumentProcessResult {
    Stop,
    Continue,
}

/// Argument handling stops the run exactly when a wipe of the whole
/// configuration was requested and confirmed.
pub fn resolve_argument_outcome(wipe_requested: bool, wipe_confirmed: bool) -> (r:
    ArgumentProcessResult)
    ensures
        r == (if wipe_requested && wipe_confirmed {
            ArgumentProcessResult::Stop
        } else {
            ArgumentProcessResult::Continue
        }),
{
    if wipe_requested && wipe_confirmed {
        ArgumentProcessResult::Stop
    } else {
        ArgumentProcessResult::Continue
    }
}

} // verus!
