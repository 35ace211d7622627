//! Setting a system property: `resetprop` first, `setprop` as the fallback.
use vstd::prelude::*;

verus! {

/// How a run of `resetprop` went.
#[derive(Debug, Clone, Copy, PartialEq, Eq, Structural)]
pub enum PropRun {
    /// It could not be started.
    NotStarted,
    /// It started, but waiting for it failed.
    WaitFailed,
    /// It ran and exited, successfully or not.
    Exited(bool),
}

/// `setprop` is tried when `resetprop` could not be started or exited with
/// a failure; not when waiting for it failed.
pub open spec fn needs_setprop_spec(run: PropRun) -> bool {
    match run {
        PropRun::NotStarted => true,
        PropRun::WaitFailed => false,
        PropRun::Exited(ok) => !ok,
    }
}

/// Whether to fall back to `setprop` after a run of `resetprop`.
pub fn needs_setprop(run: PropRun) -> (r: bool)
    ensures
        r == needs_setprop_spec(run),
{
    match run {
        PropRun::NotStarted => true,
        PropRun::WaitFailed => false,
        PropRun::Exited(ok) => !ok,
    }
}

} // verus!
