//! The report of one external command invocation.

use vstd::prelude::*;

verus! {

/// How one external command invocation ended: it could not be spawned
/// at all, or it exited, successfully or not.
#[derive(Debug, PartialEq, Eq, Structural, Clone, Copy)]
pub enum CmdOutcome {
    SpawnFailed,
    Exited(bool),
}

} // verus!
