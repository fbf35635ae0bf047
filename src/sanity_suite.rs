use vstd::prelude::*;

use crate::input_suite::AcceptAll;
use crate::internal::Impl;
use crate::internal::Phase;

verus! {

/// Starts a fresh engine and shuts it down; returns the phases it went
/// through after each command.
pub fn engine_can_be_started_and_stopped() -> (r: (Phase, Phase))
    ensures
        r == (Phase::Running, Phase::Terminated),
{
    let mut engine: Impl<AcceptAll> = Impl::new();
    let started = engine.start();
    let after_start = engine.phase();
    engine.shutdown();
    (after_start, engine.phase())
}

/// Starts a fresh engine without waiting on anything the start hands out,
/// and shuts it down; returns the phases after each command.
pub fn engine_can_be_started_and_stopped_without_waiting() -> (r: (Phase, Phase))
    ensures
        r == (Phase::Running, Phase::Terminated),
{
    let mut engine: Impl<AcceptAll> = Impl::new();
    let started = engine.start();
    let after_start = engine.phase();
    engine.shutdown();
    (after_start, engine.phase())
}

} // verus!
