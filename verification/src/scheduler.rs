//! The recurring scheduler: two phases in strict sequence, forever.
//!
//! Each iteration runs `INGEST` (collect, then persist) and then
//! `BACKFILL` (scan, then enrich), then sleeps out the fixed period.
//! The decision of what comes next lives here, verified; the loop that
//! performs the phases and sleeps is outside.  An error inside a phase
//! is caught at the phase boundary and never changes what comes next:
//! the successor state does not depend on how the phase came out.

use vstd::prelude::*;

use crate::errors::CoreError;

verus! {

/// The fixed wall-clock period of the scheduler, in seconds, measured
/// from iteration start.
pub const SCHEDULER_PERIOD_SECS: u64 = 300;

/// The phase the scheduler is in.
#[derive(Clone, Copy)]
pub enum SchedulerPhase {
    Ingest,
    Backfill,
    Sleeping,
}

/// Where the scheduler stands: which phase of which iteration.
#[derive(Clone, Copy)]
pub struct SchedulerState {
    pub iteration: u64,
    pub phase: SchedulerPhase,
}

/// How a phase came out.  Failures carry the error that was caught and
/// logged at the phase boundary.
pub enum PhaseOutcome {
    Completed,
    Failed(CoreError),
}

/// The one successor of a scheduler state: `INGEST` is followed by
/// `BACKFILL` of the same iteration, `BACKFILL` by the sleep, and the
/// sleep by `INGEST` of the next iteration.
pub open spec fn spec_scheduler_step(st: SchedulerState) -> SchedulerState {
    match st.phase {
        SchedulerPhase::Ingest => SchedulerState {
            iteration: st.iteration,
            phase: SchedulerPhase::Backfill,
        },
        SchedulerPhase::Backfill => SchedulerState {
            iteration: st.iteration,
            phase: SchedulerPhase::Sleeping,
        },
        SchedulerPhase::Sleeping => SchedulerState {
            iteration: (st.iteration + 1) as u64,
            phase: SchedulerPhase::Ingest,
        },
    }
}

/// Where the scheduler starts: `INGEST` of iteration 0, entered
/// immediately.
pub fn initial_state() -> (s: SchedulerState)
    ensures
        s == (SchedulerState { iteration: 0u64, phase: SchedulerPhase::Ingest }),
{
    SchedulerState { iteration: 0, phase: SchedulerPhase::Ingest }
}

/// Advance the scheduler past one phase (or one sleep).  The outcome of
/// the phase is taken — it is what the loop caught and logged — but the
/// successor never depends on it: an error does not retry, skip, or
/// halt anything.
pub fn scheduler_step(st: &SchedulerState, outcome: &PhaseOutcome) -> (next: SchedulerState)
    requires
        st.phase is Sleeping ==> st.iteration < u64::MAX,
    ensures
        next == spec_scheduler_step(*st),
{
    match st.phase {
        SchedulerPhase::Ingest => SchedulerState {
            iteration: st.iteration,
            phase: SchedulerPhase::Backfill,
        },
        SchedulerPhase::Backfill => SchedulerState {
            iteration: st.iteration,
            phase: SchedulerPhase::Sleeping,
        },
        SchedulerPhase::Sleeping => SchedulerState {
            iteration: st.iteration + 1,
            phase: SchedulerPhase::Ingest,
        },
    }
}

/// Scheduler resilience: an `INGEST` phase that failed — with a
/// persistence error or any other — is followed by `BACKFILL` of the
/// very same iteration, exactly as a successful one is: the successor
/// state is the same whatever the outcome was.
pub proof fn lemma_scheduler_resilient(st: SchedulerState)
    requires
        st.phase is Ingest,
    ensures
        spec_scheduler_step(st).phase is Backfill,
        spec_scheduler_step(st).iteration == st.iteration,
{
}

} // verus!
