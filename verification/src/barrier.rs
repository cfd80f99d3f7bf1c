//! Polling synchronization barrier over the monitor registry.
//!
//! The barrier has two states, WAITING and DONE, and DONE is terminal.
//! Each tick takes one snapshot of the registry.  If every monitor's
//! cursor has reached the target height — vacuously so for an empty
//! registry — the barrier transitions to DONE with no progress
//! observations.  Otherwise it stays WAITING and emits one progress
//! observation per lagging monitor: its ordinal position, identity,
//! cursor and the target.  The caller performs the sleeping and
//! repeats the tick; termination is owed only if the external workers
//! eventually advance every monitor.

use crate::monitor::{Database, MonitorData};
use vstd::prelude::*;

verus! {

/// The barrier's two states; `Done` is terminal.
#[derive(Clone, Copy, Debug, PartialEq, Eq, Structural)]
pub enum BarrierState {
    Waiting,
    Done,
}

/// One progress report for a lagging monitor: its 1-based position in
/// the registry snapshot, its identity, its cursor, and the target.
#[derive(Clone, Copy, Debug, PartialEq, Eq, Structural)]
pub struct ProgressObservation {
    pub ordinal: usize,
    pub monitor_id: u64,
    pub next_block: u64,
    pub target: u64,
}

/// What one tick reports: done, or the lagging monitors.
#[derive(Clone, Debug, PartialEq, Eq)]
pub enum TickOutcome {
    Done,
    Waiting(Vec<ProgressObservation>),
}

/// Every monitor among the first `n` has consumed the chain up to
/// `target`.
pub open spec fn caught_up_to(ms: Seq<(u64, MonitorData)>, target: u64, n: int) -> bool {
    forall|i: int| 0 <= i < n ==> (#[trigger] ms[i]).1.next_block >= target
}

/// Every monitor has consumed the chain up to `target`; vacuously true
/// of an empty registry.
pub open spec fn all_caught_up(ms: Seq<(u64, MonitorData)>, target: u64) -> bool {
    caught_up_to(ms, target, ms.len() as int)
}

/// The observations for the lagging monitors among the first `n`, in
/// registry order, each with its 1-based ordinal.
pub open spec fn lagging_to(ms: Seq<(u64, MonitorData)>, target: u64, n: int) -> Seq<ProgressObservation>
    decreases n,
{
    if n <= 0 {
        Seq::empty()
    } else {
        let prev = lagging_to(ms, target, n - 1);
        if 0 <= n - 1 < ms.len() && ms[n - 1].1.next_block < target {
            prev.push(
                ProgressObservation {
                    ordinal: n as usize,
                    monitor_id: ms[n - 1].0,
                    next_block: ms[n - 1].1.next_block,
                    target,
                },
            )
        } else {
            prev
        }
    }
}

/// The observations for all lagging monitors.
pub open spec fn lagging_observations(ms: Seq<(u64, MonitorData)>, target: u64) -> Seq<ProgressObservation> {
    lagging_to(ms, target, ms.len() as int)
}

/// Whether a tick outcome is the one owed over snapshot `ms` and
/// `target`: done exactly when all monitors caught up, else the lagging
/// observations.
pub open spec fn tick_outcome_ok(ms: Seq<(u64, MonitorData)>, target: u64, r: TickOutcome) -> bool {
    match r {
        TickOutcome::Done => all_caught_up(ms, target),
        TickOutcome::Waiting(obs) => !all_caught_up(ms, target) && obs@ == lagging_observations(
            ms,
            target,
        ),
    }
}

/// Blocks-until-caught-up barrier: the target height and the current
/// state.
pub struct SyncBarrier {
    pub target: u64,
    pub state: BarrierState,
}

impl SyncBarrier {
    /// A waiting barrier for the given target height.
    pub fn new(target: u64) -> (r: SyncBarrier)
        ensures
            r.target == target,
            r.state == BarrierState::Waiting,
    {
        SyncBarrier { target, state: BarrierState::Waiting }
    }

    /// One tick over an atomic snapshot of the registry.  Transitions to
    /// DONE — with no observations and no further wait — exactly when
    /// every monitor's cursor has reached the target, vacuously so for
    /// an empty registry; otherwise stays WAITING and reports one
    /// observation per lagging monitor.  DONE is terminal: a finished
    /// barrier may not tick again.
    pub fn tick(&mut self, db: &Database) -> (r: TickOutcome)
        requires
            old(self).state == BarrierState::Waiting,
        ensures
            final(self).target == old(self).target,
            tick_outcome_ok(db.monitors@, old(self).target, r),
            final(self).state == (if all_caught_up(db.monitors@, old(self).target) {
                BarrierState::Done
            } else {
                BarrierState::Waiting
            }),
    {
        let ghost ms = db.monitors@;
        let target = self.target;
        let n = db.monitors.len();
        let mut obs: Vec<ProgressObservation> = Vec::new();
        let mut all_ok: bool = true;
        let mut i: usize = 0;
        while i < n
            invariant
                0 <= i <= n,
                n == ms.len(),
                ms == db.monitors@,
                target == old(self).target,
                all_ok == caught_up_to(ms, target, i as int),
                obs@ == lagging_to(ms, target, i as int),
            decreases n - i,
        {
            let entry = db.monitors[i];
            if entry.1.next_block < target {
                obs.push(
                    ProgressObservation {
                        ordinal: i + 1,
                        monitor_id: entry.0,
                        next_block: entry.1.next_block,
                        target,
                    },
                );
                all_ok = false;
            }
            proof {
                assert(caught_up_to(ms, target, i + 1) == (caught_up_to(ms, target, i as int)
                    && ms[i as int].1.next_block >= target)) by {
                    if caught_up_to(ms, target, i as int) && ms[i as int].1.next_block >= target {
                        assert forall|j: int| 0 <= j < i + 1 implies (
                        #[trigger] ms[j]).1.next_block >= target by {}
                    }
                }
            }
            i = i + 1;
        }
        if all_ok {
            self.state = BarrierState::Done;
            TickOutcome::Done
        } else {
            TickOutcome::Waiting(obs)
        }
    }
}

} // verus!
