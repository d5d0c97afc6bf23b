//! The decisions of the periodic sweep.
//!
//! Sweeping needs a timer, and a timer is not something this crate can hold.
//! So the crate decides and the caller acts: the caller reports what happened
//! as a [`SweeperEvent`], [`step`] sweeps the store where that is due and
//! answers with the [`SweeperAction`] to perform next. A caller that starts
//! with `Started` and follows every answer sweeps once per
//! `SWEEP_INTERVAL_MILLIS` until it is told to stop.

use vstd::prelude::*;
use crate::config::SWEEP_INTERVAL_MILLIS;
use crate::model::{holds, lookup, swept, visible, Record};
use crate::store::Store;

verus! {

/// Where the sweeper stands.
#[derive(Clone, Copy, Debug, PartialEq, Eq)]
pub enum SweeperState {
    /// Sweeping goes on.
    Running,
    /// Shutdown was requested. Nothing is swept any more.
    Stopped,
}

/// What the caller reports.
#[derive(Clone, Copy, Debug, PartialEq, Eq)]
pub enum SweeperEvent {
    /// The sweeper task has just been started.
    Started,
    /// The sleep that was asked for is over; it is `now`.
    TimerFired { now: u64 },
    /// The process is shutting down.
    ShutdownRequested,
}

/// What the caller does next.
#[derive(Clone, Copy, Debug, PartialEq, Eq)]
pub enum SweeperAction {
    /// Sleep for that long, then report `TimerFired`.
    Sleep { millis: u64 },
    /// Leave the loop.
    Stop,
}

/// The state after `event`, and the action that answers it.
pub open spec fn transition(state: SweeperState, event: SweeperEvent) -> (
    SweeperState,
    SweeperAction,
) {
    if state == SweeperState::Stopped || event == SweeperEvent::ShutdownRequested {
        (SweeperState::Stopped, SweeperAction::Stop)
    } else {
        (SweeperState::Running, SweeperAction::Sleep { millis: SWEEP_INTERVAL_MILLIS })
    }
}

/// The contents that `event` leaves behind: swept where a running sweeper's
/// timer fired, untouched otherwise.
pub open spec fn contents_after(state: SweeperState, event: SweeperEvent, s: Seq<Record>) -> Seq<
    Record,
> {
    match (state, event) {
        (SweeperState::Running, SweeperEvent::TimerFired { now }) => swept(s, now),
        _ => s,
    }
}

/// Handles one event of the sweeper's loop.
///
/// A sweep that has begun always runs to its end: shutdown is looked at
/// between events, never inside one.
pub fn step(state: SweeperState, event: SweeperEvent, store: &mut Store) -> (next: (
    SweeperState,
    SweeperAction,
))
    ensures
        next == transition(state, event),
        final(store)@ == contents_after(state, event, old(store)@),
        forall|id: Seq<char>|
            #![trigger lookup(final(store)@, id)]
            #![trigger holds(final(store)@, id)]
            lookup(final(store)@, id) == match (state, event) {
                (SweeperState::Running, SweeperEvent::TimerFired { now }) => visible(
                    old(store)@,
                    id,
                    now,
                ),
                _ => lookup(old(store)@, id),
            },
{
    match state {
        SweeperState::Stopped => (SweeperState::Stopped, SweeperAction::Stop),
        SweeperState::Running => match event {
            SweeperEvent::ShutdownRequested => (SweeperState::Stopped, SweeperAction::Stop),
            SweeperEvent::Started => (
                SweeperState::Running,
                SweeperAction::Sleep { millis: SWEEP_INTERVAL_MILLIS },
            ),
            SweeperEvent::TimerFired { now } => {
                store.sweep(now);
                (SweeperState::Running, SweeperAction::Sleep { millis: SWEEP_INTERVAL_MILLIS })
            },
        },
    }
}

} // verus!
