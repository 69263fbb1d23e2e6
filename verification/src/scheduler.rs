//! The cadence of the rounds of price collection.
//!
//! Rounds follow each other for as long as the process lives. Each round
//! has a budget of time: when it ends early the scheduler sleeps for what is
//! left of the budget, when it ends late the next round starts at once.
//! Rounds never overlap and none is skipped.
//!
//! Times are counted in nanoseconds on a clock that never goes back.

use vstd::prelude::*;

verus! {

/// The time left of `budget` after `elapsed` has passed: their difference,
/// or nothing when the budget is used up.
pub open spec fn remaining(budget: u128, elapsed: u128) -> u128 {
    if elapsed >= budget {
        0
    } else {
        (budget - elapsed) as u128
    }
}

/// The time that has passed between two readings of the clock; a reading
/// that lies before the start counts as no time at all.
pub open spec fn elapsed_between(started: u128, now: u128) -> u128 {
    if now >= started {
        (now - started) as u128
    } else {
        0
    }
}

/// Where the scheduler stands.
#[derive(Debug, Clone, Copy, PartialEq, Eq, Structural)]
pub enum SchedulerState {
    /// No round has been started yet.
    Idle,
    /// A round is running since the moment `started`.
    Running { started: u128 },
    /// The scheduler sleeps for `remainder` before the next round.
    Sleeping { remainder: u128 },
}

/// What the driver of the scheduler has to do next.
#[derive(Debug, Clone, Copy, PartialEq, Eq, Structural)]
pub enum SchedulerAction {
    /// Run one round of price collection to its end.
    RunIteration,
    /// Sleep for this long.
    Sleep(u128),
}

/// The state and the action that follow when the last action is done and
/// the clock reads `now`.
pub open spec fn advanced(state: SchedulerState, budget: u128, now: u128) -> (
    SchedulerState,
    SchedulerAction,
) {
    match state {
        SchedulerState::Idle | SchedulerState::Sleeping { .. } => (
            SchedulerState::Running { started: now },
            SchedulerAction::RunIteration,
        ),
        SchedulerState::Running { started } => {
            let remainder = remaining(budget, elapsed_between(started, now));
            (SchedulerState::Sleeping { remainder }, SchedulerAction::Sleep(remainder))
        },
    }
}

/// Computes the time left of a budget.
pub fn remaining_delay(budget: u128, elapsed: u128) -> (left: u128)
    ensures
        left == remaining(budget, elapsed),
{
    budget.saturating_sub(elapsed)
}

/// Moves the scheduler on: the driver calls it when the last action is done,
/// with the current reading of the clock, and performs the action returned.
///
/// From rest, and after every sleep, a round is started. After a round the
/// scheduler sleeps for what is left of the budget, which is nothing when
/// the round took longer.
pub fn advance(state: SchedulerState, budget: u128, now: u128) -> (next: (
    SchedulerState,
    SchedulerAction,
))
    ensures
        next == advanced(state, budget, now),
{
    match state {
        SchedulerState::Idle => (
            SchedulerState::Running { started: now },
            SchedulerAction::RunIteration,
        ),
        SchedulerState::Sleeping { remainder: _ } => (
            SchedulerState::Running { started: now },
            SchedulerAction::RunIteration,
        ),
        SchedulerState::Running { started } => {
            let elapsed = now.saturating_sub(started);
            let remainder = remaining_delay(budget, elapsed);
            (SchedulerState::Sleeping { remainder }, SchedulerAction::Sleep(remainder))
        },
    }
}

/// A round and the sleep after it fill the budget exactly when the round
/// ends in time; a round that overruns is followed by no sleep at all.
pub proof fn lemma_sleep_fills_budget(budget: u128, started: u128, now: u128)
    requires
        started <= now,
    ensures
        remaining(budget, elapsed_between(started, now)) <= budget,
        now - started <= budget ==> (now - started) + remaining(
            budget,
            elapsed_between(started, now),
        ) == budget,
        now - started >= budget ==> remaining(budget, elapsed_between(started, now)) == 0,
{
}

/// Rounds and sleeps alternate: a round is started from rest and after every
/// sleep and at no other time, and every round is followed by exactly one
/// sleep. So rounds never overlap and none is skipped.
pub proof fn lemma_rounds_alternate(state: SchedulerState, budget: u128, now: u128)
    ensures
        advanced(state, budget, now).1 == SchedulerAction::RunIteration <==> !(state
            is Running),
        advanced(state, budget, now).0 is Running <==> !(state is Running),
        advanced(state, budget, now).0 is Sleeping <==> state is Running,
        !(advanced(state, budget, now).0 is Idle),
{
}

} // verus!
