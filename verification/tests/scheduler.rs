use dia_batching_server::scheduler::advance;
use dia_batching_server::scheduler::remaining_delay;
use dia_batching_server::scheduler::SchedulerAction;
use dia_batching_server::scheduler::SchedulerState;

#[test]
fn remaining_delay_is_the_rest_of_the_budget() {
    assert_eq!(remaining_delay(60, 25), 35);
    assert_eq!(remaining_delay(60, 0), 60);
    assert_eq!(remaining_delay(60, 60), 0);
    assert_eq!(remaining_delay(60, 61), 0);
    assert_eq!(remaining_delay(0, 0), 0);
    assert_eq!(remaining_delay(u128::MAX, 1), u128::MAX - 1);
    assert_eq!(remaining_delay(1, u128::MAX), 0);
}

#[test]
fn scheduler_runs_sleeps_and_runs_again() {
    let budget = 60_000_000_000u128;
    let (state, action) = advance(SchedulerState::Idle, budget, 1_000);
    assert_eq!(state, SchedulerState::Running { started: 1_000 });
    assert_eq!(action, SchedulerAction::RunIteration);

    let (state, action) = advance(state, budget, 1_000 + 25_000_000_000);
    assert_eq!(state, SchedulerState::Sleeping { remainder: 35_000_000_000 });
    assert_eq!(action, SchedulerAction::Sleep(35_000_000_000));

    let (state, action) = advance(state, budget, 1_000 + 60_000_000_000);
    assert_eq!(state, SchedulerState::Running { started: 1_000 + 60_000_000_000 });
    assert_eq!(action, SchedulerAction::RunIteration);
}

#[test]
fn round_that_overruns_is_followed_by_no_sleep() {
    let (state, action) = advance(SchedulerState::Running { started: 10 }, 60, 100);
    assert_eq!(state, SchedulerState::Sleeping { remainder: 0 });
    assert_eq!(action, SchedulerAction::Sleep(0));
    let (state, action) = advance(state, 60, 100);
    assert_eq!(state, SchedulerState::Running { started: 100 });
    assert_eq!(action, SchedulerAction::RunIteration);
}

#[test]
fn clock_reading_before_the_start_counts_as_no_time() {
    let (state, action) = advance(SchedulerState::Running { started: 100 }, 60, 10);
    assert_eq!(state, SchedulerState::Sleeping { remainder: 60 });
    assert_eq!(action, SchedulerAction::Sleep(60));
}
