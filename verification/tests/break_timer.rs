use annoyodoro::break_timer::{BreakInput, BreakOutcome, BreakTimer, ExitPolicy};

const SEC: u64 = 1_000_000_000;

fn timer(policy: ExitPolicy) -> BreakTimer {
    BreakTimer::new(policy, false, 5 * SEC, 100).expect("fits")
}

#[test]
fn new_break_has_its_full_length() {
    let timer = BreakTimer::new(ExitPolicy::WorkGoal, true, 5 * SEC, 100).expect("fits");
    assert_eq!(timer.remaining(), 5 * SEC as i64);
    assert!(timer.is_long());
    assert!(!timer.time_is_up());
    assert_eq!(timer.work_goal(), "");
}

#[test]
fn length_must_fit_a_signed_number() {
    assert!(BreakTimer::new(ExitPolicy::WorkGoal, false, i64::MAX as u64, 0).is_some());
    assert!(BreakTimer::new(ExitPolicy::WorkGoal, false, i64::MAX as u64 + 1, 0).is_none());
    assert!(BreakTimer::new(ExitPolicy::WorkGoal, false, u64::MAX, 0).is_none());
}

#[test]
fn countdown_goes_below_zero() {
    let mut timer = timer(ExitPolicy::WorkGoal);
    timer.on_tick(100 + 2 * SEC);
    assert_eq!(timer.remaining(), 3 * SEC as i64);
    timer.on_tick(100 + 5 * SEC);
    assert_eq!(timer.remaining(), 0);
    assert!(timer.time_is_up());
    timer.on_tick(100 + 12 * SEC);
    assert_eq!(timer.remaining(), -7 * SEC as i64);
}

#[test]
fn countdown_stops_at_the_least_number() {
    let mut timer = BreakTimer::new(ExitPolicy::WorkGoal, false, 0, 0).expect("fits");
    timer.on_tick(u64::MAX);
    assert_eq!(timer.remaining(), i64::MIN);
    let mut timer = BreakTimer::new(ExitPolicy::WorkGoal, false, 10, 0).expect("fits");
    timer.on_tick(i64::MAX as u64);
    assert_eq!(timer.remaining(), 10 - i64::MAX);
    timer.on_tick(i64::MAX as u64 + 12);
    assert_eq!(timer.remaining(), i64::MIN);
}

#[test]
fn tick_never_ends_a_break() {
    for policy in [
        ExitPolicy::FixedDuration,
        ExitPolicy::OvertimeOption { allowance: SEC },
        ExitPolicy::WorkGoal,
    ] {
        let mut timer = timer(policy);
        assert!(timer.update(BreakInput::Tick, 100 + 60 * SEC).is_none());
        assert_eq!(timer.remaining(), -55 * SEC as i64);
    }
}

#[test]
fn fixed_break_ends_on_the_first_input_after_its_time() {
    let mut timer = timer(ExitPolicy::FixedDuration);
    assert!(timer.update(BreakInput::OtherInput, 100 + SEC).is_none());
    assert!(timer.update(BreakInput::OvertimeRequested, 100 + SEC).is_none());
    assert!(timer.update(BreakInput::GoalSubmitted, 100 + SEC).is_none());
    timer.update(BreakInput::Tick, 100 + 5 * SEC);
    assert!(timer.update(BreakInput::GoalSubmitted, 100 + 6 * SEC).is_none());
    match timer.update(BreakInput::OtherInput, 100 + 6 * SEC) {
        Some(BreakOutcome::BreakCompleted { elapsed, goal }) => {
            assert_eq!(elapsed, 6 * SEC);
            assert_eq!(goal, "");
        }
        other => panic!("unexpected {other:?}"),
    }
    assert!(matches!(
        timer.update(BreakInput::OvertimeRequested, 100 + 7 * SEC),
        Some(BreakOutcome::BreakCompleted { elapsed, .. }) if elapsed == 7 * SEC
    ));
}

#[test]
fn overtime_request_ends_a_running_break_at_once() {
    let mut timer = timer(ExitPolicy::OvertimeOption { allowance: 120 * SEC });
    assert!(timer.update(BreakInput::OtherInput, 100 + SEC).is_none());
    assert!(matches!(
        timer.update(BreakInput::OvertimeRequested, 100 + SEC),
        Some(BreakOutcome::OvertimeAllowanceGranted(allowance)) if allowance == 120 * SEC
    ));
}

#[test]
fn overtime_request_after_the_time_completes_the_break() {
    let mut timer = timer(ExitPolicy::OvertimeOption { allowance: 120 * SEC });
    timer.update(BreakInput::Tick, 100 + 5 * SEC);
    assert!(matches!(
        timer.update(BreakInput::OvertimeRequested, 100 + 5 * SEC),
        Some(BreakOutcome::BreakCompleted { elapsed, .. }) if elapsed == 5 * SEC
    ));
    assert!(matches!(
        timer.update(BreakInput::OtherInput, 100 + 8 * SEC),
        Some(BreakOutcome::BreakCompleted { elapsed, .. }) if elapsed == 8 * SEC
    ));
}

#[test]
fn submitted_goal_ends_a_work_goal_break_whatever_time_is_left() {
    let mut timer = timer(ExitPolicy::WorkGoal);
    assert!(timer.update(BreakInput::GoalSubmitted, 100).is_none());
    assert!(timer.update(BreakInput::GoalChanged("plan".to_string()), 100).is_none());
    assert!(!timer.time_is_up());
    match timer.update(BreakInput::GoalSubmitted, 100 + SEC) {
        Some(BreakOutcome::BreakCompleted { elapsed, goal }) => {
            assert_eq!(elapsed, SEC);
            assert_eq!(goal, "plan");
        }
        other => panic!("unexpected {other:?}"),
    }
    assert_eq!(timer.remaining(), 5 * SEC as i64);
    assert_eq!(timer.work_goal(), "plan");
}

#[test]
fn work_goal_break_ends_only_on_a_submitted_goal_that_is_not_empty() {
    let mut timer = timer(ExitPolicy::WorkGoal);
    assert!(timer.update(BreakInput::GoalChanged("plan".to_string()), 100).is_none());
    assert_eq!(timer.work_goal(), "plan");
    timer.update(BreakInput::Tick, 100 + 9 * SEC);
    assert!(timer.update(BreakInput::OtherInput, 100 + 9 * SEC).is_none());
    assert!(timer.update(BreakInput::OvertimeRequested, 100 + 9 * SEC).is_none());
    assert!(timer.update(BreakInput::GoalChanged(String::new()), 100 + 9 * SEC).is_none());
    assert!(timer.update(BreakInput::GoalSubmitted, 100 + 9 * SEC).is_none());
    assert!(timer.update(BreakInput::GoalChanged("review".to_string()), 100 + 9 * SEC).is_none());
    match timer.update(BreakInput::GoalSubmitted, 100 + 10 * SEC) {
        Some(BreakOutcome::BreakCompleted { elapsed, goal }) => {
            assert_eq!(elapsed, 10 * SEC);
            assert_eq!(goal, "review");
        }
        other => panic!("unexpected {other:?}"),
    }
    assert_eq!(timer.remaining(), -4 * SEC as i64);
}

#[test]
fn goal_edits_are_ignored_where_no_goal_is_asked_for() {
    let mut timer = timer(ExitPolicy::FixedDuration);
    assert!(timer.update(BreakInput::GoalChanged("plan".to_string()), 100).is_none());
    assert_eq!(timer.work_goal(), "");
}

#[test]
fn break_ends_exactly_at_zero() {
    let mut timer = timer(ExitPolicy::FixedDuration);
    timer.update(BreakInput::Tick, 100 + 5 * SEC - 1);
    assert!(timer.update(BreakInput::OtherInput, 100 + 5 * SEC - 1).is_none());
    timer.update(BreakInput::Tick, 100 + 5 * SEC);
    assert!(timer.update(BreakInput::OtherInput, 100 + 5 * SEC).is_some());
}
