use annoyodoro::config::{duration_from_mins_secs, PomodoroConfig};
use annoyodoro::cycle::{take_break, Action, AppState, Message};

const SEC: u64 = 1_000_000_000;

fn config() -> PomodoroConfig {
    PomodoroConfig {
        break_duration: 5 * 60 * SEC,
        work_duration: 20 * 60 * SEC,
        long_break_duration: 15 * 60 * SEC,
        notification_duration: 60 * SEC,
        long_break_each: 4,
    }
}

fn running(config: &PomodoroConfig, now: u64) -> AppState {
    let (state, _) = AppState::Startup.update(Message::StartupFocus, config, now);
    let (state, _) =
        state.update(Message::InitialWorkGoalChange("write".to_string()), config, now);
    let (state, _) = state.update(Message::InitialWorkGoalSubmit, config, now);
    state
}

fn long_break_in(state: &AppState) -> u16 {
    match state {
        AppState::Running { long_break_in, .. } => *long_break_in,
        _ => panic!("not running"),
    }
}

#[test]
fn cadence_of_four_gives_three_short_breaks_then_a_long_one() {
    let mut counter = 4;
    let mut kinds = Vec::new();
    for _ in 0..4 {
        let (next, long) = take_break(counter, 4);
        counter = next;
        kinds.push(long);
    }
    assert_eq!(kinds, vec![false, false, false, true]);
    assert_eq!(counter, 4);
}

#[test]
fn cadence_repeats() {
    let mut counter = 3;
    let mut kinds = Vec::new();
    for _ in 0..9 {
        let (next, long) = take_break(counter, 3);
        counter = next;
        kinds.push(long);
    }
    assert_eq!(kinds, vec![false, false, true, false, false, true, false, false, true]);
    assert_eq!(counter, 3);
}

#[test]
fn cadence_of_one_makes_every_break_long() {
    assert_eq!(take_break(1, 1), (1, true));
}

#[test]
fn counter_goes_down_by_one() {
    assert_eq!(take_break(4, 4), (3, false));
    assert_eq!(take_break(2, 4), (1, false));
    assert_eq!(take_break(1, 4), (4, true));
}

#[test]
fn focus_signal_opens_the_prompt() {
    let (state, outcome) = AppState::Startup.update(Message::StartupFocus, &config(), 0);
    assert!(matches!(&state, AppState::InitialWorkGoalPrompt { goal } if goal.is_empty()));
    assert!(matches!(outcome.action, Action::FocusInput));
    assert_eq!(outcome.notify, None);
}

#[test]
fn goal_edits_replace_the_goal() {
    let config = config();
    let (state, _) = AppState::Startup.update(Message::StartupFocus, &config, 0);
    let (state, _) = state.update(Message::InitialWorkGoalChange("a".to_string()), &config, 0);
    let (state, outcome) =
        state.update(Message::InitialWorkGoalChange("ab".to_string()), &config, 0);
    assert!(matches!(&state, AppState::InitialWorkGoalPrompt { goal } if goal == "ab"));
    assert!(matches!(outcome.action, Action::Idle));
}

#[test]
fn submitting_an_empty_goal_changes_nothing() {
    let config = config();
    let (state, _) = AppState::Startup.update(Message::StartupFocus, &config, 0);
    let (state, outcome) = state.update(Message::InitialWorkGoalSubmit, &config, 0);
    assert!(matches!(&state, AppState::InitialWorkGoalPrompt { goal } if goal.is_empty()));
    assert!(matches!(outcome.action, Action::Idle));
}

#[test]
fn submitting_a_goal_starts_the_first_session() {
    let config = config();
    let (state, _) = AppState::Startup.update(Message::StartupFocus, &config, 0);
    let (state, _) = state.update(Message::InitialWorkGoalChange("write".to_string()), &config, 0);
    let (state, outcome) = state.update(Message::InitialWorkGoalSubmit, &config, 77);
    match state {
        AppState::Running { long_break_in, work_timer, last_work_session, shown_notification } => {
            assert_eq!(long_break_in, 4);
            assert_eq!(work_timer.duration_remaning(), 20 * 60 * SEC);
            assert!(!work_timer.is_paused());
            assert!(!last_work_session);
            assert!(!shown_notification);
        }
        _ => panic!("not running"),
    }
    assert!(matches!(outcome.action, Action::BeginSession { goal } if goal == "write"));
}

#[test]
fn messages_are_accepted_only_where_they_have_a_transition() {
    let config = config();
    let startup = AppState::Startup;
    let prompt = AppState::InitialWorkGoalPrompt { goal: String::new() };
    let run = running(&config, 0);
    assert!(startup.accepts(&Message::StartupFocus));
    assert!(!startup.accepts(&Message::Tick));
    assert!(!startup.accepts(&Message::TogglePause));
    assert!(!startup.accepts(&Message::InitialWorkGoalSubmit));
    assert!(prompt.accepts(&Message::InitialWorkGoalSubmit));
    assert!(prompt.accepts(&Message::InitialWorkGoalChange("x".to_string())));
    assert!(!prompt.accepts(&Message::StartupFocus));
    assert!(!prompt.accepts(&Message::ToggleLastWorkSession));
    assert!(run.accepts(&Message::Tick));
    assert!(run.accepts(&Message::TogglePause));
    assert!(run.accepts(&Message::ToggleLastWorkSession));
    assert!(!run.accepts(&Message::StartupFocus));
    assert!(!run.accepts(&Message::InitialWorkGoalChange("x".to_string())));
}

#[test]
fn tick_advances_the_timer() {
    let config = config();
    let state = running(&config, 0);
    let (state, outcome) = state.update(Message::Tick, &config, 60 * SEC);
    assert!(matches!(outcome.action, Action::Idle));
    assert_eq!(outcome.notify, None);
    match state {
        AppState::Running { work_timer, long_break_in, .. } => {
            assert_eq!(work_timer.duration_remaning(), 19 * 60 * SEC);
            assert_eq!(long_break_in, 4);
        }
        _ => panic!("not running"),
    }
}

#[test]
fn coming_break_is_announced_exactly_once() {
    let config = config();
    let state = running(&config, 0);
    let (state, outcome) = state.update(Message::Tick, &config, 19 * 60 * SEC - 1);
    assert_eq!(outcome.notify, None);
    let (state, outcome) = state.update(Message::Tick, &config, 19 * 60 * SEC);
    assert_eq!(outcome.notify, Some(60 * SEC));
    let (state, outcome) = state.update(Message::Tick, &config, 19 * 60 * SEC + SEC);
    assert_eq!(outcome.notify, None);
    let (state, _) = state.update(Message::TogglePause, &config, 19 * 60 * SEC + 2 * SEC);
    let (state, _) = state.update(Message::TogglePause, &config, 19 * 60 * SEC + 3 * SEC);
    let (_, outcome) = state.update(Message::Tick, &config, 19 * 60 * SEC + 4 * SEC);
    assert_eq!(outcome.notify, None);
}

#[test]
fn break_is_due_when_the_timer_reaches_zero() {
    let config = config();
    let state = running(&config, 0);
    let (state, outcome) = state.update(Message::Tick, &config, 20 * 60 * SEC);
    assert!(matches!(
        outcome.action,
        Action::SpawnBreak { long_break: false, duration } if duration == 5 * 60 * SEC
    ));
    assert_eq!(outcome.notify, Some(0));
    assert_eq!(long_break_in(&state), 3);
}

#[test]
fn fourth_break_is_long_and_the_counter_starts_again() {
    let config = config();
    let mut state = running(&config, 0);
    let mut now = 0;
    let mut kinds = Vec::new();
    for _ in 0..4 {
        now += 20 * 60 * SEC;
        let (next, outcome) = state.update(Message::Tick, &config, now);
        match outcome.action {
            Action::SpawnBreak { long_break, duration } => {
                assert_eq!(duration, if long_break { 15 * 60 * SEC } else { 5 * 60 * SEC });
                kinds.push(long_break)
            }
            _ => panic!("no break"),
        }
        now += 5 * 60 * SEC;
        state = next.finish_break(&config, now);
    }
    assert_eq!(kinds, vec![false, false, false, true]);
    assert_eq!(long_break_in(&state), 4);
}

#[test]
fn last_session_ends_the_cycle() {
    let config = config();
    let state = running(&config, 0);
    let (state, outcome) = state.update(Message::ToggleLastWorkSession, &config, SEC);
    assert!(matches!(outcome.action, Action::Idle));
    assert!(matches!(&state, AppState::Running { last_work_session: true, .. }));
    let (state, outcome) = state.update(Message::Tick, &config, 20 * 60 * SEC);
    assert!(matches!(outcome.action, Action::Exit));
    assert_eq!(long_break_in(&state), 4);
}

#[test]
fn last_session_flag_toggles_back() {
    let config = config();
    let state = running(&config, 0);
    let (state, _) = state.update(Message::ToggleLastWorkSession, &config, 0);
    let (state, _) = state.update(Message::ToggleLastWorkSession, &config, 0);
    assert!(matches!(&state, AppState::Running { last_work_session: false, .. }));
}

#[test]
fn pause_stops_the_countdown() {
    let config = config();
    let state = running(&config, 0);
    let (state, _) = state.update(Message::TogglePause, &config, 60 * SEC);
    assert!(!state.wants_ticks());
    let (state, _) = state.update(Message::Tick, &config, 600 * SEC);
    let (state, _) = state.update(Message::TogglePause, &config, 700 * SEC);
    assert!(state.wants_ticks());
    match state {
        AppState::Running { work_timer, .. } => {
            assert_eq!(work_timer.duration_remaning(), 19 * 60 * SEC)
        }
        _ => panic!("not running"),
    }
}

#[test]
fn ticks_are_wanted_only_while_counting_down() {
    let config = config();
    assert!(!AppState::Startup.wants_ticks());
    assert!(!AppState::InitialWorkGoalPrompt { goal: String::new() }.wants_ticks());
    let state = running(&config, 0);
    assert!(state.wants_ticks());
    let (state, _) = state.update(Message::Tick, &config, 20 * 60 * SEC);
    assert!(!state.wants_ticks());
}

#[test]
fn finishing_a_break_starts_a_fresh_session() {
    let config = config();
    let state = running(&config, 0);
    let (state, _) = state.update(Message::Tick, &config, 20 * 60 * SEC);
    let state = state.finish_break(&config, 26 * 60 * SEC);
    match state {
        AppState::Running { work_timer, shown_notification, long_break_in, last_work_session } => {
            assert_eq!(work_timer.duration_remaning(), 20 * 60 * SEC);
            assert!(!work_timer.is_paused());
            assert!(!shown_notification);
            assert_eq!(long_break_in, 3);
            assert!(!last_work_session);
        }
        _ => panic!("not running"),
    }
}

#[test]
fn finishing_a_break_outside_a_running_cycle_changes_nothing() {
    let state = AppState::Startup.finish_break(&config(), 5);
    assert!(matches!(state, AppState::Startup));
}

#[test]
fn validity_of_states_and_settings() {
    assert!(config().is_valid());
    assert!(!PomodoroConfig { long_break_each: 0, ..config() }.is_valid());
    assert!(AppState::Startup.is_valid());
    assert!(running(&config(), 0).is_valid());
}

#[test]
fn break_length_follows_the_kind() {
    assert_eq!(config().break_duration_for(false), 5 * 60 * SEC);
    assert_eq!(config().break_duration_for(true), 15 * 60 * SEC);
}

#[test]
fn minutes_and_seconds_make_nanoseconds() {
    assert_eq!(duration_from_mins_secs(20, 0), Some(1200 * SEC));
    assert_eq!(duration_from_mins_secs(1, 30), Some(90 * SEC));
    assert_eq!(duration_from_mins_secs(0, 0), Some(0));
    assert_eq!(duration_from_mins_secs(u64::MAX, 0), None);
    assert_eq!(duration_from_mins_secs(0, u64::MAX), None);
    assert_eq!(duration_from_mins_secs(0, 18_446_744_073), Some(18_446_744_073 * SEC));
    assert_eq!(duration_from_mins_secs(0, 18_446_744_074), None);
}
