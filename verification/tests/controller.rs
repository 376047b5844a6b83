use annoyodoro::codec::{decode, DecodeError};
use annoyodoro::config::PomodoroConfig;
use annoyodoro::controller::{decode_failure, Command, Controller, Reaction, Retry};
use annoyodoro::cycle::{AppState, Message};
use annoyodoro::date::{Date, DateTime};
use annoyodoro::stats::{Count, StatsManager};

const SEC: u64 = 1_000_000_000;

fn today() -> Date {
    Date { year: 2024, month: 3, day: 9 }
}

fn clock(hour: i8, minute: i8) -> DateTime {
    DateTime { date: today(), hour, minute, second: 0, subsec_nanosecond: 0 }
}

fn config() -> PomodoroConfig {
    PomodoroConfig {
        break_duration: 5 * 60 * SEC,
        work_duration: 20 * 60 * SEC,
        long_break_duration: 15 * 60 * SEC,
        notification_duration: 60 * SEC,
        long_break_each: 2,
    }
}

fn controller() -> Controller {
    Controller::new(config(), StatsManager::load(today(), None).expect("no error"))
}

fn started() -> Controller {
    let mut controller = controller();
    controller.update(Message::StartupFocus, 0, clock(9, 0));
    controller.update(Message::InitialWorkGoalChange("write".to_string()), 0, clock(9, 0));
    controller.update(Message::InitialWorkGoalSubmit, 0, clock(9, 0));
    controller
}

#[test]
fn new_controller_waits_for_the_focus_signal() {
    let controller = controller();
    assert!(controller.is_valid());
    assert!(matches!(controller.state(), AppState::Startup));
    assert!(controller.error().is_none());
    assert!(controller.accepts(&Message::StartupFocus));
    assert!(!controller.accepts(&Message::Tick));
    assert_eq!(controller.config().long_break_each, 2);
}

#[test]
fn first_goal_is_logged_and_the_app_session_counted() {
    let mut controller = controller();
    assert_eq!(
        controller.update(Message::StartupFocus, 0, clock(9, 0)),
        Reaction { notify: None, command: Command::FocusInput }
    );
    assert_eq!(
        controller.update(Message::InitialWorkGoalChange("write".to_string()), 0, clock(9, 0)),
        Reaction { notify: None, command: Command::Idle }
    );
    assert_eq!(
        controller.update(Message::InitialWorkGoalSubmit, 5, clock(9, 1)),
        Reaction { notify: None, command: Command::SaveStats }
    );
    assert!(matches!(controller.state(), AppState::Running { long_break_in: 2, .. }));
    let stats = controller.stats().stats();
    assert_eq!(stats.all_time(), Count { sessions: 1, pomodori: 0 });
    assert_eq!(stats.day().get(20240309), Count { sessions: 1, pomodori: 0 });
    assert_eq!(stats.work_goals().len(), 1);
    assert_eq!(stats.work_goals()[0].text, "write");
    assert_eq!(stats.work_goals()[0].at, clock(9, 1));
}

#[test]
fn empty_first_goal_is_not_submitted() {
    let mut controller = controller();
    controller.update(Message::StartupFocus, 0, clock(9, 0));
    assert_eq!(
        controller.update(Message::InitialWorkGoalSubmit, 0, clock(9, 0)),
        Reaction { notify: None, command: Command::Idle }
    );
    assert!(matches!(controller.state(), AppState::InitialWorkGoalPrompt { .. }));
    assert_eq!(controller.stats().stats().all_time(), Count { sessions: 0, pomodori: 0 });
    assert_eq!(controller.stats().stats().work_goals().len(), 0);
}

#[test]
fn session_break_session() {
    let mut controller = started();
    assert_eq!(
        controller.update(Message::Tick, 19 * 60 * SEC, clock(9, 19)),
        Reaction { notify: Some(60 * SEC), command: Command::Idle }
    );
    assert_eq!(
        controller.update(Message::Tick, 20 * 60 * SEC, clock(9, 20)),
        Reaction { notify: None, command: Command::SpawnBreak { long_break: false, duration: 5 * 60 * SEC } }
    );
    assert_eq!(
        controller.break_finished("review".to_string(), 26 * 60 * SEC, clock(9, 26)),
        Command::SaveStats
    );
    let stats = controller.stats().stats();
    assert_eq!(stats.all_time(), Count { sessions: 1, pomodori: 1 });
    assert_eq!(stats.work_goals().len(), 2);
    assert_eq!(stats.work_goals()[1].text, "review");
    assert_eq!(controller.stats().pomodori_daily(), 1);
    assert_eq!(
        controller.update(Message::Tick, 46 * 60 * SEC, clock(9, 46)),
        Reaction { notify: Some(0), command: Command::SpawnBreak { long_break: true, duration: 15 * 60 * SEC } }
    );
    assert!(matches!(controller.state(), AppState::Running { long_break_in: 2, .. }));
}

#[test]
fn saved_file_holds_the_statistics() {
    let controller = started();
    let stats = decode(&controller.stats_file()).expect("accepted");
    assert_eq!(stats.all_time(), Count { sessions: 1, pomodori: 0 });
    assert_eq!(stats.work_goals()[0].text, "write");
}

#[test]
fn statistics_are_reloaded_when_the_day_has_changed() {
    let mut controller = started();
    assert_eq!(controller.stats_saved(today()), Command::Idle);
    let tomorrow = Date { year: 2024, month: 3, day: 10 };
    assert_eq!(controller.stats_saved(tomorrow), Command::ReloadStats);
    let file = controller.stats_file();
    controller.stats_reloaded(tomorrow, Some(&file), "stats.bin");
    assert!(controller.error().is_none());
    assert_eq!(controller.stats().current_date(), tomorrow);
    assert_eq!(controller.stats().pomodori_daily(), 0);
    assert_eq!(controller.stats().stats().all_time(), Count { sessions: 1, pomodori: 0 });
    controller.stats_reloaded(tomorrow, None, "stats.bin");
    assert_eq!(controller.stats().stats().all_time(), Count { sessions: 0, pomodori: 0 });
}

#[test]
fn corrupt_file_on_reload_is_shown_as_a_failure() {
    let mut controller = started();
    let tomorrow = Date { year: 2024, month: 3, day: 10 };
    controller.stats_reloaded(tomorrow, Some(b"ANYD\x07"), "/data/annoyodoro/stats.bin");
    let error = controller.error().expect("failure");
    assert_eq!(error.context, "Failed to reload stats");
    assert_eq!(
        error.causes,
        vec![
            "Cannot decode /data/annoyodoro/stats.bin".to_string(),
            "the file has an unknown format version".to_string()
        ]
    );
    assert_eq!(error.retry, Retry::ReloadStats);
    assert_eq!(controller.stats().current_date(), today());
    assert_eq!(controller.stats().stats().all_time(), Count { sessions: 1, pomodori: 0 });
}

#[test]
fn failure_suspends_the_cycle_until_retry() {
    let mut controller = started();
    controller.operation_failed(
        Retry::SaveStats,
        vec!["Cannot open stats.bin".to_string(), "permission denied".to_string()],
    );
    let error = controller.error().expect("failure");
    assert_eq!(error.context, "Failed to save stats");
    assert_eq!(error.causes.len(), 2);
    assert_eq!(error.retry, Retry::SaveStats);
    assert!(controller.accepts(&Message::StartupFocus));
    assert_eq!(
        controller.update(Message::Tick, 20 * 60 * SEC, clock(9, 20)),
        Reaction { notify: None, command: Command::Idle }
    );
    match controller.state() {
        AppState::Running { work_timer, long_break_in, .. } => {
            assert_eq!(work_timer.duration_remaning(), 20 * 60 * SEC);
            assert_eq!(*long_break_in, 2);
        }
        _ => panic!("not running"),
    }
    assert_eq!(controller.retry(), Command::SaveStats);
    assert!(controller.error().is_none());
    assert_eq!(
        controller.update(Message::Tick, 20 * 60 * SEC, clock(9, 20)),
        Reaction { notify: Some(0), command: Command::SpawnBreak { long_break: false, duration: 5 * 60 * SEC } }
    );
}

#[test]
fn retry_repeats_the_failed_operation() {
    let mut controller = started();
    assert_eq!(controller.retry(), Command::Idle);
    controller.operation_failed(Retry::BreakTimer { long_break: true }, Vec::new());
    assert_eq!(controller.error().expect("failure").context, "Failed to spawn break timer");
    assert_eq!(controller.retry(), Command::SpawnBreak { long_break: true, duration: 15 * 60 * SEC });
    controller.operation_failed(Retry::ReloadStats, Vec::new());
    assert_eq!(controller.retry(), Command::ReloadStats);
    assert_eq!(controller.retry(), Command::Idle);
}

#[test]
fn last_session_ends_with_exit() {
    let mut controller = started();
    controller.update(Message::ToggleLastWorkSession, SEC, clock(9, 0));
    assert_eq!(
        controller.update(Message::Tick, 20 * 60 * SEC, clock(9, 20)),
        Reaction { notify: Some(0), command: Command::Exit }
    );
    assert_eq!(controller.stats().stats().all_time(), Count { sessions: 1, pomodori: 0 });
}

#[test]
fn break_outside_a_running_cycle_books_nothing() {
    let mut controller = controller();
    assert_eq!(controller.break_finished("x".to_string(), 0, clock(9, 0)), Command::Idle);
    assert!(matches!(controller.state(), AppState::Startup));
    assert_eq!(controller.stats().stats().all_time(), Count { sessions: 0, pomodori: 0 });
    assert_eq!(controller.stats().stats().work_goals().len(), 0);
    controller.update(Message::StartupFocus, 0, clock(9, 0));
    controller.update(Message::InitialWorkGoalChange("write".to_string()), 0, clock(9, 0));
    assert_eq!(controller.break_finished("x".to_string(), 0, clock(9, 0)), Command::Idle);
    assert!(matches!(controller.state(), AppState::InitialWorkGoalPrompt { goal } if goal == "write"));
    assert_eq!(controller.stats().stats().all_time(), Count { sessions: 0, pomodori: 0 });
    assert_eq!(controller.stats().stats().work_goals().len(), 0);
}

#[test]
fn failure_to_decode_names_the_file() {
    assert_eq!(
        decode_failure("stats.bin", DecodeError::Truncated),
        vec![
            "Cannot decode stats.bin".to_string(),
            "the file ends in the middle of an item".to_string()
        ]
    );
    assert_eq!(
        decode_failure("", DecodeError::InvalidTimestamp),
        vec!["Cannot decode ".to_string(), "a work goal has no valid date and time".to_string()]
    );
}
