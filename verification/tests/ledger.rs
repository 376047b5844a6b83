use annoyodoro::break_timer::{classify_break, BreakTimeResult};
use annoyodoro::date::Date;
use annoyodoro::duration::Duration;
use annoyodoro::ledger::{App, BreakRequest, Cli, KeyAction, State};

const SEC: u64 = 1_000_000_000;
const MIN: u64 = 60 * SEC;

fn day(year: i16, month: i8, day: i8) -> Date {
    Date { year, month, day }
}

#[test]
fn default_settings() {
    let cli = Cli::defaults();
    assert_eq!(cli.output, None);
    assert_eq!(cli.break_duration, Duration::Minutes(5));
    assert_eq!(cli.work_duration, Duration::Minutes(20));
    assert_eq!(cli.long_break_duration, Duration::Minutes(10));
    assert_eq!(cli.forgive_duration, Duration::Seconds(8));
    assert_eq!(cli.overtime_duration, Duration::Minutes(2));
    assert_eq!(cli.long_break_in, 4);
    assert!(!cli.print_default_config);
    assert!(!cli.write_default_config);
    assert!(!cli.test_break_timer);
    assert!(cli.is_valid());
    assert!(!Cli { long_break_in: 0, ..Cli::defaults() }.is_valid());
}

#[test]
fn default_account_is_the_new_account() {
    assert_eq!(State::default(), State::new());
}

#[test]
fn new_account_is_empty() {
    assert_eq!(
        State::new(),
        State {
            work_duration: 0,
            off_duration: 0,
            pomodori_today: 0,
            duration_today: 0,
            in_overtime: false
        }
    );
}

/// The account after an early break that was opened after `worked` of work
/// and lasted exactly as long as a short break.
fn after_early_break(worked: u64) -> State {
    let cli = Cli::defaults();
    let mut state = State::new();
    state.add_delta_time(worked);
    let request = state.break_time(&cli, true);
    state.break_finished(&cli, &request, BreakTimeResult::BreakComplete(5 * MIN));
    state
}

#[test]
fn early_break_within_forgiveness_adds_no_off_time() {
    assert_eq!(after_early_break(19 * MIN + 52 * SEC).off_duration, 0);
}

#[test]
fn early_break_beyond_forgiveness_adds_the_whole_deviation() {
    let state = after_early_break(19 * MIN + 45 * SEC);
    assert_eq!(state.off_duration, 15 * SEC);
    assert_eq!(state.work_duration, 0);
    assert_eq!(state.pomodori_today, 1);
}

#[test]
fn forgiveness_threshold_is_inclusive() {
    assert_eq!(after_early_break(20 * MIN - 8 * SEC).off_duration, 0);
    assert_eq!(after_early_break(20 * MIN - 8 * SEC - 1).off_duration, 8 * SEC + 1);
}

#[test]
fn early_break_after_a_full_session_counts_the_excess() {
    assert_eq!(after_early_break(20 * MIN + 30 * SEC).off_duration, 30 * SEC);
}

#[test]
fn request_for_an_early_break_says_what_it_costs() {
    let cli = Cli::defaults();
    let mut state = State::new();
    state.add_delta_time(19 * MIN + 45 * SEC);
    assert_eq!(
        state.break_time(&cli, true),
        BreakRequest {
            available_overtime: None,
            break_duration: 5 * MIN,
            long_break: false,
            early_off_time: 15 * SEC
        }
    );
    let mut forgiven = State::new();
    forgiven.add_delta_time(19 * MIN + 52 * SEC);
    assert_eq!(forgiven.break_time(&cli, true).early_off_time, 0);
}

#[test]
fn opening_a_break_changes_nothing() {
    let cli = Cli::defaults();
    let mut state = State::new();
    state.add_delta_time(19 * MIN + 30 * SEC);
    let before = state;
    let first = state.break_time(&cli, true);
    assert_eq!(state, before);
    let second = state.break_time(&cli, true);
    assert_eq!(state, before);
    assert_eq!(first, second);
}

#[test]
fn early_break_that_was_opened_twice_is_charged_once() {
    let cli = Cli::defaults();
    let mut state = State::new();
    state.add_delta_time(19 * MIN + 30 * SEC);
    let _failed = state.break_time(&cli, true);
    let request = state.break_time(&cli, true);
    state.break_finished(&cli, &request, BreakTimeResult::BreakComplete(5 * MIN));
    assert_eq!(state.off_duration, 30 * SEC);
}

#[test]
fn nothing_is_forgiven_in_overtime() {
    let cli = Cli::defaults();
    let mut state = State { in_overtime: true, work_duration: 20 * MIN + 3 * SEC, ..State::new() };
    assert_eq!(state.counted_off_time(&cli, 3 * SEC), 3 * SEC);
    assert_eq!(state.counted_off_time(&cli, 0), 0);
    let request = state.break_time(&cli, true);
    assert_eq!(request.early_off_time, 3 * SEC);
    state.break_finished(&cli, &request, BreakTimeResult::BreakComplete(5 * MIN + 2 * SEC));
    assert_eq!(state.off_duration, 5 * SEC);
    assert!(!state.in_overtime);
    let calm = State::new();
    assert_eq!(calm.counted_off_time(&cli, 3 * SEC), 0);
    assert_eq!(calm.counted_off_time(&cli, 8 * SEC), 0);
    assert_eq!(calm.counted_off_time(&cli, 9 * SEC), 9 * SEC);
}

#[test]
fn overlong_break_in_overtime_is_not_forgiven() {
    let cli = Cli::defaults();
    let mut state = State { in_overtime: true, ..State::new() };
    state.after_break_complete(&cli, 5 * MIN + SEC);
    assert_eq!(state.off_duration, SEC);
}

#[test]
fn due_break_books_nothing_and_offers_overtime() {
    let cli = Cli::defaults();
    let mut state = State::new();
    state.add_delta_time(20 * MIN + SEC);
    let before = state;
    let request = state.break_time(&cli, false);
    assert_eq!(state, before);
    assert_eq!(
        request,
        BreakRequest {
            available_overtime: Some(2 * MIN),
            break_duration: 5 * MIN,
            long_break: false,
            early_off_time: 0
        }
    );
}

#[test]
fn overtime_is_offered_once_per_session_and_never_for_early_breaks() {
    let cli = Cli::defaults();
    let mut state = State::new();
    assert_eq!(state.break_time(&cli, true).available_overtime, None);
    let request = state.break_time(&cli, false);
    state.break_finished(&cli, &request, BreakTimeResult::OvertimeUsed);
    assert!(state.in_overtime);
    assert_eq!(state.break_time(&cli, false).available_overtime, None);
}

#[test]
fn work_under_overtime_counts_as_off_time() {
    let cli = Cli::defaults();
    let mut state = State::new();
    state.add_delta_time(20 * MIN);
    assert_eq!(state.off_duration, 0);
    let request = state.break_time(&cli, false);
    state.break_finished(&cli, &request, BreakTimeResult::OvertimeUsed);
    state.add_delta_time(90 * SEC);
    assert_eq!(state.off_duration, 90 * SEC);
    assert_eq!(state.work_duration, 21 * MIN + 30 * SEC);
    assert_eq!(state.duration_today, 21 * MIN + 30 * SEC);
}

#[test]
fn session_limit_grows_by_the_allowance() {
    let cli = Cli::defaults();
    let mut state = State::new();
    assert_eq!(state.max_duration(&cli), 20 * MIN);
    state.in_overtime = true;
    assert_eq!(state.max_duration(&cli), 22 * MIN);
}

#[test]
fn break_is_due_once_the_limit_is_passed() {
    let cli = Cli::defaults();
    let mut state = State::new();
    assert!(!state.on_tick(&cli, 20 * MIN));
    assert!(state.on_tick(&cli, 1));
    let mut overtime = State { in_overtime: true, ..State::new() };
    assert!(!overtime.on_tick(&cli, 22 * MIN));
    assert!(overtime.on_tick(&cli, SEC));
}

#[test]
fn every_fourth_break_is_long() {
    let cli = Cli::defaults();
    let mut kinds = Vec::new();
    let mut lengths = Vec::new();
    for done in 0..8u16 {
        let state = State { pomodori_today: done, ..State::new() };
        kinds.push(state.should_do_long_break(&cli));
        lengths.push(state.break_duration(&cli));
    }
    assert_eq!(kinds, vec![false, false, false, true, false, false, false, true]);
    assert_eq!(lengths[2], 5 * MIN);
    assert_eq!(lengths[3], 10 * MIN);
    let last = State { pomodori_today: u16::MAX, ..State::new() };
    assert!(last.should_do_long_break(&cli));
}

#[test]
fn completed_break_closes_the_session() {
    let cli = Cli::defaults();
    let mut state = State::new();
    state.add_delta_time(20 * MIN);
    let request = state.break_time(&cli, false);
    state.break_finished(&cli, &request, BreakTimeResult::BreakComplete(5 * MIN + 3 * SEC));
    assert_eq!(
        state,
        State {
            work_duration: 0,
            off_duration: 0,
            pomodori_today: 1,
            duration_today: 20 * MIN + 5 * MIN + 3 * SEC + 20 * MIN,
            in_overtime: false
        }
    );
}

#[test]
fn overlong_break_counts_as_off_time() {
    let cli = Cli::defaults();
    let mut state = State { off_duration: SEC, in_overtime: true, ..State::new() };
    state.after_break_complete(&cli, 5 * MIN + 9 * SEC);
    assert_eq!(state.off_duration, 10 * SEC);
    assert!(!state.in_overtime);
    let mut late = State { off_duration: SEC, ..State::new() };
    late.after_break_complete(&cli, 5 * MIN + 9 * SEC);
    assert_eq!(late.off_duration, 10 * SEC);
    let mut forgiven = State::new();
    forgiven.after_break_complete(&cli, 5 * MIN + 8 * SEC);
    assert_eq!(forgiven.off_duration, 0);
    let mut short = State::new();
    short.after_break_complete(&cli, MIN);
    assert_eq!(short.off_duration, 0);
}

#[test]
fn overlong_long_break_is_measured_against_the_long_break() {
    let cli = Cli::defaults();
    let mut state = State { pomodori_today: 3, ..State::new() };
    state.after_break_complete(&cli, 10 * MIN + 20 * SEC);
    assert_eq!(state.off_duration, 20 * SEC);
    assert_eq!(state.pomodori_today, 4);
}

#[test]
fn sums_stop_at_the_largest_number() {
    let cli = Cli::defaults();
    let mut state = State { in_overtime: true, ..State::new() };
    state.add_delta_time(u64::MAX);
    state.add_delta_time(5);
    assert_eq!(state.work_duration, u64::MAX);
    assert_eq!(state.duration_today, u64::MAX);
    assert_eq!(state.off_duration, u64::MAX);
    let mut full = State { pomodori_today: u16::MAX, ..State::new() };
    full.after_break_complete(&cli, 0);
    assert_eq!(full.pomodori_today, u16::MAX);
}

#[test]
fn new_day_starts_a_new_account() {
    let mut state = State { pomodori_today: 3, off_duration: SEC, ..State::new() };
    assert!(!state.backup_state(day(2024, 3, 9), day(2024, 3, 9)));
    assert_eq!(state.pomodori_today, 3);
    assert!(!state.backup_state(day(2024, 3, 9), day(2024, 3, 8)));
    assert_eq!(state.pomodori_today, 3);
    assert!(state.backup_state(day(2024, 3, 9), day(2024, 3, 10)));
    assert_eq!(state, State::new());
}

#[test]
fn break_shorter_than_its_length_is_overtime() {
    assert_eq!(classify_break(4 * MIN, 5 * MIN), BreakTimeResult::OvertimeUsed);
    assert_eq!(classify_break(5 * MIN, 5 * MIN), BreakTimeResult::BreakComplete(5 * MIN));
    assert_eq!(classify_break(6 * MIN, 5 * MIN), BreakTimeResult::BreakComplete(6 * MIN));
    assert_eq!(classify_break(0, 0), BreakTimeResult::BreakComplete(0));
}

fn app() -> App {
    App::new(Cli::defaults(), State::new(), day(2024, 3, 9))
}

#[test]
fn new_event_loop_runs_unpaused() {
    let app = app();
    assert!(app.running);
    assert!(!app.is_paused);
    assert_eq!(app.state, State::new());
    assert_eq!(app.state_date, day(2024, 3, 9));
    assert_eq!(app.max_duration(), 20 * MIN);
}

#[test]
fn tick_opens_the_break_that_is_due() {
    let mut app = app();
    assert_eq!(app.on_tick(20 * MIN), None);
    let first = app.on_tick(SEC).expect("a break is due");
    assert_eq!(
        first,
        BreakRequest {
            available_overtime: Some(2 * MIN),
            break_duration: 5 * MIN,
            long_break: false,
            early_off_time: 0
        }
    );
    assert_eq!(app.state.work_duration, 20 * MIN + SEC);
    app.break_finished(&first, BreakTimeResult::OvertimeUsed);
    assert_eq!(app.max_duration(), 22 * MIN);
    assert_eq!(app.on_tick(MIN), None);
    let second = app.on_tick(MIN).expect("a break is due");
    assert_eq!(
        second,
        BreakRequest {
            available_overtime: None,
            break_duration: 5 * MIN,
            long_break: false,
            early_off_time: 0
        }
    );
    assert_eq!(app.state.off_duration, 2 * MIN);
    app.break_finished(&second, BreakTimeResult::BreakComplete(5 * MIN));
    assert_eq!(app.state.off_duration, 2 * MIN);
    assert_eq!(app.state.pomodori_today, 1);
    assert_eq!(app.state.work_duration, 0);
    assert!(!app.state.in_overtime);
}

#[test]
fn paused_event_loop_ignores_ticks() {
    let mut app = app();
    assert!(!app.toggle_pause());
    assert!(app.is_paused);
    assert_eq!(app.on_tick(30 * MIN), None);
    assert_eq!(app.state, State::new());
    assert!(app.toggle_pause());
    assert!(!app.is_paused);
    assert!(app.on_tick(30 * MIN).is_some());
}

#[test]
fn keys_of_the_event_loop() {
    let mut app = app();
    assert_eq!(app.handle_key_event('x'), KeyAction::Nothing);
    assert_eq!(app.handle_key_event('p'), KeyAction::Nothing);
    assert!(app.is_paused);
    assert_eq!(app.handle_key_event('p'), KeyAction::ResetTicker);
    assert!(!app.is_paused);
    app.on_tick(19 * MIN + 45 * SEC);
    let request = BreakRequest {
        available_overtime: None,
        break_duration: 5 * MIN,
        long_break: false,
        early_off_time: 15 * SEC,
    };
    assert_eq!(app.handle_key_event('e'), KeyAction::Break(request));
    assert_eq!(app.state.off_duration, 0);
    assert_eq!(app.handle_key_event('e'), KeyAction::Break(request));
    assert_eq!(app.state.off_duration, 0);
    app.break_finished(&request, BreakTimeResult::BreakComplete(5 * MIN));
    assert_eq!(app.state.off_duration, 15 * SEC);
    assert!(app.running);
    assert_eq!(app.handle_key_event('q'), KeyAction::Quit);
    assert!(!app.running);
    assert_eq!(app.handle_key_event('Q'), KeyAction::Nothing);
}

#[test]
fn early_break_through_the_event_loop() {
    let mut app = app();
    app.on_tick(19 * MIN + 52 * SEC);
    let request = app.break_time(true);
    assert_eq!(request.available_overtime, None);
    assert_eq!(request.early_off_time, 0);
    app.break_finished(&request, BreakTimeResult::BreakComplete(5 * MIN));
    assert_eq!(app.state.off_duration, 0);
    assert_eq!(app.state.pomodori_today, 1);
}

#[test]
fn new_day_moves_the_event_loop_on() {
    let mut app = app();
    app.on_tick(MIN);
    assert!(!app.backup_state(day(2024, 3, 9)));
    assert_eq!(app.state.work_duration, MIN);
    assert!(app.backup_state(day(2024, 3, 10)));
    assert_eq!(app.state, State::new());
    assert_eq!(app.state_date, day(2024, 3, 10));
    assert!(!app.backup_state(day(2024, 3, 9)));
    assert_eq!(app.state_date, day(2024, 3, 10));
}
