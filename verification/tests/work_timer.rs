use annoyodoro::work_timer::WorkTimer;

const SEC: u64 = 1_000_000_000;

#[test]
fn new_timer_runs_with_full_duration() {
    let timer = WorkTimer::new(20 * 60 * SEC, 7);
    assert_eq!(timer.duration_remaning(), 20 * 60 * SEC);
    assert!(!timer.is_paused());
}

#[test]
fn tick_subtracts_elapsed_time() {
    let mut timer = WorkTimer::new(10 * SEC, 100);
    timer.on_tick(100 + 3 * SEC);
    assert_eq!(timer.duration_remaning(), 7 * SEC);
    timer.on_tick(100 + 3 * SEC + 1);
    assert_eq!(timer.duration_remaning(), 7 * SEC - 1);
}

#[test]
fn ticks_summing_to_the_duration_reach_zero_however_chunked() {
    let duration = 20 * 60 * SEC;
    let chunkings: [&[u64]; 4] = [
        &[duration],
        &[duration / 2, duration / 2],
        &[1, duration - 2, 1],
        &[SEC, 0, 19 * 60 * SEC, 59 * SEC],
    ];
    for deltas in chunkings {
        let mut now = 5_000;
        let mut timer = WorkTimer::new(duration, now);
        for delta in deltas {
            now += delta;
            timer.on_tick(now);
        }
        assert_eq!(timer.duration_remaning(), 0);
    }
}

#[test]
fn equal_elapsed_time_gives_equal_remaining() {
    let mut one = WorkTimer::new(100 * SEC, 0);
    let mut many = WorkTimer::new(100 * SEC, 0);
    one.on_tick(42 * SEC);
    for step in 1..=42u64 {
        many.on_tick(step * SEC);
    }
    assert_eq!(one.duration_remaning(), 58 * SEC);
    assert_eq!(many.duration_remaning(), 58 * SEC);
}

#[test]
fn remaining_saturates_at_zero() {
    let mut timer = WorkTimer::new(5 * SEC, 0);
    timer.on_tick(6 * SEC);
    assert_eq!(timer.duration_remaning(), 0);
    timer.on_tick(u64::MAX);
    assert_eq!(timer.duration_remaning(), 0);
}

#[test]
fn zero_duration_timer_stays_at_zero() {
    let mut timer = WorkTimer::new(0, 10);
    timer.on_tick(10);
    assert_eq!(timer.duration_remaning(), 0);
}

#[test]
fn clock_reading_before_the_tick_origin_counts_as_no_time() {
    let mut timer = WorkTimer::new(5 * SEC, 100);
    timer.on_tick(40);
    assert_eq!(timer.duration_remaning(), 5 * SEC);
    timer.on_tick(40 + SEC);
    assert_eq!(timer.duration_remaning(), 4 * SEC);
}

#[test]
fn pause_commits_elapsed_time_and_stops() {
    let mut timer = WorkTimer::new(10 * SEC, 0);
    timer.toggle_pause(4 * SEC);
    assert!(timer.is_paused());
    assert_eq!(timer.duration_remaning(), 6 * SEC);
    timer.on_tick(9 * SEC);
    assert_eq!(timer.duration_remaning(), 6 * SEC);
    assert!(timer.is_paused());
}

#[test]
fn pause_then_resume_leaves_remaining_unchanged() {
    let mut timer = WorkTimer::new(10 * SEC, 0);
    timer.on_tick(3 * SEC);
    timer.toggle_pause(3 * SEC);
    timer.toggle_pause(3 * SEC);
    assert!(!timer.is_paused());
    assert_eq!(timer.duration_remaning(), 7 * SEC);
}

#[test]
fn time_spent_paused_is_not_counted() {
    let mut timer = WorkTimer::new(10 * SEC, 0);
    timer.toggle_pause(2 * SEC);
    timer.toggle_pause(500 * SEC);
    assert_eq!(timer.duration_remaning(), 8 * SEC);
    timer.on_tick(501 * SEC);
    assert_eq!(timer.duration_remaning(), 7 * SEC);
}

#[test]
fn timer_is_copied_by_value() {
    let timer = WorkTimer::new(10 * SEC, 0);
    let mut copy = timer;
    copy.on_tick(SEC);
    assert_eq!(timer.duration_remaning(), 10 * SEC);
    assert_eq!(copy.duration_remaning(), 9 * SEC);
}
