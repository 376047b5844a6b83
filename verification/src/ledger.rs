//! The account of a day's work: time worked, time spent off schedule, and
//! the overtime allowance.
//!
//! Time is off schedule where a break is taken early or runs long by more
//! than the forgiven deviation, and while work goes on under an overtime
//! allowance. In a session that runs under an overtime allowance nothing
//! is forgiven. All lengths of time are in nanoseconds; sums that would not
//! fit 64 bits stop at the largest number.
//!
//! Opening a break changes nothing in the account. What an early break
//! costs is part of the request for the break, and is booked together with
//! the result of the break. A break that could not be shown is therefore
//! opened again at no charge.

use crate::break_timer::BreakTimeResult;
use crate::date::Date;
use crate::duration::{
    Duration,
    BREAK_MINUTES,
    FORGIVE_SECONDS,
    LONG_BREAK_IN,
    LONG_BREAK_MINUTES,
    OVERTIME_MINUTES,
    WORK_MINUTES,
};
use vstd::prelude::*;

verus! {

/// The settings of the accounting, as given on the command line.
#[derive(Debug)]
pub struct Cli {
    /// The output that the break overlay is bound to, if any.
    pub output: Option<String>,
    pub break_duration: Duration,
    pub work_duration: Duration,
    pub long_break_duration: Duration,
    /// Deviations of at most this length are not counted as off time.
    pub forgive_duration: Duration,
    /// How much time an overtime allowance adds.
    pub overtime_duration: Duration,
    /// How many work sessions it takes to have a long break. At least one.
    pub long_break_in: u16,
    pub print_default_config: bool,
    pub write_default_config: bool,
    pub test_break_timer: bool,
}

/// The account of the day.
#[derive(Debug, Clone, Copy, PartialEq, Eq, Structural)]
pub struct State {
    /// Time worked in the current session.
    pub work_duration: u64,
    /// Time off schedule: early and overlong breaks, and overtime.
    pub off_duration: u64,
    pub pomodori_today: u16,
    pub duration_today: u64,
    /// Whether the current session runs under an overtime allowance.
    pub in_overtime: bool,
}

/// What the break overlay is asked for.
#[derive(Debug, Clone, Copy, PartialEq, Eq, Structural)]
pub struct BreakRequest {
    /// The overtime allowance on offer, if any.
    pub available_overtime: Option<u64>,
    pub break_duration: u64,
    pub long_break: bool,
    /// The off time that taking this break early costs; zero for a break
    /// that is due. It is booked when the break has ended.
    pub early_off_time: u64,
}

/// `a + b`, but not above the largest 64-bit number.
pub open spec fn capped_add(a: u64, b: u64) -> u64 {
    if a + b > u64::MAX {
        u64::MAX
    } else {
        (a + b) as u64
    }
}

/// The distance between two lengths of time.
pub open spec fn abs_diff(a: u64, b: u64) -> u64 {
    if a >= b {
        (a - b) as u64
    } else {
        (b - a) as u64
    }
}

/// The deviation as far as it counts: nothing where it is forgiven.
pub open spec fn unforgiven(deviation: u64, forgive: u64) -> u64 {
    if deviation > forgive {
        deviation
    } else {
        0
    }
}

impl Cli {
    /// The cadence is a positive number.
    pub open spec fn wf(self) -> bool {
        self.long_break_in >= 1
    }

    /// The settings that hold where nothing is given on the command line.
    pub fn defaults() -> (cli: Cli)
        ensures
            cli.output is None,
            cli.break_duration == Duration::Minutes(BREAK_MINUTES),
            cli.work_duration == Duration::Minutes(WORK_MINUTES),
            cli.long_break_duration == Duration::Minutes(LONG_BREAK_MINUTES),
            cli.forgive_duration == Duration::Seconds(FORGIVE_SECONDS),
            cli.overtime_duration == Duration::Minutes(OVERTIME_MINUTES),
            cli.long_break_in == LONG_BREAK_IN,
            !cli.print_default_config && !cli.write_default_config && !cli.test_break_timer,
            cli.wf(),
    {
        Cli {
            output: None,
            break_duration: Duration::Minutes(BREAK_MINUTES),
            work_duration: Duration::Minutes(WORK_MINUTES),
            long_break_duration: Duration::Minutes(LONG_BREAK_MINUTES),
            forgive_duration: Duration::Seconds(FORGIVE_SECONDS),
            overtime_duration: Duration::Minutes(OVERTIME_MINUTES),
            long_break_in: LONG_BREAK_IN,
            print_default_config: false,
            write_default_config: false,
            test_break_timer: false,
        }
    }

    /// Whether the settings can drive the accounting.
    pub fn is_valid(&self) -> (valid: bool)
        ensures
            valid == self.wf(),
    {
        self.long_break_in >= 1
    }
}

impl State {
    /// The account at the start of a day.
    pub open spec fn start() -> State {
        State {
            work_duration: 0,
            off_duration: 0,
            pomodori_today: 0,
            duration_today: 0,
            in_overtime: false,
        }
    }

    /// The account after `delta` more of work: the session and the day
    /// grow by it, and under an overtime allowance the off time does too.
    pub open spec fn worked(self, delta: u64) -> State {
        State {
            work_duration: capped_add(self.work_duration, delta),
            duration_today: capped_add(self.duration_today, delta),
            off_duration: if self.in_overtime {
                capped_add(self.off_duration, delta)
            } else {
                self.off_duration
            },
            ..self
        }
    }

    /// How long the current session may last: a work session, and the
    /// overtime allowance on top where one was granted.
    pub open spec fn session_limit(self, cli: Cli) -> u64 {
        (cli.work_duration.nanos() + if self.in_overtime {
            cli.overtime_duration.nanos()
        } else {
            0
        }) as u64
    }

    /// Whether the session has outlasted its limit, so that a break is
    /// due.
    pub open spec fn break_due(self, cli: Cli) -> bool {
        self.work_duration > self.session_limit(cli)
    }

    /// Whether the next break is a long one: the session that it follows
    /// completes a multiple of the cadence.
    pub open spec fn long_break_next(self, cli: Cli) -> bool {
        (self.pomodori_today + 1) % (cli.long_break_in as int) == 0
    }

    /// The length of the next break.
    pub open spec fn next_break_duration(self, cli: Cli) -> u64 {
        if self.long_break_next(cli) {
            cli.long_break_duration.nanos() as u64
        } else {
            cli.break_duration.nanos() as u64
        }
    }

    /// A deviation from the schedule as far as it counts as off time: all
    /// of it in a session that runs under an overtime allowance; otherwise
    /// nothing where it is forgiven, and all of it where it is not.
    pub open spec fn counted(self, cli: Cli, deviation: u64) -> u64 {
        if self.in_overtime {
            deviation
        } else {
            unforgiven(deviation, cli.forgive_duration.nanos() as u64)
        }
    }

    /// The off time that a break costs where it is taken now: for an early
    /// break, the distance of the time worked from a full session as far
    /// as it counts; nothing for a break that is due.
    pub open spec fn early_off_time(self, cli: Cli, early_break: bool) -> u64 {
        if early_break {
            self.counted(cli, abs_diff(self.work_duration, cli.work_duration.nanos() as u64))
        } else {
            0
        }
    }

    /// What the break overlay is asked for. Overtime is on offer only for
    /// a break that is due, and only once per session.
    pub open spec fn request(self, cli: Cli, early_break: bool) -> BreakRequest {
        BreakRequest {
            available_overtime: if !self.in_overtime && !early_break {
                Some(cli.overtime_duration.nanos() as u64)
            } else {
                None
            },
            break_duration: self.next_break_duration(cli),
            long_break: self.long_break_next(cli),
            early_off_time: self.early_off_time(cli, early_break),
        }
    }

    /// The account with `off_time` more of off time.
    pub open spec fn charged(self, off_time: u64) -> State {
        State { off_duration: capped_add(self.off_duration, off_time), ..self }
    }

    /// The time by which a break that lasted `duration` ran over its
    /// length.
    pub open spec fn late_deviation(self, cli: Cli, duration: u64) -> u64 {
        crate::work_timer::saturating_sub(
            duration as int,
            self.next_break_duration(cli) as int,
        ) as u64
    }

    /// The account after a break that lasted `duration`: the day grows by
    /// the break and by the session before it, the time by which the break
    /// ran over counts as off time (unless it is forgiven, which it never
    /// is under an overtime allowance), one more session is counted, and
    /// the next session starts at zero without overtime.
    pub open spec fn after_break(self, cli: Cli, duration: u64) -> State {
        State {
            work_duration: 0,
            off_duration: capped_add(
                self.off_duration,
                self.counted(cli, self.late_deviation(cli, duration)),
            ),
            pomodori_today: if self.pomodori_today == u16::MAX {
                u16::MAX
            } else {
                (self.pomodori_today + 1) as u16
            },
            duration_today: capped_add(
                capped_add(self.duration_today, duration),
                self.work_duration,
            ),
            in_overtime: false,
        }
    }

    /// The account after the break overlay has reported back on the
    /// request: what taking the break early costs is booked; then an
    /// overtime allowance puts the session in overtime, and a completed
    /// break closes the session.
    pub open spec fn after_result(
        self,
        cli: Cli,
        request: BreakRequest,
        result: BreakTimeResult,
    ) -> State {
        let charged = self.charged(request.early_off_time);
        match result {
            BreakTimeResult::OvertimeUsed => State { in_overtime: true, ..charged },
            BreakTimeResult::BreakComplete(duration) => charged.after_break(cli, duration),
        }
    }

    /// The account on the day `today`, where it was kept for the day
    /// `state_date`: a new day starts a new account.
    pub open spec fn on_day(self, state_date: Date, today: Date) -> State {
        if state_date.before(today) {
            State::start()
        } else {
            self
        }
    }

    /// The account at the start of a day.
    pub fn new() -> (state: State)
        ensures
            state == State::start(),
    {
        State {
            work_duration: 0,
            off_duration: 0,
            pomodori_today: 0,
            duration_today: 0,
            in_overtime: false,
        }
    }

    /// Accounts for `delta_time` more of work.
    pub fn add_delta_time(&mut self, delta_time: u64)
        ensures
            *final(self) == old(self).worked(delta_time),
    {
        self.work_duration = self.work_duration.saturating_add(delta_time);
        self.duration_today = self.duration_today.saturating_add(delta_time);
        if self.in_overtime {
            self.off_duration = self.off_duration.saturating_add(delta_time);
        }
    }

    /// How long the current session may last.
    pub fn max_duration(&self, cli: &Cli) -> (limit: u64)
        ensures
            limit == self.session_limit(*cli),
    {
        let work = cli.work_duration.as_nanos();
        if self.in_overtime {
            let overtime = cli.overtime_duration.as_nanos();
            assert(work + overtime <= u64::MAX) by {
                lemma_nanos_bound(cli.work_duration);
                lemma_nanos_bound(cli.overtime_duration);
            }
            work + overtime
        } else {
            work
        }
    }

    /// Accounts for `delta_time` more of work, and says whether a break is
    /// due.
    pub fn on_tick(&mut self, cli: &Cli, delta_time: u64) -> (break_due: bool)
        ensures
            *final(self) == old(self).worked(delta_time),
            break_due == final(self).break_due(*cli),
    {
        self.add_delta_time(delta_time);
        self.work_duration > self.max_duration(cli)
    }

    /// Whether the next break is a long one.
    pub fn should_do_long_break(&self, cli: &Cli) -> (long_break: bool)
        requires
            cli.wf(),
        ensures
            long_break == self.long_break_next(*cli),
    {
        (self.pomodori_today as u32 + 1) % (cli.long_break_in as u32) == 0
    }

    /// The length of the next break.
    pub fn break_duration(&self, cli: &Cli) -> (duration: u64)
        requires
            cli.wf(),
        ensures
            duration == self.next_break_duration(*cli),
    {
        if self.should_do_long_break(cli) {
            cli.long_break_duration.as_nanos()
        } else {
            cli.break_duration.as_nanos()
        }
    }

    /// A deviation from the schedule as far as it counts as off time.
    pub fn counted_off_time(&self, cli: &Cli, deviation: u64) -> (off_time: u64)
        ensures
            off_time == self.counted(*cli, deviation),
    {
        if self.in_overtime || deviation > cli.forgive_duration.as_nanos() {
            deviation
        } else {
            0
        }
    }

    /// Opens a break: returns what to ask the break overlay for, and with
    /// it what taking the break now costs. The account does not change
    /// until the break has ended.
    pub fn break_time(&self, cli: &Cli, early_break: bool) -> (request: BreakRequest)
        requires
            cli.wf(),
        ensures
            request == self.request(*cli, early_break),
    {
        let early_off_time = if early_break {
            let full = cli.work_duration.as_nanos();
            let deviation = if self.work_duration >= full {
                self.work_duration - full
            } else {
                full - self.work_duration
            };
            self.counted_off_time(cli, deviation)
        } else {
            0
        };
        BreakRequest {
            available_overtime: if !self.in_overtime && !early_break {
                Some(cli.overtime_duration.as_nanos())
            } else {
                None
            },
            break_duration: self.break_duration(cli),
            long_break: self.should_do_long_break(cli),
            early_off_time,
        }
    }

    /// Books a break that lasted `duration` and closes the session.
    pub fn after_break_complete(&mut self, cli: &Cli, duration: u64)
        requires
            cli.wf(),
        ensures
            *final(self) == old(self).after_break(*cli, duration),
    {
        let extra_duration = duration.saturating_sub(self.break_duration(cli));
        let off_time = self.off_duration.saturating_add(
            self.counted_off_time(cli, extra_duration),
        );
        *self = State {
            work_duration: 0,
            off_duration: off_time,
            pomodori_today: self.pomodori_today.saturating_add(1),
            duration_today: self.duration_today.saturating_add(duration).saturating_add(
                self.work_duration,
            ),
            in_overtime: false,
        };
    }

    /// Books what the break overlay has reported back on the request.
    pub fn break_finished(&mut self, cli: &Cli, request: &BreakRequest, result: BreakTimeResult)
        requires
            cli.wf(),
        ensures
            *final(self) == old(self).after_result(*cli, *request, result),
    {
        self.off_duration = self.off_duration.saturating_add(request.early_off_time);
        match result {
            BreakTimeResult::OvertimeUsed => {
                self.in_overtime = true;
            },
            BreakTimeResult::BreakComplete(duration) => {
                self.after_break_complete(cli, duration);
            },
        }
    }

    /// Starts a new account where a new day has begun, and says whether it
    /// did.
    pub fn backup_state(&mut self, state_date: Date, today: Date) -> (new_day: bool)
        ensures
            new_day == state_date.before(today),
            *final(self) == old(self).on_day(state_date, today),
    {
        if state_date.is_before(&today) {
            *self = State::new();
            true
        } else {
            false
        }
    }
}

impl Default for State {
    fn default() -> (state: State)
        ensures
            state == State::start(),
    {
        State::new()
    }
}

/// What the caller has to do after a key was handled.
#[derive(Debug, Clone, Copy, PartialEq, Eq, Structural)]
pub enum KeyAction {
    /// Nothing.
    Nothing,
    /// Leave the event loop.
    Quit,
    /// Show the break overlay with this request, and report back.
    Break(BreakRequest),
    /// Start the ticker anew: work goes on after a pause.
    ResetTicker,
}

/// The accounting of the day with its settings and the state of the event
/// loop.
#[derive(Debug)]
pub struct App {
    /// Whether the event loop goes on.
    pub running: bool,
    /// Whether the ticker is stopped.
    pub is_paused: bool,
    pub state: State,
    /// The day that the account is kept for.
    pub state_date: Date,
    pub cli: Cli,
}

impl App {
    /// What a key does: `q` ends the event loop, `e` opens an early break,
    /// `p` pauses or resumes, and any other key does nothing. No key
    /// changes the account.
    pub open spec fn key_action(self, key: char) -> KeyAction {
        if key == 'q' {
            KeyAction::Quit
        } else if key == 'e' {
            KeyAction::Break(self.state.request(self.cli, true))
        } else if key == 'p' && self.is_paused {
            KeyAction::ResetTicker
        } else {
            KeyAction::Nothing
        }
    }

    /// A running, unpaused event loop over the given account.
    pub fn new(cli: Cli, state: State, today: Date) -> (app: App)
        ensures
            app.running,
            !app.is_paused,
            app.state == state,
            app.state_date == today,
            app.cli == cli,
    {
        App { running: true, is_paused: false, state, state_date: today, cli }
    }

    /// How long the current session may last.
    pub fn max_duration(&self) -> (limit: u64)
        ensures
            limit == self.state.session_limit(self.cli),
    {
        self.state.max_duration(&self.cli)
    }

    /// Pauses or resumes the ticker, and says whether the ticker has to be
    /// started anew because work was resumed.
    pub fn toggle_pause(&mut self) -> (resumed: bool)
        ensures
            resumed == old(self).is_paused,
            final(self).is_paused == !old(self).is_paused,
            final(self).running == old(self).running,
            final(self).state == old(self).state,
            final(self).state_date == old(self).state_date,
            final(self).cli == old(self).cli,
    {
        let resumed = self.is_paused;
        self.is_paused = !resumed;
        resumed
    }

    /// Accounts for `delta_time` more of work unless the ticker is paused,
    /// and opens the break that is due, if one is: returns what to ask the
    /// break overlay for.
    pub fn on_tick(&mut self, delta_time: u64) -> (request: Option<BreakRequest>)
        requires
            old(self).cli.wf(),
        ensures
            final(self).state == if old(self).is_paused {
                old(self).state
            } else {
                old(self).state.worked(delta_time)
            },
            request == if !old(self).is_paused && final(self).state.break_due(old(self).cli) {
                Some(final(self).state.request(old(self).cli, false))
            } else {
                None
            },
            final(self).running == old(self).running,
            final(self).is_paused == old(self).is_paused,
            final(self).state_date == old(self).state_date,
            final(self).cli == old(self).cli,
    {
        if self.is_paused {
            return None;
        }
        if self.state.on_tick(&self.cli, delta_time) {
            Some(self.state.break_time(&self.cli, false))
        } else {
            None
        }
    }

    /// Opens a break: returns what to ask the break overlay for, and with
    /// it what taking the break now costs. Nothing changes until the break
    /// has ended, so a break that could not be shown is opened again as if
    /// for the first time.
    pub fn break_time(&self, early_break: bool) -> (request: BreakRequest)
        requires
            self.cli.wf(),
        ensures
            request == self.state.request(self.cli, early_break),
    {
        self.state.break_time(&self.cli, early_break)
    }

    /// Books what the break overlay has reported back on the request. The
    /// ticker is to be started anew.
    pub fn break_finished(&mut self, request: &BreakRequest, result: BreakTimeResult)
        requires
            old(self).cli.wf(),
        ensures
            final(self).state == old(self).state.after_result(old(self).cli, *request, result),
            final(self).running == old(self).running,
            final(self).is_paused == old(self).is_paused,
            final(self).state_date == old(self).state_date,
            final(self).cli == old(self).cli,
    {
        self.state.break_finished(&self.cli, request, result);
    }

    /// Handles a key.
    pub fn handle_key_event(&mut self, key: char) -> (action: KeyAction)
        requires
            old(self).cli.wf(),
        ensures
            action == old(self).key_action(key),
            final(self).state == old(self).state,
            final(self).running == (old(self).running && key != 'q'),
            final(self).is_paused == if key == 'p' {
                !old(self).is_paused
            } else {
                old(self).is_paused
            },
            final(self).state_date == old(self).state_date,
            final(self).cli == old(self).cli,
    {
        if key == 'q' {
            self.running = false;
            KeyAction::Quit
        } else if key == 'e' {
            KeyAction::Break(self.break_time(true))
        } else if key == 'p' {
            if self.toggle_pause() {
                KeyAction::ResetTicker
            } else {
                KeyAction::Nothing
            }
        } else {
            KeyAction::Nothing
        }
    }

    /// Starts a new account where the day `today` is later than the day
    /// the account is kept for, and says whether it did. The account as it
    /// was is to be saved under its own day before.
    pub fn backup_state(&mut self, today: Date) -> (new_day: bool)
        ensures
            new_day == old(self).state_date.before(today),
            final(self).state == old(self).state.on_day(old(self).state_date, today),
            final(self).state_date == if new_day {
                today
            } else {
                old(self).state_date
            },
            final(self).running == old(self).running,
            final(self).is_paused == old(self).is_paused,
            final(self).cli == old(self).cli,
    {
        if self.state.backup_state(self.state_date, today) {
            self.state_date = today;
            true
        } else {
            false
        }
    }
}

/// Outside overtime a deviation of at most the forgiven length costs
/// nothing and a longer one costs all of its length; in a session that
/// runs under an overtime allowance every deviation costs all of its
/// length.
pub proof fn lemma_forgiveness(state: State, cli: Cli, deviation: u64)
    ensures
        state.in_overtime ==> state.counted(cli, deviation) == deviation,
        !state.in_overtime && deviation <= cli.forgive_duration.nanos() ==> state.counted(
            cli,
            deviation,
        ) == 0,
        !state.in_overtime && deviation > cli.forgive_duration.nanos() ==> state.counted(
            cli,
            deviation,
        ) == deviation,
{
    lemma_nanos_bound(cli.forgive_duration);
}

/// An early break is charged once, when it has ended: the off time grows
/// by what the request says, however often the break was opened before,
/// and only the break that has ended is booked.
pub proof fn lemma_early_break_charged_once(
    state: State,
    cli: Cli,
    result: BreakTimeResult,
)
    ensures
        ({
            let request = state.request(cli, true);
            let after = state.after_result(cli, request, result);
            let charged = state.charged(state.early_off_time(cli, true));
            &&& request.early_off_time == state.counted(
                cli,
                abs_diff(state.work_duration, cli.work_duration.nanos() as u64),
            )
            &&& request.available_overtime is None
            &&& result is OvertimeUsed ==> after.off_duration == charged.off_duration
            &&& result matches BreakTimeResult::BreakComplete(duration) ==> after.off_duration
                == capped_add(
                charged.off_duration,
                state.counted(cli, state.late_deviation(cli, duration)),
            )
        }),
        state.request(cli, false).early_off_time == 0,
{
}

/// A length of time from the settings is far from the limit of 64 bits.
pub proof fn lemma_nanos_bound(duration: Duration)
    ensures
        duration.nanos() <= 65535 * 60 * 1_000_000_000,
{
    assert(duration.secs() <= 65535 * 60);
    assert(duration.secs() * 1_000_000_000 <= 65535 * 60 * 1_000_000_000) by (nonlinear_arith)
        requires
            duration.secs() <= 65535 * 60,
    ;
}

} // verus!
