//! The controller of the cycle: it owns the settings, the statistics and
//! the state of the cycle, books sessions and breaks in the statistics, and
//! holds the failure that waits for a retry.
//!
//! The controller does nothing outside itself. Each operation returns the
//! command that the caller has to carry out, and the caller reports back
//! how that went.

use crate::codec::DecodeError;
use crate::config::PomodoroConfig;
use crate::cycle::{Action, AppState, CycleState, Effect, Event, Message};
use crate::date::{Date, DateTime};
use crate::stats::{StatsManager, StatsManagerView};
use vstd::prelude::*;
use vstd::string::StringExecFns;

verus! {

/// The operation to repeat after a failure.
#[derive(Debug, Clone, Copy, PartialEq, Eq, Structural)]
pub enum Retry {
    SaveStats,
    ReloadStats,
    BreakTimer { long_break: bool },
}

/// What the caller has to do next.
#[derive(Debug, Clone, Copy, PartialEq, Eq, Structural)]
pub enum Command {
    /// Nothing.
    Idle,
    /// Give the input field the focus.
    FocusInput,
    /// Write the statistics to their file, and report back.
    SaveStats,
    /// Read the file of the statistics, and report back.
    ReloadStats,
    /// Show a break of the given kind and length, and report back when it
    /// is over.
    SpawnBreak { long_break: bool, duration: u64 },
    /// Announce that the last work session is over, and quit.
    Exit,
}

/// The result of handling a message.
#[derive(Debug, Clone, Copy, PartialEq, Eq, Structural)]
pub struct Reaction {
    /// The time left, where the coming break has to be announced now.
    pub notify: Option<u64>,
    pub command: Command,
}

/// A failure that waits for a retry.
#[derive(Debug)]
pub struct ErrorState {
    /// What was being done.
    pub context: String,
    /// Why it failed, the outermost cause first.
    pub causes: Vec<String>,
    /// What to do again.
    pub retry: Retry,
}

/// A failure as a mathematical value.
pub struct ErrorView {
    pub context: Seq<char>,
    pub causes: Seq<Seq<char>>,
    pub retry: Retry,
}

/// The texts of a list of strings.
pub open spec fn texts(list: Seq<String>) -> Seq<Seq<char>> {
    list.map_values(|text: String| text@)
}

impl View for ErrorState {
    type V = ErrorView;

    open spec fn view(&self) -> ErrorView {
        ErrorView { context: self.context@, causes: texts(self.causes@), retry: self.retry }
    }
}

/// The controller as a mathematical value.
pub struct ControllerView {
    pub config: PomodoroConfig,
    pub stats: StatsManagerView,
    pub state: CycleState,
    pub error: Option<ErrorView>,
}

impl Retry {
    /// The command that repeats the operation under the given settings.
    pub open spec fn command(self, config: PomodoroConfig) -> Command {
        match self {
            Retry::SaveStats => Command::SaveStats,
            Retry::ReloadStats => Command::ReloadStats,
            Retry::BreakTimer { long_break } => Command::SpawnBreak {
                long_break,
                duration: config.break_length(long_break),
            },
        }
    }

    /// What was being done when the operation failed.
    pub open spec fn context(self) -> Seq<char> {
        match self {
            Retry::SaveStats => "Failed to save stats"@,
            Retry::ReloadStats => "Failed to reload stats"@,
            Retry::BreakTimer { .. } => "Failed to spawn break timer"@,
        }
    }
}

/// The cause that names the file that is not accepted.
pub open spec fn cannot_decode(path: Seq<char>) -> Seq<char> {
    "Cannot decode "@ + path
}

/// The statistics with the start of the application booked on the tracked
/// day, as far as the counters have room.
pub open spec fn with_app_session(stats: StatsManagerView) -> StatsManagerView {
    StatsManagerView { date: stats.date, stats: stats.stats.counted_session(stats.date.buckets()) }
}

/// The statistics with a completed work session booked on the tracked day,
/// as far as the counters have room.
pub open spec fn with_completed_session(stats: StatsManagerView) -> StatsManagerView {
    StatsManagerView { date: stats.date, stats: stats.stats.counted_pomodoro(stats.date.buckets()) }
}

/// The statistics with a work goal logged.
pub open spec fn with_logged_goal(
    stats: StatsManagerView,
    at: DateTime,
    goal: Seq<char>,
) -> StatsManagerView {
    StatsManagerView { date: stats.date, stats: stats.stats.with_goal(at, goal) }
}

impl ControllerView {
    /// The settings, the tracked day and the dates of the logged goals are
    /// valid, and so is the state of the cycle.
    pub open spec fn wf(self) -> bool {
        self.config.wf() && self.stats.date.wf() && self.stats.stats.wf() && self.state.wf()
    }

    /// Whether the message can be handled: always while a failure is
    /// shown, since it is then set aside; else where the state of the
    /// cycle has a transition for it.
    pub open spec fn accepts(self, event: Event) -> bool {
        self.error is Some || self.state.accepts(event)
    }

    /// The controller after a message at the clock reading `now` and the
    /// time of day `at`.
    ///
    /// While a failure is shown nothing changes. Otherwise the cycle makes
    /// its step; where that starts the first session, the goal is logged
    /// and the start of the application is booked.
    pub open spec fn after_message(self, event: Event, now: u64, at: DateTime) -> ControllerView {
        if self.error is Some {
            self
        } else {
            let step = self.state.step(event, self.config, now);
            ControllerView {
                state: step.state,
                stats: match step.effect {
                    Effect::BeginSession { goal } => with_app_session(
                        with_logged_goal(self.stats, at, goal),
                    ),
                    _ => self.stats,
                },
                ..self
            }
        }
    }

    /// What handling the message asks of the caller.
    pub open spec fn reaction(self, event: Event, now: u64) -> Reaction {
        if self.error is Some {
            Reaction { notify: None, command: Command::Idle }
        } else {
            let step = self.state.step(event, self.config, now);
            Reaction {
                notify: step.notify,
                command: match step.effect {
                    Effect::Idle => Command::Idle,
                    Effect::FocusInput => Command::FocusInput,
                    Effect::BeginSession { .. } => Command::SaveStats,
                    Effect::Exit => Command::Exit,
                    Effect::SpawnBreak { long_break, duration } => Command::SpawnBreak {
                        long_break,
                        duration,
                    },
                },
            }
        }
    }

    /// The controller after a break that ended at `now` with the goal of
    /// the next session. In a running cycle the next session starts, the
    /// completed one is booked, and the goal is logged. Outside a running
    /// cycle there is no session that a break could complete, and nothing
    /// changes.
    pub open spec fn after_break(self, goal: Seq<char>, now: u64, at: DateTime) -> ControllerView {
        if self.state is Running {
            ControllerView {
                state: self.state.after_break(self.config, now),
                stats: with_logged_goal(with_completed_session(self.stats), at, goal),
                ..self
            }
        } else {
            self
        }
    }

    /// What is to be done after a break has ended: the statistics are to
    /// be saved where a session was booked.
    pub open spec fn command_after_break(self) -> Command {
        if self.state is Running {
            Command::SaveStats
        } else {
            Command::Idle
        }
    }

    /// Whether clock ticks are wanted: while a session counts down and no
    /// failure is shown.
    pub open spec fn wants_ticks(self) -> bool {
        self.error is None && self.state.wants_ticks()
    }

    /// The controller that shows the failure of an operation.
    pub open spec fn failed(self, retry: Retry, causes: Seq<Seq<char>>) -> ControllerView {
        ControllerView {
            error: Some(ErrorView { context: retry.context(), causes, retry }),
            ..self
        }
    }

    /// The controller after the file at `path` was read on the day
    /// `today`: with the statistics that the file holds, or showing which
    /// file is not accepted and why.
    pub open spec fn after_reload(
        self,
        today: Date,
        stored: Option<Seq<u8>>,
        path: Seq<char>,
    ) -> ControllerView {
        match StatsManager::loaded(today, stored) {
            Ok(stats) => ControllerView { stats, ..self },
            Err(e) => self.failed(Retry::ReloadStats, seq![cannot_decode(path), e.message()]),
        }
    }
}

/// The causes of the failure to decode the file at `path`: the file, and
/// what is wrong with it.
pub fn decode_failure(path: &str, error: DecodeError) -> (causes: Vec<String>)
    ensures
        texts(causes@) == seq![cannot_decode(path@), error.message()],
{
    let mut file = String::from_str("Cannot decode ");
    file.append(path);
    let mut causes: Vec<String> = Vec::new();
    causes.push(file);
    causes.push(String::from_str(error.describe()));
    assert(texts(causes@) =~= seq![cannot_decode(path@), error.message()]);
    causes
}

/// The cycle with its settings, statistics and pending failure.
#[derive(Debug)]
pub struct Controller {
    config: PomodoroConfig,
    stats: StatsManager,
    state: AppState,
    error: Option<ErrorState>,
}

impl View for Controller {
    type V = ControllerView;

    closed spec fn view(&self) -> ControllerView {
        ControllerView {
            config: self.config,
            stats: self.stats@,
            state: self.state@,
            error: match self.error {
                Some(error) => Some(error@),
                None => None,
            },
        }
    }
}

impl Controller {
    /// A cycle that has not begun, with no failure pending.
    pub fn new(config: PomodoroConfig, stats: StatsManager) -> (controller: Controller)
        ensures
            controller@ == (ControllerView {
                config,
                stats: stats@,
                state: CycleState::Startup,
                error: None,
            }),
    {
        Controller { config, stats, state: AppState::Startup, error: None }
    }

    /// The settings.
    pub fn config(&self) -> (config: &PomodoroConfig)
        ensures
            *config == self@.config,
    {
        &self.config
    }

    /// The statistics.
    pub fn stats(&self) -> (stats: &StatsManager)
        ensures
            stats@ == self@.stats,
    {
        &self.stats
    }

    /// The state of the cycle.
    pub fn state(&self) -> (state: &AppState)
        ensures
            state@ == self@.state,
    {
        &self.state
    }

    /// The failure that waits for a retry, if any.
    pub fn error(&self) -> (error: Option<&ErrorState>)
        ensures
            match error {
                Some(e) => self@.error == Some(e@),
                None => self@.error is None,
            },
    {
        self.error.as_ref()
    }

    /// Whether the message can be handled now.
    pub fn accepts(&self, message: &Message) -> (accepted: bool)
        ensures
            accepted == self@.accepts(message@),
    {
        self.error.is_some() || self.state.accepts(message)
    }

    /// Whether clock ticks are wanted now.
    pub fn wants_ticks(&self) -> (wanted: bool)
        ensures
            wanted == self@.wants_ticks(),
    {
        self.error.is_none() && self.state.wants_ticks()
    }

    /// Whether the settings, the tracked day, the dates of the logged
    /// goals and the state are valid.
    pub fn is_valid(&self) -> (valid: bool)
        ensures
            valid == self@.wf(),
    {
        self.config.is_valid() && self.stats.is_valid() && self.state.is_valid()
    }

    /// Handles a message at the clock reading `now` and the time of day
    /// `at`.
    pub fn update(&mut self, message: Message, now: u64, at: DateTime) -> (reaction: Reaction)
        requires
            old(self)@.wf(),
            old(self)@.accepts(message@),
            at.wf(),
        ensures
            final(self)@ == old(self)@.after_message(message@, now, at),
            reaction == old(self)@.reaction(message@, now),
            final(self)@.wf(),
    {
        if self.error.is_some() {
            return Reaction { notify: None, command: Command::Idle };
        }
        let mut state = AppState::Startup;
        core::mem::swap(&mut self.state, &mut state);
        let (next, outcome) = state.update(message, &self.config, now);
        self.state = next;
        let command = match outcome.action {
            Action::Idle => Command::Idle,
            Action::FocusInput => Command::FocusInput,
            Action::BeginSession { goal } => {
                self.stats.add_work_goal(at, goal);
                self.stats.increment_app_sessions_count();
                Command::SaveStats
            },
            Action::Exit => Command::Exit,
            Action::SpawnBreak { long_break, duration } => Command::SpawnBreak {
                long_break,
                duration,
            },
        };
        Reaction { notify: outcome.notify, command }
    }

    /// Books a break that ended at `now` in a running cycle, and starts
    /// the next work session; the statistics are to be saved next. Outside
    /// a running cycle nothing is booked and nothing is to be done.
    pub fn break_finished(&mut self, goal: String, now: u64, at: DateTime) -> (command: Command)
        requires
            old(self)@.wf(),
            at.wf(),
        ensures
            final(self)@ == old(self)@.after_break(goal@, now, at),
            command == old(self)@.command_after_break(),
            final(self)@.wf(),
    {
        if !matches!(self.state, AppState::Running { .. }) {
            return Command::Idle;
        }
        let mut state = AppState::Startup;
        core::mem::swap(&mut self.state, &mut state);
        self.state = state.finish_break(&self.config, now);
        self.stats.increment_pomodori_count();
        self.stats.add_work_goal(at, goal);
        Command::SaveStats
    }

    /// Takes note that an operation failed, with its causes, the
    /// outermost first. The failure is shown until a retry.
    pub fn operation_failed(&mut self, retry: Retry, causes: Vec<String>)
        ensures
            final(self)@ == old(self)@.failed(retry, texts(causes@)),
    {
        let context = match retry {
            Retry::SaveStats => "Failed to save stats",
            Retry::ReloadStats => "Failed to reload stats",
            Retry::BreakTimer { .. } => "Failed to spawn break timer",
        };
        self.error = Some(ErrorState { context: String::from_str(context), causes, retry });
    }

    /// The bytes to write to the file of the statistics.
    pub fn stats_file(&self) -> (bytes: Vec<u8>)
        requires
            self@.stats.stats.wf(),
        ensures
            crate::codec::decode_spec(bytes@) == Ok::<crate::stats::StatsView, DecodeError>(
                self@.stats.stats,
            ),
    {
        self.stats.save()
    }

    /// After the statistics were saved on the day `today`: says whether
    /// they have to be read again because the day has changed.
    pub fn stats_saved(&self, today: Date) -> (command: Command)
        ensures
            command == if today != self@.stats.date {
                Command::ReloadStats
            } else {
                Command::Idle
            },
    {
        if self.stats.reload_if_needed(today) {
            Command::ReloadStats
        } else {
            Command::Idle
        }
    }

    /// Takes over the statistics read on the day `today` from the bytes of
    /// the file at `path`, or from its absence. A file that is not
    /// accepted is a failure that names the file, and the statistics in
    /// memory stay.
    pub fn stats_reloaded(&mut self, today: Date, stored: Option<&[u8]>, path: &str)
        requires
            today.wf(),
        ensures
            final(self)@ == old(self)@.after_reload(
                today,
                match stored {
                    Some(bytes) => Some(bytes@),
                    None => None,
                },
                path@,
            ),
            old(self)@.wf() ==> final(self)@.wf(),
    {
        match StatsManager::load(today, stored) {
            Ok(stats) => {
                self.stats = stats;
            },
            Err(e) => {
                let causes = decode_failure(path, e);
                self.operation_failed(Retry::ReloadStats, causes);
            },
        }
    }

    /// Clears the failure and returns the command that repeats the failed
    /// operation; does nothing where no failure is pending.
    pub fn retry(&mut self) -> (command: Command)
        ensures
            final(self)@ == (ControllerView { error: None, ..old(self)@ }),
            command == match old(self)@.error {
                Some(error) => error.retry.command(old(self)@.config),
                None => Command::Idle,
            },
    {
        match self.error.take() {
            Some(error) => match error.retry {
                Retry::SaveStats => Command::SaveStats,
                Retry::ReloadStats => Command::ReloadStats,
                Retry::BreakTimer { long_break } => Command::SpawnBreak {
                    long_break,
                    duration: self.config.break_duration_for(long_break),
                },
            },
            None => Command::Idle,
        }
    }
}

} // verus!
