//! The cycle state machine: from waiting for the first goal, through work
//! sessions, to the breaks between them and the long break every so often.

use crate::config::PomodoroConfig;
use crate::work_timer::{TimerState, WorkTimer};
use vstd::prelude::*;

verus! {

/// The counter of breaks until the next long one after a break is taken, and
/// whether the break taken is the long one: the counter goes down by one, and
/// where that leaves zero the break is long and the counter starts again at
/// the cadence.
pub open spec fn cadence_step(long_break_in: u16, cadence: u16) -> (u16, bool) {
    if long_break_in == 1 {
        (cadence, true)
    } else {
        ((long_break_in - 1) as u16, false)
    }
}

/// The counter after `breaks` breaks in a row.
pub open spec fn cadence_after(long_break_in: u16, cadence: u16, breaks: nat) -> u16
    decreases breaks,
{
    if breaks == 0 {
        long_break_in
    } else {
        cadence_step(cadence_after(long_break_in, cadence, (breaks - 1) as nat), cadence).0
    }
}

/// Whether the break with the given number, counted from zero, is long.
pub open spec fn nth_break_is_long(long_break_in: u16, cadence: u16, n: nat) -> bool {
    cadence_step(cadence_after(long_break_in, cadence, n), cadence).1
}

/// Starting from a full counter, the breaks come as `cadence - 1` short ones
/// and then a long one, over and over: break number `n` is long exactly
/// when `n + 1` is a multiple of the cadence, and before it the counter
/// stands at the cadence less the breaks taken since the last long one.
pub proof fn lemma_cadence_cycle(cadence: u16, n: nat)
    requires
        cadence >= 1,
    ensures
        cadence_after(cadence, cadence, n) == cadence - n % (cadence as nat),
        nth_break_is_long(cadence, cadence, n) == ((n + 1) % (cadence as nat) == 0),
    decreases n,
{
    let c = cadence as nat;
    if n > 0 {
        lemma_cadence_cycle(cadence, (n - 1) as nat);
        lemma_mod_successor((n - 1) as nat, c);
    }
    lemma_mod_successor(n, c);
}

/// The remainder of a successor: one more, or back to zero.
proof fn lemma_mod_successor(n: nat, c: nat)
    requires
        c >= 1,
    ensures
        (n + 1) % c == if n % c == c - 1 {
            0
        } else {
            n % c + 1
        },
        n % c < c,
{
    vstd::arithmetic::div_mod::lemma_fundamental_div_mod(n as int, c as int);
    vstd::arithmetic::div_mod::lemma_mod_bound(n as int, c as int);
    if n % c == c - 1 {
        let q = (n / c) as int;
        assert(n + 1 == (q + 1) * c) by (nonlinear_arith)
            requires
                n == c * q + (c - 1),
        ;
        vstd::arithmetic::div_mod::lemma_mod_multiples_basic(q + 1, c as int);
    } else {
        let q = (n / c) as int;
        let r = (n % c) as int;
        assert(n + 1 == q * c + (r + 1)) by (nonlinear_arith)
            requires
                n == c * q + r,
        ;
        vstd::arithmetic::div_mod::lemma_fundamental_div_mod_converse(
            (n + 1) as int,
            c as int,
            (n / c) as int,
            (n % c + 1) as int,
        );
    }
}

/// After a number of breaks equal to the cadence the counter is full again,
/// and of those breaks only the last was long.
pub proof fn lemma_cadence_round(cadence: u16)
    requires
        cadence >= 1,
    ensures
        cadence_after(cadence, cadence, cadence as nat) == cadence,
        forall|n: nat|
            n < cadence ==> #[trigger] nth_break_is_long(cadence, cadence, n) == (n == cadence
                - 1),
{
    let c = cadence as nat;
    lemma_cadence_cycle(cadence, c);
    vstd::arithmetic::div_mod::lemma_mod_self_0(c as int);
    assert forall|n: nat| n < cadence implies #[trigger] nth_break_is_long(cadence, cadence, n)
        == (n == cadence - 1) by {
        lemma_cadence_cycle(cadence, n);
        if n + 1 == c {
            vstd::arithmetic::div_mod::lemma_mod_self_0(c as int);
        } else {
            vstd::arithmetic::div_mod::lemma_small_mod((n + 1) as nat, c);
        }
    }
}

/// Takes one break off the counter: returns the new counter and whether
/// this break is the long one.
pub fn take_break(long_break_in: u16, cadence: u16) -> (next: (u16, bool))
    requires
        long_break_in >= 1,
    ensures
        next == cadence_step(long_break_in, cadence),
{
    let left: u16 = long_break_in - 1;
    if left == 0 {
        (cadence, true)
    } else {
        (left, false)
    }
}

/// Where the cycle stands.
#[derive(Debug)]
pub enum AppState {
    /// Nothing has happened yet.
    Startup,
    /// The goal of the first work session is being typed.
    InitialWorkGoalPrompt { goal: String },
    /// Work sessions and breaks alternate.
    Running {
        /// Breaks left until the long one, that one included. At least one.
        long_break_in: u16,
        work_timer: WorkTimer,
        /// Whether the cycle ends with the current work session.
        last_work_session: bool,
        /// Whether the coming break was announced in this work session.
        shown_notification: bool,
    },
}

/// What can happen to the cycle.
#[derive(Debug)]
pub enum Message {
    /// The input field is ready to take the focus.
    StartupFocus,
    InitialWorkGoalChange(String),
    InitialWorkGoalSubmit,
    TogglePause,
    ToggleLastWorkSession,
    /// The clock has advanced.
    Tick,
}

/// What the caller has to do after a step of the cycle.
#[derive(Debug)]
pub enum Action {
    /// Nothing.
    Idle,
    /// Give the input field the focus.
    FocusInput,
    /// Record the goal of the first session and the start of the
    /// application session, and save the statistics.
    BeginSession { goal: String },
    /// Announce that the last work session is over, and quit.
    Exit,
    /// Show a break of the given kind and length, and report back when it
    /// is over.
    SpawnBreak { long_break: bool, duration: u64 },
}

/// The result of a step besides the new state.
#[derive(Debug)]
pub struct Outcome {
    /// The time left, where the coming break has to be announced now.
    pub notify: Option<u64>,
    pub action: Action,
}

/// The state of the cycle as a mathematical value.
pub enum CycleState {
    Startup,
    InitialPrompt { goal: Seq<char> },
    Running { long_break_in: u16, work_timer: TimerState, last_work_session: bool, notified: bool },
}

/// A message as a mathematical value.
pub enum Event {
    StartupFocus,
    GoalChange(Seq<char>),
    GoalSubmit,
    TogglePause,
    ToggleLastWorkSession,
    Tick,
}

/// An action as a mathematical value.
pub enum Effect {
    Idle,
    FocusInput,
    BeginSession { goal: Seq<char> },
    Exit,
    SpawnBreak { long_break: bool, duration: u64 },
}

/// One step of the cycle: the state it leads to and what it asks for.
pub struct Step {
    pub state: CycleState,
    pub notify: Option<u64>,
    pub effect: Effect,
}

impl View for AppState {
    type V = CycleState;

    open spec fn view(&self) -> CycleState {
        match self {
            AppState::Startup => CycleState::Startup,
            AppState::InitialWorkGoalPrompt { goal } => CycleState::InitialPrompt { goal: goal@ },
            AppState::Running { long_break_in, work_timer, last_work_session, shown_notification } =>
                CycleState::Running {
                    long_break_in: *long_break_in,
                    work_timer: work_timer@,
                    last_work_session: *last_work_session,
                    notified: *shown_notification,
                },
        }
    }
}

impl View for Message {
    type V = Event;

    open spec fn view(&self) -> Event {
        match self {
            Message::StartupFocus => Event::StartupFocus,
            Message::InitialWorkGoalChange(goal) => Event::GoalChange(goal@),
            Message::InitialWorkGoalSubmit => Event::GoalSubmit,
            Message::TogglePause => Event::TogglePause,
            Message::ToggleLastWorkSession => Event::ToggleLastWorkSession,
            Message::Tick => Event::Tick,
        }
    }
}

impl View for Action {
    type V = Effect;

    open spec fn view(&self) -> Effect {
        match self {
            Action::Idle => Effect::Idle,
            Action::FocusInput => Effect::FocusInput,
            Action::BeginSession { goal } => Effect::BeginSession { goal: goal@ },
            Action::Exit => Effect::Exit,
            Action::SpawnBreak { long_break, duration } => Effect::SpawnBreak {
                long_break: *long_break,
                duration: *duration,
            },
        }
    }
}

impl CycleState {
    /// A running cycle always has at least one break to go until the long
    /// one.
    pub open spec fn wf(self) -> bool {
        self matches CycleState::Running { long_break_in, .. } ==> long_break_in >= 1
    }

    /// The running state in which the first work session starts at `now`.
    pub open spec fn first_session(config: PomodoroConfig, now: u64) -> CycleState {
        CycleState::Running {
            long_break_in: config.long_break_each,
            work_timer: TimerState { tick_origin: Some(now), remaining: config.work_duration },
            last_work_session: false,
            notified: false,
        }
    }

    /// Whether the message has a transition from this state. The focus
    /// signal belongs to the start, the goal messages to the prompt, and the
    /// rest to a running cycle.
    pub open spec fn accepts(self, event: Event) -> bool {
        match event {
            Event::StartupFocus => self is Startup,
            Event::GoalChange(_) | Event::GoalSubmit => self is InitialPrompt,
            Event::TogglePause | Event::ToggleLastWorkSession | Event::Tick => self is Running,
        }
    }

    /// The step that a clock tick at `now` makes in a running cycle.
    ///
    /// The timer advances. The coming break is announced once per session,
    /// when the time left is first seen at or below the threshold. While
    /// time is left nothing else happens. At zero the cycle ends if this was
    /// the last session; otherwise a break is due, the counter of breaks
    /// decides whether it is the long one, and the settings give its
    /// length.
    pub open spec fn tick(self, config: PomodoroConfig, now: u64) -> Step
        recommends
            self is Running,
    {
        let timer = self->work_timer.ticked(now);
        let due = timer.remaining <= config.notification_duration;
        let notify = if due && !self->notified {
            Some(timer.remaining)
        } else {
            None
        };
        let notified = self->notified || due;
        let advanced = CycleState::Running {
            long_break_in: self->long_break_in,
            work_timer: timer,
            last_work_session: self->last_work_session,
            notified,
        };
        if timer.remaining != 0 {
            Step { state: advanced, notify, effect: Effect::Idle }
        } else if self->last_work_session {
            Step { state: advanced, notify, effect: Effect::Exit }
        } else {
            let (long_break_in, long_break) = cadence_step(
                self->long_break_in,
                config.long_break_each,
            );
            Step {
                state: CycleState::Running {
                    long_break_in,
                    work_timer: timer,
                    last_work_session: false,
                    notified,
                },
                notify,
                effect: Effect::SpawnBreak {
                    long_break,
                    duration: config.break_length(long_break),
                },
            }
        }
    }

    /// The step that a message makes at the clock reading `now`.
    pub open spec fn step(self, event: Event, config: PomodoroConfig, now: u64) -> Step
        recommends
            self.accepts(event),
    {
        match event {
            Event::StartupFocus => Step {
                state: CycleState::InitialPrompt { goal: Seq::empty() },
                notify: None,
                effect: Effect::FocusInput,
            },
            Event::GoalChange(goal) => Step {
                state: CycleState::InitialPrompt { goal },
                notify: None,
                effect: Effect::Idle,
            },
            Event::GoalSubmit => if self->goal.len() == 0 {
                Step { state: self, notify: None, effect: Effect::Idle }
            } else {
                Step {
                    state: CycleState::first_session(config, now),
                    notify: None,
                    effect: Effect::BeginSession { goal: self->goal },
                }
            },
            Event::TogglePause => Step {
                state: CycleState::Running {
                    long_break_in: self->long_break_in,
                    work_timer: self->work_timer.toggled(now),
                    last_work_session: self->last_work_session,
                    notified: self->notified,
                },
                notify: None,
                effect: Effect::Idle,
            },
            Event::ToggleLastWorkSession => Step {
                state: CycleState::Running {
                    long_break_in: self->long_break_in,
                    work_timer: self->work_timer,
                    last_work_session: !self->last_work_session,
                    notified: self->notified,
                },
                notify: None,
                effect: Effect::Idle,
            },
            Event::Tick => self.tick(config, now),
        }
    }

    /// The state after a break that ended at `now`: a running cycle starts
    /// its next work session, with a fresh timer and no announcement made;
    /// any other state stays.
    pub open spec fn after_break(self, config: PomodoroConfig, now: u64) -> CycleState {
        match self {
            CycleState::Running { long_break_in, last_work_session, .. } => CycleState::Running {
                long_break_in,
                work_timer: TimerState { tick_origin: Some(now), remaining: config.work_duration },
                last_work_session,
                notified: false,
            },
            _ => self,
        }
    }

    /// Whether clock ticks are wanted: only while a session is counting
    /// down.
    pub open spec fn wants_ticks(self) -> bool {
        self matches CycleState::Running { work_timer, .. } && work_timer.tick_origin is Some
            && work_timer.remaining != 0
    }
}

/// The coming break is announced once per work session: a tick announces
/// it exactly when the time left is at or below the threshold and no
/// announcement was made since the session began, and from then on the
/// session counts as announced, through ticks, pauses and the toggling of
/// the last-session mark, until a break is over.
pub proof fn lemma_announced_once(state: CycleState, config: PomodoroConfig, now: u64)
    requires
        state is Running,
    ensures
        ({
            let step = state.step(Event::Tick, config, now);
            let due = state->work_timer.ticked(now).remaining <= config.notification_duration;
            &&& step.notify is Some <==> due && !state->notified
            &&& step.notify matches Some(left) ==> left == state->work_timer.ticked(now).remaining
            &&& step.state is Running
            &&& step.state->notified == (state->notified || due)
        }),
        state.step(Event::TogglePause, config, now).notify is None,
        state.step(Event::TogglePause, config, now).state->notified == state->notified,
        state.step(Event::ToggleLastWorkSession, config, now).notify is None,
        state.step(Event::ToggleLastWorkSession, config, now).state->notified == state->notified,
        !state.after_break(config, now)->notified,
{
}

/// A break is asked for exactly by a tick that finds no time left in a
/// session that is not the last one; it takes one off the counter of
/// breaks, or starts the counter again where the break is the long one.
pub proof fn lemma_break_due(state: CycleState, config: PomodoroConfig, now: u64)
    requires
        state is Running,
        state.wf(),
        config.wf(),
    ensures
        ({
            let step = state.step(Event::Tick, config, now);
            let left = state->work_timer.ticked(now).remaining;
            &&& step.effect is SpawnBreak <==> left == 0 && !state->last_work_session
            &&& step.effect is Exit <==> left == 0 && state->last_work_session
            &&& step.effect is Idle <==> left != 0
            &&& step.effect matches Effect::SpawnBreak { long_break, duration } ==> {
                &&& long_break == (state->long_break_in == 1)
                &&& duration == config.break_length(long_break)
                &&& step.state->long_break_in == if long_break {
                    config.long_break_each
                } else {
                    (state->long_break_in - 1) as u16
                }
            }
            &&& !(step.effect is SpawnBreak) ==> step.state->long_break_in == state->long_break_in
            &&& step.state.wf()
        }),
{
}

impl AppState {
    /// Whether the message has a transition from this state.
    pub fn accepts(&self, message: &Message) -> (accepted: bool)
        ensures
            accepted == self@.accepts(message@),
    {
        match message {
            Message::StartupFocus => matches!(self, AppState::Startup),
            Message::InitialWorkGoalChange(_) | Message::InitialWorkGoalSubmit => matches!(
                self,
                AppState::InitialWorkGoalPrompt { .. }
            ),
            Message::TogglePause | Message::ToggleLastWorkSession | Message::Tick => matches!(
                self,
                AppState::Running { .. }
            ),
        }
    }

    /// Whether a running cycle has at least one break to go until the long
    /// one.
    pub fn is_valid(&self) -> (valid: bool)
        ensures
            valid == self@.wf(),
    {
        match self {
            AppState::Running { long_break_in, .. } => *long_break_in >= 1,
            _ => true,
        }
    }

    /// Whether clock ticks are wanted.
    pub fn wants_ticks(&self) -> (wanted: bool)
        ensures
            wanted == self@.wants_ticks(),
    {
        match self {
            AppState::Running { work_timer, .. } => !work_timer.is_paused()
                && work_timer.duration_remaning() != 0,
            _ => false,
        }
    }

    /// Makes the step that `message` asks for at the clock reading `now`.
    pub fn update(self, message: Message, config: &PomodoroConfig, now: u64) -> (next: (
        AppState,
        Outcome,
    ))
        requires
            self@.wf(),
            config.wf(),
            self@.accepts(message@),
        ensures
            next.0@ == self@.step(message@, *config, now).state,
            next.1.notify == self@.step(message@, *config, now).notify,
            next.1.action@ == self@.step(message@, *config, now).effect,
            next.0@.wf(),
    {
        match message {
            Message::StartupFocus => (
                AppState::InitialWorkGoalPrompt { goal: String::new() },
                Outcome { notify: None, action: Action::FocusInput },
            ),
            Message::InitialWorkGoalChange(goal) => (
                AppState::InitialWorkGoalPrompt { goal },
                Outcome { notify: None, action: Action::Idle },
            ),
            Message::InitialWorkGoalSubmit => match self {
                AppState::InitialWorkGoalPrompt { goal } => {
                    if goal.as_str().is_empty() {
                        (
                            AppState::InitialWorkGoalPrompt { goal },
                            Outcome { notify: None, action: Action::Idle },
                        )
                    } else {
                        (
                            AppState::Running {
                                long_break_in: config.long_break_each,
                                work_timer: WorkTimer::new(config.work_duration, now),
                                last_work_session: false,
                                shown_notification: false,
                            },
                            Outcome { notify: None, action: Action::BeginSession { goal } },
                        )
                    }
                },
                other => (other, Outcome { notify: None, action: Action::Idle }),
            },
            Message::TogglePause => match self {
                AppState::Running {
                    long_break_in,
                    mut work_timer,
                    last_work_session,
                    shown_notification,
                } => {
                    work_timer.toggle_pause(now);
                    (
                        AppState::Running {
                            long_break_in,
                            work_timer,
                            last_work_session,
                            shown_notification,
                        },
                        Outcome { notify: None, action: Action::Idle },
                    )
                },
                other => (other, Outcome { notify: None, action: Action::Idle }),
            },
            Message::ToggleLastWorkSession => match self {
                AppState::Running {
                    long_break_in,
                    work_timer,
                    last_work_session,
                    shown_notification,
                } => (
                    AppState::Running {
                        long_break_in,
                        work_timer,
                        last_work_session: !last_work_session,
                        shown_notification,
                    },
                    Outcome { notify: None, action: Action::Idle },
                ),
                other => (other, Outcome { notify: None, action: Action::Idle }),
            },
            Message::Tick => match self {
                AppState::Running {
                    long_break_in,
                    mut work_timer,
                    last_work_session,
                    shown_notification,
                } => {
                    work_timer.on_tick(now);
                    let remaining = work_timer.duration_remaning();
                    let due = remaining <= config.notification_duration;
                    let notify = if due && !shown_notification {
                        Some(remaining)
                    } else {
                        None
                    };
                    let shown_notification = shown_notification || due;
                    if remaining != 0 {
                        (
                            AppState::Running {
                                long_break_in,
                                work_timer,
                                last_work_session,
                                shown_notification,
                            },
                            Outcome { notify, action: Action::Idle },
                        )
                    } else if last_work_session {
                        (
                            AppState::Running {
                                long_break_in,
                                work_timer,
                                last_work_session,
                                shown_notification,
                            },
                            Outcome { notify, action: Action::Exit },
                        )
                    } else {
                        let (long_break_in, long_break) = take_break(
                            long_break_in,
                            config.long_break_each,
                        );
                        (
                            AppState::Running {
                                long_break_in,
                                work_timer,
                                last_work_session,
                                shown_notification,
                            },
                            Outcome {
                                notify,
                                action: Action::SpawnBreak {
                                    long_break,
                                    duration: config.break_duration_for(long_break),
                                },
                            },
                        )
                    }
                },
                other => (other, Outcome { notify: None, action: Action::Idle }),
            },
        }
    }

    /// Starts the next work session at `now`, when a break is over.
    pub fn finish_break(self, config: &PomodoroConfig, now: u64) -> (next: AppState)
        ensures
            next@ == self@.after_break(*config, now),
            self@.wf() ==> next@.wf(),
    {
        match self {
            AppState::Running { long_break_in, last_work_session, .. } => AppState::Running {
                long_break_in,
                work_timer: WorkTimer::new(config.work_duration, now),
                last_work_session,
                shown_notification: false,
            },
            other => other,
        }
    }
}

} // verus!
