//! The countdown of a break, and the rules by which a break ends.
//!
//! Unlike the countdown of a work session, the time left of a break goes
//! below zero: the negative part is the time by which the break has run
//! over.

use crate::work_timer::saturating_sub;
use vstd::prelude::*;

verus! {

/// How a break that is over has ended, as the accounting sees it.
#[derive(Debug, Clone, Copy, PartialEq, Eq, Structural)]
pub enum BreakTimeResult {
    /// The break was cut short to go on working on an overtime allowance.
    OvertimeUsed,
    /// The break was taken, and lasted this long.
    BreakComplete(u64),
}

/// What a break of the nominal length `break_duration` that lasted `elapsed`
/// counts as: one that ended before its time was cut short for overtime.
pub open spec fn classify(elapsed: u64, break_duration: u64) -> BreakTimeResult {
    if elapsed < break_duration {
        BreakTimeResult::OvertimeUsed
    } else {
        BreakTimeResult::BreakComplete(elapsed)
    }
}

/// Tells from the time a break lasted how it ended.
pub fn classify_break(elapsed: u64, break_duration: u64) -> (result: BreakTimeResult)
    ensures
        result == classify(elapsed, break_duration),
{
    if elapsed < break_duration {
        BreakTimeResult::OvertimeUsed
    } else {
        BreakTimeResult::BreakComplete(elapsed)
    }
}

/// The rule by which a break ends.
#[derive(Debug, Clone, Copy, PartialEq, Eq, Structural)]
pub enum ExitPolicy {
    /// Any input ends the break once its time is up; none does before.
    FixedDuration,
    /// As `FixedDuration`, and before the time is up a request for
    /// overtime ends the break at once and grants the allowance.
    OvertimeOption { allowance: u64 },
    /// Only submitting the goal of the next work session ends the break,
    /// and only where the goal is not empty. The time running out does not
    /// end it; whether a submit is offered before that is for the screen
    /// to decide.
    WorkGoal,
}

/// What can happen during a break.
#[derive(Debug)]
pub enum BreakInput {
    /// The clock has advanced.
    Tick,
    /// The input that asks for overtime.
    OvertimeRequested,
    /// Any other key.
    OtherInput,
    /// The text of the goal was edited.
    GoalChanged(String),
    /// The goal was submitted.
    GoalSubmitted,
}

/// How a break has ended.
#[derive(Debug)]
pub enum BreakOutcome {
    /// Work goes on, for this much longer than a session lasts.
    OvertimeAllowanceGranted(u64),
    /// The break is over after `elapsed`; `goal` is the goal of the next
    /// work session, empty where the rule asks for none.
    BreakCompleted { elapsed: u64, goal: String },
}

/// A break input as a mathematical value.
pub enum BreakEvent {
    Tick,
    OvertimeRequested,
    OtherInput,
    GoalChanged(Seq<char>),
    GoalSubmitted,
}

/// The end of a break as a mathematical value.
pub enum BreakEnd {
    OvertimeAllowanceGranted(u64),
    BreakCompleted { elapsed: u64, goal: Seq<char> },
}

impl View for BreakInput {
    type V = BreakEvent;

    open spec fn view(&self) -> BreakEvent {
        match self {
            BreakInput::Tick => BreakEvent::Tick,
            BreakInput::OvertimeRequested => BreakEvent::OvertimeRequested,
            BreakInput::OtherInput => BreakEvent::OtherInput,
            BreakInput::GoalChanged(goal) => BreakEvent::GoalChanged(goal@),
            BreakInput::GoalSubmitted => BreakEvent::GoalSubmitted,
        }
    }
}

impl View for BreakOutcome {
    type V = BreakEnd;

    open spec fn view(&self) -> BreakEnd {
        match self {
            BreakOutcome::OvertimeAllowanceGranted(allowance) => BreakEnd::OvertimeAllowanceGranted(
                *allowance,
            ),
            BreakOutcome::BreakCompleted { elapsed, goal } => BreakEnd::BreakCompleted {
                elapsed: *elapsed,
                goal: goal@,
            },
        }
    }
}

impl BreakEnd {
    /// The end of the break as the accounting sees it.
    pub open spec fn result(self) -> BreakTimeResult {
        match self {
            BreakEnd::OvertimeAllowanceGranted(_) => BreakTimeResult::OvertimeUsed,
            BreakEnd::BreakCompleted { elapsed, .. } => BreakTimeResult::BreakComplete(elapsed),
        }
    }
}

impl BreakOutcome {
    /// The end of the break as the accounting sees it.
    pub fn result(&self) -> (result: BreakTimeResult)
        ensures
            result == self@.result(),
    {
        match self {
            BreakOutcome::OvertimeAllowanceGranted(_) => BreakTimeResult::OvertimeUsed,
            BreakOutcome::BreakCompleted { elapsed, .. } => BreakTimeResult::BreakComplete(
                *elapsed,
            ),
        }
    }
}

/// A break as a mathematical value.
pub struct BreakState {
    pub policy: ExitPolicy,
    /// The instant at which the break began.
    pub started: u64,
    /// The instant of the latest tick.
    pub last_tick: u64,
    /// The time left; negative once the break runs over.
    pub remaining: i64,
    pub is_long: bool,
    /// The goal of the next work session as typed so far.
    pub goal: Seq<char>,
}

/// `a - b`, but not below the least 64-bit number.
pub open spec fn signed_saturating_sub(a: i64, b: u64) -> i64 {
    if a - b < i64::MIN {
        i64::MIN
    } else {
        (a - b) as i64
    }
}

impl BreakState {
    /// The break after a clock tick at `now`: the time since the latest
    /// tick is taken off the time left, which may go below zero.
    pub open spec fn ticked(self, now: u64) -> BreakState {
        BreakState {
            remaining: signed_saturating_sub(
                self.remaining,
                saturating_sub(now as int, self.last_tick as int) as u64,
            ),
            last_tick: now,
            ..self
        }
    }

    /// Whether the time of the break is up.
    pub open spec fn time_is_up(self) -> bool {
        self.remaining <= 0
    }

    /// The break after an input at `now`. Only ticks and edits of the goal
    /// change it.
    pub open spec fn after(self, event: BreakEvent, now: u64) -> BreakState {
        match event {
            BreakEvent::Tick => self.ticked(now),
            BreakEvent::GoalChanged(goal) => if self.policy is WorkGoal {
                BreakState { goal, ..self }
            } else {
                self
            },
            _ => self,
        }
    }

    /// The heading to show: the call back to work once the time is up,
    /// else the kind of the break.
    pub open spec fn title(self) -> Seq<char> {
        if self.time_is_up() {
            "Time to work! (submit your work reason)"@
        } else if self.is_long {
            "Time for a long break"@
        } else {
            "Time for a break!"@
        }
    }

    /// How the input at `now` ends the break, if it does.
    ///
    /// A tick never ends a break. Under the rule of the work goal a
    /// submitted goal that is not empty does, and nothing else. Under the
    /// other rules any key does once the time is up; before that, the
    /// request for overtime does where the rule offers overtime.
    pub open spec fn ends(self, event: BreakEvent, now: u64) -> Option<BreakEnd> {
        let completed = BreakEnd::BreakCompleted {
            elapsed: saturating_sub(now as int, self.started as int) as u64,
            goal: self.goal,
        };
        match self.policy {
            ExitPolicy::WorkGoal => if event is GoalSubmitted && self.goal.len() > 0 {
                Some(completed)
            } else {
                None
            },
            ExitPolicy::FixedDuration => if (event is OvertimeRequested || event is OtherInput)
                && self.time_is_up() {
                Some(completed)
            } else {
                None
            },
            ExitPolicy::OvertimeOption { allowance } => if (event is OvertimeRequested || event
                is OtherInput) && self.time_is_up() {
                Some(completed)
            } else if event is OvertimeRequested {
                Some(BreakEnd::OvertimeAllowanceGranted(allowance))
            } else {
                None
            },
        }
    }
}

/// Under the rule of the work goal a break ends exactly on a submitted
/// goal that is not empty, whatever time is left, and hands on that goal
/// and the time since the break began; no input but a tick or an edit of
/// the goal changes the break.
pub proof fn lemma_work_goal_ends_the_break(state: BreakState, event: BreakEvent, now: u64)
    requires
        state.policy is WorkGoal,
    ensures
        state.ends(event, now) is Some <==> event is GoalSubmitted && state.goal.len() > 0,
        state.ends(event, now) matches Some(end) ==> end == (BreakEnd::BreakCompleted {
            elapsed: saturating_sub(now as int, state.started as int) as u64,
            goal: state.goal,
        }),
        !(event is Tick) && !(event is GoalChanged) ==> state.after(event, now) == state,
{
}

/// A break in progress.
#[derive(Debug)]
pub struct BreakTimer {
    policy: ExitPolicy,
    started: u64,
    last_tick: u64,
    break_duration_left: i64,
    long_break: bool,
    work_goal: String,
}

impl View for BreakTimer {
    type V = BreakState;

    closed spec fn view(&self) -> BreakState {
        BreakState {
            policy: self.policy,
            started: self.started,
            last_tick: self.last_tick,
            remaining: self.break_duration_left,
            is_long: self.long_break,
            goal: self.work_goal@,
        }
    }
}

impl BreakTimer {
    /// A break of the given length that begins at `now`, or `None` where
    /// the length does not fit a signed 64-bit number of nanoseconds.
    pub fn new(policy: ExitPolicy, long_break: bool, duration: u64, now: u64) -> (timer: Option<
        BreakTimer,
    >)
        ensures
            timer is Some <==> duration <= i64::MAX,
            timer matches Some(t) ==> t@ == (BreakState {
                policy,
                started: now,
                last_tick: now,
                remaining: duration as i64,
                is_long: long_break,
                goal: Seq::empty(),
            }),
    {
        if duration > i64::MAX as u64 {
            None
        } else {
            Some(
                BreakTimer {
                    policy,
                    started: now,
                    last_tick: now,
                    break_duration_left: duration as i64,
                    long_break,
                    work_goal: String::new(),
                },
            )
        }
    }

    /// The time left; negative once the break runs over.
    pub fn remaining(&self) -> (remaining: i64)
        ensures
            remaining == self@.remaining,
    {
        self.break_duration_left
    }

    /// Whether this is a long break.
    pub fn is_long(&self) -> (long_break: bool)
        ensures
            long_break == self@.is_long,
    {
        self.long_break
    }

    /// Whether the time of the break is up.
    pub fn time_is_up(&self) -> (up: bool)
        ensures
            up == self@.time_is_up(),
    {
        self.break_duration_left <= 0
    }

    /// The heading to show.
    pub fn title(&self) -> (title: &'static str)
        ensures
            title@ == self@.title(),
    {
        if self.break_duration_left <= 0 {
            "Time to work! (submit your work reason)"
        } else if self.long_break {
            "Time for a long break"
        } else {
            "Time for a break!"
        }
    }

    /// The goal of the next work session as typed so far.
    pub fn work_goal(&self) -> (goal: &String)
        ensures
            goal@ == self@.goal,
    {
        &self.work_goal
    }

    /// Advances the countdown to the clock reading `now`.
    pub fn on_tick(&mut self, now: u64)
        ensures
            final(self)@ == old(self)@.ticked(now),
    {
        let elapsed = now.saturating_sub(self.last_tick);
        let left = self.break_duration_left as i128 - elapsed as i128;
        self.break_duration_left = if left < i64::MIN as i128 {
            i64::MIN
        } else {
            left as i64
        };
        self.last_tick = now;
    }

    /// Handles an input at the clock reading `now`: returns how the break
    /// has ended, or `None` while it goes on.
    pub fn update(&mut self, input: BreakInput, now: u64) -> (outcome: Option<BreakOutcome>)
        ensures
            final(self)@ == old(self)@.after(input@, now),
            match outcome {
                Some(end) => old(self)@.ends(input@, now) == Some(end@),
                None => old(self)@.ends(input@, now) is None,
            },
    {
        let up = self.break_duration_left <= 0;
        match input {
            BreakInput::Tick => {
                self.on_tick(now);
                None
            },
            BreakInput::GoalChanged(goal) => {
                if let ExitPolicy::WorkGoal = self.policy {
                    self.work_goal = goal;
                }
                None
            },
            BreakInput::GoalSubmitted => match self.policy {
                ExitPolicy::WorkGoal => if !self.work_goal.as_str().is_empty() {
                    Some(
                        BreakOutcome::BreakCompleted {
                            elapsed: now.saturating_sub(self.started),
                            goal: self.work_goal.clone(),
                        },
                    )
                } else {
                    None
                },
                _ => None,
            },
            BreakInput::OvertimeRequested => match self.policy {
                ExitPolicy::WorkGoal => None,
                ExitPolicy::FixedDuration => if up {
                    Some(
                        BreakOutcome::BreakCompleted {
                            elapsed: now.saturating_sub(self.started),
                            goal: self.work_goal.clone(),
                        },
                    )
                } else {
                    None
                },
                ExitPolicy::OvertimeOption { allowance } => if up {
                    Some(
                        BreakOutcome::BreakCompleted {
                            elapsed: now.saturating_sub(self.started),
                            goal: self.work_goal.clone(),
                        },
                    )
                } else {
                    Some(BreakOutcome::OvertimeAllowanceGranted(allowance))
                },
            },
            BreakInput::OtherInput => match self.policy {
                ExitPolicy::WorkGoal => None,
                _ => if up {
                    Some(
                        BreakOutcome::BreakCompleted {
                            elapsed: now.saturating_sub(self.started),
                            goal: self.work_goal.clone(),
                        },
                    )
                } else {
                    None
                },
            },
        }
    }
}

} // verus!
