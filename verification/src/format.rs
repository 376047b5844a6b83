//! Numbers and lengths of time as text.

use crate::config::NANOS_PER_SEC;
use vstd::prelude::*;
use vstd::string::StringExecFns;

verus! {

/// The character of a decimal digit.
pub open spec fn digit_char(digit: nat) -> char {
    if digit == 0 {
        '0'
    } else if digit == 1 {
        '1'
    } else if digit == 2 {
        '2'
    } else if digit == 3 {
        '3'
    } else if digit == 4 {
        '4'
    } else if digit == 5 {
        '5'
    } else if digit == 6 {
        '6'
    } else if digit == 7 {
        '7'
    } else if digit == 8 {
        '8'
    } else {
        '9'
    }
}

/// The number in decimal, without leading zeros.
pub open spec fn decimal(number: nat) -> Seq<char>
    decreases number,
{
    if number < 10 {
        seq![digit_char(number)]
    } else {
        decimal(number / 10).push(digit_char(number % 10))
    }
}

/// The number in decimal, with a leading zero where it has one digit.
pub open spec fn two_digits(number: nat) -> Seq<char> {
    if number < 10 {
        seq!['0'] + decimal(number)
    } else {
        decimal(number)
    }
}

/// A number of seconds as minutes and seconds: `m:ss`.
pub open spec fn clock_text(secs: nat) -> Seq<char> {
    decimal(secs / 60) + seq![':'] + two_digits(secs % 60)
}

/// A signed number of nanoseconds as minutes and whole seconds, with a
/// minus sign where it is negative: `m:ss` or `-m:ss`.
pub open spec fn signed_clock_text(nanos: i64) -> Seq<char> {
    if nanos < 0 {
        seq!['-'] + clock_text(((-(nanos as int)) / (NANOS_PER_SEC as int)) as nat)
    } else {
        clock_text(((nanos as int) / (NANOS_PER_SEC as int)) as nat)
    }
}

/// The text that announces the coming break.
pub open spec fn notification_text(remaining: u64) -> Seq<char> {
    "Next break in "@ + clock_text((remaining / NANOS_PER_SEC) as nat)
}

/// The digit as a string of one character.
fn digit_str(digit: u64) -> (text: &'static str)
    requires
        digit < 10,
    ensures
        text@ == seq![digit_char(digit as nat)],
{
    proof {
        reveal_strlit("0");
        reveal_strlit("1");
        reveal_strlit("2");
        reveal_strlit("3");
        reveal_strlit("4");
        reveal_strlit("5");
        reveal_strlit("6");
        reveal_strlit("7");
        reveal_strlit("8");
        reveal_strlit("9");
    }
    let text = if digit == 0 {
        "0"
    } else if digit == 1 {
        "1"
    } else if digit == 2 {
        "2"
    } else if digit == 3 {
        "3"
    } else if digit == 4 {
        "4"
    } else if digit == 5 {
        "5"
    } else if digit == 6 {
        "6"
    } else if digit == 7 {
        "7"
    } else if digit == 8 {
        "8"
    } else {
        "9"
    };
    assert(text@ =~= seq![digit_char(digit as nat)]);
    text
}

/// Appends the number in decimal.
pub fn push_decimal(text: &mut String, number: u64)
    ensures
        final(text)@ == old(text)@ + decimal(number as nat),
    decreases number,
{
    if number < 10 {
        text.append(digit_str(number));
    } else {
        push_decimal(text, number / 10);
        text.append(digit_str(number % 10));
        assert(text@ =~= old(text)@ + decimal(number as nat));
    }
}

/// Appends a number of seconds as minutes and seconds.
pub fn push_clock(text: &mut String, secs: u64)
    ensures
        final(text)@ == old(text)@ + clock_text(secs as nat),
{
    proof {
        reveal_strlit(":");
        reveal_strlit("0");
    }
    push_decimal(text, secs / 60);
    text.append(":");
    if secs % 60 < 10 {
        text.append("0");
    }
    push_decimal(text, secs % 60);
    assert(text@ =~= old(text)@ + clock_text(secs as nat));
}

/// A length of time as minutes and whole seconds: `m:ss`.
pub fn format_duration(duration: u64) -> (text: String)
    ensures
        text@ == clock_text((duration / NANOS_PER_SEC) as nat),
{
    let mut text = String::new();
    push_clock(&mut text, duration / NANOS_PER_SEC);
    assert(text@ =~= clock_text((duration / NANOS_PER_SEC) as nat));
    text
}

/// A length of time that may be negative as minutes and whole seconds:
/// `m:ss` or `-m:ss`.
pub fn format_signed_duration(duration: i64) -> (text: String)
    ensures
        text@ == signed_clock_text(duration),
{
    proof {
        reveal_strlit("-");
    }
    let mut text = String::new();
    let magnitude: u64 = if duration < 0 {
        text.append("-");
        (-(duration as i128)) as u64
    } else {
        duration as u64
    };
    push_clock(&mut text, magnitude / NANOS_PER_SEC);
    assert(text@ =~= signed_clock_text(duration));
    text
}

/// A length of time in nanoseconds that is shown as minutes and whole
/// seconds, with a minus sign where it is negative.
#[derive(Debug, Clone, Copy, PartialEq, Eq, Structural)]
pub struct HumanReadableDuration(pub i64);

impl HumanReadableDuration {
    /// The length of time as text: `m:ss` or `-m:ss`.
    pub fn to_text(&self) -> (text: String)
        ensures
            text@ == signed_clock_text(self.0),
    {
        format_signed_duration(self.0)
    }
}

/// The text that announces the coming break, given the time left.
pub fn notification_body(remaining: u64) -> (text: String)
    ensures
        text@ == notification_text(remaining),
{
    let mut text = String::from_str("Next break in ");
    push_clock(&mut text, remaining / NANOS_PER_SEC);
    text
}

} // verus!
