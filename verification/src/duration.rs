//! Lengths of time as they are written in the settings: a number of
//! seconds or of minutes.

use crate::config::NANOS_PER_SEC;
use crate::format::{decimal, push_decimal};
use vstd::prelude::*;
use vstd::string::{StrSliceExecFns, StringExecFns};

verus! {

/// A length of time in whole seconds or whole minutes.
#[derive(Debug, Clone, Copy, PartialEq, Eq, Structural)]
pub enum Duration {
    Seconds(u16),
    Minutes(u16),
}

/// The length in minutes of a short break unless set otherwise.
pub const BREAK_MINUTES: u16 = 5;

/// The length in minutes of a long break unless set otherwise.
pub const LONG_BREAK_MINUTES: u16 = 10;

/// The length in minutes of an overtime allowance unless set otherwise.
pub const OVERTIME_MINUTES: u16 = 2;

/// The length in minutes of a work session unless set otherwise.
pub const WORK_MINUTES: u16 = 20;

/// The deviation in seconds that is forgiven unless set otherwise.
pub const FORGIVE_SECONDS: u16 = 8;

/// The long-break cadence unless set otherwise.
pub const LONG_BREAK_IN: u16 = 4;

impl Duration {
    /// The length in whole seconds.
    pub open spec fn secs(self) -> nat {
        match self {
            Duration::Seconds(seconds) => seconds as nat,
            Duration::Minutes(minutes) => minutes as nat * 60,
        }
    }

    /// The length in nanoseconds.
    pub open spec fn nanos(self) -> nat {
        self.secs() * (NANOS_PER_SEC as nat)
    }

    /// The length in whole seconds.
    pub fn as_secs(&self) -> (secs: u64)
        ensures
            secs == self.secs(),
    {
        match self {
            Duration::Seconds(seconds) => *seconds as u64,
            Duration::Minutes(minutes) => *minutes as u64 * 60,
        }
    }

    /// The length in nanoseconds.
    pub fn as_nanos(&self) -> (nanos: u64)
        ensures
            nanos == self.nanos(),
    {
        let secs = self.as_secs();
        assert(secs * NANOS_PER_SEC <= u64::MAX) by (nonlinear_arith)
            requires
                secs <= 65535 * 60,
                NANOS_PER_SEC == 1_000_000_000,
        ;
        secs * NANOS_PER_SEC
    }
}

/// Why a text is not a length of time.
#[derive(Debug, Clone, Copy, PartialEq, Eq, Structural)]
pub enum ParseDurationError {
    /// What stands before the unit is not a number from 0 to 65535.
    InvalidNumber,
    /// The unit is neither `s` nor `m`.
    UnknownUnit,
}

/// The value of a decimal digit, or `None` for any other character.
pub open spec fn digit_value(c: char) -> Option<nat> {
    if c == '0' {
        Some(0)
    } else if c == '1' {
        Some(1)
    } else if c == '2' {
        Some(2)
    } else if c == '3' {
        Some(3)
    } else if c == '4' {
        Some(4)
    } else if c == '5' {
        Some(5)
    } else if c == '6' {
        Some(6)
    } else if c == '7' {
        Some(7)
    } else if c == '8' {
        Some(8)
    } else if c == '9' {
        Some(9)
    } else {
        None
    }
}

/// Whether every character is a decimal digit.
pub open spec fn all_digits(text: Seq<char>) -> bool {
    forall|i: int| 0 <= i < text.len() ==> digit_value(#[trigger] text[i]) is Some
}

/// The number that a sequence of digits writes in decimal.
pub open spec fn digits_value(text: Seq<char>) -> nat
    decreases text.len(),
{
    if text.len() == 0 {
        0
    } else {
        digits_value(text.drop_last()) * 10 + digit_value(text.last()).unwrap()
    }
}

/// The number that the text writes: one or more decimal digits, after a
/// plus sign or without one, that make a number of at most 65535.
pub open spec fn parse_number(text: Seq<char>) -> Option<u16> {
    let digits = if text.len() > 0 && text[0] == '+' {
        text.drop_first()
    } else {
        text
    };
    if digits.len() > 0 && all_digits(digits) && digits_value(digits) <= u16::MAX {
        Some(digits_value(digits) as u16)
    } else {
        None
    }
}

/// The length of time that the text writes: a number and then the unit,
/// `s` for seconds or `m` for minutes.
pub open spec fn parse_duration_spec(text: Seq<char>) -> Result<Duration, ParseDurationError> {
    if text.len() == 0 {
        Err(ParseDurationError::InvalidNumber)
    } else {
        match parse_number(text.drop_last()) {
            None => Err(ParseDurationError::InvalidNumber),
            Some(number) => if text.last() == 's' {
                Ok(Duration::Seconds(number))
            } else if text.last() == 'm' {
                Ok(Duration::Minutes(number))
            } else {
                Err(ParseDurationError::UnknownUnit)
            },
        }
    }
}

/// A longer run of digits does not write a smaller number.
proof fn lemma_digits_value_grows(text: Seq<char>, k: int)
    requires
        0 <= k <= text.len(),
    ensures
        digits_value(text.take(k)) <= digits_value(text),
    decreases text.len() - k,
{
    if k < text.len() {
        lemma_digits_value_grows(text, k + 1);
        assert(text.take(k + 1).drop_last() =~= text.take(k));
    } else {
        assert(text.take(k) =~= text);
    }
}

/// The decimal writing of a number is made of digits and writes that
/// number.
pub proof fn lemma_decimal_value(number: nat)
    ensures
        decimal(number).len() > 0,
        all_digits(decimal(number)),
        digits_value(decimal(number)) == number,
        decimal(number)[0] != '+',
    decreases number,
{
    if number < 10 {
        let text = decimal(number);
        assert(text.drop_last() =~= Seq::<char>::empty());
        assert(digits_value(text.drop_last()) == 0);
    } else {
        lemma_decimal_value(number / 10);
        let front = decimal(number / 10);
        let text = decimal(number);
        assert(text.drop_last() =~= front);
        assert(text[0] == front[0]);
        assert forall|i: int| 0 <= i < text.len() implies digit_value(#[trigger] text[i])
            is Some by {
            if i < front.len() {
                assert(text[i] == front[i]);
            }
        }
    }
}

/// A length of time as it is written reads back as itself.
pub proof fn lemma_text_parses_back(duration: Duration)
    ensures
        parse_duration_spec(duration.text()) == Ok::<Duration, ParseDurationError>(duration),
{
    let number: nat = match duration {
        Duration::Seconds(seconds) => seconds as nat,
        Duration::Minutes(minutes) => minutes as nat,
    };
    lemma_decimal_value(number);
    assert(duration.text().drop_last() =~= decimal(number));
}

/// The value of a decimal digit, or `None` for any other character.
fn digit_of(c: char) -> (value: Option<u32>)
    ensures
        match value {
            Some(v) => digit_value(c) == Some(v as nat),
            None => digit_value(c) is None,
        },
{
    if c == '0' {
        Some(0)
    } else if c == '1' {
        Some(1)
    } else if c == '2' {
        Some(2)
    } else if c == '3' {
        Some(3)
    } else if c == '4' {
        Some(4)
    } else if c == '5' {
        Some(5)
    } else if c == '6' {
        Some(6)
    } else if c == '7' {
        Some(7)
    } else if c == '8' {
        Some(8)
    } else if c == '9' {
        Some(9)
    } else {
        None
    }
}

/// Reads the number written by the first `len` characters of the text.
fn parse_number_prefix(text: &str, len: usize) -> (number: Option<u16>)
    requires
        len <= text@.len(),
    ensures
        number == parse_number(text@.take(len as int)),
{
    let ghost whole = text@.take(len as int);
    let start: usize = if len > 0 && text.get_char(0) == '+' {
        1
    } else {
        0
    };
    let ghost digits = if start == 1 {
        whole.drop_first()
    } else {
        whole
    };
    proof {
        if start == 1 {
            assert(whole[0] == '+');
        }
        assert(digits =~= whole.subrange(start as int, len as int));
    }
    if start == len {
        return None;
    }
    let mut value: u32 = 0;
    let mut i: usize = start;
    while i < len
        invariant
            start <= i <= len,
            len <= text@.len(),
            whole == text@.take(len as int),
            digits == whole.subrange(start as int, len as int),
            digits.len() > 0,
            parse_number(whole) == if all_digits(digits) && digits_value(digits) <= u16::MAX {
                Some(digits_value(digits) as u16)
            } else {
                None
            },
            all_digits(digits.take(i - start)),
            value == digits_value(digits.take(i - start)),
            value <= u16::MAX,
        decreases len - i,
    {
        let c = text.get_char(i);
        assert(digits[i - start] == c);
        let ghost next = digits.take(i - start + 1);
        proof {
            assert(next.drop_last() =~= digits.take(i - start));
            assert(next.last() == c);
        }
        match digit_of(c) {
            None => {
                assert(digit_value(digits[i - start]) is None);
                return None;
            },
            Some(d) => {
                value = value * 10 + d;
                assert(all_digits(next)) by {
                    assert forall|j: int| 0 <= j < next.len() implies digit_value(
                        #[trigger] next[j],
                    ) is Some by {
                        if j < i - start {
                            assert(next[j] == digits.take(i - start)[j]);
                        }
                    }
                }
                if value > 65535 {
                    proof {
                        lemma_digits_value_grows(digits, i - start + 1);
                    }
                    return None;
                }
            },
        }
        i += 1;
    }
    proof {
        assert(digits.take(len - start) =~= digits);
    }
    Some(value as u16)
}

/// Reads a length of time: a number from 0 to 65535 and then `s` for
/// seconds or `m` for minutes.
pub fn parse_duration(arg: &str) -> (parsed: Result<Duration, ParseDurationError>)
    ensures
        parsed == parse_duration_spec(arg@),
{
    let len = arg.unicode_len();
    if len == 0 {
        return Err(ParseDurationError::InvalidNumber);
    }
    assert(arg@.take(len - 1) =~= arg@.drop_last());
    let number = match parse_number_prefix(arg, len - 1) {
        Some(number) => number,
        None => {
            return Err(ParseDurationError::InvalidNumber);
        },
    };
    let unit = arg.get_char(len - 1);
    if unit == 's' {
        Ok(Duration::Seconds(number))
    } else if unit == 'm' {
        Ok(Duration::Minutes(number))
    } else {
        Err(ParseDurationError::UnknownUnit)
    }
}

impl Duration {
    /// The length of time as it is written: the number and the unit.
    pub open spec fn text(self) -> Seq<char> {
        match self {
            Duration::Seconds(seconds) => decimal(seconds as nat).push('s'),
            Duration::Minutes(minutes) => decimal(minutes as nat).push('m'),
        }
    }

    /// The length of time as it is written: the number and the unit.
    pub fn to_text(&self) -> (text: String)
        ensures
            text@ == self.text(),
    {
        proof {
            reveal_strlit("s");
            reveal_strlit("m");
        }
        let mut text = String::new();
        match self {
            Duration::Seconds(seconds) => {
                push_decimal(&mut text, *seconds as u64);
                text.append("s");
            },
            Duration::Minutes(minutes) => {
                push_decimal(&mut text, *minutes as u64);
                text.append("m");
            },
        }
        assert(text@ =~= self.text());
        text
    }
}

} // verus!
