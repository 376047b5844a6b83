//! The file format of the statistics.
//!
//! A file is a five-byte header (the letters `ANYD` and the format version),
//! the log of work goals, the counts by day, week, month and year, and the
//! counters of all time. Numbers are little-endian and of fixed width;
//! signed fields are stored with an offset that makes them unsigned. A list
//! is its length as a 64-bit number and then its items. A work goal is a
//! date and time in eleven bytes and the goal's text in UTF-8 after its
//! length in bytes; an entry of a count map is a key in eight bytes and two
//! counters in four bytes each.
//!
//! Decoding accepts exactly the files of this shape in which every work goal
//! is dated at a day of the calendar and a time of that day, every text is
//! valid UTF-8, the keys of each map go up from entry to entry, and nothing
//! follows the last counter. So each record of statistics has one file, and
//! each accepted file is the file of the statistics it decodes to.

use crate::date::{Date, DateTime};
use crate::stats::{
    entries_map,
    entries_sorted,
    goals_valid,
    goals_view,
    lemma_sorted_entries_unique,
    Count,
    CountMap,
    Stats,
    StatsView,
    WorkGoal,
};
use vstd::bytes::{
    lemma_auto_spec_u16_to_from_le_bytes,
    lemma_auto_spec_u32_to_from_le_bytes,
    lemma_auto_spec_u64_to_from_le_bytes,
    spec_u16_from_le_bytes,
    spec_u16_to_le_bytes,
    spec_u32_from_le_bytes,
    spec_u32_to_le_bytes,
    spec_u64_from_le_bytes,
    spec_u64_to_le_bytes,
    u16_from_le_bytes,
    u16_to_le_bytes,
    u32_from_le_bytes,
    u32_to_le_bytes,
    u64_from_le_bytes,
    u64_to_le_bytes,
};
use vstd::prelude::*;
use vstd::slice::{slice_subrange, slice_to_vec};
use vstd::string::{StrSliceExecFns, StringSliceAdditionalSpecFns};
use vstd::utf8::{
    decode_utf8,
    decode_utf8_encode_utf8,
    encode_utf8,
    encode_utf8_decode_utf8,
    encode_utf8_valid_utf8,
    valid_utf8,
};

verus! {

/// Why a file was not accepted.
#[derive(Debug, Clone, Copy, PartialEq, Eq, Structural)]
pub enum DecodeError {
    /// The file ends in the middle of an item.
    Truncated,
    /// The file does not start with the letters of the format.
    BadMagic,
    /// The file was written in a version of the format other than this one.
    UnsupportedVersion,
    /// The keys of a count map do not go up from each entry to the next.
    KeysOutOfOrder,
    /// A work goal is dated at what is no day of the calendar or no time of
    /// day.
    InvalidTimestamp,
    /// The text of a work goal is not valid UTF-8.
    InvalidText,
    /// Bytes follow the last item.
    TrailingBytes,
}

impl DecodeError {
    /// The error in words.
    pub open spec fn message(self) -> Seq<char> {
        match self {
            DecodeError::Truncated => "the file ends in the middle of an item"@,
            DecodeError::BadMagic => "the file is not a statistics file"@,
            DecodeError::UnsupportedVersion => "the file has an unknown format version"@,
            DecodeError::KeysOutOfOrder => "the keys of a count map are out of order"@,
            DecodeError::InvalidTimestamp => "a work goal has no valid date and time"@,
            DecodeError::InvalidText => "a work goal is not valid UTF-8"@,
            DecodeError::TrailingBytes => "bytes follow the end of the statistics"@,
        }
    }

    /// The error in words.
    pub fn describe(&self) -> (text: &'static str)
        ensures
            text@ == self.message(),
    {
        match self {
            DecodeError::Truncated => "the file ends in the middle of an item",
            DecodeError::BadMagic => "the file is not a statistics file",
            DecodeError::UnsupportedVersion => "the file has an unknown format version",
            DecodeError::KeysOutOfOrder => "the keys of a count map are out of order",
            DecodeError::InvalidTimestamp => "a work goal has no valid date and time",
            DecodeError::InvalidText => "a work goal is not valid UTF-8",
            DecodeError::TrailingBytes => "bytes follow the end of the statistics",
        }
    }
}

/// The version of the format.
pub const VERSION: u8 = 1;

/// The length of the header.
pub const HEADER_LEN: usize = 5;

/// The length of a date and time.
pub const DATETIME_LEN: usize = 11;

/// The length of the two counters of a bucket.
pub const COUNT_LEN: usize = 8;

/// The length of an entry of a count map.
pub const ENTRY_LEN: usize = 16;

/// The letters that a file starts with.
pub open spec fn magic() -> Seq<u8> {
    seq![0x41u8, 0x4eu8, 0x59u8, 0x44u8]
}

/// The header of a file.
pub open spec fn header() -> Seq<u8> {
    magic().push(VERSION)
}

/// The date and time stored in a block of eleven bytes.
pub open spec fn datetime_of(block: Seq<u8>) -> DateTime {
    DateTime {
        date: Date {
            year: (spec_u16_from_le_bytes(block.subrange(0, 2)) - 32768) as i16,
            month: (block[2] - 128) as i8,
            day: (block[3] - 128) as i8,
        },
        hour: (block[4] - 128) as i8,
        minute: (block[5] - 128) as i8,
        second: (block[6] - 128) as i8,
        subsec_nanosecond: (spec_u32_from_le_bytes(block.subrange(7, 11)) - 2147483648) as i32,
    }
}

/// The block of eleven bytes that stores a date and time.
pub open spec fn datetime_bytes(at: DateTime) -> Seq<u8> {
    spec_u16_to_le_bytes((at.date.year + 32768) as u16) + seq![
        (at.date.month + 128) as u8,
        (at.date.day + 128) as u8,
        (at.hour + 128) as u8,
        (at.minute + 128) as u8,
        (at.second + 128) as u8,
    ] + spec_u32_to_le_bytes((at.subsec_nanosecond + 2147483648) as u32)
}

/// The counters stored in a block of eight bytes.
pub open spec fn count_of(block: Seq<u8>) -> Count {
    Count {
        sessions: spec_u32_from_le_bytes(block.subrange(0, 4)),
        pomodori: spec_u32_from_le_bytes(block.subrange(4, 8)),
    }
}

/// The block of eight bytes that stores two counters.
pub open spec fn count_bytes(count: Count) -> Seq<u8> {
    spec_u32_to_le_bytes(count.sessions) + spec_u32_to_le_bytes(count.pomodori)
}

/// The entry of a count map stored in a block of sixteen bytes.
pub open spec fn entry_of(block: Seq<u8>) -> (u64, Count) {
    (spec_u64_from_le_bytes(block.subrange(0, 8)), count_of(block.subrange(8, 16)))
}

/// The block of sixteen bytes that stores an entry of a count map.
pub open spec fn entry_bytes(entry: (u64, Count)) -> Seq<u8> {
    spec_u64_to_le_bytes(entry.0) + count_bytes(entry.1)
}

/// The bytes that store the text of a work goal.
pub open spec fn text_bytes(text: Seq<char>) -> Seq<u8> {
    spec_u64_to_le_bytes(encode_utf8(text).len() as u64) + encode_utf8(text)
}

/// The bytes that store a work goal.
pub open spec fn goal_bytes(goal: (DateTime, Seq<char>)) -> Seq<u8> {
    datetime_bytes(goal.0) + text_bytes(goal.1)
}

/// The bytes that store the work goals one after the other.
pub open spec fn goals_bytes(goals: Seq<(DateTime, Seq<char>)>) -> Seq<u8>
    decreases goals.len(),
{
    if goals.len() == 0 {
        Seq::empty()
    } else {
        goals_bytes(goals.drop_last()) + goal_bytes(goals.last())
    }
}

/// The bytes that store the entries one after the other.
pub open spec fn entries_bytes(entries: Seq<(u64, Count)>) -> Seq<u8>
    decreases entries.len(),
{
    if entries.len() == 0 {
        Seq::empty()
    } else {
        entries_bytes(entries.drop_last()) + entry_bytes(entries.last())
    }
}

/// The bytes that store a count map whose entries are listed in `entries`.
pub open spec fn counts_bytes(entries: Seq<(u64, Count)>) -> Seq<u8> {
    spec_u64_to_le_bytes(entries.len() as u64) + entries_bytes(entries)
}

/// The bytes that store the log of work goals.
pub open spec fn log_bytes(goals: Seq<(DateTime, Seq<char>)>) -> Seq<u8> {
    spec_u64_to_le_bytes(goals.len() as u64) + goals_bytes(goals)
}

/// The bytes that store the four count maps, the entries of each in the
/// order of its list.
pub open spec fn maps_bytes(
    day: Seq<(u64, Count)>,
    week: Seq<(u64, Count)>,
    month: Seq<(u64, Count)>,
    year: Seq<(u64, Count)>,
) -> Seq<u8> {
    counts_bytes(day) + counts_bytes(week) + counts_bytes(month) + counts_bytes(year)
}

/// The file that stores the given log and counts, the entries of each map
/// in the order of its list.
pub open spec fn file_bytes(
    goals: Seq<(DateTime, Seq<char>)>,
    day: Seq<(u64, Count)>,
    week: Seq<(u64, Count)>,
    month: Seq<(u64, Count)>,
    year: Seq<(u64, Count)>,
    all_time: Count,
) -> Seq<u8> {
    header() + log_bytes(goals) + maps_bytes(day, week, month, year) + count_bytes(all_time)
}

/// The 64-bit number at `pos`, and the position after it.
pub open spec fn read_u64(s: Seq<u8>, pos: int) -> Result<(u64, int), DecodeError> {
    if 0 <= pos && pos + 8 <= s.len() {
        Ok((spec_u64_from_le_bytes(s.subrange(pos, pos + 8)), pos + 8))
    } else {
        Err(DecodeError::Truncated)
    }
}

/// The two counters at `pos`, and the position after them.
pub open spec fn read_count(s: Seq<u8>, pos: int) -> Result<(Count, int), DecodeError> {
    if 0 <= pos && pos + COUNT_LEN <= s.len() {
        Ok((count_of(s.subrange(pos, pos + COUNT_LEN)), pos + COUNT_LEN))
    } else {
        Err(DecodeError::Truncated)
    }
}

/// The entry of a count map at `pos`, and the position after it.
pub open spec fn read_entry(s: Seq<u8>, pos: int) -> Result<((u64, Count), int), DecodeError> {
    if 0 <= pos && pos + ENTRY_LEN <= s.len() {
        Ok((entry_of(s.subrange(pos, pos + ENTRY_LEN)), pos + ENTRY_LEN))
    } else {
        Err(DecodeError::Truncated)
    }
}

/// The first `n` entries from `pos` on, and the position after them. A key
/// that is not above the key of the entry before is an error.
pub open spec fn read_entries(s: Seq<u8>, pos: int, n: nat) -> Result<
    (Seq<(u64, Count)>, int),
    DecodeError,
>
    decreases n,
{
    if n == 0 {
        Ok((Seq::empty(), pos))
    } else {
        match read_entries(s, pos, (n - 1) as nat) {
            Ok((entries, next)) => match read_entry(s, next) {
                Ok((entry, after)) => if entries.len() > 0 && entries.last().0 >= entry.0 {
                    Err(DecodeError::KeysOutOfOrder)
                } else {
                    Ok((entries.push(entry), after))
                },
                Err(e) => Err(e),
            },
            Err(e) => Err(e),
        }
    }
}

/// The count map at `pos`, and the position after it.
pub open spec fn read_counts(s: Seq<u8>, pos: int) -> Result<(Map<u64, Count>, int), DecodeError> {
    match read_u64(s, pos) {
        Ok((n, next)) => match read_entries(s, next, n as nat) {
            Ok((entries, after)) => Ok((entries_map(entries), after)),
            Err(e) => Err(e),
        },
        Err(e) => Err(e),
    }
}

/// The date and time at `pos`, and the position after it. What is no day
/// of the calendar or no time of day is an error.
pub open spec fn read_datetime(s: Seq<u8>, pos: int) -> Result<(DateTime, int), DecodeError> {
    if 0 <= pos && pos + DATETIME_LEN <= s.len() {
        if datetime_of(s.subrange(pos, pos + DATETIME_LEN)).wf() {
            Ok((datetime_of(s.subrange(pos, pos + DATETIME_LEN)), pos + DATETIME_LEN))
        } else {
            Err(DecodeError::InvalidTimestamp)
        }
    } else {
        Err(DecodeError::Truncated)
    }
}

/// The text at `pos`, and the position after it.
pub open spec fn read_text(s: Seq<u8>, pos: int) -> Result<(Seq<char>, int), DecodeError> {
    match read_u64(s, pos) {
        Ok((len, next)) => if next + len <= s.len() {
            if valid_utf8(s.subrange(next, next + len)) {
                Ok((decode_utf8(s.subrange(next, next + len)), next + len))
            } else {
                Err(DecodeError::InvalidText)
            }
        } else {
            Err(DecodeError::Truncated)
        },
        Err(e) => Err(e),
    }
}

/// The work goal at `pos`, and the position after it.
pub open spec fn read_goal(s: Seq<u8>, pos: int) -> Result<
    ((DateTime, Seq<char>), int),
    DecodeError,
> {
    match read_datetime(s, pos) {
        Ok((at, next)) => match read_text(s, next) {
            Ok((text, after)) => Ok(((at, text), after)),
            Err(e) => Err(e),
        },
        Err(e) => Err(e),
    }
}

/// The first `n` work goals from `pos` on, and the position after them.
pub open spec fn read_goals(s: Seq<u8>, pos: int, n: nat) -> Result<
    (Seq<(DateTime, Seq<char>)>, int),
    DecodeError,
>
    decreases n,
{
    if n == 0 {
        Ok((Seq::empty(), pos))
    } else {
        match read_goals(s, pos, (n - 1) as nat) {
            Ok((goals, next)) => match read_goal(s, next) {
                Ok((goal, after)) => Ok((goals.push(goal), after)),
                Err(e) => Err(e),
            },
            Err(e) => Err(e),
        }
    }
}

/// The log of work goals at `pos`, and the position after it.
pub open spec fn read_log(s: Seq<u8>, pos: int) -> Result<
    (Seq<(DateTime, Seq<char>)>, int),
    DecodeError,
> {
    match read_u64(s, pos) {
        Ok((n, next)) => read_goals(s, next, n as nat),
        Err(e) => Err(e),
    }
}

/// What is wrong with the first five bytes of a file, if anything.
pub open spec fn check_header(s: Seq<u8>) -> Option<DecodeError> {
    if s.len() < HEADER_LEN {
        Some(DecodeError::Truncated)
    } else if s.subrange(0, 4) != magic() {
        Some(DecodeError::BadMagic)
    } else if s[4] != VERSION {
        Some(DecodeError::UnsupportedVersion)
    } else {
        None
    }
}

/// The four count maps from `pos` on, and the position after them.
pub open spec fn read_maps(s: Seq<u8>, pos: int) -> Result<
    (Map<u64, Count>, Map<u64, Count>, Map<u64, Count>, Map<u64, Count>, int),
    DecodeError,
> {
    match read_counts(s, pos) {
        Ok((day, after_day)) => match read_counts(s, after_day) {
            Ok((week, after_week)) => match read_counts(s, after_week) {
                Ok((month, after_month)) => match read_counts(s, after_month) {
                    Ok((year, after_year)) => Ok((day, week, month, year, after_year)),
                    Err(e) => Err(e),
                },
                Err(e) => Err(e),
            },
            Err(e) => Err(e),
        },
        Err(e) => Err(e),
    }
}

/// The statistics that a file holds, or why it is not accepted.
pub open spec fn decode_spec(s: Seq<u8>) -> Result<StatsView, DecodeError> {
    match check_header(s) {
        Some(e) => Err(e),
        None => match read_log(s, HEADER_LEN as int) {
            Ok((work_goals, after_log)) => match read_maps(s, after_log) {
                Ok((day, week, month, year, after_year)) => match read_count(s, after_year) {
                    Ok((all_time, end)) => if end == s.len() {
                        Ok(StatsView { work_goals, day, week, month, year, all_time })
                    } else {
                        Err(DecodeError::TrailingBytes)
                    },
                    Err(e) => Err(e),
                },
                Err(e) => Err(e),
            },
            Err(e) => Err(e),
        },
    }
}

/// Whether the bytes of `part` stand in `s` from `pos` on.
pub open spec fn holds_at(s: Seq<u8>, pos: int, part: Seq<u8>) -> bool {
    0 <= pos && pos + part.len() <= s.len() && s.subrange(pos, pos + part.len()) == part
}

/// Two parts stand one after the other exactly when their concatenation
/// stands there.
pub proof fn lemma_holds_at_concat(s: Seq<u8>, pos: int, a: Seq<u8>, b: Seq<u8>)
    ensures
        holds_at(s, pos, a + b) <==> holds_at(s, pos, a) && holds_at(s, pos + a.len(), b),
{
    if holds_at(s, pos, a + b) {
        assert(s.subrange(pos, pos + a.len()) =~= (a + b).subrange(0, a.len() as int));
        assert((a + b).subrange(0, a.len() as int) =~= a);
        assert(s.subrange(pos + a.len(), pos + a.len() + b.len()) =~= (a + b).subrange(
            a.len() as int,
            (a + b).len() as int,
        ));
        assert((a + b).subrange(a.len() as int, (a + b).len() as int) =~= b);
    }
    if holds_at(s, pos, a) && holds_at(s, pos + a.len(), b) {
        assert(s.subrange(pos, pos + (a + b).len()) =~= s.subrange(pos, pos + a.len())
            + s.subrange(pos + a.len(), pos + a.len() + b.len()));
    }
}

/// Two counters are read back from their block.
pub proof fn lemma_count_round_trip(count: Count)
    ensures
        count_bytes(count).len() == COUNT_LEN,
        count_of(count_bytes(count)) == count,
{
    lemma_auto_spec_u32_to_from_le_bytes();
    let a = spec_u32_to_le_bytes(count.sessions);
    let b = spec_u32_to_le_bytes(count.pomodori);
    assert((a + b).subrange(0, 4) =~= a);
    assert((a + b).subrange(4, 8) =~= b);
}

/// An entry is read back from its block.
pub proof fn lemma_entry_round_trip(entry: (u64, Count))
    ensures
        entry_bytes(entry).len() == ENTRY_LEN,
        entry_of(entry_bytes(entry)) == entry,
{
    lemma_auto_spec_u64_to_from_le_bytes();
    lemma_count_round_trip(entry.1);
    let a = spec_u64_to_le_bytes(entry.0);
    let b = count_bytes(entry.1);
    assert((a + b).subrange(0, 8) =~= a);
    assert((a + b).subrange(8, 16) =~= b);
}

/// A date and time is read back from its block, whatever its fields
/// hold.
pub proof fn lemma_datetime_round_trip(at: DateTime)
    ensures
        datetime_bytes(at).len() == DATETIME_LEN,
        datetime_of(datetime_bytes(at)) == at,
{
    lemma_auto_spec_u16_to_from_le_bytes();
    lemma_auto_spec_u32_to_from_le_bytes();
    let a = spec_u16_to_le_bytes((at.date.year + 32768) as u16);
    let b = seq![
        (at.date.month + 128) as u8,
        (at.date.day + 128) as u8,
        (at.hour + 128) as u8,
        (at.minute + 128) as u8,
        (at.second + 128) as u8,
    ];
    let c = spec_u32_to_le_bytes((at.subsec_nanosecond + 2147483648) as u32);
    let block = a + b + c;
    assert(block.subrange(0, 2) =~= a);
    assert(block.subrange(7, 11) =~= c);
    assert(block[2] == b[0]);
    assert(block[3] == b[1]);
    assert(block[4] == b[2]);
    assert(block[5] == b[3]);
    assert(block[6] == b[4]);
}

/// A number that stands at `pos` is read there.
pub proof fn lemma_read_u64(s: Seq<u8>, pos: int, value: u64)
    requires
        holds_at(s, pos, spec_u64_to_le_bytes(value)),
    ensures
        read_u64(s, pos) == Ok::<(u64, int), DecodeError>((value, pos + 8)),
        spec_u64_to_le_bytes(value).len() == 8,
{
    lemma_auto_spec_u64_to_from_le_bytes();
}

/// Entries in the order of their keys that stand at `pos` are read there.
pub proof fn lemma_read_entries(s: Seq<u8>, pos: int, entries: Seq<(u64, Count)>)
    requires
        holds_at(s, pos, entries_bytes(entries)),
        entries_sorted(entries),
    ensures
        entries_bytes(entries).len() == ENTRY_LEN * entries.len(),
        read_entries(s, pos, entries.len()) == Ok::<(Seq<(u64, Count)>, int), DecodeError>(
            (entries, pos + entries_bytes(entries).len()),
        ),
    decreases entries.len(),
{
    if entries.len() > 0 {
        let front = entries.drop_last();
        let last = entries.last();
        lemma_holds_at_concat(s, pos, entries_bytes(front), entry_bytes(last));
        assert(entries_sorted(front)) by {
            assert forall|i: int, j: int| 0 <= i < j < front.len() implies front[i].0
                < front[j].0 by {
                assert(entries[i].0 < entries[j].0);
            }
        }
        lemma_read_entries(s, pos, front);
        lemma_entry_round_trip(last);
        if front.len() > 0 {
            assert(entries[front.len() - 1].0 < entries[entries.len() - 1].0);
        }
        assert(front.push(last) =~= entries);
        assert(entries.len() - 1 == front.len());
    } else {
        assert(entries =~= Seq::empty());
    }
}

/// A count map whose entries stand at `pos` in the order of their keys is
/// read there.
pub proof fn lemma_read_counts(s: Seq<u8>, pos: int, entries: Seq<(u64, Count)>)
    requires
        holds_at(s, pos, counts_bytes(entries)),
        entries_sorted(entries),
        entries.len() <= u64::MAX,
    ensures
        read_counts(s, pos) == Ok::<(Map<u64, Count>, int), DecodeError>(
            (entries_map(entries), pos + counts_bytes(entries).len()),
        ),
{
    let n = spec_u64_to_le_bytes(entries.len() as u64);
    lemma_holds_at_concat(s, pos, n, entries_bytes(entries));
    lemma_read_u64(s, pos, entries.len() as u64);
    lemma_read_entries(s, pos + 8, entries);
}

/// A text that stands at `pos` is read there.
pub proof fn lemma_read_text(s: Seq<u8>, pos: int, text: Seq<char>)
    requires
        holds_at(s, pos, text_bytes(text)),
        encode_utf8(text).len() <= u64::MAX,
    ensures
        read_text(s, pos) == Ok::<(Seq<char>, int), DecodeError>(
            (text, pos + text_bytes(text).len()),
        ),
{
    let bytes = encode_utf8(text);
    lemma_holds_at_concat(s, pos, spec_u64_to_le_bytes(bytes.len() as u64), bytes);
    lemma_read_u64(s, pos, bytes.len() as u64);
    encode_utf8_valid_utf8(text);
    encode_utf8_decode_utf8(text);
}

/// A work goal that stands at `pos` is read there.
pub proof fn lemma_read_goal(s: Seq<u8>, pos: int, goal: (DateTime, Seq<char>))
    requires
        holds_at(s, pos, goal_bytes(goal)),
        goal.0.wf(),
        encode_utf8(goal.1).len() <= u64::MAX,
    ensures
        read_goal(s, pos) == Ok::<((DateTime, Seq<char>), int), DecodeError>(
            (goal, pos + goal_bytes(goal).len()),
        ),
{
    lemma_holds_at_concat(s, pos, datetime_bytes(goal.0), text_bytes(goal.1));
    lemma_datetime_round_trip(goal.0);
    lemma_read_text(s, pos + DATETIME_LEN, goal.1);
}

/// Whether the text of each goal fits the length field of the format.
pub open spec fn texts_fit(goals: Seq<(DateTime, Seq<char>)>) -> bool {
    forall|i: int| 0 <= i < goals.len() ==> encode_utf8((#[trigger] goals[i]).1).len() <= u64::MAX
}

/// Work goals that stand at `pos` are read there.
pub proof fn lemma_read_goals(s: Seq<u8>, pos: int, goals: Seq<(DateTime, Seq<char>)>)
    requires
        holds_at(s, pos, goals_bytes(goals)),
        goals_valid(goals),
        texts_fit(goals),
    ensures
        read_goals(s, pos, goals.len()) == Ok::<(Seq<(DateTime, Seq<char>)>, int), DecodeError>(
            (goals, pos + goals_bytes(goals).len()),
        ),
    decreases goals.len(),
{
    if goals.len() > 0 {
        let front = goals.drop_last();
        let last = goals.last();
        lemma_holds_at_concat(s, pos, goals_bytes(front), goal_bytes(last));
        assert(texts_fit(front)) by {
            assert forall|i: int| 0 <= i < front.len() implies encode_utf8(
                (#[trigger] front[i]).1,
            ).len() <= u64::MAX by {
                assert(front[i] == goals[i]);
            }
        }
        assert(goals_valid(front)) by {
            assert forall|i: int| 0 <= i < front.len() implies (#[trigger] front[i]).0.wf() by {
                assert(front[i] == goals[i]);
            }
        }
        lemma_read_goals(s, pos, front);
        assert(goals[goals.len() - 1] == last);
        lemma_read_goal(s, pos + goals_bytes(front).len(), last);
        assert(front.push(last) =~= goals);
        assert(goals.len() - 1 == front.len());
    } else {
        assert(goals =~= Seq::empty());
    }
}

/// A log of work goals that stands at `pos` is read there.
pub proof fn lemma_read_log(s: Seq<u8>, pos: int, goals: Seq<(DateTime, Seq<char>)>)
    requires
        holds_at(s, pos, log_bytes(goals)),
        goals.len() <= u64::MAX,
        goals_valid(goals),
        texts_fit(goals),
    ensures
        read_log(s, pos) == Ok::<(Seq<(DateTime, Seq<char>)>, int), DecodeError>(
            (goals, pos + log_bytes(goals).len()),
        ),
{
    lemma_holds_at_concat(s, pos, spec_u64_to_le_bytes(goals.len() as u64), goals_bytes(goals));
    lemma_read_u64(s, pos, goals.len() as u64);
    lemma_read_goals(s, pos + 8, goals);
}

/// Four count maps whose entries stand at `pos` in the order of their
/// keys are read there.
pub proof fn lemma_read_maps(
    s: Seq<u8>,
    pos: int,
    day: Seq<(u64, Count)>,
    week: Seq<(u64, Count)>,
    month: Seq<(u64, Count)>,
    year: Seq<(u64, Count)>,
)
    requires
        holds_at(s, pos, maps_bytes(day, week, month, year)),
        day.len() <= u64::MAX,
        week.len() <= u64::MAX,
        month.len() <= u64::MAX,
        year.len() <= u64::MAX,
        entries_sorted(day),
        entries_sorted(week),
        entries_sorted(month),
        entries_sorted(year),
    ensures
        read_maps(s, pos) == Ok::<
            (Map<u64, Count>, Map<u64, Count>, Map<u64, Count>, Map<u64, Count>, int),
            DecodeError,
        >(
            (
                entries_map(day),
                entries_map(week),
                entries_map(month),
                entries_map(year),
                pos + maps_bytes(day, week, month, year).len(),
            ),
        ),
{
    let d = counts_bytes(day);
    let w = counts_bytes(week);
    let m = counts_bytes(month);
    let y = counts_bytes(year);
    lemma_holds_at_concat(s, pos, d + w + m, y);
    lemma_holds_at_concat(s, pos, d + w, m);
    lemma_holds_at_concat(s, pos, d, w);
    lemma_read_counts(s, pos, day);
    lemma_read_counts(s, pos + d.len(), week);
    lemma_read_counts(s, pos + d.len() + w.len(), month);
    lemma_read_counts(s, pos + d.len() + w.len() + m.len(), year);
}

/// A file that starts with the header passes the check of its first
/// bytes.
pub proof fn lemma_check_header(s: Seq<u8>)
    requires
        holds_at(s, 0, header()),
    ensures
        check_header(s) is None,
{
    assert(header().len() == HEADER_LEN);
    assert(s.subrange(0, 4) =~= header().subrange(0, 4));
    assert(header().subrange(0, 4) =~= magic());
    assert(s[4] == s.subrange(0, 5)[4]);
}

/// Two counters that stand at `pos` are read there.
pub proof fn lemma_read_count(s: Seq<u8>, pos: int, count: Count)
    requires
        holds_at(s, pos, count_bytes(count)),
    ensures
        read_count(s, pos) == Ok::<(Count, int), DecodeError>((count, pos + COUNT_LEN)),
{
    lemma_count_round_trip(count);
}

/// Whether the list holds the entries of the map in the order of their
/// keys, and is not longer than the format can say.
pub open spec fn lists(entries: Seq<(u64, Count)>, counts: Map<u64, Count>) -> bool {
    entries_sorted(entries) && entries_map(entries) == counts && entries.len() <= u64::MAX
}

/// Whether the bytes are the file of the statistics: the header, the log,
/// the four maps with their entries in the order of their keys, and the
/// total.
pub open spec fn is_file_of(bytes: Seq<u8>, stats: StatsView) -> bool {
    &&& stats.work_goals.len() <= u64::MAX
    &&& goals_valid(stats.work_goals)
    &&& texts_fit(stats.work_goals)
    &&& exists|
        day: Seq<(u64, Count)>,
        week: Seq<(u64, Count)>,
        month: Seq<(u64, Count)>,
        year: Seq<(u64, Count)>,
    |
        {
            &&& lists(day, stats.day)
            &&& lists(week, stats.week)
            &&& lists(month, stats.month)
            &&& lists(year, stats.year)
            &&& bytes == #[trigger] file_bytes(
                stats.work_goals,
                day,
                week,
                month,
                year,
                stats.all_time,
            )
        }
}

/// Statistics have no more than one file.
pub proof fn lemma_file_unique(one: Seq<u8>, other: Seq<u8>, stats: StatsView)
    requires
        is_file_of(one, stats),
        is_file_of(other, stats),
    ensures
        one == other,
{
    let (day, week, month, year) = choose|
        day: Seq<(u64, Count)>,
        week: Seq<(u64, Count)>,
        month: Seq<(u64, Count)>,
        year: Seq<(u64, Count)>,
    |
        {
            &&& lists(day, stats.day)
            &&& lists(week, stats.week)
            &&& lists(month, stats.month)
            &&& lists(year, stats.year)
            &&& one == #[trigger] file_bytes(
                stats.work_goals,
                day,
                week,
                month,
                year,
                stats.all_time,
            )
        };
    let (day2, week2, month2, year2) = choose|
        day: Seq<(u64, Count)>,
        week: Seq<(u64, Count)>,
        month: Seq<(u64, Count)>,
        year: Seq<(u64, Count)>,
    |
        {
            &&& lists(day, stats.day)
            &&& lists(week, stats.week)
            &&& lists(month, stats.month)
            &&& lists(year, stats.year)
            &&& other == #[trigger] file_bytes(
                stats.work_goals,
                day,
                week,
                month,
                year,
                stats.all_time,
            )
        };
    lemma_sorted_entries_unique(day, day2);
    lemma_sorted_entries_unique(week, week2);
    lemma_sorted_entries_unique(month, month2);
    lemma_sorted_entries_unique(year, year2);
}

/// Every file of some statistics decodes to those statistics, whatever
/// they hold: an empty log and maps without entries included.
pub proof fn lemma_file_decodes(bytes: Seq<u8>, stats: StatsView)
    requires
        is_file_of(bytes, stats),
    ensures
        decode_spec(bytes) == Ok::<StatsView, DecodeError>(stats),
{
    let (day, week, month, year) = choose|
        day: Seq<(u64, Count)>,
        week: Seq<(u64, Count)>,
        month: Seq<(u64, Count)>,
        year: Seq<(u64, Count)>,
    |
        {
            &&& lists(day, stats.day)
            &&& lists(week, stats.week)
            &&& lists(month, stats.month)
            &&& lists(year, stats.year)
            &&& bytes == #[trigger] file_bytes(
                stats.work_goals,
                day,
                week,
                month,
                year,
                stats.all_time,
            )
        };
    lemma_decode_file(stats.work_goals, day, week, month, year, stats.all_time);
}

/// A file written from lists in the order of their keys decodes to the log
/// it was written from and to the maps of its lists.
pub proof fn lemma_decode_file(
    goals: Seq<(DateTime, Seq<char>)>,
    day: Seq<(u64, Count)>,
    week: Seq<(u64, Count)>,
    month: Seq<(u64, Count)>,
    year: Seq<(u64, Count)>,
    all_time: Count,
)
    requires
        goals.len() <= u64::MAX,
        goals_valid(goals),
        texts_fit(goals),
        day.len() <= u64::MAX,
        week.len() <= u64::MAX,
        month.len() <= u64::MAX,
        year.len() <= u64::MAX,
        entries_sorted(day),
        entries_sorted(week),
        entries_sorted(month),
        entries_sorted(year),
    ensures
        decode_spec(file_bytes(goals, day, week, month, year, all_time)) == Ok::<
            StatsView,
            DecodeError,
        >(
            StatsView {
                work_goals: goals,
                day: entries_map(day),
                week: entries_map(week),
                month: entries_map(month),
                year: entries_map(year),
                all_time,
            },
        ),
{
    let s = file_bytes(goals, day, week, month, year, all_time);
    let log = log_bytes(goals);
    let maps = maps_bytes(day, week, month, year);
    let total = count_bytes(all_time);
    assert(holds_at(s, 0, s)) by {
        assert(s.subrange(0, s.len() as int) =~= s);
    }
    lemma_holds_at_concat(s, 0, header() + log + maps, total);
    lemma_holds_at_concat(s, 0, header() + log, maps);
    lemma_holds_at_concat(s, 0, header(), log);
    assert(header().len() == HEADER_LEN);
    lemma_check_header(s);
    lemma_read_log(s, HEADER_LEN as int, goals);
    lemma_read_maps(s, HEADER_LEN + log.len(), day, week, month, year);
    lemma_read_count(s, HEADER_LEN + log.len() + maps.len(), all_time);
    lemma_count_round_trip(all_time);
}

/// A number that is read at `pos` stands there.
pub proof fn lemma_u64_read(s: Seq<u8>, pos: int)
    requires
        read_u64(s, pos) is Ok,
    ensures
        holds_at(s, pos, spec_u64_to_le_bytes(read_u64(s, pos)->Ok_0.0)),
        read_u64(s, pos)->Ok_0.1 == pos + 8,
        spec_u64_to_le_bytes(read_u64(s, pos)->Ok_0.0).len() == 8,
{
    lemma_auto_spec_u64_to_from_le_bytes();
}

/// A block of eight bytes is the block of the counters it stores.
pub proof fn lemma_count_block(block: Seq<u8>)
    requires
        block.len() == COUNT_LEN,
    ensures
        count_bytes(count_of(block)) == block,
{
    lemma_auto_spec_u32_to_from_le_bytes();
    assert(block =~= block.subrange(0, 4) + block.subrange(4, 8));
}

/// A block of sixteen bytes is the block of the entry it stores.
pub proof fn lemma_entry_block(block: Seq<u8>)
    requires
        block.len() == ENTRY_LEN,
    ensures
        entry_bytes(entry_of(block)) == block,
{
    lemma_auto_spec_u64_to_from_le_bytes();
    lemma_count_block(block.subrange(8, 16));
    assert(block =~= block.subrange(0, 8) + block.subrange(8, 16));
}

/// A block of eleven bytes is the block of the date and time it stores.
pub proof fn lemma_datetime_block(block: Seq<u8>)
    requires
        block.len() == DATETIME_LEN,
    ensures
        datetime_bytes(datetime_of(block)) == block,
{
    lemma_auto_spec_u16_to_from_le_bytes();
    lemma_auto_spec_u32_to_from_le_bytes();
    let at = datetime_of(block);
    let year = spec_u16_from_le_bytes(block.subrange(0, 2));
    let nanos = spec_u32_from_le_bytes(block.subrange(7, 11));
    assert((at.date.year + 32768) as u16 == year);
    assert((at.subsec_nanosecond + 2147483648) as u32 == nanos);
    let middle = seq![
        (at.date.month + 128) as u8,
        (at.date.day + 128) as u8,
        (at.hour + 128) as u8,
        (at.minute + 128) as u8,
        (at.second + 128) as u8,
    ];
    assert(middle =~= block.subrange(2, 7));
    assert(block =~= block.subrange(0, 2) + block.subrange(2, 7) + block.subrange(7, 11));
}

/// Entries that are read at `pos` stand there, and their keys go up.
pub proof fn lemma_entries_read(s: Seq<u8>, pos: int, n: nat)
    requires
        read_entries(s, pos, n) is Ok,
        0 <= pos <= s.len(),
    ensures
        ({
            let (entries, next) = read_entries(s, pos, n)->Ok_0;
            &&& entries.len() == n
            &&& entries_sorted(entries)
            &&& holds_at(s, pos, entries_bytes(entries))
            &&& next == pos + entries_bytes(entries).len()
        }),
    decreases n,
{
    if n > 0 {
        lemma_entries_read(s, pos, (n - 1) as nat);
        let (front, middle) = read_entries(s, pos, (n - 1) as nat)->Ok_0;
        let (entry, next) = read_entry(s, middle)->Ok_0;
        let entries = front.push(entry);
        lemma_entry_block(s.subrange(middle, middle + ENTRY_LEN));
        assert(entries.drop_last() =~= front);
        lemma_holds_at_concat(s, pos, entries_bytes(front), entry_bytes(entry));
        assert(entries_sorted(entries)) by {
            assert forall|i: int, j: int| 0 <= i < j < entries.len() implies entries[i].0
                < entries[j].0 by {
                if j < front.len() {
                    assert(front[i].0 < front[j].0);
                } else if i < front.len() - 1 {
                    assert(front[i].0 < front[front.len() - 1].0);
                }
            }
        }
    } else {
        assert(s.subrange(pos, pos) =~= Seq::<u8>::empty());
    }
}

/// A count map that is read at `pos` stands there as the list of its
/// entries in the order of their keys, which is returned.
pub proof fn lemma_counts_read(s: Seq<u8>, pos: int) -> (entries: Seq<(u64, Count)>)
    requires
        read_counts(s, pos) is Ok,
    ensures
        lists(entries, read_counts(s, pos)->Ok_0.0),
        holds_at(s, pos, counts_bytes(entries)),
        read_counts(s, pos)->Ok_0.1 == pos + counts_bytes(entries).len(),
{
    lemma_u64_read(s, pos);
    let (n, start) = read_u64(s, pos)->Ok_0;
    lemma_entries_read(s, start, n as nat);
    let (entries, next) = read_entries(s, start, n as nat)->Ok_0;
    lemma_holds_at_concat(s, pos, spec_u64_to_le_bytes(n), entries_bytes(entries));
    entries
}

/// A text that is read at `pos` stands there.
pub proof fn lemma_text_read(s: Seq<u8>, pos: int)
    requires
        read_text(s, pos) is Ok,
    ensures
        ({
            let (text, next) = read_text(s, pos)->Ok_0;
            &&& encode_utf8(text).len() <= u64::MAX
            &&& holds_at(s, pos, text_bytes(text))
            &&& next == pos + text_bytes(text).len()
        }),
{
    lemma_u64_read(s, pos);
    let (len, start) = read_u64(s, pos)->Ok_0;
    let bytes = s.subrange(start, start + len);
    decode_utf8_encode_utf8(bytes);
    lemma_holds_at_concat(s, pos, spec_u64_to_le_bytes(len), bytes);
}

/// A work goal that is read at `pos` stands there.
pub proof fn lemma_goal_read(s: Seq<u8>, pos: int)
    requires
        read_goal(s, pos) is Ok,
    ensures
        ({
            let (goal, next) = read_goal(s, pos)->Ok_0;
            &&& goal.0.wf()
            &&& encode_utf8(goal.1).len() <= u64::MAX
            &&& holds_at(s, pos, goal_bytes(goal))
            &&& next == pos + goal_bytes(goal).len()
        }),
{
    let (at, middle) = read_datetime(s, pos)->Ok_0;
    lemma_datetime_block(s.subrange(pos, pos + DATETIME_LEN));
    lemma_text_read(s, middle);
    let (text, next) = read_text(s, middle)->Ok_0;
    lemma_holds_at_concat(s, pos, datetime_bytes(at), text_bytes(text));
}

/// Work goals that are read at `pos` stand there.
pub proof fn lemma_goals_read(s: Seq<u8>, pos: int, n: nat)
    requires
        read_goals(s, pos, n) is Ok,
        0 <= pos <= s.len(),
    ensures
        ({
            let (goals, next) = read_goals(s, pos, n)->Ok_0;
            &&& goals.len() == n
            &&& goals_valid(goals)
            &&& texts_fit(goals)
            &&& holds_at(s, pos, goals_bytes(goals))
            &&& next == pos + goals_bytes(goals).len()
        }),
    decreases n,
{
    if n > 0 {
        lemma_goals_read(s, pos, (n - 1) as nat);
        let (front, middle) = read_goals(s, pos, (n - 1) as nat)->Ok_0;
        lemma_goal_read(s, middle);
        let (goal, next) = read_goal(s, middle)->Ok_0;
        let goals = front.push(goal);
        assert(goals.drop_last() =~= front);
        lemma_holds_at_concat(s, pos, goals_bytes(front), goal_bytes(goal));
        assert(texts_fit(goals)) by {
            assert forall|i: int| 0 <= i < goals.len() implies encode_utf8(
                (#[trigger] goals[i]).1,
            ).len() <= u64::MAX by {
                if i < front.len() {
                    assert(goals[i] == front[i]);
                }
            }
        }
        assert(goals_valid(goals)) by {
            assert forall|i: int| 0 <= i < goals.len() implies (#[trigger] goals[i]).0.wf() by {
                if i < front.len() {
                    assert(goals[i] == front[i]);
                }
            }
        }
    } else {
        assert(s.subrange(pos, pos) =~= Seq::<u8>::empty());
    }
}

/// Every file that is accepted is the file of the statistics it decodes
/// to.
pub proof fn lemma_accepted_is_file(bytes: Seq<u8>, stats: StatsView)
    requires
        decode_spec(bytes) == Ok::<StatsView, DecodeError>(stats),
    ensures
        is_file_of(bytes, stats),
{
    let s = bytes;
    assert(holds_at(s, 0, header())) by {
        assert(header().len() == HEADER_LEN);
        assert(s.subrange(0, 5) =~= s.subrange(0, 4).push(s[4]));
    }
    let start = HEADER_LEN as int;
    lemma_u64_read(s, start);
    let (n, first) = read_u64(s, start)->Ok_0;
    lemma_goals_read(s, first, n as nat);
    let (goals, after_log) = read_log(s, start)->Ok_0;
    lemma_holds_at_concat(s, start, spec_u64_to_le_bytes(n), goals_bytes(goals));
    assert(holds_at(s, start, log_bytes(goals)));
    let day = lemma_counts_read(s, after_log);
    let after_day = read_counts(s, after_log)->Ok_0.1;
    let week = lemma_counts_read(s, after_day);
    let after_week = read_counts(s, after_day)->Ok_0.1;
    let month = lemma_counts_read(s, after_week);
    let after_month = read_counts(s, after_week)->Ok_0.1;
    let year = lemma_counts_read(s, after_month);
    let after_year = read_counts(s, after_month)->Ok_0.1;
    let d = counts_bytes(day);
    let w = counts_bytes(week);
    let m = counts_bytes(month);
    let y = counts_bytes(year);
    lemma_holds_at_concat(s, after_log, d, w);
    lemma_holds_at_concat(s, after_log, d + w, m);
    lemma_holds_at_concat(s, after_log, d + w + m, y);
    assert(holds_at(s, after_log, maps_bytes(day, week, month, year)));
    lemma_count_block(s.subrange(after_year, after_year + COUNT_LEN));
    assert(holds_at(s, after_year, count_bytes(stats.all_time)));
    let log = log_bytes(goals);
    let maps = maps_bytes(day, week, month, year);
    let total = count_bytes(stats.all_time);
    lemma_holds_at_concat(s, 0, header(), log);
    lemma_holds_at_concat(s, 0, header() + log, maps);
    lemma_holds_at_concat(s, 0, header() + log + maps, total);
    let file = file_bytes(stats.work_goals, day, week, month, year, stats.all_time);
    assert(holds_at(s, 0, file));
    assert(file.len() == s.len());
    assert(s.subrange(0, s.len() as int) =~= s);
    assert(s == file);
}

/// Appends the sixteen bits of `value`.
fn put_u16(out: &mut Vec<u8>, value: u16)
    ensures
        final(out)@ == old(out)@ + spec_u16_to_le_bytes(value),
{
    let mut bytes = u16_to_le_bytes(value);
    out.append(&mut bytes);
}

/// Appends the thirty-two bits of `value`.
fn put_u32(out: &mut Vec<u8>, value: u32)
    ensures
        final(out)@ == old(out)@ + spec_u32_to_le_bytes(value),
{
    let mut bytes = u32_to_le_bytes(value);
    out.append(&mut bytes);
}

/// Appends the sixty-four bits of `value`.
fn put_u64(out: &mut Vec<u8>, value: u64)
    ensures
        final(out)@ == old(out)@ + spec_u64_to_le_bytes(value),
{
    let mut bytes = u64_to_le_bytes(value);
    out.append(&mut bytes);
}

/// Appends the block of two counters.
fn put_count(out: &mut Vec<u8>, count: Count)
    ensures
        final(out)@ == old(out)@ + count_bytes(count),
{
    put_u32(out, count.sessions);
    put_u32(out, count.pomodori);
    assert(out@ =~= old(out)@ + count_bytes(count));
}

/// Appends the block of an entry.
fn put_entry(out: &mut Vec<u8>, entry: (u64, Count))
    ensures
        final(out)@ == old(out)@ + entry_bytes(entry),
{
    put_u64(out, entry.0);
    put_count(out, entry.1);
    assert(out@ =~= old(out)@ + entry_bytes(entry));
}

/// Appends a count map, its entries in the order of the list.
fn put_counts(out: &mut Vec<u8>, entries: &Vec<(u64, Count)>)
    ensures
        final(out)@ == old(out)@ + counts_bytes(entries@),
        entries@.len() <= u64::MAX,
{
    let n = entries.len();
    put_u64(out, n as u64);
    let ghost start = out@;
    let mut i: usize = 0;
    while i < n
        invariant
            n == entries@.len(),
            i <= n,
            out@ == start + entries_bytes(entries@.take(i as int)),
        decreases n - i,
    {
        put_entry(out, entries[i]);
        proof {
            let before = entries@.take(i as int);
            let after = entries@.take(i + 1);
            assert(after.drop_last() =~= before);
            assert(after.last() == entries@[i as int]);
            assert(out@ =~= start + entries_bytes(after));
        }
        i += 1;
    }
    proof {
        assert(entries@.take(n as int) =~= entries@);
        assert(out@ =~= old(out)@ + counts_bytes(entries@));
    }
}

/// Appends the block of a date and time.
fn put_datetime(out: &mut Vec<u8>, at: DateTime)
    ensures
        final(out)@ == old(out)@ + datetime_bytes(at),
{
    put_u16(out, (at.date.year as i32 + 32768) as u16);
    out.push((at.date.month as i16 + 128) as u8);
    out.push((at.date.day as i16 + 128) as u8);
    out.push((at.hour as i16 + 128) as u8);
    out.push((at.minute as i16 + 128) as u8);
    out.push((at.second as i16 + 128) as u8);
    put_u32(out, (at.subsec_nanosecond as i64 + 2147483648) as u32);
    assert(out@ =~= old(out)@ + datetime_bytes(at));
}

/// Appends a text after its length in bytes.
fn put_text(out: &mut Vec<u8>, text: &str)
    ensures
        final(out)@ == old(out)@ + text_bytes(text@),
        encode_utf8(text@).len() <= u64::MAX,
{
    let mut bytes = text.as_bytes_vec();
    put_u64(out, bytes.len() as u64);
    out.append(&mut bytes);
    assert(out@ =~= old(out)@ + text_bytes(text@));
}

/// Appends the log of work goals.
fn put_log(out: &mut Vec<u8>, goals: &Vec<WorkGoal>)
    ensures
        final(out)@ == old(out)@ + log_bytes(goals_view(goals@)),
        goals@.len() <= u64::MAX,
        texts_fit(goals_view(goals@)),
{
    let n = goals.len();
    let ghost view = goals_view(goals@);
    put_u64(out, n as u64);
    let ghost start = out@;
    let mut i: usize = 0;
    while i < n
        invariant
            n == goals@.len(),
            view == goals_view(goals@),
            i <= n,
            out@ == start + goals_bytes(view.take(i as int)),
            texts_fit(view.take(i as int)),
        decreases n - i,
    {
        let goal = &goals[i];
        let ghost mid = out@;
        put_datetime(out, goal.at);
        put_text(out, goal.text.as_str());
        proof {
            let before = view.take(i as int);
            let after = view.take(i + 1);
            assert(after.drop_last() =~= before);
            assert(after.last() == (goal.at, goal.text@));
            assert(out@ =~= mid + goal_bytes(after.last()));
            assert(out@ =~= start + goals_bytes(after));
            assert forall|j: int| 0 <= j < after.len() implies encode_utf8(
                (#[trigger] after[j]).1,
            ).len() <= u64::MAX by {
                if j < i {
                    assert(after[j] == before[j]);
                }
            }
        }
        i += 1;
    }
    proof {
        assert(view.take(n as int) =~= view);
        assert(out@ =~= old(out)@ + log_bytes(view));
    }
}

/// The file that stores the statistics.
///
/// Decoding the result gives the statistics back.
pub fn encode(stats: &Stats) -> (bytes: Vec<u8>)
    requires
        stats@.wf(),
    ensures
        is_file_of(bytes@, stats@),
        decode_spec(bytes@) == Ok::<StatsView, DecodeError>(stats@),
{
    let mut out: Vec<u8> = Vec::new();
    out.push(0x41);
    out.push(0x4e);
    out.push(0x59);
    out.push(0x44);
    out.push(VERSION);
    assert(out@ =~= header());
    put_log(&mut out, stats.work_goals());
    let day = stats.day().entries();
    let week = stats.week().entries();
    let month = stats.month().entries();
    let year = stats.year().entries();
    let ghost before_maps = out@;
    put_counts(&mut out, &day);
    put_counts(&mut out, &week);
    put_counts(&mut out, &month);
    put_counts(&mut out, &year);
    assert(out@ =~= before_maps + maps_bytes(day@, week@, month@, year@));
    put_count(&mut out, stats.all_time());
    proof {
        assert(out@ == file_bytes(
            stats@.work_goals,
            day@,
            week@,
            month@,
            year@,
            stats@.all_time,
        ));
        assert(is_file_of(out@, stats@));
        lemma_file_decodes(out@, stats@);
    }
    out
}

/// Whether what was read agrees with what stands there.
pub open spec fn agrees<T>(
    read: Result<(T, usize), DecodeError>,
    stands: Result<(T, int), DecodeError>,
) -> bool {
    match read {
        Ok((value, next)) => stands == Ok::<(T, int), DecodeError>((value, next as int)),
        Err(e) => stands == Err::<(T, int), DecodeError>(e),
    }
}

/// Calls `String::from_utf8`. Claimed of it: it accepts exactly the byte
/// strings that are valid UTF-8, and the text it gives is the one that the
/// bytes encode.
#[verifier::external_body]
fn string_from_utf8(bytes: Vec<u8>) -> (text: Option<String>)
    ensures
        text is Some <==> valid_utf8(bytes@),
        text matches Some(t) ==> t@ == decode_utf8(bytes@),
{
    String::from_utf8(bytes).ok()
}

/// Whether `len` bytes stand in `bytes` from `pos` on.
fn has_bytes(bytes: &[u8], pos: usize, len: usize) -> (enough: bool)
    ensures
        enough == (pos + len <= bytes@.len()),
        bytes@.len() <= usize::MAX,
{
    pos <= bytes.len() && bytes.len() - pos >= len
}

/// Reads the 64-bit number at `pos`.
fn get_u64(bytes: &[u8], pos: usize) -> (read: Result<(u64, usize), DecodeError>)
    ensures
        agrees(read, read_u64(bytes@, pos as int)),
{
    if has_bytes(bytes, pos, 8) {
        Ok((u64_from_le_bytes(slice_subrange(bytes, pos, pos + 8)), pos + 8))
    } else {
        Err(DecodeError::Truncated)
    }
}

/// Reads the two counters stored in a block of eight bytes.
fn count_from_block(block: &[u8]) -> (count: Count)
    requires
        block@.len() == COUNT_LEN,
    ensures
        count == count_of(block@),
{
    Count {
        sessions: u32_from_le_bytes(slice_subrange(block, 0, 4)),
        pomodori: u32_from_le_bytes(slice_subrange(block, 4, 8)),
    }
}

/// Reads the two counters at `pos`.
fn get_count(bytes: &[u8], pos: usize) -> (read: Result<(Count, usize), DecodeError>)
    ensures
        agrees(read, read_count(bytes@, pos as int)),
{
    if has_bytes(bytes, pos, COUNT_LEN) {
        Ok((count_from_block(slice_subrange(bytes, pos, pos + COUNT_LEN)), pos + COUNT_LEN))
    } else {
        Err(DecodeError::Truncated)
    }
}

/// Reads the entry of a count map at `pos`.
fn get_entry(bytes: &[u8], pos: usize) -> (read: Result<((u64, Count), usize), DecodeError>)
    ensures
        agrees(read, read_entry(bytes@, pos as int)),
{
    if has_bytes(bytes, pos, ENTRY_LEN) {
        let block = slice_subrange(bytes, pos, pos + ENTRY_LEN);
        let key = u64_from_le_bytes(slice_subrange(block, 0, 8));
        let count = count_from_block(slice_subrange(block, 8, 16));
        Ok(((key, count), pos + ENTRY_LEN))
    } else {
        Err(DecodeError::Truncated)
    }
}

/// Once reading a number of entries fails, reading more fails in the same
/// way.
proof fn lemma_read_entries_fails(s: Seq<u8>, pos: int, failed: nat, n: nat)
    requires
        read_entries(s, pos, failed) is Err,
        failed <= n,
    ensures
        read_entries(s, pos, n) == read_entries(s, pos, failed),
    decreases n,
{
    if failed < n {
        lemma_read_entries_fails(s, pos, failed, (n - 1) as nat);
    }
}

/// Once reading a number of work goals fails, reading more fails in the
/// same way.
proof fn lemma_read_goals_fails(s: Seq<u8>, pos: int, failed: nat, n: nat)
    requires
        read_goals(s, pos, failed) is Err,
        failed <= n,
    ensures
        read_goals(s, pos, n) == read_goals(s, pos, failed),
    decreases n,
{
    if failed < n {
        lemma_read_goals_fails(s, pos, failed, (n - 1) as nat);
    }
}

/// Reads the count map at `pos`.
fn get_counts(bytes: &[u8], pos: usize) -> (read: Result<(CountMap, usize), DecodeError>)
    ensures
        match read {
            Ok((counts, next)) => read_counts(bytes@, pos as int) == Ok::<
                (Map<u64, Count>, int),
                DecodeError,
            >((counts@, next as int)),
            Err(e) => read_counts(bytes@, pos as int) == Err::<(Map<u64, Count>, int), DecodeError>(
                e,
            ),
        },
{
    let (n, start) = match get_u64(bytes, pos) {
        Ok(read) => read,
        Err(e) => {
            return Err(e);
        },
    };
    let mut counts = CountMap::new();
    let ghost mut entries: Seq<(u64, Count)> = Seq::empty();
    let mut previous: Option<u64> = None;
    let mut next = start;
    let mut i: u64 = 0;
    while i < n
        invariant
            i <= n,
            read_u64(bytes@, pos as int) == Ok::<(u64, int), DecodeError>((n, start as int)),
            read_entries(bytes@, start as int, i as nat) == Ok::<
                (Seq<(u64, Count)>, int),
                DecodeError,
            >((entries, next as int)),
            counts@ == entries_map(entries),
            previous == if entries.len() > 0 {
                Some(entries.last().0)
            } else {
                None
            },
        decreases n - i,
    {
        let (entry, after) = match get_entry(bytes, next) {
            Ok(read) => read,
            Err(e) => {
                proof {
                    lemma_read_entries_fails(bytes@, start as int, (i + 1) as nat, n as nat);
                }
                return Err(e);
            },
        };
        let out_of_order = match previous {
            Some(key) => key >= entry.0,
            None => false,
        };
        if out_of_order {
            proof {
                lemma_read_entries_fails(bytes@, start as int, (i + 1) as nat, n as nat);
            }
            return Err(DecodeError::KeysOutOfOrder);
        }
        counts.set(entry.0, entry.1);
        proof {
            let before = entries;
            entries = entries.push(entry);
            assert(entries.drop_last() =~= before);
        }
        previous = Some(entry.0);
        next = after;
        i += 1;
    }
    Ok((counts, next))
}

/// Reads the date and time at `pos`.
fn get_datetime(bytes: &[u8], pos: usize) -> (read: Result<(DateTime, usize), DecodeError>)
    ensures
        agrees(read, read_datetime(bytes@, pos as int)),
{
    if has_bytes(bytes, pos, DATETIME_LEN) {
        let block = slice_subrange(bytes, pos, pos + DATETIME_LEN);
        let year = u16_from_le_bytes(slice_subrange(block, 0, 2));
        let nanos = u32_from_le_bytes(slice_subrange(block, 7, 11));
        let at = DateTime {
            date: Date {
                year: (year as i32 - 32768) as i16,
                month: (block[2] as i16 - 128) as i8,
                day: (block[3] as i16 - 128) as i8,
            },
            hour: (block[4] as i16 - 128) as i8,
            minute: (block[5] as i16 - 128) as i8,
            second: (block[6] as i16 - 128) as i8,
            subsec_nanosecond: (nanos as i64 - 2147483648) as i32,
        };
        if at.is_valid() {
            Ok((at, pos + DATETIME_LEN))
        } else {
            Err(DecodeError::InvalidTimestamp)
        }
    } else {
        Err(DecodeError::Truncated)
    }
}

/// Reads the text at `pos`.
fn get_text(bytes: &[u8], pos: usize) -> (read: Result<(String, usize), DecodeError>)
    ensures
        match read {
            Ok((text, next)) => read_text(bytes@, pos as int) == Ok::<(Seq<char>, int), DecodeError>(
                (text@, next as int),
            ),
            Err(e) => read_text(bytes@, pos as int) == Err::<(Seq<char>, int), DecodeError>(e),
        },
{
    let (len, start) = match get_u64(bytes, pos) {
        Ok(read) => read,
        Err(e) => {
            return Err(e);
        },
    };
    if (bytes.len() - start) as u64 >= len {
        let end = start + len as usize;
        match string_from_utf8(slice_to_vec(slice_subrange(bytes, start, end))) {
            Some(text) => Ok((text, end)),
            None => Err(DecodeError::InvalidText),
        }
    } else {
        Err(DecodeError::Truncated)
    }
}

/// Reads the work goal at `pos`.
fn get_goal(bytes: &[u8], pos: usize) -> (read: Result<(WorkGoal, usize), DecodeError>)
    ensures
        match read {
            Ok((goal, next)) => read_goal(bytes@, pos as int) == Ok::<
                ((DateTime, Seq<char>), int),
                DecodeError,
            >(((goal.at, goal.text@), next as int)),
            Err(e) => read_goal(bytes@, pos as int) == Err::<
                ((DateTime, Seq<char>), int),
                DecodeError,
            >(e),
        },
{
    let (at, next) = match get_datetime(bytes, pos) {
        Ok(read) => read,
        Err(e) => {
            return Err(e);
        },
    };
    match get_text(bytes, next) {
        Ok((text, after)) => Ok((WorkGoal { at, text }, after)),
        Err(e) => Err(e),
    }
}

/// Reads the log of work goals at `pos`.
fn get_log(bytes: &[u8], pos: usize) -> (read: Result<(Vec<WorkGoal>, usize), DecodeError>)
    ensures
        match read {
            Ok((goals, next)) => read_log(bytes@, pos as int) == Ok::<
                (Seq<(DateTime, Seq<char>)>, int),
                DecodeError,
            >((goals_view(goals@), next as int)),
            Err(e) => read_log(bytes@, pos as int) == Err::<
                (Seq<(DateTime, Seq<char>)>, int),
                DecodeError,
            >(e),
        },
{
    let (n, start) = match get_u64(bytes, pos) {
        Ok(read) => read,
        Err(e) => {
            return Err(e);
        },
    };
    let mut goals: Vec<WorkGoal> = Vec::new();
    let mut next = start;
    let mut i: u64 = 0;
    assert(goals_view(goals@) =~= Seq::empty());
    while i < n
        invariant
            i <= n,
            read_u64(bytes@, pos as int) == Ok::<(u64, int), DecodeError>((n, start as int)),
            read_goals(bytes@, start as int, i as nat) == Ok::<
                (Seq<(DateTime, Seq<char>)>, int),
                DecodeError,
            >((goals_view(goals@), next as int)),
        decreases n - i,
    {
        let (goal, after) = match get_goal(bytes, next) {
            Ok(read) => read,
            Err(e) => {
                proof {
                    lemma_read_goals_fails(bytes@, start as int, (i + 1) as nat, n as nat);
                }
                return Err(e);
            },
        };
        let ghost before = goals_view(goals@);
        let ghost item = (goal.at, goal.text@);
        goals.push(goal);
        assert(goals_view(goals@) =~= before.push(item));
        next = after;
        i += 1;
    }
    Ok((goals, next))
}

/// Checks the first five bytes of a file.
fn check_file_header(bytes: &[u8]) -> (problem: Option<DecodeError>)
    ensures
        problem == check_header(bytes@),
{
    if bytes.len() < HEADER_LEN {
        return Some(DecodeError::Truncated);
    }
    proof {
        let head = bytes@.subrange(0, 4);
        assert(head[0] == bytes@[0] && head[1] == bytes@[1] && head[2] == bytes@[2] && head[3]
            == bytes@[3]);
        assert(magic()[0] == 0x41 && magic()[1] == 0x4e && magic()[2] == 0x59 && magic()[3]
            == 0x44);
        if bytes@[0] == 0x41 && bytes@[1] == 0x4e && bytes@[2] == 0x59 && bytes@[3] == 0x44 {
            assert(head =~= magic());
        }
    }
    if bytes[0] != 0x41 || bytes[1] != 0x4e || bytes[2] != 0x59 || bytes[3] != 0x44 {
        Some(DecodeError::BadMagic)
    } else if bytes[4] != VERSION {
        Some(DecodeError::UnsupportedVersion)
    } else {
        None
    }
}

/// Reads the four count maps from `pos` on.
fn get_maps(bytes: &[u8], pos: usize) -> (read: Result<
    (CountMap, CountMap, CountMap, CountMap, usize),
    DecodeError,
>)
    ensures
        match read {
            Ok((day, week, month, year, next)) => read_maps(bytes@, pos as int) == Ok::<
                (Map<u64, Count>, Map<u64, Count>, Map<u64, Count>, Map<u64, Count>, int),
                DecodeError,
            >((day@, week@, month@, year@, next as int)),
            Err(e) => read_maps(bytes@, pos as int) == Err::<
                (Map<u64, Count>, Map<u64, Count>, Map<u64, Count>, Map<u64, Count>, int),
                DecodeError,
            >(e),
        },
{
    let (day, after_day) = match get_counts(bytes, pos) {
        Ok(read) => read,
        Err(e) => {
            return Err(e);
        },
    };
    let (week, after_week) = match get_counts(bytes, after_day) {
        Ok(read) => read,
        Err(e) => {
            return Err(e);
        },
    };
    let (month, after_month) = match get_counts(bytes, after_week) {
        Ok(read) => read,
        Err(e) => {
            return Err(e);
        },
    };
    match get_counts(bytes, after_month) {
        Ok((year, after_year)) => Ok((day, week, month, year, after_year)),
        Err(e) => Err(e),
    }
}

/// Reads a file of statistics: gives the statistics it holds, or says
/// why the file is not accepted.
pub fn decode(bytes: &[u8]) -> (decoded: Result<Stats, DecodeError>)
    ensures
        match decoded {
            Ok(stats) => decode_spec(bytes@) == Ok::<StatsView, DecodeError>(stats@) && stats@.wf(),
            Err(e) => decode_spec(bytes@) == Err::<StatsView, DecodeError>(e),
        },
{
    if let Some(e) = check_file_header(bytes) {
        return Err(e);
    }
    let (work_goals, after_log) = match get_log(bytes, HEADER_LEN) {
        Ok(read) => read,
        Err(e) => {
            return Err(e);
        },
    };
    let (day, week, month, year, after_year) = match get_maps(bytes, after_log) {
        Ok(read) => read,
        Err(e) => {
            return Err(e);
        },
    };
    let (all_time, end) = match get_count(bytes, after_year) {
        Ok(read) => read,
        Err(e) => {
            return Err(e);
        },
    };
    if end != bytes.len() {
        return Err(DecodeError::TrailingBytes);
    }
    let stats = Stats::from_parts(work_goals, day, week, month, year, all_time);
    proof {
        lemma_accepted_is_file(bytes@, stats@);
    }
    Ok(stats)
}

} // verus!
