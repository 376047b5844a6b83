//! Usage statistics: how many work sessions were completed and how often the
//! application was started, counted per day, week, month and year and in
//! total, and the log of work goals.

use crate::codec::{decode, decode_spec, encode, DecodeError};
use crate::date::{Date, DateTime, Month, Week, Year};
use std::collections::BTreeMap;
use vstd::prelude::*;
use vstd::std_specs::btree::{axiom_increasing_seq_meaning, increasing_seq};
use vstd::std_specs::cmp::OrdSpec;

verus! {

/// The two counters of one bucket.
#[derive(Debug, Clone, Copy, PartialEq, Eq, Structural)]
pub struct Count {
    /// Starts of the application.
    pub sessions: u32,
    /// Completed work sessions.
    pub pomodori: u32,
}

impl Default for Count {
    fn default() -> (count: Count)
        ensures
            count == (Count { sessions: 0, pomodori: 0 }),
    {
        Count { sessions: 0, pomodori: 0 }
    }
}

/// The keys of the four buckets that a day is counted under.
#[derive(Debug, Clone, Copy, PartialEq, Eq, Structural)]
pub struct Buckets {
    pub day: u64,
    pub week: u64,
    pub month: u64,
    pub year: u64,
}

/// One entry of the log of work goals.
#[derive(Debug)]
pub struct WorkGoal {
    pub at: DateTime,
    pub text: String,
}

/// The counters filed under `key`: zeros where nothing was counted yet.
pub open spec fn count_at(counts: Map<u64, Count>, key: u64) -> Count {
    if counts.contains_key(key) {
        counts[key]
    } else {
        Count { sessions: 0, pomodori: 0 }
    }
}

/// The counts with one more completed work session under `key`.
pub open spec fn with_pomodoro(counts: Map<u64, Count>, key: u64) -> Map<u64, Count> {
    counts.insert(
        key,
        Count {
            sessions: count_at(counts, key).sessions,
            pomodori: (count_at(counts, key).pomodori + 1) as u32,
        },
    )
}

/// The counts with one more start of the application under `key`.
pub open spec fn with_session(counts: Map<u64, Count>, key: u64) -> Map<u64, Count> {
    counts.insert(
        key,
        Count {
            sessions: (count_at(counts, key).sessions + 1) as u32,
            pomodori: count_at(counts, key).pomodori,
        },
    )
}

impl Date {
    /// The keys of the buckets that the date is counted under.
    pub open spec fn buckets(self) -> Buckets {
        Buckets {
            day: self.key(),
            week: self.week_bucket().key(),
            month: self.month_bucket().key(),
            year: self.year_bucket().key(),
        }
    }
}

impl Buckets {
    /// The keys for a day, from the number of its ISO week.
    pub open spec fn from_parts_spec(date: Date, iso_week: u8) -> Buckets {
        Buckets {
            day: date.key(),
            week: (Week { year: date.year_bucket(), iso_week }).key(),
            month: date.month_bucket().key(),
            year: date.year_bucket().key(),
        }
    }

    /// The keys for a day, from the number of its ISO week.
    pub fn from_parts(date: Date, iso_week: u8) -> (keys: Buckets)
        requires
            date.wf(),
        ensures
            keys == Buckets::from_parts_spec(date, iso_week),
    {
        Buckets {
            day: date.day_key(),
            week: Week::from_parts(date, iso_week).to_key(),
            month: Month::of(date).to_key(),
            year: Year::from_number(date.year).to_key(),
        }
    }

    /// The keys of the buckets that the date is counted under.
    pub fn of(date: Date) -> (keys: Buckets)
        requires
            date.wf(),
        ensures
            keys == date.buckets(),
    {
        Buckets::from_parts(date, date.iso_week())
    }
}

/// Counters by bucket key.
#[derive(Debug)]
pub struct CountMap {
    map: BTreeMap<u64, Count>,
}

impl View for CountMap {
    type V = Map<u64, Count>;

    closed spec fn view(&self) -> Map<u64, Count> {
        self.map@
    }
}

impl CountMap {
    /// No counts at all.
    pub fn new() -> (counts: CountMap)
        ensures
            counts@ == Map::<u64, Count>::empty(),
    {
        CountMap { map: BTreeMap::new() }
    }

    /// The counters filed under `key`.
    pub fn get(&self, key: u64) -> (count: Count)
        ensures
            count == count_at(self@, key),
    {
        match self.map.get(&key) {
            Some(count) => *count,
            None => Count { sessions: 0, pomodori: 0 },
        }
    }

    /// Whether anything is filed under `key`.
    pub fn contains(&self, key: u64) -> (present: bool)
        ensures
            present == self@.contains_key(key),
    {
        self.map.get(&key).is_some()
    }

    /// Files the counters under `key`, in place of what was there.
    pub fn set(&mut self, key: u64, count: Count)
        ensures
            final(self)@ == old(self)@.insert(key, count),
    {
        self.map.insert(key, count);
    }

    /// Counts one more completed work session under `key`.
    pub fn increment_pomodori(&mut self, key: u64)
        requires
            count_at(old(self)@, key).pomodori < u32::MAX,
        ensures
            final(self)@ == with_pomodoro(old(self)@, key),
    {
        let count = self.get(key);
        self.set(key, Count { sessions: count.sessions, pomodori: count.pomodori + 1 });
    }

    /// Counts one more start of the application under `key`.
    pub fn increment_app_sessions(&mut self, key: u64)
        requires
            count_at(old(self)@, key).sessions < u32::MAX,
        ensures
            final(self)@ == with_session(old(self)@, key),
    {
        let count = self.get(key);
        self.set(key, Count { sessions: count.sessions + 1, pomodori: count.pomodori });
    }

    /// The entries in the order of their keys: each key of the map once,
    /// with its counters.
    pub fn entries(&self) -> (list: Vec<(u64, Count)>)
        ensures
            entries_sorted(list@),
            entries_map(list@) == self@,
            list@.len() == self@.dom().len(),
    {
        broadcast use vstd::laws_cmp::group_laws_cmp;

        let mut list: Vec<(u64, Count)> = Vec::new();
        for entry in it: self.map.iter()
            invariant
                list@.len() == it.index(),
                it.seq().len() == self.map@.dom().len(),
                increasing_seq(it.seq().map_values(|kv: (&u64, &Count)| *kv.0)),
                forall|i: int|
                    0 <= i < it.seq().len() ==> self.map@.contains_key(*it.seq()[i].0)
                        && self.map@[*it.seq()[i].0] == *it.seq()[i].1,
                forall|k: u64| #[trigger]
                    self.map@.contains_key(k) ==> it.seq().contains((&k, &self.map@[k])),
                forall|i: int|
                    0 <= i < list@.len() ==> list@[i].0 == *it.seq()[i].0 && list@[i].1
                        == *it.seq()[i].1,
                entries_sorted(list@),
        {
            proof {
                let keys = it.seq().map_values(|kv: (&u64, &Count)| *kv.0);
                axiom_increasing_seq_meaning::<u64>(keys);
                let n = it.index();
                assert forall|i: int| 0 <= i < n implies list@[i].0 < *entry.0 by {
                    assert(keys[i] == list@[i].0);
                    assert(keys[n] == *entry.0);
                    assert(keys[i].cmp_spec(&keys[n]) is Less);
                }
            }
            list.push((*entry.0, *entry.1));
        }
        proof {
            assert(forall|k: u64| #[trigger]
                self.map@.contains_key(k) ==> exists|i: int|
                    0 <= i < list@.len() && (#[trigger] list@[i]).0 == k);
            lemma_sorted_is_distinct(list@);
            lemma_entries_map(list@, self.map@);
        }
        list
    }
}

/// Whether the keys of the entries go up from each entry to the next.
pub open spec fn entries_sorted(list: Seq<(u64, Count)>) -> bool {
    forall|i: int, j: int| 0 <= i < j < list.len() ==> list[i].0 < list[j].0
}

/// In a list whose keys go up no key occurs twice.
pub proof fn lemma_sorted_is_distinct(list: Seq<(u64, Count)>)
    requires
        entries_sorted(list),
    ensures
        entries_distinct(list),
{
}

/// A map has one list of its entries in the order of their keys, and no
/// other.
pub proof fn lemma_sorted_entries_unique(one: Seq<(u64, Count)>, other: Seq<(u64, Count)>)
    requires
        entries_sorted(one),
        entries_sorted(other),
        entries_map(one) == entries_map(other),
    ensures
        one == other,
    decreases one.len(),
{
    lemma_sorted_is_distinct(one);
    lemma_sorted_is_distinct(other);
    lemma_entries_map_keys(one);
    lemma_entries_map_keys(other);
    let map = entries_map(one);
    if one.len() == 0 {
        if other.len() > 0 {
            assert(has_key(other, other[0].0));
            assert(map.contains_key(other[0].0));
            assert(has_key(one, other[0].0));
        }
        assert(one =~= other);
    } else if other.len() == 0 {
        assert(has_key(one, one[0].0));
        assert(map.contains_key(one[0].0));
        assert(has_key(other, one[0].0));
    } else {
        let a = one.last();
        let b = other.last();
        assert(one[one.len() - 1] == a);
        assert(other[other.len() - 1] == b);
        assert(has_key(one, a.0));
        assert(has_key(other, b.0));
        assert(map.contains_key(a.0) && map.contains_key(b.0));
        assert(has_key(other, a.0));
        assert(has_key(one, b.0));
        let i = choose|i: int| 0 <= i < other.len() && (#[trigger] other[i]).0 == a.0;
        let j = choose|j: int| 0 <= j < one.len() && (#[trigger] one[j]).0 == b.0;
        assert(a.0 <= b.0) by {
            if i < other.len() - 1 {
                assert(other[i].0 < other[other.len() - 1].0);
            }
        }
        assert(b.0 <= a.0) by {
            if j < one.len() - 1 {
                assert(one[j].0 < one[one.len() - 1].0);
            }
        }
        assert(map[a.0] == a.1);
        assert(map[b.0] == b.1);
        assert(a == b);
        let front = one.drop_last();
        let other_front = other.drop_last();
        assert(entries_sorted(front)) by {
            assert forall|x: int, y: int| 0 <= x < y < front.len() implies front[x].0
                < front[y].0 by {
                assert(one[x].0 < one[y].0);
            }
        }
        assert(entries_sorted(other_front)) by {
            assert forall|x: int, y: int| 0 <= x < y < other_front.len() implies other_front[x].0
                < other_front[y].0 by {
                assert(other[x].0 < other[y].0);
            }
        }
        lemma_sorted_is_distinct(front);
        lemma_sorted_is_distinct(other_front);
        lemma_entries_map_keys(front);
        lemma_entries_map_keys(other_front);
        assert(!has_key(front, a.0)) by {
            if has_key(front, a.0) {
                let x = choose|x: int| 0 <= x < front.len() && (#[trigger] front[x]).0 == a.0;
                assert(one[x].0 < one[one.len() - 1].0);
            }
        }
        assert(!has_key(other_front, a.0)) by {
            if has_key(other_front, a.0) {
                let x = choose|x: int|
                    0 <= x < other_front.len() && (#[trigger] other_front[x]).0 == a.0;
                assert(other[x].0 < other[other.len() - 1].0);
            }
        }
        assert(entries_map(front) =~= map.remove(a.0));
        assert(entries_map(other_front) =~= map.remove(a.0));
        lemma_sorted_entries_unique(front, other_front);
        assert(one =~= front.push(a));
        assert(other =~= other_front.push(b));
    }
}

/// Whether no two entries of the list have the same key.
pub open spec fn entries_distinct(list: Seq<(u64, Count)>) -> bool {
    forall|i: int, j: int| 0 <= i < j < list.len() ==> list[i].0 != list[j].0
}

/// The map that files each entry of the list under its key, a later entry
/// replacing an earlier one with the same key.
pub open spec fn entries_map(list: Seq<(u64, Count)>) -> Map<u64, Count>
    decreases list.len(),
{
    if list.len() == 0 {
        Map::empty()
    } else {
        entries_map(list.drop_last()).insert(list.last().0, list.last().1)
    }
}

/// Whether some entry of the list has the key.
pub open spec fn has_key(list: Seq<(u64, Count)>, key: u64) -> bool {
    exists|i: int| 0 <= i < list.len() && (#[trigger] list[i]).0 == key
}

/// The keys of the map of a list are the keys of its entries, and a key
/// that occurs once is filed with the counters of its entry.
pub proof fn lemma_entries_map_keys(list: Seq<(u64, Count)>)
    ensures
        forall|k: u64| #[trigger] entries_map(list).contains_key(k) <==> has_key(list, k),
        entries_distinct(list) ==> forall|i: int|
            0 <= i < list.len() ==> entries_map(list)[(#[trigger] list[i]).0] == list[i].1,
    decreases list.len(),
{
    if list.len() > 0 {
        let front = list.drop_last();
        let last = list.last();
        lemma_entries_map_keys(front);
        assert(entries_map(list) == entries_map(front).insert(last.0, last.1));
        assert forall|k: u64| #[trigger] entries_map(list).contains_key(k) <==> has_key(
            list,
            k,
        ) by {
            if entries_map(list).contains_key(k) {
                if k == last.0 {
                    assert(list[list.len() - 1].0 == k);
                } else {
                    assert(entries_map(front).contains_key(k));
                    assert(has_key(front, k));
                    let i = choose|i: int| 0 <= i < front.len() && (#[trigger] front[i]).0 == k;
                    assert(list[i].0 == k);
                }
            }
            if has_key(list, k) {
                let i = choose|i: int| 0 <= i < list.len() && (#[trigger] list[i]).0 == k;
                if i < front.len() {
                    assert(front[i].0 == k);
                    assert(has_key(front, k));
                }
            }
        }
        if entries_distinct(list) {
            assert(entries_distinct(front)) by {
                assert forall|i: int, j: int| 0 <= i < j < front.len() implies front[i].0
                    != front[j].0 by {
                    assert(list[i].0 != list[j].0);
                }
            }
            assert forall|i: int| 0 <= i < list.len() implies entries_map(list)[(
                #[trigger] list[i]).0] == list[i].1 by {
                if i < front.len() {
                    assert(front[i] == list[i]);
                    assert(list[i].0 != list[list.len() - 1].0);
                }
            }
        }
    } else {
        assert forall|k: u64| #[trigger] entries_map(list).contains_key(k) <==> has_key(
            list,
            k,
        ) by {}
    }
}

/// A list that holds each key of a map once, with the counters filed under
/// it, has that map as its map.
proof fn lemma_entries_map(list: Seq<(u64, Count)>, map: Map<u64, Count>)
    requires
        entries_distinct(list),
        forall|i: int|
            0 <= i < list.len() ==> map.contains_key((#[trigger] list[i]).0) && map[list[i].0]
                == list[i].1,
        forall|k: u64| #[trigger] map.contains_key(k) ==> has_key(list, k),
    ensures
        entries_map(list) == map,
{
    lemma_entries_map_keys(list);
    assert forall|k: u64| #[trigger] entries_map(list).contains_key(k) implies map.contains_key(
        k,
    ) && entries_map(list)[k] == map[k] by {
        let i = choose|i: int| 0 <= i < list.len() && (#[trigger] list[i]).0 == k;
        assert(map.contains_key(list[i].0));
    }
    assert(entries_map(list) =~= map);
}

/// The statistics as a mathematical value.
pub struct StatsView {
    pub work_goals: Seq<(DateTime, Seq<char>)>,
    pub day: Map<u64, Count>,
    pub week: Map<u64, Count>,
    pub month: Map<u64, Count>,
    pub year: Map<u64, Count>,
    pub all_time: Count,
}

/// Whether every work goal was logged at a day of the calendar and a time
/// of that day.
pub open spec fn goals_valid(goals: Seq<(DateTime, Seq<char>)>) -> bool {
    forall|i: int| 0 <= i < goals.len() ==> (#[trigger] goals[i]).0.wf()
}

impl StatsView {
    /// Every work goal of the log has a valid date and time.
    pub open spec fn wf(self) -> bool {
        goals_valid(self.work_goals)
    }

    /// Nothing counted, nothing logged.
    pub open spec fn empty() -> StatsView {
        StatsView {
            work_goals: Seq::empty(),
            day: Map::empty(),
            week: Map::empty(),
            month: Map::empty(),
            year: Map::empty(),
            all_time: Count { sessions: 0, pomodori: 0 },
        }
    }

    /// Whether one more completed work session can be counted under the
    /// keys: none of the five counters it goes to is at its limit.
    pub open spec fn pomodoro_room(self, keys: Buckets) -> bool {
        &&& count_at(self.day, keys.day).pomodori < u32::MAX
        &&& count_at(self.week, keys.week).pomodori < u32::MAX
        &&& count_at(self.month, keys.month).pomodori < u32::MAX
        &&& count_at(self.year, keys.year).pomodori < u32::MAX
        &&& self.all_time.pomodori < u32::MAX
    }

    /// Whether one more start of the application can be counted under the
    /// keys.
    pub open spec fn session_room(self, keys: Buckets) -> bool {
        &&& count_at(self.day, keys.day).sessions < u32::MAX
        &&& count_at(self.week, keys.week).sessions < u32::MAX
        &&& count_at(self.month, keys.month).sessions < u32::MAX
        &&& count_at(self.year, keys.year).sessions < u32::MAX
        &&& self.all_time.sessions < u32::MAX
    }

    /// The statistics with one more completed work session, counted at all
    /// four levels and in total.
    pub open spec fn with_pomodoro(self, keys: Buckets) -> StatsView {
        StatsView {
            work_goals: self.work_goals,
            day: with_pomodoro(self.day, keys.day),
            week: with_pomodoro(self.week, keys.week),
            month: with_pomodoro(self.month, keys.month),
            year: with_pomodoro(self.year, keys.year),
            all_time: Count {
                sessions: self.all_time.sessions,
                pomodori: (self.all_time.pomodori + 1) as u32,
            },
        }
    }

    /// The statistics with one more start of the application, counted at
    /// all four levels and in total.
    pub open spec fn with_session(self, keys: Buckets) -> StatsView {
        StatsView {
            work_goals: self.work_goals,
            day: with_session(self.day, keys.day),
            week: with_session(self.week, keys.week),
            month: with_session(self.month, keys.month),
            year: with_session(self.year, keys.year),
            all_time: Count {
                sessions: (self.all_time.sessions + 1) as u32,
                pomodori: self.all_time.pomodori,
            },
        }
    }

    /// The statistics after a completed work session was to be counted
    /// under the keys: counted at all four levels and in total where all
    /// five counters have room, and otherwise unchanged.
    pub open spec fn counted_pomodoro(self, keys: Buckets) -> StatsView {
        if self.pomodoro_room(keys) {
            self.with_pomodoro(keys)
        } else {
            self
        }
    }

    /// The statistics after a start of the application was to be counted
    /// under the keys: counted at all four levels and in total where all
    /// five counters have room, and otherwise unchanged.
    pub open spec fn counted_session(self, keys: Buckets) -> StatsView {
        if self.session_room(keys) {
            self.with_session(keys)
        } else {
            self
        }
    }

    /// The statistics with one more work goal at the end of the log.
    pub open spec fn with_goal(self, at: DateTime, text: Seq<char>) -> StatsView {
        StatsView {
            work_goals: self.work_goals.push((at, text)),
            day: self.day,
            week: self.week,
            month: self.month,
            year: self.year,
            all_time: self.all_time,
        }
    }
}

/// Counting a completed work session adds exactly one to the counter of
/// the day, of its week, of its month, of its year and of all time, and
/// changes no other counter and nothing else.
pub proof fn lemma_pomodoro_counted(stats: StatsView, keys: Buckets)
    requires
        stats.pomodoro_room(keys),
    ensures
        ({
            let after = stats.with_pomodoro(keys);
            &&& count_at(after.day, keys.day).pomodori == count_at(stats.day, keys.day).pomodori + 1
            &&& count_at(after.week, keys.week).pomodori == count_at(stats.week, keys.week).pomodori
                + 1
            &&& count_at(after.month, keys.month).pomodori == count_at(
                stats.month,
                keys.month,
            ).pomodori + 1
            &&& count_at(after.year, keys.year).pomodori == count_at(stats.year, keys.year).pomodori
                + 1
            &&& after.all_time.pomodori == stats.all_time.pomodori + 1
            &&& after.all_time.sessions == stats.all_time.sessions
            &&& after.work_goals == stats.work_goals
            &&& forall|k: u64|
                k != keys.day ==> #[trigger] count_at(after.day, k) == count_at(stats.day, k)
            &&& forall|k: u64|
                k != keys.week ==> #[trigger] count_at(after.week, k) == count_at(stats.week, k)
            &&& forall|k: u64|
                k != keys.month ==> #[trigger] count_at(after.month, k) == count_at(stats.month, k)
            &&& forall|k: u64|
                k != keys.year ==> #[trigger] count_at(after.year, k) == count_at(stats.year, k)
            &&& count_at(after.day, keys.day).sessions == count_at(stats.day, keys.day).sessions
            &&& count_at(after.week, keys.week).sessions == count_at(stats.week, keys.week).sessions
            &&& count_at(after.month, keys.month).sessions == count_at(
                stats.month,
                keys.month,
            ).sessions
            &&& count_at(after.year, keys.year).sessions == count_at(stats.year, keys.year).sessions
        }),
{
}

/// Counting is all or nothing: either each of the five counters that a
/// completed work session goes to has grown by one, or the statistics are
/// as they were. No counter ever goes down or starts again at zero, and
/// the same holds of the starts of the application.
pub proof fn lemma_counting_is_all_or_nothing(stats: StatsView, keys: Buckets)
    ensures
        ({
            let after = stats.counted_pomodoro(keys);
            &&& after == stats || {
                &&& count_at(after.day, keys.day).pomodori == count_at(stats.day, keys.day).pomodori
                    + 1
                &&& count_at(after.week, keys.week).pomodori == count_at(
                    stats.week,
                    keys.week,
                ).pomodori + 1
                &&& count_at(after.month, keys.month).pomodori == count_at(
                    stats.month,
                    keys.month,
                ).pomodori + 1
                &&& count_at(after.year, keys.year).pomodori == count_at(
                    stats.year,
                    keys.year,
                ).pomodori + 1
                &&& after.all_time.pomodori == stats.all_time.pomodori + 1
            }
            &&& after == stats <==> !stats.pomodoro_room(keys)
            &&& after.all_time.pomodori >= stats.all_time.pomodori
            &&& forall|k: u64| #[trigger]
                count_at(after.day, k).pomodori >= count_at(stats.day, k).pomodori
            &&& forall|k: u64| #[trigger]
                count_at(after.week, k).pomodori >= count_at(stats.week, k).pomodori
            &&& forall|k: u64| #[trigger]
                count_at(after.month, k).pomodori >= count_at(stats.month, k).pomodori
            &&& forall|k: u64| #[trigger]
                count_at(after.year, k).pomodori >= count_at(stats.year, k).pomodori
        }),
        ({
            let after = stats.counted_session(keys);
            &&& after == stats || {
                &&& count_at(after.day, keys.day).sessions == count_at(stats.day, keys.day).sessions
                    + 1
                &&& count_at(after.week, keys.week).sessions == count_at(
                    stats.week,
                    keys.week,
                ).sessions + 1
                &&& count_at(after.month, keys.month).sessions == count_at(
                    stats.month,
                    keys.month,
                ).sessions + 1
                &&& count_at(after.year, keys.year).sessions == count_at(
                    stats.year,
                    keys.year,
                ).sessions + 1
                &&& after.all_time.sessions == stats.all_time.sessions + 1
            }
            &&& after == stats <==> !stats.session_room(keys)
            &&& after.all_time.sessions >= stats.all_time.sessions
            &&& forall|k: u64| #[trigger]
                count_at(after.day, k).sessions >= count_at(stats.day, k).sessions
            &&& forall|k: u64| #[trigger]
                count_at(after.week, k).sessions >= count_at(stats.week, k).sessions
            &&& forall|k: u64| #[trigger]
                count_at(after.month, k).sessions >= count_at(stats.month, k).sessions
            &&& forall|k: u64| #[trigger]
                count_at(after.year, k).sessions >= count_at(stats.year, k).sessions
        }),
{
}

/// Counting a start of the application adds exactly one to the session
/// counter of the day, of its week, of its month, of its year and of all
/// time, and changes no other counter and nothing else.
pub proof fn lemma_session_counted(stats: StatsView, keys: Buckets)
    requires
        stats.session_room(keys),
    ensures
        ({
            let after = stats.with_session(keys);
            &&& count_at(after.day, keys.day).sessions == count_at(stats.day, keys.day).sessions + 1
            &&& count_at(after.week, keys.week).sessions == count_at(stats.week, keys.week).sessions
                + 1
            &&& count_at(after.month, keys.month).sessions == count_at(
                stats.month,
                keys.month,
            ).sessions + 1
            &&& count_at(after.year, keys.year).sessions == count_at(stats.year, keys.year).sessions
                + 1
            &&& after.all_time.sessions == stats.all_time.sessions + 1
            &&& after.all_time.pomodori == stats.all_time.pomodori
            &&& after.work_goals == stats.work_goals
            &&& forall|k: u64|
                k != keys.day ==> #[trigger] count_at(after.day, k) == count_at(stats.day, k)
            &&& forall|k: u64|
                k != keys.week ==> #[trigger] count_at(after.week, k) == count_at(stats.week, k)
            &&& forall|k: u64|
                k != keys.month ==> #[trigger] count_at(after.month, k) == count_at(stats.month, k)
            &&& forall|k: u64|
                k != keys.year ==> #[trigger] count_at(after.year, k) == count_at(stats.year, k)
            &&& count_at(after.day, keys.day).pomodori == count_at(stats.day, keys.day).pomodori
            &&& count_at(after.week, keys.week).pomodori == count_at(stats.week, keys.week).pomodori
            &&& count_at(after.month, keys.month).pomodori == count_at(
                stats.month,
                keys.month,
            ).pomodori
            &&& count_at(after.year, keys.year).pomodori == count_at(stats.year, keys.year).pomodori
        }),
{
}

/// A log stays valid when a goal with a valid date and time is appended.
pub proof fn lemma_goal_keeps_valid(
    goals: Seq<(DateTime, Seq<char>)>,
    at: DateTime,
    text: Seq<char>,
)
    requires
        goals_valid(goals),
        at.wf(),
    ensures
        goals_valid(goals.push((at, text))),
{
    assert forall|i: int| 0 <= i < goals.push((at, text)).len() implies (#[trigger] goals.push(
        (at, text),
    )[i]).0.wf() by {
        if i < goals.len() {
            assert(goals.push((at, text))[i] == goals[i]);
        }
    }
}

/// The log of work goals as a mathematical value.
pub open spec fn goals_view(goals: Seq<WorkGoal>) -> Seq<(DateTime, Seq<char>)> {
    goals.map_values(|goal: WorkGoal| (goal.at, goal.text@))
}

/// The counters and the log of work goals.
#[derive(Debug)]
pub struct Stats {
    work_goals: Vec<WorkGoal>,
    day: CountMap,
    week: CountMap,
    month: CountMap,
    year: CountMap,
    all_time: Count,
}

impl View for Stats {
    type V = StatsView;

    closed spec fn view(&self) -> StatsView {
        StatsView {
            work_goals: goals_view(self.work_goals@),
            day: self.day@,
            week: self.week@,
            month: self.month@,
            year: self.year@,
            all_time: self.all_time,
        }
    }
}

impl Stats {
    /// Nothing counted, nothing logged.
    pub fn new() -> (stats: Stats)
        ensures
            stats@ == StatsView::empty(),
    {
        let stats = Stats {
            work_goals: Vec::new(),
            day: CountMap::new(),
            week: CountMap::new(),
            month: CountMap::new(),
            year: CountMap::new(),
            all_time: Count { sessions: 0, pomodori: 0 },
        };
        assert(goals_view(stats.work_goals@) =~= Seq::empty());
        stats
    }

    /// The statistics with the given log, maps and total.
    pub fn from_parts(
        work_goals: Vec<WorkGoal>,
        day: CountMap,
        week: CountMap,
        month: CountMap,
        year: CountMap,
        all_time: Count,
    ) -> (stats: Stats)
        ensures
            stats@ == (StatsView {
                work_goals: goals_view(work_goals@),
                day: day@,
                week: week@,
                month: month@,
                year: year@,
                all_time,
            }),
    {
        Stats { work_goals, day, week, month, year, all_time }
    }

    /// The log of work goals, oldest first.
    pub fn work_goals(&self) -> (goals: &Vec<WorkGoal>)
        ensures
            goals_view(goals@) == self@.work_goals,
    {
        &self.work_goals
    }

    /// The counts by day.
    pub fn day(&self) -> (counts: &CountMap)
        ensures
            counts@ == self@.day,
    {
        &self.day
    }

    /// The counts by week.
    pub fn week(&self) -> (counts: &CountMap)
        ensures
            counts@ == self@.week,
    {
        &self.week
    }

    /// The counts by month.
    pub fn month(&self) -> (counts: &CountMap)
        ensures
            counts@ == self@.month,
    {
        &self.month
    }

    /// The counts by year.
    pub fn year(&self) -> (counts: &CountMap)
        ensures
            counts@ == self@.year,
    {
        &self.year
    }

    /// Whether one more completed work session can be counted under the
    /// keys.
    pub fn has_pomodoro_room(&self, keys: &Buckets) -> (room: bool)
        ensures
            room == self@.pomodoro_room(*keys),
    {
        self.day.get(keys.day).pomodori < u32::MAX && self.week.get(keys.week).pomodori < u32::MAX
            && self.month.get(keys.month).pomodori < u32::MAX && self.year.get(
            keys.year,
        ).pomodori < u32::MAX && self.all_time.pomodori < u32::MAX
    }

    /// Whether one more start of the application can be counted under the
    /// keys.
    pub fn has_session_room(&self, keys: &Buckets) -> (room: bool)
        ensures
            room == self@.session_room(*keys),
    {
        self.day.get(keys.day).sessions < u32::MAX && self.week.get(keys.week).sessions < u32::MAX
            && self.month.get(keys.month).sessions < u32::MAX && self.year.get(
            keys.year,
        ).sessions < u32::MAX && self.all_time.sessions < u32::MAX
    }

    /// Counts one completed work session under the keys, at all four levels
    /// and in total. Where one of the five counters is at its limit,
    /// nothing is counted at all.
    pub fn increment_pomodori(&mut self, keys: &Buckets)
        ensures
            final(self)@ == old(self)@.counted_pomodoro(*keys),
    {
        if self.has_pomodoro_room(keys) {
            self.day.increment_pomodori(keys.day);
            self.week.increment_pomodori(keys.week);
            self.month.increment_pomodori(keys.month);
            self.year.increment_pomodori(keys.year);
            self.all_time.pomodori += 1;
        }
    }

    /// Counts one start of the application under the keys, at all four
    /// levels and in total. Where one of the five counters is at its
    /// limit, nothing is counted at all.
    pub fn increment_app_sessions(&mut self, keys: &Buckets)
        ensures
            final(self)@ == old(self)@.counted_session(*keys),
    {
        if self.has_session_room(keys) {
            self.day.increment_app_sessions(keys.day);
            self.week.increment_app_sessions(keys.week);
            self.month.increment_app_sessions(keys.month);
            self.year.increment_app_sessions(keys.year);
            self.all_time.sessions += 1;
        }
    }

    /// Appends a work goal, dated at a day of the calendar and a time of
    /// that day, to the log.
    pub fn add_work_goal(&mut self, at: DateTime, goal: String)
        requires
            at.wf(),
        ensures
            final(self)@ == old(self)@.with_goal(at, goal@),
            old(self)@.wf() ==> final(self)@.wf(),
    {
        self.work_goals.push(WorkGoal { at, text: goal });
        assert(goals_view(self.work_goals@) =~= goals_view(old(self).work_goals@).push(
            (at, goal@),
        ));
        proof {
            if old(self)@.wf() {
                lemma_goal_keeps_valid(old(self)@.work_goals, at, goal@);
            }
        }
    }

    /// Whether every work goal of the log has a valid date and time.
    pub fn is_valid(&self) -> (valid: bool)
        ensures
            valid == self@.wf(),
    {
        let n = self.work_goals.len();
        let mut i: usize = 0;
        while i < n
            invariant
                n == self.work_goals@.len(),
                i <= n,
                forall|j: int| 0 <= j < i ==> (#[trigger] self.work_goals@[j]).at.wf(),
            decreases n - i,
        {
            if !self.work_goals[i].at.is_valid() {
                assert(!goals_view(self.work_goals@)[i as int].0.wf());
                return false;
            }
            i += 1;
        }
        assert forall|j: int| 0 <= j < goals_view(self.work_goals@).len() implies (
            #[trigger] goals_view(self.work_goals@)[j]).0.wf() by {
            assert(self.work_goals@[j].at.wf());
        }
        true
    }

    /// The counters of all time.
    pub fn all_time(&self) -> (count: Count)
        ensures
            count == self@.all_time,
    {
        self.all_time
    }
}

/// The statistics together with the day they are counted under, as a
/// mathematical value.
pub struct StatsManagerView {
    pub date: Date,
    pub stats: StatsView,
}

/// The statistics in memory, and the day under which they count: the day on
/// which they were last loaded.
#[derive(Debug)]
pub struct StatsManager {
    current_date: Date,
    stats: Stats,
}

impl View for StatsManager {
    type V = StatsManagerView;

    closed spec fn view(&self) -> StatsManagerView {
        StatsManagerView { date: self.current_date, stats: self.stats@ }
    }
}

impl StatsManager {
    /// The tracked day is a day of the calendar, and every work goal of the
    /// log has a valid date and time.
    pub open spec fn wf(self) -> bool {
        self@.date.wf() && self@.stats.wf()
    }

    /// What loading gives on the day `today`, from the bytes of the file or
    /// from its absence: without a file, empty statistics; with one, the
    /// statistics it holds, or the reason why it is not accepted.
    pub open spec fn loaded(today: Date, stored: Option<Seq<u8>>) -> Result<
        StatsManagerView,
        DecodeError,
    > {
        match stored {
            None => Ok(StatsManagerView { date: today, stats: StatsView::empty() }),
            Some(bytes) => match decode_spec(bytes) {
                Ok(stats) => Ok(StatsManagerView { date: today, stats }),
                Err(e) => Err(e),
            },
        }
    }

    /// Statistics for `today` from what is stored: `None` where there is no
    /// file yet.
    pub fn load(today: Date, stored: Option<&[u8]>) -> (loaded: Result<StatsManager, DecodeError>)
        requires
            today.wf(),
        ensures
            match loaded {
                Ok(manager) => StatsManager::loaded(
                    today,
                    match stored {
                        Some(bytes) => Some(bytes@),
                        None => None,
                    },
                ) == Ok::<StatsManagerView, DecodeError>(manager@),
                Err(e) => StatsManager::loaded(
                    today,
                    match stored {
                        Some(bytes) => Some(bytes@),
                        None => None,
                    },
                ) == Err::<StatsManagerView, DecodeError>(e),
            },
            loaded matches Ok(manager) ==> manager.wf(),
    {
        match stored {
            None => Ok(StatsManager { current_date: today, stats: Stats::new() }),
            Some(bytes) => match decode(bytes) {
                Ok(stats) => Ok(StatsManager { current_date: today, stats }),
                Err(e) => Err(e),
            },
        }
    }

    /// The bytes of the file that stores the statistics: loading them
    /// gives the same statistics back.
    pub fn save(&self) -> (bytes: Vec<u8>)
        requires
            self@.stats.wf(),
        ensures
            decode_spec(bytes@) == Ok::<StatsView, DecodeError>(self@.stats),
            forall|today: Date|
                StatsManager::loaded(today, Some(bytes@)) == Ok::<StatsManagerView, DecodeError>(
                    StatsManagerView { date: today, stats: self@.stats },
                ),
    {
        encode(&self.stats)
    }

    /// The day under which the statistics count.
    pub fn current_date(&self) -> (date: Date)
        ensures
            date == self@.date,
    {
        self.current_date
    }

    /// The counters and the log.
    pub fn stats(&self) -> (stats: &Stats)
        ensures
            stats@ == self@.stats,
    {
        &self.stats
    }

    /// Whether one more completed work session can be counted today.
    pub fn can_count_pomodoro(&self) -> (room: bool)
        requires
            self@.date.wf(),
        ensures
            room == self@.stats.pomodoro_room(self@.date.buckets()),
    {
        let keys = Buckets::of(self.current_date);
        self.stats.has_pomodoro_room(&keys)
    }

    /// Whether one more start of the application can be counted today.
    pub fn can_count_app_session(&self) -> (room: bool)
        requires
            self@.date.wf(),
        ensures
            room == self@.stats.session_room(self@.date.buckets()),
    {
        let keys = Buckets::of(self.current_date);
        self.stats.has_session_room(&keys)
    }

    /// Counts one completed work session under the tracked day: in its
    /// day, week, month and year and in total, and nowhere else. Where one
    /// of these five counters is at its limit, nothing is counted at all.
    pub fn increment_pomodori_count(&mut self)
        requires
            old(self)@.date.wf(),
        ensures
            final(self)@ == (StatsManagerView {
                date: old(self)@.date,
                stats: old(self)@.stats.counted_pomodoro(old(self)@.date.buckets()),
            }),
    {
        let keys = Buckets::of(self.current_date);
        self.stats.increment_pomodori(&keys);
    }

    /// Counts one start of the application under the tracked day: in its
    /// day, week, month and year and in total, and nowhere else. Where one
    /// of these five counters is at its limit, nothing is counted at all.
    pub fn increment_app_sessions_count(&mut self)
        requires
            old(self)@.date.wf(),
        ensures
            final(self)@ == (StatsManagerView {
                date: old(self)@.date,
                stats: old(self)@.stats.counted_session(old(self)@.date.buckets()),
            }),
    {
        let keys = Buckets::of(self.current_date);
        self.stats.increment_app_sessions(&keys);
    }

    /// Counts one completed work session as `increment_pomodori_count`
    /// does, and says whether it was counted.
    pub fn try_increment_pomodori_count(&mut self) -> (counted: bool)
        requires
            old(self)@.date.wf(),
        ensures
            counted == old(self)@.stats.pomodoro_room(old(self)@.date.buckets()),
            final(self)@ == (StatsManagerView {
                date: old(self)@.date,
                stats: old(self)@.stats.counted_pomodoro(old(self)@.date.buckets()),
            }),
    {
        let counted = self.can_count_pomodoro();
        self.increment_pomodori_count();
        counted
    }

    /// Counts one start of the application as
    /// `increment_app_sessions_count` does, and says whether it was
    /// counted.
    pub fn try_increment_app_sessions_count(&mut self) -> (counted: bool)
        requires
            old(self)@.date.wf(),
        ensures
            counted == old(self)@.stats.session_room(old(self)@.date.buckets()),
            final(self)@ == (StatsManagerView {
                date: old(self)@.date,
                stats: old(self)@.stats.counted_session(old(self)@.date.buckets()),
            }),
    {
        let counted = self.can_count_app_session();
        self.increment_app_sessions_count();
        counted
    }

    /// Whether the tracked day is a day of the calendar and every work
    /// goal of the log has a valid date and time.
    pub fn is_valid(&self) -> (valid: bool)
        ensures
            valid == self.wf(),
    {
        self.current_date.is_valid() && self.stats.is_valid()
    }

    /// Appends a work goal, taken at the given date and time, to the log.
    pub fn add_work_goal(&mut self, at: DateTime, goal: String)
        requires
            at.wf(),
        ensures
            final(self)@ == (StatsManagerView {
                date: old(self)@.date,
                stats: old(self)@.stats.with_goal(at, goal@),
            }),
            old(self).wf() ==> final(self).wf(),
    {
        self.stats.add_work_goal(at, goal);
    }

    /// Whether the statistics have to be loaded again: exactly when
    /// `today` is another day than the tracked one. Nothing is loaded
    /// here, and nothing changes.
    pub fn reload_if_needed(&self, today: Date) -> (reload: bool)
        ensures
            reload == (today != self@.date),
    {
        today != self.current_date
    }

    /// The number of work sessions completed on the tracked day.
    pub fn pomodori_daily(&self) -> (count: u32)
        requires
            self@.date.wf(),
        ensures
            count == count_at(self@.stats.day, self@.date.key()).pomodori,
    {
        self.stats.day().get(self.current_date.day_key()).pomodori
    }
}

} // verus!
