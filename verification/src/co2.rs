//! The integer side of the CO2 data sonification: the cursors that walk
//! through the records step by step and tick by tick, and the tracking of
//! episodes of tempo instability.

use vstd::prelude::*;
use vstd::string::*;
use crate::text::{decimal, push_decimal, parsed_unsigned, parse_unsigned, trimmed, trim_str};

verus! {

/// Positions of the step and the tick cursors in the list of records.
#[derive(Debug, Clone, Copy, PartialEq, Eq, Structural)]
pub struct Co2Cursor {
    pub step_counter: usize,
    pub tick_counter: usize,
}

impl Co2Cursor {
    /// Both cursors at the first record.
    pub fn new() -> (c: Co2Cursor)
        ensures
            c == (Co2Cursor { step_counter: 0, tick_counter: 0 }),
    {
        Co2Cursor { step_counter: 0, tick_counter: 0 }
    }

    /// Puts both cursors back at the first record.
    pub fn reset(&mut self)
        ensures
            *final(self) == (Co2Cursor { step_counter: 0, tick_counter: 0 }),
    {
        self.step_counter = 0;
        self.tick_counter = 0;
    }

    /// The record to read at this step, moving the step cursor on and
    /// wrapping after the last record; `None` when there are no records.
    pub fn advance_step(&mut self, record_count: usize) -> (r: Option<usize>)
        requires
            record_count == 0 || old(self).step_counter < record_count,
        ensures
            record_count == 0 ==> r is None && *final(self) == *old(self),
            record_count > 0 ==> r == Some(old(self).step_counter) && final(self).step_counter == (
            old(self).step_counter + 1) % (record_count as int) && final(self).tick_counter == old(
                self,
            ).tick_counter,
    {
        if record_count == 0 {
            return None;
        }
        let current = self.step_counter;
        self.step_counter = (self.step_counter + 1) % record_count;
        Some(current)
    }

    /// The record to read at this tick, moving the tick cursor on and
    /// wrapping after the last record; `None` when there are no records.
    pub fn advance_tick(&mut self, record_count: usize) -> (r: Option<usize>)
        requires
            record_count == 0 || old(self).tick_counter < record_count,
        ensures
            record_count == 0 ==> r is None && *final(self) == *old(self),
            record_count > 0 ==> r == Some(old(self).tick_counter) && final(self).tick_counter == (
            old(self).tick_counter + 1) % (record_count as int) && final(self).step_counter == old(
                self,
            ).step_counter,
    {
        if record_count == 0 {
            return None;
        }
        let current = self.tick_counter;
        self.tick_counter = (self.tick_counter + 1) % record_count;
        Some(current)
    }

    /// The record after `counter`, wrapping after the last one; `None` with
    /// fewer than two records (no difference to take).
    pub fn next_record(counter: usize, record_count: usize) -> (r: Option<usize>)
        requires
            record_count < 2 || counter < record_count,
        ensures
            record_count < 2 ==> r is None,
            record_count >= 2 ==> r == Some(((counter + 1) % (record_count as int)) as usize),
    {
        if record_count < 2 {
            return None;
        }
        Some((counter + 1) % record_count)
    }
}

/// Where a cursor at `counter` stands after `k` moves over `record_count`
/// records, each as `advance_step` or `advance_tick` moves it.
pub open spec fn cursor_after(counter: int, record_count: int, k: nat) -> int
    decreases k,
{
    if k == 0 {
        counter
    } else {
        (cursor_after(counter, record_count, (k - 1) as nat) + 1) % record_count
    }
}

proof fn lemma_cursor_after(counter: int, record_count: int, k: nat)
    requires
        0 <= counter < record_count,
    ensures
        cursor_after(counter, record_count, k) == (counter + k) % record_count,
    decreases k,
{
    if k > 0 {
        lemma_cursor_after(counter, record_count, (k - 1) as nat);
        if record_count > 1 {
            vstd::arithmetic::div_mod::lemma_small_mod(1, record_count as nat);
            vstd::arithmetic::div_mod::lemma_add_mod_noop(counter + k - 1, 1, record_count);
            vstd::arithmetic::div_mod::lemma_mod_twice(counter + k - 1, record_count);
        } else {
            assert(record_count == 1);
            assert((cursor_after(counter, 1, (k - 1) as nat) + 1) % 1 == 0);
            assert((counter + k) % 1 == 0);
        }
    } else {
        vstd::arithmetic::div_mod::lemma_small_mod(counter as nat, record_count as nat);
    }
}

/// The records are cycled through: a cursor moved `k` times from a record
/// stands `k` records further on, wrapping after the last, and so is back
/// at its record after as many moves as there are records.
pub proof fn law_cursor_cycles(counter: int, record_count: int, k: nat)
    requires
        0 <= counter < record_count,
    ensures
        cursor_after(counter, record_count, k) == (counter + k) % record_count,
        cursor_after(counter, record_count, record_count as nat) == counter,
{
    lemma_cursor_after(counter, record_count, k);
    lemma_cursor_after(counter, record_count, record_count as nat);
    vstd::arithmetic::div_mod::lemma_add_mod_noop(counter, record_count, record_count);
    vstd::arithmetic::div_mod::lemma_mod_self_0(record_count);
    vstd::arithmetic::div_mod::lemma_small_mod(counter as nat, record_count as nat);
}

/// An episode counter: an episode starts each time the deviation goes
/// beyond its threshold after having been within it.
#[derive(Debug, Clone, Copy, PartialEq, Eq, Structural)]
pub struct EpisodeTracker {
    pub is_stable: bool,
    pub episodes: u32,
}

impl EpisodeTracker {
    /// Stable, with no episode counted.
    pub fn new() -> (t: EpisodeTracker)
        ensures
            t == (EpisodeTracker { is_stable: true, episodes: 0 }),
    {
        EpisodeTracker { is_stable: true, episodes: 0 }
    }

    /// Takes in one observation: whether the deviation exceeded the
    /// threshold.
    pub fn observe(&mut self, exceeded: bool)
        requires
            exceeded && old(self).is_stable ==> old(self).episodes < u32::MAX,
        ensures
            *final(self) == step_tracker(*old(self), exceeded),
            final(self).is_stable == !exceeded,
            final(self).episodes == old(self).episodes + if exceeded && old(self).is_stable {
                1int
            } else {
                0int
            },
    {
        if exceeded {
            if self.is_stable {
                self.episodes = self.episodes + 1;
                self.is_stable = false;
            }
        } else {
            self.is_stable = true;
        }
    }
}

/// The number of episodes in a run of observations, starting from a state
/// that is stable or not: the times an exceeding observation follows a
/// stable state.
pub open spec fn episodes_in(observations: Seq<bool>, stable: bool) -> nat
    decreases observations.len(),
{
    if observations.len() == 0 {
        0
    } else {
        let first = observations[0];
        (if first && stable {
            1nat
        } else {
            0nat
        }) + episodes_in(observations.drop_first(), !first)
    }
}

/// Observing a run of values counts exactly the episodes in it, and leaves
/// the tracker stable exactly when the last value did not exceed.
pub proof fn law_episode_count(observations: Seq<bool>, start: EpisodeTracker, end: EpisodeTracker)
    requires
        start.episodes + episodes_in(observations, start.is_stable) <= u32::MAX,
        observed(start, observations) == end,
    ensures
        end.episodes == start.episodes + episodes_in(observations, start.is_stable),
        observations.len() > 0 ==> end.is_stable == !observations.last(),
    decreases observations.len(),
{
    if observations.len() > 0 {
        let next = step_tracker(start, observations[0]);
        law_episode_count(observations.drop_first(), next, end);
        if observations.len() > 1 {
            assert(observations.drop_first().last() == observations.last());
        } else {
            assert(observations.drop_first().len() == 0);
            assert(observed(next, observations.drop_first()) == next);
        }
    }
}

/// The tracker after one observation (as `observe` leaves it).
pub open spec fn step_tracker(t: EpisodeTracker, exceeded: bool) -> EpisodeTracker {
    if exceeded {
        if t.is_stable {
            EpisodeTracker { is_stable: false, episodes: (t.episodes + 1) as u32 }
        } else {
            t
        }
    } else {
        EpisodeTracker { is_stable: true, episodes: t.episodes }
    }
}

/// The tracker after a run of observations.
pub open spec fn observed(t: EpisodeTracker, observations: Seq<bool>) -> EpisodeTracker
    decreases observations.len(),
{
    if observations.len() == 0 {
        t
    } else {
        observed(step_tracker(t, observations[0]), observations.drop_first())
    }
}


/// The fields of a line of comma-separated values: the texts between the
/// commas, in order, one more than there are commas.
pub open spec fn comma_fields(s: Seq<char>) -> Seq<Seq<char>>
    decreases s.len(),
{
    if s.len() == 0 {
        seq![Seq::empty()]
    } else {
        let prev = comma_fields(s.drop_last());
        if s.last() == ',' {
            prev.push(Seq::empty())
        } else {
            prev.update(prev.len() - 1, prev.last().push(s.last()))
        }
    }
}

proof fn lemma_comma_fields_len(s: Seq<char>)
    ensures
        comma_fields(s).len() >= 1,
    decreases s.len(),
{
    if s.len() > 0 {
        lemma_comma_fields_len(s.drop_last());
    }
}

/// The comma-separated fields of `line`, each without its surrounding
/// white space.
fn split_commas(line: &str) -> (r: Vec<String>)
    ensures
        r@.len() == comma_fields(line@).len(),
        forall|i: int| 0 <= i < r@.len() ==> (#[trigger] r@[i])@ == trimmed(comma_fields(line@)[i]),
{
    let n = line.unicode_len();
    let mut fields: Vec<String> = Vec::new();
    let mut start: usize = 0;
    let mut i: usize = 0;
    assert(line@.take(0) =~= Seq::<char>::empty());
    while i < n
        invariant
            n == line@.len(),
            start <= i <= n,
            comma_fields(line@.take(i as int)).len() == fields@.len() + 1,
            forall|k: int| 0 <= k < fields@.len() ==> (#[trigger] fields@[k])@ == trimmed(comma_fields(line@.take(i as int))[k]),
            comma_fields(line@.take(i as int)).last() =~= line@.subrange(start as int, i as int),
        decreases n - i,
    {
        let c = line.get_char(i);
        let ghost prev = comma_fields(line@.take(i as int));
        proof {
            lemma_comma_fields_len(line@.take(i as int));
            assert(line@.take(i as int + 1).drop_last() =~= line@.take(i as int));
            assert(line@.take(i as int + 1).last() == c);
        }
        if c == ',' {
            let f = line.substring_char(start, i);
            fields.push(String::from_str(trim_str(f)));
            start = i + 1;
        } else {
            assert(line@.subrange(start as int, i as int).push(c) =~= line@.subrange(start as int, i as int + 1));
        }
        i = i + 1;
    }
    let f = line.substring_char(start, n);
    fields.push(String::from_str(trim_str(f)));
    assert(line@.take(n as int) =~= line@);
    fields
}

/// A line of the daily CO2 file (year, month, day, decimal date, ppm),
/// split into its fields.
#[derive(Debug)]
pub enum Co2Line {
    /// Nothing but white space: skipped.
    Blank,
    /// Fewer than five fields: not a record.
    TooFewFields,
    /// The fields, each without its surrounding white space.
    Fields(Vec<String>),
}

/// Splits a line of the daily CO2 file at its commas (see `comma_fields`),
/// trimming each field; a blank line and a line of fewer than five fields
/// are told apart.
pub fn split_record_line(line: &str) -> (r: Co2Line)
    ensures
        trimmed(line@).len() == 0 ==> r is Blank,
        trimmed(line@).len() != 0 && comma_fields(line@).len() < 5 ==> r is TooFewFields,
        trimmed(line@).len() != 0 && comma_fields(line@).len() >= 5 ==> (r matches Co2Line::Fields(v) && v@.len()
            == comma_fields(line@).len() && forall|i: int| 0 <= i < v@.len() ==> (#[trigger] v@[i])@ == trimmed(comma_fields(line@)[i])),
{
    let t = trim_str(line);
    if t.unicode_len() == 0 {
        return Co2Line::Blank;
    }
    let fields = split_commas(line);
    if fields.len() < 5 {
        Co2Line::TooFewFields
    } else {
        Co2Line::Fields(fields)
    }
}

/// The date of a CO2 record.
#[derive(Debug, Clone, Copy, PartialEq, Eq, Structural)]
pub struct Co2RecordDate {
    pub year: u16,
    pub month: u8,
    pub day: u8,
}

/// Why a CO2 record was not taken.
#[derive(Debug, Clone)]
pub enum Co2RecordError {
    InvalidYear(String),
    InvalidMonth(String),
    InvalidDay(String),
    MonthOutOfRange(u8),
    DayOutOfRange(u8),
    YearOutOfRange(u16),
}

impl Co2RecordError {
    /// The text that reports the error.
    pub fn message(&self) -> (s: String)
        ensures
            self matches Co2RecordError::InvalidYear(t) ==> s@ == "Invalid year: "@ + t@,
            self matches Co2RecordError::InvalidMonth(t) ==> s@ == "Invalid month: "@ + t@,
            self matches Co2RecordError::InvalidDay(t) ==> s@ == "Invalid day: "@ + t@,
            self matches Co2RecordError::MonthOutOfRange(m) ==> s@ == "Month out of range: "@ + decimal(m as nat),
            self matches Co2RecordError::DayOutOfRange(d) ==> s@ == "Day out of range: "@ + decimal(d as nat),
            self matches Co2RecordError::YearOutOfRange(y) ==> s@ == "Year out of reasonable range: "@ + decimal(y as nat),
    {
        match self {
            Co2RecordError::InvalidYear(t) => {
                let mut s = String::from_str("Invalid year: ");
                s.append(t.as_str());
                s
            },
            Co2RecordError::InvalidMonth(t) => {
                let mut s = String::from_str("Invalid month: ");
                s.append(t.as_str());
                s
            },
            Co2RecordError::InvalidDay(t) => {
                let mut s = String::from_str("Invalid day: ");
                s.append(t.as_str());
                s
            },
            Co2RecordError::MonthOutOfRange(m) => {
                let mut s = String::from_str("Month out of range: ");
                push_decimal(&mut s, *m as u64);
                s
            },
            Co2RecordError::DayOutOfRange(d) => {
                let mut s = String::from_str("Day out of range: ");
                push_decimal(&mut s, *d as u64);
                s
            },
            Co2RecordError::YearOutOfRange(y) => {
                let mut s = String::from_str("Year out of reasonable range: ");
                push_decimal(&mut s, *y as u64);
                s
            },
        }
    }
}

/// Reads the date fields of a CO2 record: year (0-65535), month and day
/// (0-255) as unsigned decimal numbers, in that order; the first that does
/// not read is reported with its text.
pub fn parse_record_date(year: &str, month: &str, day: &str) -> (r: Result<Co2RecordDate, Co2RecordError>)
    ensures
        parsed_unsigned(year@, 65535) is None ==> (r matches Err(Co2RecordError::InvalidYear(t)) && t@ == year@),
        parsed_unsigned(year@, 65535) is Some && parsed_unsigned(month@, 255) is None ==> (r matches Err(
            Co2RecordError::InvalidMonth(t),
        ) && t@ == month@),
        parsed_unsigned(year@, 65535) is Some && parsed_unsigned(month@, 255) is Some && parsed_unsigned(day@, 255) is None
            ==> (r matches Err(Co2RecordError::InvalidDay(t)) && t@ == day@),
        parsed_unsigned(year@, 65535) is Some && parsed_unsigned(month@, 255) is Some && parsed_unsigned(day@, 255) is Some
            ==> (r matches Ok(d) && parsed_unsigned(year@, 65535) == Some(d.year as int) && parsed_unsigned(month@, 255) == Some(
            d.month as int,
        ) && parsed_unsigned(day@, 255) == Some(d.day as int)),
{
    let y = match parse_unsigned(year, 65535) {
        Some(v) => v,
        None => {
            return Err(Co2RecordError::InvalidYear(String::from_str(year)));
        },
    };
    let m = match parse_unsigned(month, 255) {
        Some(v) => v,
        None => {
            return Err(Co2RecordError::InvalidMonth(String::from_str(month)));
        },
    };
    let d = match parse_unsigned(day, 255) {
        Some(v) => v,
        None => {
            return Err(Co2RecordError::InvalidDay(String::from_str(day)));
        },
    };
    Ok(Co2RecordDate { year: y as u16, month: m as u8, day: d as u8 })
}

/// The sanity checks of a record's date, in this order: month 1-12, day
/// 1-31, year 1958-2100.
pub fn check_record_date(date: Co2RecordDate) -> (r: Result<(), Co2RecordError>)
    ensures
        date.month < 1 || date.month > 12 ==> r == Err::<(), Co2RecordError>(Co2RecordError::MonthOutOfRange(date.month)),
        1 <= date.month <= 12 && (date.day < 1 || date.day > 31) ==> r == Err::<(), Co2RecordError>(
            Co2RecordError::DayOutOfRange(date.day),
        ),
        1 <= date.month <= 12 && 1 <= date.day <= 31 && (date.year < 1958 || date.year > 2100) ==> r == Err::<
            (),
            Co2RecordError,
        >(Co2RecordError::YearOutOfRange(date.year)),
        1 <= date.month <= 12 && 1 <= date.day <= 31 && 1958 <= date.year <= 2100 ==> r is Ok,
{
    if date.month < 1 || date.month > 12 {
        return Err(Co2RecordError::MonthOutOfRange(date.month));
    }
    if date.day < 1 || date.day > 31 {
        return Err(Co2RecordError::DayOutOfRange(date.day));
    }
    if date.year < 1958 || date.year > 2100 {
        return Err(Co2RecordError::YearOutOfRange(date.year));
    }
    Ok(())
}

} // verus!
