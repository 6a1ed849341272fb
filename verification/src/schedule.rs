//! Reading the schedule text of a listing into a start and an end instant.
//!
//! The texts come in two shapes. An event within one day reads
//! `April 6, 2024 7:30PM - 9:30PM`; an event that runs over several days reads
//! `April 30 - May 1, 2024 11:00PM - 2:00AM`. The calendar and clock fields
//! themselves are read by `chrono`; what is decided here is which shape a text has,
//! which of its words make up each instant, and how the two instants are put
//! together.

use crate::error::FilterError;
use crate::text::{chars_of, split_whitespace, word_spans};
use chrono::{Datelike, NaiveDateTime, NaiveTime, Timelike};
use vstd::prelude::*;

verus! {

/// A time of day on a 24-hour clock.
#[derive(Clone, Copy, Debug, PartialEq, Eq, Structural)]
pub struct TimeOfDay {
    pub hour: u32,
    pub minute: u32,
    pub second: u32,
}

impl TimeOfDay {
    /// The fields lie on the clock face.
    pub open spec fn is_valid(&self) -> bool {
        self.hour < 24 && self.minute < 60 && self.second < 60
    }
}

/// A calendar date with a time of day, without a time zone.
#[derive(Clone, Copy, Debug, PartialEq, Eq, Structural)]
pub struct Instant {
    pub year: i32,
    pub month: u32,
    pub day: u32,
    pub hour: u32,
    pub minute: u32,
    pub second: u32,
}

impl Instant {
    /// The month, the day of the month and the clock fields lie in their ranges.
    pub open spec fn is_valid(&self) -> bool {
        &&& 1 <= self.month <= 12
        &&& 1 <= self.day <= 31
        &&& self.hour < 24
        &&& self.minute < 60
        &&& self.second < 60
    }

    /// This instant's date with the hour and minute of `time`; the second stays.
    pub open spec fn at(&self, time: TimeOfDay) -> Instant {
        Instant { hour: time.hour, minute: time.minute, ..*self }
    }
}

/// What `chrono` reads from the whole of `text` under `format`, or `None` where it
/// rejects the text.
pub uninterp spec fn date_time_in(text: Seq<char>, format: Seq<char>) -> Option<Instant>;

/// What `chrono` reads from the front of `text` under `format`, with the rest of the
/// text that the format did not use; `None` where it rejects the text.
pub uninterp spec fn leading_date_time(text: Seq<char>, format: Seq<char>) -> Option<
    (Instant, Seq<char>),
>;

/// What `chrono` reads as a time of day from the front of `text` under `format`,
/// with the rest of the text; `None` where it rejects the text.
pub uninterp spec fn leading_time(text: Seq<char>, format: Seq<char>) -> Option<
    (TimeOfDay, Seq<char>),
>;

/// `chrono::NaiveDateTime::parse_from_str`, with the date and time it returns read
/// field by field through `Datelike` and `Timelike`. Trusted: the outcome depends on
/// the two texts alone, and the fields of a date and time that `chrono` hands out
/// lie in the ranges its accessors document.
#[verifier::external_body]
fn date_time_from_str(text: &str, format: &str) -> (r: Option<Instant>)
    ensures
        r == date_time_in(text@, format@),
        r matches Some(t) ==> t.is_valid(),
{
    match NaiveDateTime::parse_from_str(text, format) {
        Ok(t) => {
            let (year, month, day) = (t.year(), t.month(), t.day());
            let (hour, minute, second) = (t.hour(), t.minute(), t.second());
            Some(Instant { year, month, day, hour, minute, second })
        },
        Err(_) => None,
    }
}

/// `chrono::NaiveDateTime::parse_and_remainder`, with the date and time read field
/// by field. Trusted: the outcome depends on the two texts alone, and the fields lie
/// in the ranges that `chrono` documents.
#[verifier::external_body]
fn date_time_and_remainder<'a>(text: &'a str, format: &str) -> (r: Option<(Instant, &'a str)>)
    ensures
        match r {
            Some((t, rest)) => leading_date_time(text@, format@) == Some((t, rest@))
                && t.is_valid(),
            None => leading_date_time(text@, format@).is_none(),
        },
{
    match NaiveDateTime::parse_and_remainder(text, format) {
        Ok((t, rest)) => {
            let (year, month, day) = (t.year(), t.month(), t.day());
            let (hour, minute, second) = (t.hour(), t.minute(), t.second());
            Some((Instant { year, month, day, hour, minute, second }, rest))
        },
        Err(_) => None,
    }
}

/// `chrono::NaiveTime::parse_and_remainder`, with the time read field by field.
/// Trusted: the outcome depends on the two texts alone, and the fields lie on the
/// clock face.
#[verifier::external_body]
fn time_and_remainder<'a>(text: &'a str, format: &str) -> (r: Option<(TimeOfDay, &'a str)>)
    ensures
        match r {
            Some((t, rest)) => leading_time(text@, format@) == Some((t, rest@)) && t.is_valid(),
            None => leading_time(text@, format@).is_none(),
        },
{
    match NaiveTime::parse_and_remainder(text, format) {
        Ok((t, rest)) => {
            let (hour, minute, second) = (t.hour(), t.minute(), t.second());
            Some((TimeOfDay { hour, minute, second }, rest))
        },
        Err(_) => None,
    }
}

/// The format of an instant written as six numbers between commas: year, month,
/// day, hour, minute, second.
pub open spec fn stored_format() -> Seq<char> {
    "%Y,%m,%d,%H,%M,%S"@
}

/// The format of a month name, a day, a comma, a year and a 12-hour time.
pub open spec fn day_format() -> Seq<char> {
    "%B %e, %Y %l:%M%p"@
}

/// As `day_format`, without the comma after the day.
pub open spec fn plain_day_format() -> Seq<char> {
    "%B %e %Y %l:%M%p"@
}

/// The format of a 12-hour time with its half of the day.
pub open spec fn time_format() -> Seq<char> {
    "%l:%M%p"@
}

/// The instant that a stored text of six numbers between commas stands for, such as
/// `2024,04,06,19,30,00`; `None` where the text is not of that form.
pub fn parse_date_time(date_time_str: &str) -> (r: Option<Instant>)
    ensures
        r == date_time_in(date_time_str@, stored_format()),
        r matches Some(t) ==> t.is_valid(),
{
    date_time_from_str(date_time_str, "%Y,%m,%d,%H,%M,%S")
}

/// The first three characters of `s` are a space, a hyphen and a space.
pub open spec fn has_separator(s: Seq<char>) -> bool {
    s.len() >= 3 && s[0] == ' ' && s[1] == '-' && s[2] == ' '
}

/// What follows the separator ` - ` at the front of `rest`; `None` where `rest` does
/// not begin with it.
pub fn after_separator<'a>(rest: &'a str) -> (r: Option<&'a str>)
    ensures
        match r {
            Some(tail) => has_separator(rest@) && tail@ == rest@.skip(3),
            None => !has_separator(rest@),
        },
{
    let chars = chars_of(rest);
    if chars.len() >= 3 && chars[0] == ' ' && chars[1] == '-' && chars[2] == ' ' {
        let tail = rest.substring_char(3, chars.len());
        proof {
            assert(rest@.subrange(3, chars@.len() as int) =~= rest@.skip(3));
        }
        Some(tail)
    } else {
        None
    }
}

/// The start, and the end on the start's date at the time of day `end_time`.
pub fn same_day(start: Instant, end_time: TimeOfDay) -> (r: (Instant, Instant))
    ensures
        r == (start, start.at(end_time)),
        start.is_valid() && end_time.is_valid() ==> r.1.is_valid(),
{
    let end = Instant {
        year: start.year,
        month: start.month,
        day: start.day,
        hour: end_time.hour,
        minute: end_time.minute,
        second: start.second,
    };
    (start, end)
}

/// Both ends of a range of days, or the failure where either could not be read.
pub open spec fn range_of(start: Option<Instant>, end: Option<Instant>) -> Result<
    (Instant, Instant),
    FilterError,
> {
    match (start, end) {
        (Some(a), Some(b)) => Ok((a, b)),
        _ => Err(FilterError::MalformedSchedule),
    }
}

/// Puts the two ends of a range of days together: both must have been read.
pub fn date_range(start: Option<Instant>, end: Option<Instant>) -> (r: Result<
    (Instant, Instant),
    FilterError,
>)
    ensures
        r == range_of(start, end),
{
    match (start, end) {
        (Some(a), Some(b)) => Ok((a, b)),
        _ => Err(FilterError::MalformedSchedule),
    }
}

/// Four words with one space between each two.
pub open spec fn spaced(a: Seq<char>, b: Seq<char>, c: Seq<char>, d: Seq<char>) -> Seq<char> {
    a + seq![' '] + b + seq![' '] + c + seq![' '] + d
}

/// The start and end that a schedule of one day stands for: a date and start time
/// at the front, the separator, then the end time, which falls on the same date.
pub open spec fn single_day_of(text: Seq<char>) -> Result<(Instant, Instant), FilterError> {
    match leading_date_time(text, day_format()) {
        Some((start, rest)) => if has_separator(rest) {
            match leading_time(rest.skip(3), time_format()) {
                Some((end_time, _)) => Ok((start, start.at(end_time))),
                None => Err(FilterError::MalformedSchedule),
            }
        } else {
            Err(FilterError::MalformedSchedule)
        },
        None => Err(FilterError::MalformedSchedule),
    }
}

/// The start and end that a schedule over several days stands for, given its nine
/// words: the start is read from the first month and day, the end from the second,
/// both with the one year; the times are the seventh and the ninth word.
pub open spec fn day_range_of(words: Seq<Seq<char>>) -> Result<(Instant, Instant), FilterError> {
    range_of(
        date_time_in(spaced(words[0], words[1], words[5], words[6]), plain_day_format()),
        date_time_in(spaced(words[3], words[4], words[5], words[8]), day_format()),
    )
}

/// The start and end that a schedule text stands for. A text of six words is a
/// schedule of one day, a text of nine words one over several days; any other text
/// is malformed.
pub open spec fn schedule_of(text: Seq<char>) -> Result<(Instant, Instant), FilterError> {
    let words = split_whitespace(text);
    if words.len() == 9 {
        day_range_of(words)
    } else if words.len() == 6 {
        single_day_of(text)
    } else {
        Err(FilterError::MalformedSchedule)
    }
}

/// The four words of `text` at the given spans, with one space between each two.
fn join_words(
    text: &str,
    a: (usize, usize),
    b: (usize, usize),
    c: (usize, usize),
    d: (usize, usize),
) -> (r: String)
    requires
        a.0 <= a.1 <= text@.len(),
        b.0 <= b.1 <= text@.len(),
        c.0 <= c.1 <= text@.len(),
        d.0 <= d.1 <= text@.len(),
    ensures
        r@ == spaced(
            text@.subrange(a.0 as int, a.1 as int),
            text@.subrange(b.0 as int, b.1 as int),
            text@.subrange(c.0 as int, c.1 as int),
            text@.subrange(d.0 as int, d.1 as int),
        ),
{
    proof {
        reveal_strlit(" ");
        assert(" "@ =~= seq![' ']);
    }
    let mut joined = String::new();
    joined.append(text.substring_char(a.0, a.1));
    joined.append(" ");
    joined.append(text.substring_char(b.0, b.1));
    joined.append(" ");
    joined.append(text.substring_char(c.0, c.1));
    joined.append(" ");
    joined.append(text.substring_char(d.0, d.1));
    joined
}

/// Reads a schedule text into its start and end.
///
/// A text of six words, such as `April 6, 2024 7:30PM - 9:30PM`, gives a start and
/// an end on one date. A text of nine words, such as
/// `April 30 - May 1, 2024 11:00PM - 2:00AM`, gives a start on the first date and an
/// end on the second, in the one year. A text with another number of words, or one
/// whose fields cannot be read, is `MalformedSchedule`.
pub fn parse_time(time: &str) -> (r: Result<(Instant, Instant), FilterError>)
    ensures
        r == schedule_of(time@),
        r matches Ok((start, end)) ==> start.is_valid() && end.is_valid(),
{
    let chars = chars_of(time);
    let spans = word_spans(&chars);
    if spans.len() == 9 {
        let start_text = join_words(time, spans[0], spans[1], spans[5], spans[6]);
        let end_text = join_words(time, spans[3], spans[4], spans[5], spans[8]);
        let start = date_time_from_str(start_text.as_str(), "%B %e %Y %l:%M%p");
        let end = date_time_from_str(end_text.as_str(), "%B %e, %Y %l:%M%p");
        date_range(start, end)
    } else if spans.len() == 6 {
        match date_time_and_remainder(time, "%B %e, %Y %l:%M%p") {
            Some((start, rest)) => match after_separator(rest) {
                Some(tail) => match time_and_remainder(tail, "%l:%M%p") {
                    Some((end_time, _)) => Ok(same_day(start, end_time)),
                    None => Err(FilterError::MalformedSchedule),
                },
                None => Err(FilterError::MalformedSchedule),
            },
            None => Err(FilterError::MalformedSchedule),
        }
    } else {
        Err(FilterError::MalformedSchedule)
    }
}

} // verus!
