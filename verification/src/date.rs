//! Calendar dates and the count of business days between two of them.
//!
//! A date is held as its day number in the proleptic Gregorian calendar,
//! with January 1 of year 1 as day 1. Going to the next day adds one, the
//! days between two dates are the difference of their numbers, and dates
//! are ordered as their numbers are. Reading a date from text and telling
//! its weekday are left to `chrono`.
//!
//! A date here is a calendar date and nothing more. The library reads no
//! clock and knows no time zone: whoever hands it "today" decides in which
//! zone the day began, and has to use one zone for all dates of a store.

use chrono::{Datelike, NaiveDate};
use vstd::prelude::*;

use crate::error::StandupError;

verus! {

/// Day number of 0000-01-01, the first date that `YYYY-MM-DD` can name.
pub const FIRST_DAY: i32 = -365;

/// Day number of 9999-12-31, the last date that `YYYY-MM-DD` can name.
pub const LAST_DAY: i32 = 3_652_059;

/// The day number of the date that `chrono` reads from `text` under the
/// format string `format`, or `None` where it reads no date.
pub uninterp spec fn parsed_day_number(text: Seq<char>, format: Seq<char>) -> Option<int>;

/// The weekday of the day with the given number, from 1 for Monday to 7 for
/// Sunday. Day 1 is a Monday, and the weekdays go round every seven days.
pub open spec fn weekday_from_monday(day_number: int) -> int {
    (day_number - 1) % 7 + 1
}

/// The format in which dates are written: year, month and day, with dashes.
pub open spec fn date_format() -> Seq<char> {
    "%Y-%m-%d"@
}

/// Monday to Friday count as business days, whatever the holidays.
pub open spec fn is_business_weekday(weekday: int) -> bool {
    weekday <= 5
}

/// The day with this number is a business day.
pub open spec fn is_business_day(day_number: int) -> bool {
    is_business_weekday(weekday_from_monday(day_number))
}

/// How many of the days `first ..= last` are business days.
pub open spec fn count_business_days(first: int, last: int) -> nat
    decreases last - first + 1,
{
    if last < first {
        0
    } else {
        count_business_days(first, last - 1) + if is_business_day(last) {
            1nat
        } else {
            0nat
        }
    }
}

/// The business days that a task has been open when it was first seen on
/// day `first` and last seen on day `last`: the business days among
/// `first ..= last`, and never less than one.
pub open spec fn business_days(first: int, last: int) -> int {
    if count_business_days(first, last) < 1 {
        1
    } else {
        count_business_days(first, last) as int
    }
}

/// A calendar date between 0000-01-01 and 9999-12-31.
#[derive(Debug, Clone, Copy, PartialEq, Eq, Structural)]
pub struct CalendarDate {
    day_number: i32,
}

impl View for CalendarDate {
    type V = int;

    /// The date's day number.
    closed spec fn view(&self) -> int {
        self.day_number as int
    }
}

/// Calls `NaiveDate::parse_from_str` and hands out the day number
/// (`num_days_from_ce`) of the date it read. The result is a function of the
/// two strings alone; nothing else is claimed of it.
#[verifier::external_body]
fn parse_day_number(text: &str, format: &str) -> (parsed: Option<i32>)
    ensures
        match parsed {
            Some(n) => parsed_day_number(text@, format@) == Some(n as int),
            None => parsed_day_number(text@, format@) is None,
        },
{
    match NaiveDate::parse_from_str(text, format) {
        Ok(date) => Some(date.num_days_from_ce()),
        Err(_) => None,
    }
}

/// Calls `NaiveDate::from_num_days_from_ce_opt`, which has a date for every
/// day number between the two bounds, then `weekday` and
/// `number_from_monday`. The contract claims the weekday that the calendar
/// gives: day 1, the first of January of year 1, is a Monday, and `chrono`
/// counts its days in cycles of 146,097, which is a whole number of weeks.
#[verifier::external_body]
fn weekday_of_day_number(day_number: i32) -> (weekday: u32)
    requires
        FIRST_DAY <= day_number <= LAST_DAY,
    ensures
        weekday == weekday_from_monday(day_number as int),
        1 <= weekday <= 7,
{
    NaiveDate::from_num_days_from_ce_opt(day_number).unwrap().weekday().number_from_monday()
}

/// Whether a weekday, counted from 1 for Monday, is a business day.
pub fn is_business_weekday_number(weekday: u32) -> (b: bool)
    ensures
        b == is_business_weekday(weekday as int),
{
    weekday <= 5
}

impl CalendarDate {
    /// The date lies in the range that this library handles.
    pub open spec fn valid(&self) -> bool {
        FIRST_DAY <= self@ <= LAST_DAY
    }

    /// The date with the given day number, where it is in range.
    pub fn from_day_number(day_number: i32) -> (date: Option<CalendarDate>)
        ensures
            date is Some <==> FIRST_DAY <= day_number <= LAST_DAY,
            date matches Some(d) ==> d@ == day_number && d.valid(),
    {
        if FIRST_DAY <= day_number && day_number <= LAST_DAY {
            Some(CalendarDate { day_number })
        } else {
            None
        }
    }

    /// Turns what the date parser returned into a date or an error: a day
    /// number in range is a date, anything else is `InvalidDate`.
    pub fn from_parsed(parsed: Option<i32>) -> (date: Result<CalendarDate, StandupError>)
        ensures
            date is Ok <==> (parsed matches Some(n) && FIRST_DAY <= n <= LAST_DAY),
            date matches Ok(d) ==> (parsed matches Some(n) && d@ == n) && d.valid(),
            date matches Err(e) ==> e == StandupError::InvalidDate,
    {
        match parsed {
            Some(n) => match CalendarDate::from_day_number(n) {
                Some(date) => Ok(date),
                None => Err(StandupError::InvalidDate),
            },
            None => Err(StandupError::InvalidDate),
        }
    }

    /// Reads a date written as `YYYY-MM-DD`.
    ///
    /// Succeeds exactly where `chrono` reads a date from `text` and that
    /// date is in range; every other text is an `InvalidDate`.
    pub fn parse(text: &str) -> (date: Result<CalendarDate, StandupError>)
        ensures
            date is Ok <==> (parsed_day_number(text@, date_format()) matches Some(n) && FIRST_DAY
                <= n <= LAST_DAY),
            date matches Ok(d) ==> parsed_day_number(text@, date_format()) == Some(d@)
                && d.valid(),
            date matches Err(e) ==> e == StandupError::InvalidDate,
    {
        CalendarDate::from_parsed(parse_day_number(text, "%Y-%m-%d"))
    }

    /// The date's day number.
    pub fn day_number(&self) -> (n: i32)
        ensures
            n == self@,
    {
        self.day_number
    }

    /// The date's weekday, from 1 for Monday to 7 for Sunday.
    pub fn weekday(&self) -> (weekday: u32)
        requires
            self.valid(),
        ensures
            weekday == weekday_from_monday(self@),
            1 <= weekday <= 7,
    {
        weekday_of_day_number(self.day_number)
    }

    /// Whether the date falls on Monday to Friday.
    pub fn is_business_day(&self) -> (b: bool)
        requires
            self.valid(),
        ensures
            b == is_business_day(self@),
    {
        is_business_weekday_number(self.weekday())
    }

    /// Whether this date comes strictly before `other`.
    pub fn is_before(&self, other: &CalendarDate) -> (b: bool)
        ensures
            b == (self@ < other@),
    {
        self.day_number < other.day_number
    }
}

/// The count is bounded by the number of days in the range.
pub proof fn lemma_count_bounds(first: int, last: int)
    ensures
        count_business_days(first, last) <= if last < first {
            0
        } else {
            last - first + 1
        },
    decreases last - first + 1,
{
    if last >= first {
        lemma_count_bounds(first, last - 1);
    }
}

/// A later last day never lowers the count.
pub proof fn lemma_count_monotonic(first: int, earlier: int, later: int)
    requires
        earlier <= later,
    ensures
        count_business_days(first, earlier) <= count_business_days(first, later),
    decreases later - earlier,
{
    if earlier < later {
        lemma_count_monotonic(first, earlier, later - 1);
        if later < first {
            lemma_count_bounds(first, later - 1);
        }
    }
}

/// Between two dates with nothing but business days from the first to the
/// last, the business days are the calendar days: the difference plus one.
pub proof fn lemma_unbroken_span(first: int, last: int)
    requires
        first <= last,
        forall|day: int| first <= day <= last ==> is_business_day(day),
    ensures
        business_days(first, last) == last - first + 1,
        count_business_days(first, last) == last - first + 1,
    decreases last - first,
{
    if first < last {
        lemma_unbroken_span(first, last - 1);
    } else {
        assert(count_business_days(first, first - 1) == 0);
    }
}

/// From a date to itself there is one business day, on a weekend too.
pub proof fn lemma_same_day(day: int)
    ensures
        business_days(day, day) == 1,
{
    assert(count_business_days(day, day - 1) == 0);
}

/// Where the last day lies before the first, the result is one.
pub proof fn lemma_reversed_span(first: int, last: int)
    requires
        last < first,
    ensures
        business_days(first, last) == 1,
{
}

/// Seven days hold five business days, wherever they begin.
pub proof fn lemma_week_has_five(first: int)
    ensures
        count_business_days(first, first + 6) == 5,
{
    assert(count_business_days(first, first - 1) == 0);
    assert(count_business_days(first, first) == count_business_days(first, first - 1) + if is_business_day(first) { 1nat } else { 0nat });
    assert(count_business_days(first, first + 1) == count_business_days(first, first) + if is_business_day(first + 1) { 1nat } else { 0nat });
    assert(count_business_days(first, first + 2) == count_business_days(first, first + 1) + if is_business_day(first + 2) { 1nat } else { 0nat });
    assert(count_business_days(first, first + 3) == count_business_days(first, first + 2) + if is_business_day(first + 3) { 1nat } else { 0nat });
    assert(count_business_days(first, first + 4) == count_business_days(first, first + 3) + if is_business_day(first + 4) { 1nat } else { 0nat });
    assert(count_business_days(first, first + 5) == count_business_days(first, first + 4) + if is_business_day(first + 5) { 1nat } else { 0nat });
    assert(count_business_days(first, first + 6) == count_business_days(first, first + 5) + if is_business_day(first + 6) { 1nat } else { 0nat });
}

/// The count over a span is the count up to any day in it plus the count
/// from the next day on.
pub proof fn lemma_count_split(first: int, middle: int, last: int)
    requires
        first - 1 <= middle <= last,
    ensures
        count_business_days(first, last) == count_business_days(first, middle)
            + count_business_days(middle + 1, last),
    decreases last - middle,
{
    if middle < last {
        lemma_count_split(first, middle, last - 1);
    } else {
        assert(count_business_days(middle + 1, last) == 0);
    }
}

/// Seven more days are five more business days.
pub proof fn lemma_week_later(first: int, last: int)
    requires
        first - 1 <= last,
    ensures
        count_business_days(first, last + 7) == count_business_days(first, last) + 5,
{
    lemma_count_split(first, last, last + 7);
    lemma_week_has_five(last + 1);
}

/// The result is at least one, and a later last day never lowers it.
pub proof fn lemma_business_days_monotonic(first: int, earlier: int, later: int)
    requires
        earlier <= later,
    ensures
        1 <= business_days(first, earlier) <= business_days(first, later),
{
    lemma_count_monotonic(first, earlier, later);
}

/// Counts the business days among `first ..= last`, one day at a time, and
/// returns one where there are none or where `last` lies before `first`.
pub fn business_days_between(first: CalendarDate, last: CalendarDate) -> (days: i32)
    requires
        first.valid(),
        last.valid(),
    ensures
        days == business_days(first@, last@),
        days >= 1,
        last@ <= first@ ==> days == 1,
        (first@ <= last@ && forall|day: int| first@ <= day <= last@ ==> is_business_day(day))
            ==> days == last@ - first@ + 1,
{
    proof {
        if last@ < first@ {
            lemma_reversed_span(first@, last@);
        } else {
            if last@ == first@ {
                lemma_same_day(first@);
            }
            if forall|day: int| first@ <= day <= last@ ==> is_business_day(day) {
                lemma_unbroken_span(first@, last@);
            }
        }
    }
    if last.day_number < first.day_number {
        return 1;
    }
    let mut count: i32 = 0;
    let mut current: i32 = first.day_number;
    while current <= last.day_number
        invariant
            first.valid(),
            last.valid(),
            first.day_number <= current <= last.day_number + 1,
            count == count_business_days(first@, current - 1),
            0 <= count <= current - first.day_number,
        decreases last.day_number + 1 - current,
    {
        if is_business_weekday_number(weekday_of_day_number(current)) {
            count = count + 1;
        }
        current = current + 1;
    }
    if count < 1 {
        1
    } else {
        count
    }
}

} // verus!
