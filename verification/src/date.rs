//! Calendar dates and the resolution of due-date tokens.
//!
//! A date is held as its day number in the proleptic Gregorian calendar, with
//! 1 January of year 1 as day 1. Order and day arithmetic are then those of
//! the integers; reading, writing and the day of the week come from `chrono`.

use vstd::prelude::*;
use chrono::Datelike;
use chrono::NaiveDate;
use crate::text::{eq_ignoring_case, lower, same_text};

verus! {

/// The day number of the first date that `chrono` can hold: 1 January -262143.
pub const MIN_DAY: i32 = -95_746_129;

/// The day number of the last date that `chrono` can hold: 31 December 262142.
pub const MAX_DAY: i32 = 95_745_399;

/// The day number of 1 January 2023, the date that stands for "no concrete
/// due date" and for a due date that could not be read.
pub const SENTINEL_DAY: i32 = 738_521;

/// Whether `day` is the number of a date of the calendar.
pub open spec fn valid_day(day: int) -> bool {
    MIN_DAY <= day <= MAX_DAY
}

/// What `chrono` reads from a text under the pattern `%Y-%m-%d`: the day number
/// of the date, or nothing where it refuses the text.
pub uninterp spec fn text_date(s: Seq<char>) -> Option<int>;

/// What `chrono` writes for the date with this day number.
pub uninterp spec fn date_text(day: int) -> Seq<char>;

/// The day of the week of the date with this day number, as `chrono` counts
/// it: 0 for Monday up to 6 for Sunday.
pub uninterp spec fn weekday_of(day: int) -> int;

/// The English name of the day of the week of the date with this day number,
/// as `chrono` writes it.
pub uninterp spec fn weekday_name_of(day: int) -> Seq<char>;

/// The date that a text denotes: what `chrono` reads from it, if it lies in
/// the calendar.
pub open spec fn date_of_text(s: Seq<char>) -> Option<int> {
    match text_date(s) {
        Some(day) => if valid_day(day) {
            Some(day)
        } else {
            None
        },
        None => None,
    }
}

/// `chrono`'s `NaiveDate::parse_from_str` with the pattern `%Y-%m-%d`, and
/// `num_days_from_ce` of the date it read. Unverified: the contract only names
/// the result.
#[verifier::external_body]
fn chrono_parse(s: &str) -> (r: Option<i32>)
    ensures
        r.is_some() == text_date(s@).is_some(),
        r.is_some() ==> text_date(s@) == Some(r.unwrap() as int),
{
    match NaiveDate::parse_from_str(s, "%Y-%m-%d") {
        Ok(d) => Some(d.num_days_from_ce()),
        Err(_) => None,
    }
}

/// `chrono`'s `Display` for the `NaiveDate` that `from_num_days_from_ce_opt`
/// makes of `day`. Unverified: the contract only names the result. The bounds
/// in `requires` are those within which `from_num_days_from_ce_opt` gives a
/// date.
#[verifier::external_body]
fn chrono_write(day: i32) -> (r: String)
    requires
        valid_day(day as int),
    ensures
        r@ == date_text(day as int),
{
    NaiveDate::from_num_days_from_ce_opt(day).unwrap().to_string()
}

/// `chrono`'s `weekday().num_days_from_monday()` for the date with this day
/// number. Unverified: the contract names the result and bounds it as the
/// documentation of `num_days_from_monday` does.
#[verifier::external_body]
fn chrono_weekday(day: i32) -> (r: u32)
    requires
        valid_day(day as int),
    ensures
        r as int == weekday_of(day as int),
        r < 7,
{
    NaiveDate::from_num_days_from_ce_opt(day).unwrap().weekday().num_days_from_monday()
}

/// `chrono`'s `format("%A")` for the date with this day number: the full name
/// of its day of the week. Unverified: the contract only names the result.
#[verifier::external_body]
fn chrono_weekday_name(day: i32) -> (r: String)
    requires
        valid_day(day as int),
    ensures
        r@ == weekday_name_of(day as int),
{
    NaiveDate::from_num_days_from_ce_opt(day).unwrap().format("%A").to_string()
}

/// A calendar date without a time of day.
#[derive(Clone, Copy, Debug, PartialEq, Eq, Structural)]
pub struct CalendarDate {
    day: i32,
}

impl View for CalendarDate {
    type V = int;

    /// The date's day number.
    open spec fn view(&self) -> int {
        self.day_number() as int
    }
}

impl CalendarDate {
    #[verifier::type_invariant]
    closed spec fn in_calendar(self) -> bool {
        valid_day(self.day as int)
    }

    /// The day number, as a machine integer.
    pub closed spec fn day_number(&self) -> i32 {
        self.day
    }

    /// The date with this day number, if there is one.
    pub fn from_days(day: i32) -> (r: Option<CalendarDate>)
        ensures
            r.is_some() == valid_day(day as int),
            r.is_some() ==> r.unwrap()@ == day,
    {
        if MIN_DAY <= day && day <= MAX_DAY {
            Some(CalendarDate { day })
        } else {
            None
        }
    }

    /// The day number of this date.
    pub fn days(&self) -> (r: i32)
        ensures
            r == self@,
            valid_day(self@),
    {
        proof {
            use_type_invariant(self);
        }
        self.day
    }

    /// The sentinel date.
    pub fn sentinel() -> (r: CalendarDate)
        ensures
            r@ == SENTINEL_DAY,
    {
        CalendarDate { day: SENTINEL_DAY }
    }

    /// Reads a date written as `YYYY-MM-DD`.
    pub fn parse(s: &str) -> (r: Option<CalendarDate>)
        ensures
            r.is_some() == date_of_text(s@).is_some(),
            r.is_some() ==> date_of_text(s@) == Some(r.unwrap()@),
    {
        match chrono_parse(s) {
            Some(day) => CalendarDate::from_days(day),
            None => None,
        }
    }

    /// Reads a date written as `YYYY-MM-DD`; a text that is no date gives the
    /// sentinel date.
    pub fn parse_or_sentinel(s: &str) -> (r: CalendarDate)
        ensures
            r@ == date_or_sentinel(s@),
    {
        match CalendarDate::parse(s) {
            Some(d) => d,
            None => CalendarDate::sentinel(),
        }
    }

    /// Writes the date as `YYYY-MM-DD`.
    pub fn to_text(&self) -> (r: String)
        ensures
            r@ == date_text(self@),
    {
        chrono_write(self.days())
    }

    /// The day of the week, from 0 for Monday to 6 for Sunday.
    pub fn weekday(&self) -> (r: u32)
        ensures
            r as int == weekday_of(self@),
            r < 7,
    {
        chrono_weekday(self.days())
    }

    /// The English name of the day of the week.
    pub fn weekday_name(&self) -> (r: String)
        ensures
            r@ == weekday_name_of(self@),
    {
        chrono_weekday_name(self.days())
    }

    /// Whether writing this date and reading the text gives the date back.
    pub fn reads_back(&self) -> (r: bool)
        ensures
            r == text_reads_back(self@),
    {
        let text = self.to_text();
        match CalendarDate::parse(text.as_str()) {
            Some(d) => d.days() == self.days(),
            None => false,
        }
    }
}

/// The date of a text, or the sentinel where the text is no date.
pub open spec fn date_or_sentinel(s: Seq<char>) -> int {
    match date_of_text(s) {
        Some(day) => day,
        None => SENTINEL_DAY as int,
    }
}

/// Whether the written form of the date with this day number reads as that
/// date.
pub open spec fn text_reads_back(day: int) -> bool {
    date_of_text(date_text(day)) == Some(day)
}

/// Whether `token` is the keyword `word`, whatever the case of its letters.
pub open spec fn is_keyword(token: Seq<char>, word: Seq<char>) -> bool {
    lower(token) == lower(word)
}

/// The day number that a due-date token resolves to on the day `today`.
///
/// Keywords come first: `today`, `tomorrow`, `thisweek` (today plus five days,
/// less the days that have passed since Monday, which on a Sunday lies in the
/// past) and `sometime` (the sentinel). Any other token is read as a date, and
/// gives the sentinel where it is none.
pub open spec fn resolve_spec(token: Seq<char>, today: int) -> int {
    if is_keyword(token, "today"@) {
        today
    } else if is_keyword(token, "tomorrow"@) {
        today + 1
    } else if is_keyword(token, "thisweek"@) {
        today + 5 - weekday_of(today)
    } else if is_keyword(token, "sometime"@) {
        SENTINEL_DAY as int
    } else {
        date_or_sentinel(token)
    }
}

/// The due-date token that a choice from the menu of due dates stands for:
/// `1` for today, `2` for tomorrow, `3` for this week, `4` for sometime. Any
/// other answer chooses nothing, and a date is asked for.
pub fn due_choice(choice: &str) -> (token: Option<&'static str>)
    ensures
        token.is_some() == (choice@ == "1"@ || choice@ == "2"@ || choice@ == "3"@ || choice@
            == "4"@),
        token.is_some() ==> token.unwrap()@ == if choice@ == "1"@ {
            "today"@
        } else if choice@ == "2"@ {
            "tomorrow"@
        } else if choice@ == "3"@ {
            "thisweek"@
        } else {
            "sometime"@
        },
{
    if same_text(choice, "1") {
        Some("today")
    } else if same_text(choice, "2") {
        Some("tomorrow")
    } else if same_text(choice, "3") {
        Some("thisweek")
    } else if same_text(choice, "4") {
        Some("sometime")
    } else {
        None
    }
}

/// Whether the days around `today` that a token can resolve to all lie in the
/// calendar.
pub open spec fn has_week(today: int) -> bool {
    MIN_DAY < today <= MAX_DAY - 5
}

/// The day number that `token` resolves to on the day `today`.
pub fn resolve_day_number(token: &str, today: CalendarDate) -> (r: i64)
    ensures
        r == resolve_spec(token@, today@),
        has_week(today@) ==> valid_day(r as int),
{
    let t: i64 = today.days() as i64;
    if eq_ignoring_case(token, "today") {
        t
    } else if eq_ignoring_case(token, "tomorrow") {
        t + 1
    } else if eq_ignoring_case(token, "thisweek") {
        t + 5 - (today.weekday() as i64)
    } else if eq_ignoring_case(token, "sometime") {
        SENTINEL_DAY as i64
    } else {
        CalendarDate::parse_or_sentinel(token).days() as i64
    }
}

/// Resolves a due-date token to a date, on the day `today`.
pub fn resolve(token: &str, today: CalendarDate) -> (r: CalendarDate)
    requires
        has_week(today@),
    ensures
        r@ == resolve_spec(token@, today@),
{
    let day = resolve_day_number(token, today);
    CalendarDate { day: day as i32 }
}

} // verus!
