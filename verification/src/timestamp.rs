//! A moment of local calendar time, to the minute.

use vstd::prelude::*;

verus! {

/// The earliest year that a timestamp can hold.
pub const MIN_YEAR: i32 = -262143;

/// The latest year that a timestamp can hold.
pub const MAX_YEAR: i32 = 262142;

/// Whether `year` of the proleptic Gregorian calendar has a 29th of February.
pub open spec fn is_leap_year(year: int) -> bool {
    year % 4 == 0 && (year % 100 != 0 || year % 400 == 0)
}

/// The number of days of the month `month` (1 to 12) in `year`.
pub open spec fn days_in_month(year: int, month: int) -> int {
    if month == 2 {
        if is_leap_year(year) {
            29
        } else {
            28
        }
    } else if month == 4 || month == 6 || month == 9 || month == 11 {
        30
    } else {
        31
    }
}

/// A date and a time of day on the local clock.
#[derive(Clone, Copy, Debug, PartialEq, Eq, Structural)]
pub struct Timestamp {
    pub year: i32,
    pub month: u32,
    pub day: u32,
    pub hour: u32,
    pub minute: u32,
}

impl Timestamp {
    /// The fields name a day of the calendar and a minute of that day.
    pub open spec fn valid(self) -> bool {
        &&& MIN_YEAR <= self.year <= MAX_YEAR
        &&& 1 <= self.month <= 12
        &&& 1 <= self.day <= days_in_month(self.year as int, self.month as int)
        &&& self.hour < 24
        &&& self.minute < 60
    }

    /// Both moments fall on one day.
    pub open spec fn same_day(self, other: Timestamp) -> bool {
        self.year == other.year && self.month == other.month && self.day == other.day
    }
}

/// Whether `year` has a 29th of February.
pub fn has_leap_day(year: i32) -> (leap: bool)
    requires
        MIN_YEAR <= year <= MAX_YEAR,
    ensures
        leap == is_leap_year(year as int),
{
    // 262400 is a multiple of 400 that lifts every year above zero.
    let lifted: i64 = year as i64 + 262400;
    lifted % 4 == 0 && (lifted % 100 != 0 || lifted % 400 == 0)
}

/// The number of days of the month `month` in `year`.
pub fn month_length(year: i32, month: u32) -> (days: u32)
    requires
        MIN_YEAR <= year <= MAX_YEAR,
        1 <= month <= 12,
    ensures
        days == days_in_month(year as int, month as int),
{
    if month == 2 {
        if has_leap_day(year) {
            29
        } else {
            28
        }
    } else if month == 4 || month == 6 || month == 9 || month == 11 {
        30
    } else {
        31
    }
}

impl Timestamp {
    /// The moment with the given fields, or `None` where they name no day of
    /// the calendar or no minute of the day.
    pub fn new(year: i32, month: u32, day: u32, hour: u32, minute: u32) -> (moment: Option<
        Timestamp,
    >)
        ensures
            moment is Some <==> (Timestamp { year, month, day, hour, minute }).valid(),
            moment is Some ==> moment->0 == (Timestamp { year, month, day, hour, minute }),
    {
        let moment = Timestamp { year, month, day, hour, minute };
        if moment.is_valid() {
            Some(moment)
        } else {
            None
        }
    }

    /// Whether the fields name a day of the calendar and a minute of that day.
    pub fn is_valid(&self) -> (ok: bool)
        ensures
            ok == self.valid(),
    {
        if self.year < MIN_YEAR || self.year > MAX_YEAR {
            return false;
        }
        if self.month < 1 || self.month > 12 {
            return false;
        }
        self.day >= 1 && self.day <= month_length(self.year, self.month) && self.hour < 24
            && self.minute < 60
    }
}

/// How a moment is written.
#[derive(Clone, Copy, Debug, PartialEq, Eq, Structural)]
pub enum DateStyle {
    /// The time of day: hour and minute.
    TimeOfDay,
    /// The day of the month and the month.
    DayAndMonth,
    /// The day of the month, the month and the year.
    FullDate,
}

impl DateStyle {
    /// The style in which the moment `moment` is written at the moment `now`:
    /// the time of day for a moment of today, day and month for another day
    /// of this year, and the year with them for any other.
    pub open spec fn of(moment: Timestamp, now: Timestamp) -> DateStyle {
        if moment.same_day(now) {
            DateStyle::TimeOfDay
        } else if moment.year == now.year {
            DateStyle::DayAndMonth
        } else {
            DateStyle::FullDate
        }
    }

    /// The pattern of the style, in the notation of `strftime`.
    pub open spec fn pattern(self) -> Seq<char> {
        match self {
            DateStyle::TimeOfDay => "%H:%M"@,
            DateStyle::DayAndMonth => "%d %b"@,
            DateStyle::FullDate => "%d %b %Y"@,
        }
    }

    /// Picks the style in which `moment` is written at the moment `now`.
    pub fn choose_for(moment: &Timestamp, now: &Timestamp) -> (style: DateStyle)
        ensures
            style == DateStyle::of(*moment, *now),
    {
        if moment.year == now.year && moment.month == now.month && moment.day == now.day {
            DateStyle::TimeOfDay
        } else if moment.year == now.year {
            DateStyle::DayAndMonth
        } else {
            DateStyle::FullDate
        }
    }

    /// The pattern of the style.
    pub fn as_pattern(self) -> (pattern: &'static str)
        ensures
            pattern@ == self.pattern(),
    {
        match self {
            DateStyle::TimeOfDay => "%H:%M",
            DateStyle::DayAndMonth => "%d %b",
            DateStyle::FullDate => "%d %b %Y",
        }
    }
}

/// The pattern is one of the three that the styles use.
pub open spec fn is_known_pattern(pattern: Seq<char>) -> bool {
    pattern == DateStyle::TimeOfDay.pattern() || pattern == DateStyle::DayAndMonth.pattern()
        || pattern == DateStyle::FullDate.pattern()
}

/// The text that chrono writes for the moment `moment` under the pattern
/// `pattern`.
pub uninterp spec fn chrono_text(moment: Timestamp, pattern: Seq<char>) -> Seq<char>;

/// `chrono::NaiveDateTime::format`, on the date and time that chrono makes of
/// the fields of `moment` (`NaiveDate::from_ymd_opt`, `NaiveDate::and_hms_opt`
/// with zero seconds), written out as a `String`. The text depends on the
/// moment and the pattern alone. A moment that is not valid, or a pattern that
/// chrono cannot read, would make the call panic: both are left out.
#[verifier::external_body]
fn format_moment(moment: &Timestamp, pattern: &str) -> (text: String)
    requires
        moment.valid(),
        is_known_pattern(pattern@),
    ensures
        text@ == chrono_text(*moment, pattern@),
{
    let date = chrono::NaiveDate::from_ymd_opt(moment.year, moment.month, moment.day).unwrap();
    let at = date.and_hms_opt(moment.hour, moment.minute, 0).unwrap();
    at.format(pattern).to_string()
}

/// `chrono::Local::now`, read to the minute through the getters of
/// `chrono::Datelike` and `chrono::Timelike`. The moment differs from call to
/// call, and nothing is claimed of it.
#[verifier::external_body]
fn local_now() -> Timestamp {
    let now = chrono::Local::now();
    Timestamp {
        year: chrono::Datelike::year(&now),
        month: chrono::Datelike::month(&now),
        day: chrono::Datelike::day(&now),
        hour: chrono::Timelike::hour(&now),
        minute: chrono::Timelike::minute(&now),
    }
}

impl Timestamp {
    /// The text of this moment in the style `style`.
    pub open spec fn text_in(self, style: DateStyle) -> Seq<char> {
        chrono_text(self, style.pattern())
    }

    /// The text of this moment as it is written at the moment `now`.
    pub open spec fn text_at(self, now: Timestamp) -> Seq<char> {
        self.text_in(DateStyle::of(self, now))
    }

    /// The text is this moment in one of the three styles.
    pub open spec fn is_written_as(self, text: Seq<char>) -> bool {
        text == self.text_in(DateStyle::TimeOfDay) || text == self.text_in(DateStyle::DayAndMonth)
            || text == self.text_in(DateStyle::FullDate)
    }

    /// Writes this moment as it is written at the moment `now`: in the style
    /// that [`DateStyle::of`] picks.
    pub fn format_at(&self, now: &Timestamp) -> (text: String)
        requires
            self.valid(),
        ensures
            text@ == self.text_at(*now),
    {
        let style = DateStyle::choose_for(self, now);
        format_moment(self, style.as_pattern())
    }

    /// Writes this moment as it is written now, by the local clock: in the
    /// style that the present moment picks, whichever it is.
    pub fn format_now(&self) -> (text: String)
        requires
            self.valid(),
        ensures
            self.is_written_as(text@),
    {
        let now = local_now();
        self.format_at(&now)
    }
}

} // verus!
