//! Calendar dates and times of day as plain numbers, with `chrono` behind them.

use chrono::{DateTime, Datelike, FixedOffset, NaiveDate, NaiveTime, TimeZone, Timelike, Utc};
use vstd::prelude::*;

use crate::text::{decimal, digit, is_digit};

verus! {

/// The first year that `chrono` can represent.
pub const FIRST_YEAR: i32 = -262143;

/// The last year that `chrono` can represent.
pub const LAST_YEAR: i32 = 262142;

/// The first moment that `chrono` can represent, in seconds since the start of 1970 in UTC.
pub const FIRST_MOMENT: i64 = -8334601228800;

/// The last whole second that `chrono` can represent, in seconds since the start of 1970 in
/// UTC.
pub const LAST_MOMENT: i64 = 8210266876799;

/// A day of the proleptic Gregorian calendar.
#[derive(Clone, Copy, Debug, PartialEq, Eq, Structural)]
pub struct Date {
    pub year: i32,
    pub month: u32,
    pub day: u32,
}

/// A time of day: whole seconds since midnight, and the nanoseconds within the second.
/// A leap second is the last second of its minute with a second of nanoseconds on top.
#[derive(Clone, Copy, Debug, PartialEq, Eq, Structural)]
pub struct TimeOfDay {
    pub seconds: u32,
    pub nanos: u32,
}

/// Whether the year has a 29th of February.
pub open spec fn is_leap_year(year: int) -> bool {
    year % 4 == 0 && (year % 100 != 0 || year % 400 == 0)
}

/// How many days the month has.
pub open spec fn days_in_month(year: int, month: int) -> int {
    if month == 2 {
        if is_leap_year(year) {
            29
        } else {
            28
        }
    } else if month == 4 || month == 6 || month == 9 || month == 11 {
        30
    } else {
        31
    }
}

/// Whether the year is within what `chrono` can represent.
pub open spec fn is_supported_year(year: int) -> bool {
    FIRST_YEAR <= year <= LAST_YEAR
}

impl Date {
    /// Whether the numbers are those of a day that exists.
    pub open spec fn valid(self) -> bool {
        &&& is_supported_year(self.year as int)
        &&& 1 <= self.month <= 12
        &&& 1 <= self.day <= days_in_month(self.year as int, self.month as int)
    }

    /// Whether this day comes before the other one, or is the same.
    pub open spec fn not_after(self, other: Date) -> bool {
        ||| self.year < other.year
        ||| self.year == other.year && self.month < other.month
        ||| self.year == other.year && self.month == other.month && self.day <= other.day
    }
}

impl TimeOfDay {
    /// Whether the numbers are those of a time that exists.
    pub open spec fn valid(self) -> bool {
        &&& self.seconds < 86_400
        &&& self.nanos < 2_000_000_000
        &&& self.nanos >= 1_000_000_000 ==> self.seconds % 60 == 59
    }

    /// What a clock shows in its place for seconds: 60 within a leap second.
    pub open spec fn shown_second(self) -> int {
        self.seconds % 60 + self.nanos / 1_000_000_000
    }
}

/// A number below a hundred as two digits.
pub open spec fn two_digits(number: int) -> Seq<char> {
    seq![digit(number / 10), digit(number % 10)]
}

/// A number as four digits, or as many as it needs if four are too few.
pub open spec fn four_digits(number: int) -> Seq<char> {
    if number < 10_000 {
        two_digits(number / 100) + two_digits(number % 100)
    } else {
        decimal(number as nat)
    }
}

/// The year in ISO 8601: four digits, with a sign where four digits do not hold it.
pub open spec fn year_text(year: int) -> Seq<char> {
    if year < 0 {
        seq!['-'] + four_digits(-year)
    } else if year < 10_000 {
        four_digits(year)
    } else {
        seq!['+'] + four_digits(year)
    }
}

/// The date as in `2026-09-01`.
pub open spec fn iso_date(date: Date) -> Seq<char> {
    year_text(date.year as int) + seq!['-'] + two_digits(date.month as int) + seq!['-']
        + two_digits(date.day as int)
}

/// The date and time as in `20260901T090000`.
pub open spec fn basic_date_time(date: Date, time: TimeOfDay) -> Seq<char> {
    year_text(date.year as int) + two_digits(date.month as int) + two_digits(date.day as int)
        + seq!['T'] + two_digits(time.seconds as int / 3600) + two_digits(
        time.seconds as int / 60 % 60,
    ) + two_digits(time.shown_second())
}

/// The date that `chrono::NaiveDate::parse_from_str` reads from a text in a format.
pub uninterp spec fn date_from_str(text: Seq<char>, format: Seq<char>) -> Option<Date>;

/// The time that `chrono::NaiveTime::parse_from_str` reads from a text in a format.
pub uninterp spec fn time_from_str(text: Seq<char>, format: Seq<char>) -> Option<TimeOfDay>;

/// Whether two digits stand in the text at the position.
pub open spec fn has_two_digits(text: Seq<char>, at: int) -> bool {
    is_digit(text[at]) && is_digit(text[at + 1])
}

/// The number that the two digits at the position stand for.
pub open spec fn two_digits_at(text: Seq<char>, at: int) -> int {
    (text[at] as int - 48) * 10 + (text[at + 1] as int - 48)
}

/// Whether the text is written as in `2026-09-01`, with digits in all places.
pub open spec fn is_date_text(text: Seq<char>) -> bool {
    &&& text.len() == 10
    &&& has_two_digits(text, 0)
    &&& has_two_digits(text, 2)
    &&& text[4] == '-'
    &&& has_two_digits(text, 5)
    &&& text[7] == '-'
    &&& has_two_digits(text, 8)
}

/// The day that a text as in `2026-09-01` stands for, if there is such a day.
pub open spec fn plain_date(text: Seq<char>) -> Option<Date> {
    let date = Date {
        year: (two_digits_at(text, 0) * 100 + two_digits_at(text, 2)) as i32,
        month: two_digits_at(text, 5) as u32,
        day: two_digits_at(text, 8) as u32,
    };
    if date.valid() {
        Some(date)
    } else {
        None
    }
}

/// Whether the text is written as in `09:05`, with digits in all places.
pub open spec fn is_minute_text(text: Seq<char>) -> bool {
    text.len() == 5 && has_two_digits(text, 0) && text[2] == ':' && has_two_digits(text, 3)
}

/// Whether the text is written as in `09:05:00`, with digits in all places.
pub open spec fn is_second_text(text: Seq<char>) -> bool {
    &&& text.len() == 8
    &&& has_two_digits(text, 0)
    &&& text[2] == ':'
    &&& has_two_digits(text, 3)
    &&& text[5] == ':'
    &&& has_two_digits(text, 6)
}

/// The time that a clock shows as hour, minute and second, if it can show that. The second
/// sixty is a leap second.
pub open spec fn shown_time(hour: int, minute: int, second: int) -> Option<TimeOfDay> {
    if hour >= 24 || minute >= 60 || second > 60 {
        None
    } else if second == 60 {
        Some(
            TimeOfDay {
                seconds: (hour * 3600 + minute * 60 + 59) as u32,
                nanos: 1_000_000_000,
            },
        )
    } else {
        Some(TimeOfDay { seconds: (hour * 3600 + minute * 60 + second) as u32, nanos: 0 })
    }
}

/// The time that a text as in `09:05` or `09:05:00` stands for in a format: one without
/// seconds reads only the first, one with seconds only the second.
pub open spec fn plain_time(text: Seq<char>, format: Seq<char>) -> Option<TimeOfDay> {
    if is_minute_text(text) && format == "%H:%M"@ {
        shown_time(two_digits_at(text, 0), two_digits_at(text, 3), 0)
    } else if is_second_text(text) && format == "%H:%M:%S"@ {
        shown_time(two_digits_at(text, 0), two_digits_at(text, 3), two_digits_at(text, 6))
    } else {
        None
    }
}

/// The day that a text stands for, written as year, month and day with hyphens between them.
pub open spec fn date_read(text: Seq<char>) -> Option<Date> {
    if is_date_text(text) {
        plain_date(text)
    } else {
        match date_from_str(text, "%Y-%m-%d"@) {
            Some(date) if date.valid() => Some(date),
            _ => None,
        }
    }
}

/// The time of day that a text stands for in one of the two formats, with seconds or without.
pub open spec fn time_read(text: Seq<char>, format: Seq<char>) -> Option<TimeOfDay> {
    if is_minute_text(text) || is_second_text(text) {
        plain_time(text, format)
    } else {
        match time_from_str(text, format) {
            Some(time) if time.valid() => Some(time),
            _ => None,
        }
    }
}

/// Calls `chrono::NaiveDate::parse_from_str` with the one format that is asked for: year,
/// month and day with hyphens between them. The claims are that the two texts alone decide,
/// that a date comes out as numbers of a day that exists, and that a text with two digits in
/// each place, four for the year, is read as the day that it says. Which other texts are
/// accepted is left to `chrono`.
#[verifier::external_body]
pub(crate) fn parse_date(text: &str, format: &str) -> (date: Option<Date>)
    requires
        format@ == "%Y-%m-%d"@,
    ensures
        date == date_from_str(text@, format@),
        date is Some ==> date->0.valid(),
        is_date_text(text@) ==> date == plain_date(text@),
{
    let parsed = NaiveDate::parse_from_str(text, format).ok()?;
    Some(Date { year: parsed.year(), month: parsed.month(), day: parsed.day() })
}

/// Calls `chrono::NaiveTime::parse_from_str` with one of the two formats that are asked for:
/// hour and minute, or hour, minute and second, with colons between them. The claims are
/// that the two texts alone decide, that a time comes out as numbers of a time that exists,
/// and that a text with two digits in each place is read as the time that it says, by the
/// format that has as many places. Which other texts are accepted is left to `chrono`.
#[verifier::external_body]
pub(crate) fn parse_time_of_day(text: &str, format: &str) -> (time: Option<TimeOfDay>)
    requires
        format@ == "%H:%M"@ || format@ == "%H:%M:%S"@,
    ensures
        time == time_from_str(text@, format@),
        time is Some ==> time->0.valid(),
        is_minute_text(text@) || is_second_text(text@) ==> time == plain_time(text@, format@),
{
    let parsed = NaiveTime::parse_from_str(text, format).ok()?;
    Some(
        TimeOfDay { seconds: parsed.num_seconds_from_midnight(), nanos: parsed.nanosecond() },
    )
}

/// Calls `chrono::NaiveDate::format`. The one format that is asked for writes the date as
/// year, month and day with hyphens between them.
#[verifier::external_body]
pub(crate) fn format_date(date: Date, format: &str) -> (text: String)
    requires
        date.valid(),
        format@ == "%Y-%m-%d"@,
    ensures
        text@ == iso_date(date),
{
    NaiveDate::from_ymd_opt(date.year, date.month, date.day).unwrap().format(format).to_string()
}

/// Calls the `Display` of `chrono::NaiveDate`, which writes the date as year, month and day
/// with hyphens between them.
#[verifier::external_body]
pub(crate) fn display_date(date: Date) -> (text: String)
    requires
        date.valid(),
    ensures
        text@ == iso_date(date),
{
    NaiveDate::from_ymd_opt(date.year, date.month, date.day).unwrap().to_string()
}

/// Calls `chrono::NaiveDateTime::format`. The one format that is asked for writes date and
/// time as bare digits with a `T` between them.
#[verifier::external_body]
pub(crate) fn format_date_time(date: Date, time: TimeOfDay, format: &str) -> (text: String)
    requires
        date.valid(),
        time.valid(),
        format@ == "%Y%m%dT%H%M%S"@,
    ensures
        text@ == basic_date_time(date, time),
{
    let day = NaiveDate::from_ymd_opt(date.year, date.month, date.day).unwrap();
    let clock =
        NaiveTime::from_num_seconds_from_midnight_opt(time.seconds, time.nanos).unwrap();
    day.and_time(clock).format(format).to_string()
}

/// How many days lie between the start of the year 1 and the start of the year.
pub open spec fn days_before_year(year: int) -> int {
    365 * (year - 1) + (year - 1) / 4 - (year - 1) / 100 + (year - 1) / 400
}

/// How many days of the year lie before the month.
pub open spec fn days_before_month(year: int, month: int) -> int {
    seq![0int, 31, 59, 90, 120, 151, 181, 212, 243, 273, 304, 334][month - 1] + if month > 2
        && is_leap_year(year) {
        1int
    } else {
        0
    }
}

/// How many days lie between the first day of 1970 and the day.
pub open spec fn day_number(date: Date) -> int {
    days_before_year(date.year as int) + days_before_month(date.year as int, date.month as int)
        + date.day - 1 - days_before_year(1970)
}

/// Whether it is that day when so many seconds have passed since 1970 began, by the same
/// clock.
pub open spec fn is_day_at(date: Date, seconds: int) -> bool {
    day_number(date) * 86_400 <= seconds < (day_number(date) + 1) * 86_400
}

/// Whether the moment is one that `chrono` can represent.
pub open spec fn is_moment(moment: int) -> bool {
    FIRST_MOMENT <= moment <= LAST_MOMENT
}

/// Days have their numbers in the order in which they come.
pub proof fn law_days_are_numbered_in_order(date: Date, other: Date)
    requires
        date.valid(),
        other.valid(),
    ensures
        day_number(date) <= day_number(other) <==> date.not_after(other),
{
    if date != other {
        if date.not_after(other) {
            lemma_earlier_day(date, other);
        } else {
            lemma_earlier_day(other, date);
        }
    }
}

/// A day that comes before another one has a smaller number.
proof fn lemma_earlier_day(date: Date, other: Date)
    requires
        date.valid(),
        other.valid(),
        date.not_after(other),
        date != other,
    ensures
        day_number(date) < day_number(other),
{
}

/// There is only one day at a time.
pub proof fn law_one_day_at_a_time(date: Date, other: Date, seconds: int)
    requires
        date.valid(),
        other.valid(),
        is_day_at(date, seconds),
        is_day_at(other, seconds),
    ensures
        date == other,
{
    law_days_are_numbered_in_order(date, other);
    law_days_are_numbered_in_order(other, date);
}

/// Whether the text is the moment in UTC as in `20260901T060000Z`.
pub open spec fn is_stamp_of(text: Seq<char>, moment: int) -> bool {
    exists|date: Date|
        date.valid() && is_day_at(date, moment) && text == #[trigger] basic_date_time(
            date,
            TimeOfDay { seconds: (moment - day_number(date) * 86_400) as u32, nanos: 0 },
        ) + seq!['Z']
}

/// Whether the text is some moment in UTC as in `20260901T060000Z`.
pub open spec fn is_utc_stamp(text: Seq<char>) -> bool {
    exists|moment: int| is_moment(moment) && #[trigger] is_stamp_of(text, moment)
}

/// A moment has only one stamp.
pub proof fn law_moment_has_one_stamp(text: Seq<char>, other: Seq<char>, moment: int)
    requires
        is_stamp_of(text, moment),
        is_stamp_of(other, moment),
    ensures
        text == other,
{
    let date = choose|date: Date|
        date.valid() && is_day_at(date, moment) && text == #[trigger] basic_date_time(
            date,
            TimeOfDay { seconds: (moment - day_number(date) * 86_400) as u32, nanos: 0 },
        ) + seq!['Z'];
    let same = choose|date: Date|
        date.valid() && is_day_at(date, moment) && other == #[trigger] basic_date_time(
            date,
            TimeOfDay { seconds: (moment - day_number(date) * 86_400) as u32, nanos: 0 },
        ) + seq!['Z'];
    law_one_day_at_a_time(date, same, moment);
}

/// Calls `chrono::Utc::now` and takes its seconds since 1970 began. The moment is the
/// machine's to choose; the claim is that `chrono` can represent it. A clock that is set to
/// a time before 1970, or beyond the years that `chrono` can represent, makes `chrono` panic.
#[verifier::external_body]
pub(crate) fn utc_now() -> (moment: i64)
    ensures
        is_moment(moment as int),
{
    Utc::now().timestamp()
}

/// Calls `chrono::DateTime::format` on the moment in UTC. The one format that is asked for
/// writes date and time as bare digits, with a `T` between them and a `Z` behind.
#[verifier::external_body]
pub(crate) fn format_moment(moment: i64, format: &str) -> (text: String)
    requires
        is_moment(moment as int),
        format@ == "%Y%m%dT%H%M%SZ"@,
    ensures
        is_stamp_of(text@, moment as int),
{
    DateTime::from_timestamp(moment, 0).unwrap().format(format).to_string()
}

/// Calls `chrono::DateTime::with_timezone` on the moment, with the distance, in seconds, east
/// of Greenwich, and takes the date there. The claims are that there is one exactly where
/// `chrono::FixedOffset::east_opt` accepts the distance, and that it is the day that the
/// shifted clock shows. Moments that the shift takes out of what `chrono` can represent are
/// left out.
#[verifier::external_body]
pub(crate) fn date_east_of_utc(moment: i64, seconds: i32) -> (date: Option<Date>)
    requires
        is_moment(moment as int),
        is_moment(moment + seconds),
    ensures
        date is Some <==> -86_400 < seconds < 86_400,
        date is Some ==> date->0.valid() && is_day_at(date->0, moment + seconds),
{
    let zone = FixedOffset::east_opt(seconds)?;
    let local = DateTime::from_timestamp(moment, 0).unwrap().with_timezone(&zone);
    let today = local.date_naive();
    Some(Date { year: today.year(), month: today.month(), day: today.day() })
}

/// Calls `chrono::TimeZone::with_ymd_and_hms` for midnight of the day, at the given
/// distance, in seconds, east of Greenwich, and takes the date of it. The months next to the
/// ends of the supported years are left out: there the shift to UTC can leave the range.
#[verifier::external_body]
pub(crate) fn midnight_east_of_utc(seconds: i32, day: Date) -> (date: Option<Date>)
    requires
        -86_400 < seconds < 86_400,
        1 < day.month < 12,
    ensures
        date == if day.valid() {
            Some(day)
        } else {
            None
        },
{
    let zone = FixedOffset::east_opt(seconds)?;
    let midnight = zone.with_ymd_and_hms(day.year, day.month, day.day, 0, 0, 0).single()?;
    let date = midnight.date_naive();
    Some(Date { year: date.year(), month: date.month(), day: date.day() })
}

} // verus!
