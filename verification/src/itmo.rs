//! The schedule as the ITMO API gives it, and the rules for asking for it.

use vstd::prelude::*;

use crate::dates::{
    date_east_of_utc, day_number, format_date, is_day_at, is_moment, is_supported_year, iso_date,
    law_days_are_numbered_in_order, law_one_day_at_a_time, midnight_east_of_utc, utc_now, Date,
    LAST_MOMENT,
};
use crate::error::{any_error, AnyError};
use crate::text::{decimal, decimal_text, glued, join, joined, trim, trimmed};
use crate::web::{
    add_pair, is_status, is_success, pairs_view, status_display, status_error, succeeded,
};

verus! {

/// One day of the schedule.
#[derive(Debug)]
pub struct ScheduleDay {
    pub date: String,
    pub lessons: Vec<Lesson>,
}

/// One lesson of a day.
#[derive(Debug)]
pub struct Lesson {
    pub id: Option<String>,
    pub subject: String,
    pub lesson_type: Option<String>,
    pub time_start: String,
    pub time_end: String,
    pub building: Option<String>,
    pub room: Option<String>,
    pub teacher_name: Option<String>,
    pub group: Option<String>,
    pub note: Option<String>,
}

/// A day of the schedule, with every text taken by its characters.
pub struct ScheduleDayView {
    pub date: Seq<char>,
    pub lessons: Seq<LessonView>,
}

/// A lesson, with every text taken by its characters.
pub struct LessonView {
    pub id: Option<Seq<char>>,
    pub subject: Seq<char>,
    pub lesson_type: Option<Seq<char>>,
    pub time_start: Seq<char>,
    pub time_end: Seq<char>,
    pub building: Option<Seq<char>>,
    pub room: Option<Seq<char>>,
    pub teacher_name: Option<Seq<char>>,
    pub group: Option<Seq<char>>,
    pub note: Option<Seq<char>>,
}

impl View for ScheduleDay {
    type V = ScheduleDayView;

    open spec fn view(&self) -> ScheduleDayView {
        ScheduleDayView { date: self.date@, lessons: self.lessons.deep_view() }
    }
}

impl DeepView for ScheduleDay {
    type V = ScheduleDayView;

    open spec fn deep_view(&self) -> ScheduleDayView {
        self@
    }
}

impl View for Lesson {
    type V = LessonView;

    open spec fn view(&self) -> LessonView {
        LessonView {
            id: self.id.deep_view(),
            subject: self.subject@,
            lesson_type: self.lesson_type.deep_view(),
            time_start: self.time_start@,
            time_end: self.time_end@,
            building: self.building.deep_view(),
            room: self.room.deep_view(),
            teacher_name: self.teacher_name.deep_view(),
            group: self.group.deep_view(),
            note: self.note.deep_view(),
        }
    }
}

impl DeepView for Lesson {
    type V = LessonView;

    open spec fn deep_view(&self) -> LessonView {
        self@
    }
}

/// A JSON value, as far as the schedule needs it: a number by its text, and of an object
/// only that it is one.
#[derive(Debug)]
pub enum JsonValue {
    Null,
    Bool(bool),
    Number(String),
    Text(String),
    Array(Vec<JsonValue>),
    Object,
}

/// The text without the white space around it, if there is anything else.
pub open spec fn non_empty_text(text: Seq<char>) -> Option<Seq<char>> {
    if trimmed(text).len() > 0 {
        Some(trimmed(text))
    } else {
        None
    }
}

/// What a JSON value says, if it says anything.
pub open spec fn value_text(value: JsonValue) -> Option<Seq<char>>
    decreases value,
{
    match value {
        JsonValue::Null => None,
        JsonValue::Bool(true) => Some("true"@),
        JsonValue::Bool(false) => Some("false"@),
        JsonValue::Number(text) => Some(text@),
        JsonValue::Text(text) => non_empty_text(text@),
        JsonValue::Array(values) => non_empty_text(joined(value_texts(values@), ", "@)),
        JsonValue::Object => None,
    }
}

/// What the values say, in order, without those that say nothing.
pub open spec fn value_texts(values: Seq<JsonValue>) -> Seq<Seq<char>>
    decreases values,
{
    if values.len() == 0 {
        Seq::empty()
    } else {
        match value_text(values.last()) {
            Some(text) => value_texts(values.drop_last()).push(text),
            None => value_texts(values.drop_last()),
        }
    }
}

/// What a value says, where there may be none.
pub open spec fn optional_value_text(value: Option<JsonValue>) -> Option<Seq<char>> {
    match value {
        Some(value) => value_text(value),
        None => None,
    }
}

/// The text without the white space around it, if there is anything else.
pub fn non_empty(value: String) -> (text: Option<String>)
    ensures
        text.deep_view() == non_empty_text(value@),
{
    let text = trim(value.as_str());
    if text.as_str().is_empty() {
        None
    } else {
        Some(text)
    }
}

/// What a JSON value says, if it says anything.
fn shown_value(value: &JsonValue) -> (text: Option<String>)
    ensures
        text.deep_view() == value_text(*value),
    decreases value,
{
    match value {
        JsonValue::Null => None,
        JsonValue::Bool(flag) => if *flag {
            Some("true".to_owned())
        } else {
            Some("false".to_owned())
        },
        JsonValue::Number(text) => Some(text.clone()),
        JsonValue::Text(text) => non_empty(text.clone()),
        JsonValue::Array(values) => {
            let mut parts: Vec<String> = Vec::new();
            for i in 0..values.len()
                invariant
                    value == JsonValue::Array(*values),
                    parts.deep_view() == value_texts(values@.take(i as int)),
            {
                let ghost before = parts.deep_view();
                proof {
                    assert(values@.take(i + 1).drop_last() == values@.take(i as int));
                    assert(values@.take(i + 1).last() == values@[i as int]);
                    assert(decreases_to!(value => value->Array_0));
                    assert(decreases_to!(values => values@));
                    assert(decreases_to!(values@ => values@[i as int]));
                }
                if let Some(part) = shown_value(&values[i]) {
                    parts.push(part);
                    assert(parts.deep_view() == before.push(part@));
                }
            }
            assert(values@.take(values.len() as int) == values@);
            non_empty(join(&parts, ", "))
        },
        JsonValue::Object => None,
    }
}

/// What a JSON value says, if there is one and it says anything.
pub fn value_to_string(value: Option<JsonValue>) -> (text: Option<String>)
    ensures
        text.deep_view() == optional_value_text(value),
{
    match value {
        Some(value) => shown_value(&value),
        None => None,
    }
}

/// A field of the schedule that may say nothing.
pub fn optional_string(value: Option<JsonValue>) -> (text: Option<String>)
    ensures
        text.deep_view() == optional_value_text(value),
{
    value_to_string(value)
}

/// A field of the schedule that is empty where the API says nothing.
pub open spec fn string_value_text(value: Option<JsonValue>) -> Seq<char> {
    match optional_value_text(value) {
        Some(text) => text,
        None => Seq::empty(),
    }
}

/// A field of the schedule that is empty where the API says nothing.
pub fn string_value(value: Option<JsonValue>) -> (text: String)
    ensures
        text@ == string_value_text(value),
{
    match value_to_string(value) {
        Some(text) => text,
        None => String::new(),
    }
}

/// A day as the API gives it: a field that is missing has no value.
#[derive(Debug)]
pub struct ScheduleDayValues {
    pub date: Option<JsonValue>,
    pub lessons: Vec<LessonValues>,
}

/// A lesson as the API gives it: a field that is missing has no value.
#[derive(Debug)]
pub struct LessonValues {
    pub id: Option<JsonValue>,
    pub subject: Option<JsonValue>,
    pub lesson_type: Option<JsonValue>,
    pub time_start: Option<JsonValue>,
    pub time_end: Option<JsonValue>,
    pub building: Option<JsonValue>,
    pub room: Option<JsonValue>,
    pub teacher_name: Option<JsonValue>,
    pub group: Option<JsonValue>,
    pub note: Option<JsonValue>,
}

/// The lesson that the values of its fields make.
pub open spec fn lesson_from(values: LessonValues) -> LessonView {
    LessonView {
        id: optional_value_text(values.id),
        subject: string_value_text(values.subject),
        lesson_type: optional_value_text(values.lesson_type),
        time_start: string_value_text(values.time_start),
        time_end: string_value_text(values.time_end),
        building: optional_value_text(values.building),
        room: optional_value_text(values.room),
        teacher_name: optional_value_text(values.teacher_name),
        group: optional_value_text(values.group),
        note: optional_value_text(values.note),
    }
}

/// The day that the values of its fields make.
pub open spec fn day_from(values: ScheduleDayValues) -> ScheduleDayView {
    ScheduleDayView {
        date: string_value_text(values.date),
        lessons: values.lessons@.map_values(|lesson: LessonValues| lesson_from(lesson)),
    }
}

impl Lesson {
    /// Makes a lesson of the values of its fields.
    pub fn from_values(values: LessonValues) -> (lesson: Lesson)
        ensures
            lesson@ == lesson_from(values),
    {
        Lesson {
            id: optional_string(values.id),
            subject: string_value(values.subject),
            lesson_type: optional_string(values.lesson_type),
            time_start: string_value(values.time_start),
            time_end: string_value(values.time_end),
            building: optional_string(values.building),
            room: optional_string(values.room),
            teacher_name: optional_string(values.teacher_name),
            group: optional_string(values.group),
            note: optional_string(values.note),
        }
    }
}

impl ScheduleDay {
    /// Makes a day of the values of its fields.
    pub fn from_values(values: ScheduleDayValues) -> (day: ScheduleDay)
        ensures
            day@ == day_from(values),
    {
        let date = string_value(values.date);
        let mut lessons: Vec<Lesson> = Vec::new();
        let ghost given = values.lessons@;
        for lesson in it: values.lessons
            invariant
                it.seq() == given,
                lessons.deep_view() == given.take(it.index() as int).map_values(
                    |lesson: LessonValues| lesson_from(lesson),
                ),
        {
            let made = Lesson::from_values(lesson);
            let ghost before = lessons.deep_view();
            lessons.push(made);
            proof {
                assert(lessons.deep_view() == before.push(made@));
                assert(lessons.deep_view() == given.take(it.index() + 1).map_values(
                    |lesson: LessonValues| lesson_from(lesson),
                ));
            }
        }
        assert(given.take(given.len() as int) == given);
        ScheduleDay { date, lessons }
    }
}

/// How far Moscow is east of Greenwich, in seconds.
pub const MOSCOW_OFFSET: i32 = 10_800;

/// Where the schedule is asked for.
pub const SCHEDULE_URL: &'static str = "https://my.itmo.ru/api/schedule/schedule/personal";

/// The year in which the academic year of the day began.
pub open spec fn start_year(today: Date) -> int {
    if today.month >= 8 {
        today.year as int
    } else {
        today.year - 1
    }
}

/// The first and the last day of the academic year of the day.
pub open spec fn academic_year(today: Date) -> Result<(Date, Date), Seq<char>> {
    if !is_supported_year(start_year(today)) {
        Err("cannot calculate academic year start"@)
    } else if !is_supported_year(start_year(today) + 1) {
        Err("cannot calculate academic year end"@)
    } else {
        Ok(
            (
                Date { year: start_year(today) as i32, month: 8, day: 1 },
                Date { year: (start_year(today) + 1) as i32, month: 7, day: 31 },
            ),
        )
    }
}

/// What asking for an academic year gave.
pub open spec fn range_outcome(range: Result<(Date, Date), AnyError>) -> Result<
    (Date, Date),
    Seq<char>,
> {
    match range {
        Ok(range) => Ok(range),
        Err(error) => Err(error@),
    }
}

/// The first and the last day of the academic year of the day.
pub fn academic_year_of(today: Date) -> (range: Result<(Date, Date), AnyError>)
    requires
        today.valid(),
    ensures
        range_outcome(range) == academic_year(today),
{
    let start_year: i32 = if today.month >= 8 {
        today.year
    } else {
        today.year - 1
    };
    let first = Date { year: start_year, month: 8, day: 1 };
    let last = Date { year: start_year + 1, month: 7, day: 31 };
    match midnight_east_of_utc(MOSCOW_OFFSET, first) {
        None => Err(any_error("cannot calculate academic year start")),
        Some(start) => match midnight_east_of_utc(MOSCOW_OFFSET, last) {
            None => Err(any_error("cannot calculate academic year end")),
            Some(end) => Ok((start, end)),
        },
    }
}

/// Whether that is the academic year at the moment, by the clock in Moscow.
pub open spec fn is_year_at(moment: int, range: Result<(Date, Date), Seq<char>>) -> bool {
    exists|today: Date|
        today.valid() && is_day_at(today, moment + MOSCOW_OFFSET) && #[trigger] academic_year(today)
            == range
}

/// The first and the last day of the academic year at the moment, in seconds since 1970 began
/// in UTC, by the clock in Moscow.
pub fn academic_year_at(moment: i64) -> (range: Result<(Date, Date), AnyError>)
    requires
        is_moment(moment as int),
        is_moment(moment + MOSCOW_OFFSET),
    ensures
        is_year_at(moment as int, range_outcome(range)),
{
    match date_east_of_utc(moment, MOSCOW_OFFSET) {
        None => Err(any_error("cannot construct Moscow timezone")),
        Some(today) => {
            let range = academic_year_of(today);
            assert(academic_year(today) == range_outcome(range));
            range
        },
    }
}

/// Whether that is what asking for the academic year at the moment gives. In the last hours
/// that can be represented Moscow has no date any more, and no academic year has its end.
pub open spec fn is_range_at(moment: int, range: Result<(Date, Date), Seq<char>>) -> bool {
    if is_moment(moment + MOSCOW_OFFSET) {
        is_year_at(moment, range)
    } else {
        range == Err::<(Date, Date), Seq<char>>("cannot calculate academic year end"@)
    }
}

/// The first and the last day of the present academic year, by the clock in Moscow.
pub fn academic_year_range() -> (range: Result<(Date, Date), AnyError>)
    ensures
        exists|moment: int| is_moment(moment) && #[trigger] is_range_at(moment, range_outcome(range)),
{
    let moment = utc_now();
    let range = if moment <= LAST_MOMENT - MOSCOW_OFFSET as i64 {
        academic_year_at(moment)
    } else {
        Err(any_error("cannot calculate academic year end"))
    };
    assert(is_range_at(moment as int, range_outcome(range)));
    range
}

/// The academic year begins and ends at midnight in Moscow, and no other one is the answer at
/// the same moment.
pub proof fn law_academic_year_follows_moscow(
    moment: int,
    range: Result<(Date, Date), Seq<char>>,
    other: Result<(Date, Date), Seq<char>>,
)
    requires
        is_year_at(moment, range),
        is_year_at(moment, other),
    ensures
        other == range,
        range matches Ok((start, end)) ==> day_number(start) * 86_400 <= moment + MOSCOW_OFFSET < (
        day_number(end) + 1) * 86_400,
{
    let today = choose|today: Date|
        today.valid() && is_day_at(today, moment + MOSCOW_OFFSET) && #[trigger] academic_year(today)
            == range;
    let same = choose|today: Date|
        today.valid() && is_day_at(today, moment + MOSCOW_OFFSET) && #[trigger] academic_year(today)
            == other;
    law_one_day_at_a_time(today, same, moment + MOSCOW_OFFSET);
    if let Ok((start, end)) = range {
        law_day_lies_in_its_academic_year(today);
        law_days_are_numbered_in_order(start, today);
        law_days_are_numbered_in_order(today, end);
    }
}

/// An academic year runs from the first of August to the thirty-first of July, and the day
/// that it was asked for lies in it.
pub proof fn law_day_lies_in_its_academic_year(today: Date)
    requires
        today.valid(),
        academic_year(today) is Ok,
    ensures
        academic_year(today)->Ok_0.0.valid(),
        academic_year(today)->Ok_0.1.valid(),
        academic_year(today)->Ok_0.0.not_after(today),
        today.not_after(academic_year(today)->Ok_0.1),
{
}

/// Two days within one academic year are asked about with the same range.
pub proof fn law_academic_year_is_stable(today: Date, other: Date)
    requires
        today.valid(),
        other.valid(),
        academic_year(today) is Ok,
        academic_year(today)->Ok_0.0.not_after(other),
        other.not_after(academic_year(today)->Ok_0.1),
    ensures
        academic_year(other) == academic_year(today),
{
}

/// A request for the schedule.
#[derive(Debug)]
pub struct ScheduleRequest {
    pub url: String,
    pub token: String,
    pub query: Vec<(String, String)>,
}

/// The names and values that ask for the days from the first to the last.
pub open spec fn schedule_query(start: Date, end: Date) -> Seq<(Seq<char>, Seq<char>)> {
    seq![("date_start"@, iso_date(start)), ("date_end"@, iso_date(end))]
}

/// What is to be done with the answer to a request for the schedule.
#[derive(Clone, Copy, Debug, PartialEq, Eq, Structural)]
pub enum FetchAction {
    /// Give up the access token, get another one, and ask again.
    Retry,
    /// Read the schedule from the answer.
    ReadSchedule,
}

/// An attempt to get the schedule, which a token that is no longer accepted may interrupt
/// once.
#[derive(Debug)]
pub struct ScheduleFetch {
    pub start: Date,
    pub end: Date,
    pub attempt: u32,
}

/// What follows an answer, of which there were `attempt` before.
pub open spec fn after_schedule_response(attempt: u32, status: u16) -> Result<
    FetchAction,
    Seq<char>,
> {
    if status == 401 && attempt == 0 {
        Ok(FetchAction::Retry)
    } else if is_success(status) {
        Ok(FetchAction::ReadSchedule)
    } else {
        Err("ITMO schedule endpoint returned "@ + status_display(status))
    }
}

/// The fetch once an answer has come: it is no longer the first one that it waits for.
pub open spec fn after_answer(fetch: ScheduleFetch) -> ScheduleFetch {
    ScheduleFetch {
        attempt: if fetch.attempt == 0 {
            1
        } else {
            fetch.attempt
        },
        ..fetch
    }
}

/// The days that a fetch asks for, or the complaint in its place.
pub open spec fn fetched_range(fetch: Result<ScheduleFetch, AnyError>) -> Result<
    (Date, Date),
    Seq<char>,
> {
    match fetch {
        Ok(fetch) => Ok((fetch.start, fetch.end)),
        Err(error) => Err(error@),
    }
}

/// Whether the request asks for the days of the fetch, with the given access token.
pub open spec fn is_request_for(
    fetch: ScheduleFetch,
    token: Seq<char>,
    request: ScheduleRequest,
) -> bool {
    &&& request.url@ == SCHEDULE_URL@
    &&& request.token@ == token
    &&& pairs_view(request.query@) == schedule_query(fetch.start, fetch.end)
}

impl ScheduleFetch {
    /// Starts to get the schedule for the days from the first to the last.
    pub fn begin(start: Date, end: Date) -> (fetch: ScheduleFetch)
        ensures
            fetch.start == start,
            fetch.end == end,
            fetch.attempt == 0,
    {
        ScheduleFetch { start, end, attempt: 0 }
    }

    /// Starts to get the schedule of the present academic year.
    pub fn begin_present_year() -> (fetch: Result<ScheduleFetch, AnyError>)
        ensures
            exists|moment: int| is_moment(moment) && #[trigger] is_range_at(
                moment,
                fetched_range(fetch),
            ),
            fetch is Ok ==> fetch->Ok_0.attempt == 0 && fetch->Ok_0.start.valid()
                && fetch->Ok_0.end.valid(),
    {
        let range = academic_year_range();
        let ghost answer = range_outcome(range);
        let fetch = match range {
            Ok((start, end)) => Ok(ScheduleFetch::begin(start, end)),
            Err(error) => Err(error),
        };
        proof {
            let moment = choose|moment: int| is_moment(moment) && #[trigger] is_range_at(
                moment,
                answer,
            );
            assert(fetched_range(fetch) == answer);
            if let Ok((start, end)) = answer {
                let today = choose|today: Date|
                    today.valid() && is_day_at(today, moment + MOSCOW_OFFSET)
                        && #[trigger] academic_year(today) == answer;
                law_day_lies_in_its_academic_year(today);
            }
        }
        fetch
    }

    /// The request to send, with the given access token.
    pub fn request(&self, token: &str) -> (request: ScheduleRequest)
        requires
            self.start.valid(),
            self.end.valid(),
        ensures
            is_request_for(*self, token@, request),
    {
        let start = format_date(self.start, "%Y-%m-%d");
        let end = format_date(self.end, "%Y-%m-%d");
        let mut query: Vec<(String, String)> = Vec::new();
        add_pair(&mut query, "date_start", start.as_str());
        add_pair(&mut query, "date_end", end.as_str());
        assert(pairs_view(query@) == schedule_query(self.start, self.end));
        ScheduleRequest { url: SCHEDULE_URL.to_owned(), token: token.to_owned(), query }
    }

    /// Takes in the status of the answer.
    pub fn on_response(&mut self, status: u16) -> (result: Result<FetchAction, AnyError>)
        requires
            is_status(status),
        ensures
            match after_schedule_response(old(self).attempt, status) {
                Ok(action) => result is Ok && result->Ok_0 == action,
                Err(message) => result is Err && result->Err_0@ == message,
            },
            *final(self) == after_answer(*old(self)),
    {
        let first = self.attempt == 0;
        if first {
            self.attempt = 1;
        }
        if status == 401 && first {
            return Ok(FetchAction::Retry);
        }
        if !succeeded(status) {
            return Err(status_error("ITMO schedule endpoint returned ", status));
        }
        Ok(FetchAction::ReadSchedule)
    }
}

/// The schedule is asked for at most twice: the second answer is final, whatever it is.
pub proof fn law_schedule_is_asked_for_at_most_twice(attempt: u32, status: u16)
    ensures
        after_schedule_response(attempt, status) == Ok::<FetchAction, Seq<char>>(
            FetchAction::Retry,
        ) ==> attempt == 0,
{
}

/// How many lessons the days have together.
pub open spec fn lesson_count(days: Seq<ScheduleDayView>) -> nat
    decreases days.len(),
{
    if days.len() == 0 {
        0
    } else {
        lesson_count(days.drop_last()) + days.last().lessons.len()
    }
}

/// Some of the days have no more lessons than all of them.
proof fn lemma_lesson_count_grows(days: Seq<ScheduleDayView>, seen: int)
    requires
        0 <= seen <= days.len(),
    ensures
        lesson_count(days.take(seen)) <= lesson_count(days),
    decreases days.len(),
{
    if seen == days.len() {
        assert(days.take(seen) == days);
    } else {
        assert(days.drop_last().take(seen) == days.take(seen));
        lemma_lesson_count_grows(days.drop_last(), seen);
    }
}

/// Counts the lessons of the days.
pub fn count_lessons(days: &[ScheduleDay]) -> (count: usize)
    requires
        lesson_count(days.deep_view()) <= usize::MAX,
    ensures
        count == lesson_count(days.deep_view()),
{
    let ghost all = days.deep_view();
    let mut count: usize = 0;
    for i in 0..days.len()
        invariant
            all == days.deep_view(),
            lesson_count(all) <= usize::MAX,
            count == lesson_count(all.take(i as int)),
    {
        proof {
            assert(all.take(i + 1).drop_last() == all.take(i as int));
            assert(all.take(i + 1).last() == days[i as int]@);
            lemma_lesson_count_grows(all, i + 1);
        }
        count = count + days[i].lessons.len();
    }
    assert(all.take(all.len() as int) == all);
    count
}

/// What the operator is told once the days are saved to a file.
pub open spec fn saved_text(what: Seq<char>, output: Seq<char>, days: Seq<ScheduleDayView>) -> Seq<
    char,
> {
    what + output + ": "@ + decimal(days.len()) + " дней, "@ + decimal(lesson_count(days))
        + " занятий"@
}

/// Tells the operator what was saved where, and how much of it.
pub fn saved_message(what: &str, output: &str, days: &[ScheduleDay]) -> (message: String)
    requires
        lesson_count(days.deep_view()) <= usize::MAX,
    ensures
        message@ == saved_text(what@, output@, days.deep_view()),
{
    let lessons = count_lessons(days);
    let mut message = glued(what, output);
    message.append(": ");
    message.append(decimal_text(days.len()).as_str());
    message.append(" дней, ");
    message.append(decimal_text(lessons).as_str());
    message.append(" занятий");
    message
}

} // verus!
