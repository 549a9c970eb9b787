//! What holds of every request for the schedule, and of what is told about it.

use vstd::prelude::*;

use crate::dates::{day_number, is_moment, iso_date, Date};
use crate::itmo::{
    academic_year, after_answer, after_schedule_response, is_range_at, is_request_for,
    law_academic_year_follows_moscow, lesson_count, saved_text, schedule_query, FetchAction,
    ScheduleDayView, ScheduleFetch, ScheduleRequest,
};
use crate::text::decimal;
use crate::web::{pairs_view, status_display};

verus! {

/// At every attempt the status alone decides, but for a refused token at the first: a status
/// from 200 to 299 gives the schedule, and every other one an error that shows it.
pub proof fn law_success_gives_the_schedule(attempt: u32, status: u16)
    ensures
        200 <= status <= 299 ==> after_schedule_response(attempt, status) == Ok::<
            FetchAction,
            Seq<char>,
        >(FetchAction::ReadSchedule),
        status == 401 && attempt == 0 ==> after_schedule_response(attempt, status) == Ok::<
            FetchAction,
            Seq<char>,
        >(FetchAction::Retry),
        !(200 <= status <= 299) && !(status == 401 && attempt == 0) ==> after_schedule_response(
            attempt,
            status,
        ) == Err::<FetchAction, Seq<char>>(
            "ITMO schedule endpoint returned "@ + status_display(status),
        ),
{
}

/// A refused token is replaced once: whatever comes next is final, a success gives the
/// schedule, and the same days are asked for again.
pub proof fn law_refused_token_is_replaced_once(fetch: ScheduleFetch, status: u16)
    requires
        fetch.attempt == 0,
    ensures
        after_schedule_response(fetch.attempt, 401) == Ok::<FetchAction, Seq<char>>(
            FetchAction::Retry,
        ),
        after_answer(fetch).start == fetch.start,
        after_answer(fetch).end == fetch.end,
        after_schedule_response(after_answer(fetch).attempt, status) is Ok <==> 200 <= status <= 299,
        after_schedule_response(after_answer(fetch).attempt, status) is Ok
            ==> after_schedule_response(after_answer(fetch).attempt, status)->Ok_0
            == FetchAction::ReadSchedule,
        after_answer(after_answer(fetch)) == after_answer(fetch),
{
}

/// The schedule is asked for by its first and its last day, and by nothing else.
pub proof fn law_schedule_is_asked_for_by_its_days(start: Date, end: Date)
    ensures
        schedule_query(start, end).len() == 2,
        schedule_query(start, end)[0] == ("date_start"@, iso_date(start)),
        schedule_query(start, end)[1] == ("date_end"@, iso_date(end)),
{
}

/// Every day has an academic year, which begins on the first of August and ends on the
/// thirty-first of July after it, unless one of these two days is beyond the years that can
/// be represented.
pub proof fn law_academic_year_is_from_august_to_july(today: Date)
    requires
        today.valid(),
    ensures
        match academic_year(today) {
            Ok((start, end)) => {
                &&& start.month == 8 && start.day == 1
                &&& end.month == 7 && end.day == 31
                &&& end.year == start.year + 1
                &&& today.month >= 8 ==> start.year == today.year
                &&& today.month < 8 ==> end.year == today.year
            },
            Err(message) => {
                ||| today.year == -262143 && today.month < 8 && message
                    == "cannot calculate academic year start"@
                ||| today.year == 262142 && today.month >= 8 && message
                    == "cannot calculate academic year end"@
            },
        },
        -262143 < today.year < 262142 ==> academic_year(today) is Ok,
{
}

/// Lessons are counted day by day.
pub proof fn law_lessons_are_counted(
    first: Seq<ScheduleDayView>,
    second: Seq<ScheduleDayView>,
    day: ScheduleDayView,
)
    ensures
        lesson_count(first + second) == lesson_count(first) + lesson_count(second),
        lesson_count(seq![day]) == day.lessons.len(),
        lesson_count(Seq::empty()) == 0,
    decreases second.len(),
{
    let all = first + second;
    if second.len() == 0 {
        assert(all == first);
    } else {
        law_lessons_are_counted(first, second.drop_last(), day);
        assert(all.drop_last() == first + second.drop_last());
    }
    reveal_with_fuel(lesson_count, 2);
    assert(seq![day].drop_last() == Seq::<ScheduleDayView>::empty());
}

/// The number that decimal digits stand for.
pub open spec fn read_decimal(text: Seq<char>) -> int
    decreases text.len(),
{
    if text.len() == 0 {
        0
    } else {
        read_decimal(text.drop_last()) * 10 + (text.last() as int - 48)
    }
}

/// A number is written with decimal digits that stand for it, and without a zero in front.
pub proof fn law_decimal_is_read_back(number: nat)
    ensures
        read_decimal(decimal(number)) == number,
        decimal(number).len() > 0,
        number > 0 ==> decimal(number)[0] != '0',
        number == 0 ==> decimal(number).len() == 1,
        forall|i: int| 0 <= i < decimal(number).len() ==> '0' <= #[trigger] decimal(number)[i] <= '9',
    decreases number,
{
    let text = decimal(number);
    let last = (number % 10) as int;
    if number < 10 {
        assert(text.drop_last() == Seq::<char>::empty());
        assert(read_decimal(text.drop_last()) == 0);
    } else {
        law_decimal_is_read_back(number / 10);
        let before = decimal(number / 10);
        assert(text.drop_last() == before);
        assert(text[0] == before[0]);
        assert forall|i: int| 0 <= i < text.len() implies '0' <= #[trigger] text[i] <= '9' by {
            if i < before.len() {
                assert(text[i] == before[i]);
            }
        }
    }
}

/// The operator is told what was saved, where, and how many days and lessons that is.
pub proof fn law_operator_is_told_what_was_saved(
    what: Seq<char>,
    output: Seq<char>,
    days: Seq<ScheduleDayView>,
)
    ensures
        saved_text(what, output, days) == what + output + ": "@ + decimal(days.len()) + " дней, "@
            + decimal(lesson_count(days)) + " занятий"@,
{
}

/// A request goes to the API with the token that it is given and asks for the days of its
/// fetch.
pub proof fn law_request_carries_token_and_days(
    fetch: ScheduleFetch,
    token: Seq<char>,
    request: ScheduleRequest,
)
    requires
        is_request_for(fetch, token, request),
    ensures
        request.url@ == "https://my.itmo.ru/api/schedule/schedule/personal"@,
        request.token@ == token,
        request.query@.len() == 2,
        request.query@[0].0@ == "date_start"@,
        request.query@[0].1@ == iso_date(fetch.start),
        request.query@[1].0@ == "date_end"@,
        request.query@[1].1@ == iso_date(fetch.end),
{
    let pairs = pairs_view(request.query@);
    assert(pairs.len() == 2);
    assert(pairs[0] == (request.query@[0].0@, request.query@[0].1@));
    assert(pairs[1] == (request.query@[1].0@, request.query@[1].1@));
}

/// The academic year at a moment is the one that it is three hours later by the clock in
/// Greenwich, from the midnight at which it begins to the midnight at which it ends.
pub proof fn law_academic_year_is_that_of_moscow(moment: int, range: Result<(Date, Date), Seq<char>>)
    requires
        is_range_at(moment, range),
        is_moment(moment + 10_800),
    ensures
        range matches Ok((start, end)) ==> {
            &&& day_number(start) * 86_400 <= moment + 10_800
            &&& moment + 10_800 < (day_number(end) + 1) * 86_400
            &&& start.month == 8 && start.day == 1
            &&& end.month == 7 && end.day == 31
            &&& end.year == start.year + 1
        },
{
    law_academic_year_follows_moscow(moment, range, range);
}

} // verus!
