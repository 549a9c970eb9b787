//! The iCalendar document.

use vstd::prelude::*;
use vstd::utf8::encode_utf8;

use crate::codes::{sha256, sha256_of};
use crate::dates::{
    basic_date_time, date_read, display_date, format_date_time, format_moment, is_moment,
    is_stamp_of, is_utc_stamp, iso_date, parse_date, parse_time_of_day, time_read, utc_now, Date,
    TimeOfDay,
};
use crate::error::{any_error, outcome, AnyError};
use crate::itmo::{Lesson, LessonView, ScheduleDay, ScheduleDayView};
use crate::text::{
    glued, hex_text, join, joined, lemma_lower_hex_len, lower_hex, utf8_width, width_of,
};

verus! {

/// How many bytes of a content line stand on one line of the document, without its end.
pub const MAX_BYTES: usize = 73;

/// A character within an iCalendar text value.
pub open spec fn escaped_char(c: char) -> Seq<char> {
    if c == '\\' {
        seq!['\\', '\\']
    } else if c == '\n' {
        seq!['\\', 'n']
    } else if c == ';' {
        seq!['\\', ';']
    } else if c == ',' {
        seq!['\\', ',']
    } else {
        seq![c]
    }
}

/// A text as an iCalendar text value: backslash, line feed, semicolon and comma are
/// written with a backslash in front.
pub open spec fn escaped(text: Seq<char>) -> Seq<char>
    decreases text.len(),
{
    if text.len() == 0 {
        Seq::empty()
    } else {
        escaped_char(text[0]) + escaped(text.skip(1))
    }
}

/// Writes a text as an iCalendar text value.
pub fn escape_text(value: &str) -> (result: String)
    ensures
        result@ == escaped(value@),
{
    let mut result = String::new();
    assert(value@.skip(0) == value@);
    for c in it: value.chars()
        invariant
            it.seq() == value@,
            escaped(value@) == result@ + escaped(value@.skip(it.index() as int)),
    {
        let ghost before = result@;
        let ghost rest = value@.skip(it.index() as int);
        if c == '\\' {
            result.push('\\');
            result.push('\\');
        } else if c == '\n' {
            result.push('\\');
            result.push('n');
        } else if c == ';' {
            result.push('\\');
            result.push(';');
        } else if c == ',' {
            result.push('\\');
            result.push(',');
        } else {
            result.push(c);
        }
        proof {
            assert(rest.skip(1) == value@.skip(it.index() + 1));
            assert(result@ == before + escaped_char(c));
            assert(before + (escaped_char(c) + escaped(rest.skip(1))) == result@ + escaped(
                rest.skip(1),
            ));
        }
    }
    assert(escaped(value@.skip(value@.len() as int)) == Seq::<char>::empty());
    result
}

/// What stands in the document for the rest of a content line, where the line of the
/// document that it goes on holds `used` bytes so far. A character that no longer fits
/// goes to the next line, behind a space.
pub open spec fn folded_from(line: Seq<char>, used: int) -> Seq<char>
    decreases line.len(),
{
    if line.len() == 0 {
        seq!['\r', '\n']
    } else {
        let width = utf8_width(line[0]) as int;
        if used > 0 && used + width > MAX_BYTES {
            seq!['\r', '\n', ' ', line[0]] + folded_from(line.skip(1), 1 + width)
        } else {
            seq![line[0]] + folded_from(line.skip(1), used + width)
        }
    }
}

/// What stands in the document for a content line.
pub open spec fn content_line(line: Seq<char>) -> Seq<char> {
    folded_from(line, 0)
}

/// Puts a content line behind the document.
pub fn push_line(output: &mut String, line: &str)
    ensures
        final(output)@ == old(output)@ + content_line(line@),
{
    let mut line_bytes: usize = 0;
    assert(line@.skip(0) == line@);
    for character in it: line.chars()
        invariant
            it.seq() == line@,
            line_bytes <= MAX_BYTES,
            old(output)@ + content_line(line@) == output@ + folded_from(
                line@.skip(it.index() as int),
                line_bytes as int,
            ),
    {
        let ghost before = output@;
        let ghost rest = line@.skip(it.index() as int);
        let ghost used = line_bytes;
        let width = width_of(character);
        if line_bytes > 0 && line_bytes + width > MAX_BYTES {
            output.append("\r\n ");
            line_bytes = 1;
        }
        output.push(character);
        line_bytes = line_bytes + width;
        proof {
            reveal_strlit("\r\n ");
            assert(rest.skip(1) == line@.skip(it.index() + 1));
            let behind = folded_from(rest.skip(1), line_bytes as int);
            if used > 0 && used + width > MAX_BYTES {
                assert("\r\n "@ == seq!['\r', '\n', ' ']);
                assert(before + (seq!['\r', '\n', ' ', character] + behind) == output@ + behind);
            } else {
                assert(before + (seq![character] + behind) == output@ + behind);
            }
        }
    }
    output.append("\r\n");
    proof {
        reveal_strlit("\r\n");
        assert("\r\n"@ == seq!['\r', '\n']);
        assert(line@.skip(line@.len() as int) == Seq::<char>::empty());
    }
}

/// The document that consists of the given content lines.
pub open spec fn document(lines: Seq<Seq<char>>) -> Seq<char>
    decreases lines.len(),
{
    if lines.len() == 0 {
        Seq::empty()
    } else {
        document(lines.drop_last()) + content_line(lines.last())
    }
}

/// A content line more at the end of the document.
proof fn lemma_document_push(lines: Seq<Seq<char>>, line: Seq<char>)
    ensures
        document(lines.push(line)) == document(lines) + content_line(line),
{
    assert(lines.push(line).drop_last() == lines);
}

/// Two documents make one, with the content lines of both.
pub proof fn lemma_document_concat(first: Seq<Seq<char>>, second: Seq<Seq<char>>)
    ensures
        document(first + second) == document(first) + document(second),
    decreases second.len(),
{
    if second.len() == 0 {
        assert(first + second == first);
    } else {
        lemma_document_concat(first, second.drop_last());
        assert((first + second).drop_last() == first + second.drop_last());
        assert(document(first + second) == document(first) + document(second));
    }
}

/// The value as the one item of a list, or no item where it is missing or empty.
pub open spec fn present(value: Option<Seq<char>>) -> Seq<Seq<char>> {
    if value is Some && value->0.len() > 0 {
        seq![value->0]
    } else {
        Seq::empty()
    }
}

/// A line of the description, or none where the value is missing or empty.
pub open spec fn detail(label: Seq<char>, value: Option<Seq<char>>) -> Seq<Seq<char>> {
    if value is Some && value->0.len() > 0 {
        seq![label + ": "@ + value->0]
    } else {
        Seq::empty()
    }
}

/// Puts a labelled value behind the others, unless it is missing or empty.
pub fn add_detail(target: &mut Vec<String>, label: &str, value: Option<&str>)
    ensures
        final(target).deep_view() == old(target).deep_view() + detail(label@, value.deep_view()),
{
    if let Some(text) = value {
        if !text.is_empty() {
            let mut line = glued(label, ": ");
            line.append(text);
            target.push(line);
        }
    }
    assert(target.deep_view() == old(target).deep_view() + detail(label@, value.deep_view()));
}

/// Where the lesson takes place: building and room, as far as they are known.
pub open spec fn location(lesson: LessonView) -> Seq<char> {
    joined(present(lesson.building) + present(lesson.room), ", "@)
}

/// The lines of the description of the lesson.
pub open spec fn details(lesson: LessonView) -> Seq<Seq<char>> {
    detail("Тип"@, lesson.lesson_type) + detail("Преподаватель"@, lesson.teacher_name) + detail(
        "Группа"@,
        lesson.group,
    ) + detail("Примечание"@, lesson.note)
}

/// The lines of the location, or none where there is nothing to say.
pub open spec fn location_lines(lesson: LessonView) -> Seq<Seq<char>> {
    if location(lesson).len() > 0 {
        seq!["LOCATION:"@ + escaped(location(lesson))]
    } else {
        Seq::empty()
    }
}

/// The lines of the description, or none where there is nothing to say.
pub open spec fn description_lines(lesson: LessonView) -> Seq<Seq<char>> {
    if details(lesson).len() > 0 {
        seq!["DESCRIPTION:"@ + escaped(joined(details(lesson), "\n"@))]
    } else {
        Seq::empty()
    }
}

/// The content lines of an event.
pub open spec fn event_lines(
    date: Date,
    start: TimeOfDay,
    end: TimeOfDay,
    uid: Seq<char>,
    lesson: LessonView,
    now: Seq<char>,
) -> Seq<Seq<char>> {
    seq![
        "BEGIN:VEVENT"@,
        "UID:"@ + uid,
        "DTSTAMP:"@ + now,
        "LAST-MODIFIED:"@ + now,
        "DTSTART;TZID=Europe/Moscow:"@ + basic_date_time(date, start),
        "DTEND;TZID=Europe/Moscow:"@ + basic_date_time(date, end),
        "SUMMARY:"@ + escaped(lesson.subject),
    ] + location_lines(lesson) + description_lines(lesson) + seq![
        "STATUS:CONFIRMED"@,
        "TRANSP:OPAQUE"@,
        "END:VEVENT"@,
    ]
}

/// The text behind an optional string, for a function that borrows it.
fn borrowed(value: &Option<String>) -> (text: Option<&str>)
    ensures
        text.deep_view() == value.deep_view(),
{
    match value {
        Some(text) => Some(text.as_str()),
        None => None,
    }
}

/// Puts the value behind the others, unless it is missing or empty.
fn add_present(target: &mut Vec<String>, value: &Option<String>)
    ensures
        final(target).deep_view() == old(target).deep_view() + present(value.deep_view()),
{
    if let Some(text) = value {
        if !text.as_str().is_empty() {
            target.push(text.clone());
        }
    }
    assert(target.deep_view() == old(target).deep_view() + present(value.deep_view()));
}

/// Puts a content line behind the others.
fn add_line(lines: &mut Vec<String>, line: String)
    ensures
        final(lines).deep_view() == old(lines).deep_view().push(line@),
{
    lines.push(line);
    assert(lines.deep_view() == old(lines).deep_view().push(line@));
}

/// Puts the content lines behind the document.
fn push_lines(output: &mut String, lines: &Vec<String>)
    ensures
        final(output)@ == old(output)@ + document(lines.deep_view()),
{
    for i in 0..lines.len()
        invariant
            output@ == old(output)@ + document(lines.deep_view().take(i as int)),
    {
        push_line(output, lines[i].as_str());
        proof {
            let done = lines.deep_view().take(i as int);
            assert(lines.deep_view().take(i + 1) == done.push(lines[i as int]@));
            lemma_document_push(done, lines[i as int]@);
            assert(output@ == old(output)@ + document(lines.deep_view().take(i + 1)));
        }
    }
    assert(lines.deep_view().take(lines.len() as int) == lines.deep_view());
}

/// Puts the location of the lesson behind the content lines, where there is one.
fn add_location(lines: &mut Vec<String>, lesson: &Lesson)
    ensures
        final(lines).deep_view() == old(lines).deep_view() + location_lines(lesson@),
{
    let mut places: Vec<String> = Vec::new();
    add_present(&mut places, &lesson.building);
    add_present(&mut places, &lesson.room);
    let place = join(&places, ", ");
    proof {
        assert(places.deep_view() == present(lesson@.building) + present(lesson@.room));
    }
    if !place.as_str().is_empty() {
        let value = escape_text(place.as_str());
        add_line(lines, glued("LOCATION:", value.as_str()));
    }
    assert(lines.deep_view() == old(lines).deep_view() + location_lines(lesson@));
}

/// Puts the description of the lesson behind the content lines, where there is one.
fn add_description(lines: &mut Vec<String>, lesson: &Lesson)
    ensures
        final(lines).deep_view() == old(lines).deep_view() + description_lines(lesson@),
{
    let mut target: Vec<String> = Vec::new();
    add_detail(&mut target, "Тип", borrowed(&lesson.lesson_type));
    add_detail(&mut target, "Преподаватель", borrowed(&lesson.teacher_name));
    add_detail(&mut target, "Группа", borrowed(&lesson.group));
    add_detail(&mut target, "Примечание", borrowed(&lesson.note));
    assert(target.deep_view() == details(lesson@));
    if target.len() > 0 {
        let value = escape_text(join(&target, "\n").as_str());
        add_line(lines, glued("DESCRIPTION:", value.as_str()));
    }
    assert(lines.deep_view() == old(lines).deep_view() + description_lines(lesson@));
}

/// Puts an event behind the document, once its times and its identifier are known.
pub fn render_event(
    output: &mut String,
    date: Date,
    start: TimeOfDay,
    end: TimeOfDay,
    uid: &str,
    lesson: &Lesson,
    now: &str,
)
    requires
        date.valid(),
        start.valid(),
        end.valid(),
    ensures
        final(output)@ == old(output)@ + document(
            event_lines(date, start, end, uid@, lesson@, now@),
        ),
{
    let start_text = format_date_time(date, start, "%Y%m%dT%H%M%S");
    let end_text = format_date_time(date, end, "%Y%m%dT%H%M%S");
    let summary = escape_text(lesson.subject.as_str());
    let mut lines: Vec<String> = Vec::new();
    add_line(&mut lines, "BEGIN:VEVENT".to_owned());
    add_line(&mut lines, glued("UID:", uid));
    add_line(&mut lines, glued("DTSTAMP:", now));
    add_line(&mut lines, glued("LAST-MODIFIED:", now));
    add_line(&mut lines, glued("DTSTART;TZID=Europe/Moscow:", start_text.as_str()));
    add_line(&mut lines, glued("DTEND;TZID=Europe/Moscow:", end_text.as_str()));
    add_line(&mut lines, glued("SUMMARY:", summary.as_str()));
    add_location(&mut lines, lesson);
    add_description(&mut lines, lesson);
    add_line(&mut lines, "STATUS:CONFIRMED".to_owned());
    add_line(&mut lines, "TRANSP:OPAQUE".to_owned());
    add_line(&mut lines, "END:VEVENT".to_owned());
    assert(lines.deep_view() == event_lines(date, start, end, uid@, lesson@, now@));
    push_lines(output, &lines);
}

/// The value, or the empty text where it is missing.
pub open spec fn or_empty(value: Option<Seq<char>>) -> Seq<char> {
    if value is Some {
        value->0
    } else {
        Seq::empty()
    }
}

/// What makes the lesson itself: its number where it has one, else its day, start, subject,
/// type and group.
pub open spec fn uid_source_text(date: Date, lesson: LessonView) -> Seq<char> {
    if lesson.id is Some {
        "itmo-id:"@ + lesson.id->0
    } else {
        iso_date(date) + "|"@ + lesson.time_start + "|"@ + lesson.subject + "|"@ + or_empty(
            lesson.lesson_type,
        ) + "|"@ + or_empty(lesson.group)
    }
}

/// The identifier of an event whose source has the given digest.
pub open spec fn uid_text(digest: Seq<u8>) -> Seq<char> {
    lower_hex(digest) + "@itmo-calendar-sync.local"@
}

/// The identifier of the event for a lesson.
pub open spec fn event_uid_text(date: Date, lesson: LessonView) -> Seq<char> {
    uid_text(sha256(encode_utf8(uid_source_text(date, lesson))))
}

/// Puts the value behind the text, where there is one.
fn append_value(text: &mut String, value: &Option<String>)
    ensures
        final(text)@ == old(text)@ + or_empty(value.deep_view()),
{
    if let Some(value) = value {
        text.append(value.as_str());
    }
    assert(text@ == old(text)@ + or_empty(value.deep_view()));
}

/// What the identifier of the event for a lesson is made from.
pub fn uid_source(date: Date, lesson: &Lesson) -> (source: String)
    requires
        date.valid(),
    ensures
        source@ == uid_source_text(date, lesson@),
{
    if let Some(id) = &lesson.id {
        return glued("itmo-id:", id.as_str());
    }
    let mut source = display_date(date);
    source.append("|");
    source.append(lesson.time_start.as_str());
    source.append("|");
    source.append(lesson.subject.as_str());
    source.append("|");
    append_value(&mut source, &lesson.lesson_type);
    source.append("|");
    append_value(&mut source, &lesson.group);
    source
}

/// The identifier of an event whose source has the given digest.
pub fn uid_from_digest(digest: &Vec<u8>) -> (uid: String)
    ensures
        uid@ == uid_text(digest@),
{
    glued(hex_text(digest).as_str(), "@itmo-calendar-sync.local")
}

/// The identifier of the event for a lesson: the digest of what makes the lesson itself.
pub fn event_uid(date: Date, lesson: &Lesson) -> (uid: String)
    requires
        date.valid(),
    ensures
        uid@ == event_uid_text(date, lesson@),
        uid@.len() == 64 + "@itmo-calendar-sync.local"@.len(),
{
    let source = uid_source(date, lesson);
    let digest = sha256_of(source.as_str().as_bytes());
    proof {
        lemma_lower_hex_len(digest@);
    }
    uid_from_digest(&digest)
}

/// The time of day that the first successful reading gives, or the complaint about the text.
pub open spec fn chosen_time(
    value: Seq<char>,
    with_seconds: Option<TimeOfDay>,
    without_seconds: Option<TimeOfDay>,
) -> Result<TimeOfDay, Seq<char>> {
    if with_seconds is Some {
        Ok(with_seconds->0)
    } else if without_seconds is Some {
        Ok(without_seconds->0)
    } else {
        Err("ITMO returned an invalid lesson time: "@ + value)
    }
}

/// The time of day of a lesson: with seconds, or else without.
pub open spec fn lesson_time(value: Seq<char>) -> Result<TimeOfDay, Seq<char>> {
    chosen_time(value, time_read(value, "%H:%M:%S"@), time_read(value, "%H:%M"@))
}

/// Chooses between the two readings of the text of a time.
pub fn choose_time(
    value: &str,
    with_seconds: Option<TimeOfDay>,
    without_seconds: Option<TimeOfDay>,
) -> (time: Result<TimeOfDay, AnyError>)
    ensures
        match chosen_time(value@, with_seconds, without_seconds) {
            Ok(chosen) => time is Ok && time->Ok_0 == chosen,
            Err(message) => time is Err && time->Err_0@ == message,
        },
{
    if let Some(chosen) = with_seconds {
        return Ok(chosen);
    }
    if let Some(chosen) = without_seconds {
        return Ok(chosen);
    }
    Err(any_error(glued("ITMO returned an invalid lesson time: ", value).as_str()))
}

/// Reads the time of day of a lesson.
pub fn parse_time(value: &str) -> (time: Result<TimeOfDay, AnyError>)
    ensures
        match lesson_time(value@) {
            Ok(read) => time is Ok && time->Ok_0 == read && read.valid(),
            Err(message) => time is Err && time->Err_0@ == message,
        },
{
    let with_seconds = parse_time_of_day(value, "%H:%M:%S");
    let without_seconds = parse_time_of_day(value, "%H:%M");
    choose_time(value, with_seconds, without_seconds)
}

/// The content lines of the event for a lesson, given what the two texts of its times and
/// its identifier came to. The start is looked at before the end.
pub open spec fn timed_event_lines(
    date: Date,
    start: Result<TimeOfDay, Seq<char>>,
    end: Result<TimeOfDay, Seq<char>>,
    uid: Seq<char>,
    lesson: LessonView,
    now: Seq<char>,
) -> Result<Seq<Seq<char>>, Seq<char>> {
    match start {
        Err(message) => Err(message),
        Ok(start) => match end {
            Err(message) => Err(message),
            Ok(end) => Ok(event_lines(date, start, end, uid, lesson, now)),
        },
    }
}

/// The content lines of the event for a lesson, or the complaint about one of its times.
pub open spec fn lesson_lines(date: Date, lesson: LessonView, now: Seq<char>) -> Result<
    Seq<Seq<char>>,
    Seq<char>,
> {
    timed_event_lines(
        date,
        lesson_time(lesson.time_start),
        lesson_time(lesson.time_end),
        event_uid_text(date, lesson),
        lesson,
        now,
    )
}

/// What putting content lines behind a document, or refusing to, leaves and returns.
pub open spec fn appended(
    before: Seq<char>,
    lines: Result<Seq<Seq<char>>, Seq<char>>,
    after: Seq<char>,
    result: Result<(), AnyError>,
) -> bool {
    match lines {
        Ok(lines) => result is Ok && after == before + document(lines),
        Err(message) => result is Err && result->Err_0@ == message,
    }
}

/// A time of day that was read, or the complaint about its text.
pub open spec fn time_outcome(time: Result<TimeOfDay, AnyError>) -> Result<TimeOfDay, Seq<char>> {
    match time {
        Ok(time) => Ok(time),
        Err(error) => Err(error@),
    }
}

/// Puts the event for a lesson behind the document, given what the two texts of its times
/// and its identifier came to. A refused event leaves the document as it was.
pub fn append_timed_event(
    output: &mut String,
    date: Date,
    start: Result<TimeOfDay, AnyError>,
    end: Result<TimeOfDay, AnyError>,
    uid: &str,
    lesson: &Lesson,
    now: &str,
) -> (result: Result<(), AnyError>)
    requires
        date.valid(),
        start is Ok ==> start->Ok_0.valid(),
        end is Ok ==> end->Ok_0.valid(),
    ensures
        appended(
            old(output)@,
            timed_event_lines(date, time_outcome(start), time_outcome(end), uid@, lesson@, now@),
            final(output)@,
            result,
        ),
        result is Err ==> final(output)@ == old(output)@,
{
    match start {
        Err(error) => Err(error),
        Ok(start) => match end {
            Err(error) => Err(error),
            Ok(end) => {
                render_event(output, date, start, end, uid, lesson, now);
                Ok(())
            },
        },
    }
}

/// Puts the event for a lesson behind the document. A refused event leaves the document as
/// it was.
pub fn append_event(output: &mut String, date: Date, lesson: &Lesson, now: &str) -> (result: Result<
    (),
    AnyError,
>)
    requires
        date.valid(),
    ensures
        appended(old(output)@, lesson_lines(date, lesson@, now@), final(output)@, result),
        result is Err ==> final(output)@ == old(output)@,
{
    let start = parse_time(lesson.time_start.as_str());
    let end = parse_time(lesson.time_end.as_str());
    let uid = event_uid(date, lesson);
    append_timed_event(output, date, start, end, uid.as_str(), lesson, now)
}

/// The content lines of the events for the lessons of a day, in order, or the first
/// complaint.
pub open spec fn lessons_lines(date: Date, lessons: Seq<LessonView>, now: Seq<char>) -> Result<
    Seq<Seq<char>>,
    Seq<char>,
>
    decreases lessons.len(),
{
    if lessons.len() == 0 {
        Ok(Seq::empty())
    } else {
        match lessons_lines(date, lessons.drop_last(), now) {
            Err(message) => Err(message),
            Ok(before) => match lesson_lines(date, lessons.last(), now) {
                Err(message) => Err(message),
                Ok(lines) => Ok(before + lines),
            },
        }
    }
}

/// The content lines of the events of a day, given what its date came to, or the first
/// complaint.
pub open spec fn dated_day_lines(date: Option<Date>, day: ScheduleDayView, now: Seq<char>) -> Result<
    Seq<Seq<char>>,
    Seq<char>,
> {
    match date {
        None => Err("ITMO returned an invalid lesson date: "@ + day.date),
        Some(date) => lessons_lines(date, day.lessons, now),
    }
}

/// The content lines of the events of a day, or the first complaint.
pub open spec fn day_lines(day: ScheduleDayView, now: Seq<char>) -> Result<
    Seq<Seq<char>>,
    Seq<char>,
> {
    dated_day_lines(date_read(day.date), day, now)
}

/// The content lines of the events of the days, in order, or the first complaint.
pub open spec fn days_lines(days: Seq<ScheduleDayView>, now: Seq<char>) -> Result<
    Seq<Seq<char>>,
    Seq<char>,
>
    decreases days.len(),
{
    if days.len() == 0 {
        Ok(Seq::empty())
    } else {
        match days_lines(days.drop_last(), now) {
            Err(message) => Err(message),
            Ok(before) => match day_lines(days.last(), now) {
                Err(message) => Err(message),
                Ok(lines) => Ok(before + lines),
            },
        }
    }
}

/// The content lines in front of the events.
pub open spec fn header_lines() -> Seq<Seq<char>> {
    seq![
        "BEGIN:VCALENDAR"@,
        "VERSION:2.0"@,
        "PRODID:-//ITMO Calendar Sync//RU"@,
        "CALSCALE:GREGORIAN"@,
        "METHOD:PUBLISH"@,
        "X-WR-CALNAME:Расписание ИТМО"@,
        "X-WR-TIMEZONE:Europe/Moscow"@,
        "BEGIN:VTIMEZONE"@,
        "TZID:Europe/Moscow"@,
        "X-LIC-LOCATION:Europe/Moscow"@,
        "BEGIN:STANDARD"@,
        "TZOFFSETFROM:+0300"@,
        "TZOFFSETTO:+0300"@,
        "TZNAME:MSK"@,
        "DTSTART:19700101T000000"@,
        "END:STANDARD"@,
        "END:VTIMEZONE"@,
    ]
}

/// The content lines of the calendar, or the first complaint about the schedule.
pub open spec fn calendar_lines(days: Seq<ScheduleDayView>, now: Seq<char>) -> Result<
    Seq<Seq<char>>,
    Seq<char>,
> {
    match days_lines(days, now) {
        Err(message) => Err(message),
        Ok(lines) => Ok(header_lines() + lines + seq!["END:VCALENDAR"@]),
    }
}

/// The calendar, or the first complaint about the schedule.
pub open spec fn calendar_text(days: Seq<ScheduleDayView>, now: Seq<char>) -> Result<
    Seq<char>,
    Seq<char>,
> {
    match calendar_lines(days, now) {
        Err(message) => Err(message),
        Ok(lines) => Ok(document(lines)),
    }
}

/// Once a lesson is refused, the complaint about it is that about the whole day.
proof fn lemma_lessons_fail(date: Date, lessons: Seq<LessonView>, seen: int, now: Seq<char>)
    requires
        0 <= seen <= lessons.len(),
        lessons_lines(date, lessons.take(seen), now) is Err,
    ensures
        lessons_lines(date, lessons, now) == lessons_lines(date, lessons.take(seen), now),
    decreases lessons.len(),
{
    if seen == lessons.len() {
        assert(lessons.take(seen) == lessons);
    } else {
        assert(lessons.drop_last().take(seen) == lessons.take(seen));
        lemma_lessons_fail(date, lessons.drop_last(), seen, now);
    }
}

/// One more lesson continues the document, or its complaint is that about the whole day.
proof fn lemma_next_lesson(
    start: Seq<char>,
    before: Seq<char>,
    date: Date,
    lessons: Seq<LessonView>,
    seen: int,
    now: Seq<char>,
    lines: Result<Seq<Seq<char>>, Seq<char>>,
    after: Seq<char>,
)
    requires
        0 <= seen < lessons.len(),
        lessons_lines(date, lessons.take(seen), now) is Ok,
        before == start + document(lessons_lines(date, lessons.take(seen), now)->Ok_0),
        lines == lesson_lines(date, lessons[seen], now),
        lines is Ok ==> after == before + document(lines->Ok_0),
    ensures
        match lines {
            Ok(_) => {
                &&& lessons_lines(date, lessons.take(seen + 1), now) is Ok
                &&& after == start + document(
                    lessons_lines(date, lessons.take(seen + 1), now)->Ok_0,
                )
            },
            Err(message) => lessons_lines(date, lessons, now) == Err::<
                Seq<Seq<char>>,
                Seq<char>,
            >(message),
        },
{
    assert(lessons.take(seen + 1).drop_last() == lessons.take(seen));
    assert(lessons.take(seen + 1).last() == lessons[seen]);
    match lines {
        Ok(lines) => {
            let earlier = lessons_lines(date, lessons.take(seen), now)->Ok_0;
            lemma_document_concat(earlier, lines);
            assert(start + document(earlier) + document(lines) == start + document(
                earlier + lines,
            ));
        },
        Err(_) => lemma_lessons_fail(date, lessons, seen + 1, now),
    }
}

/// Puts the events for the lessons of a day behind the document.
fn append_lessons(output: &mut String, date: Date, lessons: &Vec<Lesson>, now: &str) -> (result:
    Result<(), AnyError>)
    requires
        date.valid(),
    ensures
        appended(
            old(output)@,
            lessons_lines(date, lessons.deep_view(), now@),
            final(output)@,
            result,
        ),
{
    let ghost all = lessons.deep_view();
    let ghost start = output@;
    for i in 0..lessons.len()
        invariant
            date.valid(),
            all == lessons.deep_view(),
            start == old(output)@,
            lessons_lines(date, all.take(i as int), now@) is Ok,
            output@ == start + document(lessons_lines(date, all.take(i as int), now@)->Ok_0),
    {
        let ghost before = output@;
        let ghost lines = lesson_lines(date, all[i as int], now@);
        assert(all[i as int] == lessons[i as int]@);
        let result = append_event(output, date, &lessons[i], now);
        proof {
            lemma_next_lesson(start, before, date, all, i as int, now@, lines, output@);
        }
        if let Err(error) = result {
            return Err(error);
        }
    }
    assert(all.take(all.len() as int) == all);
    Ok(())
}

/// Once a day is refused, the complaint about it is that about the whole schedule.
proof fn lemma_days_fail(days: Seq<ScheduleDayView>, seen: int, now: Seq<char>)
    requires
        0 <= seen <= days.len(),
        days_lines(days.take(seen), now) is Err,
    ensures
        days_lines(days, now) == days_lines(days.take(seen), now),
    decreases days.len(),
{
    if seen == days.len() {
        assert(days.take(seen) == days);
    } else {
        assert(days.drop_last().take(seen) == days.take(seen));
        lemma_days_fail(days.drop_last(), seen, now);
    }
}

/// Puts the events of a day behind the document, given what the text of its date came to.
pub fn append_day(output: &mut String, date: Option<Date>, day: &ScheduleDay, now: &str) -> (result:
    Result<(), AnyError>)
    requires
        date is Some ==> date->0.valid(),
    ensures
        appended(old(output)@, dated_day_lines(date, day@, now@), final(output)@, result),
{
    match date {
        None => Err(
            any_error(
                glued("ITMO returned an invalid lesson date: ", day.date.as_str()).as_str(),
            ),
        ),
        Some(date) => append_lessons(output, date, &day.lessons, now),
    }
}

/// Puts the events of a day behind the document.
fn append_read_day(output: &mut String, day: &ScheduleDay, now: &str) -> (result: Result<
    (),
    AnyError,
>)
    ensures
        appended(old(output)@, day_lines(day@, now@), final(output)@, result),
{
    let date = parse_date(day.date.as_str(), "%Y-%m-%d");
    append_day(output, date, day, now)
}

/// One more day continues the document, or its complaint is that about the whole schedule.
proof fn lemma_next_day(
    start: Seq<char>,
    before: Seq<char>,
    days: Seq<ScheduleDayView>,
    seen: int,
    now: Seq<char>,
    lines: Result<Seq<Seq<char>>, Seq<char>>,
    after: Seq<char>,
)
    requires
        0 <= seen < days.len(),
        days_lines(days.take(seen), now) is Ok,
        before == start + document(days_lines(days.take(seen), now)->Ok_0),
        lines == day_lines(days[seen], now),
        lines is Ok ==> after == before + document(lines->Ok_0),
    ensures
        match lines {
            Ok(_) => {
                &&& days_lines(days.take(seen + 1), now) is Ok
                &&& after == start + document(days_lines(days.take(seen + 1), now)->Ok_0)
            },
            Err(message) => days_lines(days, now) == Err::<Seq<Seq<char>>, Seq<char>>(message),
        },
{
    assert(days.take(seen + 1).drop_last() == days.take(seen));
    assert(days.take(seen + 1).last() == days[seen]);
    match lines {
        Ok(lines) => {
            let earlier = days_lines(days.take(seen), now)->Ok_0;
            lemma_document_concat(earlier, lines);
            assert(start + document(earlier) + document(lines) == start + document(
                earlier + lines,
            ));
        },
        Err(_) => lemma_days_fail(days, seen + 1, now),
    }
}

/// Puts the events of the days behind the document.
fn append_days(output: &mut String, days: &[ScheduleDay], now: &str) -> (result: Result<
    (),
    AnyError,
>)
    ensures
        appended(old(output)@, days_lines(days.deep_view(), now@), final(output)@, result),
{
    let ghost all = days.deep_view();
    let ghost start = output@;
    for i in 0..days.len()
        invariant
            all == days.deep_view(),
            start == old(output)@,
            days_lines(all.take(i as int), now@) is Ok,
            output@ == start + document(days_lines(all.take(i as int), now@)->Ok_0),
    {
        let ghost before = output@;
        let ghost lines = day_lines(all[i as int], now@);
        assert(all[i as int] == days[i as int]@);
        let result = append_read_day(output, &days[i], now);
        proof {
            lemma_next_day(start, before, all, i as int, now@, lines, output@);
        }
        if let Err(error) = result {
            return Err(error);
        }
    }
    assert(all.take(all.len() as int) == all);
    Ok(())
}

/// The content lines in front of the events.
fn header() -> (lines: Vec<String>)
    ensures
        lines.deep_view() == header_lines(),
{
    let mut lines: Vec<String> = Vec::new();
    add_line(&mut lines, "BEGIN:VCALENDAR".to_owned());
    add_line(&mut lines, "VERSION:2.0".to_owned());
    add_line(&mut lines, "PRODID:-//ITMO Calendar Sync//RU".to_owned());
    add_line(&mut lines, "CALSCALE:GREGORIAN".to_owned());
    add_line(&mut lines, "METHOD:PUBLISH".to_owned());
    add_line(&mut lines, "X-WR-CALNAME:Расписание ИТМО".to_owned());
    add_line(&mut lines, "X-WR-TIMEZONE:Europe/Moscow".to_owned());
    add_line(&mut lines, "BEGIN:VTIMEZONE".to_owned());
    add_line(&mut lines, "TZID:Europe/Moscow".to_owned());
    add_line(&mut lines, "X-LIC-LOCATION:Europe/Moscow".to_owned());
    add_line(&mut lines, "BEGIN:STANDARD".to_owned());
    add_line(&mut lines, "TZOFFSETFROM:+0300".to_owned());
    add_line(&mut lines, "TZOFFSETTO:+0300".to_owned());
    add_line(&mut lines, "TZNAME:MSK".to_owned());
    add_line(&mut lines, "DTSTART:19700101T000000".to_owned());
    add_line(&mut lines, "END:STANDARD".to_owned());
    add_line(&mut lines, "END:VTIMEZONE".to_owned());
    lines
}

/// The calendar for the days, stamped with the given moment.
pub fn build_calendar_at(days: &[ScheduleDay], now: &str) -> (result: Result<String, AnyError>)
    ensures
        outcome(result) == calendar_text(days.deep_view(), now@),
{
    let mut output = String::new();
    let header = header();
    push_lines(&mut output, &header);
    let ghost head = document(header_lines());
    assert(output@ == head);
    if let Err(error) = append_days(&mut output, days, now) {
        return Err(error);
    }
    push_line(&mut output, "END:VCALENDAR");
    proof {
        let lines = days_lines(days.deep_view(), now@)->Ok_0;
        lemma_document_concat(header_lines(), lines);
        lemma_document_push(header_lines() + lines, "END:VCALENDAR"@);
        assert((header_lines() + lines).push("END:VCALENDAR"@) == header_lines() + lines
            + seq!["END:VCALENDAR"@]);
    }
    Ok(output)
}

/// The calendar for the days, stamped with the given moment, in seconds since 1970 began in
/// UTC.
pub fn build_calendar_of_moment(days: &[ScheduleDay], moment: i64) -> (result: Result<
    String,
    AnyError,
>)
    requires
        is_moment(moment as int),
    ensures
        exists|now: Seq<char>| #[trigger]
            calendar_text(days.deep_view(), now) == outcome(result) && is_stamp_of(
                now,
                moment as int,
            ),
{
    let now = format_moment(moment, "%Y%m%dT%H%M%SZ");
    let result = build_calendar_at(days, now.as_str());
    assert(calendar_text(days.deep_view(), now@) == outcome(result));
    result
}

/// The calendar for the days, stamped with the present moment.
pub fn build_calendar(days: &[ScheduleDay]) -> (result: Result<String, AnyError>)
    ensures
        exists|now: Seq<char>| #[trigger]
            calendar_text(days.deep_view(), now) == outcome(result) && is_utc_stamp(now),
{
    let moment = utc_now();
    let result = build_calendar_of_moment(days, moment);
    proof {
        let now = choose|now: Seq<char>| #[trigger]
            calendar_text(days.deep_view(), now) == outcome(result) && is_stamp_of(
                now,
                moment as int,
            );
        assert(is_stamp_of(now, moment as int));
    }
    result
}

} // verus!
