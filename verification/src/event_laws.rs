//! What a reader of the calendar can rely on: which event tells what of which lesson.

use vstd::prelude::*;
use vstd::utf8::encode_utf8;

use crate::calendar::{
    appended, calendar_lines, calendar_text, chosen_time, content_line, dated_day_lines, day_lines,
    days_lines, description_lines, detail, details, document, escaped, escaped_char, event_lines,
    event_uid_text, folded_from, header_lines, lemma_document_concat, lesson_lines, lesson_time,
    lessons_lines, location, location_lines, or_empty, present, timed_event_lines,
};
use crate::calendar_laws::{law_unescape_escaped, octets, unescaped};
use crate::codes::sha256;
use crate::dates::{
    basic_date_time, date_from_str, date_read, is_date_text, is_minute_text, is_second_text,
    iso_date, time_from_str, time_read, two_digits, two_digits_at, Date, TimeOfDay,
};
use crate::error::AnyError;
use crate::itmo::{LessonView, ScheduleDayView};
use crate::text::{
    hex_digit, joined, lemma_joined_concat, lemma_lower_hex_len, lower_hex, utf8_width,
};

verus! {

/// A text is escaped character by character, and every character but the four special ones
/// stays as it is.
pub proof fn law_escaping_is_by_character(first: Seq<char>, second: Seq<char>, c: char)
    ensures
        escaped(first + second) == escaped(first) + escaped(second),
        escaped(Seq::<char>::empty()) == Seq::<char>::empty(),
        escaped(seq!['\\']) == seq!['\\', '\\'],
        escaped(seq!['\n']) == seq!['\\', 'n'],
        escaped(seq![';']) == seq!['\\', ';'],
        escaped(seq![',']) == seq!['\\', ','],
        c != '\\' && c != '\n' && c != ';' && c != ',' ==> escaped(seq![c]) == seq![c],
    decreases first.len(),
{
    let whole = first + second;
    if first.len() == 0 {
        assert(whole == second);
        assert(escaped(first) + escaped(second) == escaped(second));
    } else {
        assert(whole.skip(1) == first.skip(1) + second);
        law_escaping_is_by_character(first.skip(1), second, c);
        assert(escaped(whole) == escaped(first) + escaped(second));
    }
    lemma_escaped_one('\\');
    lemma_escaped_one('\n');
    lemma_escaped_one(';');
    lemma_escaped_one(',');
    lemma_escaped_one(c);
}

proof fn lemma_escaped_one(c: char)
    ensures
        escaped(seq![c]) == escaped_char(c),
{
    assert(seq![c].skip(1) == Seq::<char>::empty());
    assert(escaped(Seq::<char>::empty()) == Seq::<char>::empty());
    assert(escaped_char(c) + Seq::<char>::empty() == escaped_char(c));
}

/// As long as a text fits on its line, it is written as it is.
proof fn lemma_folded_head(head: Seq<char>, tail: Seq<char>, used: int)
    requires
        used >= 0,
        used + octets(head) <= 73,
    ensures
        folded_from(head + tail, used) == head + folded_from(tail, used + octets(head)),
    decreases head.len(),
{
    if head.len() == 0 {
        assert(head + tail == tail);
        assert(head + folded_from(tail, used) == folded_from(tail, used));
    } else {
        let rest = head.skip(1);
        assert(head.drop_first() == rest);
        assert(octets(head) == utf8_width(head[0]) + octets(rest));
        let width = utf8_width(head[0]) as int;
        lemma_folded_head(rest, tail, used + width);
        assert((head + tail).skip(1) == rest + tail);
        assert(seq![head[0]] + (rest + folded_from(tail, used + octets(head))) == head
            + folded_from(tail, used + octets(head)));
    }
}

/// A content line of at most seventy-three bytes stands on a line of its own, unchanged.
pub proof fn law_short_line_is_not_folded(line: Seq<char>)
    requires
        encode_utf8(line).len() <= 73,
    ensures
        content_line(line) == line + seq!['\r', '\n'],
{
    let none = Seq::<char>::empty();
    assert(line + none == line);
    lemma_folded_head(line, none, 0);
}

/// A content line is folded only in front of a character that no longer fits, and what
/// follows is folded as a content line that starts with a space.
pub proof fn law_line_is_folded_where_it_is_full(head: Seq<char>, tail: Seq<char>)
    requires
        head.len() > 0,
        tail.len() > 0,
        encode_utf8(head).len() <= 73,
        encode_utf8(head.push(tail[0])).len() > 73,
    ensures
        content_line(head + tail) == head + seq!['\r', '\n'] + content_line(seq![' '] + tail),
{
    lemma_folded_head(head, tail, 0);
    lemma_octets_push(head, tail[0]);
    assert(head.drop_first() == head.skip(1));
    assert(octets(head) == utf8_width(head[0]) + octets(head.skip(1)));
    let width = utf8_width(tail[0]) as int;
    let behind = folded_from(tail.skip(1), 1 + width);
    let spaced = seq![' '] + tail;
    assert(spaced.skip(1) == tail);
    assert(utf8_width(' ') == 1);
    assert(folded_from(tail, 1) == seq![tail[0]] + behind);
    assert(content_line(spaced) == seq![' '] + (seq![tail[0]] + behind));
    assert(folded_from(tail, octets(head) as int) == seq!['\r', '\n', ' ', tail[0]] + behind);
    assert(head + (seq!['\r', '\n', ' ', tail[0]] + behind) == head + seq!['\r', '\n']
        + content_line(spaced));
}

proof fn lemma_octets_push(text: Seq<char>, c: char)
    ensures
        octets(text.push(c)) == octets(text) + utf8_width(c),
    decreases text.len(),
{
    let longer = text.push(c);
    if text.len() == 0 {
        assert(longer.drop_first() == Seq::<char>::empty());
        assert(encode_utf8(Seq::<char>::empty()).len() == 0);
        assert(octets(longer) == utf8_width(c) + octets(longer.drop_first()));
    } else {
        lemma_octets_push(text.drop_first(), c);
        assert(longer.drop_first() == text.drop_first().push(c));
        assert(octets(longer) == utf8_width(text[0]) + octets(longer.drop_first()));
        assert(octets(text) == utf8_width(text[0]) + octets(text.drop_first()));
    }
}

/// A document is its content lines, each folded on its own, one behind the other.
pub proof fn law_document_is_line_by_line(
    first: Seq<Seq<char>>,
    second: Seq<Seq<char>>,
    line: Seq<char>,
)
    ensures
        document(first + second) == document(first) + document(second),
        document(seq![line]) == content_line(line),
        document(Seq::<Seq<char>>::empty()) == Seq::<char>::empty(),
{
    lemma_document_concat(first, second);
    assert(seq![line].drop_last() == Seq::<Seq<char>>::empty());
    assert(document(seq![line].drop_last()) == Seq::<char>::empty());
    assert(document(seq![line]) == content_line(line));
}

/// Whether a field of a lesson has something to tell.
pub open spec fn tells(field: Option<Seq<char>>) -> bool {
    field is Some && field->0.len() > 0
}

/// What a field adds to a list, with what stands in front of it.
pub open spec fn part(before: Seq<char>, field: Option<Seq<char>>) -> Seq<char> {
    if tells(field) {
        before + field->0
    } else {
        Seq::empty()
    }
}

/// Whether the text holds the paragraph, with a line feed or the end of the text on each
/// side.
pub open spec fn has_paragraph(text: Seq<char>, paragraph: Seq<char>) -> bool {
    exists|at: int|
        {
            &&& 0 <= at <= at + paragraph.len() <= text.len()
            &&& #[trigger] text.subrange(at, at + paragraph.len()) == paragraph
            &&& at == 0 || text[at - 1] == '\n'
            &&& at + paragraph.len() == text.len() || text[at + paragraph.len()] == '\n'
        }
}

/// An event has its lines in a fixed order, with nothing between them: where it begins, its
/// identifier, its two stamps, start, end and summary, then the location where building or
/// room is known, then the description where there is anything to describe, and its end.
pub proof fn law_event_has_its_lines(
    date: Date,
    start: TimeOfDay,
    end: TimeOfDay,
    uid: Seq<char>,
    lesson: LessonView,
    now: Seq<char>,
)
    ensures
        ({
            let lines = event_lines(date, start, end, uid, lesson, now);
            let place: int = if tells(lesson.building) || tells(lesson.room) {
                1
            } else {
                0
            };
            let about: int = if tells(lesson.lesson_type) || tells(lesson.teacher_name) || tells(
                lesson.group,
            ) || tells(lesson.note) {
                1
            } else {
                0
            };
            let last = 7 + place + about;
            &&& lines.len() == last + 3
            &&& lines[0] == "BEGIN:VEVENT"@
            &&& lines[1] == "UID:"@ + uid
            &&& lines[2] == "DTSTAMP:"@ + now
            &&& lines[3] == "LAST-MODIFIED:"@ + now
            &&& lines[4] == "DTSTART;TZID=Europe/Moscow:"@ + basic_date_time(date, start)
            &&& lines[5] == "DTEND;TZID=Europe/Moscow:"@ + basic_date_time(date, end)
            &&& lines[6] == "SUMMARY:"@ + escaped(lesson.subject)
            &&& place == 1 ==> "LOCATION:"@.is_prefix_of(lines[7])
            &&& about == 1 ==> "DESCRIPTION:"@.is_prefix_of(lines[7 + place])
            &&& lines[last] == "STATUS:CONFIRMED"@
            &&& lines[last + 1] == "TRANSP:OPAQUE"@
            &&& lines[last + 2] == "END:VEVENT"@
        }),
{
    let parts = present(lesson.building) + present(lesson.room);
    lemma_location(lesson);
    reveal_strlit("LOCATION:");
    reveal_strlit("DESCRIPTION:");
    let lines = event_lines(date, start, end, uid, lesson, now);
    let place = location_lines(lesson).len() as int;
    let about = description_lines(lesson).len() as int;
    assert(details(lesson).len() > 0 <==> (tells(lesson.lesson_type) || tells(lesson.teacher_name)
        || tells(lesson.group) || tells(lesson.note)));
    if place == 1 {
        assert(lines[7] == location_lines(lesson)[0]);
        assert(lines[7].subrange(0, "LOCATION:"@.len() as int) == "LOCATION:"@);
    }
    if about == 1 {
        assert(lines[7 + place] == description_lines(lesson)[0]);
        assert(lines[7 + place].subrange(0, "DESCRIPTION:"@.len() as int) == "DESCRIPTION:"@);
    }
}

proof fn lemma_location(lesson: LessonView)
    ensures
        location(lesson).len() > 0 <==> tells(lesson.building) || tells(lesson.room),
        tells(lesson.building) || tells(lesson.room) ==> ", "@ + location(lesson) == part(
            ", "@,
            lesson.building,
        ) + part(", "@, lesson.room),
{
    reveal_with_fuel(joined, 3);
    let parts = present(lesson.building) + present(lesson.room);
    if tells(lesson.building) && tells(lesson.room) {
        assert(parts == seq![lesson.building->0, lesson.room->0]);
        assert(parts.skip(1) == seq![lesson.room->0]);
        assert(location(lesson) == lesson.building->0 + ", "@ + lesson.room->0);
    } else if tells(lesson.building) {
        assert(parts == seq![lesson.building->0]);
    } else if tells(lesson.room) {
        assert(parts == seq![lesson.room->0]);
    } else {
        assert(parts == Seq::<Seq<char>>::empty());
    }
    assert(tells(lesson.building) || tells(lesson.room) ==> ", "@ + location(lesson) =~= part(
        ", "@,
        lesson.building,
    ) + part(", "@, lesson.room));
}

/// The location of an event is the building and the room, as far as the lesson tells them,
/// with a comma between them, and nothing else.
pub proof fn law_location_tells_building_and_room(
    date: Date,
    start: TimeOfDay,
    end: TimeOfDay,
    uid: Seq<char>,
    lesson: LessonView,
    now: Seq<char>,
    line: Seq<char>,
)
    requires
        tells(lesson.building) || tells(lesson.room),
        line == event_lines(date, start, end, uid, lesson, now)[7],
    ensures
        "LOCATION:"@.is_prefix_of(line),
        ", "@ + unescaped(line.skip("LOCATION:"@.len() as int)) == part(", "@, lesson.building)
            + part(", "@, lesson.room),
{
    lemma_location(lesson);
    law_event_has_its_lines(date, start, end, uid, lesson, now);
    assert(line == location_lines(lesson)[0]);
    assert(line.skip("LOCATION:"@.len() as int) == escaped(location(lesson)));
    law_unescape_escaped(location(lesson));
}

proof fn lemma_details(lesson: LessonView)
    ensures
        details(lesson).len() > 0 ==> "\n"@ + joined(details(lesson), "\n"@) == part(
            "\nТип: "@,
            lesson.lesson_type,
        ) + part("\nПреподаватель: "@, lesson.teacher_name) + part("\nГруппа: "@, lesson.group)
            + part("\nПримечание: "@, lesson.note),
{
    reveal_strlit("\n");
    reveal_strlit(": ");
    reveal_strlit("Тип");
    reveal_strlit("Преподаватель");
    reveal_strlit("Группа");
    reveal_strlit("Примечание");
    reveal_strlit("\nТип: ");
    reveal_strlit("\nПреподаватель: ");
    reveal_strlit("\nГруппа: ");
    reveal_strlit("\nПримечание: ");
    let feed = "\n"@;
    assert(feed + "Тип"@ + ": "@ == "\nТип: "@);
    assert(feed + "Преподаватель"@ + ": "@ == "\nПреподаватель: "@);
    assert(feed + "Группа"@ + ": "@ == "\nГруппа: "@);
    assert(feed + "Примечание"@ + ": "@ == "\nПримечание: "@);
    let a = detail("Тип"@, lesson.lesson_type);
    let b = detail("Преподаватель"@, lesson.teacher_name);
    let c = detail("Группа"@, lesson.group);
    let d = detail("Примечание"@, lesson.note);
    lemma_fed_concat(a, b);
    lemma_fed_concat(a + b, c);
    lemma_fed_concat(a + b + c, d);
    lemma_fed_detail("Тип"@, "\nТип: "@, lesson.lesson_type);
    lemma_fed_detail("Преподаватель"@, "\nПреподаватель: "@, lesson.teacher_name);
    lemma_fed_detail("Группа"@, "\nГруппа: "@, lesson.group);
    lemma_fed_detail("Примечание"@, "\nПримечание: "@, lesson.note);
    if details(lesson).len() > 0 {
        lemma_fed_joined(details(lesson));
    }
}

/// The parts, each with a line feed in front.
spec fn fed(parts: Seq<Seq<char>>) -> Seq<char>
    decreases parts.len(),
{
    if parts.len() == 0 {
        Seq::empty()
    } else {
        fed(parts.drop_last()) + "\n"@ + parts.last()
    }
}

proof fn lemma_fed_concat(first: Seq<Seq<char>>, second: Seq<Seq<char>>)
    ensures
        fed(first + second) == fed(first) + fed(second),
    decreases second.len(),
{
    if second.len() == 0 {
        assert(first + second == first);
        assert(fed(first) + fed(second) == fed(first));
    } else {
        lemma_fed_concat(first, second.drop_last());
        assert((first + second).drop_last() == first + second.drop_last());
        assert(fed(first + second) == fed(first) + fed(second));
    }
}

proof fn lemma_fed_detail(label: Seq<char>, before: Seq<char>, field: Option<Seq<char>>)
    requires
        "\n"@ + label + ": "@ == before,
    ensures
        fed(detail(label, field)) == part(before, field),
{
    if tells(field) {
        let line = label + ": "@ + field->0;
        assert(detail(label, field) == seq![line]);
        assert(seq![line].drop_last() == Seq::<Seq<char>>::empty());
        assert(fed(Seq::<Seq<char>>::empty()) == Seq::<char>::empty());
        assert(Seq::<char>::empty() + "\n"@ + line == "\n"@ + label + ": "@ + field->0);
    }
}

proof fn lemma_fed_joined(parts: Seq<Seq<char>>)
    requires
        parts.len() > 0,
    ensures
        "\n"@ + joined(parts, "\n"@) == fed(parts),
    decreases parts.len(),
{
    let one = seq![parts[0]];
    assert(one.drop_last() == Seq::<Seq<char>>::empty());
    assert(fed(one.drop_last()) == Seq::<char>::empty());
    assert(fed(one) == "\n"@ + parts[0]);
    if parts.len() == 1 {
        assert(parts == one);
    } else {
        lemma_fed_joined(parts.skip(1));
        lemma_fed_concat(one, parts.skip(1));
        assert(one + parts.skip(1) == parts);
        assert("\n"@ + joined(parts, "\n"@) == fed(one) + fed(parts.skip(1)));
    }
}

/// The description of an event is what the lesson tells of its type, teacher, group and
/// note, each with its label on a line of its own, in this order, and nothing else.
pub proof fn law_description_tells_all_details(
    date: Date,
    start: TimeOfDay,
    end: TimeOfDay,
    uid: Seq<char>,
    lesson: LessonView,
    now: Seq<char>,
    line: Seq<char>,
)
    requires
        tells(lesson.lesson_type) || tells(lesson.teacher_name) || tells(lesson.group) || tells(
            lesson.note,
        ),
        line == event_lines(date, start, end, uid, lesson, now)[if tells(lesson.building) || tells(
            lesson.room,
        ) {
            8int
        } else {
            7
        }],
    ensures
        "DESCRIPTION:"@.is_prefix_of(line),
        "\n"@ + unescaped(line.skip("DESCRIPTION:"@.len() as int)) == part(
            "\nТип: "@,
            lesson.lesson_type,
        ) + part("\nПреподаватель: "@, lesson.teacher_name) + part("\nГруппа: "@, lesson.group)
            + part("\nПримечание: "@, lesson.note),
{
    lemma_location(lesson);
    law_event_has_its_lines(date, start, end, uid, lesson, now);
    assert(line == description_lines(lesson)[0]);
    let value = joined(details(lesson), "\n"@);
    assert(line.skip("DESCRIPTION:"@.len() as int) == escaped(value));
    law_unescape_escaped(value);
    lemma_details(lesson);
}

/// Whatever a lesson tells of its type, teacher, group or note is a paragraph of the
/// description of its event, behind its label.
pub proof fn law_every_detail_is_a_paragraph(
    date: Date,
    start: TimeOfDay,
    end: TimeOfDay,
    uid: Seq<char>,
    lesson: LessonView,
    now: Seq<char>,
    line: Seq<char>,
)
    requires
        tells(lesson.lesson_type) || tells(lesson.teacher_name) || tells(lesson.group) || tells(
            lesson.note,
        ),
        line == event_lines(date, start, end, uid, lesson, now)[if tells(lesson.building) || tells(
            lesson.room,
        ) {
            8int
        } else {
            7
        }],
    ensures
        "DESCRIPTION:"@.is_prefix_of(line),
        ({
            let told = unescaped(line.skip("DESCRIPTION:"@.len() as int));
            &&& tells(lesson.lesson_type) ==> has_paragraph(told, "Тип: "@ + lesson.lesson_type->0)
            &&& tells(lesson.teacher_name) ==> has_paragraph(
                told,
                "Преподаватель: "@ + lesson.teacher_name->0,
            )
            &&& tells(lesson.group) ==> has_paragraph(told, "Группа: "@ + lesson.group->0)
            &&& tells(lesson.note) ==> has_paragraph(told, "Примечание: "@ + lesson.note->0)
        }),
{
    law_description_tells_all_details(date, start, end, uid, lesson, now, line);
    let told = unescaped(line.skip("DESCRIPTION:"@.len() as int));
    lemma_paragraphs(told, lesson);
}

proof fn lemma_paragraphs(told: Seq<char>, lesson: LessonView)
    requires
        "\n"@ + told == part("\nТип: "@, lesson.lesson_type) + part(
            "\nПреподаватель: "@,
            lesson.teacher_name,
        ) + part("\nГруппа: "@, lesson.group) + part("\nПримечание: "@, lesson.note),
    ensures
        tells(lesson.lesson_type) ==> has_paragraph(told, "Тип: "@ + lesson.lesson_type->0),
        tells(lesson.teacher_name) ==> has_paragraph(
            told,
            "Преподаватель: "@ + lesson.teacher_name->0,
        ),
        tells(lesson.group) ==> has_paragraph(told, "Группа: "@ + lesson.group->0),
        tells(lesson.note) ==> has_paragraph(told, "Примечание: "@ + lesson.note->0),
{
    let none = Seq::<char>::empty();
    let a = part("\nТип: "@, lesson.lesson_type);
    let b = part("\nПреподаватель: "@, lesson.teacher_name);
    let c = part("\nГруппа: "@, lesson.group);
    let d = part("\nПримечание: "@, lesson.note);
    lemma_labels();
    lemma_part_start("Тип: "@, "\nТип: "@, lesson.lesson_type);
    lemma_part_start("Преподаватель: "@, "\nПреподаватель: "@, lesson.teacher_name);
    lemma_part_start("Группа: "@, "\nГруппа: "@, lesson.group);
    lemma_part_start("Примечание: "@, "\nПримечание: "@, lesson.note);
    if tells(lesson.lesson_type) {
        let text = "Тип: "@ + lesson.lesson_type->0;
        assert(none + a + (b + c + d) == a + b + c + d);
        lemma_paragraph(told, none, text, b + c + d);
    }
    if tells(lesson.teacher_name) {
        let text = "Преподаватель: "@ + lesson.teacher_name->0;
        assert(a + b + (c + d) == a + b + c + d);
        lemma_paragraph(told, a, text, c + d);
    }
    if tells(lesson.group) {
        let text = "Группа: "@ + lesson.group->0;
        lemma_paragraph(told, a + b, text, d);
    }
    if tells(lesson.note) {
        let text = "Примечание: "@ + lesson.note->0;
        assert(a + b + c + d + none == a + b + c + d);
        lemma_paragraph(told, a + b + c, text, none);
    }
}

proof fn lemma_labels()
    ensures
        "\n"@ + "Тип: "@ == "\nТип: "@,
        "\n"@ + "Преподаватель: "@ == "\nПреподаватель: "@,
        "\n"@ + "Группа: "@ == "\nГруппа: "@,
        "\n"@ + "Примечание: "@ == "\nПримечание: "@,
{
    reveal_strlit("\n");
    reveal_strlit("Тип: ");
    reveal_strlit("Преподаватель: ");
    reveal_strlit("Группа: ");
    reveal_strlit("Примечание: ");
    reveal_strlit("\nТип: ");
    reveal_strlit("\nПреподаватель: ");
    reveal_strlit("\nГруппа: ");
    reveal_strlit("\nПримечание: ");
}

proof fn lemma_part_start(label: Seq<char>, before: Seq<char>, field: Option<Seq<char>>)
    requires
        "\n"@ + label == before,
    ensures
        part(before, field).len() > 0 ==> part(before, field)[0] == '\n',
        tells(field) ==> part(before, field) == "\n"@ + (label + field->0),
{
    reveal_strlit("\n");
    if tells(field) {
        assert(part(before, field) == "\n"@ + (label + field->0));
    }
}

proof fn lemma_paragraph(
    told: Seq<char>,
    before: Seq<char>,
    paragraph: Seq<char>,
    after: Seq<char>,
)
    requires
        "\n"@ + told == before + ("\n"@ + paragraph) + after,
        after.len() > 0 ==> after[0] == '\n',
    ensures
        has_paragraph(told, paragraph),
{
    reveal_strlit("\n");
    let whole = "\n"@ + told;
    let at = before.len() as int;
    assert(whole.len() == told.len() + 1);
    assert(whole.len() == before.len() + 1 + paragraph.len() + after.len());
    assert forall|i: int| 0 <= i < paragraph.len() implies paragraph[i] == whole[at + 1 + i] by {}
    assert forall|i: int| 0 <= i < told.len() implies told[i] == whole[i + 1] by {}
    assert(told.subrange(at, at + paragraph.len()) == paragraph);
    if at > 0 {
        assert(whole[at] == '\n');
        assert(told[at - 1] == whole[at]);
    }
    if at + paragraph.len() < told.len() {
        assert(told[at + paragraph.len()] == after[0]);
    }
}

/// A lesson becomes an event exactly where both its times can be read, with these times and
/// the identifier of the lesson; else the complaint is that about the start, or about the
/// end where only that one cannot be read.
pub proof fn law_lesson_becomes_its_event(date: Date, lesson: LessonView, now: Seq<char>)
    ensures
        lesson_lines(date, lesson, now) is Ok <==> lesson_time(lesson.time_start) is Ok
            && lesson_time(lesson.time_end) is Ok,
        lesson_lines(date, lesson, now) is Ok ==> lesson_lines(date, lesson, now)->Ok_0
            == event_lines(
            date,
            lesson_time(lesson.time_start)->Ok_0,
            lesson_time(lesson.time_end)->Ok_0,
            event_uid_text(date, lesson),
            lesson,
            now,
        ),
        lesson_time(lesson.time_start) is Err ==> lesson_lines(date, lesson, now) == Err::<
            Seq<Seq<char>>,
            Seq<char>,
        >(lesson_time(lesson.time_start)->Err_0),
        lesson_time(lesson.time_start) is Ok && lesson_time(lesson.time_end) is Err
            ==> lesson_lines(date, lesson, now) == Err::<Seq<Seq<char>>, Seq<char>>(
            lesson_time(lesson.time_end)->Err_0,
        ),
{
}

/// What two runs give one behind the other: the lines of both, or the first complaint.
pub open spec fn one_behind_the_other(
    first: Result<Seq<Seq<char>>, Seq<char>>,
    second: Result<Seq<Seq<char>>, Seq<char>>,
) -> Result<Seq<Seq<char>>, Seq<char>> {
    match (first, second) {
        (Err(message), _) => Err(message),
        (Ok(_), Err(message)) => Err(message),
        (Ok(lines), Ok(more)) => Ok(lines + more),
    }
}

/// The lessons of a day become events one by one, each as if it were the only one, in their
/// order.
pub proof fn law_lessons_are_told_one_by_one(
    date: Date,
    first: Seq<LessonView>,
    second: Seq<LessonView>,
    lesson: LessonView,
    now: Seq<char>,
)
    ensures
        lessons_lines(date, first + second, now) == one_behind_the_other(
            lessons_lines(date, first, now),
            lessons_lines(date, second, now),
        ),
        lessons_lines(date, seq![lesson], now) == lesson_lines(date, lesson, now),
        lessons_lines(date, Seq::empty(), now) == Ok::<Seq<Seq<char>>, Seq<char>>(Seq::empty()),
{
    lemma_lessons_concat(date, first, second, now);
    lemma_one_lesson(date, lesson, now);
}

proof fn lemma_one_lesson(date: Date, lesson: LessonView, now: Seq<char>)
    ensures
        lessons_lines(date, seq![lesson], now) == lesson_lines(date, lesson, now),
        lessons_lines(date, Seq::empty(), now) == Ok::<Seq<Seq<char>>, Seq<char>>(Seq::empty()),
{
    let none = Seq::<LessonView>::empty();
    let no_lines = Seq::<Seq<char>>::empty();
    assert(seq![lesson].drop_last() == none);
    assert(lessons_lines(date, none, now) == Ok::<Seq<Seq<char>>, Seq<char>>(no_lines));
    let told = lesson_lines(date, lesson, now);
    if told is Ok {
        assert(no_lines + told->Ok_0 == told->Ok_0);
    }
}

proof fn lemma_lessons_concat(
    date: Date,
    first: Seq<LessonView>,
    second: Seq<LessonView>,
    now: Seq<char>,
)
    ensures
        lessons_lines(date, first + second, now) == one_behind_the_other(
            lessons_lines(date, first, now),
            lessons_lines(date, second, now),
        ),
    decreases second.len(),
{
    let all = first + second;
    if second.len() == 0 {
        let told = lessons_lines(date, first, now);
        assert(all == first);
        if told is Ok {
            assert(told->Ok_0 + Seq::<Seq<char>>::empty() == told->Ok_0);
        }
    } else {
        lemma_lessons_concat(date, first, second.drop_last(), now);
        assert(all.drop_last() == first + second.drop_last());
        assert(all.last() == second.last());
        lemma_behind(
            lessons_lines(date, first, now),
            lessons_lines(date, second.drop_last(), now),
            lesson_lines(date, second.last(), now),
        );
    }
}

proof fn lemma_behind(
    first: Result<Seq<Seq<char>>, Seq<char>>,
    second: Result<Seq<Seq<char>>, Seq<char>>,
    third: Result<Seq<Seq<char>>, Seq<char>>,
)
    ensures
        one_behind_the_other(one_behind_the_other(first, second), third) == one_behind_the_other(
            first,
            one_behind_the_other(second, third),
        ),
{
    if first is Ok && second is Ok && third is Ok {
        assert(first->Ok_0 + second->Ok_0 + third->Ok_0 == first->Ok_0 + (second->Ok_0
            + third->Ok_0));
    }
}

/// The days are told one by one, each as if it were the only one, in their order; the
/// lessons of a day all have its date, and a day whose date cannot be read is complained
/// about.
pub proof fn law_days_are_told_one_by_one(
    first: Seq<ScheduleDayView>,
    second: Seq<ScheduleDayView>,
    day: ScheduleDayView,
    now: Seq<char>,
)
    ensures
        days_lines(first + second, now) == one_behind_the_other(
            days_lines(first, now),
            days_lines(second, now),
        ),
        days_lines(Seq::empty(), now) == Ok::<Seq<Seq<char>>, Seq<char>>(Seq::empty()),
        date_read(day.date) is Some ==> days_lines(seq![day], now) == lessons_lines(
            date_read(day.date)->0,
            day.lessons,
            now,
        ),
        date_read(day.date) is None ==> days_lines(seq![day], now) == Err::<
            Seq<Seq<char>>,
            Seq<char>,
        >("ITMO returned an invalid lesson date: "@ + day.date),
    decreases second.len(),
{
    let all = first + second;
    let none = Seq::<ScheduleDayView>::empty();
    if second.len() == 0 {
        assert(all == first);
        if let Ok(lines) = days_lines(first, now) {
            assert(lines + Seq::<Seq<char>>::empty() == lines);
        }
    } else {
        law_days_are_told_one_by_one(first, second.drop_last(), day, now);
        assert(all.drop_last() == first + second.drop_last());
        assert(all.last() == second.last());
        lemma_behind(
            days_lines(first, now),
            days_lines(second.drop_last(), now),
            day_lines(second.last(), now),
        );
        assert(days_lines(all, now) == one_behind_the_other(
            days_lines(all.drop_last(), now),
            day_lines(all.last(), now),
        ));
    }
    assert(seq![day].drop_last() == none);
    assert(days_lines(none, now) == Ok::<Seq<Seq<char>>, Seq<char>>(Seq::empty()));
    if let Ok(lines) = day_lines(day, now) {
        assert(Seq::<Seq<char>>::empty() + lines == lines);
    }
}

/// The empty calendar is the same at all times.
pub proof fn law_empty_calendar_is_always_the_same(now: Seq<char>, other: Seq<char>)
    ensures
        calendar_lines(Seq::empty(), now) is Ok,
        calendar_lines(Seq::empty(), now) == calendar_lines(Seq::empty(), other),
        calendar_lines(Seq::empty(), now)->Ok_0.len() == 18,
        calendar_lines(Seq::empty(), now)->Ok_0[0] == "BEGIN:VCALENDAR"@,
        calendar_lines(Seq::empty(), now)->Ok_0.last() == "END:VCALENDAR"@,
{
    let none = Seq::<ScheduleDayView>::empty();
    assert(days_lines(none, now) == Ok::<Seq<Seq<char>>, Seq<char>>(Seq::empty()));
    assert(days_lines(none, other) == Ok::<Seq<Seq<char>>, Seq<char>>(Seq::empty()));
}

/// The empty calendar is what stands in front of the events and behind them.
proof fn lemma_empty_calendar(now: Seq<char>)
    ensures
        calendar_lines(Seq::empty(), now) is Ok,
        calendar_lines(Seq::empty(), now)->Ok_0.drop_last() == header_lines(),
{
    let none = Seq::<ScheduleDayView>::empty();
    let no_lines = Seq::<Seq<char>>::empty();
    assert(days_lines(none, now) == Ok::<Seq<Seq<char>>, Seq<char>>(no_lines));
    let head = header_lines();
    let end = seq!["END:VCALENDAR"@];
    assert((head + no_lines + end).drop_last() == head);
}

/// A calendar is the empty calendar with the events of the days in front of its last line,
/// and what is complained about is what the days are complained about.
pub proof fn law_calendar_frames_its_events(days: Seq<ScheduleDayView>, now: Seq<char>)
    ensures
        match days_lines(days, now) {
            Err(message) => calendar_text(days, now) == Err::<Seq<char>, Seq<char>>(message),
            Ok(lines) => calendar_text(days, now) == Ok::<Seq<char>, Seq<char>>(
                document(
                    calendar_lines(Seq::empty(), now)->Ok_0.drop_last() + lines
                        + seq!["END:VCALENDAR"@],
                ),
            ),
        },
{
    lemma_empty_calendar(now);
}

/// Whether all of a lesson can be read.
pub open spec fn is_readable(lesson: LessonView) -> bool {
    lesson_time(lesson.time_start) is Ok && lesson_time(lesson.time_end) is Ok
}

/// There is a calendar exactly where the date of every day and both times of every lesson
/// can be read.
pub proof fn law_calendar_is_refused_only_for_what_cannot_be_read(
    days: Seq<ScheduleDayView>,
    now: Seq<char>,
)
    ensures
        calendar_text(days, now) is Ok <==> forall|i: int|
            0 <= i < days.len() ==> {
                &&& date_read((#[trigger] days[i]).date) is Some
                &&& forall|j: int|
                    0 <= j < days[i].lessons.len() ==> is_readable(#[trigger] days[i].lessons[j])
            },
{
    lemma_days_readable(days, now);
}

proof fn lemma_lessons_readable(date: Date, lessons: Seq<LessonView>, now: Seq<char>)
    ensures
        lessons_lines(date, lessons, now) is Ok <==> forall|j: int|
            0 <= j < lessons.len() ==> is_readable(#[trigger] lessons[j]),
    decreases lessons.len(),
{
    if lessons.len() > 0 {
        let before = lessons.drop_last();
        lemma_lessons_readable(date, before, now);
        law_lesson_becomes_its_event(date, lessons.last(), now);
        assert forall|j: int| 0 <= j < before.len() implies before[j] == #[trigger] lessons[j] by {}
        if forall|j: int| 0 <= j < lessons.len() ==> is_readable(#[trigger] lessons[j]) {
            assert forall|j: int| 0 <= j < before.len() implies is_readable(
                #[trigger] before[j],
            ) by {
                assert(is_readable(lessons[j]));
            }
            assert(is_readable(lessons[lessons.len() - 1]));
        }
        if lessons_lines(date, lessons, now) is Ok {
            assert forall|j: int| 0 <= j < lessons.len() implies is_readable(
                #[trigger] lessons[j],
            ) by {
                if j < before.len() {
                    assert(is_readable(before[j]));
                }
            }
        }
    }
}

/// Whether all of a day can be read.
spec fn is_readable_day(day: ScheduleDayView) -> bool {
    date_read(day.date) is Some && forall|j: int|
        0 <= j < day.lessons.len() ==> is_readable(#[trigger] day.lessons[j])
}

proof fn lemma_days_readable(days: Seq<ScheduleDayView>, now: Seq<char>)
    ensures
        days_lines(days, now) is Ok <==> forall|i: int|
            0 <= i < days.len() ==> is_readable_day(#[trigger] days[i]),
    decreases days.len(),
{
    if days.len() > 0 {
        let before = days.drop_last();
        let day = days.last();
        lemma_days_readable(before, now);
        if date_read(day.date) is Some {
            lemma_lessons_readable(date_read(day.date)->0, day.lessons, now);
        }
        assert(day_lines(day, now) is Ok <==> is_readable_day(day));
        if forall|i: int| 0 <= i < days.len() ==> is_readable_day(#[trigger] days[i]) {
            assert forall|i: int| 0 <= i < before.len() implies is_readable_day(
                #[trigger] before[i],
            ) by {
                assert(is_readable_day(days[i]));
            }
            assert(is_readable_day(days[days.len() - 1]));
        }
        if days_lines(days, now) is Ok {
            assert forall|i: int| 0 <= i < days.len() implies is_readable_day(
                #[trigger] days[i],
            ) by {
                if i < before.len() {
                    assert(is_readable_day(before[i]));
                }
            }
        }
    }
}

/// The identifier of an event is the digest of the number of its lesson, or, for one without
/// a number, of its day, start, subject, type and group with bars between them.
pub proof fn law_identifier_is_a_digest(date: Date, lesson: LessonView)
    ensures
        lesson.id is Some ==> event_uid_text(date, lesson) == lower_hex(
            sha256(encode_utf8("itmo-id:"@ + lesson.id->0)),
        ) + "@itmo-calendar-sync.local"@,
        lesson.id is None ==> event_uid_text(date, lesson) == lower_hex(
            sha256(
                encode_utf8(
                    iso_date(date) + "|"@ + lesson.time_start + "|"@ + lesson.subject + "|"@
                        + or_empty(lesson.lesson_type) + "|"@ + or_empty(lesson.group),
                ),
            ),
        ) + "@itmo-calendar-sync.local"@,
        tells(lesson.group) ==> or_empty(lesson.group) == lesson.group->0,
        !tells(lesson.group) ==> or_empty(lesson.group).len() == 0,
        tells(lesson.lesson_type) ==> or_empty(lesson.lesson_type) == lesson.lesson_type->0,
        !tells(lesson.lesson_type) ==> or_empty(lesson.lesson_type).len() == 0,
{
}

/// The value of a lower-case hexadecimal digit.
pub open spec fn hex_value(c: char) -> int {
    if '0' <= c && c <= '9' {
        c as int - 48
    } else if 'a' <= c && c <= 'f' {
        c as int - 87
    } else {
        -1
    }
}

/// Hexadecimal can be read back: two lower-case digits for each byte, the upper half first.
pub proof fn law_hexadecimal_is_read_back(bytes: Seq<u8>, i: int)
    requires
        0 <= i < bytes.len(),
    ensures
        lower_hex(bytes).len() == 2 * bytes.len(),
        0 <= hex_value(lower_hex(bytes)[2 * i]) < 16,
        0 <= hex_value(lower_hex(bytes)[2 * i + 1]) < 16,
        hex_value(lower_hex(bytes)[2 * i]) * 16 + hex_value(lower_hex(bytes)[2 * i + 1])
            == bytes[i],
    decreases bytes.len(),
{
    let before = bytes.drop_last();
    lemma_lower_hex_len(bytes);
    lemma_lower_hex_len(before);
    let high = bytes.last() as int / 16;
    let low = bytes.last() as int % 16;
    if i < before.len() {
        law_hexadecimal_is_read_back(before, i);
        assert(lower_hex(bytes)[2 * i] == lower_hex(before)[2 * i]);
        assert(lower_hex(bytes)[2 * i + 1] == lower_hex(before)[2 * i + 1]);
    } else {
        assert(lower_hex(bytes)[2 * i] == hex_digit(high));
        assert(lower_hex(bytes)[2 * i + 1] == hex_digit(low));
    }
}

/// The time of a lesson is what its text says with seconds, else what it says without, and
/// where it says neither the complaint holds the text.
pub proof fn law_time_is_read_with_seconds_first(value: Seq<char>)
    ensures
        time_read(value, "%H:%M:%S"@) is Some ==> lesson_time(value) == Ok::<TimeOfDay, Seq<char>>(
            time_read(value, "%H:%M:%S"@)->0,
        ),
        time_read(value, "%H:%M:%S"@) is None && time_read(value, "%H:%M"@) is Some
            ==> lesson_time(value) == Ok::<TimeOfDay, Seq<char>>(time_read(value, "%H:%M"@)->0),
        time_read(value, "%H:%M:%S"@) is None && time_read(value, "%H:%M"@) is None
            ==> lesson_time(value) == Err::<TimeOfDay, Seq<char>>(
            "ITMO returned an invalid lesson time: "@ + value,
        ),
{
}

/// A time that is written as hours, minutes and seconds, two digits each, is the time that
/// it says, where a clock shows it; second sixty is a leap second.
pub proof fn law_written_second_is_read(value: Seq<char>)
    requires
        is_second_text(value),
    ensures
        ({
            let hour = two_digits_at(value, 0);
            let minute = two_digits_at(value, 3);
            let second = two_digits_at(value, 6);
            let start = hour * 3600 + minute * 60;
            &&& hour < 24 && minute < 60 && second < 60 ==> lesson_time(value) == Ok::<
                TimeOfDay,
                Seq<char>,
            >(TimeOfDay { seconds: (start + second) as u32, nanos: 0 })
            &&& hour < 24 && minute < 60 && second == 60 ==> lesson_time(value) == Ok::<
                TimeOfDay,
                Seq<char>,
            >(TimeOfDay { seconds: (start + 59) as u32, nanos: 1_000_000_000 })
            &&& hour >= 24 || minute >= 60 || second > 60 ==> lesson_time(value) == Err::<
                TimeOfDay,
                Seq<char>,
            >("ITMO returned an invalid lesson time: "@ + value)
        }),
{
    reveal_strlit("%H:%M");
    reveal_strlit("%H:%M:%S");
    assert("%H:%M"@.len() != "%H:%M:%S"@.len());
}

/// A time or a date that is written in some other way is what `chrono` reads in it.
pub proof fn law_other_texts_are_left_to_chrono(text: Seq<char>, format: Seq<char>)
    ensures
        !is_minute_text(text) && !is_second_text(text) ==> match time_from_str(text, format) {
            Some(time) => time.valid() ==> time_read(text, format) == Some(time),
            None => time_read(text, format) is None,
        },
        !is_date_text(text) ==> match date_from_str(text, "%Y-%m-%d"@) {
            Some(date) => date.valid() ==> date_read(text) == Some(date),
            None => date_read(text) is None,
        },
{
}

/// A date that was read from four, two and two digits is written with just these digits.
pub proof fn law_read_date_is_written(text: Seq<char>)
    requires
        is_date_text(text),
        date_read(text) is Some,
    ensures
        iso_date(date_read(text)->0) == text,
        date_read(text)->0.valid(),
{
    let date = date_read(text)->0;
    let year = two_digits_at(text, 0) * 100 + two_digits_at(text, 2);
    assert(date.year == year);
    assert(year / 100 == two_digits_at(text, 0) && year % 100 == two_digits_at(text, 2));
    lemma_two_digits(text, 0);
    lemma_two_digits(text, 2);
    lemma_two_digits(text, 5);
    lemma_two_digits(text, 8);
    assert(iso_date(date) == text);
}

proof fn lemma_two_digits(text: Seq<char>, at: int)
    requires
        0 <= at < at + 1 < text.len(),
        '0' <= text[at] <= '9',
        '0' <= text[at + 1] <= '9',
    ensures
        two_digits(two_digits_at(text, at)) == seq![text[at], text[at + 1]],
{
    let high = text[at] as int - 48;
    let low = text[at + 1] as int - 48;
    assert((high * 10 + low) / 10 == high && (high * 10 + low) % 10 == low);
}

/// A field that tells something is a detail behind its label, and any other is none; the
/// first of two readings of a time counts; and an event is made of what both times came to.
pub proof fn law_pieces_of_an_event(
    label: Seq<char>,
    field: Option<Seq<char>>,
    value: Seq<char>,
    first: Option<TimeOfDay>,
    second: Option<TimeOfDay>,
)
    ensures
        tells(field) ==> detail(label, field) == seq![label + ": "@ + field->0],
        !tells(field) ==> detail(label, field).len() == 0,
        first is Some ==> chosen_time(value, first, second) == Ok::<TimeOfDay, Seq<char>>(first->0),
        first is None && second is Some ==> chosen_time(value, first, second) == Ok::<
            TimeOfDay,
            Seq<char>,
        >(second->0),
        first is None && second is None ==> chosen_time(value, first, second) == Err::<
            TimeOfDay,
            Seq<char>,
        >("ITMO returned an invalid lesson time: "@ + value),
{
}

/// An event is made of the times that it is given, and where one of them is a complaint the
/// first complaint is passed on; a day is made of the date that it is given.
pub proof fn law_given_times_and_dates_count(
    date: Date,
    start: Result<TimeOfDay, Seq<char>>,
    end: Result<TimeOfDay, Seq<char>>,
    uid: Seq<char>,
    lesson: LessonView,
    day: ScheduleDayView,
    now: Seq<char>,
)
    ensures
        start is Err ==> timed_event_lines(date, start, end, uid, lesson, now) == Err::<
            Seq<Seq<char>>,
            Seq<char>,
        >(start->Err_0),
        start is Ok && end is Err ==> timed_event_lines(date, start, end, uid, lesson, now)
            == Err::<Seq<Seq<char>>, Seq<char>>(end->Err_0),
        start is Ok && end is Ok ==> timed_event_lines(date, start, end, uid, lesson, now) == Ok::<
            Seq<Seq<char>>,
            Seq<char>,
        >(event_lines(date, start->Ok_0, end->Ok_0, uid, lesson, now)),
        dated_day_lines(Some(date), day, now) == lessons_lines(date, day.lessons, now),
        dated_day_lines(None, day, now) == Err::<Seq<Seq<char>>, Seq<char>>(
            "ITMO returned an invalid lesson date: "@ + day.date,
        ),
{
}

/// Lines that could be made are put behind the document, and a complaint is returned.
pub proof fn law_lines_go_behind_the_document(
    before: Seq<char>,
    lines: Result<Seq<Seq<char>>, Seq<char>>,
    after: Seq<char>,
    result: Result<(), AnyError>,
)
    requires
        appended(before, lines, after, result),
    ensures
        result is Ok <==> lines is Ok,
        lines is Ok ==> after == before + document(lines->Ok_0),
        lines is Err ==> result->Err_0@ == lines->Err_0,
{
}

/// Parts are joined with the separator between each two of them, and a single part stands
/// alone.
pub proof fn law_parts_are_joined(
    first: Seq<Seq<char>>,
    second: Seq<Seq<char>>,
    one: Seq<char>,
    separator: Seq<char>,
)
    ensures
        first.len() > 0 && second.len() > 0 ==> joined(first + second, separator) == joined(
            first,
            separator,
        ) + separator + joined(second, separator),
        joined(seq![one], separator) == one,
        joined(Seq::empty(), separator).len() == 0,
{
    lemma_joined_concat(first, second, separator);
}

} // verus!
