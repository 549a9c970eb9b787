//! What holds of every calendar.

use vstd::prelude::*;
use vstd::utf8::encode_utf8;

use crate::calendar::{
    calendar_lines, calendar_text, content_line, day_lines, days_lines, description_lines, details,
    document, escaped, escaped_char, event_lines, event_uid_text, folded_from, header_lines,
    lesson_lines, lesson_time, lessons_lines, location, location_lines, or_empty, MAX_BYTES,
};
use crate::codes::sha256;
use crate::dates::{
    basic_date_time, date_read, day_number, four_digits, is_date_text, is_day_at, is_minute_text,
    is_moment, is_stamp_of, is_utc_stamp, iso_date, plain_date, two_digits, two_digits_at,
    year_text, Date, TimeOfDay,
};
use crate::itmo::{lesson_count, LessonView, ScheduleDayView};
use crate::text::{decimal, joined, lower_hex, replaced, utf8_width};

verus! {

/// Reads an iCalendar text value: behind a backslash, `n` stands for a line feed and every
/// other character for itself.
pub open spec fn unescaped(text: Seq<char>) -> Seq<char>
    decreases text.len(),
{
    if text.len() == 0 {
        Seq::empty()
    } else if text.len() > 1 && text[0] == '\\' {
        seq![
            if text[1] == 'n' {
                '\n'
            } else {
                text[1]
            },
        ] + unescaped(text.skip(2))
    } else {
        seq![text[0]] + unescaped(text.skip(1))
    }
}

/// Escaping loses nothing: reading an escaped text gives the text back.
pub proof fn law_unescape_escaped(text: Seq<char>)
    ensures
        unescaped(escaped(text)) == text,
    decreases text.len(),
{
    if text.len() > 0 {
        law_unescape_escaped(text.skip(1));
        let rest = escaped(text.skip(1));
        let whole = escaped_char(text[0]) + rest;
        assert(whole.skip(escaped_char(text[0]).len() as int) == rest);
        assert(unescaped(whole) == seq![text[0]] + unescaped(rest));
        assert(seq![text[0]] + text.skip(1) == text);
    }
}

/// An escaped text holds no line feed.
pub proof fn law_escaped_has_no_line_feed(text: Seq<char>)
    ensures
        !escaped(text).contains('\n'),
    decreases text.len(),
{
    if text.len() > 0 {
        law_escaped_has_no_line_feed(text.skip(1));
        let rest = escaped(text.skip(1));
        assert forall|i: int| 0 <= i < escaped(text).len() implies escaped(text)[i] != '\n' by {
            let head = escaped_char(text[0]);
            if i >= head.len() {
                assert(escaped(text)[i] == rest[i - head.len()]);
            }
        }
    }
}

/// How many bytes the text takes in UTF-8.
pub open spec fn octets(text: Seq<char>) -> nat {
    encode_utf8(text).len()
}

/// Whether the text between the two positions holds no end of a line.
pub open spec fn within_line(text: Seq<char>, from: int, to: int) -> bool {
    forall|i: int| from <= i < to ==> text[i] != '\r' && text[i] != '\n'
}

/// Whether no line of the text takes more bytes than are allowed.
pub open spec fn lines_fit(text: Seq<char>) -> bool {
    forall|from: int, to: int|
        0 <= from <= to <= text.len() && #[trigger] within_line(text, from, to) ==> octets(
            text.subrange(from, to),
        ) <= MAX_BYTES
}

proof fn lemma_width(c: char)
    ensures
        1 <= utf8_width(c) <= 4,
{
}

proof fn lemma_octets_first(text: Seq<char>)
    requires
        text.len() > 0,
    ensures
        octets(text) == utf8_width(text[0]) + octets(text.skip(1)),
{
    assert(text.drop_first() == text.skip(1));
}

/// The rest of a content line keeps within its lines, and its first line within what is
/// left of the one that it goes on.
proof fn lemma_folded_fits(line: Seq<char>, used: int)
    requires
        0 <= used <= MAX_BYTES,
    ensures
        lines_fit(folded_from(line, used)),
        forall|to: int|
            0 <= to <= folded_from(line, used).len() && #[trigger] within_line(
                folded_from(line, used),
                0,
                to,
            ) ==> octets(folded_from(line, used).subrange(0, to)) <= MAX_BYTES - used,
    decreases line.len(),
{
    let whole = folded_from(line, used);
    if line.len() == 0 {
        assert(whole == seq!['\r', '\n']);
        assert forall|from: int, to: int|
            0 <= from <= to <= whole.len() && within_line(whole, from, to) implies octets(
            whole.subrange(from, to),
        ) == 0 by {
            if from < to {
                assert(whole[from] == '\r' || whole[from] == '\n');
            }
        }
    } else {
        let c = line[0];
        let width = utf8_width(c) as int;
        lemma_width(c);
        let fold = used > 0 && used + width > MAX_BYTES;
        let next = if fold {
            1 + width
        } else {
            used + width
        };
        let rest = folded_from(line.skip(1), next);
        lemma_folded_fits(line.skip(1), next);
        let head = if fold {
            seq!['\r', '\n', ' ', c]
        } else {
            seq![c]
        };
        assert(whole == head + rest);
        let n = head.len() as int;
        let m = n - 1;
        // A run that starts at the character, behind the fold if there is one.
        assert forall|to: int|
            n <= to <= whole.len() && #[trigger] within_line(whole, m, to) implies octets(
            whole.subrange(m, to),
        ) <= width + MAX_BYTES - next by {
            assert(within_line(rest, 0, to - n)) by {
                assert forall|i: int| 0 <= i < to - n implies rest[i] != '\r' && rest[i]
                    != '\n' by {
                    assert(whole[i + n] == rest[i]);
                }
            }
            let run = whole.subrange(m, to);
            assert(run[0] == c);
            assert(run.skip(1) == rest.subrange(0, to - n));
            lemma_octets_first(run);
        }
        assert forall|from: int, to: int|
            0 <= from <= to <= whole.len() && #[trigger] within_line(whole, from, to) implies octets(
            whole.subrange(from, to),
        ) <= if from == 0 {
            MAX_BYTES - used
        } else {
            MAX_BYTES as int
        } by {
            let run = whole.subrange(from, to);
            if from == to {
                assert(run.len() == 0);
            } else if from >= n {
                assert(within_line(rest, from - n, to - n)) by {
                    assert forall|i: int| from - n <= i < to - n implies rest[i] != '\r' && rest[i]
                        != '\n' by {
                        assert(whole[i + n] == rest[i]);
                    }
                }
                assert(run == rest.subrange(from - n, to - n));
            } else if from == m {
            } else {
                assert(fold);
                assert(whole[from] == head[from]);
                assert(from == 2);
                lemma_octets_first(run);
                assert(run[0] == ' ');
                assert(utf8_width(' ') == 1);
                if to == 3 {
                    assert(run.skip(1).len() == 0);
                } else {
                    assert(within_line(whole, 3, to));
                    assert(run.skip(1) == whole.subrange(3, to));
                }
            }
        }
    }
}

/// No line that a content line is written on takes more than seventy-three bytes, whatever
/// the content line holds.
pub proof fn law_content_line_fits(line: Seq<char>)
    ensures
        lines_fit(content_line(line)),
{
    lemma_folded_fits(line, 0);
}

/// What a fold puts into a content line.
pub open spec fn fold_mark() -> Seq<char> {
    seq!['\r', '\n', ' ']
}

/// The text with every fold taken out.
pub open spec fn unfolded(text: Seq<char>) -> Seq<char> {
    replaced(text, fold_mark(), Seq::empty())
}

/// Whether the text itself looks like a fold at the position.
pub open spec fn fold_mark_at(text: Seq<char>, position: int) -> bool {
    position + 2 < text.len() && text[position] == '\r' && text[position + 1] == '\n'
        && text[position + 2] == ' '
}

/// Whether the text itself looks like a fold somewhere.
pub open spec fn has_fold_mark(text: Seq<char>) -> bool {
    exists|position: int| 0 <= position && #[trigger] fold_mark_at(text, position)
}

proof fn lemma_folded_first(line: Seq<char>, used: int)
    ensures
        folded_from(line, used).len() >= 2,
        folded_from(line, used)[0] == '\r' || (line.len() > 0 && folded_from(line, used)[0]
            == line[0] && folded_from(line, used).skip(1) == folded_from(
            line.skip(1),
            used + utf8_width(line[0]),
        )),
    decreases line.len(),
{
    if line.len() > 0 {
        lemma_folded_first(line.skip(1), used + utf8_width(line[0]));
        lemma_folded_first(line.skip(1), 1int + utf8_width(line[0]));
        if !(used > 0 && used + utf8_width(line[0]) > MAX_BYTES) {
            assert(folded_from(line, used).skip(1) == folded_from(
                line.skip(1),
                used + utf8_width(line[0]),
            ));
        }
    }
}

proof fn lemma_unfold_from(line: Seq<char>, used: int)
    requires
        !has_fold_mark(line),
    ensures
        unfolded(folded_from(line, used)) == line + seq!['\r', '\n'],
    decreases line.len(),
{
    let mark = fold_mark();
    let whole = folded_from(line, used);
    if line.len() == 0 {
        reveal_with_fuel(replaced, 3);
        assert(whole.skip(1) == seq!['\n']);
        assert(whole.skip(1).skip(1) == Seq::<char>::empty());
        assert(unfolded(whole) == seq!['\r', '\n']);
    } else {
        let c = line[0];
        let rest = line.skip(1);
        let width = utf8_width(c) as int;
        let fold = used > 0 && used + width > MAX_BYTES;
        let next = if fold {
            1 + width
        } else {
            used + width
        };
        let behind = folded_from(rest, next);
        let piece = seq![c] + behind;
        assert(!has_fold_mark(rest)) by {
            assert forall|p: int| 0 <= p implies !#[trigger] fold_mark_at(rest, p) by {
                assert(!fold_mark_at(line, p + 1));
            }
        }
        lemma_unfold_from(rest, next);
        assert(piece.skip(1) == behind);
        if mark.is_prefix_of(piece) {
            assert(piece.subrange(0, 3)[0] == '\r');
            assert(piece.subrange(0, 3)[1] == '\n');
            assert(piece.subrange(0, 3)[2] == ' ');
            lemma_folded_first(rest, next);
            assert(behind[0] == '\n' && rest[0] == '\n');
            let later = folded_from(rest.skip(1), next + utf8_width(rest[0]));
            lemma_folded_first(rest.skip(1), next + utf8_width(rest[0]));
            assert(behind.skip(1)[0] == ' ');
            assert(rest.skip(1)[0] == ' ');
            assert(fold_mark_at(line, 0));
        }
        assert(unfolded(piece) == seq![c] + (rest + seq!['\r', '\n']));
        assert(line == seq![c] + rest);
        if fold {
            assert(whole == mark + piece);
            assert(mark.is_prefix_of(whole)) by {
                assert(whole.subrange(0, 3) == mark);
            }
            assert(whole.skip(3) == piece);
            assert(unfolded(whole) == Seq::<char>::empty() + unfolded(piece));
        } else {
            assert(whole == piece);
        }
        assert(unfolded(whole) == line + seq!['\r', '\n']);
    }
}

/// Folding loses nothing: without the folds, what a content line is written as is the line
/// and its end. This is of lines that do not look like folded ones themselves.
pub proof fn law_unfold_content_line(line: Seq<char>)
    requires
        !has_fold_mark(line),
    ensures
        unfolded(content_line(line)) == line + seq!['\r', '\n'],
{
    lemma_unfold_from(line, 0);
}

/// Whether the text can be one content line among others: it holds no line feed, and it
/// does not start like the continuation of the line before.
pub open spec fn is_logical_line(line: Seq<char>) -> bool {
    !line.contains('\n') && (line.len() > 0 ==> line[0] != ' ')
}

/// The content lines, each with its end behind it.
pub open spec fn plain_document(lines: Seq<Seq<char>>) -> Seq<char>
    decreases lines.len(),
{
    if lines.len() == 0 {
        Seq::empty()
    } else {
        plain_document(lines.drop_last()) + lines.last() + seq!['\r', '\n']
    }
}

proof fn lemma_unfold_concat(first: Seq<char>, second: Seq<char>)
    requires
        first.len() > 0 ==> first.last() == '\n',
        second.len() > 0 ==> second[0] != ' ',
    ensures
        unfolded(first + second) == unfolded(first) + unfolded(second),
    decreases first.len(),
{
    let mark = fold_mark();
    let whole = first + second;
    if first.len() == 0 {
        assert(whole == second);
        assert(unfolded(first) + unfolded(second) == unfolded(second));
    } else if mark.is_prefix_of(first) {
        assert(first.subrange(0, 3)[2] == ' ');
        assert(whole.subrange(0, 3) == first.subrange(0, 3));
        assert(whole.skip(3) == first.skip(3) + second);
        if first.len() > 3 {
            assert(first.skip(3).last() == first.last());
        }
        lemma_unfold_concat(first.skip(3), second);
        assert(unfolded(whole) == unfolded(first) + unfolded(second));
    } else {
        assert(!mark.is_prefix_of(whole)) by {
            if mark.is_prefix_of(whole) {
                assert(whole.subrange(0, 3)[0] == '\r');
                assert(whole.subrange(0, 3)[1] == '\n');
                assert(whole.subrange(0, 3)[2] == ' ');
                if first.len() >= 3 {
                    assert(first.subrange(0, 3) == whole.subrange(0, 3));
                } else if first.len() == 2 {
                    assert(whole[2] == second[0]);
                } else {
                    assert(whole[0] == first[0]);
                }
            }
        }
        assert(whole.skip(1) == first.skip(1) + second);
        if first.len() > 1 {
            assert(first.skip(1).last() == first.last());
        }
        lemma_unfold_concat(first.skip(1), second);
        assert(unfolded(whole) == unfolded(first) + unfolded(second));
    }
}

proof fn lemma_folded_last(line: Seq<char>, used: int)
    ensures
        folded_from(line, used).len() >= 2,
        folded_from(line, used).last() == '\n',
    decreases line.len(),
{
    if line.len() > 0 {
        lemma_folded_last(line.skip(1), 1int + utf8_width(line[0]));
        lemma_folded_last(line.skip(1), used + utf8_width(line[0]));
    }
}

proof fn lemma_document_last(lines: Seq<Seq<char>>)
    ensures
        document(lines).len() > 0 ==> document(lines).last() == '\n',
{
    if lines.len() > 0 {
        lemma_folded_last(lines.last(), 0);
    }
}

/// Taking the folds out of a document gives its content lines, each as it was, one behind
/// the other.
pub proof fn law_unfold_document(lines: Seq<Seq<char>>)
    requires
        forall|i: int| 0 <= i < lines.len() ==> is_logical_line(#[trigger] lines[i]),
    ensures
        unfolded(document(lines)) == plain_document(lines),
    decreases lines.len(),
{
    if lines.len() > 0 {
        law_unfold_document(lines.drop_last());
        let line = lines.last();
        assert(is_logical_line(lines[lines.len() - 1]));
        assert(!has_fold_mark(line)) by {
            assert forall|p: int| 0 <= p implies !#[trigger] fold_mark_at(line, p) by {
                if fold_mark_at(line, p) {
                    assert(line[p + 1] == '\n');
                }
            }
        }
        law_unfold_content_line(line);
        lemma_document_last(lines.drop_last());
        lemma_folded_first(line, 0);
        lemma_unfold_concat(document(lines.drop_last()), content_line(line));
        assert(unfolded(document(lines)) == plain_document(lines));
    } else {
        assert(unfolded(document(lines)) == Seq::<char>::empty());
    }
}

/// No line of a document takes more than seventy-three bytes, whatever its content lines
/// hold.
pub proof fn law_document_fits(lines: Seq<Seq<char>>)
    ensures
        lines_fit(document(lines)),
    decreases lines.len(),
{
    let whole = document(lines);
    if lines.len() > 0 {
        law_document_fits(lines.drop_last());
        law_content_line_fits(lines.last());
        lemma_document_last(lines.drop_last());
        let first = document(lines.drop_last());
        let second = content_line(lines.last());
        let n = first.len() as int;
        assert forall|from: int, to: int|
            0 <= from <= to <= whole.len() && #[trigger] within_line(whole, from, to) implies octets(
            whole.subrange(from, to),
        ) <= MAX_BYTES by {
            if to <= n {
                assert(within_line(first, from, to)) by {
                    assert forall|i: int| from <= i < to implies first[i] != '\r' && first[i]
                        != '\n' by {
                        assert(whole[i] == first[i]);
                    }
                }
                assert(whole.subrange(from, to) == first.subrange(from, to));
            } else if from >= n {
                assert(within_line(second, from - n, to - n)) by {
                    assert forall|i: int| from - n <= i < to - n implies second[i] != '\r'
                        && second[i] != '\n' by {
                        assert(whole[i + n] == second[i]);
                    }
                }
                assert(whole.subrange(from, to) == second.subrange(from - n, to - n));
            } else {
                assert(whole[n - 1] == first.last());
            }
        }
    } else {
        assert forall|from: int, to: int|
            0 <= from <= to <= whole.len() && #[trigger] within_line(whole, from, to) implies octets(
            whole.subrange(from, to),
        ) <= MAX_BYTES by {
            assert(whole.subrange(from, to).len() == 0);
        }
    }
}

/// The moment of the stamps decides neither whether there is a calendar nor what is
/// complained about.
pub proof fn law_stamp_decides_nothing(
    days: Seq<ScheduleDayView>,
    now: Seq<char>,
    other: Seq<char>,
)
    ensures
        calendar_text(days, now) is Ok <==> calendar_text(days, other) is Ok,
        calendar_text(days, now) is Err ==> calendar_text(days, now) == calendar_text(days, other),
{
    lemma_days_stamp(days, now, other);
}

proof fn lemma_days_stamp(days: Seq<ScheduleDayView>, now: Seq<char>, other: Seq<char>)
    ensures
        days_lines(days, now) is Ok <==> days_lines(days, other) is Ok,
        days_lines(days, now) is Err ==> days_lines(days, now) == days_lines(days, other),
    decreases days.len(),
{
    if days.len() > 0 {
        lemma_days_stamp(days.drop_last(), now, other);
        let day = days.last();
        if let Some(date) = date_read(day.date) {
            lemma_lessons_stamp(date, day.lessons, now, other);
        }
    }
}

proof fn lemma_lessons_stamp(
    date: Date,
    lessons: Seq<LessonView>,
    now: Seq<char>,
    other: Seq<char>,
)
    ensures
        lessons_lines(date, lessons, now) is Ok <==> lessons_lines(date, lessons, other) is Ok,
        lessons_lines(date, lessons, now) is Err ==> lessons_lines(date, lessons, now)
            == lessons_lines(date, lessons, other),
    decreases lessons.len(),
{
    if lessons.len() > 0 {
        lemma_lessons_stamp(date, lessons.drop_last(), now, other);
    }
}

/// A lesson that has a number keeps the identifier of its event, whatever else of it
/// changes.
pub proof fn law_uid_follows_id(date: Date, lesson: LessonView, other_date: Date, other: LessonView)
    requires
        lesson.id is Some,
        other.id == lesson.id,
    ensures
        event_uid_text(date, lesson) == event_uid_text(other_date, other),
{
}

/// A lesson without a number keeps the identifier of its event as long as its day, start,
/// subject, type and group stay the same. No type is as good as an empty one, and so is no
/// group.
pub proof fn law_uid_follows_slot(date: Date, lesson: LessonView, other: LessonView)
    requires
        lesson.id is None,
        other.id is None,
        other.time_start == lesson.time_start,
        other.subject == lesson.subject,
        or_empty(other.lesson_type) == or_empty(lesson.lesson_type),
        or_empty(other.group) == or_empty(lesson.group),
    ensures
        event_uid_text(date, lesson) == event_uid_text(date, other),
{
}

/// A time that is written as hours and minutes, two digits each, is the time that it says,
/// and it says the same with no seconds behind it. Where no clock shows it, the complaint
/// holds it as it was written.
pub proof fn law_minute_is_its_first_second(value: Seq<char>)
    requires
        is_minute_text(value),
    ensures
        two_digits_at(value, 0) < 24 && two_digits_at(value, 3) < 60 ==> {
            &&& lesson_time(value) == Ok::<TimeOfDay, Seq<char>>(
                TimeOfDay {
                    seconds: (two_digits_at(value, 0) * 3600 + two_digits_at(value, 3) * 60) as u32,
                    nanos: 0,
                },
            )
            &&& lesson_time(value + ":00"@) == lesson_time(value)
        },
        !(two_digits_at(value, 0) < 24 && two_digits_at(value, 3) < 60) ==> lesson_time(value)
            == Err::<TimeOfDay, Seq<char>>("ITMO returned an invalid lesson time: "@ + value),
{
    reveal_strlit(":00");
    reveal_strlit("%H:%M");
    reveal_strlit("%H:%M:%S");
    assert("%H:%M"@.len() != "%H:%M:%S"@.len());
    let longer = value + ":00"@;
    assert(longer.len() == 8);
    assert(forall|i: int| 0 <= i < 5 ==> longer[i] == value[i]);
    assert(two_digits_at(longer, 0) == two_digits_at(value, 0));
    assert(two_digits_at(longer, 3) == two_digits_at(value, 3));
    assert(two_digits_at(longer, 6) == 0);
}

/// A date that is written with four digits for the year is read as the same day again.
pub proof fn law_written_date_is_read(date: Date)
    requires
        date.valid(),
        0 <= date.year < 10_000,
    ensures
        date_read(iso_date(date)) == Some(date),
{
    let text = iso_date(date);
    assert(text.len() == 10);
    assert(text[0] == two_digits(date.year as int / 100)[0]);
    assert(is_date_text(text));
    assert(two_digits_at(text, 0) == date.year as int / 100);
    assert(two_digits_at(text, 2) == date.year as int % 100);
    assert(two_digits_at(text, 5) == date.month);
    assert(two_digits_at(text, 8) == date.day);
    assert(plain_date(text) == Some(date));
}

proof fn lemma_decimal_digits(number: nat)
    ensures
        !decimal(number).contains('\n'),
    decreases number,
{
    if number >= 10 {
        lemma_decimal_digits(number / 10);
        let before = decimal(number / 10);
        assert forall|i: int| 0 <= i < decimal(number).len() implies decimal(number)[i] != '\n' by {
            if i < before.len() {
                assert(decimal(number)[i] == before[i]);
            }
        }
    }
}

proof fn lemma_year_text(year: int)
    ensures
        !year_text(year).contains('\n'),
{
    let size = if year < 0 {
        -year
    } else {
        year
    };
    lemma_decimal_digits(size as nat);
    assert(!four_digits(size).contains('\n'));
    assert forall|i: int| 0 <= i < year_text(year).len() implies year_text(year)[i] != '\n' by {
        if !(0 <= year < 10_000) && i > 0 {
            assert(year_text(year)[i] == four_digits(size)[i - 1]);
        }
    }
}

proof fn lemma_basic_date_time(date: Date, time: TimeOfDay)
    requires
        date.valid(),
        time.valid(),
    ensures
        !basic_date_time(date, time).contains('\n'),
{
    lemma_year_text(date.year as int);
    let text = basic_date_time(date, time);
    let year = year_text(date.year as int);
    assert forall|i: int| 0 <= i < text.len() implies text[i] != '\n' by {
        if i < year.len() {
            assert(text[i] == year[i]);
        }
    }
}

/// The text of a moment in UTC holds no line feed.
pub proof fn law_stamp_has_no_line_feed(stamp: Seq<char>)
    requires
        is_utc_stamp(stamp),
    ensures
        !stamp.contains('\n'),
{
    let moment = choose|moment: int| is_moment(moment) && #[trigger] is_stamp_of(stamp, moment);
    let date = choose|date: Date|
        date.valid() && is_day_at(date, moment) && stamp == #[trigger] basic_date_time(
            date,
            TimeOfDay { seconds: (moment - day_number(date) * 86_400) as u32, nanos: 0 },
        ) + seq!['Z'];
    let time = TimeOfDay { seconds: (moment - day_number(date) * 86_400) as u32, nanos: 0 };
    lemma_basic_date_time(date, time);
    let text = basic_date_time(date, time);
    assert forall|i: int| 0 <= i < stamp.len() implies stamp[i] != '\n' by {
        if i < text.len() {
            assert(stamp[i] == text[i]);
        }
    }
}

proof fn lemma_hex(bytes: Seq<u8>)
    ensures
        !lower_hex(bytes).contains('\n'),
    decreases bytes.len(),
{
    if bytes.len() > 0 {
        lemma_hex(bytes.drop_last());
        let before = lower_hex(bytes.drop_last());
        assert forall|i: int| 0 <= i < lower_hex(bytes).len() implies lower_hex(bytes)[i]
            != '\n' by {
            if i < before.len() {
                assert(lower_hex(bytes)[i] == before[i]);
            }
        }
    }
}

proof fn lemma_uid(date: Date, lesson: LessonView)
    ensures
        !event_uid_text(date, lesson).contains('\n'),
{
    let digest = sha256(encode_utf8(crate::calendar::uid_source_text(date, lesson)));
    lemma_hex(digest);
    reveal_strlit("@itmo-calendar-sync.local");
    let uid = event_uid_text(date, lesson);
    let hex = lower_hex(digest);
    assert forall|i: int| 0 <= i < uid.len() implies uid[i] != '\n' by {
        if i < hex.len() {
            assert(uid[i] == hex[i]);
        } else {
            assert(uid[i] == "@itmo-calendar-sync.local"@[i - hex.len()]);
        }
    }
}

/// A property name in front of a clean value makes a logical line.
proof fn lemma_logical(name: Seq<char>, value: Seq<char>)
    requires
        is_logical_line(name),
        name.len() > 0,
        !value.contains('\n'),
    ensures
        is_logical_line(name + value),
{
    let line = name + value;
    assert forall|i: int| 0 <= i < line.len() implies line[i] != '\n' by {
        if i < name.len() {
            assert(line[i] == name[i]);
        } else {
            assert(line[i] == value[i - name.len()]);
        }
    }
}

/// Whether all the lines are logical ones.
pub open spec fn all_logical(lines: Seq<Seq<char>>) -> bool {
    forall|i: int| 0 <= i < lines.len() ==> is_logical_line(#[trigger] lines[i])
}

proof fn lemma_all_logical_concat(first: Seq<Seq<char>>, second: Seq<Seq<char>>)
    requires
        all_logical(first),
        all_logical(second),
    ensures
        all_logical(first + second),
{
    let lines = first + second;
    assert forall|i: int| 0 <= i < lines.len() implies is_logical_line(#[trigger] lines[i]) by {
        if i < first.len() {
            assert(lines[i] == first[i]);
        } else {
            assert(lines[i] == second[i - first.len()]);
        }
    }
}

proof fn lemma_event_logical(
    date: Date,
    start: TimeOfDay,
    end: TimeOfDay,
    uid: Seq<char>,
    lesson: LessonView,
    now: Seq<char>,
)
    requires
        date.valid(),
        start.valid(),
        end.valid(),
        !uid.contains('\n'),
        !now.contains('\n'),
    ensures
        all_logical(event_lines(date, start, end, uid, lesson, now)),
{
    reveal_strlit("BEGIN:VEVENT");
    reveal_strlit("UID:");
    reveal_strlit("DTSTAMP:");
    reveal_strlit("LAST-MODIFIED:");
    reveal_strlit("DTSTART;TZID=Europe/Moscow:");
    reveal_strlit("DTEND;TZID=Europe/Moscow:");
    reveal_strlit("SUMMARY:");
    reveal_strlit("LOCATION:");
    reveal_strlit("DESCRIPTION:");
    reveal_strlit("STATUS:CONFIRMED");
    reveal_strlit("TRANSP:OPAQUE");
    reveal_strlit("END:VEVENT");
    lemma_basic_date_time(date, start);
    lemma_basic_date_time(date, end);
    law_escaped_has_no_line_feed(lesson.subject);
    law_escaped_has_no_line_feed(location(lesson));
    law_escaped_has_no_line_feed(joined(details(lesson), "\n"@));
    lemma_logical("UID:"@, uid);
    lemma_logical("DTSTAMP:"@, now);
    lemma_logical("LAST-MODIFIED:"@, now);
    lemma_logical("DTSTART;TZID=Europe/Moscow:"@, basic_date_time(date, start));
    lemma_logical("DTEND;TZID=Europe/Moscow:"@, basic_date_time(date, end));
    lemma_logical("SUMMARY:"@, escaped(lesson.subject));
    lemma_logical("LOCATION:"@, escaped(location(lesson)));
    lemma_logical("DESCRIPTION:"@, escaped(joined(details(lesson), "\n"@)));
    let head = seq![
        "BEGIN:VEVENT"@,
        "UID:"@ + uid,
        "DTSTAMP:"@ + now,
        "LAST-MODIFIED:"@ + now,
        "DTSTART;TZID=Europe/Moscow:"@ + basic_date_time(date, start),
        "DTEND;TZID=Europe/Moscow:"@ + basic_date_time(date, end),
        "SUMMARY:"@ + escaped(lesson.subject),
    ];
    let tail = seq!["STATUS:CONFIRMED"@, "TRANSP:OPAQUE"@, "END:VEVENT"@];
    assert(all_logical(head));
    assert(all_logical(location_lines(lesson)));
    assert(all_logical(description_lines(lesson)));
    assert(all_logical(tail));
    lemma_all_logical_concat(head, location_lines(lesson));
    lemma_all_logical_concat(head + location_lines(lesson), description_lines(lesson));
    lemma_all_logical_concat(
        head + location_lines(lesson) + description_lines(lesson),
        tail,
    );
}

/// A time that was read is one that exists.
proof fn lemma_time_is_valid(value: Seq<char>)
    ensures
        lesson_time(value) is Ok ==> lesson_time(value)->Ok_0.valid(),
{
}

proof fn lemma_lesson_logical(date: Date, lesson: LessonView, now: Seq<char>)
    requires
        date.valid(),
        !now.contains('\n'),
        lesson_lines(date, lesson, now) is Ok,
    ensures
        all_logical(lesson_lines(date, lesson, now)->Ok_0),
{
    lemma_uid(date, lesson);
    lemma_time_is_valid(lesson.time_start);
    lemma_time_is_valid(lesson.time_end);
    lemma_event_logical(
        date,
        lesson_time(lesson.time_start)->Ok_0,
        lesson_time(lesson.time_end)->Ok_0,
        event_uid_text(date, lesson),
        lesson,
        now,
    );
}

proof fn lemma_lessons_logical(date: Date, lessons: Seq<LessonView>, now: Seq<char>)
    requires
        date.valid(),
        !now.contains('\n'),
    ensures
        lessons_lines(date, lessons, now) is Ok ==> all_logical(
            lessons_lines(date, lessons, now)->Ok_0,
        ),
    decreases lessons.len(),
{
    if lessons.len() > 0 && lessons_lines(date, lessons, now) is Ok {
        lemma_lessons_logical(date, lessons.drop_last(), now);
        lemma_lesson_logical(date, lessons.last(), now);
        lemma_all_logical_concat(
            lessons_lines(date, lessons.drop_last(), now)->Ok_0,
            lesson_lines(date, lessons.last(), now)->Ok_0,
        );
    }
}

proof fn lemma_days_logical(days: Seq<ScheduleDayView>, now: Seq<char>)
    requires
        !now.contains('\n'),
    ensures
        days_lines(days, now) is Ok ==> all_logical(days_lines(days, now)->Ok_0),
    decreases days.len(),
{
    if days.len() > 0 && days_lines(days, now) is Ok {
        lemma_days_logical(days.drop_last(), now);
        let day = days.last();
        let date = date_read(day.date)->0;
        lemma_lessons_logical(date, day.lessons, now);
        lemma_all_logical_concat(
            days_lines(days.drop_last(), now)->Ok_0,
            day_lines(day, now)->Ok_0,
        );
    }
}

proof fn lemma_header_logical()
    ensures
        all_logical(header_lines()),
{
    reveal_strlit("BEGIN:VCALENDAR");
    reveal_strlit("VERSION:2.0");
    reveal_strlit("PRODID:-//ITMO Calendar Sync//RU");
    reveal_strlit("CALSCALE:GREGORIAN");
    reveal_strlit("METHOD:PUBLISH");
    reveal_strlit("X-WR-CALNAME:Расписание ИТМО");
    reveal_strlit("X-WR-TIMEZONE:Europe/Moscow");
    reveal_strlit("BEGIN:VTIMEZONE");
    reveal_strlit("TZID:Europe/Moscow");
    reveal_strlit("X-LIC-LOCATION:Europe/Moscow");
    reveal_strlit("BEGIN:STANDARD");
    reveal_strlit("TZOFFSETFROM:+0300");
    reveal_strlit("TZOFFSETTO:+0300");
    reveal_strlit("TZNAME:MSK");
    reveal_strlit("DTSTART:19700101T000000");
    reveal_strlit("END:STANDARD");
    reveal_strlit("END:VTIMEZONE");
}

/// Nothing that the schedule holds can break a content line apart or add one: taking the
/// folds out of a calendar gives the content lines that it was made of.
pub proof fn law_calendar_unfolds(days: Seq<ScheduleDayView>, now: Seq<char>)
    requires
        !now.contains('\n'),
        calendar_text(days, now) is Ok,
    ensures
        all_logical(calendar_lines(days, now)->Ok_0),
        unfolded(calendar_text(days, now)->Ok_0) == plain_document(calendar_lines(days, now)->Ok_0),
{
    reveal_strlit("END:VCALENDAR");
    lemma_days_logical(days, now);
    lemma_header_logical();
    let lines = days_lines(days, now)->Ok_0;
    lemma_all_logical_concat(header_lines(), lines);
    lemma_all_logical_concat(header_lines() + lines, seq!["END:VCALENDAR"@]);
    law_unfold_document(calendar_lines(days, now)->Ok_0);
}

/// No line of a calendar takes more than seventy-three bytes.
pub proof fn law_calendar_fits(days: Seq<ScheduleDayView>, now: Seq<char>)
    requires
        calendar_text(days, now) is Ok,
    ensures
        lines_fit(calendar_text(days, now)->Ok_0),
{
    law_document_fits(calendar_lines(days, now)->Ok_0);
}

/// How many events start among the content lines.
pub open spec fn event_total(lines: Seq<Seq<char>>) -> nat
    decreases lines.len(),
{
    if lines.len() == 0 {
        0
    } else {
        event_total(lines.drop_last()) + if lines.last() == "BEGIN:VEVENT"@ {
            1nat
        } else {
            0nat
        }
    }
}

proof fn lemma_event_total_concat(first: Seq<Seq<char>>, second: Seq<Seq<char>>)
    ensures
        event_total(first + second) == event_total(first) + event_total(second),
    decreases second.len(),
{
    if second.len() == 0 {
        assert(first + second == first);
    } else {
        lemma_event_total_concat(first, second.drop_last());
        assert((first + second).drop_last() == first + second.drop_last());
    }
}

proof fn lemma_event_total_none(lines: Seq<Seq<char>>)
    requires
        forall|i: int| 0 <= i < lines.len() ==> #[trigger] lines[i] != "BEGIN:VEVENT"@,
    ensures
        event_total(lines) == 0,
    decreases lines.len(),
{
    if lines.len() > 0 {
        lemma_event_total_none(lines.drop_last());
    }
}

proof fn lemma_event_total_event(
    date: Date,
    start: TimeOfDay,
    end: TimeOfDay,
    uid: Seq<char>,
    lesson: LessonView,
    now: Seq<char>,
)
    ensures
        event_total(event_lines(date, start, end, uid, lesson, now)) == 1,
{
    reveal_strlit("BEGIN:VEVENT");
    reveal_strlit("UID:");
    reveal_strlit("DTSTAMP:");
    reveal_strlit("LAST-MODIFIED:");
    reveal_strlit("DTSTART;TZID=Europe/Moscow:");
    reveal_strlit("DTEND;TZID=Europe/Moscow:");
    reveal_strlit("SUMMARY:");
    reveal_strlit("LOCATION:");
    reveal_strlit("DESCRIPTION:");
    reveal_strlit("STATUS:CONFIRMED");
    reveal_strlit("TRANSP:OPAQUE");
    reveal_strlit("END:VEVENT");
    let all = event_lines(date, start, end, uid, lesson, now);
    let rest = all.skip(1);
    assert(all == seq![all[0]] + rest);
    reveal_with_fuel(event_total, 2);
    assert(seq![all[0]].drop_last() == Seq::<Seq<char>>::empty());
    assert(event_total(seq![all[0]]) == 1);
    assert forall|i: int| 0 <= i < rest.len() implies #[trigger] rest[i] != "BEGIN:VEVENT"@ by {
        assert(rest[i] == all[i + 1]);
        assert(rest[i][0] != 'B');
    }
    lemma_event_total_none(rest);
    lemma_event_total_concat(seq![all[0]], rest);
}

proof fn lemma_event_total_lessons(date: Date, lessons: Seq<LessonView>, now: Seq<char>)
    ensures
        lessons_lines(date, lessons, now) is Ok ==> event_total(
            lessons_lines(date, lessons, now)->Ok_0,
        ) == lessons.len(),
    decreases lessons.len(),
{
    if lessons.len() > 0 && lessons_lines(date, lessons, now) is Ok {
        lemma_event_total_lessons(date, lessons.drop_last(), now);
        let lesson = lessons.last();
        lemma_event_total_event(
            date,
            crate::calendar::lesson_time(lesson.time_start)->Ok_0,
            crate::calendar::lesson_time(lesson.time_end)->Ok_0,
            event_uid_text(date, lesson),
            lesson,
            now,
        );
        lemma_event_total_concat(
            lessons_lines(date, lessons.drop_last(), now)->Ok_0,
            lesson_lines(date, lesson, now)->Ok_0,
        );
    }
}

proof fn lemma_event_total_days(days: Seq<ScheduleDayView>, now: Seq<char>)
    ensures
        days_lines(days, now) is Ok ==> event_total(days_lines(days, now)->Ok_0) == lesson_count(
            days,
        ),
    decreases days.len(),
{
    if days.len() > 0 && days_lines(days, now) is Ok {
        lemma_event_total_days(days.drop_last(), now);
        let day = days.last();
        lemma_event_total_lessons(date_read(day.date)->0, day.lessons, now);
        lemma_event_total_concat(
            days_lines(days.drop_last(), now)->Ok_0,
            day_lines(day, now)->Ok_0,
        );
    }
}

/// A calendar has one event for each lesson of the schedule.
pub proof fn law_one_event_per_lesson(days: Seq<ScheduleDayView>, now: Seq<char>)
    requires
        calendar_lines(days, now) is Ok,
    ensures
        event_total(calendar_lines(days, now)->Ok_0) == lesson_count(days),
{
    reveal_strlit("BEGIN:VEVENT");
    reveal_strlit("BEGIN:VCALENDAR");
    reveal_strlit("VERSION:2.0");
    reveal_strlit("PRODID:-//ITMO Calendar Sync//RU");
    reveal_strlit("CALSCALE:GREGORIAN");
    reveal_strlit("METHOD:PUBLISH");
    reveal_strlit("X-WR-CALNAME:Расписание ИТМО");
    reveal_strlit("X-WR-TIMEZONE:Europe/Moscow");
    reveal_strlit("BEGIN:VTIMEZONE");
    reveal_strlit("TZID:Europe/Moscow");
    reveal_strlit("X-LIC-LOCATION:Europe/Moscow");
    reveal_strlit("BEGIN:STANDARD");
    reveal_strlit("TZOFFSETFROM:+0300");
    reveal_strlit("TZOFFSETTO:+0300");
    reveal_strlit("TZNAME:MSK");
    reveal_strlit("DTSTART:19700101T000000");
    reveal_strlit("END:STANDARD");
    reveal_strlit("END:VTIMEZONE");
    reveal_strlit("END:VCALENDAR");
    let lines = days_lines(days, now)->Ok_0;
    lemma_event_total_days(days, now);
    let head = header_lines();
    assert forall|i: int| 0 <= i < head.len() implies #[trigger] head[i] != "BEGIN:VEVENT"@ by {
        assert(head[i].len() != "BEGIN:VEVENT"@.len() || head[i][0] != 'B');
    }
    lemma_event_total_none(head);
    assert("END:VCALENDAR"@[0] == 'E');
    lemma_event_total_none(seq!["END:VCALENDAR"@]);
    lemma_event_total_concat(header_lines(), lines);
    lemma_event_total_concat(header_lines() + lines, seq!["END:VCALENDAR"@]);
}

} // verus!
