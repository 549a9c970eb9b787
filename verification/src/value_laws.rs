//! What holds of every value that the schedule says something with.

use vstd::prelude::*;

use crate::itmo::{
    day_from, lesson_from, non_empty_text, optional_value_text, string_value_text, value_text,
    value_texts, JsonValue, Lesson, LessonValues, ScheduleDay, ScheduleDayValues,
};
use crate::text::{is_white_space, joined, lemma_joined_concat, lemma_trimmed_ends, trimmed};

verus! {

/// Whether the text has something to say and no white space around it.
pub open spec fn is_plain(text: Seq<char>) -> bool {
    text.len() > 0 && !is_white_space(text.first()) && !is_white_space(text.last())
}

/// Whether every number within the value is written plainly, as JSON writes numbers.
pub open spec fn has_plain_numbers(value: JsonValue) -> bool
    decreases value,
{
    match value {
        JsonValue::Number(text) => is_plain(text@),
        JsonValue::Array(values) => all_plain_numbers(values@),
        _ => true,
    }
}

/// Whether every number within the values is written plainly.
pub open spec fn all_plain_numbers(values: Seq<JsonValue>) -> bool
    decreases values,
{
    values.len() == 0 || has_plain_numbers(values.last()) && all_plain_numbers(values.drop_last())
}

/// What a value says has something in it and no white space around it, and it is what a text
/// says that holds just that.
pub proof fn law_value_text_is_trimmed(value: JsonValue)
    requires
        has_plain_numbers(value),
        value_text(value) is Some,
    ensures
        value_text(value)->0.len() > 0,
        trimmed(value_text(value)->0) == value_text(value)->0,
        non_empty_text(value_text(value)->0) == value_text(value),
        forall|text: String| text@ == value_text(value)->0 ==> #[trigger] value_text(
            JsonValue::Text(text),
        ) == value_text(value),
{
    lemma_value_text_is_plain(value);
}

/// A value that is missing, null or an object says nothing, and neither does a list of
/// values that say nothing.
pub proof fn law_nothing_is_said_of_nothing(values: Vec<JsonValue>)
    requires
        forall|i: int| 0 <= i < values@.len() ==> value_text(#[trigger] values@[i]) is None,
    ensures
        optional_value_text(None) is None,
        value_text(JsonValue::Null) is None,
        value_text(JsonValue::Object) is None,
        value_text(JsonValue::Array(values)) is None,
{
    lemma_no_texts(values@);
}

/// A list that says nothing has no value in it that says something.
pub proof fn law_list_says_what_its_values_say(values: Vec<JsonValue>)
    requires
        has_plain_numbers(JsonValue::Array(values)),
        value_text(JsonValue::Array(values)) is None,
    ensures
        forall|i: int| 0 <= i < values@.len() ==> value_text(#[trigger] values@[i]) is None,
{
    lemma_texts_are_plain(values@);
    let texts = value_texts(values@);
    if texts.len() > 0 {
        lemma_joined_is_plain(texts, ", "@);
    }
    lemma_texts_are_none(values@);
}

/// A list within a list reads as if its values stood in the outer one.
pub proof fn law_inner_list_is_spread(
    before: Seq<JsonValue>,
    inner: Vec<JsonValue>,
    after: Seq<JsonValue>,
    nested: Vec<JsonValue>,
    spread: Vec<JsonValue>,
)
    requires
        has_plain_numbers(JsonValue::Array(inner)),
        nested@ == before + seq![JsonValue::Array(inner)] + after,
        spread@ == before + inner@ + after,
    ensures
        value_text(JsonValue::Array(nested)) == value_text(JsonValue::Array(spread)),
{
    let separator = ", "@;
    let head = value_texts(before);
    let middle = value_texts(inner@);
    let tail = value_texts(after);
    let item = seq![JsonValue::Array(inner)];
    lemma_texts_concat(before + inner@, after);
    lemma_texts_concat(before, inner@);
    lemma_texts_concat(before + item, after);
    lemma_texts_concat(before, item);
    lemma_texts_are_plain(inner@);
    reveal_with_fuel(value_texts, 2);
    assert(item.drop_last() == Seq::<JsonValue>::empty());
    if middle.len() == 0 {
        assert(joined(middle, separator) == Seq::<char>::empty());
        assert(value_texts(item) == Seq::<Seq<char>>::empty());
        assert(value_texts(nested@) == value_texts(spread@));
    } else {
        let whole = joined(middle, separator);
        lemma_joined_is_plain(middle, separator);
        assert(trimmed(whole) == whole);
        assert(value_texts(item) == seq![whole]);
        assert(joined(seq![whole], separator) == whole);
        lemma_joined_concat(head, middle, separator);
        lemma_joined_concat(head + middle, tail, separator);
        lemma_joined_concat(head, seq![whole], separator);
        lemma_joined_concat(head + seq![whole], tail, separator);
        assert(joined(head + seq![whole], separator) == joined(head + middle, separator));
        assert(joined(head + seq![whole] + tail, separator) == joined(
            head + middle + tail,
            separator,
        ));
    }
}

proof fn lemma_value_text_is_plain(value: JsonValue)
    requires
        has_plain_numbers(value),
        value_text(value) is Some,
    ensures
        is_plain(value_text(value)->0),
{
    reveal_strlit("true");
    reveal_strlit("false");
    match value {
        JsonValue::Text(text) => lemma_trimmed_ends(text@),
        JsonValue::Array(values) => lemma_trimmed_ends(joined(value_texts(values@), ", "@)),
        _ => {},
    }
}

proof fn lemma_texts_are_plain(values: Seq<JsonValue>)
    requires
        all_plain_numbers(values),
    ensures
        forall|i: int|
            0 <= i < value_texts(values).len() ==> is_plain(#[trigger] value_texts(values)[i]),
    decreases values.len(),
{
    if values.len() > 0 {
        lemma_texts_are_plain(values.drop_last());
        if value_text(values.last()) is Some {
            lemma_value_text_is_plain(values.last());
        }
        let before = value_texts(values.drop_last());
        assert forall|i: int| 0 <= i < value_texts(values).len() implies is_plain(
            #[trigger] value_texts(values)[i],
        ) by {
            if i < before.len() {
                assert(value_texts(values)[i] == before[i]);
            }
        }
    }
}

proof fn lemma_no_texts(values: Seq<JsonValue>)
    requires
        forall|i: int| 0 <= i < values.len() ==> value_text(#[trigger] values[i]) is None,
    ensures
        value_texts(values).len() == 0,
    decreases values.len(),
{
    if values.len() > 0 {
        assert forall|i: int| 0 <= i < values.drop_last().len() implies value_text(
            #[trigger] values.drop_last()[i],
        ) is None by {
            assert(values.drop_last()[i] == values[i]);
        }
        lemma_no_texts(values.drop_last());
        assert(value_text(values[values.len() - 1]) is None);
    }
}

proof fn lemma_texts_are_none(values: Seq<JsonValue>)
    requires
        value_texts(values).len() == 0,
    ensures
        forall|i: int| 0 <= i < values.len() ==> value_text(#[trigger] values[i]) is None,
    decreases values.len(),
{
    if values.len() > 0 {
        lemma_texts_are_none(values.drop_last());
        assert forall|i: int| 0 <= i < values.len() implies value_text(
            #[trigger] values[i],
        ) is None by {
            if i < values.len() - 1 {
                assert(values.drop_last()[i] == values[i]);
            }
        }
    }
}

proof fn lemma_texts_concat(first: Seq<JsonValue>, second: Seq<JsonValue>)
    ensures
        value_texts(first + second) == value_texts(first) + value_texts(second),
    decreases second.len(),
{
    let all = first + second;
    if second.len() == 0 {
        assert(all == first);
    } else {
        lemma_texts_concat(first, second.drop_last());
        assert(all.drop_last() == first + second.drop_last());
        assert(all.last() == second.last());
    }
}

proof fn lemma_joined_is_plain(parts: Seq<Seq<char>>, separator: Seq<char>)
    requires
        parts.len() > 0,
        forall|i: int| 0 <= i < parts.len() ==> is_plain(#[trigger] parts[i]),
    ensures
        is_plain(joined(parts, separator)),
    decreases parts.len(),
{
    assert(is_plain(parts[0]));
    if parts.len() > 1 {
        let rest = parts.skip(1);
        assert forall|i: int| 0 <= i < rest.len() implies is_plain(#[trigger] rest[i]) by {
            assert(rest[i] == parts[i + 1]);
        }
        lemma_joined_is_plain(rest, separator);
        let whole = joined(parts, separator);
        assert(whole.first() == parts[0].first());
        assert(whole.last() == joined(rest, separator).last());
    }
}

/// Whether the text is nothing but white space.
pub open spec fn is_blank(text: Seq<char>) -> bool {
    forall|i: int| 0 <= i < text.len() ==> is_white_space(#[trigger] text[i])
}

/// Trimming takes off the white space around a text and leaves all that is within it.
pub proof fn law_trimming_keeps_the_core(before: Seq<char>, core: Seq<char>, after: Seq<char>)
    requires
        is_blank(before),
        is_plain(core),
        is_blank(after),
    ensures
        trimmed(before + core + after) == core,
    decreases before.len() + after.len(),
{
    let text = before + core + after;
    if before.len() > 0 {
        assert(text.first() == before[0]);
        let rest = before.skip(1);
        assert forall|i: int| 0 <= i < rest.len() implies is_white_space(#[trigger] rest[i]) by {
            assert(rest[i] == before[i + 1]);
        }
        law_trimming_keeps_the_core(rest, core, after);
        assert(text.drop_first() == rest + core + after);
    } else if after.len() > 0 {
        assert(text.first() == core.first());
        assert(text.last() == after[after.len() - 1]);
        let rest = after.drop_last();
        assert forall|i: int| 0 <= i < rest.len() implies is_white_space(#[trigger] rest[i]) by {
            assert(rest[i] == after[i]);
        }
        law_trimming_keeps_the_core(before, core, rest);
        assert(text.drop_last() == before + core + rest);
    } else {
        assert(text == core);
    }
}

/// Nothing is left of a text that is nothing but white space.
pub proof fn law_trimming_leaves_nothing_of_a_blank(text: Seq<char>)
    requires
        is_blank(text),
    ensures
        trimmed(text) == Seq::<char>::empty(),
    decreases text.len(),
{
    if text.len() > 0 {
        let rest = text.drop_first();
        assert forall|i: int| 0 <= i < rest.len() implies is_white_space(#[trigger] rest[i]) by {
            assert(rest[i] == text[i + 1]);
        }
        law_trimming_leaves_nothing_of_a_blank(rest);
        assert(is_white_space(text[0]));
    }
}

/// A field that is a text says that text without the white space around it, whole, whether
/// or not the field may be missing.
pub proof fn law_text_is_kept_whole(
    text: String,
    before: Seq<char>,
    core: Seq<char>,
    after: Seq<char>,
)
    requires
        text@ == before + core + after,
        is_blank(before),
        is_plain(core),
        is_blank(after),
    ensures
        optional_value_text(Some(JsonValue::Text(text))) == Some(core),
        string_value_text(Some(JsonValue::Text(text))) == core,
{
    law_trimming_keeps_the_core(before, core, after);
}

/// A field that is a blank text, null, an object or missing says nothing, and one that has
/// to say something is then empty.
pub proof fn law_silent_field_is_empty(text: String)
    requires
        is_blank(text@),
    ensures
        optional_value_text(Some(JsonValue::Text(text))) is None,
        string_value_text(Some(JsonValue::Text(text))).len() == 0,
        string_value_text(Some(JsonValue::Null)).len() == 0,
        string_value_text(Some(JsonValue::Object)).len() == 0,
        string_value_text(None).len() == 0,
{
    law_trimming_leaves_nothing_of_a_blank(text@);
}

/// A number says what it is written as, and so do yes and no.
pub proof fn law_number_is_kept(text: String)
    ensures
        optional_value_text(Some(JsonValue::Number(text))) == Some(text@),
        string_value_text(Some(JsonValue::Number(text))) == text@,
        optional_value_text(Some(JsonValue::Bool(true))) == Some("true"@),
        optional_value_text(Some(JsonValue::Bool(false))) == Some("false"@),
        string_value_text(Some(JsonValue::Bool(true))) == "true"@,
        string_value_text(Some(JsonValue::Bool(false))) == "false"@,
{
}

/// A list says what its two halves say, with a comma between them where both say something;
/// and a list of one value says what that value says.
pub proof fn law_list_says_what_its_halves_say(
    all: Vec<JsonValue>,
    first: Vec<JsonValue>,
    second: Vec<JsonValue>,
    one: Vec<JsonValue>,
)
    requires
        has_plain_numbers(JsonValue::Array(first)),
        has_plain_numbers(JsonValue::Array(second)),
        has_plain_numbers(JsonValue::Array(one)),
        all@ == first@ + second@,
        one@.len() == 1,
    ensures
        ({
            let whole = value_text(JsonValue::Array(all));
            let head = value_text(JsonValue::Array(first));
            let tail = value_text(JsonValue::Array(second));
            &&& head is None ==> whole == tail
            &&& tail is None ==> whole == head
            &&& head is Some && tail is Some ==> whole == Some(head->0 + ", "@ + tail->0)
        }),
        value_text(JsonValue::Array(one)) == value_text(one@[0]),
        string_value_text(Some(JsonValue::Array(one))) == string_value_text(Some(one@[0])),
{
    lemma_texts_concat(first@, second@);
    lemma_joined_concat(value_texts(first@), value_texts(second@), ", "@);
    lemma_list_text(first);
    lemma_list_text(second);
    let texts = value_texts(all@);
    lemma_texts_are_plain(first@);
    lemma_texts_are_plain(second@);
    if texts.len() > 0 {
        assert forall|i: int| 0 <= i < texts.len() implies is_plain(#[trigger] texts[i]) by {
            let n = value_texts(first@).len();
            if i < n {
                assert(texts[i] == value_texts(first@)[i]);
            } else {
                assert(texts[i] == value_texts(second@)[i - n]);
            }
        }
        lemma_joined_is_plain(texts, ", "@);
    } else {
        assert(joined(texts, ", "@) == Seq::<char>::empty());
    }
    lemma_list_text(one);
    reveal_with_fuel(value_texts, 2);
    assert(one@.drop_last() == Seq::<JsonValue>::empty());
    assert(one@.last() == one@[0]);
    assert(value_texts(one@) == match value_text(one@[0]) {
        Some(text) => seq![text],
        None => Seq::<Seq<char>>::empty(),
    });
}

/// What a list says is its texts with commas between them, where there are any.
proof fn lemma_list_text(values: Vec<JsonValue>)
    requires
        has_plain_numbers(JsonValue::Array(values)),
    ensures
        value_texts(values@).len() == 0 ==> value_text(JsonValue::Array(values)) is None,
        value_texts(values@).len() > 0 ==> value_text(JsonValue::Array(values)) == Some(
            joined(value_texts(values@), ", "@),
        ),
{
    let texts = value_texts(values@);
    lemma_texts_are_plain(values@);
    if texts.len() > 0 {
        lemma_joined_is_plain(texts, ", "@);
    } else {
        assert(joined(texts, ", "@) == Seq::<char>::empty());
    }
}

/// Whether the text is what the value of a field says, and empty where that says nothing.
pub open spec fn is_said(text: Seq<char>, value: Option<JsonValue>) -> bool {
    match value {
        None => text.len() == 0,
        Some(value) => match value_text(value) {
            None => text.len() == 0,
            Some(said) => text == said,
        },
    }
}

/// Whether the text, if there is one, is what the value of a field says, if it says anything.
pub open spec fn is_said_if_any(text: Option<Seq<char>>, value: Option<JsonValue>) -> bool {
    match value {
        None => text is None,
        Some(value) => text == value_text(value),
    }
}

/// Each field of a lesson says what the value of that very field says.
pub proof fn law_lesson_says_what_its_fields_say(values: LessonValues)
    ensures
        is_said_if_any(lesson_from(values).id, values.id),
        is_said(lesson_from(values).subject, values.subject),
        is_said_if_any(lesson_from(values).lesson_type, values.lesson_type),
        is_said(lesson_from(values).time_start, values.time_start),
        is_said(lesson_from(values).time_end, values.time_end),
        is_said_if_any(lesson_from(values).building, values.building),
        is_said_if_any(lesson_from(values).room, values.room),
        is_said_if_any(lesson_from(values).teacher_name, values.teacher_name),
        is_said_if_any(lesson_from(values).group, values.group),
        is_said_if_any(lesson_from(values).note, values.note),
{
}

/// A day has the date that is given for it, and each of its lessons in its place.
pub proof fn law_day_has_its_date_and_lessons(values: ScheduleDayValues)
    ensures
        is_said(day_from(values).date, values.date),
        day_from(values).lessons.len() == values.lessons@.len(),
        forall|i: int|
            0 <= i < values.lessons@.len() ==> #[trigger] day_from(values).lessons[i]
                == lesson_from(values.lessons@[i]),
{
}

/// What a text that may be missing holds.
pub open spec fn held(text: Option<String>) -> Option<Seq<char>> {
    match text {
        Some(text) => Some(text@),
        None => None,
    }
}

/// The views of a lesson and of a day show every field, each in its place.
pub proof fn law_views_show_every_field(lesson: Lesson, day: ScheduleDay)
    ensures
        lesson@.id == held(lesson.id),
        lesson@.subject == lesson.subject@,
        lesson@.lesson_type == held(lesson.lesson_type),
        lesson@.time_start == lesson.time_start@,
        lesson@.time_end == lesson.time_end@,
        lesson@.building == held(lesson.building),
        lesson@.room == held(lesson.room),
        lesson@.teacher_name == held(lesson.teacher_name),
        lesson@.group == held(lesson.group),
        lesson@.note == held(lesson.note),
        day@.date == day.date@,
        day@.lessons.len() == day.lessons@.len(),
        forall|i: int| 0 <= i < day.lessons@.len() ==> #[trigger] day@.lessons[i] == day.lessons@[i]@,
{
}

} // verus!
