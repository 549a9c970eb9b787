//! Character-level text tools with exact meanings.

use vstd::prelude::*;
use vstd::utf8::{encode_scalar, encode_utf8};

verus! {

broadcast use vstd::string::group_string_axioms;

/// `String::push` puts the character behind the text that was there.
pub assume_specification[ String::push ](text: &mut String, character: char)
    ensures
        final(text)@ == old(text)@.push(character),
;

/// How many bytes the character takes in UTF-8.
pub open spec fn utf8_width(c: char) -> nat {
    encode_scalar(c as u32).len()
}

/// The characters of a text, for access by position.
pub fn chars_of(text: &str) -> (chars: Vec<char>)
    ensures
        chars@ == text@,
{
    let mut chars: Vec<char> = Vec::new();
    for c in it: text.chars()
        invariant
            it.seq() == text@,
            chars@ == text@.take(it.index() as int),
    {
        chars.push(c);
    }
    chars
}

/// How many bytes the character takes in UTF-8.
pub fn width_of(c: char) -> (width: usize)
    ensures
        width == utf8_width(c),
        1 <= width <= 4,
{
    let code: u32 = c as u32;
    if code < 0x80 {
        1
    } else if code < 0x800 {
        2
    } else if code < 0x10000 {
        3
    } else {
        4
    }
}

/// Whether two texts are the same, character by character.
pub fn same_text(left: &str, right: &str) -> (same: bool)
    ensures
        same == (left@ == right@),
{
    let a = left.as_bytes();
    let b = right.as_bytes();
    proof {
        vstd::utf8::encode_utf8_decode_utf8(left@);
        vstd::utf8::encode_utf8_decode_utf8(right@);
    }
    if a.len() != b.len() {
        return false;
    }
    for i in 0..a.len()
        invariant
            a.len() == b.len(),
            a@ == encode_utf8(left@),
            b@ == encode_utf8(right@),
            a@.take(i as int) == b@.take(i as int),
    {
        if a[i] != b[i] {
            assert(a@[i as int] != b@[i as int]);
            return false;
        }
        assert(a@.take(i + 1) == b@.take(i + 1)) by {
            assert(a@.take(i + 1) == a@.take(i as int).push(a@[i as int]));
            assert(b@.take(i + 1) == b@.take(i as int).push(b@[i as int]));
        }
    }
    assert(a@.take(a@.len() as int) == a@);
    assert(b@.take(b@.len() as int) == b@);
    true
}

/// Two texts, one behind the other.
pub fn glued(head: &str, tail: &str) -> (text: String)
    ensures
        text@ == head@ + tail@,
{
    let mut text = head.to_owned();
    text.append(tail);
    text
}

/// The parts in order, with the separator between each two of them.
pub open spec fn joined(parts: Seq<Seq<char>>, separator: Seq<char>) -> Seq<char>
    decreases parts.len(),
{
    if parts.len() == 0 {
        Seq::empty()
    } else if parts.len() == 1 {
        parts[0]
    } else {
        parts[0] + separator + joined(parts.skip(1), separator)
    }
}

/// One more part goes behind the others, with a separator in front of it.
proof fn lemma_joined_push(parts: Seq<Seq<char>>, separator: Seq<char>, part: Seq<char>)
    requires
        parts.len() > 0,
    ensures
        joined(parts.push(part), separator) == joined(parts, separator) + separator + part,
    decreases parts.len(),
{
    reveal_with_fuel(joined, 2);
    let longer = parts.push(part);
    if parts.len() == 1 {
        assert(longer.skip(1) == seq![part]);
    } else {
        assert(longer.skip(1) == parts.skip(1).push(part));
        lemma_joined_push(parts.skip(1), separator, part);
    }
    assert(joined(longer, separator) == joined(parts, separator) + separator + part);
}

/// Two runs of parts are joined each on its own, with a separator between them.
pub proof fn lemma_joined_concat(
    first: Seq<Seq<char>>,
    second: Seq<Seq<char>>,
    separator: Seq<char>,
)
    ensures
        joined(first + second, separator) == if first.len() == 0 {
            joined(second, separator)
        } else if second.len() == 0 {
            joined(first, separator)
        } else {
            joined(first, separator) + separator + joined(second, separator)
        },
    decreases first.len(),
{
    let all = first + second;
    if first.len() == 0 {
        assert(all == second);
    } else if second.len() == 0 {
        assert(all == first);
    } else {
        assert(all.skip(1) == first.skip(1) + second);
        lemma_joined_concat(first.skip(1), second, separator);
        assert(joined(all, separator) == joined(first, separator) + separator + joined(
            second,
            separator,
        ));
    }
}

/// Joins the parts with the separator between them.
pub fn join(parts: &Vec<String>, separator: &str) -> (text: String)
    ensures
        text@ == joined(parts.deep_view(), separator@),
{
    let mut text = String::new();
    for i in 0..parts.len()
        invariant
            text@ == joined(parts.deep_view().take(i as int), separator@),
    {
        if i > 0 {
            text.append(separator);
        }
        text.append(parts[i].as_str());
        proof {
            let done = parts.deep_view().take(i as int);
            assert(parts.deep_view().take(i + 1) == done.push(parts[i as int]@));
            if i > 0 {
                lemma_joined_push(done, separator@, parts[i as int]@);
            }
        }
    }
    assert(parts.deep_view().take(parts.len() as int) == parts.deep_view());
    text
}

/// Whether the character has the Unicode property White_Space.
pub open spec fn is_white_space(c: char) -> bool {
    let code = c as u32;
    ||| 0x9 <= code <= 0xD
    ||| code == 0x20
    ||| code == 0x85
    ||| code == 0xA0
    ||| code == 0x1680
    ||| 0x2000 <= code <= 0x200A
    ||| 0x2028 <= code <= 0x2029
    ||| code == 0x202F
    ||| code == 0x205F
    ||| code == 0x3000
}

/// The text without the white space at its two ends.
pub open spec fn trimmed(text: Seq<char>) -> Seq<char>
    decreases text.len(),
{
    if text.len() > 0 && is_white_space(text.first()) {
        trimmed(text.drop_first())
    } else if text.len() > 0 && is_white_space(text.last()) {
        trimmed(text.drop_last())
    } else {
        text
    }
}

/// Whether the character has the Unicode property White_Space.
pub fn white_space(c: char) -> (white: bool)
    ensures
        white == is_white_space(c),
{
    let code: u32 = c as u32;
    (0x9 <= code && code <= 0xD) || code == 0x20 || code == 0x85 || code == 0xA0 || code == 0x1680
        || (0x2000 <= code && code <= 0x200A) || (0x2028 <= code && code <= 0x2029) || code
        == 0x202F || code == 0x205F || code == 0x3000
}

/// The text without the white space at its two ends.
pub fn trim(text: &str) -> (result: String)
    ensures
        result@ == trimmed(text@),
{
    let chars = chars_of(text);
    let mut start: usize = 0;
    let mut end: usize = chars.len();
    assert(text@.subrange(0, text@.len() as int) == text@);
    while start < end && white_space(chars[start])
        invariant
            chars@ == text@,
            start <= end == chars.len(),
            trimmed(text@) == trimmed(text@.subrange(start as int, end as int)),
        decreases end - start,
    {
        proof {
            let rest = text@.subrange(start as int, end as int);
            assert(rest.drop_first() == text@.subrange(start + 1, end as int));
        }
        start = start + 1;
    }
    while start < end && white_space(chars[end - 1])
        invariant
            chars@ == text@,
            start <= end <= chars.len(),
            start < end ==> !is_white_space(text@[start as int]),
            trimmed(text@) == trimmed(text@.subrange(start as int, end as int)),
        decreases end - start,
    {
        proof {
            let rest = text@.subrange(start as int, end as int);
            assert(rest.drop_last() == text@.subrange(start as int, end - 1));
        }
        end = end - 1;
    }
    let mut result = String::new();
    for i in start..end
        invariant
            chars@ == text@,
            start <= end <= chars.len(),
            result@ == text@.subrange(start as int, i as int),
    {
        result.push(chars[i]);
    }
    result
}

/// Trimming leaves no white space at either end.
pub proof fn lemma_trimmed_ends(text: Seq<char>)
    ensures
        trimmed(text).len() > 0 ==> !is_white_space(trimmed(text).first()) && !is_white_space(
            trimmed(text).last(),
        ),
    decreases text.len(),
{
    if text.len() > 0 && is_white_space(text.first()) {
        lemma_trimmed_ends(text.drop_first());
    } else if text.len() > 0 && is_white_space(text.last()) {
        lemma_trimmed_ends(text.drop_last());
    }
}

/// The text with every occurrence of `from`, taken from the left and without overlaps,
/// replaced by `to`.
pub open spec fn replaced(text: Seq<char>, from: Seq<char>, to: Seq<char>) -> Seq<char>
    decreases text.len(),
{
    if text.len() == 0 || from.len() == 0 {
        text
    } else if from.is_prefix_of(text) {
        to + replaced(text.skip(from.len() as int), from, to)
    } else {
        seq![text[0]] + replaced(text.skip(1), from, to)
    }
}

/// Whether the pattern stands in the text at the given position.
fn stands_at(chars: &Vec<char>, at: usize, pattern: &Vec<char>) -> (found: bool)
    requires
        at <= chars.len(),
    ensures
        found == pattern@.is_prefix_of(chars@.skip(at as int)),
{
    if chars.len() - at < pattern.len() {
        return false;
    }
    let ghost rest = chars@.skip(at as int);
    for i in 0..pattern.len()
        invariant
            rest == chars@.skip(at as int),
            at + pattern.len() <= chars.len(),
            forall|j: int| 0 <= j < i ==> pattern@[j] == rest[j],
    {
        if chars[at + i] != pattern[i] {
            assert(rest[i as int] != pattern@[i as int]);
            assert(rest.subrange(0, pattern@.len() as int)[i as int] == rest[i as int]);
            return false;
        }
    }
    true
}

/// Replaces every occurrence of `from` by `to`.
pub fn replace_all(text: &str, from: &str, to: &str) -> (result: String)
    requires
        from@.len() > 0,
    ensures
        result@ == replaced(text@, from@, to@),
{
    let chars = chars_of(text);
    let pattern = chars_of(from);
    let mut result = String::new();
    let mut at: usize = 0;
    assert(text@.skip(0) == text@);
    while at < chars.len()
        invariant
            chars@ == text@,
            pattern@ == from@,
            from@.len() > 0,
            at <= chars.len(),
            replaced(text@, from@, to@) == result@ + replaced(text@.skip(at as int), from@, to@),
        decreases chars.len() - at,
    {
        let ghost rest = text@.skip(at as int);
        let ghost before = result@;
        if stands_at(&chars, at, &pattern) {
            result.append(to);
            assert(rest.skip(from@.len() as int) == text@.skip(at + from@.len()));
            at = at + pattern.len();
            assert(before + (to@ + replaced(text@.skip(at as int), from@, to@)) == result@
                + replaced(text@.skip(at as int), from@, to@));
        } else {
            result.push(chars[at]);
            assert(rest.skip(1) == text@.skip(at + 1));
            at = at + 1;
            assert(before + (seq![rest[0]] + replaced(text@.skip(at as int), from@, to@))
                == result@ + replaced(text@.skip(at as int), from@, to@));
        }
    }
    assert(replaced(text@.skip(at as int), from@, to@) == Seq::<char>::empty());
    result
}

/// Whether the character is a decimal digit.
pub open spec fn is_digit(c: char) -> bool {
    '0' <= c && c <= '9'
}

/// The decimal digit with the given value.
pub open spec fn digit(value: int) -> char {
    (48 + value) as char
}

/// The number in decimal, without leading zeros.
pub open spec fn decimal(number: nat) -> Seq<char>
    decreases number,
{
    if number < 10 {
        seq![digit(number as int)]
    } else {
        decimal(number / 10).push(digit((number % 10) as int))
    }
}

/// The number in decimal, without leading zeros.
pub fn decimal_text(number: usize) -> (text: String)
    ensures
        text@ == decimal(number as nat),
    decreases number,
{
    let last: char = (48u8 + (number % 10) as u8) as char;
    let mut text = if number < 10 {
        String::new()
    } else {
        decimal_text(number / 10)
    };
    text.push(last);
    text
}

/// The lower-case hexadecimal digit with the given value.
pub open spec fn hex_digit(value: int) -> char {
    if value < 10 {
        (48 + value) as char
    } else {
        (87 + value) as char
    }
}

/// The bytes in lower-case hexadecimal, two digits for each.
pub open spec fn lower_hex(bytes: Seq<u8>) -> Seq<char>
    decreases bytes.len(),
{
    if bytes.len() == 0 {
        Seq::empty()
    } else {
        lower_hex(bytes.drop_last()) + seq![
            hex_digit(bytes.last() as int / 16),
            hex_digit(bytes.last() as int % 16),
        ]
    }
}

/// Each byte takes two digits.
pub proof fn lemma_lower_hex_len(bytes: Seq<u8>)
    ensures
        lower_hex(bytes).len() == 2 * bytes.len(),
    decreases bytes.len(),
{
    if bytes.len() > 0 {
        lemma_lower_hex_len(bytes.drop_last());
    }
}

/// The lower-case hexadecimal digit with the given value.
fn hex_char(value: u8) -> (c: char)
    requires
        value < 16,
    ensures
        c == hex_digit(value as int),
{
    if value < 10 {
        (48u8 + value) as char
    } else {
        (87u8 + value) as char
    }
}

/// Writes the bytes in lower-case hexadecimal.
pub fn hex_text(bytes: &Vec<u8>) -> (text: String)
    ensures
        text@ == lower_hex(bytes@),
{
    let mut text = String::new();
    for i in 0..bytes.len()
        invariant
            text@ == lower_hex(bytes@.take(i as int)),
    {
        text.push(hex_char(bytes[i] / 16));
        text.push(hex_char(bytes[i] % 16));
        proof {
            assert(bytes@.take(i + 1).drop_last() == bytes@.take(i as int));
            assert(text@ == lower_hex(bytes@.take(i + 1)));
        }
    }
    assert(bytes@.take(bytes.len() as int) == bytes@);
    text
}

/// The character with `A` to `Z` made lower case and all others kept.
pub open spec fn ascii_lower_char(c: char) -> char {
    if 'A' <= c && c <= 'Z' {
        (c as int + 32) as char
    } else {
        c
    }
}

/// The text with `A` to `Z` made lower case and all other characters kept.
pub open spec fn ascii_lower(text: Seq<char>) -> Seq<char> {
    text.map_values(|c: char| ascii_lower_char(c))
}

/// Makes the letters `A` to `Z` lower case.
pub fn ascii_lower_text(text: &str) -> (result: String)
    ensures
        result@ == ascii_lower(text@),
{
    let mut result = String::new();
    for c in it: text.chars()
        invariant
            it.seq() == text@,
            result@ == ascii_lower(text@.take(it.index() as int)),
    {
        if 'A' <= c && c <= 'Z' {
            let code: u8 = c as u8;
            result.push((code + 32) as char);
        } else {
            result.push(c);
        }
    }
    assert(text@.take(text@.len() as int) == text@);
    result
}

} // verus!
