use itmo_calendar_sync::text::{
    ascii_lower_text, chars_of, decimal_text, glued, hex_text, join, replace_all, same_text, trim,
    white_space, width_of,
};
use itmo_calendar_sync::web::{
    header_string, redirect_url, redirects, resolve_redirect, status_error, succeeded,
    HttpResponse, Url,
};

#[test]
fn white_space_is_that_of_unicode() {
    for c in '\0'..=char::MAX {
        assert_eq!(white_space(c), c.is_whitespace(), "{c:?}");
    }
}

#[test]
fn width_is_that_of_utf8() {
    for c in '\0'..=char::MAX {
        assert_eq!(width_of(c), c.len_utf8(), "{c:?}");
    }
}

#[test]
fn text_is_trimmed_on_both_sides() {
    for text in ["", " ", "a", " a", "a\n", "\t a \u{85}b\u{2029} ", "  \u{a0}"] {
        assert_eq!(trim(text), text.trim());
    }
}

#[test]
fn occurrences_are_replaced_from_the_left() {
    for (text, from, to) in [
        ("", "a", "b"),
        ("aaa", "aa", "b"),
        ("&amp;amp;", "&amp;", "&"),
        ("abab", "ab", "abab"),
        ("abc", "d", "x"),
        ("aab", "ab", ""),
        ("ab", "abc", "x"),
    ] {
        assert_eq!(replace_all(text, from, to), text.replace(from, to));
    }
}

#[test]
fn texts_are_joined() {
    assert_eq!(join(&vec![], ", "), "");
    assert_eq!(join(&vec!["a".to_owned()], ", "), "a");
    assert_eq!(join(&vec!["a".to_owned(), "".to_owned(), "b".to_owned()], ", "), "a, , b");
    assert_eq!(glued("a", "b"), "ab");
    assert_eq!(chars_of("aж"), vec!['a', 'ж']);
    assert!(same_text("aж", "aж"));
    assert!(!same_text("aж", "a"));
}

#[test]
fn numbers_are_written() {
    for number in [0, 1, 9, 10, 99, 100, 12_345, usize::MAX] {
        assert_eq!(decimal_text(number), number.to_string());
    }
    assert_eq!(hex_text(&vec![0, 9, 10, 255, 160]), "00090affa0");
    assert_eq!(hex_text(&vec![]), "");
}

#[test]
fn only_ascii_is_lowered() {
    assert_eq!(ascii_lower_text("AZaz09[@`{ЖÉ"), "AZaz09[@`{ЖÉ".to_ascii_lowercase());
}

#[test]
fn headers_are_printable_ascii() {
    let bytes: Vec<u8> = (0..=255).collect();
    for byte in bytes {
        let visible = (32..127).contains(&byte) || byte == 9;
        assert_eq!(header_string(&vec![b'a', byte]).is_some(), visible, "{byte}");
    }
    assert_eq!(header_string(&vec![]).as_deref(), Some(""));
    assert_eq!(header_string(&b"/a\tb~".to_vec()).as_deref(), Some("/a\tb~"));
}

fn response(url: &str, location: &str) -> HttpResponse {
    HttpResponse {
        status: 302,
        url: Url::parse(url).unwrap(),
        location: Some(location.as_bytes().to_vec()),
    }
}

#[test]
fn redirects_are_resolved_against_the_answer() {
    for (url, location, target) in [
        ("https://a.b/c/d?e", "f", "https://a.b/c/f"),
        ("https://a.b/c/d?e", "/f?g#h", "https://a.b/f?g#h"),
        ("https://a.b/c/d?e", "//x.y", "https://x.y/"),
        ("https://a.b/c/d?e", "?z", "https://a.b/c/d?z"),
        ("https://a.b/c/d?e", "http://q", "http://q/"),
        ("https://a.b/c/d?e", "", "https://a.b/c/d?e"),
    ] {
        assert_eq!(redirect_url(&response(url, location)).unwrap().text, target);
    }
    assert_eq!(
        redirect_url(&response("mailto:x", "/f")).unwrap_err().to_string(),
        "invalid ITMO redirect: relative URL with a cannot-be-a-base base"
    );
}

#[test]
fn location_counts_on_its_own_first() {
    let first = || Url::parse("https://first/");
    let second = || Url::parse("https://second/");
    let complaint = || Err("why".to_owned());

    assert_eq!(resolve_redirect(first(), second()).unwrap().text, "https://first/");
    assert_eq!(resolve_redirect(complaint(), second()).unwrap().text, "https://second/");
    assert_eq!(
        resolve_redirect(Err("other".to_owned()), complaint()).unwrap_err().to_string(),
        "invalid ITMO redirect: why"
    );
}

#[test]
fn statuses_are_told_apart() {
    for status in 100..1000 {
        assert_eq!(succeeded(status), status / 100 == 2);
        assert_eq!(redirects(status), status / 100 == 3);
        assert!(status_error("got ", status)
            .to_string()
            .starts_with(&format!("got {status} ")));
    }
    assert_eq!(status_error("", 418).to_string(), "418 I'm a teapot");
}
