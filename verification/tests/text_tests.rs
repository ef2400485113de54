use webworm::text::{chars_of, contains, decimal_chars, find, parse_usize, replace, string_of};

fn chars(s: &str) -> Vec<char> {
    chars_of(s)
}

#[test]
fn parse_usize_reads_plain_and_signed_numerals() {
    assert_eq!(parse_usize(&chars("42")), Some(42));
    assert_eq!(parse_usize(&chars("+7")), Some(7));
    assert_eq!(parse_usize(&chars("007")), Some(7));
}

#[test]
fn parse_usize_refuses_what_str_parse_refuses() {
    assert_eq!(parse_usize(&chars("")), None);
    assert_eq!(parse_usize(&chars("+")), None);
    assert_eq!(parse_usize(&chars("4a")), None);
    assert_eq!(parse_usize(&chars("-1")), None);
    assert_eq!(parse_usize(&chars(" 1")), None);
    let too_big = format!("{}0", usize::MAX);
    assert_eq!(parse_usize(&chars(&too_big)), None);
    assert_eq!(parse_usize(&chars(&usize::MAX.to_string())), Some(usize::MAX));
}

#[test]
fn decimal_chars_writes_as_to_string_does() {
    for n in [0usize, 5, 10, 1234, usize::MAX] {
        assert_eq!(string_of(&decimal_chars(n)), n.to_string());
    }
}

#[test]
fn find_gives_the_first_occurrence() {
    assert_eq!(find(&chars("abcabc"), &chars("ca")), Some(2));
    assert_eq!(find(&chars("abc"), &chars("x")), None);
    assert_eq!(find(&chars("abc"), &chars("")), Some(0));
    assert!(contains(&chars("hello world"), &chars("o w")));
    assert!(!contains(&chars("hello"), &chars("hello!")));
}

#[test]
fn replace_replaces_every_occurrence_without_overlap() {
    let r = replace(&chars("aaa"), &chars("aa"), &chars("b"));
    assert_eq!(string_of(&r), "aaa".replace("aa", "b"));
    let r = replace(&chars("the big show"), &chars(" "), &chars("%20"));
    assert_eq!(string_of(&r), "the%20big%20show");
    let r = replace(&chars("none here"), &chars("xyz"), &chars("q"));
    assert_eq!(string_of(&r), "none here");
}

#[test]
fn white_space_is_what_char_is_whitespace_says() {
    for c in [' ', '\t', '\n', '\r', '\u{0B}', '\u{0C}', '\u{85}', '\u{A0}', '\u{1680}', '\u{2000}', '\u{200A}', '\u{2028}', '\u{2029}', '\u{202F}', '\u{205F}', '\u{3000}', 'a', '0', '\u{200B}', '\u{FEFF}', '_'] {
        assert_eq!(webworm::text::white_space(c), c.is_whitespace(), "{:?}", c);
    }
}

#[test]
fn first_words_split_at_white_space() {
    let text = "  one two\tthree\n\nfour  ";
    let expected: Vec<String> = text.split_whitespace().map(|w| w.to_string()).collect();
    assert_eq!(webworm::text::first_words(text, 10), expected);
    assert_eq!(webworm::text::first_words(text, 2), vec!["one".to_string(), "two".to_string()]);
    assert!(webworm::text::first_words("   ", 3).is_empty());
}
