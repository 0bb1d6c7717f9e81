use gosh_dl::text::{
    chars_of, contains, decimal_string, ends_with, eq_ignore_ascii_case, find, find_from, join2,
    join3, parse_u32, parse_u64, parse_usize, split_on, starts_with, string_of, trim,
};

fn c(s: &str) -> Vec<char> {
    chars_of(s)
}

#[test]
fn test_chars_and_back() {
    let text = "a\u{e9}\u{4e2d}!";
    assert_eq!(chars_of(text), text.chars().collect::<Vec<char>>());
    assert_eq!(string_of(&chars_of(text)), text);
    assert_eq!(join2("ab", "cd"), "abcd");
    assert_eq!(join3("a", "", "c"), "ac");
}

#[test]
fn test_find() {
    assert_eq!(find(&c("hello world"), &c("o")), Some(4));
    assert_eq!(find(&c("hello world"), &c("world")), Some(6));
    assert_eq!(find(&c("hello"), &c("")), Some(0));
    assert_eq!(find(&c("hello"), &c("hello!")), None);
    assert_eq!(find(&c("aaab"), &c("aab")), Some(1));
    assert_eq!(find_from(&c("a.b.c"), &c("."), 2), Some(3));
    assert_eq!(find_from(&c("a.b.c"), &c("."), 4), None);
    assert!(contains(&c("the torrent"), &c("torrent")));
    assert!(!contains(&c("the torren"), &c("torrent")));
    assert!(starts_with(&c("magnet:?x"), &c("magnet:")));
    assert!(!starts_with(&c("mag"), &c("magnet:")));
    assert!(ends_with(&c("a.torrent"), &c(".torrent")));
    assert!(!ends_with(&c("torrent"), &c(".torrent")));
}

#[test]
fn test_trim_is_the_trim_of_std() {
    for text in ["  a b  ", "\t\n x \r\n", "", "   ", "\u{a0}x\u{3000}", "x", "\u{85}y\u{2028}"] {
        assert_eq!(string_of(&trim(&c(text))), text.trim(), "{:?}", text);
    }
}

#[test]
fn test_parse_numbers_as_std_does() {
    for text in ["0", "7", "+7", "007", "18446744073709551615", "18446744073709551616", "", "+", "-1", " 1", "1 ", "1_0", "12a", "\u{661}"] {
        assert_eq!(parse_u64(&c(text)), text.parse::<u64>().ok(), "{:?}", text);
        assert_eq!(parse_u32(&c(text)), text.parse::<u32>().ok(), "{:?}", text);
        assert_eq!(parse_usize(&c(text)), text.parse::<usize>().ok(), "{:?}", text);
    }
    assert_eq!(parse_u32(&c("4294967295")), Some(u32::MAX));
    assert_eq!(parse_u32(&c("4294967296")), None);
}

#[test]
fn test_decimal_text() {
    for n in [0u64, 9, 10, 12345, u64::MAX] {
        assert_eq!(decimal_string(n), n.to_string());
    }
}

#[test]
fn test_split() {
    let parts: Vec<String> = split_on(&c("a,b,,c,"), ',').iter().map(string_of).collect();
    assert_eq!(parts, vec!["a", "b", "", "c", ""]);
    let one: Vec<String> = split_on(&c(""), ',').iter().map(string_of).collect();
    assert_eq!(one, vec![""]);
}

#[test]
fn test_ascii_case() {
    assert!(eq_ignore_ascii_case(&c("SHA256"), &c("sha256")));
    assert!(!eq_ignore_ascii_case(&c("sha25"), &c("sha256")));
    assert!(!eq_ignore_ascii_case(&c("\u{c9}"), &c("\u{e9}")));
}
