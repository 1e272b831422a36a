use chs_deck::text::{decimal_string, parse_u64, parse_usize, split_lines, split_words, str_is, to_chars};

fn words_of(s: &str) -> Vec<String> {
    split_words(&to_chars(s)).into_iter().map(|w| w.into_iter().collect()).collect()
}

fn lines_of(s: &str) -> Vec<String> {
    split_lines(&to_chars(s)).into_iter().map(|w| w.into_iter().collect()).collect()
}

#[test]
fn words_split_on_unicode_whitespace() {
    assert_eq!(words_of("  cpu  10\t20\u{3000}30 "), vec!["cpu", "10", "20", "30"]);
    assert_eq!(words_of("   "), Vec::<String>::new());
    assert_eq!(words_of(""), Vec::<String>::new());
}

#[test]
fn lines_follow_str_lines() {
    assert_eq!(lines_of("a\nb\r\nc"), vec!["a", "b", "c"]);
    assert_eq!(lines_of("a\n"), vec!["a"]);
    assert_eq!(lines_of("\n\n"), vec!["", ""]);
    assert_eq!(lines_of("a\r"), vec!["a\r"]);
    assert_eq!(lines_of(""), Vec::<String>::new());
}

#[test]
fn parse_u64_follows_str_parse() {
    assert_eq!(parse_u64(&to_chars("42")), Some(42));
    assert_eq!(parse_u64(&to_chars("+42")), Some(42));
    assert_eq!(parse_u64(&to_chars("007")), Some(7));
    assert_eq!(parse_u64(&to_chars("18446744073709551615")), Some(u64::MAX));
    assert_eq!(parse_u64(&to_chars("18446744073709551616")), None);
    assert_eq!(parse_u64(&to_chars("-1")), None);
    assert_eq!(parse_u64(&to_chars("+")), None);
    assert_eq!(parse_u64(&to_chars("")), None);
    assert_eq!(parse_u64(&to_chars("12a")), None);
    assert_eq!(parse_u64(&to_chars(" 1")), None);
    assert_eq!(parse_usize(&to_chars("17")), Some(17));
}

#[test]
fn decimal_text_of_numbers() {
    assert_eq!(decimal_string(0), "0");
    assert_eq!(decimal_string(1234), "1234");
    assert_eq!(decimal_string(u64::MAX), "18446744073709551615");
}

#[test]
fn decimal_text_parses_back() {
    for n in [0u64, 9, 10, 99, 100, 65535, 1 << 40, u64::MAX] {
        assert_eq!(parse_u64(&to_chars(&decimal_string(n))), Some(n));
    }
}

#[test]
fn str_is_compares_whole_text() {
    assert!(str_is("ram", "ram"));
    assert!(!str_is("ram ", "ram"));
    assert!(!str_is("", "ram"));
}

#[test]
fn text_functions_agree_with_std() {
    let samples = [
        "",
        " ",
        "abc",
        "  a b  ",
        "a\nb\r\nc\n",
        "\u{00a0}x\u{2028}y\u{205f}",
        "tab\tsep\u{0085}end",
        "+12",
        "-3",
        "99999999999999999999",
        "\r\n\r\n",
        "é.ü.€",
    ];
    for s in samples {
        let words: Vec<String> = s.split_whitespace().map(|w| w.to_string()).collect();
        assert_eq!(words_of(s), words, "words of {:?}", s);
        let lines: Vec<String> = s.lines().map(|l| l.to_string()).collect();
        assert_eq!(lines_of(s), lines, "lines of {:?}", s);
        assert_eq!(parse_u64(&to_chars(s)), s.parse::<u64>().ok(), "parse of {:?}", s);
        assert_eq!(chs_deck::media::trim_output(s), s.trim(), "trim of {:?}", s);
    }
}
