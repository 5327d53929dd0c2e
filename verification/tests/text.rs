use ri::text::{decimal_string, left_aligned_5, parse_usize, split_chars, trim_chars};

fn chars(s: &str) -> Vec<char> {
    s.chars().collect()
}

#[test]
fn parse_usize_like_str_parse() {
    assert_eq!(parse_usize(&chars("12")), Some(12));
    assert_eq!(parse_usize(&chars("+7")), Some(7));
    assert_eq!(parse_usize(&chars("")), None);
    assert_eq!(parse_usize(&chars("+")), None);
    assert_eq!(parse_usize(&chars("1a")), None);
    assert_eq!(parse_usize(&chars("-1")), None);
    assert_eq!(parse_usize(&chars("99999999999999999999999")), None);
    assert_eq!(parse_usize(&chars("18446744073709551615")), Some(usize::MAX));
}

#[test]
fn trim_removes_unicode_white_space() {
    assert_eq!(trim_chars(&chars(" \t a b \u{3000}")), chars("a b"));
    assert_eq!(trim_chars(&chars("   ")), chars(""));
}

#[test]
fn split_keeps_empty_pieces() {
    assert_eq!(split_chars(&chars("1,,2"), ','), vec![chars("1"), chars(""), chars("2")]);
    assert_eq!(split_chars(&chars(""), ','), vec![chars("")]);
}

#[test]
fn decimal_formatting() {
    assert_eq!(decimal_string(0), "0");
    assert_eq!(decimal_string(105), "105");
    assert_eq!(left_aligned_5(7), "7    ");
    assert_eq!(left_aligned_5(123456), "123456");
}

#[test]
fn parsing_reads_back_decimal_text() {
    for n in [0usize, 7, 10, 4096, usize::MAX] {
        let s: Vec<char> = decimal_string(n).chars().collect();
        assert_eq!(parse_usize(&s), Some(n));
    }
}
