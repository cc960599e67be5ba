use cargo_dev_install::text::parse_usize;
use cargo_dev_install::text::split_lines;
use cargo_dev_install::text::str_eq;
use cargo_dev_install::text::trim;
use cargo_dev_install::text::usize_to_string;

#[test]
fn str_eq_compares_contents() {
    assert!(str_eq("alpha", "alpha"));
    assert!(!str_eq("alpha", "beta"));
    assert!(!str_eq("alpha", "alpha "));
    assert!(str_eq("", ""));
}

#[test]
fn trim_strips_surrounding_whitespace() {
    assert_eq!(trim("  2 \n"), "2");
    assert_eq!(trim("demo"), "demo");
    assert_eq!(trim(" \t\r\n "), "");
    assert_eq!(trim("a b"), "a b");
}

#[test]
fn parse_usize_accepts_plain_numerals() {
    assert_eq!(parse_usize("0"), Some(0));
    assert_eq!(parse_usize("2"), Some(2));
    assert_eq!(parse_usize("+7"), Some(7));
    assert_eq!(parse_usize("120"), Some(120));
}

#[test]
fn parse_usize_rejects_everything_else() {
    assert_eq!(parse_usize(""), None);
    assert_eq!(parse_usize("+"), None);
    assert_eq!(parse_usize("foo"), None);
    assert_eq!(parse_usize("1a"), None);
    assert_eq!(parse_usize("-1"), None);
    assert_eq!(parse_usize(" 1"), None);
}

#[test]
fn parse_usize_rejects_overflowing_numerals() {
    let max = usize::MAX.to_string();
    assert_eq!(parse_usize(&max), Some(usize::MAX));
    let over = format!("{}0", max);
    assert_eq!(parse_usize(&over), None);
}

#[test]
fn usize_to_string_renders_decimal() {
    assert_eq!(usize_to_string(0), "0");
    assert_eq!(usize_to_string(9), "9");
    assert_eq!(usize_to_string(10), "10");
    assert_eq!(usize_to_string(120), "120");
}

#[test]
fn numerals_round_trip() {
    for n in [0usize, 1, 9, 10, 99, 100, 4096] {
        assert_eq!(parse_usize(&usize_to_string(n)), Some(n));
    }
}

#[test]
fn split_lines_keeps_terminators() {
    let lines = split_lines("foo\n1\n");
    assert_eq!(lines, vec!["foo\n".to_string(), "1\n".to_string()]);
}

#[test]
fn split_lines_keeps_a_trailing_fragment() {
    let lines = split_lines("a\nb");
    assert_eq!(lines, vec!["a\n".to_string(), "b".to_string()]);
    assert_eq!(split_lines(""), Vec::<String>::new());
}
