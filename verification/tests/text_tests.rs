use tj_videoprep::json::{array_of, get, int_of, seconds_of, str_of, u64_of, JsonValue};
use tj_videoprep::paths::join_names;
use tj_videoprep::text::{
    contains, debug_opt_i32_text, ends_with, eq_ignore_ascii_case, first_line, i64_text, is_blank,
    join, parse_i64, parse_scaled, parse_u64, sorted_unique, starts_with, text_lt, trim, u64_text,
};

#[test]
fn trimming_unicode_whitespace() {
    assert_eq!(trim("  a b \t\n"), "a b");
    assert_eq!(trim("\u{3000}x\u{a0}"), "x");
    assert_eq!(trim("   "), "");
    assert_eq!(trim(""), "");
    assert!(is_blank(" \u{2003} "));
    assert!(!is_blank(" . "));
}

#[test]
fn substring_search() {
    assert!(contains("5.1(side)", "5.1"));
    assert!(contains("abc", ""));
    assert!(!contains("ab", "abc"));
    assert!(contains("导演评论", "评论"));
    assert!(starts_with("mpv-x.7z", "mpv-"));
    assert!(!starts_with("mp", "mpv-"));
    assert!(ends_with("mpv-x.7z", ".7z"));
    assert!(!ends_with("a.7zz", ".7z"));
}

#[test]
fn integer_text() {
    assert_eq!(u64_text(0), "0");
    assert_eq!(u64_text(18446744073709551615), "18446744073709551615");
    assert_eq!(i64_text(-42), "-42");
    assert_eq!(i64_text(i64::MIN), "-9223372036854775808");
    assert_eq!(debug_opt_i32_text(Some(3)), "Some(3)");
    assert_eq!(debug_opt_i32_text(None), "None");
}

#[test]
fn integer_parsing_as_std_does() {
    for s in ["0", "-0", "+7", "-9223372036854775808", "9223372036854775807", "9223372036854775808", "", "-", "+", "1 ", "1a", "007", "-12"] {
        assert_eq!(parse_i64(s), s.parse::<i64>().ok(), "{}", s);
    }
    for s in ["0", "+7", "-1", "18446744073709551615", "18446744073709551616", "", "+"] {
        assert_eq!(parse_u64(s), s.parse::<u64>().ok(), "{}", s);
    }
}

#[test]
fn decimal_parsing() {
    assert_eq!(parse_scaled("0.007000", 6), Some(7000));
    assert_eq!(parse_scaled("-1.5", 6), Some(-1_500_000));
    assert_eq!(parse_scaled(".5", 6), Some(500_000));
    assert_eq!(parse_scaled("5.", 6), Some(5_000_000));
    assert_eq!(parse_scaled("+2", 6), Some(2_000_000));
    assert_eq!(parse_scaled("1.23456789", 6), Some(1_234_568));
    assert_eq!(parse_scaled("1.2345674", 6), Some(1_234_567));
    assert_eq!(parse_scaled("-0.0000005", 6), Some(-1));
    assert_eq!(parse_scaled(".", 6), None);
    assert_eq!(parse_scaled("", 6), None);
    assert_eq!(parse_scaled("N/A", 6), None);
    assert_eq!(parse_scaled("1.2.3", 6), None);
    assert_eq!(parse_scaled("12.9", 0), Some(13));
    assert_eq!(parse_scaled("12.4", 0), Some(12));
    assert_eq!(parse_scaled("9223372036854775807.5", 0), None);
    assert_eq!(parse_scaled("99999999999999999999", 0), None);
}

#[test]
fn first_lines() {
    assert_eq!(first_line("a\r\nb"), Some("a".to_string()));
    assert_eq!(first_line("a\rb"), Some("a\rb".to_string()));
    assert_eq!(first_line(""), None);
    assert_eq!(first_line("\n"), Some(String::new()));
    assert_eq!(first_line("only"), Some("only".to_string()));
    for s in ["x\r\n", "\r\n", "a\r", "abc\ndef"] {
        assert_eq!(first_line(s), s.lines().next().map(|l| l.to_string()));
    }
}

#[test]
fn joining() {
    let parts = vec!["a".to_string(), "b".to_string(), "c".to_string()];
    assert_eq!(join(&parts, ","), "a,b,c");
    assert_eq!(join(&Vec::new(), ","), "");
    assert_eq!(join(&vec!["x".to_string()], ", "), "x");
}

#[test]
fn ordering_and_case() {
    assert!(text_lt("a", "b"));
    assert!(text_lt("", "a"));
    assert!(!text_lt("b", "a"));
    assert!(!text_lt("a", "a"));
    assert!(text_lt("ab", "abc"));
    assert!(text_lt("Z", "a"));
    assert!(eq_ignore_ascii_case("MPV.EXE", "mpv.exe"));
    assert!(!eq_ignore_ascii_case("mpv.exe", "mpv.ex"));
    assert!(!eq_ignore_ascii_case("Ä", "ä"));
    let v = vec!["b".to_string(), "a".to_string(), "b".to_string()];
    assert_eq!(sorted_unique(&v), vec!["a".to_string(), "b".to_string()]);
}

#[test]
fn path_joining() {
    let names = vec!["vendor".to_string(), "mpv".to_string(), "mpv".to_string()];
    assert_eq!(join_names("/app", &names), "/app/vendor/mpv/mpv");
    assert_eq!(join_names("/app", &Vec::new()), "/app");
}

#[test]
fn json_field_readers() {
    let v = JsonValue::Object(vec![
        ("a".to_string(), JsonValue::Number("12".to_string())),
        ("b".to_string(), JsonValue::Str("-3".to_string())),
        ("c".to_string(), JsonValue::Number("1.5".to_string())),
        ("d".to_string(), JsonValue::Array(vec![JsonValue::Null, JsonValue::Bool(true)])),
        ("e".to_string(), JsonValue::Str("text".to_string())),
    ]);
    assert_eq!(int_of(&v, "a"), 12);
    assert_eq!(int_of(&v, "b"), -3);
    assert_eq!(int_of(&v, "c"), 0);
    assert_eq!(int_of(&v, "zz"), 0);
    assert_eq!(seconds_of(&v, "c", 6), 1_500_000);
    assert_eq!(seconds_of(&v, "b", 6), -3_000_000);
    assert_eq!(u64_of(&v, "a"), 12);
    assert_eq!(u64_of(&v, "b"), 0);
    assert_eq!(str_of(&v, "e"), "text");
    assert_eq!(str_of(&v, "a"), "");
    assert_eq!(array_of(&v, "d").len(), 2);
    assert_eq!(array_of(&v, "e").len(), 0);
    assert!(get(&v, "d").is_some());
    assert!(get(&JsonValue::Null, "d").is_none());
}

#[test]
fn parse_scaled_reads_exponents() {
    assert_eq!(parse_scaled("1.5e3", 0), Some(1500));
    assert_eq!(parse_scaled("2E-4", 6), Some(200));
    assert_eq!(parse_scaled("-1.5E+2", 0), Some(-150));
    assert_eq!(parse_scaled("1e-7", 6), Some(0));
    assert_eq!(parse_scaled("5e-7", 6), Some(1));
    assert_eq!(parse_scaled("-5e-7", 6), Some(-1));
    assert_eq!(parse_scaled("4.9e-7", 6), Some(0));
    assert_eq!(parse_scaled("12.5e-1", 0), Some(1));
    assert_eq!(parse_scaled(".25e1", 1), Some(25));
    assert_eq!(parse_scaled("1e18", 0), Some(1_000_000_000_000_000_000));
    assert_eq!(parse_scaled("1e19", 0), None);
    assert_eq!(parse_scaled("1e400", 0), None);
    assert_eq!(parse_scaled("0e400", 0), Some(0));
    assert_eq!(parse_scaled("0.000e99999999999999999999999999999999999", 0), Some(0));
    assert_eq!(parse_scaled("1e99999999999999999999999999999999999", 0), None);
    assert_eq!(parse_scaled("1e-99999999999999999999999999999999999", 6), Some(0));
    assert_eq!(parse_scaled("1e", 0), None);
    assert_eq!(parse_scaled("e5", 0), None);
    assert_eq!(parse_scaled(".e1", 0), None);
    assert_eq!(parse_scaled("1e+", 0), None);
    assert_eq!(parse_scaled("1e5.0", 0), None);
    assert_eq!(parse_scaled("1ee5", 0), None);
}

#[test]
fn micros_from_exponent_numbers() {
    let v = JsonValue::Object(vec![
        ("tiny".to_string(), JsonValue::Number("1e-5".to_string())),
        ("big".to_string(), JsonValue::Number("1.5e3".to_string())),
    ]);
    assert_eq!(seconds_of(&v, "tiny", 6), 10);
    assert_eq!(seconds_of(&v, "tiny", 9), 10_000);
    assert_eq!(seconds_of(&v, "big", 6), 1_500_000_000);
}
