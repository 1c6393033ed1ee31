use wasm_operator::text::{
    contains, eq_ignore_ascii_case, i64_text, is_blank, parse_u64, parse_uint, split_on,
    strip_prefix, u64_text, IntError,
};

#[test]
fn numbers_are_written_in_decimal() {
    assert_eq!(u64_text(0), "0");
    assert_eq!(u64_text(10), "10");
    assert_eq!(u64_text(u64::MAX), "18446744073709551615");
    assert_eq!(i64_text(-7), "-7");
    assert_eq!(i64_text(i64::MIN), "-9223372036854775808");
    assert_eq!(i64_text(i64::MAX), "9223372036854775807");
}

#[test]
fn numbers_are_read_as_std_reads_them() {
    for text in [
        "0", "42", "+42", "+", "-1", "", "00012", "18446744073709551615",
        "18446744073709551616", "99999999999999999999999", "12x", "x", "1 ", "99999999999999999999x",
    ] {
        let expected: Result<u64, String> = text.parse::<u64>().map_err(|e| e.to_string());
        let got: Result<u64, String> = parse_u64(text).map_err(|e| e.text());
        assert_eq!(got, expected, "{:?}", text);
    }
    assert_eq!(parse_u64(""), Err(IntError::Empty));
    assert_eq!(parse_u64("12x"), Err(IntError::InvalidDigit));
    assert_eq!(parse_u64("18446744073709551616"), Err(IntError::TooLarge));
    assert_eq!(parse_uint("256", 255), Err(IntError::TooLarge));
    assert_eq!(parse_uint("255", 255), Ok(255));
}

#[test]
fn blank_is_white_space_only() {
    for text in ["", " ", "\t\r\n", "\u{a0}\u{2003}\u{3000}", "\u{200b}", " a ", "\u{85}"] {
        assert_eq!(is_blank(text), text.trim().is_empty(), "{:?}", text);
    }
}

#[test]
fn splitting_is_that_of_std() {
    for (text, at) in [
        ("a\n---b\n---", "\n---"), ("", "\n---"), ("abc", "\n---"), ("\n---\n---", "\n---"),
        ("aaaa", "aa"), ("aaaaa", "aa"), ("é-é", "é"),
    ] {
        let expected: Vec<String> = text.split(at).map(|s| s.to_string()).collect();
        assert_eq!(split_on(text, at), expected, "{:?}", text);
    }
}

#[test]
fn searching_is_that_of_std() {
    for (hay, needle) in [("abc", "bc"), ("abc", "bd"), ("", ""), ("aab", "ab"), ("ab", "abc")] {
        assert_eq!(contains(hay, needle), hay.contains(needle));
    }
    assert_eq!(strip_prefix("--http_log=debug", "--http_log="), Some("debug".to_string()));
    assert_eq!(strip_prefix("--http_log=", "--http_log="), Some(String::new()));
    assert_eq!(strip_prefix("--http_lo", "--http_log="), None);
}

#[test]
fn case_is_ignored_for_ascii_only() {
    for (a, b) in [("Pod", "pOD"), ("Pod", "Pods"), ("É", "é"), ("É", "É"), ("[", "{"), ("@", "`")] {
        assert_eq!(eq_ignore_ascii_case(a, b), a.eq_ignore_ascii_case(b), "{} {}", a, b);
    }
}
