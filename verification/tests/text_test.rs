use dialog_script::number::{i16_to_string, is_digit_char, is_float, parse_i16, parse_u8};
use dialog_script::text::{
    ends_with, is_space_char, skip_chars, split_ascii_whitespace, split_once, starts_with, str_eq,
    strip_prefix, trim_ascii,
};

const SAMPLES: [&str; 64] = [
    "", " ", "0", "7", "007", "+7", "-7", "+", "-", "+-7", "--7", "255", "256", "-0", "+0",
    "32767", "32768", "-32768", "-32769", "99999999999999999999", "0000000000000000000001",
    "1.5", "1.", ".5", ".", "-.5", "+1.", "1e5", "1E5", "1e+5", "1e-5", "1e", "e5", "1e5.",
    "1.5e3", "1..5", "1.5.2", "inf", "INF", "-inf", "+Infinity", "infinit", "infinityy", "nan",
    "NaN", "-nan", "na", " 1", "1 ", "1_000", "0x10", "1f", "١", "1é", "tRUE", "1e٣", "..",
    "-e5", "+.e1", "5e+", "5e-", ".e5", "1e5e5", "é",
];

#[test]
fn integers_are_read_as_the_standard_library_reads_them() {
    for s in SAMPLES {
        assert_eq!(parse_i16(s), s.parse::<i16>().ok(), "{s:?}");
        assert_eq!(parse_u8(s), s.parse::<u8>().ok(), "{s:?}");
    }
    assert_eq!(parse_i16("-32768"), Some(i16::MIN));
    assert_eq!(parse_i16("32768"), None);
    assert_eq!(parse_u8("255"), Some(255));
    assert_eq!(parse_u8("-1"), None);
}

#[test]
fn float_literals_are_those_of_the_standard_library() {
    for s in SAMPLES {
        assert_eq!(is_float(s), s.parse::<f32>().is_ok(), "{s:?}");
    }
    assert!(is_float("3.14"));
    assert!(!is_float("3,14"));
}

#[test]
fn integers_are_written_in_base_ten() {
    for i in i16::MIN..=i16::MAX {
        let text = i16_to_string(i);
        assert_eq!(text, i.to_string());
        assert_eq!(parse_i16(&text), Some(i));
    }
}

#[test]
fn digits_and_whitespace() {
    for c in ['0', '5', '9'] {
        assert!(is_digit_char(c));
    }
    for c in ['/', ':', 'a', '٣'] {
        assert!(!is_digit_char(c));
    }
    for c in [' ', '\t', '\n', '\r', '\x0C'] {
        assert!(is_space_char(c));
    }
    for c in ['\x0B', 'a', '\u{a0}', '\0'] {
        assert!(!is_space_char(c));
    }
}

#[test]
fn trimming() {
    for s in [
        "", " ", "a", " a", "a ", " \t\r\n\x0Ca b\x0C\n\r\t ", "\x0Ba\x0B", "é ", " é", "\u{a0}a",
    ] {
        assert_eq!(trim_ascii(s), s.trim_ascii(), "{s:?}");
    }
    assert_eq!(trim_ascii("  a b  "), "a b");
}

#[test]
fn cutting_once() {
    for s in ["", "a", "a b", " a", "a ", "a  b", "é é é", "ab cd ef"] {
        assert_eq!(split_once(s, ' '), s.split_once(' '), "{s:?}");
    }
    assert_eq!(split_once("a,b,c", ','), Some(("a", "b,c")));
    assert_eq!(split_once("abc", ','), None);
}

#[test]
fn words_between_whitespace() {
    for s in [
        "", " ", "a", " a ", "a b", "a \t\n b", "  é  ö  ", "a\x0Bb", "one two three four",
    ] {
        let expected: Vec<&str> = s.split_ascii_whitespace().collect();
        assert_eq!(split_ascii_whitespace(s), expected, "{s:?}");
    }
    assert_eq!(split_ascii_whitespace(" a  bc "), vec!["a", "bc"]);
}

#[test]
fn beginnings_and_ends() {
    assert!(starts_with("/pg", '/'));
    assert!(!starts_with("pg/", '/'));
    assert!(!starts_with("", '/'));
    assert!(ends_with("pg}", '}'));
    assert!(!ends_with("}pg", '}'));
    assert!(!ends_with("", '}'));
    assert!(str_eq("abc", "abc"));
    assert!(str_eq("", ""));
    assert!(!str_eq("abc", "abd"));
    assert!(!str_eq("abc", "ab"));
    assert_eq!(strip_prefix("{item x", "{item"), Some(" x"));
    assert_eq!(strip_prefix("{item", "{item"), Some(""));
    assert_eq!(strip_prefix("{ite", "{item"), None);
    assert_eq!(strip_prefix("x{item", "{item"), None);
    assert_eq!(skip_chars("éab", 1), "ab");
    assert_eq!(skip_chars("ab", 2), "");
    assert_eq!(skip_chars("ab", 0), "ab");
}
