use log_inspector::byte_search::{matches_at, rfind};
use log_inspector::text::{
    append_decimal, append_joined, char_is_space, char_to_upper, chars_of, digit_str, spells,
    split_bounds, trim_bounds, upper_range,
};

#[test]
fn rfind_gives_the_last_occurrence() {
    assert_eq!(rfind(b"abcabcabc", b"abc"), Some(6));
    assert_eq!(rfind(b"abcabcab", b"abc"), Some(3));
    assert_eq!(rfind(b"aaaa", b"aa"), Some(2));
    assert_eq!(rfind(b"abc", b"abcd"), None);
    assert_eq!(rfind(b"abc", b"x"), None);
    assert_eq!(rfind(b"", b"x"), None);
    assert_eq!(rfind(b"abc", b"abc"), Some(0));
}

#[test]
fn rfind_agrees_with_the_standard_search() {
    let hay = "one\nERROR: two\nWARNING: three\nERROR: four\n";
    for needle in ["\nERROR:", "\nWARNING:", "\n", "four\n", "one", "five", "o"] {
        assert_eq!(rfind(hay.as_bytes(), needle.as_bytes()), hay.rfind(needle));
    }
}

#[test]
fn empty_needle_occurs_at_the_end() {
    assert_eq!(rfind(b"abc", b""), Some(3));
    assert_eq!(rfind(b"", b""), Some(0));
}

#[test]
fn matches_at_compares_in_place() {
    assert!(matches_at(b"hello world", b"world", 6));
    assert!(!matches_at(b"hello world", b"world", 5));
    assert!(matches_at(b"hello", b"", 5));
}

#[test]
fn decimal_digits() {
    for (n, text) in [
        (0u64, "0"),
        (7, "7"),
        (10, "10"),
        (99, "99"),
        (100, "100"),
        (1234567890, "1234567890"),
        (u64::MAX, "18446744073709551615"),
    ] {
        let mut out = String::from("n=");
        append_decimal(&mut out, n);
        assert_eq!(out, format!("n={}", text));
    }
    for d in 0..10u64 {
        assert_eq!(digit_str(d), format!("{}", d));
    }
}

#[test]
fn joining_with_a_separator() {
    let parts = vec!["a".to_string(), "b".to_string(), "c".to_string()];
    let mut out = String::from("[");
    append_joined(&mut out, &parts, ", ");
    assert_eq!(out, "[a, b, c");
    let mut out = String::from("[");
    append_joined(&mut out, &Vec::new(), ", ");
    assert_eq!(out, "[");
    let mut out = String::new();
    append_joined(&mut out, &vec!["only".to_string()], ", ");
    assert_eq!(out, "only");
}

#[test]
fn splitting_at_a_separator() {
    let chars = chars_of("a,bc,,d");
    assert_eq!(split_bounds(&chars, ','), vec![(0, 1), (2, 4), (5, 5), (6, 7)]);
    let chars = chars_of("");
    assert_eq!(split_bounds(&chars, ','), vec![(0, 0)]);
    let chars = chars_of(",");
    assert_eq!(split_bounds(&chars, ','), vec![(0, 0), (1, 1)]);
    let chars = chars_of("no separator");
    assert_eq!(split_bounds(&chars, ','), vec![(0, 12)]);
}

#[test]
fn trimming_a_range() {
    let chars = chars_of("  ab c \t,  ");
    assert_eq!(trim_bounds(&chars, 0, 8), (2, 6));
    assert_eq!(trim_bounds(&chars, 9, 11), (11, 11));
    assert_eq!(trim_bounds(&chars, 2, 4), (2, 4));
    assert_eq!(trim_bounds(&chars, 3, 3), (3, 3));
}

#[test]
fn capitals_and_spaces() {
    assert_eq!(char_to_upper('a'), 'A');
    assert_eq!(char_to_upper('z'), 'Z');
    assert_eq!(char_to_upper('M'), 'M');
    assert_eq!(char_to_upper('_'), '_');
    assert_eq!(char_to_upper('é'), 'é');
    assert_eq!(char_to_upper('{'), '{');
    assert_eq!(char_to_upper('`'), '`');
    for c in [' ', '\t', '\n', '\r'] {
        assert!(char_is_space(c));
    }
    for c in ['a', '-', '\u{a0}', '\u{b}'] {
        assert!(!char_is_space(c));
    }
    let chars = chars_of("spark_Error");
    assert_eq!(upper_range(&chars, 0, 11), chars_of("SPARK_ERROR"));
    assert_eq!(upper_range(&chars, 6, 8), chars_of("ER"));
    assert!(spells(&upper_range(&chars, 0, 11), "SPARK_ERROR"));
    assert!(!spells(&chars, "SPARK_ERROR"));
    assert!(!spells(&chars, "spark"));
}

#[test]
fn characters_of_text() {
    assert_eq!(chars_of("aé€"), vec!['a', 'é', '€']);
    assert!(chars_of("").is_empty());
}
