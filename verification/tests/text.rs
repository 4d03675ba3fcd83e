use cli_agent::number::{decimal_text, parse_i32, signed_decimal_text};
use cli_agent::text::{
    chars_of, ends_in, eq_ignore_ascii_case, find_in, lines_of, occurs_at, position_of, to_ascii_lower, trimmed,
    white_space,
};

#[test]
fn white_space_is_the_unicode_property() {
    for u in 0..=0x10ffffu32 {
        if let Some(c) = char::from_u32(u) {
            assert_eq!(white_space(c), c.is_whitespace(), "{u:x}");
        }
    }
}

#[test]
fn trimming_matches_std() {
    for s in [
        "",
        " ",
        "\t\n ",
        "a",
        " a b ",
        "\u{3000}слово\u{a0}",
        "x\u{2028}",
        "\u{200b}z\u{200b}",
    ] {
        assert_eq!(trimmed(s), s.trim());
    }
}

#[test]
fn trimming_twice_changes_nothing_more() {
    let once = trimmed(" \u{2003} a b\r\n");
    assert_eq!(once, "a b");
    assert_eq!(trimmed(once), once);
}

#[test]
fn lines_match_std() {
    for s in [
        "",
        "\n",
        "a",
        "a\n",
        "a\r\nb",
        "a\rb\n",
        "\n\nx\r\n\r\n",
        "end\r",
        "\r\n",
        "строка\nещё\r\n",
    ] {
        let expected: Vec<String> = s.lines().map(String::from).collect();
        assert_eq!(lines_of(s), expected, "{s:?}");
    }
}

#[test]
fn lines_of_joined_text_follow_each_other() {
    let a = "one\ntwo\r\n";
    let b = "three\nfour";
    let mut expected = lines_of(a);
    expected.extend(lines_of(b));
    assert_eq!(lines_of(&format!("{a}{b}")), expected);
}

#[test]
fn searching() {
    let chars = chars_of("абракадабра");
    assert_eq!(find_in(&chars, &chars_of("бра")), Some(1));
    assert_eq!(find_in(&chars, &chars_of("дабра")), Some(6));
    assert_eq!(find_in(&chars, &chars_of("")), Some(0));
    assert_eq!(find_in(&chars, &chars_of("бру")), None);
    assert_eq!(find_in(&chars_of(""), &chars_of("x")), None);
    assert_eq!(position_of(&chars, 2, 'а'), 3);
    assert_eq!(position_of(&chars, 0, 'z'), 11);
    assert!(occurs_at(&chars, 8, &chars_of("бра")));
    assert!(!occurs_at(&chars, 9, &chars_of("бра")));
    assert!(ends_in(&chars, &chars_of("абра")));
    assert!(!ends_in(&chars_of("ра"), &chars_of("бра")));
}

#[test]
fn ascii_case_is_ignored_and_no_other() {
    assert!(eq_ignore_ascii_case("ExIt", "eXiT"));
    assert!(!eq_ignore_ascii_case("exit", "exit "));
    assert!(!eq_ignore_ascii_case("ДА", "да"));
    assert!(eq_ignore_ascii_case("ДА", "ДА"));
    for u in 0..0x3000u32 {
        if let Some(c) = char::from_u32(u) {
            assert_eq!(to_ascii_lower(c), c.to_ascii_lowercase());
        }
    }
}

#[test]
fn decimals() {
    for n in [0u64, 9, 10, 99, 100, 8080, 1_000_000, u64::MAX] {
        assert_eq!(decimal_text(n), n.to_string());
    }
    for n in [0i32, 7, -7, 1234, i32::MAX, i32::MIN] {
        assert_eq!(signed_decimal_text(n), n.to_string());
    }
}

#[test]
fn integers_are_read_as_std_reads_them() {
    for s in [
        "",
        "+",
        "-",
        "0",
        "-0",
        "+5",
        "-5",
        "007",
        "2147483647",
        "2147483648",
        "-2147483648",
        "-2147483649",
        "00000000000000000000001",
        "99999999999999999999999999",
        "1 2",
        " 1",
        "12\r",
        "1a",
        "--1",
        "٣",
    ] {
        assert_eq!(parse_i32(s), s.parse::<i32>().ok(), "{s:?}");
    }
}

#[test]
fn written_integers_are_read_back() {
    for n in [0i32, 1, -1, 4321, i32::MAX, i32::MIN] {
        assert_eq!(parse_i32(&signed_decimal_text(n)), Some(n));
    }
}
