use imgedit::text::{chars_of, is_whitespace, parse_i32, parse_values, split_words};

fn words_of(s: &str) -> Vec<String> {
    split_words(&chars_of(s)).into_iter().map(|w| w.into_iter().collect()).collect()
}

#[test]
fn whitespace_is_the_unicode_property() {
    for code in 0u32..=0x10ffff {
        if let Some(c) = char::from_u32(code) {
            assert_eq!(is_whitespace(c), c.is_whitespace(), "code point {:#x}", code);
        }
    }
}

#[test]
fn chars_of_keeps_every_character() {
    assert_eq!(chars_of(""), Vec::<char>::new());
    assert_eq!(chars_of("a\u{e9}\u{3000}z"), vec!['a', '\u{e9}', '\u{3000}', 'z']);
}

#[test]
fn split_words_cuts_at_any_white_space() {
    assert_eq!(words_of("10 20 30"), vec!["10", "20", "30"]);
    assert_eq!(words_of("  1\t2\n\n3  "), vec!["1", "2", "3"]);
    assert_eq!(words_of("a\u{a0}b\u{2003}c\u{3000}d"), vec!["a", "b", "c", "d"]);
    assert_eq!(words_of("single"), vec!["single"]);
    assert_eq!(words_of(""), Vec::<String>::new());
    assert_eq!(words_of(" \t\r\n"), Vec::<String>::new());
}

#[test]
fn split_words_agrees_with_split_whitespace() {
    let samples = [
        "",
        " ",
        "0 0 10 10",
        "\u{1680}x\u{2028}y\u{2029}z\u{202f}",
        "a  b   c",
        "\u{85}lead",
        "trail\u{205f}",
        "no-space",
        "x\u{200b}y z",
    ];
    for s in samples {
        let want: Vec<String> = s.split_whitespace().map(|w| w.to_string()).collect();
        assert_eq!(words_of(s), want, "{:?}", s);
    }
}

#[test]
fn parse_i32_reads_sign_and_digits() {
    assert_eq!(parse_i32("0"), Some(0));
    assert_eq!(parse_i32("90"), Some(90));
    assert_eq!(parse_i32("+5"), Some(5));
    assert_eq!(parse_i32("-5"), Some(-5));
    assert_eq!(parse_i32("-0"), Some(0));
    assert_eq!(parse_i32("007"), Some(7));
    assert_eq!(parse_i32("2147483647"), Some(i32::MAX));
    assert_eq!(parse_i32("-2147483648"), Some(i32::MIN));
    assert_eq!(parse_i32("00000000000000000000000000000000000012"), Some(12));
}

#[test]
fn parse_i32_refuses_anything_else() {
    for s in [
        "", "+", "-", " 5", "5 ", "2147483648", "-2147483649", "1_000", "5a", "a5", "--5", "+-5",
        "-+5", "5.0", "1e3", "0x10", "\u{663}", "99999999999999999999999999", "18446744073709551617",
        "-99999999999999999999999999",
    ] {
        assert_eq!(parse_i32(s), None, "{:?}", s);
    }
}

#[test]
fn parse_i32_agrees_with_std() {
    let samples = [
        "0", "1", "-1", "+1", "255", "256", "-255", "270", "180", "2147483647", "2147483648",
        "-2147483648", "-2147483649", "4294967295", "4294967296", "", "+", "-", "++1", "1 ", " 1",
        "1\n", "12a", "000", "-000", "+000123", "9223372036854775807", "9223372036854775808",
        "281474976710656", "281474976710657", "2814749767106560",
    ];
    for s in samples {
        assert_eq!(parse_i32(s), s.parse::<i32>().ok(), "{:?}", s);
    }
}

#[test]
fn parse_values_keeps_to_its_range() {
    assert_eq!(parse_values("255", 255), Some(vec![255]));
    assert_eq!(parse_values("256", 255), None);
    assert_eq!(parse_values("0", 0), Some(vec![0]));
    assert_eq!(parse_values("1", 0), None);
    assert_eq!(parse_values("-0", 255), None);
    assert_eq!(parse_values("4294967295", u32::MAX), Some(vec![u32::MAX]));
    assert_eq!(parse_values("4294967296", u32::MAX), None);
    assert_eq!(parse_values("281474976710656", u32::MAX), None);
    assert_eq!(parse_values("99999999999999999999999999999", u32::MAX), None);
    assert_eq!(parse_values("000000000000000000000000000042", u32::MAX), Some(vec![42]));
}

#[test]
fn parse_values_reads_every_word() {
    assert_eq!(parse_values("1 2 3", 255), Some(vec![1, 2, 3]));
    assert_eq!(parse_values("  +10\t020\n30 ", 255), Some(vec![10, 20, 30]));
    assert_eq!(parse_values("", 255), Some(vec![]));
    assert_eq!(parse_values("   ", 255), Some(vec![]));
    assert_eq!(parse_values("0 0 4294967295 7 9", u32::MAX), Some(vec![0, 0, 4294967295, 7, 9]));
}

#[test]
fn parse_values_fails_on_one_bad_word() {
    assert_eq!(parse_values("1 2 256", 255), None);
    assert_eq!(parse_values("1 -2 3", 255), None);
    assert_eq!(parse_values("1 2 3 x", 255), None);
    assert_eq!(parse_values("1,2,3", 255), None);
    assert_eq!(parse_values("0 0 4294967296 1", u32::MAX), None);
    assert_eq!(parse_values("1.5", u32::MAX), None);
}

#[test]
fn parse_values_agrees_with_std_for_bytes_and_words() {
    for s in ["0", "255", "256", "+255", "-1", "00255", "1000", "", "+", "12 ", "4294967295"] {
        let own = parse_values(s, 255);
        if s.split_whitespace().count() == 1 && s.split_whitespace().next() == Some(s) {
            assert_eq!(own.map(|v| v[0]), s.parse::<u8>().ok().map(u32::from), "{:?}", s);
            assert_eq!(parse_values(s, u32::MAX).map(|v| v[0]), s.parse::<u32>().ok(), "{:?}", s);
        }
    }
}
