use libwau::number::{
    decimal_chars, digit_of, is_decimal_digit, parse_digits, parse_i32, parse_usize,
};
use libwau::text::{
    chars_of, copy_of, extend_from, extend_with, is_whitespace, position, position_of_pair,
    spells, string_from, string_of, trim_bounds,
};
use libwau::toc::Toc;

fn chars(s: &str) -> Vec<char> {
    s.chars().collect()
}

#[test]
fn white_space_is_what_the_standard_library_calls_so() {
    for code in 0..=0x10FFFFu32 {
        if let Some(c) = char::from_u32(code) {
            assert_eq!(is_whitespace(c), c.is_whitespace(), "U+{:04X}", code);
        }
    }
}

#[test]
fn decimal_digits_are_zero_to_nine() {
    for code in 0..=0x10FFFFu32 {
        if let Some(c) = char::from_u32(code) {
            assert_eq!(is_decimal_digit(c), c.is_ascii_digit(), "U+{:04X}", code);
        }
    }
    let digits: String = (0..10).map(digit_of).collect();
    assert_eq!(digits, "0123456789");
}

#[test]
fn characters_and_strings() {
    assert_eq!(chars_of("héllo"), vec!['h', 'é', 'l', 'l', 'o']);
    assert_eq!(chars_of(""), Vec::<char>::new());
    let v = chars("héllo wörld");
    assert_eq!(string_from(&v), "héllo wörld");
    assert_eq!(string_of(&v, 1, 5), "éllo");
    assert_eq!(string_of(&v, 3, 3), "");
    assert_eq!(copy_of(&v, 6, 11), chars("wörld"));
    let mut out = chars("ab");
    extend_from(&mut out, &v, 0, 2);
    extend_with(&mut out, "çd");
    assert_eq!(out, chars("abhéçd"));
}

#[test]
fn spelling() {
    let v = chars("x-Title-y");
    assert!(spells(&v, 2, 7, "Title"));
    assert!(!spells(&v, 2, 7, "Titles"));
    assert!(!spells(&v, 2, 7, "Titl"));
    assert!(!spells(&v, 2, 7, "title"));
    assert!(spells(&v, 4, 4, ""));
    assert!(!spells(&v, 4, 5, ""));
}

#[test]
fn positions() {
    let v = chars("a:b:c|r|c");
    assert_eq!(position(&v, 0, v.len(), ':'), 1);
    assert_eq!(position(&v, 2, v.len(), ':'), 3);
    assert_eq!(position(&v, 4, v.len(), ':'), v.len());
    assert_eq!(position(&v, 0, 1, ':'), 1);
    assert_eq!(position_of_pair(&v, 0, v.len(), '|', 'c'), 7);
    assert_eq!(position_of_pair(&v, 0, v.len(), '|', 'r'), 5);
    assert_eq!(position_of_pair(&v, 0, 8, '|', 'c'), 8);
    assert_eq!(position_of_pair(&v, 0, v.len(), '|', 'x'), v.len());
    assert_eq!(position_of_pair(&v, 3, 3, '|', 'c'), 3);
}

#[test]
fn trimming_agrees_with_the_standard_library() {
    let texts =
        ["", " ", "a", "  a b  ", "\t\r\n x \u{a0}", "\u{3000}", "x\u{2028}", " \u{200b} "];
    for text in texts {
        let v = chars(text);
        let (a, b) = trim_bounds(&v, 0, v.len());
        assert_eq!(string_of(&v, a, b), text.trim(), "{:?}", text);
    }
    let v = chars("ab  cd  ef");
    assert_eq!(trim_bounds(&v, 2, 8), (4, 6));
    assert_eq!(trim_bounds(&v, 2, 4), (4, 4));
}

#[test]
fn signed_numbers_agree_with_the_standard_library() {
    let texts = [
        "", "0", "-0", "+0", "7", "-7", "+7", "007", "-007", "12a", "a12", " 1", "1 ", "+", "-",
        "+-1", "-+1", "--1", "++1", "1-", "1+1", "2147483647", "2147483648", "-2147483648",
        "-2147483649", "99999999999999999999", "-99999999999999999999", "0000000000000000000001",
        "١٢٣", "1_000", "0x10", "1e3", "1.0",
    ];
    for text in texts {
        let v = chars(text);
        assert_eq!(parse_i32(&v, 0, v.len()), text.parse::<i32>().ok(), "{:?}", text);
    }
}

#[test]
fn unsigned_numbers_agree_with_the_standard_library() {
    let max = usize::MAX.to_string();
    let above = format!("{}0", usize::MAX);
    let next = format!("{}", usize::MAX as u128 + 1);
    let texts = [
        "", "0", "-0", "+0", "7", "-7", "+7", "007", "12a", " 1", "+", "-", "++1", "+-1",
        "4294967295", "4294967296", "18446744073709551615", "18446744073709551616",
        max.as_str(), above.as_str(), next.as_str(), "000000000000000000000000000000000000042",
    ];
    for text in texts {
        let v = chars(text);
        assert_eq!(parse_usize(&v, 0, v.len()), text.parse::<usize>().ok(), "{:?}", text);
    }
}

#[test]
fn digits_within_a_limit() {
    let v = chars("x255y");
    assert_eq!(parse_digits(&v, 1, 4, 255), Some(255));
    assert_eq!(parse_digits(&v, 1, 4, 254), None);
    assert_eq!(parse_digits(&v, 1, 1, 255), None);
    assert_eq!(parse_digits(&v, 0, 4, 255), None);
    assert_eq!(parse_digits(&chars("18446744073709551615"), 0, 20, u64::MAX), Some(u64::MAX));
    assert_eq!(parse_digits(&chars("18446744073709551616"), 0, 20, u64::MAX), None);
    assert_eq!(parse_digits(&chars("000"), 0, 3, 0), Some(0));
}

#[test]
fn numbers_are_written_in_base_ten() {
    for n in [0usize, 1, 9, 10, 11, 99, 100, 101, 517, 67408, 1000000, usize::MAX] {
        assert_eq!(string_from(&decimal_chars(n)), n.to_string());
    }
}

#[test]
fn file_lines_agree_with_the_standard_library() {
    let texts = [
        "", "a", "a\n", "a\nb", "a\r\nb\r\n", "a\n\nb", "\n", "\r\n", "a\r", "a\rb\nc", "\n\na",
        "a\n\r\n\rb\r", "x\r\r\ny",
    ];
    for text in texts {
        let expected: Vec<&str> = text.lines().filter(|line| !line.is_empty()).collect();
        let toc = Toc::from_str(text).expect("a text without properties is read");
        let files: Vec<&str> = toc.files.iter().map(|f| f.as_str()).collect();
        assert_eq!(files, expected, "{:?}", text);
    }
}
