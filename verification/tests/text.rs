use speed::text::{
    chars_of, decimal_string, decode_str, digit, read_i32, read_unsigned, split_lines, split_words,
    string_of, trim, white_space, without_prefix,
};

fn texts(list: Vec<Vec<char>>) -> Vec<String> {
    list.iter().map(string_of).collect()
}

#[test]
fn white_space_is_that_of_unicode() {
    for c in '\0'..=char::MAX {
        assert_eq!(white_space(c), c.is_whitespace(), "{:?}", c);
        assert_eq!(digit(c), c.is_ascii_digit(), "{:?}", c);
    }
}

#[test]
fn trim_takes_white_space_off_both_ends() {
    for s in ["", "  ", "a", " a ", "\t a b\u{3000}\n", "\u{a0}x\u{85}", "x\u{200b}"] {
        assert_eq!(string_of(&trim(&chars_of(s))), s.trim());
    }
}

#[test]
fn lines_end_in_newlines() {
    for s in [
        "", "\n", "a", "a\n", "a\nb", "a\r\nb\r\n", "a\r", "a\r\r\nb", "\r\n\r\n", "\n\na", "x\ry\nz",
    ] {
        let ours = texts(split_lines(&chars_of(s)));
        let theirs: Vec<String> = s.lines().map(|l| l.to_string()).collect();
        assert_eq!(ours, theirs, "{:?}", s);
    }
}

#[test]
fn words_are_split_at_white_space() {
    for s in ["", " ", "a", " a  b\tc ", "POST /esp_counter HTTP/1.1", "\u{2003}x\u{2003}"] {
        let ours = texts(split_words(&chars_of(s)));
        let theirs: Vec<String> = s.split_whitespace().map(|w| w.to_string()).collect();
        assert_eq!(ours, theirs, "{:?}", s);
    }
}

#[test]
fn prefixes_are_stripped() {
    let rest = without_prefix(&chars_of("Content-Length: 5"), &chars_of("Content-Length:"));
    assert_eq!(rest.map(|r| string_of(&r)), Some(" 5".to_string()));
    assert!(without_prefix(&chars_of("Content"), &chars_of("Content-Length:")).is_none());
    assert!(without_prefix(&chars_of("content-length: 5"), &chars_of("Content-Length:")).is_none());
}

#[test]
fn signed_numbers_are_read() {
    for s in [
        "", "+", "-", "0", "-0", "+7", "007", "2147483647", "2147483648", "-2147483648",
        "-2147483649", "99999999999999999999999", "1 ", " 1", "1_000", "0x1", "--1", "+-1", "\u{661}",
    ] {
        assert_eq!(read_i32(&chars_of(s)), s.parse::<i32>().ok(), "{:?}", s);
    }
}

#[test]
fn unsigned_numbers_are_read() {
    for s in ["", "+", "-1", "-0", "+3", "18446744073709551615", "18446744073709551616", "12a"] {
        assert_eq!(read_unsigned(&chars_of(s), u64::MAX), s.parse::<u64>().ok(), "{:?}", s);
    }
    assert_eq!(read_unsigned(&chars_of("65536"), 65535), None);
    assert_eq!(read_unsigned(&chars_of("65535"), 65535), Some(65535));
}

#[test]
fn numbers_are_written_and_read_back() {
    for v in [0, 7, 10, 99, 100, -1, -10, 2147483647, -2147483648] {
        assert_eq!(decimal_string(v), v.to_string());
        assert_eq!(read_i32(&chars_of(&decimal_string(v))), Some(v as i32));
    }
    assert_eq!(decimal_string(i64::MIN), "-9223372036854775808");
    assert_eq!(decimal_string(i64::MAX), "9223372036854775807");
}

#[test]
fn utf8_is_decoded() {
    assert_eq!(decode_str("gr\u{fc}n".as_bytes()), Some("gr\u{fc}n"));
    assert_eq!(decode_str(&[0x67, 0xff]), None);
    assert_eq!(decode_str(&[0xc0, 0x80]), None);
}
