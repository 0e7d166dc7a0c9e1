//! Fields, hex, numbers and the searching of text.

use icesickle::decimal::{decimal, padded};
use icesickle::text::{chars_of, find, white_space};
use icesickle::{field, unhex, Error};

#[test]
fn field_takes_the_first_line_with_the_label() {
    assert_eq!(field("x: 1\nx: 2\n", "x:"), Some("1"));
    assert_eq!(field("y: 0\n  INFO x:  1 2 \r\nx: 2", "x:"), Some("1 2"));
    assert_eq!(field("ax: x: 3", "x:"), Some("x: 3"));
    assert_eq!(field("", "x:"), None);
    assert_eq!(field("x 1\n", "x:"), None);
}

#[test]
fn an_empty_value_is_no_value() {
    assert_eq!(field("x:\nx: 2\n", "x:"), None);
    assert_eq!(field("x: \t \r\nx: 2\n", "x:"), None);
}

#[test]
fn fields_may_hold_any_characters() {
    let log = "\u{e9}\u{2028}x:\u{3000}\u{1f600} \u{e9}\u{a0}\nz";
    assert_eq!(field(log, "x:"), Some("\u{1f600} \u{e9}"));
    assert_eq!(field("a\rx: b\r", "x:"), Some("b"));
}

/// What `field` is, in terms of the standard library.
fn expected<'a>(log: &'a str, label: &str) -> Option<&'a str> {
    log.lines()
        .find_map(|line| line.split_once(label).map(|(_, rest)| rest.trim()))
        .filter(|v| !v.is_empty())
}

#[test]
fn field_agrees_with_the_standard_library() {
    let logs = [
        "", "\n", "\r\n", "\r", "a", "a:b", "a:b\n", "a:b\r\n", "a:b\r", "\n\na: b \n", "a:\na:b",
        "b\r\r\na:\r\r\n", "x\ra:1\r\n", "a:a:a:", "\u{e9}a:\u{85}q\u{85}", "aa:aa:\n\r\na:7",
    ];
    for log in logs {
        for label in ["a:", ":", "", "a", "\r", "\n", "q", "aa:"] {
            assert_eq!(field(log, label), expected(log, label), "{log:?} {label:?}");
        }
    }
}

#[test]
fn white_space_agrees_with_the_standard_library() {
    for c in '\0'..=char::MAX {
        assert_eq!(white_space(c), c.is_whitespace(), "{:?}", c);
    }
}

#[test]
fn find_is_leftmost() {
    let text = chars_of("abcabd");
    assert_eq!(find(&text, &chars_of("abd")), Some(3));
    assert_eq!(find(&text, &chars_of("ab")), Some(0));
    assert_eq!(find(&text, &chars_of("")), Some(0));
    assert_eq!(find(&text, &chars_of("abcabda")), None);
    assert_eq!(find(&text, &chars_of("x")), None);
}

#[test]
fn hex_decodes_pairs() {
    assert_eq!(unhex("", "f"), Ok(vec![]));
    assert_eq!(unhex("00fF7a", "f"), Ok(vec![0, 255, 0x7a]));
    assert_eq!(unhex("abCD", "f"), unhex("ABcd", "f"));
    assert_eq!(unhex("0", "f"), Err(Error::BadHex("f")));
    assert_eq!(unhex("0x", "f"), Err(Error::BadHex("f")));
    assert_eq!(unhex(" 1", "f"), Err(Error::BadHex("f")));
    assert_eq!(unhex("+f", "payload"), Err(Error::BadHex("payload")));
    assert_eq!(unhex("00-1", "f"), Err(Error::BadHex("f")));
}

#[test]
fn hex_pairs_are_two_hex_digits() {
    for a in 0u8..128 {
        for b in 0u8..128 {
            let text = format!("{}{}", a as char, b as char);
            let wanted = match ((a as char).to_digit(16), (b as char).to_digit(16)) {
                (Some(high), Some(low)) => Ok(vec![(16 * high + low) as u8]),
                _ => Err(Error::BadHex("f")),
            };
            assert_eq!(unhex(&text, "f"), wanted, "{text:?}");
        }
    }
}

#[test]
fn hex_refuses_other_alphabets() {
    assert_eq!(unhex("\u{e9}", "f"), Err(Error::BadHex("f")));
    assert_eq!(unhex("a\u{e9}b", "f"), Err(Error::BadHex("f")));
    assert_eq!(unhex("00\u{ff11}1", "f"), Err(Error::BadHex("f")));
}

#[test]
fn every_byte_survives_hex() {
    let bytes: Vec<u8> = (0..=255).collect();
    let text: String = bytes.iter().map(|b| format!("{b:02x}")).collect();
    assert_eq!(unhex(&text, "f"), Ok(bytes));
}

#[test]
fn numbers_are_printed_in_decimal() {
    for n in [0, 1, 9, 10, 99, 100, 1787839509000, u64::MAX] {
        assert_eq!(decimal(n), n.to_string());
        assert_eq!(padded(n, 0), format!("{n}"));
        assert_eq!(padded(n, 2), format!("{n:02}"));
        assert_eq!(padded(n, 4), format!("{n:04}"));
        assert_eq!(padded(n, 30), format!("{n:030}"));
    }
}
