use std::num::IntErrorKind;

use kmbox_isp::parse::{parse_command_byte, ByteParseError};

fn std_parse(text: &str) -> Result<u8, ByteParseError> {
    let r = if text.starts_with("0x") || text.starts_with("0X") {
        u8::from_str_radix(&text[2..], 16)
    } else {
        text.parse::<u8>()
    };
    r.map_err(|e| match e.kind() {
        IntErrorKind::Empty => ByteParseError::Empty,
        IntErrorKind::InvalidDigit => ByteParseError::InvalidDigit,
        IntErrorKind::PosOverflow => ByteParseError::PosOverflow,
        other => panic!("unexpected error kind {other:?}"),
    })
}

#[test]
fn hex_and_decimal_forms() {
    assert_eq!(parse_command_byte("0x80"), Ok(0x80));
    assert_eq!(parse_command_byte("0x8f"), Ok(0x8F));
    assert_eq!(parse_command_byte("0X8F"), Ok(0x8F));
    assert_eq!(parse_command_byte("0xff"), Ok(255));
    assert_eq!(parse_command_byte("128"), Ok(128));
    assert_eq!(parse_command_byte("0"), Ok(0));
    assert_eq!(parse_command_byte("007"), Ok(7));
    assert_eq!(parse_command_byte("+12"), Ok(12));
    assert_eq!(parse_command_byte("0x+1f"), Ok(0x1F));
}

#[test]
fn parse_errors() {
    assert_eq!(parse_command_byte(""), Err(ByteParseError::Empty));
    assert_eq!(parse_command_byte("0x"), Err(ByteParseError::Empty));
    assert_eq!(parse_command_byte("+"), Err(ByteParseError::InvalidDigit));
    assert_eq!(parse_command_byte("-"), Err(ByteParseError::InvalidDigit));
    assert_eq!(parse_command_byte("-1"), Err(ByteParseError::InvalidDigit));
    assert_eq!(parse_command_byte("0xg0"), Err(ByteParseError::InvalidDigit));
    assert_eq!(parse_command_byte("8f"), Err(ByteParseError::InvalidDigit));
    assert_eq!(parse_command_byte(" 1"), Err(ByteParseError::InvalidDigit));
    assert_eq!(parse_command_byte("256"), Err(ByteParseError::PosOverflow));
    assert_eq!(parse_command_byte("0x100"), Err(ByteParseError::PosOverflow));
    assert_eq!(parse_command_byte("999x"), Err(ByteParseError::PosOverflow));
    assert_eq!(parse_command_byte("99x9"), Err(ByteParseError::InvalidDigit));
    assert_eq!(parse_command_byte("é"), Err(ByteParseError::InvalidDigit));
}

#[test]
fn every_byte_round_trips() {
    for b in 0u8..=255 {
        assert_eq!(parse_command_byte(&format!("0x{b:02x}")), Ok(b));
        assert_eq!(parse_command_byte(&format!("0X{b:X}")), Ok(b));
        assert_eq!(parse_command_byte(&b.to_string()), Ok(b));
    }
}

#[test]
fn agrees_with_std_parsing() {
    let alphabet = ['0', '1', '2', '5', '9', 'a', 'f', 'F', 'g', 'x', 'X', '+', '-', ' ', 'é'];
    let mut texts: Vec<String> = vec![String::new()];
    for _ in 0..4 {
        let mut next = Vec::new();
        for t in &texts {
            for c in alphabet {
                let mut s = t.clone();
                s.push(c);
                next.push(s);
            }
        }
        texts.extend(next.into_iter().filter(|s| s.chars().count() <= 4));
        texts.sort();
        texts.dedup();
    }
    for t in &texts {
        assert_eq!(parse_command_byte(t), std_parse(t), "text {t:?}");
        let hex = format!("0x{t}");
        assert_eq!(parse_command_byte(&hex), std_parse(&hex), "text {hex:?}");
    }
}

#[test]
fn error_messages_match_std() {
    assert_eq!(ByteParseError::Empty.message(), "".parse::<u8>().unwrap_err().to_string());
    assert_eq!(ByteParseError::InvalidDigit.message(), "z".parse::<u8>().unwrap_err().to_string());
    assert_eq!(ByteParseError::PosOverflow.message(), "300".parse::<u8>().unwrap_err().to_string());
}
