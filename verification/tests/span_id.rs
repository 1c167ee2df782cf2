use tracing_honeycomb::{IntErrorKind, ParseSpanIdError, SpanId};

fn id(local: u64, instance: u64) -> SpanId {
    SpanId::new(local, instance).expect("the local number is not zero")
}

#[test]
fn span_id_round_trip() {
    let locals = [1u64, 2, 9, 10, 15, 16, 255, 256, 4096, 0xdead_beef, u64::MAX - 1, u64::MAX];
    let instances = [0u64, 1, 10, 16, 0xabcdef, u64::MAX];
    for ua in locals {
        for ub in instances {
            let span_id = id(ua, ub);
            let s = span_id.to_string();
            assert_eq!(s, format!("{:x}-{:x}", ua, ub));
            let res = SpanId::from_str(&s);
            assert_eq!(Ok(span_id), res);
        }
    }
}

#[test]
fn span_id_text_is_lowercase_hex_with_a_dash() {
    assert_eq!(id(255, 16).to_string(), "ff-10");
    assert_eq!(id(1, 0).to_string(), "1-0");
    assert_eq!(id(0xdead_beef, 0xABCDEF).to_string(), "deadbeef-abcdef");
    assert_eq!(id(u64::MAX, u64::MAX).to_string(), "ffffffffffffffff-ffffffffffffffff");
}

#[test]
fn span_id_getters_give_the_two_numbers() {
    let span_id = id(7, 9);
    assert_eq!(span_id.tracing_id(), 7);
    assert_eq!(span_id.instance_id(), 9);
}

#[test]
fn span_id_new_refuses_zero() {
    assert_eq!(SpanId::new(0, 5), None);
    assert!(SpanId::new(5, 0).is_some());
}

#[test]
fn span_id_meta_field_name() {
    assert_eq!(SpanId::meta_field_name(), "span-id");
}

#[test]
fn parse_rejects_zero_local_id() {
    assert_eq!(SpanId::from_str("0-1"), Err(ParseSpanIdError::TryFromIntError));
    assert_eq!(SpanId::from_str("000-1"), Err(ParseSpanIdError::TryFromIntError));
}

#[test]
fn parse_rejects_malformed_hex() {
    assert_eq!(
        SpanId::from_str("zz-1"),
        Err(ParseSpanIdError::ParseIntError(IntErrorKind::InvalidDigit))
    );
    assert_eq!(
        SpanId::from_str("1-g"),
        Err(ParseSpanIdError::ParseIntError(IntErrorKind::InvalidDigit))
    );
    assert_eq!(
        SpanId::from_str("1 -2"),
        Err(ParseSpanIdError::ParseIntError(IntErrorKind::InvalidDigit))
    );
    assert_eq!(
        SpanId::from_str("\u{e9}-2"),
        Err(ParseSpanIdError::ParseIntError(IntErrorKind::InvalidDigit))
    );
}

#[test]
fn parse_rejects_missing_separator() {
    assert_eq!(SpanId::from_str("1"), Err(ParseSpanIdError::FormatError));
    assert_eq!(SpanId::from_str("deadbeef"), Err(ParseSpanIdError::FormatError));
}

#[test]
fn parse_reads_the_first_numeral_before_it_looks_for_the_separator() {
    assert_eq!(
        SpanId::from_str("zz"),
        Err(ParseSpanIdError::ParseIntError(IntErrorKind::InvalidDigit))
    );
    assert_eq!(SpanId::from_str(""), Err(ParseSpanIdError::ParseIntError(IntErrorKind::Empty)));
}

#[test]
fn parse_reports_malformed_instance_before_zero_local_id() {
    assert_eq!(
        SpanId::from_str("0-zz"),
        Err(ParseSpanIdError::ParseIntError(IntErrorKind::InvalidDigit))
    );
}

#[test]
fn parse_rejects_empty_numerals() {
    assert_eq!(SpanId::from_str("-1"), Err(ParseSpanIdError::ParseIntError(IntErrorKind::Empty)));
    assert_eq!(SpanId::from_str("1-"), Err(ParseSpanIdError::ParseIntError(IntErrorKind::Empty)));
    assert_eq!(SpanId::from_str("-"), Err(ParseSpanIdError::ParseIntError(IntErrorKind::Empty)));
}

#[test]
fn parse_rejects_lone_sign() {
    assert_eq!(
        SpanId::from_str("+-1"),
        Err(ParseSpanIdError::ParseIntError(IntErrorKind::InvalidDigit))
    );
    assert_eq!(
        SpanId::from_str("1-+"),
        Err(ParseSpanIdError::ParseIntError(IntErrorKind::InvalidDigit))
    );
}

#[test]
fn parse_rejects_numbers_beyond_64_bits() {
    assert_eq!(
        SpanId::from_str("10000000000000000-1"),
        Err(ParseSpanIdError::ParseIntError(IntErrorKind::PosOverflow))
    );
    assert_eq!(
        SpanId::from_str("1-fffffffffffffffff"),
        Err(ParseSpanIdError::ParseIntError(IntErrorKind::PosOverflow))
    );
    assert_eq!(
        SpanId::from_str("ffffffffffffffffz-1"),
        Err(ParseSpanIdError::ParseIntError(IntErrorKind::InvalidDigit))
    );
    assert_eq!(
        SpanId::from_str("fffffffffffffffffz-1"),
        Err(ParseSpanIdError::ParseIntError(IntErrorKind::PosOverflow))
    );
}

#[test]
fn parse_accepts_sign_upper_case_and_leading_zeros() {
    assert_eq!(SpanId::from_str("+1f-A"), Ok(id(0x1f, 10)));
    assert_eq!(SpanId::from_str("DEADBEEF-AbCdEf"), Ok(id(0xdead_beef, 0xabcdef)));
    assert_eq!(SpanId::from_str("0000000000000000000001-0000000000000000000a"), Ok(id(1, 10)));
    assert_eq!(
        SpanId::from_str("ffffffffffffffff-ffffffffffffffff"),
        Ok(id(u64::MAX, u64::MAX))
    );
}

#[test]
fn parse_does_not_look_past_the_second_numeral() {
    assert_eq!(SpanId::from_str("1-2-3"), Ok(id(1, 2)));
    assert_eq!(SpanId::from_str("1-2-"), Ok(id(1, 2)));
    assert_eq!(SpanId::from_str("a-b-zz-!"), Ok(id(10, 11)));
}

#[test]
fn parse_agrees_with_the_standard_library_on_each_numeral() {
    let texts = ["0", "1", "+1", "ff", "FF", "+", "", " 1", "1 ", "0x1", "g", "ffffffffffffffff",
        "10000000000000000", "00000000000000000ff", "+ffffffffffffffff", "++1", "1_0"];
    for first in texts {
        for second in texts {
            let text = format!("{}-{}", first, second);
            let expected = match (u64::from_str_radix(first, 16), u64::from_str_radix(second, 16)) {
                (Err(_), _) => None,
                (Ok(_), Err(_)) => None,
                (Ok(0), Ok(_)) => None,
                (Ok(a), Ok(b)) => Some(id(a, b)),
            };
            assert_eq!(SpanId::from_str(&text).ok(), expected, "on {:?}", text);
        }
    }
}

#[test]
fn parse_error_messages() {
    assert_eq!(
        ParseSpanIdError::ParseIntError(IntErrorKind::Empty).to_string(),
        "cannot parse integer from empty string"
    );
    assert_eq!(
        ParseSpanIdError::ParseIntError(IntErrorKind::InvalidDigit).to_string(),
        "invalid digit found in string"
    );
    assert_eq!(
        ParseSpanIdError::ParseIntError(IntErrorKind::PosOverflow).to_string(),
        "number too large to fit in target type"
    );
    assert_eq!(
        ParseSpanIdError::TryFromIntError.to_string(),
        "out of range integral type conversion attempted"
    );
    assert_eq!(ParseSpanIdError::FormatError.to_string(), "FormatError");
}

#[test]
fn span_id_parses_through_from_str_trait() {
    assert_eq!("1f-2".parse::<SpanId>(), Ok(id(0x1f, 2)));
    assert_eq!("1f".parse::<SpanId>(), Err(ParseSpanIdError::FormatError));
    assert_eq!("0-0".parse::<SpanId>(), Err(ParseSpanIdError::TryFromIntError));
}

#[test]
fn parse_error_from_the_kind_of_a_malformed_numeral() {
    assert_eq!(
        ParseSpanIdError::from(IntErrorKind::Empty),
        ParseSpanIdError::ParseIntError(IntErrorKind::Empty)
    );
    assert_eq!(
        ParseSpanIdError::from(IntErrorKind::PosOverflow),
        ParseSpanIdError::ParseIntError(IntErrorKind::PosOverflow)
    );
}
