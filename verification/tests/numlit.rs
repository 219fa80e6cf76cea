use belt_machine::numlit::{parse_int, IntParsingError};

#[test]
fn test_width4_unsigned_accepts_and_rejects() {
    assert_eq!(parse_int("15", 4, false), Ok(15));
    assert_eq!(parse_int("0xF", 4, false), Ok(15));
    assert_eq!(parse_int("0b1111", 4, false), Ok(15));
    assert_eq!(
        parse_int("16", 4, false),
        Err(IntParsingError::OutOfRangeError { min: 0, max: 15 })
    );
    assert_eq!(parse_int("0", 4, false), Ok(0));
}

#[test]
fn test_width8_signed_bounds() {
    assert_eq!(parse_int("-128", 8, true), Ok(-128));
    assert_eq!(parse_int("127", 8, true), Ok(127));
    assert_eq!(
        parse_int("128", 8, true),
        Err(IntParsingError::OutOfRangeError { min: -128, max: 127 })
    );
    assert_eq!(
        parse_int("-129", 8, true),
        Err(IntParsingError::OutOfRangeError { min: -128, max: 127 })
    );
}

#[test]
fn test_zero_is_always_valid() {
    assert_eq!(parse_int("0", 1, false), Ok(0));
    assert_eq!(parse_int("0", 1, true), Ok(0));
    assert_eq!(parse_int("-0", 1, true), Ok(0));
    assert_eq!(parse_int("0x0", 32, false), Ok(0));
}

#[test]
fn test_base_prefixes() {
    assert_eq!(parse_int("0x10", 16, false), Ok(16));
    assert_eq!(parse_int("0X10", 16, false), Ok(16));
    assert_eq!(parse_int("0b10", 16, false), Ok(2));
    assert_eq!(parse_int("0B10", 16, false), Ok(2));
    assert_eq!(parse_int("0o10", 16, false), Ok(8));
    assert_eq!(parse_int("0O10", 16, false), Ok(8));
    assert_eq!(parse_int("0xDEF0", 16, false), Ok(0xDEF0));
}

#[test]
fn test_underscore_separators() {
    assert_eq!(parse_int("1_000", 16, false), Ok(1000));
    assert_eq!(parse_int("0x_FF", 8, false), Ok(255));
    assert_eq!(parse_int("1_", 8, false), Ok(1));
    // A leading underscore is not a separator.
    assert_eq!(parse_int("_1", 8, false), Err(IntParsingError::FromStrRadixError));
}

#[test]
fn test_negative_unsigned_rejected() {
    assert_eq!(parse_int("-1", 16, false), Err(IntParsingError::NegativeUnsignedError));
    assert_eq!(parse_int("-0", 16, false), Err(IntParsingError::NegativeUnsignedError));
}

#[test]
fn test_malformed_literals() {
    assert_eq!(parse_int("", 16, false), Err(IntParsingError::FromStrRadixError));
    assert_eq!(parse_int("-", 16, true), Err(IntParsingError::FromStrRadixError));
    assert_eq!(parse_int("abc", 16, false), Err(IntParsingError::FromStrRadixError));
    assert_eq!(parse_int("0x", 16, false), Err(IntParsingError::FromStrRadixError));
    assert_eq!(parse_int("0b2", 16, false), Err(IntParsingError::FromStrRadixError));
    assert_eq!(parse_int("0o8", 16, false), Err(IntParsingError::FromStrRadixError));
    assert_eq!(parse_int("12a", 16, false), Err(IntParsingError::FromStrRadixError));
    assert_eq!(parse_int("1 2", 16, false), Err(IntParsingError::FromStrRadixError));
}

#[test]
fn test_width16_and_width32_limits() {
    assert_eq!(parse_int("65535", 16, false), Ok(65535));
    assert_eq!(
        parse_int("65536", 16, false),
        Err(IntParsingError::OutOfRangeError { min: 0, max: 65535 })
    );
    assert_eq!(parse_int("-32768", 16, true), Ok(-32768));
    assert_eq!(parse_int("32767", 16, true), Ok(32767));
    assert_eq!(parse_int("4294967295", 32, false), Ok(4294967295));
    assert_eq!(
        parse_int("4294967296", 32, false),
        Err(IntParsingError::OutOfRangeError { min: 0, max: 4294967295 })
    );
}

#[test]
fn test_enormous_literal_is_out_of_range_not_overflow() {
    assert_eq!(
        parse_int("999999999999999999999999999999", 32, false),
        Err(IntParsingError::OutOfRangeError { min: 0, max: 4294967295 })
    );
    assert_eq!(
        parse_int("0xFFFFFFFFFFFFFFFFFFFFFFFF", 16, false),
        Err(IntParsingError::OutOfRangeError { min: 0, max: 65535 })
    );
    // Malformedness still wins over magnitude.
    assert_eq!(
        parse_int("999999999999999999999999999999x", 32, false),
        Err(IntParsingError::FromStrRadixError)
    );
}
