use barista::text::{count_lines, parse_u32, u64_to_decimal, u64_to_decimal_pad2};

#[test]
fn parse_u32_accepts_decimals() {
    assert_eq!(Some(0), parse_u32("0"));
    assert_eq!(Some(12345), parse_u32("12345"));
    assert_eq!(Some(7), parse_u32("+7"));
    assert_eq!(Some(u32::MAX), parse_u32("4294967295"));
    assert_eq!(Some(5), parse_u32("0005"));
}

#[test]
fn parse_u32_rejects_everything_else() {
    assert_eq!(None, parse_u32(""));
    assert_eq!(None, parse_u32("+"));
    assert_eq!(None, parse_u32("-1"));
    assert_eq!(None, parse_u32("12a"));
    assert_eq!(None, parse_u32(" 12"));
    assert_eq!(None, parse_u32("4294967296"));
    assert_eq!(None, parse_u32("99999999999999999999"));
}

#[test]
fn decimal_rendering() {
    assert_eq!("0", u64_to_decimal(0));
    assert_eq!("9", u64_to_decimal(9));
    assert_eq!("1234", u64_to_decimal(1234));
    assert_eq!("18446744073709551615", u64_to_decimal(u64::MAX));
    assert_eq!("00", u64_to_decimal_pad2(0));
    assert_eq!("05", u64_to_decimal_pad2(5));
    assert_eq!("10", u64_to_decimal_pad2(10));
    assert_eq!("123", u64_to_decimal_pad2(123));
}

// Lines are counted by their terminating newline.
#[test]
fn line_counting() {
    assert_eq!(0, count_lines(""));
    assert_eq!(0, count_lines("abc"));
    assert_eq!(1, count_lines("abc\n"));
    assert_eq!(1, count_lines("abc\ndef"));
    assert_eq!(3, count_lines("a\nb\nc\n"));
}
