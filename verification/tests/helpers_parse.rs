use rn_core::helpers::errors::ParseError;
use rn_core::helpers::parse::{parse_value, trim, FromStrRadix, ParseOperand};

#[test]
fn test_parse_u8_hex() {
    assert_eq!(parse_value::<u8>("$00").unwrap(), 0);
    assert_eq!(parse_value::<u8>("$FF").unwrap(), 255);
    assert_eq!(parse_value::<u8>("$0F").unwrap(), 15);

    assert!(parse_value::<u8>("$100").is_err());
    assert!(parse_value::<u8>("$ZZ").is_err());
}

#[test]
fn test_parse_u8_binary() {
    assert_eq!(parse_value::<u8>("%00000000").unwrap(), 0);
    assert_eq!(parse_value::<u8>("%11111111").unwrap(), 255);
    assert_eq!(parse_value::<u8>("%00001111").unwrap(), 15);
    assert_eq!(parse_value::<u8>("%00010000").unwrap(), 16);

    assert!(parse_value::<u8>("%111111111").is_err());
    assert!(parse_value::<u8>("%1234").is_err());
}

#[test]
fn test_parse_u8_decimal() {
    assert_eq!(parse_value::<u8>("0").unwrap(), 0);
    assert_eq!(parse_value::<u8>("255").unwrap(), 255);
    assert_eq!(parse_value::<u8>("15").unwrap(), 15);

    assert!(parse_value::<u8>("256").is_err());
    assert!(parse_value::<u8>("-1").is_err());
    assert!(parse_value::<u8>("12.34").is_err());
}

#[test]
fn test_parse_u16_hex() {
    assert_eq!(parse_value::<u16>("$0000").unwrap(), 0);
    assert_eq!(parse_value::<u16>("$FFFF").unwrap(), 65535);
    assert_eq!(parse_value::<u16>("$1234").unwrap(), 0x1234);

    assert!(parse_value::<u16>("$10000").is_err());
    assert!(parse_value::<u16>("$WXYZ").is_err());
}

#[test]
fn test_parse_u16_decimal() {
    assert_eq!(parse_value::<u16>("0").unwrap(), 0);
    assert_eq!(parse_value::<u16>("65535").unwrap(), 65535);
    assert_eq!(parse_value::<u16>("1234").unwrap(), 1234);

    assert!(parse_value::<u16>("65536").is_err());
    assert!(parse_value::<u16>("-1").is_err());
}

#[test]
fn test_immediate_operand() {
    assert_eq!(parse_value::<u8>("#$42").unwrap(), 0x42);
    assert_eq!(parse_value::<u16>("#$1234").unwrap(), 0x1234);

    assert_eq!(parse_value::<u8>("#%00101010").unwrap(), 42);
    assert_eq!(parse_value::<u8>("#%00010000").unwrap(), 16);

    assert_eq!(parse_value::<u8>("$42").unwrap(), 0x42);
    assert_eq!(parse_value::<u16>("$1234").unwrap(), 0x1234);
    assert_eq!(parse_value::<u8>("%00101010").unwrap(), 42);
}

#[test]
fn operand_white_space_is_ignored() {
    assert_eq!(parse_value::<u8>("  $1f\t").unwrap(), 0x1F);
    assert_eq!(parse_value::<u8>("# 42 ").unwrap(), 42);
    assert_eq!(parse_value::<u16>("+300").unwrap(), 300);
    assert!(parse_value::<u8>("").is_err());
    assert!(parse_value::<u8>("$").is_err());
    assert!(parse_value::<u8>("+").is_err());
}

#[test]
fn operand_errors_name_the_notation_and_the_type() {
    match parse_value::<u8>("$ZZ") {
        Err(ParseError::InvalidFormat(m)) => assert_eq!(m, "Invalid hex byte value: $ZZ"),
        other => panic!("unexpected {:?}", other),
    }
    match parse_value::<u16>("#%102") {
        Err(ParseError::InvalidFormat(m)) => assert_eq!(m, "Invalid binary word value: %102"),
        other => panic!("unexpected {:?}", other),
    }
    match parse_value::<u8>(" 256 ") {
        Err(ParseError::InvalidFormat(m)) => assert_eq!(m, "Invalid decimal byte value: 256"),
        other => panic!("unexpected {:?}", other),
    }
}

#[test]
fn trim_removes_unicode_white_space_only_at_the_ends() {
    assert_eq!(trim("\u{3000} a b \u{85}"), "a b");
    assert_eq!(trim("   "), "");
    assert_eq!(trim("x"), "x");
}

#[test]
fn from_str_radix_reads_each_base() {
    assert_eq!(<u8 as FromStrRadix>::from_str_radix("ff", 16).unwrap(), 255);
    assert_eq!(<u16 as FromStrRadix>::from_str_radix("z", 36).unwrap(), 35);
    assert!(<u8 as FromStrRadix>::from_str_radix("100000000", 2).is_err());
    assert_eq!(<u8 as ParseOperand>::kind_name(), "byte");
    assert_eq!(<u16 as ParseOperand>::kind_name(), "word");
}
