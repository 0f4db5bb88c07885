use rn_core::cpu::parser::{InstructionParser, ParseError};
use rn_core::cpu::{AddressingMode, Instruction};

#[test]
fn parser_test_instruction_parsing() {
    assert_eq!("LDA".parse::<Instruction>().unwrap(), Instruction::LDA);
    assert!("XYZ".parse::<Instruction>().is_err());
}

#[test]
fn test_addressing_mode_parsing() {
    let parser = InstructionParser::new();

    let (mode, _) = parser.parse_addressing_mode("#$42").unwrap();
    assert_eq!(mode, AddressingMode::Immediate);

    let (mode, _) = parser.parse_addressing_mode("$42").unwrap();
    assert_eq!(mode, AddressingMode::ZeroPage);

    let (mode, _) = parser.parse_addressing_mode("$1234").unwrap();
    assert_eq!(mode, AddressingMode::Absolute);

    assert!(parser.parse_addressing_mode("xyz").is_err());
}

#[test]
fn test_operand_parsing() {
    let parser = InstructionParser::new();

    let (_, value) = parser.parse_addressing_mode("#$42").unwrap();
    assert_eq!(value, 0x42);

    let (_, value) = parser.parse_addressing_mode("$42").unwrap();
    assert_eq!(value, 0x42);

    let (_, value) = parser.parse_addressing_mode("$1234").unwrap();
    assert_eq!(value, 0x1234);

    assert!(parser.parse_addressing_mode("#$ZZ").is_err());
}

#[test]
fn parser_test_complete_instruction_parsing() {
    let parser = InstructionParser::new();

    let metadata = parser.parse("LDA #$42").unwrap();
    assert_eq!(metadata.instruction, Instruction::LDA);
    assert_eq!(metadata.addressing_mode, AddressingMode::Immediate);
    assert_eq!(metadata.opcode, 0xA9);

    let metadata = parser.parse("LDA $42").unwrap();
    assert_eq!(metadata.instruction, Instruction::LDA);
    assert_eq!(metadata.addressing_mode, AddressingMode::ZeroPage);
    assert_eq!(metadata.opcode, 0xA5);

    let metadata = parser.parse("LDA $1234").unwrap();
    assert_eq!(metadata.instruction, Instruction::LDA);
    assert_eq!(metadata.addressing_mode, AddressingMode::Absolute);
    assert_eq!(metadata.opcode, 0xAD);
}

#[test]
fn parser_test_error_conditions() {
    let parser = InstructionParser::new();

    let result = parser.parse("XYZ #$42");
    assert!(result.is_err());

    let result = parser.parse("LDA xyz");
    assert!(result.is_err());

    let result = parser.parse("LDA #$ZZ");
    assert!(result.is_err());

    let result = parser.parse("LDA");
    assert!(result.is_err());
}

#[test]
fn parse_errors_name_what_went_wrong() {
    let parser = InstructionParser::new();
    match parser.parse("XYZ #$42") {
        Err(ParseError::UnknownMnemonic(m)) => assert_eq!(m, "XYZ"),
        other => panic!("unexpected {:?}", other),
    }
    match parser.parse("  LDA  ") {
        Err(ParseError::InvalidSyntax(m)) => assert_eq!(m, "Missing operand"),
        other => panic!("unexpected {:?}", other),
    }
    match parser.parse("LDA #$ZZ") {
        Err(ParseError::InvalidOperandFormat(m)) => assert_eq!(m, "Invalid hex value: ZZ"),
        other => panic!("unexpected {:?}", other),
    }
    match parser.parse("STA #$10") {
        Err(ParseError::InvalidAddressingMode(m)) => assert_eq!(m, "STA does not support Immediate"),
        other => panic!("unexpected {:?}", other),
    }
    match parser.parse("LDA (x)") {
        Err(ParseError::InvalidAddressingMode(m)) => assert_eq!(m, "(x)"),
        other => panic!("unexpected {:?}", other),
    }
}

#[test]
fn parse_bytes_puts_words_low_byte_first() {
    let parser = InstructionParser::new();
    assert_eq!(parser.parse_bytes("LDA #$42").unwrap(), vec![0xA9, 0x42]);
    assert_eq!(parser.parse_bytes("STA $10").unwrap(), vec![0x85, 0x10]);
    assert_eq!(parser.parse_bytes("JMP $C123").unwrap(), vec![0x4C, 0x23, 0xC1]);
    assert!(parser.parse_bytes("JMP $10").is_err(), "JMP has no zero-page form");
}
