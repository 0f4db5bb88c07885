use rn_core::cpu::{DisassembleError, Disassembler};

#[test]
fn test_disassemble_single_instruction() {
    let disassembler = Disassembler::new();

    // Test LDA #$42 (A9 42)
    let memory = [0xA9, 0x42];
    let (instruction, bytes) = disassembler.disassemble_instruction(&memory, 0).unwrap();
    assert_eq!(instruction, "LDA #$42");
    assert_eq!(bytes, 2);

    // Test STA $2000 (8D 00 20)
    let memory = [0x8D, 0x00, 0x20];
    let (instruction, bytes) = disassembler.disassemble_instruction(&memory, 0).unwrap();
    assert_eq!(instruction, "STA $2000");
    assert_eq!(bytes, 3);

    // Test BRK (00)
    let memory = [0x00];
    let (instruction, bytes) = disassembler.disassemble_instruction(&memory, 0).unwrap();
    assert_eq!(instruction, "BRK");
    assert_eq!(bytes, 1);
}

#[test]
fn test_disassemble_program() {
    let disassembler = Disassembler::new();

    // Simple program: LDA #$42, STA $0200, BRK
    let memory = [0xA9, 0x42, 0x8D, 0x00, 0x02, 0x00];

    let disassembly = disassembler.disassemble_program(&memory, 0, memory.len());
    assert_eq!(disassembly.len(), 3);

    // Check individual instructions
    assert_eq!(disassembly[0].0, 0); // First instruction address
    assert_eq!(disassembly[0].1, vec![0xA9, 0x42]); // First instruction bytes
    assert_eq!(disassembly[0].2, "LDA #$42"); // First instruction text

    assert_eq!(disassembly[1].0, 2); // Second instruction address
    assert_eq!(disassembly[1].1, vec![0x8D, 0x00, 0x02]); // Second instruction bytes
    assert_eq!(disassembly[1].2, "STA $0200"); // Second instruction text

    assert_eq!(disassembly[2].0, 5); // Third instruction address
    assert_eq!(disassembly[2].1, vec![0x00]); // Third instruction bytes
    assert_eq!(disassembly[2].2, "BRK"); // Third instruction text
}

#[test]
fn test_format_disassembly() {
    let disassembler = Disassembler::new();

    // Create a simple disassembly
    let disassembly = vec![
        (0x8000, vec![0xA9, 0x42], "LDA #$42".to_string()),
        (0x8002, vec![0x8D, 0x00, 0x02], "STA $0200".to_string()),
        (0x8005, vec![0x00], "BRK".to_string()),
    ];

    let formatted = disassembler.format_disassembly(&disassembly);

    // The output should look like:
    // 8000: A9 42    LDA #$42
    // 8002: 8D 00 02 STA $0200
    // 8005: 00       BRK
    let expected = "\
8000: A9 42    LDA #$42
8002: 8D 00 02 STA $0200
8005: 00       BRK
";

    assert_eq!(formatted, expected);
}

#[test]
fn disassembler_test_invalid_opcode() {
    let disassembler = Disassembler::new();

    // Test an invalid opcode (0xFF)
    let memory = [0xFF];
    let result = disassembler.disassemble_instruction(&memory, 0);

    // Should return an error
    assert!(result.is_err());
    if let Err(DisassembleError::InvalidOpcode(opcode)) = result {
        assert_eq!(opcode, 0xFF);
    } else {
        panic!("Expected InvalidOpcode error, got: {:?}", result);
    }

    // But we can still disassemble a program with invalid opcodes
    let disassembly = disassembler.disassemble_program(&memory, 0, memory.len());
    assert_eq!(disassembly.len(), 1);
    assert_eq!(disassembly[0].2, ".byte $FF");
}

#[test]
fn indexed_modes_are_shown_by_name() {
    let disassembler = Disassembler::new();
    let (text, bytes) = disassembler.disassemble_instruction(&[0x95, 0x10], 0).unwrap();
    assert_eq!(text, "STA $ZeroPageX");
    assert_eq!(bytes, 2);
}

#[test]
fn missing_operand_bytes_show_as_question_marks() {
    let disassembler = Disassembler::new();
    let (text, bytes) = disassembler.disassemble_instruction(&[0xAD, 0x34], 0).unwrap();
    assert_eq!(text, "LDA $????");
    assert_eq!(bytes, 3);
    let (text, _) = disassembler.disassemble_instruction(&[0xA9], 0).unwrap();
    assert_eq!(text, "LDA #$??");
}

#[test]
fn reading_past_the_end_is_a_memory_error() {
    let disassembler = Disassembler::new();
    match disassembler.disassemble_instruction(&[0xEA], 5) {
        Err(DisassembleError::NesError(rn_core::errors::NesError::MemoryAccessError(a))) => assert_eq!(a, 5),
        other => panic!("unexpected: {:?}", other),
    }
    assert!(disassembler.disassemble_instruction(&[], 0).is_err());
}

#[test]
fn a_listing_stops_at_the_requested_length() {
    let disassembler = Disassembler::new();
    let memory = [0xA9, 0x42, 0xFF];
    let listing = disassembler.disassemble_program(&memory, 0, 1);
    assert_eq!(listing.len(), 1);
    assert_eq!(listing[0], (0, vec![0xA9], "LDA #$42".to_string()));

    let listing = disassembler.disassemble_program(&memory, 1, 10);
    assert_eq!(listing.len(), 2);
    assert_eq!(listing[0], (1, vec![0x42], ".byte $42".to_string()));
    assert_eq!(listing[1], (2, vec![0xFF], ".byte $FF".to_string()));
}

#[test]
fn wide_addresses_and_long_byte_columns_are_not_cut() {
    let disassembler = Disassembler::new();
    let listing = vec![
        (0x12345, vec![0xEA], "NOP".to_string()),
        (0x7, vec![0x01, 0x02, 0x03, 0x04], "X".to_string()),
        (0x8, vec![], "Y".to_string()),
    ];
    let text = disassembler.format_disassembly(&listing);
    assert_eq!(text, "12345: EA       NOP\n0007: 01 02 03 04 X\n0008:          Y\n");
}
