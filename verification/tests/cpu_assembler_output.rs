use rn_core::cpu::assembler::directives::Directive;
use rn_core::cpu::assembler::labels::Labels;
use rn_core::cpu::{AssembleError, Assembler, Disassembler, InstructionDecoder, Instruction};
use rn_core::text::chars_of;

#[test]
fn a_rom_needs_a_header_segment() {
    let assembler = Assembler::new(0x8000);
    match assembler.create_nes_rom() {
        Err(AssembleError::SegmentError(_)) => {},
        other => panic!("unexpected: {:?}", other),
    }
}

#[test]
fn a_rom_places_the_vectors_at_the_end_of_the_prg_area() {
    let mut assembler = Assembler::new(0x8000).with_nes_segments();
    let program = r#"
.segment "HEADER"
  .byte "NES", $1A, $01, $01, $00, $00, $00, $00, $00, $00, $00, $00, $00, $00
.segment "STARTUP"
Reset:
  LDA #$01
  RTS
.segment "VECTORS"
  .word $0000, Reset, $0000
.segment "CHARS"
  .byte $AA, $55
"#;
    assembler.assemble_program(program).unwrap();
    let rom = assembler.create_nes_rom().unwrap();
    assert_eq!(rom.len(), 16 + 16384 + 2);
    assert_eq!(&rom[0..4], &[0x4E, 0x45, 0x53, 0x1A]);
    assert_eq!(&rom[16..19], &[0xA9, 0x01, 0x60]);
    assert!(rom[19..16 + 16384 - 6].iter().all(|b| *b == 0));
    assert_eq!(&rom[16 + 16384 - 6..16 + 16384], &[0x00, 0x00, 0x00, 0x80, 0x00, 0x00]);
    assert_eq!(&rom[16 + 16384..], &[0xAA, 0x55]);
}

#[test]
fn a_rom_without_vectors_is_header_code_and_chars() {
    let mut assembler = Assembler::new(0x8000);
    assembler.segments.add("HEADER", 0);
    assembler.segments.add("STARTUP", 0x8000);
    let program = r#"
.segment "HEADER"
  .byte $01, $02
.segment "STARTUP"
  NOP
"#;
    assembler.assemble_program(program).unwrap();
    assert_eq!(assembler.create_nes_rom().unwrap(), vec![0x01, 0x02, 0xEA]);
}

#[test]
fn with_nes_segments_adds_the_standard_layout() {
    let assembler = Assembler::new(0x1234).with_nes_segments();
    assert_eq!(assembler.segments.len(), 5);
    let names: Vec<String> = (0..5).map(|i| assembler.segments.name_at(i)).collect();
    assert_eq!(names, vec!["HEADER", "ZEROPAGE", "STARTUP", "VECTORS", "CHARS"]);
    assert_eq!(assembler.segments.load_address_at(2), 0x8000);
    assert_eq!(assembler.segments.load_address_at(3), 0xFFFA);
    assert_eq!(assembler.load_address, 0x1234);
}

#[test]
fn quoted_strings_in_byte_directives_give_their_characters() {
    let assembler = Assembler::new(0);
    let d = assembler.parse_directive(&chars_of(".byte \"NES\", $1A"), &Labels::new()).unwrap();
    match d {
        Some(Directive::Byte(v)) => assert_eq!(v, vec![0x4E, 0x45, 0x53, 0x1A]),
        other => panic!("unexpected: {:?}", other),
    }
    let d = assembler.parse_directive(&chars_of(".byte 'A'"), &Labels::new()).unwrap();
    match d {
        Some(Directive::Byte(v)) => assert_eq!(v, vec![0x41]),
        other => panic!("unexpected: {:?}", other),
    }
}

#[test]
fn assembled_instructions_decode_back() {
    let assembler = Assembler::new(0x8000);
    let decoder = InstructionDecoder::new();
    for (text, instruction) in [
        ("LDA $1234", Instruction::LDA),
        ("STA $10", Instruction::STA),
        ("ASL A", Instruction::ASL),
        ("NOP", Instruction::NOP),
        ("LDX #$05", Instruction::LDX),
    ] {
        let bytes = assembler.assemble_instruction(text, &Labels::new()).unwrap();
        let m = decoder.decode(bytes[0]).unwrap();
        assert_eq!(m.instruction, instruction);
        assert_eq!(m.bytes as usize, bytes.len());
    }
}

#[test]
fn a_listing_covers_its_range_once() {
    let mut assembler = Assembler::new(0x8000);
    let segments = assembler
        .assemble_program(".segment \"STARTUP\"\nLDA #$01\nSTA $0200\n.byte $FF\nJMP $8000\nBRK\n")
        .unwrap();
    let code = segments.get("STARTUP").unwrap().clone();
    let listing = Disassembler::new().disassemble_program(&code, 0, code.len());
    let mut joined = Vec::new();
    for (address, bytes, _) in &listing {
        assert_eq!(*address, joined.len());
        joined.extend_from_slice(bytes);
    }
    assert_eq!(joined, code);
    assert_eq!(listing[2].2, ".byte $FF");
    assert_eq!(listing[3].2, "JMP $8000");
}

#[test]
fn labels_read_back_what_was_inserted() {
    let mut labels = Labels::new();
    labels.insert(&chars_of("Loop"), 0x8003);
    labels.insert(&chars_of("Data"), 0x00F0);
    labels.insert(&chars_of("Loop"), 0x8010);
    assert_eq!(labels.get("Loop"), Some(0x8010));
    assert_eq!(labels.get("Data"), Some(0x00F0));
    assert_eq!(labels.get("Missing"), None);
    assert_eq!(labels.len(), 2);
}

#[test]
fn data_directives_are_counted_at_the_bytes_they_emit() {
    let assembler = Assembler::new(0);
    for (line, bytes) in [
        (".word $1234, $5678", 4usize),
        (".res 16", 16),
        (".res 3, $FF", 3),
        (".byte $01, $02, $03", 3),
        (".byte 'AB', $01", 3),
        (".byte \"NES\", $1A", 4),
        (".sprite 1, 1, 1, 2, 3, 4, 5, 6, 7, 8, 9, 10, 11, 12, 13, 14, 15, 16", 16),
    ] {
        let chars = chars_of(line);
        let emitted = match assembler.parse_directive(&chars, &Labels::new()).unwrap() {
            Some(Directive::Word(ws)) => ws.len() * 2,
            Some(Directive::Res(size, _)) => size as usize,
            Some(Directive::Byte(v)) => v.len(),
            Some(Directive::Sprite(_, _, p)) => p.len(),
            other => panic!("unexpected: {:?}", other),
        };
        assert_eq!(emitted, bytes);
        assert_eq!(assembler.directive_size(&chars) as usize, bytes);
    }
}

#[test]
fn every_opcode_is_as_long_as_its_mode() {
    let decoder = InstructionDecoder::new();
    let mut decoded = 0;
    for op in 0..=255u8 {
        if let Ok(m) = decoder.decode(op) {
            assert_eq!(m.bytes as u16, m.addressing_mode.size(), "opcode {:02X}", op);
            assert_eq!(m.opcode, op);
            decoded += 1;
        }
    }
    assert!(decoded > 0);
}

#[test]
fn unknown_mnemonics_are_reported_with_their_text() {
    match "XYZ".parse::<Instruction>() {
        Err(rn_core::cpu::parser::ParseError::UnknownMnemonic(m)) => assert_eq!(m, "XYZ"),
        other => panic!("unexpected: {:?}", other),
    }
    assert_eq!("STA".parse::<Instruction>().unwrap(), Instruction::STA);
}

#[test]
fn labels_after_sprites_and_quoted_bytes_land_after_their_data() {
    let mut assembler = Assembler::new(0x8000).with_nes_segments();
    let labels = assembler
        .collect_labels(
            ".segment \"STARTUP\"\nTile:\n  .sprite 1, 1, 1, 2, 3, 4, 5, 6, 7, 8, 9, 10, 11, 12, 13, 14, 15, 16\nText:\n  .byte 'AB'\nAfter:\n  NOP\n",
        )
        .unwrap();
    assert_eq!(labels.get("Tile"), Some(0x8000));
    assert_eq!(labels.get("Text"), Some(0x8010));
    assert_eq!(labels.get("After"), Some(0x8012));
}

#[test]
fn an_empty_sprite_directive_is_a_directive_error() {
    let assembler = Assembler::new(0);
    match assembler.parse_directive(&chars_of(".sprite "), &Labels::new()) {
        Err(AssembleError::DirectiveError(_)) => {},
        other => panic!("unexpected: {:?}", other),
    }
}

#[test]
fn label_faults_are_label_errors() {
    let mut assembler = Assembler::new(0);
    match assembler.assemble_program("JMP nonexistent") {
        Err(AssembleError::LabelError(_)) => {},
        other => panic!("unexpected: {:?}", other.err()),
    }
    let mut assembler = Assembler::new(0);
    match assembler.assemble_program("start:\nLDA #$10\nstart:\nLDA #$20\n") {
        Err(AssembleError::LabelError(_)) => {},
        other => panic!("unexpected: {:?}", other.err()),
    }
}

#[test]
fn a_rom_without_a_header_names_what_is_missing() {
    match Assembler::new(0).create_nes_rom() {
        Err(AssembleError::SegmentError(m)) => assert_eq!(m, "Missing HEADER segment"),
        other => panic!("unexpected: {:?}", other),
    }
}

#[test]
fn an_unknown_word_value_is_named_in_the_error() {
    let assembler = Assembler::new(0);
    match assembler.parse_directive(&chars_of(".word $10, Nowhere"), &Labels::new()) {
        Err(AssembleError::LabelError(m)) => assert_eq!(m, "Invalid .word directive: Nowhere"),
        other => panic!("unexpected: {:?}", other),
    }
}
