use rn_core::cpu::{Cpu, CpuFlag, InstructionDecoderError, NMI_VECTOR, IRQ_VECTOR};
use rn_core::errors::NesError;
use rn_core::memory::{Addressable, Ram};


/// A CPU with 64 KB of RAM.
fn setup_cpu() -> Cpu<Ram> {
    setup_cpu_with_memory(Ram::default())
}

fn setup_cpu_with_memory(memory: Ram) -> Cpu<Ram> {
    let mut cpu = Cpu::new();
    cpu.connect_memory(memory);
    cpu
}

#[test]
fn test_cpu_flags() {
    let mut cpu = setup_cpu();

    // Test flag is initially not set
    assert!(!cpu.get_flag(CpuFlag::Zero));

    // Test setting a flag
    cpu.set_flag(CpuFlag::Zero, true);
    assert!(cpu.get_flag(CpuFlag::Zero));

    // Test clearing a flag
    cpu.set_flag(CpuFlag::Zero, false);
    assert!(!cpu.get_flag(CpuFlag::Zero));
}

#[test]
fn test_cpu_memory_interaction() {
    let mut cpu = setup_cpu();

    // Test writing and reading bytes
    cpu.write_byte(0x1000, 0x42).unwrap();
    assert_eq!(cpu.read_byte(0x1000).unwrap(), 0x42);

    // Test writing and reading words
    cpu.write_word(0x2000, 0x1234).unwrap();
    assert_eq!(cpu.read_word(0x2000).unwrap(), 0x1234);
}

#[test]
fn test_stack_operations() {
    let mut cpu = setup_cpu();

    // Test push and pop byte
    cpu.push_byte(0x42).unwrap();
    assert_eq!(cpu.registers.sp, 0xFC);
    assert_eq!(cpu.pop_byte().unwrap(), 0x42);
    assert_eq!(cpu.registers.sp, 0xFD);

    // Test push and pop word
    cpu.push_word(0x1234).unwrap();
    assert_eq!(cpu.registers.sp, 0xFB);
    assert_eq!(cpu.pop_word().unwrap(), 0x1234);
    assert_eq!(cpu.registers.sp, 0xFD);
}

#[test]
fn mod_test_reset() {
    // Use RAM with full address space (0x0000-0xFFFF) for testing
    let mut ram = Ram::default();

    // Set reset vector
    ram.write_byte(0xFFFC, 0x34).unwrap();
    ram.write_byte(0xFFFD, 0x12).unwrap();

    let mut cpu = setup_cpu_with_memory(ram);
    cpu.reset().unwrap();

    // Check if PC was set to the reset vector
    assert_eq!(cpu.registers.pc, 0x1234);
    // Check if SP was set to 0xFD
    assert_eq!(cpu.registers.sp, 0xFD);
    // Check if cycles were set to 7
    assert_eq!(cpu.cycles, 7);
}

#[test]
fn test_step_lda_immediate() {
    let mut ram = Ram::default();

    // Set up a simple program: LDA #$42
    ram.write_byte(0x0000, 0xA9).unwrap(); // LDA immediate
    ram.write_byte(0x0001, 0x42).unwrap(); // Value to load

    let mut cpu = setup_cpu_with_memory(ram);
    cpu.registers.pc = 0x0000; // Set PC to our program

    // Execute one instruction
    let cycles = cpu.step().unwrap();

    // Verify results
    assert_eq!(cpu.registers.a, 0x42);
    assert_eq!(cpu.registers.pc, 0x0002);
    assert_eq!(cycles, 2);
    assert_eq!(cpu.cycles, 2);
}

#[test]
fn test_unknown_opcode() {
    let mut ram = Ram::default();

    // $02 is a JAM/KIL opcode: it locks the real CPU up and has no behaviour worth
    // emulating, so it stays undecodable. ($FF was used here until the unofficial opcodes
    // were implemented and it became a valid ISB Absolute,X.)
    ram.write_byte(0x0000, 0x02).unwrap();

    let mut cpu = setup_cpu_with_memory(ram);
    cpu.registers.pc = 0x0000;

    // Execute one instruction - this should now return an error for the invalid opcode
    let result = cpu.step();

    // Verify the error is the expected one
    assert!(result.is_err(), "Expected an error for invalid opcode");
    if let Err(NesError::InstructionDecoderError(InstructionDecoderError::InvalidOpcode(op))) = result {
        assert_eq!(op, 0x02);
    } else {
        panic!("Expected InvalidOpcode error, got: {:?}", result);
    }

    // PC should still be incremented because fetch still happened
    assert_eq!(cpu.registers.pc, 0x0001);
}

#[test]
fn test_load_program() {
    let mut cpu = setup_cpu();

    // Simple program: LDA #$42, STA $0200, BRK
    let program = [0xA9, 0x42, 0x8D, 0x00, 0x02, 0x00];
    let load_address = 0x8000;

    // Load the program
    cpu.load_program(&program, load_address).unwrap();

    // Verify the program was loaded correctly
    for (i, &byte) in program.iter().enumerate() {
        assert_eq!(cpu.read_byte(load_address + i as u16).unwrap(), byte);
    }

    // Verify the reset vector was set correctly
    assert_eq!(cpu.read_word(0xFFFC).unwrap(), load_address);

    // Verify the CPU was reset and PC points to the program
    assert_eq!(cpu.registers.pc, load_address);

    // Execute the first instruction (LDA #$42)
    cpu.step().unwrap();
    assert_eq!(cpu.registers.a, 0x42);

    // Execute the second instruction (STA $0200)
    cpu.step().unwrap();
    assert_eq!(cpu.read_byte(0x0200).unwrap(), 0x42);
}
