use vstd::prelude::*;

use super::addressing_mode::{mode_size, operand_address, operand_value, AddressingMode};
use super::{
    memory_after_push_frame, memory_after_push_word, set_bits, stack_address, with_nz, wrap16, wrap8, Cpu,
    CpuFlag, CpuRegisters, IRQ_VECTOR,
};
use crate::errors::NesError;
use crate::memory::{word_from, Addressable};

verus! {

/// Errors from decoding or looking up an instruction.
#[derive(Debug, Clone, Copy, PartialEq, Eq, Structural)]
pub enum InstructionDecoderError {
    /// An opcode with no instruction behind it.
    InvalidOpcode(u8),
    /// An instruction that has no form in the given addressing mode.
    UnimplementedAddressingMode(Instruction, AddressingMode),
}

/// The 6502 instructions this CPU implements.
#[derive(Debug, Clone, Copy, PartialEq, Eq, Structural, Hash)]
pub enum Instruction {
    /// Load Accumulator
    LDA,
    /// Load X Register
    LDX,
    /// Load Y Register
    LDY,
    /// Store Accumulator
    STA,
    /// Store X Register
    STX,
    /// Store Y Register
    STY,
    /// Jump to new location
    JMP,
    /// Jump to Subroutine
    JSR,
    /// Return from Subroutine
    RTS,
    /// Break/interrupt
    BRK,
    /// No Operation
    NOP,
    /// Bit Test with memory
    BIT,
    /// Branch on Plus (N flag = 0)
    BPL,
    /// Clear Carry Flag
    CLC,
    /// Set Carry Flag
    SEC,
    /// Branch if Equal (Z flag = 1)
    BEQ,
    /// Branch if Not Equal (Z flag = 0)
    BNE,
    /// Add Memory to Accumulator with Carry
    ADC,
    /// Subtract Memory from Accumulator with Borrow
    SBC,
    /// Compare Memory with Accumulator
    CMP,
    /// Transfer X to Stack Pointer
    TXS,
    /// Logical AND with Accumulator
    AND,
    /// Arithmetic Shift Left
    ASL,
    /// Logical Shift Right
    LSR,
    /// Logical OR with Accumulator
    ORA,
    /// Transfer Accumulator to Y
    TAY,
    /// Transfer Y to Accumulator
    TYA,
    /// Increment X Register
    INX,
    /// Decrement X Register
    DEX,
    /// Compare Memory with X Register
    CPX,
}

impl Instruction {
    /// Whether the instruction is a conditional branch.
    pub fn is_branch(&self) -> (b: bool)
        ensures
            b == (*self == Instruction::BPL || *self == Instruction::BEQ || *self == Instruction::BNE),
    {
        matches!(self, Instruction::BPL | Instruction::BEQ | Instruction::BNE)
    }

    /// Whether the instruction takes no operand.
    pub fn has_implied_addressing(&self) -> (b: bool)
        ensures
            b == (*self == Instruction::RTS || *self == Instruction::BRK || *self == Instruction::NOP
                || *self == Instruction::CLC || *self == Instruction::SEC || *self == Instruction::TXS
                || *self == Instruction::TAY || *self == Instruction::TYA || *self == Instruction::INX
                || *self == Instruction::DEX),
    {
        matches!(
            self,
            Instruction::RTS | Instruction::BRK | Instruction::NOP | Instruction::CLC | Instruction::SEC
                | Instruction::TXS | Instruction::TAY | Instruction::TYA | Instruction::INX | Instruction::DEX
        )
    }

    /// Whether the instruction always takes a full 16-bit target, even for a zero-page address.
    pub fn is_jump(&self) -> (b: bool)
        ensures
            b == (*self == Instruction::JMP || *self == Instruction::JSR),
    {
        matches!(self, Instruction::JMP | Instruction::JSR)
    }

    /// Whether the instruction sets the program counter itself.
    pub fn modifies_pc(&self) -> (b: bool)
        ensures
            b == spec_modifies_pc(*self),
    {
        matches!(
            self,
            Instruction::JMP | Instruction::JSR | Instruction::RTS | Instruction::BRK | Instruction::BPL
                | Instruction::BNE | Instruction::BEQ
        )
    }
}

/// An instruction's mnemonic, as assembly source writes it.
pub open spec fn mnemonic_text(instruction: Instruction) -> Seq<char> {
    match instruction {
        Instruction::LDA => seq!['L', 'D', 'A'],
        Instruction::LDX => seq!['L', 'D', 'X'],
        Instruction::LDY => seq!['L', 'D', 'Y'],
        Instruction::STA => seq!['S', 'T', 'A'],
        Instruction::STX => seq!['S', 'T', 'X'],
        Instruction::STY => seq!['S', 'T', 'Y'],
        Instruction::JMP => seq!['J', 'M', 'P'],
        Instruction::JSR => seq!['J', 'S', 'R'],
        Instruction::RTS => seq!['R', 'T', 'S'],
        Instruction::BRK => seq!['B', 'R', 'K'],
        Instruction::NOP => seq!['N', 'O', 'P'],
        Instruction::BIT => seq!['B', 'I', 'T'],
        Instruction::BPL => seq!['B', 'P', 'L'],
        Instruction::CLC => seq!['C', 'L', 'C'],
        Instruction::SEC => seq!['S', 'E', 'C'],
        Instruction::BEQ => seq!['B', 'E', 'Q'],
        Instruction::BNE => seq!['B', 'N', 'E'],
        Instruction::ADC => seq!['A', 'D', 'C'],
        Instruction::SBC => seq!['S', 'B', 'C'],
        Instruction::CMP => seq!['C', 'M', 'P'],
        Instruction::TXS => seq!['T', 'X', 'S'],
        Instruction::AND => seq!['A', 'N', 'D'],
        Instruction::ASL => seq!['A', 'S', 'L'],
        Instruction::LSR => seq!['L', 'S', 'R'],
        Instruction::ORA => seq!['O', 'R', 'A'],
        Instruction::TAY => seq!['T', 'A', 'Y'],
        Instruction::TYA => seq!['T', 'Y', 'A'],
        Instruction::INX => seq!['I', 'N', 'X'],
        Instruction::DEX => seq!['D', 'E', 'X'],
        Instruction::CPX => seq!['C', 'P', 'X'],
    }
}

/// The instruction a mnemonic names, if it names one.
pub open spec fn mnemonic_instruction(s: Seq<char>) -> Option<Instruction> {
    if s.len() != 3 {
        None
    } else if s[0] == 'L' && s[1] == 'D' && s[2] == 'A' {
        Some(Instruction::LDA)
    } else if s[0] == 'L' && s[1] == 'D' && s[2] == 'X' {
        Some(Instruction::LDX)
    } else if s[0] == 'L' && s[1] == 'D' && s[2] == 'Y' {
        Some(Instruction::LDY)
    } else if s[0] == 'S' && s[1] == 'T' && s[2] == 'A' {
        Some(Instruction::STA)
    } else if s[0] == 'S' && s[1] == 'T' && s[2] == 'X' {
        Some(Instruction::STX)
    } else if s[0] == 'S' && s[1] == 'T' && s[2] == 'Y' {
        Some(Instruction::STY)
    } else if s[0] == 'J' && s[1] == 'M' && s[2] == 'P' {
        Some(Instruction::JMP)
    } else if s[0] == 'J' && s[1] == 'S' && s[2] == 'R' {
        Some(Instruction::JSR)
    } else if s[0] == 'R' && s[1] == 'T' && s[2] == 'S' {
        Some(Instruction::RTS)
    } else if s[0] == 'B' && s[1] == 'R' && s[2] == 'K' {
        Some(Instruction::BRK)
    } else if s[0] == 'N' && s[1] == 'O' && s[2] == 'P' {
        Some(Instruction::NOP)
    } else if s[0] == 'B' && s[1] == 'I' && s[2] == 'T' {
        Some(Instruction::BIT)
    } else if s[0] == 'B' && s[1] == 'P' && s[2] == 'L' {
        Some(Instruction::BPL)
    } else if s[0] == 'C' && s[1] == 'L' && s[2] == 'C' {
        Some(Instruction::CLC)
    } else if s[0] == 'S' && s[1] == 'E' && s[2] == 'C' {
        Some(Instruction::SEC)
    } else if s[0] == 'B' && s[1] == 'E' && s[2] == 'Q' {
        Some(Instruction::BEQ)
    } else if s[0] == 'B' && s[1] == 'N' && s[2] == 'E' {
        Some(Instruction::BNE)
    } else if s[0] == 'A' && s[1] == 'D' && s[2] == 'C' {
        Some(Instruction::ADC)
    } else if s[0] == 'S' && s[1] == 'B' && s[2] == 'C' {
        Some(Instruction::SBC)
    } else if s[0] == 'C' && s[1] == 'M' && s[2] == 'P' {
        Some(Instruction::CMP)
    } else if s[0] == 'T' && s[1] == 'X' && s[2] == 'S' {
        Some(Instruction::TXS)
    } else if s[0] == 'A' && s[1] == 'N' && s[2] == 'D' {
        Some(Instruction::AND)
    } else if s[0] == 'A' && s[1] == 'S' && s[2] == 'L' {
        Some(Instruction::ASL)
    } else if s[0] == 'L' && s[1] == 'S' && s[2] == 'R' {
        Some(Instruction::LSR)
    } else if s[0] == 'O' && s[1] == 'R' && s[2] == 'A' {
        Some(Instruction::ORA)
    } else if s[0] == 'T' && s[1] == 'A' && s[2] == 'Y' {
        Some(Instruction::TAY)
    } else if s[0] == 'T' && s[1] == 'Y' && s[2] == 'A' {
        Some(Instruction::TYA)
    } else if s[0] == 'I' && s[1] == 'N' && s[2] == 'X' {
        Some(Instruction::INX)
    } else if s[0] == 'D' && s[1] == 'E' && s[2] == 'X' {
        Some(Instruction::DEX)
    } else if s[0] == 'C' && s[1] == 'P' && s[2] == 'X' {
        Some(Instruction::CPX)
    } else {
        None
    }
}

/// Reading a mnemonic back gives the instruction it was written for.
pub proof fn lemma_mnemonic_round_trip(i: Instruction)
    ensures
        mnemonic_instruction(mnemonic_text(i)) == Some(i),
{
}

/// Two instructions with one mnemonic are the same instruction.
pub proof fn lemma_mnemonic_injective(i: Instruction, j: Instruction)
    requires
        mnemonic_text(i) == mnemonic_text(j),
    ensures
        i == j,
{
    lemma_mnemonic_round_trip(i);
    lemma_mnemonic_round_trip(j);
}


impl Instruction {
    /// The mnemonic, in capitals.
    pub fn mnemonic(&self) -> (s: &'static str)
        ensures
            s@ == mnemonic_text(*self),
    {
        match self {
            Instruction::LDA => {
                proof {
                    reveal_strlit("LDA");
                }
                assert("LDA"@ =~= seq!['L', 'D', 'A']);
                "LDA"
            },
            Instruction::LDX => {
                proof {
                    reveal_strlit("LDX");
                }
                assert("LDX"@ =~= seq!['L', 'D', 'X']);
                "LDX"
            },
            Instruction::LDY => {
                proof {
                    reveal_strlit("LDY");
                }
                assert("LDY"@ =~= seq!['L', 'D', 'Y']);
                "LDY"
            },
            Instruction::STA => {
                proof {
                    reveal_strlit("STA");
                }
                assert("STA"@ =~= seq!['S', 'T', 'A']);
                "STA"
            },
            Instruction::STX => {
                proof {
                    reveal_strlit("STX");
                }
                assert("STX"@ =~= seq!['S', 'T', 'X']);
                "STX"
            },
            Instruction::STY => {
                proof {
                    reveal_strlit("STY");
                }
                assert("STY"@ =~= seq!['S', 'T', 'Y']);
                "STY"
            },
            Instruction::JMP => {
                proof {
                    reveal_strlit("JMP");
                }
                assert("JMP"@ =~= seq!['J', 'M', 'P']);
                "JMP"
            },
            Instruction::JSR => {
                proof {
                    reveal_strlit("JSR");
                }
                assert("JSR"@ =~= seq!['J', 'S', 'R']);
                "JSR"
            },
            Instruction::RTS => {
                proof {
                    reveal_strlit("RTS");
                }
                assert("RTS"@ =~= seq!['R', 'T', 'S']);
                "RTS"
            },
            Instruction::BRK => {
                proof {
                    reveal_strlit("BRK");
                }
                assert("BRK"@ =~= seq!['B', 'R', 'K']);
                "BRK"
            },
            Instruction::NOP => {
                proof {
                    reveal_strlit("NOP");
                }
                assert("NOP"@ =~= seq!['N', 'O', 'P']);
                "NOP"
            },
            Instruction::BIT => {
                proof {
                    reveal_strlit("BIT");
                }
                assert("BIT"@ =~= seq!['B', 'I', 'T']);
                "BIT"
            },
            Instruction::BPL => {
                proof {
                    reveal_strlit("BPL");
                }
                assert("BPL"@ =~= seq!['B', 'P', 'L']);
                "BPL"
            },
            Instruction::CLC => {
                proof {
                    reveal_strlit("CLC");
                }
                assert("CLC"@ =~= seq!['C', 'L', 'C']);
                "CLC"
            },
            Instruction::SEC => {
                proof {
                    reveal_strlit("SEC");
                }
                assert("SEC"@ =~= seq!['S', 'E', 'C']);
                "SEC"
            },
            Instruction::BEQ => {
                proof {
                    reveal_strlit("BEQ");
                }
                assert("BEQ"@ =~= seq!['B', 'E', 'Q']);
                "BEQ"
            },
            Instruction::BNE => {
                proof {
                    reveal_strlit("BNE");
                }
                assert("BNE"@ =~= seq!['B', 'N', 'E']);
                "BNE"
            },
            Instruction::ADC => {
                proof {
                    reveal_strlit("ADC");
                }
                assert("ADC"@ =~= seq!['A', 'D', 'C']);
                "ADC"
            },
            Instruction::SBC => {
                proof {
                    reveal_strlit("SBC");
                }
                assert("SBC"@ =~= seq!['S', 'B', 'C']);
                "SBC"
            },
            Instruction::CMP => {
                proof {
                    reveal_strlit("CMP");
                }
                assert("CMP"@ =~= seq!['C', 'M', 'P']);
                "CMP"
            },
            Instruction::TXS => {
                proof {
                    reveal_strlit("TXS");
                }
                assert("TXS"@ =~= seq!['T', 'X', 'S']);
                "TXS"
            },
            Instruction::AND => {
                proof {
                    reveal_strlit("AND");
                }
                assert("AND"@ =~= seq!['A', 'N', 'D']);
                "AND"
            },
            Instruction::ASL => {
                proof {
                    reveal_strlit("ASL");
                }
                assert("ASL"@ =~= seq!['A', 'S', 'L']);
                "ASL"
            },
            Instruction::LSR => {
                proof {
                    reveal_strlit("LSR");
                }
                assert("LSR"@ =~= seq!['L', 'S', 'R']);
                "LSR"
            },
            Instruction::ORA => {
                proof {
                    reveal_strlit("ORA");
                }
                assert("ORA"@ =~= seq!['O', 'R', 'A']);
                "ORA"
            },
            Instruction::TAY => {
                proof {
                    reveal_strlit("TAY");
                }
                assert("TAY"@ =~= seq!['T', 'A', 'Y']);
                "TAY"
            },
            Instruction::TYA => {
                proof {
                    reveal_strlit("TYA");
                }
                assert("TYA"@ =~= seq!['T', 'Y', 'A']);
                "TYA"
            },
            Instruction::INX => {
                proof {
                    reveal_strlit("INX");
                }
                assert("INX"@ =~= seq!['I', 'N', 'X']);
                "INX"
            },
            Instruction::DEX => {
                proof {
                    reveal_strlit("DEX");
                }
                assert("DEX"@ =~= seq!['D', 'E', 'X']);
                "DEX"
            },
            Instruction::CPX => {
                proof {
                    reveal_strlit("CPX");
                }
                assert("CPX"@ =~= seq!['C', 'P', 'X']);
                "CPX"
            },
        }
    }

    /// The instruction a mnemonic names. Mnemonics are matched exactly, in capitals.
    pub fn from_mnemonic(text: &[char]) -> (r: Option<Instruction>)
        ensures
            r == mnemonic_instruction(text@),
            match r {
                Some(i) => mnemonic_text(i) == text@,
                None => forall|i: Instruction| #[trigger] mnemonic_text(i) != text@,
            },
    {
        if text.len() != 3 {
            return None;
        }
        let r = match (text[0], text[1], text[2]) {
            ('L', 'D', 'A') => Some(Instruction::LDA),
            ('L', 'D', 'X') => Some(Instruction::LDX),
            ('L', 'D', 'Y') => Some(Instruction::LDY),
            ('S', 'T', 'A') => Some(Instruction::STA),
            ('S', 'T', 'X') => Some(Instruction::STX),
            ('S', 'T', 'Y') => Some(Instruction::STY),
            ('J', 'M', 'P') => Some(Instruction::JMP),
            ('J', 'S', 'R') => Some(Instruction::JSR),
            ('R', 'T', 'S') => Some(Instruction::RTS),
            ('B', 'R', 'K') => Some(Instruction::BRK),
            ('N', 'O', 'P') => Some(Instruction::NOP),
            ('B', 'I', 'T') => Some(Instruction::BIT),
            ('B', 'P', 'L') => Some(Instruction::BPL),
            ('C', 'L', 'C') => Some(Instruction::CLC),
            ('S', 'E', 'C') => Some(Instruction::SEC),
            ('B', 'E', 'Q') => Some(Instruction::BEQ),
            ('B', 'N', 'E') => Some(Instruction::BNE),
            ('A', 'D', 'C') => Some(Instruction::ADC),
            ('S', 'B', 'C') => Some(Instruction::SBC),
            ('C', 'M', 'P') => Some(Instruction::CMP),
            ('T', 'X', 'S') => Some(Instruction::TXS),
            ('A', 'N', 'D') => Some(Instruction::AND),
            ('A', 'S', 'L') => Some(Instruction::ASL),
            ('L', 'S', 'R') => Some(Instruction::LSR),
            ('O', 'R', 'A') => Some(Instruction::ORA),
            ('T', 'A', 'Y') => Some(Instruction::TAY),
            ('T', 'Y', 'A') => Some(Instruction::TYA),
            ('I', 'N', 'X') => Some(Instruction::INX),
            ('D', 'E', 'X') => Some(Instruction::DEX),
            ('C', 'P', 'X') => Some(Instruction::CPX),
            _ => None,
        };
        proof {
            match r {
                Some(i) => {
                    assert(mnemonic_text(i) =~= text@);
                },
                None => {
                    assert forall|i: Instruction| #[trigger] mnemonic_text(i) != text@ by {
                        if mnemonic_text(i) == text@ {
                            assert(text@[0] == mnemonic_text(i)[0] && text@[1] == mnemonic_text(i)[1] && text@[2]
                                == mnemonic_text(i)[2]);
                        }
                    }
                },
            }
        }
        r
    }
}



impl std::str::FromStr for Instruction {
    type Err = super::parser::ParseError;

    /// The instruction a mnemonic names, or `UnknownMnemonic` with the text.
    fn from_str(s: &str) -> (r: Result<Instruction, super::parser::ParseError>)
        ensures
            match mnemonic_instruction(s@) {
                Some(i) => r == Ok::<Instruction, super::parser::ParseError>(i),
                None => r matches Err(super::parser::ParseError::UnknownMnemonic(m)) && m@ == s@,
            },
    {
        let chars = crate::text::chars_of(s);
        match Instruction::from_mnemonic(chars.as_slice()) {
            Some(i) => Ok(i),
            None => Err(super::parser::ParseError::UnknownMnemonic(crate::text::string_of(chars.as_slice()))),
        }
    }
}

/// Whether an instruction sets the program counter itself rather than leaving it to advance past
/// the operand.
pub open spec fn spec_modifies_pc(i: Instruction) -> bool {
    i == Instruction::JMP || i == Instruction::JSR || i == Instruction::RTS || i == Instruction::BRK
        || i == Instruction::BPL || i == Instruction::BNE || i == Instruction::BEQ
}

/// An opcode's instruction, addressing mode, length in bytes and base cycle count.
#[derive(Debug, Clone, Copy, PartialEq, Eq, Structural)]
pub struct InstructionMetadata {
    pub opcode: u8,
    pub instruction: Instruction,
    pub addressing_mode: AddressingMode,
    pub bytes: u8,
    pub cycles: u8,
}

/// Metadata built from its parts.
pub open spec fn metadata(opcode: u8, instruction: Instruction, addressing_mode: AddressingMode, bytes: u8, cycles: u8) -> InstructionMetadata {
    InstructionMetadata { opcode, instruction, addressing_mode, bytes, cycles }
}

/// The opcode table: what each opcode decodes to.
pub open spec fn opcode_entry(opcode: u8) -> Option<InstructionMetadata> {
    match opcode {
        0xA9 => Some(metadata(0xA9, Instruction::LDA, AddressingMode::Immediate, 2, 2)),
        0xA5 => Some(metadata(0xA5, Instruction::LDA, AddressingMode::ZeroPage, 2, 3)),
        0xAD => Some(metadata(0xAD, Instruction::LDA, AddressingMode::Absolute, 3, 4)),
        0xA2 => Some(metadata(0xA2, Instruction::LDX, AddressingMode::Immediate, 2, 2)),
        0xA6 => Some(metadata(0xA6, Instruction::LDX, AddressingMode::ZeroPage, 2, 3)),
        0xAE => Some(metadata(0xAE, Instruction::LDX, AddressingMode::Absolute, 3, 4)),
        0xA0 => Some(metadata(0xA0, Instruction::LDY, AddressingMode::Immediate, 2, 2)),
        0xA4 => Some(metadata(0xA4, Instruction::LDY, AddressingMode::ZeroPage, 2, 3)),
        0xAC => Some(metadata(0xAC, Instruction::LDY, AddressingMode::Absolute, 3, 4)),
        0x85 => Some(metadata(0x85, Instruction::STA, AddressingMode::ZeroPage, 2, 3)),
        0x8D => Some(metadata(0x8D, Instruction::STA, AddressingMode::Absolute, 3, 4)),
        0x95 => Some(metadata(0x95, Instruction::STA, AddressingMode::ZeroPageX, 2, 4)),
        0x9D => Some(metadata(0x9D, Instruction::STA, AddressingMode::AbsoluteX, 3, 5)),
        0x99 => Some(metadata(0x99, Instruction::STA, AddressingMode::AbsoluteY, 3, 5)),
        0x86 => Some(metadata(0x86, Instruction::STX, AddressingMode::ZeroPage, 2, 3)),
        0x8E => Some(metadata(0x8E, Instruction::STX, AddressingMode::Absolute, 3, 4)),
        0x96 => Some(metadata(0x96, Instruction::STX, AddressingMode::ZeroPageY, 2, 4)),
        0x84 => Some(metadata(0x84, Instruction::STY, AddressingMode::ZeroPage, 2, 3)),
        0x8C => Some(metadata(0x8C, Instruction::STY, AddressingMode::Absolute, 3, 4)),
        0x94 => Some(metadata(0x94, Instruction::STY, AddressingMode::ZeroPageX, 2, 4)),
        0x4C => Some(metadata(0x4C, Instruction::JMP, AddressingMode::Absolute, 3, 3)),
        0x6C => Some(metadata(0x6C, Instruction::JMP, AddressingMode::Indirect, 3, 5)),
        0x20 => Some(metadata(0x20, Instruction::JSR, AddressingMode::Absolute, 3, 6)),
        0x60 => Some(metadata(0x60, Instruction::RTS, AddressingMode::Implied, 1, 6)),
        0x18 => Some(metadata(0x18, Instruction::CLC, AddressingMode::Implied, 1, 2)),
        0x38 => Some(metadata(0x38, Instruction::SEC, AddressingMode::Implied, 1, 2)),
        0x24 => Some(metadata(0x24, Instruction::BIT, AddressingMode::ZeroPage, 2, 3)),
        0x2C => Some(metadata(0x2C, Instruction::BIT, AddressingMode::Absolute, 3, 4)),
        0x10 => Some(metadata(0x10, Instruction::BPL, AddressingMode::Relative, 2, 2)),
        0xF0 => Some(metadata(0xF0, Instruction::BEQ, AddressingMode::Relative, 2, 2)),
        0xD0 => Some(metadata(0xD0, Instruction::BNE, AddressingMode::Relative, 2, 2)),
        0x69 => Some(metadata(0x69, Instruction::ADC, AddressingMode::Immediate, 2, 2)),
        0x65 => Some(metadata(0x65, Instruction::ADC, AddressingMode::ZeroPage, 2, 3)),
        0x6D => Some(metadata(0x6D, Instruction::ADC, AddressingMode::Absolute, 3, 4)),
        0xE9 => Some(metadata(0xE9, Instruction::SBC, AddressingMode::Immediate, 2, 2)),
        0xE5 => Some(metadata(0xE5, Instruction::SBC, AddressingMode::ZeroPage, 2, 3)),
        0xED => Some(metadata(0xED, Instruction::SBC, AddressingMode::Absolute, 3, 4)),
        0xC9 => Some(metadata(0xC9, Instruction::CMP, AddressingMode::Immediate, 2, 2)),
        0xC5 => Some(metadata(0xC5, Instruction::CMP, AddressingMode::ZeroPage, 2, 3)),
        0xCD => Some(metadata(0xCD, Instruction::CMP, AddressingMode::Absolute, 3, 4)),
        0x9A => Some(metadata(0x9A, Instruction::TXS, AddressingMode::Implied, 1, 2)),
        0xD5 => Some(metadata(0xD5, Instruction::CMP, AddressingMode::ZeroPageX, 2, 4)),
        0xDD => Some(metadata(0xDD, Instruction::CMP, AddressingMode::AbsoluteX, 3, 4)),
        0xD9 => Some(metadata(0xD9, Instruction::CMP, AddressingMode::AbsoluteY, 3, 4)),
        0x29 => Some(metadata(0x29, Instruction::AND, AddressingMode::Immediate, 2, 2)),
        0x25 => Some(metadata(0x25, Instruction::AND, AddressingMode::ZeroPage, 2, 3)),
        0x35 => Some(metadata(0x35, Instruction::AND, AddressingMode::ZeroPageX, 2, 4)),
        0x2D => Some(metadata(0x2D, Instruction::AND, AddressingMode::Absolute, 3, 4)),
        0x3D => Some(metadata(0x3D, Instruction::AND, AddressingMode::AbsoluteX, 3, 4)),
        0x39 => Some(metadata(0x39, Instruction::AND, AddressingMode::AbsoluteY, 3, 4)),
        0x09 => Some(metadata(0x09, Instruction::ORA, AddressingMode::Immediate, 2, 2)),
        0x05 => Some(metadata(0x05, Instruction::ORA, AddressingMode::ZeroPage, 2, 3)),
        0x15 => Some(metadata(0x15, Instruction::ORA, AddressingMode::ZeroPageX, 2, 4)),
        0x0D => Some(metadata(0x0D, Instruction::ORA, AddressingMode::Absolute, 3, 4)),
        0x1D => Some(metadata(0x1D, Instruction::ORA, AddressingMode::AbsoluteX, 3, 4)),
        0x19 => Some(metadata(0x19, Instruction::ORA, AddressingMode::AbsoluteY, 3, 4)),
        0x0A => Some(metadata(0x0A, Instruction::ASL, AddressingMode::Accumulator, 1, 2)),
        0x06 => Some(metadata(0x06, Instruction::ASL, AddressingMode::ZeroPage, 2, 5)),
        0x0E => Some(metadata(0x0E, Instruction::ASL, AddressingMode::Absolute, 3, 6)),
        0x4A => Some(metadata(0x4A, Instruction::LSR, AddressingMode::Accumulator, 1, 2)),
        0x46 => Some(metadata(0x46, Instruction::LSR, AddressingMode::ZeroPage, 2, 5)),
        0x4E => Some(metadata(0x4E, Instruction::LSR, AddressingMode::Absolute, 3, 6)),
        0xA8 => Some(metadata(0xA8, Instruction::TAY, AddressingMode::Implied, 1, 2)),
        0x98 => Some(metadata(0x98, Instruction::TYA, AddressingMode::Implied, 1, 2)),
        0xE8 => Some(metadata(0xE8, Instruction::INX, AddressingMode::Implied, 1, 2)),
        0xCA => Some(metadata(0xCA, Instruction::DEX, AddressingMode::Implied, 1, 2)),
        0xE0 => Some(metadata(0xE0, Instruction::CPX, AddressingMode::Immediate, 2, 2)),
        0xE4 => Some(metadata(0xE4, Instruction::CPX, AddressingMode::ZeroPage, 2, 3)),
        0x00 => Some(metadata(0x00, Instruction::BRK, AddressingMode::Implied, 1, 7)),
        0xEA => Some(metadata(0xEA, Instruction::NOP, AddressingMode::Implied, 1, 2)),
        _ => None,
    }
}

/// The instruction decoder: a 256-entry table from opcode to metadata.
#[derive(Debug)]
pub struct InstructionDecoder {
    pub instruction_table: Vec<Option<InstructionMetadata>>,
}

/// Whether `op` is the first opcode the table gives `instruction` in `mode`.
pub open spec fn first_form(op: u8, instruction: Instruction, mode: AddressingMode) -> bool {
    &&& opcode_entry(op) matches Some(e) && e.instruction == instruction && e.addressing_mode == mode
    &&& forall|o: u8| o < op ==> !(#[trigger] opcode_entry(o) matches Some(e) && e.instruction == instruction
        && e.addressing_mode == mode)
}

/// The metadata the decoder's lookup finds for `instruction` in `mode`: the table's first entry
/// for the pair, if it has one.
pub open spec fn form_entry(instruction: Instruction, mode: AddressingMode) -> Option<InstructionMetadata> {
    if exists|op: u8| #[trigger] first_form(op, instruction, mode) {
        opcode_entry(choose|op: u8| #[trigger] first_form(op, instruction, mode))
    } else {
        None
    }
}

/// Two first entries for the same pair are one and the same.
pub proof fn lemma_first_form_unique(a: u8, b: u8, instruction: Instruction, mode: AddressingMode)
    requires
        first_form(a, instruction, mode),
        first_form(b, instruction, mode),
    ensures
        a == b,
{
    if a < b {
        assert(opcode_entry(a) matches Some(e) && e.instruction == instruction && e.addressing_mode == mode);
    } else if b < a {
        assert(opcode_entry(b) matches Some(e) && e.instruction == instruction && e.addressing_mode == mode);
    }
}

impl InstructionDecoder {
    /// The table holds exactly the opcode table.
    pub open spec fn wf(&self) -> bool {
        &&& self.instruction_table@.len() == 256
        &&& forall|i: int| 0 <= i < 256 ==> #[trigger] self.instruction_table@[i] == opcode_entry(i as u8)
    }

    /// A decoder with the full opcode table.
    pub fn new() -> (d: Self)
        ensures
            d.wf(),
            forall|i: int|
                0 <= i < 256 ==> (#[trigger] d.instruction_table@[i] matches Some(m) ==> m.opcode == i && m.bytes as u16
                    == mode_size(m.addressing_mode)),
            forall|i: int, j: int|
                0 <= i < 256 && 0 <= j < 256 && #[trigger] d.instruction_table@[i] is Some
                    && #[trigger] d.instruction_table@[j] is Some && d.instruction_table@[i]->0.instruction
                    == d.instruction_table@[j]->0.instruction && d.instruction_table@[i]->0.addressing_mode
                    == d.instruction_table@[j]->0.addressing_mode ==> i == j,
    {
        let mut table: Vec<Option<InstructionMetadata>> = Vec::new();
        let mut i: usize = 0;
        while i < 256
            invariant
                i <= 256,
                table@.len() == i,
                forall|j: int| 0 <= j < i ==> table@[j] is None,
            decreases 256 - i,
        {
            table.push(None);
            i += 1;
        }
        let mut decoder = InstructionDecoder { instruction_table: table };
        decoder.populate_instruction_table();
        proof {
            assert forall|i: int|
                0 <= i < 256 implies (#[trigger] decoder.instruction_table@[i] matches Some(m) ==> m.opcode == i
                && m.bytes as u16 == mode_size(m.addressing_mode)) by {
                lemma_opcode_entry_bounds(i as u8);
                lemma_opcode_entry_size(i as u8);
            }
            assert forall|i: int, j: int|
                0 <= i < 256 && 0 <= j < 256 && #[trigger] decoder.instruction_table@[i] is Some
                    && #[trigger] decoder.instruction_table@[j] is Some && decoder.instruction_table@[i]->0.instruction
                    == decoder.instruction_table@[j]->0.instruction && decoder.instruction_table@[i]->0.addressing_mode
                    == decoder.instruction_table@[j]->0.addressing_mode implies i == j by {
                lemma_opcode_entries_distinct(i as u8, j as u8);
            }
        }
        decoder
    }

    /// Fill the table with every instruction this CPU implements.
    #[verifier::rlimit(60)]
    fn populate_instruction_table(&mut self)
        requires
            old(self).instruction_table@.len() == 256,
            forall|j: int| 0 <= j < 256 ==> old(self).instruction_table@[j] is None,
        ensures
            final(self).wf(),
    {
        self.add_instruction(0xA9, Instruction::LDA, AddressingMode::Immediate, 2, 2);
        self.add_instruction(0xA5, Instruction::LDA, AddressingMode::ZeroPage, 2, 3);
        self.add_instruction(0xAD, Instruction::LDA, AddressingMode::Absolute, 3, 4);
        self.add_instruction(0xA2, Instruction::LDX, AddressingMode::Immediate, 2, 2);
        self.add_instruction(0xA6, Instruction::LDX, AddressingMode::ZeroPage, 2, 3);
        self.add_instruction(0xAE, Instruction::LDX, AddressingMode::Absolute, 3, 4);
        self.add_instruction(0xA0, Instruction::LDY, AddressingMode::Immediate, 2, 2);
        self.add_instruction(0xA4, Instruction::LDY, AddressingMode::ZeroPage, 2, 3);
        self.add_instruction(0xAC, Instruction::LDY, AddressingMode::Absolute, 3, 4);
        self.add_instruction(0x85, Instruction::STA, AddressingMode::ZeroPage, 2, 3);
        self.add_instruction(0x8D, Instruction::STA, AddressingMode::Absolute, 3, 4);
        self.add_instruction(0x95, Instruction::STA, AddressingMode::ZeroPageX, 2, 4);
        self.add_instruction(0x9D, Instruction::STA, AddressingMode::AbsoluteX, 3, 5);
        self.add_instruction(0x99, Instruction::STA, AddressingMode::AbsoluteY, 3, 5);
        self.add_instruction(0x86, Instruction::STX, AddressingMode::ZeroPage, 2, 3);
        self.add_instruction(0x8E, Instruction::STX, AddressingMode::Absolute, 3, 4);
        self.add_instruction(0x96, Instruction::STX, AddressingMode::ZeroPageY, 2, 4);
        self.add_instruction(0x84, Instruction::STY, AddressingMode::ZeroPage, 2, 3);
        self.add_instruction(0x8C, Instruction::STY, AddressingMode::Absolute, 3, 4);
        self.add_instruction(0x94, Instruction::STY, AddressingMode::ZeroPageX, 2, 4);
        self.add_instruction(0x4C, Instruction::JMP, AddressingMode::Absolute, 3, 3);
        self.add_instruction(0x6C, Instruction::JMP, AddressingMode::Indirect, 3, 5);
        self.add_instruction(0x20, Instruction::JSR, AddressingMode::Absolute, 3, 6);
        self.add_instruction(0x60, Instruction::RTS, AddressingMode::Implied, 1, 6);
        self.add_instruction(0x18, Instruction::CLC, AddressingMode::Implied, 1, 2);
        self.add_instruction(0x38, Instruction::SEC, AddressingMode::Implied, 1, 2);
        self.add_instruction(0x24, Instruction::BIT, AddressingMode::ZeroPage, 2, 3);
        self.add_instruction(0x2C, Instruction::BIT, AddressingMode::Absolute, 3, 4);
        self.add_instruction(0x10, Instruction::BPL, AddressingMode::Relative, 2, 2);
        self.add_instruction(0xF0, Instruction::BEQ, AddressingMode::Relative, 2, 2);
        self.add_instruction(0xD0, Instruction::BNE, AddressingMode::Relative, 2, 2);
        self.add_instruction(0x69, Instruction::ADC, AddressingMode::Immediate, 2, 2);
        self.add_instruction(0x65, Instruction::ADC, AddressingMode::ZeroPage, 2, 3);
        self.add_instruction(0x6D, Instruction::ADC, AddressingMode::Absolute, 3, 4);
        self.add_instruction(0xE9, Instruction::SBC, AddressingMode::Immediate, 2, 2);
        self.add_instruction(0xE5, Instruction::SBC, AddressingMode::ZeroPage, 2, 3);
        self.add_instruction(0xED, Instruction::SBC, AddressingMode::Absolute, 3, 4);
        self.add_instruction(0xC9, Instruction::CMP, AddressingMode::Immediate, 2, 2);
        self.add_instruction(0xC5, Instruction::CMP, AddressingMode::ZeroPage, 2, 3);
        self.add_instruction(0xCD, Instruction::CMP, AddressingMode::Absolute, 3, 4);
        self.add_instruction(0x9A, Instruction::TXS, AddressingMode::Implied, 1, 2);
        self.add_instruction(0xD5, Instruction::CMP, AddressingMode::ZeroPageX, 2, 4);
        self.add_instruction(0xDD, Instruction::CMP, AddressingMode::AbsoluteX, 3, 4);
        self.add_instruction(0xD9, Instruction::CMP, AddressingMode::AbsoluteY, 3, 4);
        self.add_instruction(0x29, Instruction::AND, AddressingMode::Immediate, 2, 2);
        self.add_instruction(0x25, Instruction::AND, AddressingMode::ZeroPage, 2, 3);
        self.add_instruction(0x35, Instruction::AND, AddressingMode::ZeroPageX, 2, 4);
        self.add_instruction(0x2D, Instruction::AND, AddressingMode::Absolute, 3, 4);
        self.add_instruction(0x3D, Instruction::AND, AddressingMode::AbsoluteX, 3, 4);
        self.add_instruction(0x39, Instruction::AND, AddressingMode::AbsoluteY, 3, 4);
        self.add_instruction(0x09, Instruction::ORA, AddressingMode::Immediate, 2, 2);
        self.add_instruction(0x05, Instruction::ORA, AddressingMode::ZeroPage, 2, 3);
        self.add_instruction(0x15, Instruction::ORA, AddressingMode::ZeroPageX, 2, 4);
        self.add_instruction(0x0D, Instruction::ORA, AddressingMode::Absolute, 3, 4);
        self.add_instruction(0x1D, Instruction::ORA, AddressingMode::AbsoluteX, 3, 4);
        self.add_instruction(0x19, Instruction::ORA, AddressingMode::AbsoluteY, 3, 4);
        self.add_instruction(0x0A, Instruction::ASL, AddressingMode::Accumulator, 1, 2);
        self.add_instruction(0x06, Instruction::ASL, AddressingMode::ZeroPage, 2, 5);
        self.add_instruction(0x0E, Instruction::ASL, AddressingMode::Absolute, 3, 6);
        self.add_instruction(0x4A, Instruction::LSR, AddressingMode::Accumulator, 1, 2);
        self.add_instruction(0x46, Instruction::LSR, AddressingMode::ZeroPage, 2, 5);
        self.add_instruction(0x4E, Instruction::LSR, AddressingMode::Absolute, 3, 6);
        self.add_instruction(0xA8, Instruction::TAY, AddressingMode::Implied, 1, 2);
        self.add_instruction(0x98, Instruction::TYA, AddressingMode::Implied, 1, 2);
        self.add_instruction(0xE8, Instruction::INX, AddressingMode::Implied, 1, 2);
        self.add_instruction(0xCA, Instruction::DEX, AddressingMode::Implied, 1, 2);
        self.add_instruction(0xE0, Instruction::CPX, AddressingMode::Immediate, 2, 2);
        self.add_instruction(0xE4, Instruction::CPX, AddressingMode::ZeroPage, 2, 3);
        self.add_instruction(0x00, Instruction::BRK, AddressingMode::Implied, 1, 7);
        self.add_instruction(0xEA, Instruction::NOP, AddressingMode::Implied, 1, 2);
        assert forall|i: int| 0 <= i < 256 implies #[trigger] self.instruction_table@[i] == opcode_entry(i as u8) by {
            assert(0 <= i < 256);
        }
    }

    /// Record one opcode.
    fn add_instruction(
        &mut self,
        opcode: u8,
        instruction: Instruction,
        addressing_mode: AddressingMode,
        bytes: u8,
        cycles: u8,
    )
        requires
            old(self).instruction_table@.len() == 256,
        ensures
            final(self).instruction_table@ == old(self).instruction_table@.update(
                opcode as int,
                Some(metadata(opcode, instruction, addressing_mode, bytes, cycles)),
            ),
    {
        let metadata = InstructionMetadata { opcode, instruction, addressing_mode, bytes, cycles };
        self.instruction_table.set(opcode as usize, Some(metadata));
    }

    /// Decode an opcode.
    pub fn decode(&self, opcode: u8) -> (r: Result<InstructionMetadata, InstructionDecoderError>)
        requires
            self.wf(),
        ensures
            r == (match opcode_entry(opcode) {
                Some(m) => Ok(m),
                None => Err(InstructionDecoderError::InvalidOpcode(opcode)),
            }),
    {
        match self.instruction_table[opcode as usize] {
            Some(m) => Ok(m),
            None => Err(InstructionDecoderError::InvalidOpcode(opcode)),
        }
    }

    /// Find the opcode for an instruction in an addressing mode.
    pub fn lookup(&self, instruction: Instruction, addressing_mode: AddressingMode) -> (r: Result<
        InstructionMetadata,
        InstructionDecoderError,
    >)
        requires
            self.wf(),
        ensures
            r matches Ok(m) ==> m.instruction == instruction && m.addressing_mode == addressing_mode
                && opcode_entry(m.opcode) == Some(m) && forall|o: u8| o < m.opcode ==> !(#[trigger] opcode_entry(o)
                matches Some(e) && e.instruction == instruction && e.addressing_mode == addressing_mode),
            r matches Ok(m) ==> form_entry(instruction, addressing_mode) == Some(m),
            r is Err ==> form_entry(instruction, addressing_mode) is None,
            r is Err ==> r == Err::<InstructionMetadata, InstructionDecoderError>(
                InstructionDecoderError::UnimplementedAddressingMode(instruction, addressing_mode),
            ) && forall|op: u8| !(#[trigger] opcode_entry(op) matches Some(e) && e.instruction == instruction
                && e.addressing_mode == addressing_mode),
    {
        let mut op: usize = 0;
        while op < 256
            invariant
                self.wf(),
                op <= 256,
                forall|o: u8| o < op ==> !(#[trigger] opcode_entry(o) matches Some(e) && e.instruction == instruction
                    && e.addressing_mode == addressing_mode),
            decreases 256 - op,
        {
            match self.instruction_table[op] {
                Some(m) => {
                    if m.instruction == instruction && m.addressing_mode == addressing_mode {
                        assert(opcode_entry(op as u8) == Some(m));
                        assert(m.opcode == op as u8);
                        proof {
                            assert(first_form(m.opcode, instruction, addressing_mode));
                            let c = choose|o: u8| #[trigger] first_form(o, instruction, addressing_mode);
                            lemma_first_form_unique(c, m.opcode, instruction, addressing_mode);
                        }
                        return Ok(m);
                    }
                },
                None => {},
            }
            assert(self.instruction_table@[op as int] == opcode_entry(op as u8));
            op += 1;
        }
        proof {
            assert forall|o: u8| !(#[trigger] first_form(o, instruction, addressing_mode)) by {
                assert(o < op);
            }
        }
        Err(InstructionDecoderError::UnimplementedAddressingMode(instruction, addressing_mode))
    }
}


/// `regs` with the program counter moved `step` bytes on.
pub open spec fn advance(regs: CpuRegisters, step: int) -> CpuRegisters {
    CpuRegisters { pc: wrap16(regs.pc + step), ..regs }
}

/// The registers after adding `v` and the carry to the accumulator: Carry out of bit 7,
/// Overflow when two operands of one sign give a result of the other, Zero and Negative from
/// the result.
pub open spec fn adc_registers(regs: CpuRegisters, v: u8) -> CpuRegisters {
    let carry_in: int = if regs.status & 0x01 != 0 { 1 } else { 0 };
    let sum = regs.a + v + carry_in;
    let res = wrap8(sum);
    let overflow = (regs.a ^ v) & 0x80 == 0 && (regs.a ^ res) & 0x80 != 0;
    CpuRegisters {
        a: res,
        status: with_nz(set_bits(set_bits(regs.status, 0x01, sum > 0xFF), 0x40, overflow), res),
        ..regs
    }
}

/// The registers after comparing `reg` with `v`: Carry when `reg >= v`, Zero when equal,
/// Negative from bit 7 of the difference.
pub open spec fn compare_registers(regs: CpuRegisters, reg: u8, v: u8) -> CpuRegisters {
    CpuRegisters {
        status: set_bits(set_bits(set_bits(regs.status, 0x01, reg >= v), 0x02, reg == v), 0x80, wrap8(reg - v) & 0x80 != 0),
        ..regs
    }
}

/// The registers after `instruction` has taken the operand byte `v`.
pub open spec fn with_operand(instruction: Instruction, regs: CpuRegisters, v: u8) -> CpuRegisters {
    match instruction {
        Instruction::LDA => CpuRegisters { a: v, status: with_nz(regs.status, v), ..regs },
        Instruction::LDX => CpuRegisters { x: v, status: with_nz(regs.status, v), ..regs },
        Instruction::LDY => CpuRegisters { y: v, status: with_nz(regs.status, v), ..regs },
        Instruction::AND => CpuRegisters { a: regs.a & v, status: with_nz(regs.status, regs.a & v), ..regs },
        Instruction::ORA => CpuRegisters { a: regs.a | v, status: with_nz(regs.status, regs.a | v), ..regs },
        Instruction::ADC => adc_registers(regs, v),
        Instruction::SBC => adc_registers(regs, v ^ 0xFF),
        Instruction::CMP => compare_registers(regs, regs.a, v),
        Instruction::CPX => compare_registers(regs, regs.x, v),
        Instruction::BIT => CpuRegisters {
            status: set_bits(set_bits(set_bits(regs.status, 0x02, regs.a & v == 0), 0x80, v & 0x80 != 0), 0x40, v & 0x40 != 0),
            ..regs
        },
        Instruction::ASL => CpuRegisters {
            a: wrap8(v * 2),
            status: with_nz(set_bits(regs.status, 0x01, v & 0x80 != 0), wrap8(v * 2)),
            ..regs
        },
        Instruction::LSR => CpuRegisters {
            a: v / 2,
            status: set_bits(set_bits(set_bits(regs.status, 0x01, v & 0x01 != 0), 0x02, v / 2 == 0), 0x80, false),
            ..regs
        },
        _ => regs,
    }
}

/// The registers after an instruction that takes no operand.
pub open spec fn implied_registers(instruction: Instruction, regs: CpuRegisters) -> CpuRegisters {
    match instruction {
        Instruction::CLC => CpuRegisters { status: set_bits(regs.status, 0x01, false), ..regs },
        Instruction::SEC => CpuRegisters { status: set_bits(regs.status, 0x01, true), ..regs },
        Instruction::TXS => CpuRegisters { sp: regs.x, ..regs },
        Instruction::TAY => CpuRegisters { y: regs.a, status: with_nz(regs.status, regs.a), ..regs },
        Instruction::TYA => CpuRegisters { a: regs.y, status: with_nz(regs.status, regs.y), ..regs },
        Instruction::INX => CpuRegisters { x: wrap8(regs.x + 1), status: with_nz(regs.status, wrap8(regs.x + 1)), ..regs },
        Instruction::DEX => CpuRegisters { x: wrap8(regs.x - 1), status: with_nz(regs.status, wrap8(regs.x - 1)), ..regs },
        _ => regs,
    }
}

/// The byte a shift works on: the accumulator, or the operand in memory.
pub open spec fn shift_source<M: Addressable>(mode: AddressingMode, cpu: &Cpu<M>) -> Result<u8, NesError> {
    if mode == AddressingMode::Accumulator {
        Ok(cpu.registers.a)
    } else {
        operand_value(mode, cpu)
    }
}

/// Where a taken branch goes: the signed `offset` from the byte after it.
pub open spec fn branch_target(pc: u16, offset: u8) -> u16 {
    wrap16(pc + 1 + (if offset < 128 { offset as int } else { offset - 256 }))
}

/// A unit result as the number of extra cycles it took: none.
pub open spec fn unit_cycles(r: Result<(), NesError>) -> Result<u8, NesError> {
    match r {
        Ok(_) => Ok(0),
        Err(e) => Err(e),
    }
}

/// An instruction that reads the byte `src` and sets registers from it: memory reads as it did,
/// and the program counter moves `step` on once the instruction succeeds.
pub open spec fn read_outcome<M: Addressable>(
    before: &Cpu<M>,
    after: &Cpu<M>,
    instruction: Instruction,
    src: Result<u8, NesError>,
    r: Result<u8, NesError>,
    step: int,
) -> bool {
    &&& Cpu::memory_unchanged(before, after)
    &&& match src {
        Ok(v) => r == Ok::<u8, NesError>(0) && after.registers == advance(with_operand(instruction, before.registers, v), step),
        Err(e) => r == Err::<u8, NesError>(e) && after.registers == before.registers,
    }
}

/// The byte a shift leaves: ASL doubles it, LSR halves it.
pub open spec fn shifted_byte(i: Instruction, v: u8) -> u8 {
    if i == Instruction::ASL { wrap8(v * 2) } else { v / 2 }
}

/// ASL or LSR: on the accumulator, it is shifted in place; on memory, the byte at the operand
/// address is read, shifted and written back, the accumulator stays as it was, and Carry, Zero
/// and Negative are set from the shift.
pub open spec fn shift_outcome<M: Addressable>(
    before: &Cpu<M>,
    after: &Cpu<M>,
    instruction: Instruction,
    mode: AddressingMode,
    r: Result<u8, NesError>,
    step: int,
) -> bool {
    if mode == AddressingMode::Accumulator {
        read_outcome(before, after, instruction, Ok::<u8, NesError>(before.registers.a), r, step)
    } else {
        match operand_address(mode, before) {
            Err(e) => r == Err::<u8, NesError>(e) && after.registers == before.registers && Cpu::memory_unchanged(
                before,
                after,
            ),
            Ok(a) => match before.mem_read(a) {
                Err(e) => r == Err::<u8, NesError>(e) && after.registers == before.registers
                    && Cpu::memory_unchanged(before, after),
                Ok(v) => {
                    &&& Cpu::memory_written(before, after, a, shifted_byte(instruction, v))
                    &&& (before.mem_handles(a) ==> r is Ok)
                    &&& (r is Ok ==> r == Ok::<u8, NesError>(0) && after.registers == advance(
                        CpuRegisters { a: before.registers.a, ..with_operand(instruction, before.registers, v) },
                        step,
                    ))
                    &&& (r is Err ==> after.registers == before.registers)
                },
            },
        }
    }
}

/// An instruction that stores `value` at its operand address.
pub open spec fn store_outcome<M: Addressable>(
    before: &Cpu<M>,
    after: &Cpu<M>,
    mode: AddressingMode,
    value: u8,
    r: Result<u8, NesError>,
    step: int,
) -> bool {
    match operand_address(mode, before) {
        Ok(a) => {
            &&& Cpu::memory_written(before, after, a, value)
            &&& (before.mem_handles(a) ==> r is Ok)
            &&& (r is Ok ==> r == Ok::<u8, NesError>(0) && after.registers == advance(before.registers, step))
            &&& (r is Err ==> after.registers == before.registers)
        },
        Err(e) => {
            &&& r == Err::<u8, NesError>(e)
            &&& after.registers == before.registers
            &&& Cpu::memory_unchanged(before, after)
        },
    }
}

/// An instruction that takes no operand.
pub open spec fn implied_outcome<M: Addressable>(
    before: &Cpu<M>,
    after: &Cpu<M>,
    instruction: Instruction,
    r: Result<u8, NesError>,
    step: int,
) -> bool {
    &&& Cpu::memory_unchanged(before, after)
    &&& r == Ok::<u8, NesError>(0)
    &&& after.registers == advance(implied_registers(instruction, before.registers), step)
}

/// JMP: the program counter takes the operand address.
pub open spec fn jump_outcome<M: Addressable>(before: &Cpu<M>, after: &Cpu<M>, mode: AddressingMode, r: Result<u8, NesError>) -> bool {
    &&& Cpu::memory_unchanged(before, after)
    &&& match operand_address(mode, before) {
        Ok(t) => r == Ok::<u8, NesError>(0) && after.registers == CpuRegisters { pc: t, ..before.registers },
        Err(e) => r == Err::<u8, NesError>(e) && after.registers == before.registers,
    }
}

/// JSR: the address of the operand's last byte is pushed and the program counter takes the
/// operand address.
pub open spec fn call_outcome<M: Addressable>(before: &Cpu<M>, after: &Cpu<M>, mode: AddressingMode, r: Result<u8, NesError>) -> bool {
    let sp = before.registers.sp;
    match operand_address(mode, before) {
        Ok(t) => {
            &&& (before.mem_handles(stack_address(sp)) && before.mem_handles(stack_address(wrap8(sp - 1))) ==> r is Ok)
            &&& (r is Ok ==> r == Ok::<u8, NesError>(0)
                && after.registers == CpuRegisters { pc: t, sp: wrap8(sp - 2), ..before.registers }
                && memory_after_push_word(before.memory, after.memory, sp, (before.registers.pc + 1) as u16))
        },
        Err(e) => {
            &&& r == Err::<u8, NesError>(e)
            &&& after.registers == before.registers
            &&& Cpu::memory_unchanged(before, after)
        },
    }
}

/// The word that popping two bytes would return, the stack pointer at `sp`.
pub open spec fn stacked_word<M: Addressable>(cpu: &Cpu<M>, sp: u8) -> Result<u16, NesError> {
    word_from(cpu.mem_read(stack_address(wrap8(sp + 1))), cpu.mem_read(stack_address(wrap8(sp + 2))))
}

/// RTS: pop the return address and continue after it.
pub open spec fn return_outcome<M: Addressable>(before: &Cpu<M>, after: &Cpu<M>, r: Result<u8, NesError>) -> bool {
    &&& Cpu::memory_unchanged(before, after)
    &&& match stacked_word(before, before.registers.sp) {
        Ok(w) => r == Ok::<u8, NesError>(0) && after.registers == CpuRegisters {
            pc: wrap16(w + 1),
            sp: wrap8(before.registers.sp + 2),
            ..before.registers
        },
        Err(e) => r == Err::<u8, NesError>(e),
    }
}

/// Whether the three stack bytes below and at `sp` are all answered by memory.
pub open spec fn frame_answered<M: Addressable>(cpu: &Cpu<M>, sp: u8) -> bool {
    &&& cpu.mem_handles(stack_address(sp))
    &&& cpu.mem_handles(stack_address(wrap8(sp - 1)))
    &&& cpu.mem_handles(stack_address(wrap8(sp - 2)))
}

/// An interrupt sequence: push `return_to` and `pushed_status`, set InterruptDisable, and jump
/// through `vector`.
pub open spec fn interrupt_outcome<M: Addressable>(
    before: &Cpu<M>,
    after: &Cpu<M>,
    return_to: u16,
    pushed_status: u8,
    vector: u16,
    r: Result<u8, NesError>,
    cycles: u8,
) -> bool {
    let sp = before.registers.sp;
    &&& (frame_answered(before, sp) ==> match before.mem_word(vector) {
        Ok(_) => r is Ok,
        Err(e) => r == Err::<u8, NesError>(e),
    })
    &&& (r is Ok ==> r == Ok::<u8, NesError>(cycles)
        && before.mem_word(vector) is Ok
        && after.registers == CpuRegisters {
            pc: before.mem_word(vector)->Ok_0,
            sp: wrap8(sp - 3),
            status: set_bits(before.registers.status, 0x04, true),
            ..before.registers
        }
        && memory_after_push_frame(before.memory, after.memory, sp, return_to, pushed_status))
}

/// A conditional branch: when `taken`, the program counter goes to the target named by the
/// offset byte, taking one extra cycle and one more for a new page; otherwise it skips the offset.
pub open spec fn branch_outcome<M: Addressable>(before: &Cpu<M>, after: &Cpu<M>, taken: bool, r: Result<u8, NesError>) -> bool {
    let pc = before.registers.pc;
    &&& Cpu::memory_unchanged(before, after)
    &&& if taken {
        match before.mem_read(pc) {
            Ok(offset) => {
                let t = branch_target(pc, offset);
                &&& r == Ok::<u8, NesError>(if pc / 256 != t / 256 { 2u8 } else { 1u8 })
                &&& after.registers == CpuRegisters { pc: t, ..before.registers }
            },
            Err(e) => r == Err::<u8, NesError>(e) && after.registers == before.registers,
        }
    } else {
        r == Ok::<u8, NesError>(0) && after.registers == CpuRegisters { pc: wrap16(pc + 1), ..before.registers }
    }
}

/// What executing `meta` does, the program counter pointing past its opcode: the extra cycles
/// it reports, and the registers and memory it leaves.
pub open spec fn executed<M: Addressable>(before: &Cpu<M>, after: &Cpu<M>, meta: InstructionMetadata, r: Result<u8, NesError>) -> bool {
    let i = meta.instruction;
    let mode = meta.addressing_mode;
    let step = meta.bytes - 1;
    let status = before.registers.status;
    match i {
        Instruction::LDA | Instruction::LDX | Instruction::LDY | Instruction::AND | Instruction::ORA | Instruction::ADC
        | Instruction::SBC | Instruction::CMP | Instruction::CPX | Instruction::BIT => read_outcome(
            before,
            after,
            i,
            operand_value(mode, before),
            r,
            step,
        ),
        Instruction::ASL | Instruction::LSR => shift_outcome(before, after, i, mode, r, step),
        Instruction::STA => store_outcome(before, after, mode, before.registers.a, r, step),
        Instruction::STX => store_outcome(before, after, mode, before.registers.x, r, step),
        Instruction::STY => store_outcome(before, after, mode, before.registers.y, r, step),
        Instruction::JMP => jump_outcome(before, after, mode, r),
        Instruction::JSR => call_outcome(before, after, mode, r),
        Instruction::RTS => return_outcome(before, after, r),
        Instruction::BRK => interrupt_outcome(before, after, wrap16(before.registers.pc + 1), status | 0x30, IRQ_VECTOR, r, 0),
        Instruction::BPL => branch_outcome(before, after, status & 0x80 == 0, r),
        Instruction::BEQ => branch_outcome(before, after, status & 0x02 != 0, r),
        Instruction::BNE => branch_outcome(before, after, status & 0x02 == 0, r),
        _ => implied_outcome(before, after, i, r, step),
    }
}



/// Moving the program counter on after an instruction that read its operand gives the outcome
/// with that step.
proof fn lemma_read_outcome_step<M: Addressable>(
    before: &Cpu<M>,
    mid: &Cpu<M>,
    after: &Cpu<M>,
    i: Instruction,
    src: Result<u8, NesError>,
    step: int,
)
    requires
        read_outcome(before, mid, i, src, Ok(0), 0),
        after.memory == mid.memory,
        after.registers == advance(mid.registers, step),
    ensures
        read_outcome(before, after, i, src, Ok(0), step),
{
    let v = src->Ok_0;
    let w = with_operand(i, before.registers, v);
    assert(advance(w, 0).pc == w.pc);
}

/// Moving the program counter on after a shift gives the outcome with that step.
proof fn lemma_shift_outcome_step<M: Addressable>(
    before: &Cpu<M>,
    mid: &Cpu<M>,
    after: &Cpu<M>,
    i: Instruction,
    mode: AddressingMode,
    step: int,
)
    requires
        shift_outcome(before, mid, i, mode, Ok(0), 0),
        after.memory == mid.memory,
        after.registers == advance(mid.registers, step),
    ensures
        shift_outcome(before, after, i, mode, Ok(0), step),
{
    if mode == AddressingMode::Accumulator {
        lemma_read_outcome_step(before, mid, after, i, Ok::<u8, NesError>(before.registers.a), step);
    } else {
        let a = operand_address(mode, before)->Ok_0;
        let v = before.mem_read(a)->Ok_0;
        let w = CpuRegisters { a: before.registers.a, ..with_operand(i, before.registers, v) };
        assert(advance(w, 0).pc == w.pc);
    }
}

/// Moving the program counter on after a store gives the outcome with that step.
proof fn lemma_store_outcome_step<M: Addressable>(
    before: &Cpu<M>,
    mid: &Cpu<M>,
    after: &Cpu<M>,
    mode: AddressingMode,
    value: u8,
    step: int,
)
    requires
        store_outcome(before, mid, mode, value, Ok(0), 0),
        after.memory == mid.memory,
        after.registers == advance(mid.registers, step),
    ensures
        store_outcome(before, after, mode, value, Ok(0), step),
{
    assert(advance(before.registers, 0).pc == before.registers.pc);
}

/// Moving the program counter on after an instruction with no operand gives the outcome with
/// that step.
proof fn lemma_implied_outcome_step<M: Addressable>(
    before: &Cpu<M>,
    mid: &Cpu<M>,
    after: &Cpu<M>,
    i: Instruction,
    step: int,
)
    requires
        implied_outcome(before, mid, i, Ok(0), 0),
        after.memory == mid.memory,
        after.registers == advance(mid.registers, step),
    ensures
        implied_outcome(before, after, i, Ok(0), step),
{
    let w = implied_registers(i, before.registers);
    assert(advance(w, 0).pc == w.pc);
}


/// Two states with the same registers, whose memories read and answer alike, execute alike:
/// what an instruction does depends on memory only through what it reads.
pub(crate) proof fn lemma_executed_same_reads<M: Addressable>(
    b1: &Cpu<M>,
    b2: &Cpu<M>,
    after: &Cpu<M>,
    meta: InstructionMetadata,
    r: Result<u8, NesError>,
)
    requires
        b1.registers == b2.registers,
        b2.storage(),
        crate::cpu::memory_same(b2.memory, b1.memory),
        executed(b2, after, meta, r),
    ensures
        executed(b1, after, meta, r),
{
    let mode = meta.addressing_mode;
    let pc = b1.registers.pc;
    let sp = b1.registers.sp;
    assert(b1.mem_read(pc) == b2.mem_read(pc));
    assert(b1.mem_read(crate::memory::next_address(pc)) == b2.mem_read(crate::memory::next_address(pc)));
    assert(b1.mem_word(pc) == b2.mem_word(pc));
    if b1.mem_word(pc) is Ok {
        let ptr = b1.mem_word(pc)->Ok_0;
        assert(b1.mem_read(ptr) == b2.mem_read(ptr));
        assert(b1.mem_read(crate::memory::next_address(ptr)) == b2.mem_read(crate::memory::next_address(ptr)));
        assert(b1.mem_read((ptr - 255) as u16) == b2.mem_read((ptr - 255) as u16));
    }
    if b1.mem_read(pc) is Ok {
        let zp = b1.mem_read(pc)->Ok_0;
        let zx = wrap8(zp + b1.registers.x);
        assert(b1.mem_read(zp as u16) == b2.mem_read(zp as u16));
        assert(b1.mem_read(wrap8(zp + 1) as u16) == b2.mem_read(wrap8(zp + 1) as u16));
        assert(b1.mem_read(zx as u16) == b2.mem_read(zx as u16));
        assert(b1.mem_read(wrap8(zx + 1) as u16) == b2.mem_read(wrap8(zx + 1) as u16));
    }
    assert(operand_address(mode, b1) == operand_address(mode, b2));
    if operand_address(mode, b1) is Ok {
        let a = operand_address(mode, b1)->Ok_0;
        assert(b1.mem_read(a) == b2.mem_read(a));
        assert(b1.mem_handles(a) == b2.mem_handles(a));
    }
    assert(operand_value(mode, b1) == operand_value(mode, b2));
    assert(shift_source(mode, b1) == shift_source(mode, b2));
    assert(b1.mem_read(stack_address(wrap8(sp + 1))) == b2.mem_read(stack_address(wrap8(sp + 1))));
    assert(b1.mem_read(stack_address(wrap8(sp + 2))) == b2.mem_read(stack_address(wrap8(sp + 2))));
    assert(stacked_word(b1, sp) == stacked_word(b2, sp));
    assert(b1.mem_read(IRQ_VECTOR) == b2.mem_read(IRQ_VECTOR));
    assert(b1.mem_read(crate::memory::next_address(IRQ_VECTOR)) == b2.mem_read(crate::memory::next_address(IRQ_VECTOR)));
    assert(b1.mem_handles(stack_address(sp)) == b2.mem_handles(stack_address(sp)));
    assert(b1.mem_handles(stack_address(wrap8(sp - 1))) == b2.mem_handles(stack_address(wrap8(sp - 1))));
    assert(b1.mem_handles(stack_address(wrap8(sp - 2))) == b2.mem_handles(stack_address(wrap8(sp - 2))));
    assert(Cpu::memory_unchanged(b2, after) ==> Cpu::memory_unchanged(b1, after));
    assert forall|a: u16, v: u8| Cpu::memory_written(b2, after, a, v) implies #[trigger] Cpu::memory_written(b1, after, a, v) by {
        assert(b1.mem_handles(a) == b2.mem_handles(a));
    }
    assert forall|s: u8, w: u16| memory_after_push_word(b2.memory, after.memory, s, w) implies
        #[trigger] memory_after_push_word(b1.memory, after.memory, s, w) by {
    }
    assert forall|s: u8, w: u16, y: u8| memory_after_push_frame(b2.memory, after.memory, s, w, y) implies
        #[trigger] memory_after_push_frame(b1.memory, after.memory, s, w, y) by {
    }
}


/// Every opcode in the table names itself, is one to three bytes long and takes at most seven
/// cycles; only `$20` is JSR.
pub proof fn lemma_opcode_entry_bounds(op: u8)
    ensures
        opcode_entry(op) matches Some(m) ==> m.opcode == op && 1 <= m.bytes <= 3 && m.cycles <= 7
            && (m.instruction == Instruction::JSR ==> op == 0x20),
{
}

/// No two opcodes in the table share an instruction and an addressing mode.
#[verifier::rlimit(100)]
pub proof fn lemma_opcode_entries_distinct(a: u8, b: u8)
    ensures
        (opcode_entry(a) matches Some(m1) && opcode_entry(b) matches Some(m2) && m1.instruction == m2.instruction
            && m1.addressing_mode == m2.addressing_mode) ==> a == b,
{
    lemma_opcode_entry_bounds(a);
    lemma_opcode_entry_bounds(b);
}

/// Every opcode in the table is as long as its addressing mode's operand makes it.
pub proof fn lemma_opcode_entry_size(op: u8)
    ensures
        opcode_entry(op) matches Some(m) ==> m.bytes as u16 == mode_size(m.addressing_mode),
{
}

/// What an instruction did is read off the registers and memory it left.
pub(crate) proof fn lemma_executed_same_after<M: Addressable>(
    before: &Cpu<M>,
    a1: &Cpu<M>,
    a2: &Cpu<M>,
    meta: InstructionMetadata,
    r: Result<u8, NesError>,
)
    requires
        a1.registers == a2.registers,
        a1.memory == a2.memory,
        executed(before, a1, meta, r),
    ensures
        executed(before, a2, meta, r),
{
}


/// An 8-bit value as the signed number its bits stand for.
pub open spec fn signed(x: u8) -> int {
    if x < 128 { x as int } else { x - 256 }
}

/// The carry flag as a number.
pub open spec fn carry_of(status: u8) -> int {
    if status & 0x01 != 0 { 1 } else { 0 }
}

/// Setting or clearing one status bit `m` changes no other bit `k`.
pub proof fn lemma_single_bit_update(s: u8, m: u8, k: u8, v: bool)
    by (bit_vector)
    requires
        m == 1 || m == 2 || m == 4 || m == 8 || m == 16 || m == 32 || m == 64 || m == 128,
        k == 1 || k == 2 || k == 4 || k == 8 || k == 16 || k == 32 || k == 64 || k == 128,
    ensures
        ((if v { s | m } else { s & !m }) & k != 0) == (if m == k { v } else { s & k != 0 }),
{
}

/// How the overflow rule reads the sign bits: the operands agree in sign and the result
/// does not.
proof fn lemma_sign_bits(a: u8, v: u8, r: u8)
    by (bit_vector)
    ensures
        ((a ^ v) & 0x80 == 0) == ((a < 128) == (v < 128)),
        ((a ^ r) & 0x80 != 0) == ((a < 128) != (r < 128)),
        v ^ 0xFF == 255 - v,
{
}

/// ADC adds the operand and the carry to the accumulator: the result byte and the carry out
/// make up the whole sum, Overflow is set exactly when the signed sum leaves -128..=127, and
/// Zero and Negative describe the result.
pub proof fn lemma_adc_adds(regs: CpuRegisters, v: u8)
    ensures
        ({
            let after = adc_registers(regs, v);
            &&& after.a + 256 * carry_of(after.status) == regs.a + v + carry_of(regs.status)
            &&& (after.status & 0x40 != 0) == (signed(regs.a) + signed(v) + carry_of(regs.status) < -128
                || signed(regs.a) + signed(v) + carry_of(regs.status) > 127)
            &&& (after.status & 0x02 != 0) == (after.a == 0)
            &&& (after.status & 0x80 != 0) == (after.a >= 128)
        }),
{
    let c = carry_of(regs.status);
    let sum = regs.a + v + c;
    let res = wrap8(sum);
    let overflow = (regs.a ^ v) & 0x80 == 0 && (regs.a ^ res) & 0x80 != 0;
    let s1 = set_bits(regs.status, 0x01, sum > 0xFF);
    let s2 = set_bits(s1, 0x40, overflow);
    let s3 = set_bits(s2, 0x02, res == 0);
    let s4 = set_bits(s3, 0x80, res & 0x80 != 0);
    lemma_single_bit_update(regs.status, 0x01, 0x01, sum > 0xFF);
    lemma_single_bit_update(s1, 0x40, 0x01, overflow);
    lemma_single_bit_update(s2, 0x02, 0x01, res == 0);
    lemma_single_bit_update(s3, 0x80, 0x01, res & 0x80 != 0);
    lemma_single_bit_update(s2, 0x02, 0x40, res == 0);
    lemma_single_bit_update(s3, 0x80, 0x40, res & 0x80 != 0);
    lemma_single_bit_update(s3, 0x80, 0x02, res & 0x80 != 0);
    lemma_single_bit_update(s1, 0x40, 0x40, overflow);
    lemma_single_bit_update(s2, 0x02, 0x02, res == 0);
    lemma_single_bit_update(s3, 0x80, 0x80, res & 0x80 != 0);
    lemma_sign_bits(regs.a, v, res);
    assert(res & 0x80 != 0 <==> res >= 128) by (bit_vector)
        requires
            res == res,
    ;
}

/// SBC subtracts the operand and the borrow (the clear carry) from the accumulator: the
/// result is the difference modulo 256, and Carry is set exactly when nothing was borrowed.
pub proof fn lemma_sbc_subtracts(regs: CpuRegisters, v: u8)
    ensures
        ({
            let after = with_operand(Instruction::SBC, regs, v);
            let diff = regs.a - v - (1 - carry_of(regs.status));
            &&& after.a == wrap8(diff)
            &&& (carry_of(after.status) == 1) == (diff >= 0)
        }),
{
    lemma_adc_adds(regs, v ^ 0xFF);
    lemma_sign_bits(regs.a, v, 0);
}

/// CMP and CPX set Carry when the register is at least the operand and Zero when they are
/// equal, and leave the register itself alone.
pub proof fn lemma_compare_orders(regs: CpuRegisters, reg: u8, v: u8)
    ensures
        ({
            let after = compare_registers(regs, reg, v);
            &&& (after.status & 0x01 != 0) == (reg >= v)
            &&& (after.status & 0x02 != 0) == (reg == v)
            &&& after.a == regs.a && after.x == regs.x && after.y == regs.y
        }),
{
    let s1 = set_bits(regs.status, 0x01, reg >= v);
    let s2 = set_bits(s1, 0x02, reg == v);
    let n = wrap8(reg - v) & 0x80 != 0;
    lemma_single_bit_update(regs.status, 0x01, 0x01, reg >= v);
    lemma_single_bit_update(s1, 0x02, 0x01, reg == v);
    lemma_single_bit_update(s2, 0x80, 0x01, n);
    lemma_single_bit_update(s1, 0x02, 0x02, reg == v);
    lemma_single_bit_update(s2, 0x80, 0x02, n);
}

impl<M: Addressable> Cpu<M> {
    /// Fetch the opcode at the program counter and move past it.
    pub fn fetch(&mut self) -> (r: Result<u8, NesError>)
        ensures
            Cpu::same_lines(old(self), final(self)),
            r == old(self).mem_read(old(self).registers.pc),
            r is Ok ==> final(self).registers == advance(old(self).registers, 1),
            r is Err ==> final(self).registers == old(self).registers,
            old(self).storage() ==> Cpu::memory_unchanged(old(self), final(self)),
    {
        let opcode = self.read_byte(self.registers.pc)?;
        self.registers.pc = self.registers.pc.wrapping_add(1);
        Ok(opcode)
    }

    /// The operand byte of an instruction in `mode`, with no register touched.
    fn read_operand(&mut self, addressing_mode: AddressingMode) -> (r: Result<u8, NesError>)
        ensures
            Cpu::same_but_memory(old(self), final(self)),
            old(self).storage() ==> r == operand_value(addressing_mode, old(self)),
            old(self).storage() ==> Cpu::memory_unchanged(old(self), final(self)),
    {
        let ghost c0 = *self;
        let addr = addressing_mode.get_operand_address(self)?;
        let ghost c1 = *self;
        let r = self.read_byte(addr);
        proof {
            if c0.storage() {
                assert(c1.mem_read(addr) == c0.mem_read(addr));
            }
        }
        r
    }

    /// The operand byte of a load, with Zero and Negative set from it.
    fn load_register(&mut self, addressing_mode: AddressingMode) -> (r: Result<u8, NesError>)
        ensures
            Cpu::same_lines(old(self), final(self)),
            old(self).storage() ==> r == operand_value(addressing_mode, old(self)),
            r matches Ok(v) ==> final(self).registers == (CpuRegisters { status: with_nz(old(self).registers.status, v), ..old(self).registers }),
            r is Err ==> final(self).registers == old(self).registers,
            old(self).storage() ==> Cpu::memory_unchanged(old(self), final(self)),
    {
        let value = self.read_operand(addressing_mode)?;
        self.set_nz(value);
        Ok(value)
    }

    /// LDA: load the accumulator.
    pub fn lda(&mut self, addressing_mode: AddressingMode) -> (r: Result<(), NesError>)
        ensures
            Cpu::same_lines(old(self), final(self)),
            r is Ok ==> final(self).registers.pc == old(self).registers.pc,
            old(self).storage() ==> read_outcome(old(self), final(self), Instruction::LDA,
                operand_value(addressing_mode, old(self)), unit_cycles(r), 0),
    {
        self.registers.a = self.load_register(addressing_mode)?;
        Ok(())
    }

    /// LDX: load the X register.
    pub fn ldx(&mut self, addressing_mode: AddressingMode) -> (r: Result<(), NesError>)
        ensures
            Cpu::same_lines(old(self), final(self)),
            r is Ok ==> final(self).registers.pc == old(self).registers.pc,
            old(self).storage() ==> read_outcome(old(self), final(self), Instruction::LDX,
                operand_value(addressing_mode, old(self)), unit_cycles(r), 0),
    {
        self.registers.x = self.load_register(addressing_mode)?;
        Ok(())
    }

    /// LDY: load the Y register.
    pub fn ldy(&mut self, addressing_mode: AddressingMode) -> (r: Result<(), NesError>)
        ensures
            Cpu::same_lines(old(self), final(self)),
            r is Ok ==> final(self).registers.pc == old(self).registers.pc,
            old(self).storage() ==> read_outcome(old(self), final(self), Instruction::LDY,
                operand_value(addressing_mode, old(self)), unit_cycles(r), 0),
    {
        self.registers.y = self.load_register(addressing_mode)?;
        Ok(())
    }

    /// Store `value` at the operand address; no flag changes.
    fn store_register(&mut self, addressing_mode: AddressingMode, value: u8) -> (r: Result<(), NesError>)
        ensures
            Cpu::same_lines(old(self), final(self)),
            final(self).registers == old(self).registers,
            old(self).storage() ==> store_outcome(old(self), final(self), addressing_mode, value, unit_cycles(r), 0),
    {
        let ghost c0 = *self;
        let addr = addressing_mode.get_operand_address(self)?;
        let ghost c1 = *self;
        let r = self.write_byte(addr, value);
        proof {
            if c0.storage() {
                assert(c1.mem_handles(addr) == c0.mem_handles(addr));
                assert forall|b: u16| #[trigger] crate::cpu::memory_read(self.memory, b) == (if b == addr && c0.mem_handles(addr) {
                    Ok(value)
                } else {
                    crate::cpu::memory_read(c0.memory, b)
                }) by {
                    assert(crate::cpu::memory_read(c1.memory, b) == crate::cpu::memory_read(c0.memory, b));
                }
                assert forall|b: u16| #[trigger] crate::cpu::memory_handles(self.memory, b) == crate::cpu::memory_handles(c0.memory, b) by {
                    assert(crate::cpu::memory_handles(c1.memory, b) == crate::cpu::memory_handles(c0.memory, b));
                }
            }
        }
        r
    }

    /// STA: store the accumulator.
    pub fn sta(&mut self, addressing_mode: AddressingMode) -> (r: Result<(), NesError>)
        ensures
            Cpu::same_lines(old(self), final(self)),
            r is Ok ==> final(self).registers.pc == old(self).registers.pc,
            old(self).storage() ==> store_outcome(old(self), final(self), addressing_mode, old(self).registers.a, unit_cycles(r), 0),
    {
        self.store_register(addressing_mode, self.registers.a)
    }

    /// STX: store the X register.
    pub fn stx(&mut self, addressing_mode: AddressingMode) -> (r: Result<(), NesError>)
        ensures
            Cpu::same_lines(old(self), final(self)),
            r is Ok ==> final(self).registers.pc == old(self).registers.pc,
            old(self).storage() ==> store_outcome(old(self), final(self), addressing_mode, old(self).registers.x, unit_cycles(r), 0),
    {
        self.store_register(addressing_mode, self.registers.x)
    }

    /// STY: store the Y register.
    pub fn sty(&mut self, addressing_mode: AddressingMode) -> (r: Result<(), NesError>)
        ensures
            Cpu::same_lines(old(self), final(self)),
            r is Ok ==> final(self).registers.pc == old(self).registers.pc,
            old(self).storage() ==> store_outcome(old(self), final(self), addressing_mode, old(self).registers.y, unit_cycles(r), 0),
    {
        self.store_register(addressing_mode, self.registers.y)
    }

    /// JMP: jump to the operand address.
    pub fn jmp(&mut self, addressing_mode: AddressingMode) -> (r: Result<(), NesError>)
        ensures
            Cpu::same_lines(old(self), final(self)),
            old(self).storage() ==> jump_outcome(old(self), final(self), addressing_mode, unit_cycles(r)),
    {
        let target_address = addressing_mode.get_operand_address(self)?;
        self.registers.pc = target_address;
        Ok(())
    }
}


impl<M: Addressable> Cpu<M> {
    /// JSR: push the address of the operand's last byte and jump to the operand address.
    pub fn jsr(&mut self, addressing_mode: AddressingMode) -> (r: Result<(), NesError>)
        requires
            old(self).registers.pc < 0xFFFF,
        ensures
            Cpu::same_lines(old(self), final(self)),
            old(self).storage() ==> call_outcome(old(self), final(self), addressing_mode, unit_cycles(r)),
    {
        let ghost c0 = *self;
        let target_address = addressing_mode.get_operand_address(self)?;
        let ghost c1 = *self;
        // The program counter points at the operand's first byte; the address pushed is that of
        // its last, one less than the next instruction.
        let return_address = self.registers.pc + 1;
        let pushed = self.push_word(return_address);
        proof {
            if c0.storage() && pushed is Ok {
                assert forall|b: u16| #[trigger] crate::cpu::memory_read(self.memory, b) == (
                    if b == stack_address(c0.registers.sp) && crate::cpu::memory_handles(c0.memory, b) {
                        Ok::<u8, NesError>((return_address / 256) as u8)
                    } else if b == stack_address(wrap8(c0.registers.sp - 1)) && crate::cpu::memory_handles(c0.memory, b) {
                        Ok::<u8, NesError>((return_address % 256) as u8)
                    } else {
                        crate::cpu::memory_read(c0.memory, b)
                    }) by {
                    assert(crate::cpu::memory_read(c1.memory, b) == crate::cpu::memory_read(c0.memory, b));
                    assert(crate::cpu::memory_handles(c1.memory, b) == crate::cpu::memory_handles(c0.memory, b));
                }
                assert forall|b: u16| #[trigger] crate::cpu::memory_handles(self.memory, b) == crate::cpu::memory_handles(c0.memory, b) by {
                    assert(crate::cpu::memory_handles(c1.memory, b) == crate::cpu::memory_handles(c0.memory, b));
                }
            }
            if c0.storage() {
                assert(c1.mem_handles(stack_address(c0.registers.sp)) == c0.mem_handles(stack_address(c0.registers.sp)));
                assert(c1.mem_handles(stack_address(wrap8(c0.registers.sp - 1))) == c0.mem_handles(stack_address(wrap8(c0.registers.sp - 1))));
            }
        }
        pushed?;
        self.registers.pc = target_address;
        Ok(())
    }

    /// RTS: pop the return address and continue at the byte after it.
    pub fn rts(&mut self) -> (r: Result<(), NesError>)
        ensures
            Cpu::same_lines(old(self), final(self)),
            old(self).storage() ==> return_outcome(old(self), final(self), unit_cycles(r)),
    {
        let return_address = self.pop_word()?;
        self.registers.pc = return_address.wrapping_add(1);
        Ok(())
    }

    /// Push `return_to` and `status`, set InterruptDisable, and jump through `vector`: what BRK
    /// and the hardware interrupts share.
    pub(crate) fn push_frame(&mut self, return_to: u16, status: u8, vector: u16) -> (r: Result<(), NesError>)
        requires
            vector == IRQ_VECTOR || vector == super::NMI_VECTOR,
        ensures
            Cpu::same_lines(old(self), final(self)),
            old(self).storage() ==> interrupt_outcome(
                old(self),
                final(self),
                return_to,
                status,
                vector,
                unit_cycles(r),
                0,
            ),
    {
        let ghost c0 = *self;
        let sp = self.registers.sp;
        let first = self.push_word(return_to);
        let ghost c1 = *self;
        proof {
            if c0.storage() {
                assert(c0.mem_handles(stack_address(sp)) == crate::cpu::memory_handles(c0.memory, stack_address(sp)));
            }
        }
        first?;
        let second = self.push_byte(status);
        let ghost c2 = *self;
        proof {
            if c0.storage() {
                assert(stack_address(wrap8(sp - 2)) != stack_address(sp));
                assert(stack_address(wrap8(sp - 2)) != stack_address(wrap8(sp - 1)));
                assert(c1.registers.sp == wrap8(sp - 2));
                assert(crate::cpu::memory_handles(c1.memory, stack_address(wrap8(sp - 2)))
                    == crate::cpu::memory_handles(c0.memory, stack_address(wrap8(sp - 2))));
            }
        }
        second?;
        self.set_flag(CpuFlag::InterruptDisable, true);
        let ghost c3 = *self;
        let target = self.read_word(vector);
        proof {
            if c0.storage() {
                assert(c2.memory == c3.memory);
                assert(stack_address(sp) < 0x200 && stack_address(wrap8(sp - 1)) < 0x200 && stack_address(wrap8(sp - 2)) < 0x200);
                assert(c3.mem_read(vector) == c0.mem_read(vector));
                assert(c3.mem_read(crate::memory::next_address(vector)) == c0.mem_read(crate::memory::next_address(vector)));
                assert(wrap8(wrap8(sp - 2) - 1) == wrap8(sp - 3));
                assert forall|b: u16| #[trigger] crate::cpu::memory_read(c2.memory, b) == (
                    if b == stack_address(sp) && crate::cpu::memory_handles(c0.memory, b) {
                        Ok::<u8, NesError>((return_to / 256) as u8)
                    } else if b == stack_address(wrap8(sp - 1)) && crate::cpu::memory_handles(c0.memory, b) {
                        Ok::<u8, NesError>((return_to % 256) as u8)
                    } else if b == stack_address(wrap8(sp - 2)) && crate::cpu::memory_handles(c0.memory, b) {
                        Ok::<u8, NesError>(status)
                    } else {
                        crate::cpu::memory_read(c0.memory, b)
                    }) by {
                    assert(crate::cpu::memory_handles(c1.memory, b) == crate::cpu::memory_handles(c0.memory, b));
                }
                assert forall|b: u16| #[trigger] crate::cpu::memory_handles(self.memory, b) == crate::cpu::memory_handles(c0.memory, b) by {
                    assert(crate::cpu::memory_handles(c1.memory, b) == crate::cpu::memory_handles(c0.memory, b));
                    assert(crate::cpu::memory_handles(c2.memory, b) == crate::cpu::memory_handles(c1.memory, b));
                }
            }
        }
        self.registers.pc = target?;
        Ok(())
    }

    /// BRK: push the address past the padding byte and the status with Break set, set
    /// InterruptDisable, and jump through the IRQ vector.
    pub fn brk(&mut self) -> (r: Result<(), NesError>)
        ensures
            Cpu::same_lines(old(self), final(self)),
            old(self).storage() ==> interrupt_outcome(
                old(self),
                final(self),
                wrap16(old(self).registers.pc + 1),
                old(self).registers.status | 0x30,
                IRQ_VECTOR,
                unit_cycles(r),
                0,
            ),
    {
        let pc_to_push = self.registers.pc.wrapping_add(1);
        let status = self.registers.status;
        let status_with_break = status | CpuFlag::Break.mask() | CpuFlag::Unused.mask();
        assert(status | 0x10 | 0x20 == status | 0x30) by (bit_vector);
        self.push_frame(pc_to_push, status_with_break, IRQ_VECTOR)
    }

    /// NOP: nothing.
    pub fn nop(&mut self)
        ensures
            *final(self) == *old(self),
    {
    }
}


impl<M: Addressable> Cpu<M> {
    /// Where a taken branch goes from the offset byte at `pc`.
    fn branch_destination(pc: u16, offset: u8) -> (t: u16)
        ensures
            t == branch_target(pc, offset),
    {
        let next = pc.wrapping_add(1);
        if offset < 128 {
            next.wrapping_add(offset as u16)
        } else {
            next.wrapping_sub(256 - offset as u16)
        }
    }

    /// Take the branch when `taken`: read the offset byte at the program counter and go to its
    /// target, reporting one extra cycle, two when the target is on another page. Otherwise
    /// skip the offset byte.
    fn branch(&mut self, taken: bool) -> (r: Result<u8, NesError>)
        ensures
            r matches Ok(c) ==> c <= 2,
            Cpu::same_lines(old(self), final(self)),
            old(self).storage() ==> branch_outcome(old(self), final(self), taken, r),
    {
        if taken {
            let old_pc = self.registers.pc;
            let offset = self.read_byte(old_pc)?;
            let target = Self::branch_destination(old_pc, offset);
            self.registers.pc = target;
            assert(forall|p: u16, q: u16| #[trigger] (p & 0xFF00) == #[trigger] (q & 0xFF00) <==> p / 256 == q / 256) by (bit_vector);
            if (old_pc & 0xFF00) != (target & 0xFF00) {
                Ok(2)
            } else {
                Ok(1)
            }
        } else {
            self.registers.pc = self.registers.pc.wrapping_add(1);
            Ok(0)
        }
    }

    /// Add `value` and the carry to the accumulator, setting Carry, Overflow, Zero and Negative.
    fn add_with_carry(&mut self, value: u8)
        ensures
            Cpu::same_but_registers(old(self), final(self)),
            final(self).registers == adc_registers(old(self).registers, value),
    {
        let carry: u16 = if self.get_flag(CpuFlag::Carry) { 1 } else { 0 };
        let a = self.registers.a;
        let sum: u16 = a as u16 + value as u16 + carry;
        let result = (sum & 0xFF) as u8;
        assert((sum & 0xFF) as u8 == (sum % 256) as u8) by (bit_vector);
        let overflow = ((a ^ value) & 0x80) == 0 && ((a ^ result) & 0x80) != 0;
        self.set_flag(CpuFlag::Carry, sum > 0xFF);
        self.set_flag(CpuFlag::Overflow, overflow);
        self.registers.a = result;
        self.set_nz(result);
    }

    /// Compare `reg` with `value`, as CMP and CPX do.
    fn compare(&mut self, reg: u8, value: u8)
        ensures
            Cpu::same_but_registers(old(self), final(self)),
            final(self).registers == compare_registers(old(self).registers, reg, value),
    {
        let result = reg.wrapping_sub(value);
        self.set_flag(CpuFlag::Carry, reg >= value);
        self.set_flag(CpuFlag::Zero, reg == value);
        self.set_flag(CpuFlag::Negative, (result & 0x80) != 0);
    }

    /// BIT: test the accumulator against memory; Zero from `A & M`, Negative and Overflow from bits 7 and 6 of `M`.
    #[verifier::rlimit(40)]
    pub fn bit(&mut self, addressing_mode: AddressingMode) -> (r: Result<(), NesError>)
        ensures
            Cpu::same_lines(old(self), final(self)),
            r is Ok ==> final(self).registers.pc == old(self).registers.pc,
            old(self).storage() ==> read_outcome(old(self), final(self), Instruction::BIT,
                operand_value(addressing_mode, old(self)), unit_cycles(r), 0),
    {
        let value = self.read_operand(addressing_mode)?;
        let result = self.registers.a & value;
        self.set_flag(CpuFlag::Zero, result == 0);
        self.set_flag(CpuFlag::Negative, (value & 0x80) != 0);
        self.set_flag(CpuFlag::Overflow, (value & 0x40) != 0);
        Ok(())
    }

    /// BPL: branch when Negative is clear.
    pub fn bpl(&mut self) -> (r: Result<u8, NesError>)
        ensures
            r matches Ok(c) ==> c <= 2,
            Cpu::same_lines(old(self), final(self)),
            old(self).storage() ==> branch_outcome(old(self), final(self), old(self).registers.status & 0x80 == 0, r),
    {
        let taken = !self.get_flag(CpuFlag::Negative);
        self.branch(taken)
    }

    /// BEQ: branch when Zero is set.
    pub fn beq(&mut self) -> (r: Result<u8, NesError>)
        ensures
            r matches Ok(c) ==> c <= 2,
            Cpu::same_lines(old(self), final(self)),
            old(self).storage() ==> branch_outcome(old(self), final(self), old(self).registers.status & 0x02 != 0, r),
    {
        let taken = self.get_flag(CpuFlag::Zero);
        self.branch(taken)
    }

    /// BNE: branch when Zero is clear.
    pub fn bne(&mut self) -> (r: Result<u8, NesError>)
        ensures
            r matches Ok(c) ==> c <= 2,
            Cpu::same_lines(old(self), final(self)),
            old(self).storage() ==> branch_outcome(old(self), final(self), old(self).registers.status & 0x02 == 0, r),
    {
        let taken = !self.get_flag(CpuFlag::Zero);
        self.branch(taken)
    }

    /// CLC: clear Carry.
    pub fn clc(&mut self)
        ensures
            Cpu::same_lines(old(self), final(self)),
            final(self).memory == old(self).memory,
            final(self).registers == implied_registers(Instruction::CLC, old(self).registers),
    {
        self.set_flag(CpuFlag::Carry, false);
    }

    /// SEC: set Carry.
    pub fn sec(&mut self)
        ensures
            Cpu::same_lines(old(self), final(self)),
            final(self).memory == old(self).memory,
            final(self).registers == implied_registers(Instruction::SEC, old(self).registers),
    {
        self.set_flag(CpuFlag::Carry, true);
    }

    /// ADC: add memory and the carry to the accumulator.
    #[verifier::rlimit(30)]
    pub fn adc(&mut self, addressing_mode: AddressingMode) -> (r: Result<(), NesError>)
        ensures
            Cpu::same_lines(old(self), final(self)),
            r is Ok ==> final(self).registers.pc == old(self).registers.pc,
            old(self).storage() ==> read_outcome(old(self), final(self), Instruction::ADC,
                operand_value(addressing_mode, old(self)), unit_cycles(r), 0),
    {
        let value = self.read_operand(addressing_mode)?;
        self.add_with_carry(value);
        Ok(())
    }

    /// SBC: subtract memory and the borrow (the clear carry) from the accumulator, as an add of the complement.
    #[verifier::rlimit(30)]
    pub fn sbc(&mut self, addressing_mode: AddressingMode) -> (r: Result<(), NesError>)
        ensures
            Cpu::same_lines(old(self), final(self)),
            r is Ok ==> final(self).registers.pc == old(self).registers.pc,
            old(self).storage() ==> read_outcome(old(self), final(self), Instruction::SBC,
                operand_value(addressing_mode, old(self)), unit_cycles(r), 0),
    {
        let value = self.read_operand(addressing_mode)?;
        self.add_with_carry(value ^ 0xFF);
        Ok(())
    }

    /// CMP: compare the accumulator with memory.
    #[verifier::rlimit(30)]
    pub fn cmp(&mut self, addressing_mode: AddressingMode) -> (r: Result<(), NesError>)
        ensures
            Cpu::same_lines(old(self), final(self)),
            r is Ok ==> final(self).registers.pc == old(self).registers.pc,
            old(self).storage() ==> read_outcome(old(self), final(self), Instruction::CMP,
                operand_value(addressing_mode, old(self)), unit_cycles(r), 0),
    {
        let value = self.read_operand(addressing_mode)?;
        self.compare(self.registers.a, value);
        Ok(())
    }

    /// TXS: copy X to the stack pointer; no flags.
    pub fn txs(&mut self)
        ensures
            Cpu::same_lines(old(self), final(self)),
            final(self).memory == old(self).memory,
            final(self).registers == implied_registers(Instruction::TXS, old(self).registers),
    {
        self.registers.sp = self.registers.x;
    }

    /// AND: the accumulator ANDed with memory.
    pub fn and(&mut self, addressing_mode: AddressingMode) -> (r: Result<(), NesError>)
        ensures
            Cpu::same_lines(old(self), final(self)),
            r is Ok ==> final(self).registers.pc == old(self).registers.pc,
            old(self).storage() ==> read_outcome(old(self), final(self), Instruction::AND,
                operand_value(addressing_mode, old(self)), unit_cycles(r), 0),
    {
        let value = self.read_operand(addressing_mode)?;
        self.registers.a = self.registers.a & value;
        self.set_nz(self.registers.a);
        Ok(())
    }

    /// ORA: the accumulator ORed with memory.
    pub fn ora(&mut self, addressing_mode: AddressingMode) -> (r: Result<(), NesError>)
        ensures
            Cpu::same_lines(old(self), final(self)),
            r is Ok ==> final(self).registers.pc == old(self).registers.pc,
            old(self).storage() ==> read_outcome(old(self), final(self), Instruction::ORA,
                operand_value(addressing_mode, old(self)), unit_cycles(r), 0),
    {
        let value = self.read_operand(addressing_mode)?;
        self.registers.a = self.registers.a | value;
        self.set_nz(self.registers.a);
        Ok(())
    }

    /// ASL: shift left; Carry takes bit 7. The accumulator is shifted in place; a memory operand
    /// is read, shifted and written back.
    #[verifier::rlimit(60)]
    pub fn asl(&mut self, addressing_mode: AddressingMode) -> (r: Result<(), NesError>)
        ensures
            Cpu::same_lines(old(self), final(self)),
            r is Ok ==> final(self).registers.pc == old(self).registers.pc,
            old(self).storage() ==> shift_outcome(old(self), final(self), Instruction::ASL, addressing_mode, unit_cycles(r), 0),
    {
        match addressing_mode {
            AddressingMode::Accumulator => {
                let value = self.registers.a;
                let result = value << 1;
                assert(value << 1 == wrap8(value * 2)) by (bit_vector);
                self.set_flag(CpuFlag::Carry, (value & 0x80) != 0);
                self.registers.a = result;
                self.set_nz(result);
                Ok(())
            },
            _ => {
                let ghost c0 = *self;
                let address = addressing_mode.get_operand_address(self)?;
                let value = self.read_byte(address)?;
                let result = value << 1;
                assert(value << 1 == wrap8(value * 2)) by (bit_vector);
                let ghost c2 = *self;
                self.write_byte(address, result)?;
                self.set_flag(CpuFlag::Carry, (value & 0x80) != 0);
                self.set_nz(result);
                Ok(())
            },
        }
    }

    /// LSR: shift right; Carry takes bit 0. The accumulator is shifted in place; a memory operand
    /// is read, shifted and written back.
    #[verifier::rlimit(60)]
    pub fn lsr(&mut self, addressing_mode: AddressingMode) -> (r: Result<(), NesError>)
        ensures
            Cpu::same_lines(old(self), final(self)),
            r is Ok ==> final(self).registers.pc == old(self).registers.pc,
            old(self).storage() ==> shift_outcome(old(self), final(self), Instruction::LSR, addressing_mode, unit_cycles(r), 0),
    {
        match addressing_mode {
            AddressingMode::Accumulator => {
                let value = self.registers.a;
                let result = value >> 1;
                assert(value >> 1 == value / 2) by (bit_vector);
                self.set_flag(CpuFlag::Carry, (value & 0x01) != 0);
                self.registers.a = result;
                self.set_flag(CpuFlag::Zero, result == 0);
                self.set_flag(CpuFlag::Negative, false);
                Ok(())
            },
            _ => {
                let ghost c0 = *self;
                let address = addressing_mode.get_operand_address(self)?;
                let value = self.read_byte(address)?;
                let result = value >> 1;
                assert(value >> 1 == value / 2) by (bit_vector);
                let ghost c2 = *self;
                self.write_byte(address, result)?;
                self.set_flag(CpuFlag::Carry, (value & 0x01) != 0);
                self.set_flag(CpuFlag::Zero, result == 0);
                self.set_flag(CpuFlag::Negative, false);
                Ok(())
            },
        }
    }

    /// TAY: copy the accumulator to Y.
    pub fn tay(&mut self)
        ensures
            Cpu::same_lines(old(self), final(self)),
            final(self).memory == old(self).memory,
            final(self).registers == implied_registers(Instruction::TAY, old(self).registers),
    {
        self.registers.y = self.registers.a;
        self.set_nz(self.registers.y);
    }

    /// TYA: copy Y to the accumulator.
    pub fn tya(&mut self)
        ensures
            Cpu::same_lines(old(self), final(self)),
            final(self).memory == old(self).memory,
            final(self).registers == implied_registers(Instruction::TYA, old(self).registers),
    {
        self.registers.a = self.registers.y;
        self.set_nz(self.registers.a);
    }

    /// INX: increment X, wrapping.
    pub fn inx(&mut self)
        ensures
            Cpu::same_lines(old(self), final(self)),
            final(self).memory == old(self).memory,
            final(self).registers == implied_registers(Instruction::INX, old(self).registers),
    {
        self.registers.x = self.registers.x.wrapping_add(1);
        self.set_nz(self.registers.x);
    }

    /// DEX: decrement X, wrapping.
    pub fn dex(&mut self)
        ensures
            Cpu::same_lines(old(self), final(self)),
            final(self).memory == old(self).memory,
            final(self).registers == implied_registers(Instruction::DEX, old(self).registers),
    {
        self.registers.x = self.registers.x.wrapping_sub(1);
        self.set_nz(self.registers.x);
    }

    /// CPX: compare X with memory.
    #[verifier::rlimit(60)]
    pub fn cpx(&mut self, addressing_mode: AddressingMode) -> (r: Result<(), NesError>)
        ensures
            Cpu::same_lines(old(self), final(self)),
            r is Ok ==> final(self).registers.pc == old(self).registers.pc,
            old(self).storage() ==> read_outcome(old(self), final(self), Instruction::CPX,
                operand_value(addressing_mode, old(self)), unit_cycles(r), 0),
    {
        let value = self.read_operand(addressing_mode)?;
        self.compare(self.registers.x, value);
        Ok(())
    }
}


impl<M: Addressable> Cpu<M> {
    /// Move the program counter past the operand of a `bytes`-long instruction whose opcode has
    /// been fetched.
    fn skip_operand(&mut self, bytes: u8)
        requires
            bytes >= 1,
        ensures
            Cpu::same_but_registers(old(self), final(self)),
            final(self).registers == advance(old(self).registers, bytes - 1),
    {
        self.registers.pc = self.registers.pc.wrapping_add((bytes - 1) as u16);
    }

    /// Execute one of the loads.
    fn execute_load(&mut self, instruction_metadata: InstructionMetadata) -> (r: Result<u8, NesError>)
        requires
            instruction_metadata.bytes >= 1,
            instruction_metadata.instruction == Instruction::LDA || instruction_metadata.instruction == Instruction::LDX || instruction_metadata.instruction == Instruction::LDY,
        ensures
            r matches Ok(c) ==> c <= 2,
            Cpu::same_lines(old(self), final(self)),
            r is Ok ==> r == Ok::<u8, NesError>(0) && final(self).registers.pc == wrap16(old(self).registers.pc + instruction_metadata.bytes - 1),
            old(self).storage() ==> executed(old(self), final(self), instruction_metadata, r),
    {
        let addressing_mode = instruction_metadata.addressing_mode;
        let ghost before = *self;
        let done = match instruction_metadata.instruction {
            Instruction::LDA => self.lda(addressing_mode),
            Instruction::LDX => self.ldx(addressing_mode),
            Instruction::LDY => self.ldy(addressing_mode),
            _ => Ok(()),
        };
        let ghost mid = *self;
        done?;
        self.skip_operand(instruction_metadata.bytes);
        proof {
            if before.storage() {
                lemma_read_outcome_step(&before, &mid, self, instruction_metadata.instruction, operand_value(addressing_mode, &before), instruction_metadata.bytes - 1);
            }
        }
        Ok(0)
    }

    /// Execute one of the logic operations.
    fn execute_logic(&mut self, instruction_metadata: InstructionMetadata) -> (r: Result<u8, NesError>)
        requires
            instruction_metadata.bytes >= 1,
            instruction_metadata.instruction == Instruction::AND || instruction_metadata.instruction == Instruction::ORA || instruction_metadata.instruction == Instruction::BIT,
        ensures
            r matches Ok(c) ==> c <= 2,
            Cpu::same_lines(old(self), final(self)),
            r is Ok ==> r == Ok::<u8, NesError>(0) && final(self).registers.pc == wrap16(old(self).registers.pc + instruction_metadata.bytes - 1),
            old(self).storage() ==> executed(old(self), final(self), instruction_metadata, r),
    {
        let addressing_mode = instruction_metadata.addressing_mode;
        let ghost before = *self;
        let done = match instruction_metadata.instruction {
            Instruction::AND => self.and(addressing_mode),
            Instruction::ORA => self.ora(addressing_mode),
            Instruction::BIT => self.bit(addressing_mode),
            _ => Ok(()),
        };
        let ghost mid = *self;
        done?;
        self.skip_operand(instruction_metadata.bytes);
        proof {
            if before.storage() {
                lemma_read_outcome_step(&before, &mid, self, instruction_metadata.instruction, operand_value(addressing_mode, &before), instruction_metadata.bytes - 1);
            }
        }
        Ok(0)
    }

    /// Execute one of the arithmetic and comparisons.
    fn execute_arithmetic(&mut self, instruction_metadata: InstructionMetadata) -> (r: Result<u8, NesError>)
        requires
            instruction_metadata.bytes >= 1,
            instruction_metadata.instruction == Instruction::ADC || instruction_metadata.instruction == Instruction::SBC || instruction_metadata.instruction == Instruction::CMP || instruction_metadata.instruction == Instruction::CPX,
        ensures
            r matches Ok(c) ==> c <= 2,
            Cpu::same_lines(old(self), final(self)),
            r is Ok ==> r == Ok::<u8, NesError>(0) && final(self).registers.pc == wrap16(old(self).registers.pc + instruction_metadata.bytes - 1),
            old(self).storage() ==> executed(old(self), final(self), instruction_metadata, r),
    {
        let addressing_mode = instruction_metadata.addressing_mode;
        let ghost before = *self;
        let done = match instruction_metadata.instruction {
            Instruction::ADC => self.adc(addressing_mode),
            Instruction::SBC => self.sbc(addressing_mode),
            Instruction::CMP => self.cmp(addressing_mode),
            Instruction::CPX => self.cpx(addressing_mode),
            _ => Ok(()),
        };
        let ghost mid = *self;
        done?;
        self.skip_operand(instruction_metadata.bytes);
        proof {
            if before.storage() {
                lemma_read_outcome_step(&before, &mid, self, instruction_metadata.instruction, operand_value(addressing_mode, &before), instruction_metadata.bytes - 1);
            }
        }
        Ok(0)
    }

    /// Execute one of the shifts.
    fn execute_shift(&mut self, instruction_metadata: InstructionMetadata) -> (r: Result<u8, NesError>)
        requires
            instruction_metadata.bytes >= 1,
            instruction_metadata.instruction == Instruction::ASL || instruction_metadata.instruction == Instruction::LSR,
        ensures
            r matches Ok(c) ==> c <= 2,
            Cpu::same_lines(old(self), final(self)),
            r is Ok ==> r == Ok::<u8, NesError>(0) && final(self).registers.pc == wrap16(old(self).registers.pc + instruction_metadata.bytes - 1),
            old(self).storage() ==> executed(old(self), final(self), instruction_metadata, r),
    {
        let addressing_mode = instruction_metadata.addressing_mode;
        let ghost before = *self;
        let done = match instruction_metadata.instruction {
            Instruction::ASL => self.asl(addressing_mode),
            Instruction::LSR => self.lsr(addressing_mode),
            _ => Ok(()),
        };
        let ghost mid = *self;
        done?;
        self.skip_operand(instruction_metadata.bytes);
        proof {
            if before.storage() {
                lemma_shift_outcome_step(&before, &mid, self, instruction_metadata.instruction, addressing_mode, instruction_metadata.bytes - 1);
            }
        }
        Ok(0)
    }

    /// Execute one of the stores.
    fn execute_store(&mut self, instruction_metadata: InstructionMetadata) -> (r: Result<u8, NesError>)
        requires
            instruction_metadata.bytes >= 1,
            instruction_metadata.instruction == Instruction::STA || instruction_metadata.instruction == Instruction::STX || instruction_metadata.instruction == Instruction::STY,
        ensures
            r matches Ok(c) ==> c <= 2,
            Cpu::same_lines(old(self), final(self)),
            r is Ok ==> r == Ok::<u8, NesError>(0) && final(self).registers.pc == wrap16(old(self).registers.pc + instruction_metadata.bytes - 1),
            old(self).storage() ==> executed(old(self), final(self), instruction_metadata, r),
    {
        let addressing_mode = instruction_metadata.addressing_mode;
        let ghost before = *self;
        let done = match instruction_metadata.instruction {
            Instruction::STA => self.sta(addressing_mode),
            Instruction::STX => self.stx(addressing_mode),
            Instruction::STY => self.sty(addressing_mode),
            _ => Ok(()),
        };
        let ghost mid = *self;
        done?;
        self.skip_operand(instruction_metadata.bytes);
        proof {
            if before.storage() {
                let value = match instruction_metadata.instruction {
                    Instruction::STA => before.registers.a,
                    Instruction::STX => before.registers.x,
                    _ => before.registers.y,
                };
                lemma_store_outcome_step(&before, &mid, self, addressing_mode, value, instruction_metadata.bytes - 1);
            }
        }
        Ok(0)
    }

    /// Execute one of the instructions without operands.
    fn execute_implied(&mut self, instruction_metadata: InstructionMetadata) -> (r: Result<u8, NesError>)
        requires
            instruction_metadata.bytes >= 1,
            instruction_metadata.instruction == Instruction::NOP || instruction_metadata.instruction == Instruction::CLC || instruction_metadata.instruction == Instruction::SEC || instruction_metadata.instruction == Instruction::TXS || instruction_metadata.instruction == Instruction::TAY || instruction_metadata.instruction == Instruction::TYA || instruction_metadata.instruction == Instruction::INX || instruction_metadata.instruction == Instruction::DEX,
        ensures
            r matches Ok(c) ==> c <= 2,
            Cpu::same_lines(old(self), final(self)),
            r is Ok ==> r == Ok::<u8, NesError>(0) && final(self).registers.pc == wrap16(old(self).registers.pc + instruction_metadata.bytes - 1),
            old(self).storage() ==> executed(old(self), final(self), instruction_metadata, r),
    {
        let ghost before = *self;
        match instruction_metadata.instruction {
            Instruction::NOP => self.nop(),
            Instruction::CLC => self.clc(),
            Instruction::SEC => self.sec(),
            Instruction::TXS => self.txs(),
            Instruction::TAY => self.tay(),
            Instruction::TYA => self.tya(),
            Instruction::INX => self.inx(),
            Instruction::DEX => self.dex(),
            _ => {},
        }
        let ghost mid = *self;
        self.skip_operand(instruction_metadata.bytes);
        proof {
            if before.storage() {
                assert(implied_outcome(&before, &mid, instruction_metadata.instruction, Ok(0), 0));
                lemma_implied_outcome_step(&before, &mid, self, instruction_metadata.instruction, instruction_metadata.bytes - 1);
            }
        }
        Ok(0)
    }

    /// Execute one of the jumps, calls, returns and breaks.
    fn execute_control(&mut self, instruction_metadata: InstructionMetadata) -> (r: Result<u8, NesError>)
        requires
            instruction_metadata.bytes >= 1,
            instruction_metadata.instruction == Instruction::JMP || instruction_metadata.instruction == Instruction::JSR || instruction_metadata.instruction == Instruction::RTS || instruction_metadata.instruction == Instruction::BRK,
            instruction_metadata.instruction == Instruction::JSR ==> old(self).registers.pc < 0xFFFF,
        ensures
            r matches Ok(c) ==> c <= 2,
            Cpu::same_lines(old(self), final(self)),
            old(self).storage() ==> executed(old(self), final(self), instruction_metadata, r),
    {
        let addressing_mode = instruction_metadata.addressing_mode;
        match instruction_metadata.instruction {
            Instruction::JMP => self.jmp(addressing_mode)?,
            Instruction::JSR => self.jsr(addressing_mode)?,
            Instruction::RTS => self.rts()?,
            Instruction::BRK => self.brk()?,
            _ => {},
        }
        Ok(0)
    }

    /// Execute one of the branches.
    fn execute_branch(&mut self, instruction_metadata: InstructionMetadata) -> (r: Result<u8, NesError>)
        requires
            instruction_metadata.bytes >= 1,
            instruction_metadata.instruction == Instruction::BPL || instruction_metadata.instruction == Instruction::BEQ || instruction_metadata.instruction == Instruction::BNE,
        ensures
            r matches Ok(c) ==> c <= 2,
            Cpu::same_lines(old(self), final(self)),
            old(self).storage() ==> executed(old(self), final(self), instruction_metadata, r),
    {
        match instruction_metadata.instruction {
            Instruction::BPL => self.bpl(),
            Instruction::BEQ => self.beq(),
            Instruction::BNE => self.bne(),
            _ => Ok(0),
        }
    }

    /// Execute one decoded instruction, the program counter pointing past its opcode, and
    /// return the cycles it took beyond its base count.
    pub fn execute(&mut self, instruction_metadata: InstructionMetadata) -> (r: Result<u8, NesError>)
        requires
            instruction_metadata.bytes >= 1,
            instruction_metadata.instruction == Instruction::JSR ==> old(self).registers.pc < 0xFFFF,
        ensures
            r matches Ok(c) ==> c <= 2,
            Cpu::same_lines(old(self), final(self)),
            !spec_modifies_pc(instruction_metadata.instruction) && r is Ok ==> r == Ok::<u8, NesError>(0)
                && final(self).registers.pc == wrap16(old(self).registers.pc + instruction_metadata.bytes - 1),
            old(self).storage() ==> executed(old(self), final(self), instruction_metadata, r),
    {
        match instruction_metadata.instruction {
            Instruction::LDA | Instruction::LDX | Instruction::LDY => self.execute_load(instruction_metadata),
            Instruction::AND | Instruction::ORA | Instruction::BIT => self.execute_logic(instruction_metadata),
            Instruction::ADC | Instruction::SBC | Instruction::CMP | Instruction::CPX => self.execute_arithmetic(instruction_metadata),
            Instruction::ASL | Instruction::LSR => self.execute_shift(instruction_metadata),
            Instruction::STA | Instruction::STX | Instruction::STY => self.execute_store(instruction_metadata),
            Instruction::JMP | Instruction::JSR | Instruction::RTS | Instruction::BRK => self.execute_control(instruction_metadata),
            Instruction::BPL | Instruction::BEQ | Instruction::BNE => self.execute_branch(instruction_metadata),
            _ => self.execute_implied(instruction_metadata),
        }
    }
}

/// BIT tests the accumulator against the operand without changing it: Zero is set exactly when
/// they share no set bit, Negative and Overflow copy the operand's bits 7 and 6, and Carry,
/// InterruptDisable, Decimal, Break and bit 5 stay as they were.
pub proof fn lemma_bit_tests_accumulator_against_operand<M: Addressable>(
    before: &Cpu<M>,
    after: &Cpu<M>,
    v: u8,
    step: int,
)
    requires
        read_outcome(before, after, Instruction::BIT, Ok::<u8, NesError>(v), Ok::<u8, NesError>(0), step),
    ensures
        (after.registers.status & 0x02 != 0) == (before.registers.a & v == 0),
        (after.registers.status & 0x80 != 0) == (v >= 128),
        (after.registers.status & 0x40 != 0) == ((v / 64) % 2 == 1),
        after.registers.a == before.registers.a,
        after.registers.x == before.registers.x && after.registers.y == before.registers.y,
        forall|k: u8| (k == 1 || k == 4 || k == 8 || k == 16 || k == 32) ==> (after.registers.status & k != 0) == (
        before.registers.status & k != 0),
{
    let s0 = before.registers.status;
    let a = before.registers.a;
    let s1 = set_bits(s0, 0x02, a & v == 0);
    let s2 = set_bits(s1, 0x80, v & 0x80 != 0);
    let s3 = set_bits(s2, 0x40, v & 0x40 != 0);
    assert(after.registers.status == s3);
    lemma_single_bit_update(s2, 0x40, 0x02, v & 0x40 != 0);
    lemma_single_bit_update(s1, 0x80, 0x02, v & 0x80 != 0);
    lemma_single_bit_update(s0, 0x02, 0x02, a & v == 0);
    lemma_single_bit_update(s2, 0x40, 0x80, v & 0x40 != 0);
    lemma_single_bit_update(s1, 0x80, 0x80, v & 0x80 != 0);
    lemma_single_bit_update(s2, 0x40, 0x40, v & 0x40 != 0);
    assert((v & 0x80 != 0) == (v >= 128) && (v & 0x40 != 0) == ((v / 64) % 2 == 1)) by (bit_vector);
    assert forall|k: u8| (k == 1 || k == 4 || k == 8 || k == 16 || k == 32) implies (s3 & k != 0) == (s0 & k != 0) by {
        lemma_single_bit_update(s2, 0x40, k, v & 0x40 != 0);
        lemma_single_bit_update(s1, 0x80, k, v & 0x80 != 0);
        lemma_single_bit_update(s0, 0x02, k, a & v == 0);
    }
}

/// Setting Zero and Negative from a value: Zero says it is zero, Negative that it is 128 or more,
/// and every other flag stays.
proof fn lemma_nz_reads(s: u8, v: u8)
    ensures
        (with_nz(s, v) & 0x02 != 0) == (v == 0),
        (with_nz(s, v) & 0x80 != 0) == (v >= 128),
        forall|k: u8| (k == 1 || k == 4 || k == 8 || k == 16 || k == 32 || k == 64) ==> (with_nz(s, v) & k != 0) == (
        s & k != 0),
{
    let s1 = set_bits(s, 0x02, v == 0);
    lemma_single_bit_update(s1, 0x80, 0x02, v & 0x80 != 0);
    lemma_single_bit_update(s, 0x02, 0x02, v == 0);
    lemma_single_bit_update(s1, 0x80, 0x80, v & 0x80 != 0);
    assert((v & 0x80 != 0) == (v >= 128)) by (bit_vector);
    assert forall|k: u8| (k == 1 || k == 4 || k == 8 || k == 16 || k == 32 || k == 64) implies (with_nz(s, v) & k
        != 0) == (s & k != 0) by {
        lemma_single_bit_update(s1, 0x80, k, v & 0x80 != 0);
        lemma_single_bit_update(s, 0x02, k, v == 0);
    }
}

/// One bit of a conjunction or disjunction is the conjunction or disjunction of the bits.
proof fn lemma_bitwise(a: u8, v: u8, k: u8)
    by (bit_vector)
    requires
        k == 1 || k == 2 || k == 4 || k == 8 || k == 16 || k == 32 || k == 64 || k == 128,
    ensures
        ((a & v) & k != 0) == (a & k != 0 && v & k != 0),
        ((a | v) & k != 0) == (a & k != 0 || v & k != 0),
{
}

/// Loads copy the operand into their register; AND and ORA keep in the accumulator the bits set
/// in both, or in either; ASL doubles the operand (modulo 256) with the bit shifted out in
/// Carry, and LSR halves it with bit 0 in Carry and Negative clear. Each sets Zero exactly when
/// the result is zero and, but for LSR, Negative exactly when it is 128 or more; Overflow, and
/// every register the instruction does not name, stay.
pub proof fn lemma_operand_instructions(regs: CpuRegisters, v: u8)
    ensures
        ({
            let r = with_operand(Instruction::LDA, regs, v);
            r.a == v && (r.status & 0x02 != 0) == (v == 0) && (r.status & 0x80 != 0) == (v >= 128) && r.x == regs.x
                && r.y == regs.y && r.sp == regs.sp && r.pc == regs.pc && (r.status & 0x01 != 0) == (regs.status & 0x01 != 0)
                && (r.status & 0x40 != 0) == (regs.status & 0x40 != 0)
        }),
        ({
            let r = with_operand(Instruction::LDX, regs, v);
            r.x == v && r.a == regs.a && r.y == regs.y && (r.status & 0x02 != 0) == (v == 0) && (r.status & 0x80 != 0) == (
            v >= 128)
        }),
        ({
            let r = with_operand(Instruction::LDY, regs, v);
            r.y == v && r.a == regs.a && r.x == regs.x && (r.status & 0x02 != 0) == (v == 0) && (r.status & 0x80 != 0) == (
            v >= 128)
        }),
        forall|k: u8|
            (k == 1 || k == 2 || k == 4 || k == 8 || k == 16 || k == 32 || k == 64 || k == 128) ==> ((#[trigger] with_operand(
                Instruction::AND,
                regs,
                v,
            ).a & k != 0) == (regs.a & k != 0 && v & k != 0)) && ((with_operand(Instruction::ORA, regs, v).a & k != 0)
                == (regs.a & k != 0 || v & k != 0)),
        (with_operand(Instruction::AND, regs, v).status & 0x02 != 0) == (with_operand(Instruction::AND, regs, v).a == 0),
        (with_operand(Instruction::ORA, regs, v).status & 0x02 != 0) == (with_operand(Instruction::ORA, regs, v).a == 0),
        ({
            let r = with_operand(Instruction::ASL, regs, v);
            r.a == (2 * v) % 256 && (r.status & 0x01 != 0) == (v >= 128) && (r.status & 0x02 != 0) == ((2 * v) % 256 == 0)
                && (r.status & 0x80 != 0) == ((2 * v) % 256 >= 128)
        }),
        ({
            let r = with_operand(Instruction::LSR, regs, v);
            r.a == v / 2 && (r.status & 0x01 != 0) == (v % 2 == 1) && (r.status & 0x02 != 0) == (v / 2 == 0) && (r.status
                & 0x80 == 0)
        }),
{
    lemma_nz_reads(regs.status, v);
    lemma_nz_reads(regs.status, regs.a & v);
    lemma_nz_reads(regs.status, regs.a | v);
    assert forall|k: u8|
        (k == 1 || k == 2 || k == 4 || k == 8 || k == 16 || k == 32 || k == 64 || k == 128) implies ((#[trigger] with_operand(
            Instruction::AND,
            regs,
            v,
        ).a & k != 0) == (regs.a & k != 0 && v & k != 0)) && ((with_operand(Instruction::ORA, regs, v).a & k != 0) == (
            regs.a & k != 0 || v & k != 0)) by {
        lemma_bitwise(regs.a, v, k);
    }
    let s = regs.status;
    let w = wrap8(v * 2);
    assert(w == (2 * v) % 256);
    let c = set_bits(s, 0x01, v & 0x80 != 0);
    lemma_nz_reads(c, w);
    lemma_single_bit_update(s, 0x01, 0x01, v & 0x80 != 0);
    assert((v & 0x80 != 0) == (v >= 128) && (v & 0x01 != 0) == (v % 2 == 1)) by (bit_vector);
    let l1 = set_bits(s, 0x01, v & 0x01 != 0);
    let l2 = set_bits(l1, 0x02, v / 2 == 0);
    lemma_single_bit_update(l2, 0x80, 0x01, false);
    lemma_single_bit_update(l1, 0x02, 0x01, v / 2 == 0);
    lemma_single_bit_update(s, 0x01, 0x01, v & 0x01 != 0);
    lemma_single_bit_update(l2, 0x80, 0x02, false);
    lemma_single_bit_update(l1, 0x02, 0x02, v / 2 == 0);
    lemma_single_bit_update(l2, 0x80, 0x80, false);
}

/// The implied instructions: CLC and SEC clear and set Carry alone; TXS copies X to the stack
/// pointer; TAY and TYA copy between the accumulator and Y; INX and DEX count X up and down,
/// wrapping. Each transfer or count sets Zero exactly when its result is zero and Negative when
/// it is 128 or more.
pub proof fn lemma_implied_instructions(regs: CpuRegisters)
    ensures
        ({
            let r = implied_registers(Instruction::CLC, regs);
            (r.status & 0x01 == 0) && (r.status & 0x02 != 0) == (regs.status & 0x02 != 0) && r.a == regs.a
        }),
        ({
            let r = implied_registers(Instruction::SEC, regs);
            (r.status & 0x01 != 0) && (r.status & 0x02 != 0) == (regs.status & 0x02 != 0) && r.a == regs.a
        }),
        implied_registers(Instruction::TXS, regs) == (CpuRegisters { sp: regs.x, ..regs }),
        ({
            let r = implied_registers(Instruction::TAY, regs);
            r.y == regs.a && r.a == regs.a && (r.status & 0x02 != 0) == (regs.a == 0) && (r.status & 0x80 != 0) == (
            regs.a >= 128)
        }),
        ({
            let r = implied_registers(Instruction::TYA, regs);
            r.a == regs.y && r.y == regs.y && (r.status & 0x02 != 0) == (regs.y == 0) && (r.status & 0x80 != 0) == (
            regs.y >= 128)
        }),
        ({
            let r = implied_registers(Instruction::INX, regs);
            r.x == (regs.x + 1) % 256 && (r.status & 0x02 != 0) == (regs.x == 255)
        }),
        ({
            let r = implied_registers(Instruction::DEX, regs);
            r.x == (regs.x + 255) % 256 && (r.status & 0x02 != 0) == (regs.x == 1)
        }),
{
    let s = regs.status;
    lemma_single_bit_update(s, 0x01, 0x01, false);
    lemma_single_bit_update(s, 0x01, 0x02, false);
    lemma_single_bit_update(s, 0x01, 0x01, true);
    lemma_single_bit_update(s, 0x01, 0x02, true);
    lemma_nz_reads(s, regs.a);
    lemma_nz_reads(s, regs.y);
    lemma_nz_reads(s, wrap8(regs.x + 1));
    lemma_nz_reads(s, wrap8(regs.x - 1));
}

} // verus!
