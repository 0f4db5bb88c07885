use vstd::prelude::*;

use super::{wrap16, wrap8, Cpu};
use crate::errors::NesError;
use crate::memory::{word_from, Addressable};

verus! {

/// The 6502's addressing modes.
#[derive(Debug, Clone, Copy, PartialEq, Eq, Structural, Hash)]
pub enum AddressingMode {
    Immediate,
    ZeroPage,
    ZeroPageX,
    ZeroPageY,
    Absolute,
    AbsoluteX,
    AbsoluteY,
    Indirect,
    /// `(zp,X)`: pre-indexed indirect.
    IndexedIndirect,
    /// `(zp),Y`: post-indexed indirect.
    IndirectIndexed,
    /// No operand.
    Implied,
    /// The accumulator is the operand.
    Accumulator,
    /// A signed branch offset.
    Relative,
}

/// `r` as a word, or its error.
pub open spec fn byte_as_word(r: Result<u8, NesError>) -> Result<u16, NesError> {
    match r {
        Ok(b) => Ok(b as u16),
        Err(e) => Err(e),
    }
}

/// `r` plus `offset`, wrapping at 16 bits, or its error.
pub open spec fn offset_word(r: Result<u16, NesError>, offset: u8) -> Result<u16, NesError> {
    match r {
        Ok(w) => Ok(wrap16(w + offset)),
        Err(e) => Err(e),
    }
}

/// Whether adding `offset` to `base` lands on another page.
pub open spec fn page_crossed(base: u16, offset: u16) -> bool {
    base / 256 != wrap16(base + offset) / 256
}

/// The pointer of `(zp),Y` read from the zero page, its high byte wrapping within it.
pub open spec fn zero_page_pointer<M: Addressable>(cpu: &Cpu<M>, zp: u8) -> Result<u16, NesError> {
    word_from(cpu.mem_read(zp as u16), cpu.mem_read(wrap8(zp + 1) as u16))
}

/// Where the operand of an instruction in `mode` lies, the program counter pointing at the
/// operand bytes, as the reads it takes return them.
pub open spec fn operand_address<M: Addressable>(mode: AddressingMode, cpu: &Cpu<M>) -> Result<u16, NesError> {
    let pc = cpu.registers.pc;
    let x = cpu.registers.x;
    let y = cpu.registers.y;
    match mode {
        AddressingMode::ZeroPage => byte_as_word(cpu.mem_read(pc)),
        AddressingMode::ZeroPageX => match cpu.mem_read(pc) {
            Ok(b) => Ok(wrap8(b + x) as u16),
            Err(e) => Err(e),
        },
        AddressingMode::ZeroPageY => match cpu.mem_read(pc) {
            Ok(b) => Ok(wrap8(b + y) as u16),
            Err(e) => Err(e),
        },
        AddressingMode::Absolute => cpu.mem_word(pc),
        AddressingMode::AbsoluteX => offset_word(cpu.mem_word(pc), x),
        AddressingMode::AbsoluteY => offset_word(cpu.mem_word(pc), y),
        AddressingMode::Indirect => match cpu.mem_word(pc) {
            Ok(ptr) => if ptr % 256 == 255 {
                // The page-wrap quirk: the high byte comes from the start of the same page.
                word_from(cpu.mem_read(ptr), cpu.mem_read((ptr - 255) as u16))
            } else {
                cpu.mem_word(ptr)
            },
            Err(e) => Err(e),
        },
        AddressingMode::IndexedIndirect => match cpu.mem_read(pc) {
            Ok(b) => zero_page_pointer(cpu, wrap8(b + x)),
            Err(e) => Err(e),
        },
        AddressingMode::IndirectIndexed => match cpu.mem_read(pc) {
            Ok(zp) => offset_word(zero_page_pointer(cpu, zp), y),
            Err(e) => Err(e),
        },
        _ => Ok(pc),
    }
}

/// The operand byte of an instruction in `mode`: what a read of its address returns.
pub open spec fn operand_value<M: Addressable>(mode: AddressingMode, cpu: &Cpu<M>) -> Result<u8, NesError> {
    match operand_address(mode, cpu) {
        Ok(a) => cpu.mem_read(a),
        Err(e) => Err(e),
    }
}

/// Whether indexing in `mode` carries into the next page.
pub open spec fn spec_crosses_page<M: Addressable>(mode: AddressingMode, cpu: &Cpu<M>) -> Result<bool, NesError> {
    match mode {
        AddressingMode::AbsoluteX => match cpu.mem_word(cpu.registers.pc) {
            Ok(base) => Ok(page_crossed(base, cpu.registers.x as u16)),
            Err(e) => Err(e),
        },
        AddressingMode::AbsoluteY => match cpu.mem_word(cpu.registers.pc) {
            Ok(base) => Ok(page_crossed(base, cpu.registers.y as u16)),
            Err(e) => Err(e),
        },
        AddressingMode::IndirectIndexed => match cpu.mem_read(cpu.registers.pc) {
            Ok(zp) => match zero_page_pointer(cpu, zp) {
                Ok(base) => Ok(page_crossed(base, cpu.registers.y as u16)),
                Err(e) => Err(e),
            },
            Err(e) => Err(e),
        },
        _ => Ok(false),
    }
}

/// The cycles a mode adds to an instruction's base count.
pub open spec fn extra_cycles(mode: AddressingMode, page_crossed: bool) -> u8 {
    match mode {
        AddressingMode::ZeroPageX | AddressingMode::ZeroPageY => 1,
        AddressingMode::Indirect => 2,
        AddressingMode::IndexedIndirect => 4,
        AddressingMode::AbsoluteX | AddressingMode::AbsoluteY | AddressingMode::IndirectIndexed => if page_crossed {
            1
        } else {
            0
        },
        _ => 0,
    }
}

impl AddressingMode {
    /// Where the operand lies, the program counter pointing at the operand bytes (not the
    /// opcode). Reads the operand bytes, and for the indirect modes the pointer they name.
    pub fn get_operand_address<M: Addressable>(&self, cpu: &mut Cpu<M>) -> (r: Result<u16, NesError>)
        ensures
            Cpu::same_but_memory(old(cpu), final(cpu)),
            old(cpu).storage() ==> r == operand_address(*self, old(cpu)),
            old(cpu).storage() ==> Cpu::memory_unchanged(old(cpu), final(cpu)),
    {
        let pc = cpu.registers.pc;
        let x = cpu.registers.x;
        let y = cpu.registers.y;
        match self {
            AddressingMode::ZeroPage => self::read_zero_page_address(cpu, pc, 0),
            AddressingMode::ZeroPageX => self::read_zero_page_address(cpu, pc, x),
            AddressingMode::ZeroPageY => self::read_zero_page_address(cpu, pc, y),
            AddressingMode::Absolute => cpu.read_word(pc),
            AddressingMode::AbsoluteX => self::read_absolute_address(cpu, pc, x),
            AddressingMode::AbsoluteY => self::read_absolute_address(cpu, pc, y),
            AddressingMode::Indirect => self::read_indirect_address(cpu, pc),
            AddressingMode::IndexedIndirect => self::read_indexed_indirect_address(cpu, pc, x),
            AddressingMode::IndirectIndexed => self::read_indirect_indexed_address(cpu, pc, y),
            _ => Ok(pc),
        }
    }

    /// Whether indexing in this mode carries into the next page, looking at the operand without
    /// reading it again.
    pub fn crosses_page_boundary<M: Addressable>(&self, cpu: &Cpu<M>) -> (r: Result<bool, NesError>)
        ensures
            r == spec_crosses_page(*self, cpu),
    {
        match self {
            AddressingMode::AbsoluteX => {
                let base = cpu.peek_word(cpu.registers.pc)?;
                Ok(Self::crosses_boundary(base, cpu.registers.x as u16))
            },
            AddressingMode::AbsoluteY => {
                let base = cpu.peek_word(cpu.registers.pc)?;
                Ok(Self::crosses_boundary(base, cpu.registers.y as u16))
            },
            AddressingMode::IndirectIndexed => {
                let zp = cpu.peek_byte(cpu.registers.pc)?;
                let low = cpu.peek_byte(zp as u16)?;
                let high = cpu.peek_byte(zp.wrapping_add(1) as u16)?;
                let base = crate::memory::combine_word(low, high);
                Ok(Self::crosses_boundary(base, cpu.registers.y as u16))
            },
            _ => Ok(false),
        }
    }

    /// Whether `base + offset` lies on another page than `base`.
    fn crosses_boundary(base_addr: u16, offset: u16) -> (b: bool)
        ensures
            b == page_crossed(base_addr, offset),
    {
        let target = base_addr.wrapping_add(offset);
        assert(forall|p: u16, q: u16| #[trigger] (p & 0xFF00) == #[trigger] (q & 0xFF00) <==> p / 256 == q / 256) by (bit_vector);
        (base_addr & 0xFF00) != (target & 0xFF00)
    }

    /// The cycles this mode adds to an instruction's base count.
    pub fn get_additional_cycles(&self, page_crossed: bool) -> (c: u8)
        ensures
            c == extra_cycles(*self, page_crossed),
    {
        match self {
            AddressingMode::ZeroPageX | AddressingMode::ZeroPageY => 1,
            AddressingMode::Indirect => 2,
            AddressingMode::IndexedIndirect => 4,
            AddressingMode::AbsoluteX | AddressingMode::AbsoluteY | AddressingMode::IndirectIndexed => {
                if page_crossed {
                    1
                } else {
                    0
                }
            },
            _ => 0,
        }
    }

    /// How the mode is described to people.
    pub fn description(&self) -> (s: &'static str)
        ensures
            s@ == match self {
                AddressingMode::Immediate => "Immediate mode"@,
                AddressingMode::ZeroPage => "Zero Page mode"@,
                AddressingMode::ZeroPageX => "Zero Page,X mode"@,
                AddressingMode::ZeroPageY => "Zero Page,Y mode"@,
                AddressingMode::Absolute => "Absolute mode"@,
                AddressingMode::AbsoluteX => "Absolute,X mode"@,
                AddressingMode::AbsoluteY => "Absolute,Y mode"@,
                AddressingMode::Indirect => "Indirect mode"@,
                AddressingMode::IndexedIndirect => "Indexed Indirect (X) mode"@,
                AddressingMode::IndirectIndexed => "Indirect Indexed (Y) mode"@,
                AddressingMode::Implied => "Implied mode"@,
                AddressingMode::Accumulator => "Accumulator mode"@,
                AddressingMode::Relative => "Relative mode"@,
            },
    {
        match self {
            AddressingMode::Immediate => "Immediate mode",
            AddressingMode::ZeroPage => "Zero Page mode",
            AddressingMode::ZeroPageX => "Zero Page,X mode",
            AddressingMode::ZeroPageY => "Zero Page,Y mode",
            AddressingMode::Absolute => "Absolute mode",
            AddressingMode::AbsoluteX => "Absolute,X mode",
            AddressingMode::AbsoluteY => "Absolute,Y mode",
            AddressingMode::Indirect => "Indirect mode",
            AddressingMode::IndexedIndirect => "Indexed Indirect (X) mode",
            AddressingMode::IndirectIndexed => "Indirect Indexed (Y) mode",
            AddressingMode::Implied => "Implied mode",
            AddressingMode::Accumulator => "Accumulator mode",
            AddressingMode::Relative => "Relative mode",
        }
    }
}

/// Read a zero-page address at `pc` and add `offset` within the zero page.
fn read_zero_page_address<M: Addressable>(cpu: &mut Cpu<M>, pc: u16, offset: u8) -> (r: Result<u16, NesError>)
    ensures
        Cpu::same_but_memory(old(cpu), final(cpu)),
        r == (match old(cpu).mem_read(pc) {
            Ok(b) => Ok::<u16, NesError>(wrap8(b + offset) as u16),
            Err(e) => Err(e),
        }),
        old(cpu).storage() ==> Cpu::memory_unchanged(old(cpu), final(cpu)),
{
    let b = cpu.read_byte(pc)?;
    Ok(b.wrapping_add(offset) as u16)
}

/// Read an absolute address at `pc` and add `offset`, wrapping at 16 bits.
fn read_absolute_address<M: Addressable>(cpu: &mut Cpu<M>, pc: u16, offset: u8) -> (r: Result<u16, NesError>)
    ensures
        Cpu::same_but_memory(old(cpu), final(cpu)),
        old(cpu).storage() ==> r == offset_word(old(cpu).mem_word(pc), offset),
        old(cpu).storage() ==> Cpu::memory_unchanged(old(cpu), final(cpu)),
{
    let base = cpu.read_word(pc)?;
    Ok(base.wrapping_add(offset as u16))
}

/// Read the pointer at `pc` and the target it points to, with the 6502's page-wrap quirk.
fn read_indirect_address<M: Addressable>(cpu: &mut Cpu<M>, pc: u16) -> (r: Result<u16, NesError>)
    requires
        pc == old(cpu).registers.pc,
    ensures
        Cpu::same_but_memory(old(cpu), final(cpu)),
        old(cpu).storage() ==> r == operand_address(AddressingMode::Indirect, old(cpu)),
        old(cpu).storage() ==> Cpu::memory_unchanged(old(cpu), final(cpu)),
{
    let ghost c0 = *cpu;
    let ptr = cpu.read_word(pc)?;
    let low_byte = ptr & 0x00FF;
    assert(ptr & 0x00FF == ptr % 256) by (bit_vector);
    if low_byte == 0x00FF {
        // The high byte comes from the start of the same page.
        let page_start = ptr & 0xFF00;
        assert(ptr % 256 == 255 ==> ptr & 0xFF00 == (ptr - 255) as u16) by (bit_vector);
        let ghost c1 = *cpu;
        let lo = cpu.read_byte(ptr)?;
        let ghost c2 = *cpu;
        let hi = cpu.read_byte(page_start)?;
        proof {
            if c0.storage() {
                assert(c1.mem_read(ptr) == c0.mem_read(ptr));
                assert(c2.mem_read(page_start) == c0.mem_read(page_start));
            }
        }
        Ok(crate::memory::combine_word(lo, hi))
    } else {
        let ghost c1 = *cpu;
        let r = cpu.read_word(ptr);
        proof {
            if c0.storage() {
                assert(c1.mem_read(ptr) == c0.mem_read(ptr));
                assert(c1.mem_read(crate::memory::next_address(ptr)) == c0.mem_read(crate::memory::next_address(ptr)));
            }
        }
        r
    }
}

/// `(zp,X)`: read the zero-page base at `pc`, add `x` within the zero page, and read the
/// pointer there.
fn read_indexed_indirect_address<M: Addressable>(cpu: &mut Cpu<M>, pc: u16, x: u8) -> (r: Result<u16, NesError>)
    ensures
        Cpu::same_but_memory(old(cpu), final(cpu)),
        old(cpu).storage() ==> r == (match old(cpu).mem_read(pc) {
            Ok(b) => zero_page_pointer(old(cpu), wrap8(b + x)),
            Err(e) => Err(e),
        }),
        old(cpu).storage() ==> Cpu::memory_unchanged(old(cpu), final(cpu)),
{
    let ghost c0 = *cpu;
    let base = cpu.read_byte(pc)?;
    let ghost c1 = *cpu;
    let r = self::read_zero_page_pointer(cpu, base.wrapping_add(x));
    proof {
        if c0.storage() {
            let p = base.wrapping_add(x);
            assert(c1.mem_read(p as u16) == c0.mem_read(p as u16));
            assert(c1.mem_read(wrap8(p + 1) as u16) == c0.mem_read(wrap8(p + 1) as u16));
        }
    }
    r
}

/// `(zp),Y`: read the zero-page pointer named at `pc` and add `y` to it.
fn read_indirect_indexed_address<M: Addressable>(cpu: &mut Cpu<M>, pc: u16, y: u8) -> (r: Result<u16, NesError>)
    ensures
        Cpu::same_but_memory(old(cpu), final(cpu)),
        old(cpu).storage() ==> r == (match old(cpu).mem_read(pc) {
            Ok(zp) => offset_word(zero_page_pointer(old(cpu), zp), y),
            Err(e) => Err(e),
        }),
        old(cpu).storage() ==> Cpu::memory_unchanged(old(cpu), final(cpu)),
{
    let ghost c0 = *cpu;
    let zp = cpu.read_byte(pc)?;
    let ghost c1 = *cpu;
    let base = self::read_zero_page_pointer(cpu, zp);
    proof {
        if c0.storage() {
            assert(c1.mem_read(zp as u16) == c0.mem_read(zp as u16));
            assert(c1.mem_read(wrap8(zp + 1) as u16) == c0.mem_read(wrap8(zp + 1) as u16));
        }
    }
    let base = base?;
    Ok(base.wrapping_add(y as u16))
}

/// Read a pointer from the zero page at `zp`, its high byte wrapping within the page.
fn read_zero_page_pointer<M: Addressable>(cpu: &mut Cpu<M>, zp: u8) -> (r: Result<u16, NesError>)
    ensures
        Cpu::same_but_memory(old(cpu), final(cpu)),
        old(cpu).storage() ==> r == zero_page_pointer(old(cpu), zp),
        old(cpu).storage() ==> Cpu::memory_unchanged(old(cpu), final(cpu)),
{
    let ghost c0 = *cpu;
    let lo = cpu.read_byte(zp as u16)?;
    let ghost c1 = *cpu;
    let hi = cpu.read_byte(zp.wrapping_add(1) as u16)?;
    proof {
        if c0.storage() {
            assert(c1.mem_read(zp.wrapping_add(1) as u16) == c0.mem_read(zp.wrapping_add(1) as u16));
        }
    }
    Ok(crate::memory::combine_word(lo, hi))
}

/// A mode's name, as a program's diagnostics spell it.
pub open spec fn mode_name(mode: AddressingMode) -> Seq<char> {
    match mode {
        AddressingMode::Immediate => seq!['I', 'm', 'm', 'e', 'd', 'i', 'a', 't', 'e'],
        AddressingMode::ZeroPage => seq!['Z', 'e', 'r', 'o', 'P', 'a', 'g', 'e'],
        AddressingMode::ZeroPageX => seq!['Z', 'e', 'r', 'o', 'P', 'a', 'g', 'e', 'X'],
        AddressingMode::ZeroPageY => seq!['Z', 'e', 'r', 'o', 'P', 'a', 'g', 'e', 'Y'],
        AddressingMode::Absolute => seq!['A', 'b', 's', 'o', 'l', 'u', 't', 'e'],
        AddressingMode::AbsoluteX => seq!['A', 'b', 's', 'o', 'l', 'u', 't', 'e', 'X'],
        AddressingMode::AbsoluteY => seq!['A', 'b', 's', 'o', 'l', 'u', 't', 'e', 'Y'],
        AddressingMode::Indirect => seq!['I', 'n', 'd', 'i', 'r', 'e', 'c', 't'],
        AddressingMode::IndexedIndirect => seq!['I', 'n', 'd', 'e', 'x', 'e', 'd', 'I', 'n', 'd', 'i', 'r', 'e', 'c', 't'],
        AddressingMode::IndirectIndexed => seq!['I', 'n', 'd', 'i', 'r', 'e', 'c', 't', 'I', 'n', 'd', 'e', 'x', 'e', 'd'],
        AddressingMode::Implied => seq!['I', 'm', 'p', 'l', 'i', 'e', 'd'],
        AddressingMode::Accumulator => seq!['A', 'c', 'c', 'u', 'm', 'u', 'l', 'a', 't', 'o', 'r'],
        AddressingMode::Relative => seq!['R', 'e', 'l', 'a', 't', 'i', 'v', 'e'],
    }
}

/// How many bytes an instruction in a mode takes: the opcode and its operand.
pub open spec fn mode_size(mode: AddressingMode) -> u16 {
    match mode {
        AddressingMode::Immediate => 2,
        AddressingMode::ZeroPage => 2,
        AddressingMode::ZeroPageX => 2,
        AddressingMode::ZeroPageY => 2,
        AddressingMode::Absolute => 3,
        AddressingMode::AbsoluteX => 3,
        AddressingMode::AbsoluteY => 3,
        AddressingMode::Indirect => 3,
        AddressingMode::IndexedIndirect => 2,
        AddressingMode::IndirectIndexed => 2,
        AddressingMode::Implied => 1,
        AddressingMode::Accumulator => 1,
        AddressingMode::Relative => 2,
    }
}

impl AddressingMode {
    /// How many bytes an instruction in this mode takes.
    pub fn size(&self) -> (n: u16)
        ensures
            n == mode_size(*self),
    {
        match self {
            AddressingMode::Immediate => 2,
            AddressingMode::ZeroPage => 2,
            AddressingMode::ZeroPageX => 2,
            AddressingMode::ZeroPageY => 2,
            AddressingMode::Absolute => 3,
            AddressingMode::AbsoluteX => 3,
            AddressingMode::AbsoluteY => 3,
            AddressingMode::Indirect => 3,
            AddressingMode::IndexedIndirect => 2,
            AddressingMode::IndirectIndexed => 2,
            AddressingMode::Implied => 1,
            AddressingMode::Accumulator => 1,
            AddressingMode::Relative => 2,
        }
    }

    /// The mode's name.
    pub fn name(&self) -> (s: &'static str)
        ensures
            s@ == mode_name(*self),
    {
        match self {
            AddressingMode::Immediate => {
                proof {
                    reveal_strlit("Immediate");
                }
                assert("Immediate"@ =~= seq!['I', 'm', 'm', 'e', 'd', 'i', 'a', 't', 'e']);
                "Immediate"
            },
            AddressingMode::ZeroPage => {
                proof {
                    reveal_strlit("ZeroPage");
                }
                assert("ZeroPage"@ =~= seq!['Z', 'e', 'r', 'o', 'P', 'a', 'g', 'e']);
                "ZeroPage"
            },
            AddressingMode::ZeroPageX => {
                proof {
                    reveal_strlit("ZeroPageX");
                }
                assert("ZeroPageX"@ =~= seq!['Z', 'e', 'r', 'o', 'P', 'a', 'g', 'e', 'X']);
                "ZeroPageX"
            },
            AddressingMode::ZeroPageY => {
                proof {
                    reveal_strlit("ZeroPageY");
                }
                assert("ZeroPageY"@ =~= seq!['Z', 'e', 'r', 'o', 'P', 'a', 'g', 'e', 'Y']);
                "ZeroPageY"
            },
            AddressingMode::Absolute => {
                proof {
                    reveal_strlit("Absolute");
                }
                assert("Absolute"@ =~= seq!['A', 'b', 's', 'o', 'l', 'u', 't', 'e']);
                "Absolute"
            },
            AddressingMode::AbsoluteX => {
                proof {
                    reveal_strlit("AbsoluteX");
                }
                assert("AbsoluteX"@ =~= seq!['A', 'b', 's', 'o', 'l', 'u', 't', 'e', 'X']);
                "AbsoluteX"
            },
            AddressingMode::AbsoluteY => {
                proof {
                    reveal_strlit("AbsoluteY");
                }
                assert("AbsoluteY"@ =~= seq!['A', 'b', 's', 'o', 'l', 'u', 't', 'e', 'Y']);
                "AbsoluteY"
            },
            AddressingMode::Indirect => {
                proof {
                    reveal_strlit("Indirect");
                }
                assert("Indirect"@ =~= seq!['I', 'n', 'd', 'i', 'r', 'e', 'c', 't']);
                "Indirect"
            },
            AddressingMode::IndexedIndirect => {
                proof {
                    reveal_strlit("IndexedIndirect");
                }
                assert("IndexedIndirect"@ =~= seq!['I', 'n', 'd', 'e', 'x', 'e', 'd', 'I', 'n', 'd', 'i', 'r', 'e', 'c', 't']);
                "IndexedIndirect"
            },
            AddressingMode::IndirectIndexed => {
                proof {
                    reveal_strlit("IndirectIndexed");
                }
                assert("IndirectIndexed"@ =~= seq!['I', 'n', 'd', 'i', 'r', 'e', 'c', 't', 'I', 'n', 'd', 'e', 'x', 'e', 'd']);
                "IndirectIndexed"
            },
            AddressingMode::Implied => {
                proof {
                    reveal_strlit("Implied");
                }
                assert("Implied"@ =~= seq!['I', 'm', 'p', 'l', 'i', 'e', 'd']);
                "Implied"
            },
            AddressingMode::Accumulator => {
                proof {
                    reveal_strlit("Accumulator");
                }
                assert("Accumulator"@ =~= seq!['A', 'c', 'c', 'u', 'm', 'u', 'l', 'a', 't', 'o', 'r']);
                "Accumulator"
            },
            AddressingMode::Relative => {
                proof {
                    reveal_strlit("Relative");
                }
                assert("Relative"@ =~= seq!['R', 'e', 'l', 'a', 't', 'i', 'v', 'e']);
                "Relative"
            },
        }
    }
}


/// The byte memory holds at `a`, where every read succeeds.
pub open spec fn byte_at<M: Addressable>(cpu: &Cpu<M>, a: int) -> int {
    cpu.mem_read(a as u16)->Ok_0 as int
}

/// Where each addressing mode finds its operand, in terms of the bytes memory holds (every read
/// succeeding), the program counter at the operand: zero page takes the byte as the address,
/// indexed zero page adds X or Y within the zero page; absolute takes the little-endian word,
/// indexed absolute adds X or Y modulo 64 KB; indirect reads the pointer's two bytes, the second
/// from the same page; `(zp,X)` reads a zero-page pointer at the byte plus X, and `(zp),Y` adds
/// Y to the zero-page pointer at the byte, both pointers' high bytes wrapping in the zero page.
pub proof fn lemma_operand_addresses<M: Addressable>(cpu: &Cpu<M>)
    requires
        forall|b: u16| #[trigger] cpu.mem_read(b) is Ok,
    ensures
        ({
            let pc = cpu.registers.pc as int;
            let x = cpu.registers.x as int;
            let y = cpu.registers.y as int;
            let b = byte_at(cpu, pc);
            let w = byte_at(cpu, pc) + 256 * byte_at(cpu, (pc + 1) % 65536);
            let zx = (b + x) % 256;
            &&& operand_address(AddressingMode::ZeroPage, cpu) == Ok::<u16, NesError>(b as u16)
            &&& operand_address(AddressingMode::ZeroPageX, cpu) == Ok::<u16, NesError>(((b + x) % 256) as u16)
            &&& operand_address(AddressingMode::ZeroPageY, cpu) == Ok::<u16, NesError>(((b + y) % 256) as u16)
            &&& operand_address(AddressingMode::Absolute, cpu) == Ok::<u16, NesError>(w as u16)
            &&& operand_address(AddressingMode::AbsoluteX, cpu) == Ok::<u16, NesError>(((w + x) % 65536) as u16)
            &&& operand_address(AddressingMode::AbsoluteY, cpu) == Ok::<u16, NesError>(((w + y) % 65536) as u16)
            &&& operand_address(AddressingMode::Indirect, cpu) == Ok::<u16, NesError>(
                (byte_at(cpu, w) + 256 * byte_at(cpu, (w / 256) * 256 + (w % 256 + 1) % 256)) as u16,
            )
            &&& operand_address(AddressingMode::IndexedIndirect, cpu) == Ok::<u16, NesError>(
                (byte_at(cpu, zx) + 256 * byte_at(cpu, (zx + 1) % 256)) as u16,
            )
            &&& operand_address(AddressingMode::IndirectIndexed, cpu) == Ok::<u16, NesError>(
                ((byte_at(cpu, b) + 256 * byte_at(cpu, (b + 1) % 256) + y) % 65536) as u16,
            )
        }),
{
    let pc = cpu.registers.pc;
    let x = cpu.registers.x;
    let y = cpu.registers.y;
    let b = cpu.mem_read(pc)->Ok_0;
    assert(cpu.mem_read(pc) is Ok);
    assert(cpu.mem_read(crate::memory::next_address(pc)) is Ok);
    let hi = cpu.mem_read(crate::memory::next_address(pc))->Ok_0;
    let w = (hi as u16 * 256 + b as u16) as u16;
    assert(b as int + 256 * hi as int <= 65535) by (nonlinear_arith)
        requires
            b <= 255,
            hi <= 255,
    ;
    assert(w as int == b as int + 256 * hi as int);
    assert(cpu.mem_read(w) is Ok);
    if w % 256 == 255 {
        assert(cpu.mem_read((w - 255) as u16) is Ok);
        assert((w as int / 256) * 256 + (w as int % 256 + 1) % 256 == w - 255);
        let l2 = cpu.mem_read(w)->Ok_0;
        let h2 = cpu.mem_read((w - 255) as u16)->Ok_0;
        assert(l2 as int + 256 * h2 as int <= 65535) by (nonlinear_arith)
            requires
                l2 <= 255,
                h2 <= 255,
        ;
    } else {
        assert(cpu.mem_read(crate::memory::next_address(w)) is Ok);
        assert((w as int / 256) * 256 + (w as int % 256 + 1) % 256 == w + 1);
        let l2 = cpu.mem_read(w)->Ok_0;
        let h2 = cpu.mem_read(crate::memory::next_address(w))->Ok_0;
        assert(l2 as int + 256 * h2 as int <= 65535) by (nonlinear_arith)
            requires
                l2 <= 255,
                h2 <= 255,
        ;
    }
    let zx = wrap8(b + x);
    assert(cpu.mem_read(zx as u16) is Ok && cpu.mem_read(wrap8(zx + 1) as u16) is Ok);
    let l3 = cpu.mem_read(zx as u16)->Ok_0;
    let h3 = cpu.mem_read(wrap8(zx + 1) as u16)->Ok_0;
    assert(l3 as int + 256 * h3 as int <= 65535) by (nonlinear_arith)
        requires
            l3 <= 255,
            h3 <= 255,
    ;
    assert(cpu.mem_read(b as u16) is Ok && cpu.mem_read(wrap8(b + 1) as u16) is Ok);
    let l4 = cpu.mem_read(b as u16)->Ok_0;
    let h4 = cpu.mem_read(wrap8(b + 1) as u16)->Ok_0;
    assert(l4 as int + 256 * h4 as int <= 65535) by (nonlinear_arith)
        requires
            l4 <= 255,
            h4 <= 255,
    ;
}

} // verus!
