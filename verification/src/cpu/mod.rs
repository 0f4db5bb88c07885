//! The MOS 6502 CPU: registers and flags, bus access, the stack, interrupts, and the
//! fetch-decode-execute step.
use vstd::prelude::*;

use crate::errors::NesError;
use crate::memory::{next_address, word_from, Addressable};

pub mod addressing_mode;
pub mod assembler;
pub mod disassembler;
pub mod error;
pub mod instruction;
pub mod parser;

pub use addressing_mode::AddressingMode;
pub use assembler::{AssembleError, AssembleResult, Assembler};
pub use disassembler::{DisassembleError, Disassembler};
pub use error::CpuError;
pub use instruction::{Instruction, InstructionDecoder, InstructionDecoderError, InstructionMetadata};

use addressing_mode::{operand_address, operand_value};
use instruction::{advance, executed, interrupt_outcome, lemma_opcode_entry_bounds, opcode_entry};

verus! {

/// Interrupt vectors, at the very top of the address space.
pub const NMI_VECTOR: u16 = 0xFFFA;
pub const RESET_VECTOR: u16 = 0xFFFC;
pub const IRQ_VECTOR: u16 = 0xFFFE;

/// Cycles taken to push state and jump through a vector.
pub const INTERRUPT_CYCLES: u8 = 7;

/// CPU status flags.
#[derive(Debug, Clone, Copy, PartialEq, Eq, Structural)]
pub enum CpuFlag {
    Carry,
    Zero,
    InterruptDisable,
    /// Not used on the NES, but part of the 6502.
    DecimalMode,
    /// Not a real flag; only pushed copies of the status carry it.
    Break,
    /// Bit 5, always set in pushed copies.
    Unused,
    Overflow,
    Negative,
}

/// The bit of the status register a flag occupies.
pub open spec fn flag_mask(flag: CpuFlag) -> u8 {
    match flag {
        CpuFlag::Carry => 0x01,
        CpuFlag::Zero => 0x02,
        CpuFlag::InterruptDisable => 0x04,
        CpuFlag::DecimalMode => 0x08,
        CpuFlag::Break => 0x10,
        CpuFlag::Unused => 0x20,
        CpuFlag::Overflow => 0x40,
        CpuFlag::Negative => 0x80,
    }
}

/// `status` with the bits of `mask` set when `on`, cleared otherwise.
pub open spec fn set_bits(status: u8, mask: u8, on: bool) -> u8 {
    if on {
        status | mask
    } else {
        status & !mask
    }
}

/// `status` with Zero and Negative describing `value`.
pub open spec fn with_nz(status: u8, value: u8) -> u8 {
    set_bits(set_bits(status, 0x02, value == 0), 0x80, value & 0x80 != 0)
}

impl CpuFlag {
    /// The flag's bit in the status register.
    pub fn mask(&self) -> (m: u8)
        ensures
            m == flag_mask(*self),
    {
        match self {
            CpuFlag::Carry => 0x01,
            CpuFlag::Zero => 0x02,
            CpuFlag::InterruptDisable => 0x04,
            CpuFlag::DecimalMode => 0x08,
            CpuFlag::Break => 0x10,
            CpuFlag::Unused => 0x20,
            CpuFlag::Overflow => 0x40,
            CpuFlag::Negative => 0x80,
        }
    }
}

/// The programmer-visible registers.
#[derive(Debug, Clone, Copy, PartialEq, Eq, Structural)]
pub struct CpuRegisters {
    pub a: u8,
    pub x: u8,
    pub y: u8,
    pub sp: u8,
    pub pc: u16,
    pub status: u8,
}

/// The registers at power-up.
pub open spec fn power_up_registers() -> CpuRegisters {
    CpuRegisters { a: 0, x: 0, y: 0, sp: 0xFD, pc: 0, status: 0x34 }
}

impl Default for CpuRegisters {
    /// The power-up state: `SP = $FD`, status `$34`, everything else zero.
    fn default() -> (r: Self)
        ensures
            r == power_up_registers(),
    {
        CpuRegisters { a: 0, x: 0, y: 0, sp: 0xFD, pc: 0, status: 0x34 }
    }
}

/// `x` reduced to a byte, as 8-bit wrapping arithmetic leaves it.
pub open spec fn wrap8(x: int) -> u8 {
    (x % 256) as u8
}

/// `x` reduced to a word, as 16-bit wrapping arithmetic leaves it.
pub open spec fn wrap16(x: int) -> u16 {
    (x % 0x10000) as u16
}

/// The stack address `sp` points at.
pub open spec fn stack_address(sp: u8) -> u16 {
    (0x0100 + sp as int) as u16
}

/// The MOS 6502 CPU, reading and writing through a memory of type `M`.
pub struct Cpu<M: Addressable> {
    pub registers: CpuRegisters,
    /// Cycles run so far.
    pub cycles: u64,
    /// The bus the CPU reads and writes through.
    pub memory: Option<M>,
    pub decoder: InstructionDecoder,
    /// An NMI edge has been detected and not yet serviced.
    pub need_nmi: bool,
    /// `need_nmi` one cycle ago: what is acted on.
    pub prev_need_nmi: bool,
    /// The NMI line at the end of the previous cycle, for edge detection.
    pub prev_nmi_line: bool,
    /// An IRQ is eligible: the line asserted and the I flag clear.
    pub run_irq: bool,
    /// `run_irq` one cycle ago: what is acted on.
    pub prev_run_irq: bool,
    /// The /NMI line, driven by the PPU.
    pub nmi_line: bool,
    /// The IRQ line, held by whichever device asserts it.
    pub irq_line: bool,
}

/// What a read of `address` returns from an optional memory.
pub open spec fn memory_read<M: Addressable>(memory: Option<M>, address: u16) -> Result<u8, NesError> {
    match memory {
        Some(m) => m.spec_read(address),
        None => Err(NesError::MemoryNotConnected),
    }
}

/// Whether an optional memory answers `address`.
pub open spec fn memory_handles<M: Addressable>(memory: Option<M>, address: u16) -> bool {
    match memory {
        Some(m) => m.spec_handles(address),
        None => false,
    }
}

/// Whether memory is present and plain storage.
pub open spec fn memory_is_storage<M: Addressable>(memory: Option<M>) -> bool {
    match memory {
        Some(m) => m.is_storage(),
        None => false,
    }
}

/// Storage memory `after` reads as `before` did and answers the same addresses.
pub open spec fn memory_same<M: Addressable>(before: Option<M>, after: Option<M>) -> bool {
    &&& memory_is_storage(after)
    &&& forall|b: u16| #[trigger] memory_read(after, b) == memory_read(before, b)
    &&& forall|b: u16| #[trigger] memory_handles(after, b) == memory_handles(before, b)
}

/// Storage memory `after` is `before` after one write of `value` to `address`.
pub open spec fn memory_after_write<M: Addressable>(before: Option<M>, after: Option<M>, address: u16, value: u8) -> bool {
    &&& memory_is_storage(after)
    &&& forall|b: u16| #[trigger] memory_read(after, b) == (if b == address && memory_handles(before, address) {
        Ok(value)
    } else {
        memory_read(before, b)
    })
    &&& forall|b: u16| #[trigger] memory_handles(after, b) == memory_handles(before, b)
}

/// Storage memory `after` is `before` after a word was pushed with the stack pointer at `sp`:
/// its high byte at `sp`, its low byte below it, each where the memory answers.
pub open spec fn memory_after_push_word<M: Addressable>(before: Option<M>, after: Option<M>, sp: u8, value: u16) -> bool {
    &&& memory_is_storage(after)
    &&& forall|b: u16| #[trigger] memory_read(after, b) == (
        if b == stack_address(sp) && memory_handles(before, b) {
            Ok((value / 256) as u8)
        } else if b == stack_address(wrap8(sp - 1)) && memory_handles(before, b) {
            Ok((value % 256) as u8)
        } else {
            memory_read(before, b)
        })
    &&& forall|b: u16| #[trigger] memory_handles(after, b) == memory_handles(before, b)
}

/// Storage memory `after` is `before` after a word and then a byte were pushed with the stack
/// pointer at `sp`, as an interrupt pushes the return address and the status.
pub open spec fn memory_after_push_frame<M: Addressable>(before: Option<M>, after: Option<M>, sp: u8, word: u16, byte: u8) -> bool {
    &&& memory_is_storage(after)
    &&& forall|b: u16| #[trigger] memory_read(after, b) == (
        if b == stack_address(sp) && memory_handles(before, b) {
            Ok((word / 256) as u8)
        } else if b == stack_address(wrap8(sp - 1)) && memory_handles(before, b) {
            Ok((word % 256) as u8)
        } else if b == stack_address(wrap8(sp - 2)) && memory_handles(before, b) {
            Ok(byte)
        } else {
            memory_read(before, b)
        })
    &&& forall|b: u16| #[trigger] memory_handles(after, b) == memory_handles(before, b)
}

impl<M: Addressable> Cpu<M> {
    /// What a read of `address` returns: the connected memory's answer.
    pub open spec fn mem_read(&self, address: u16) -> Result<u8, NesError> {
        memory_read(self.memory, address)
    }

    /// Whether the connected memory answers `address`.
    pub open spec fn mem_handles(&self, address: u16) -> bool {
        memory_handles(self.memory, address)
    }

    /// Whether memory is connected and is plain storage.
    pub open spec fn storage(&self) -> bool {
        memory_is_storage(self.memory)
    }

    /// A little-endian word as two reads at `address` and the address after it return it.
    pub open spec fn mem_word(&self, address: u16) -> Result<u16, NesError> {
        word_from(self.mem_read(address), self.mem_read(next_address(address)))
    }

    /// `after` holds what `before` held, with every register, counter and line unchanged.
    pub open spec fn same_but_memory(before: &Cpu<M>, after: &Cpu<M>) -> bool {
        &&& after.registers == before.registers
        &&& after.cycles == before.cycles
        &&& after.decoder == before.decoder
        &&& after.need_nmi == before.need_nmi
        &&& after.prev_need_nmi == before.prev_need_nmi
        &&& after.prev_nmi_line == before.prev_nmi_line
        &&& after.run_irq == before.run_irq
        &&& after.prev_run_irq == before.prev_run_irq
        &&& after.nmi_line == before.nmi_line
        &&& after.irq_line == before.irq_line
        &&& (after.memory is Some <==> before.memory is Some)
    }

    /// Everything but the registers and the contents of memory is as it was.
    pub open spec fn same_lines(before: &Cpu<M>, after: &Cpu<M>) -> bool {
        &&& after.cycles == before.cycles
        &&& after.decoder == before.decoder
        &&& after.need_nmi == before.need_nmi
        &&& after.prev_need_nmi == before.prev_need_nmi
        &&& after.prev_nmi_line == before.prev_nmi_line
        &&& after.run_irq == before.run_irq
        &&& after.prev_run_irq == before.prev_run_irq
        &&& after.nmi_line == before.nmi_line
        &&& after.irq_line == before.irq_line
        &&& (after.memory is Some <==> before.memory is Some)
    }

    /// Storage memory reads as it did and answers the same addresses.
    pub open spec fn memory_unchanged(before: &Cpu<M>, after: &Cpu<M>) -> bool {
        memory_same(before.memory, after.memory)
    }

    /// Storage memory after one write of `value` to `address`.
    pub open spec fn memory_written(before: &Cpu<M>, after: &Cpu<M>, address: u16, value: u8) -> bool {
        memory_after_write(before.memory, after.memory, address, value)
    }

    /// A CPU in the power-up state, with no memory connected and both interrupt lines idle.
    pub fn new() -> (c: Self)
        ensures
            c.registers == power_up_registers(),
            c.cycles == 0,
            c.memory is None,
            c.decoder.wf(),
            !c.need_nmi && !c.prev_need_nmi && !c.prev_nmi_line,
            !c.run_irq && !c.prev_run_irq,
            !c.nmi_line && !c.irq_line,
    {
        Cpu {
            registers: CpuRegisters::default(),
            cycles: 0,
            memory: None,
            decoder: InstructionDecoder::new(),
            need_nmi: false,
            prev_need_nmi: false,
            prev_nmi_line: false,
            run_irq: false,
            prev_run_irq: false,
            nmi_line: false,
            irq_line: false,
        }
    }

    /// A copy of the registers.
    pub fn registers(&self) -> (r: CpuRegisters)
        ensures
            r == self.registers,
    {
        self.registers
    }

    /// Connect the bus.
    pub fn connect_memory(&mut self, memory: M)
        ensures
            final(self).memory == Some(memory),
            final(self).registers == old(self).registers,
            final(self).cycles == old(self).cycles,
            final(self).decoder == old(self).decoder,
            final(self).nmi_line == old(self).nmi_line,
            final(self).irq_line == old(self).irq_line,
            *final(self) == (Cpu { memory: Some(memory), ..*old(self) }),
    {
        self.memory = Some(memory);
    }

    /// Whether `flag` is set.
    pub fn get_flag(&self, flag: CpuFlag) -> (b: bool)
        ensures
            b == (self.registers.status & flag_mask(flag) != 0),
    {
        (self.registers.status & flag.mask()) != 0
    }

    /// Set or clear `flag`.
    pub fn set_flag(&mut self, flag: CpuFlag, value: bool)
        ensures
            final(self).registers == (CpuRegisters { status: set_bits(old(self).registers.status, flag_mask(flag), value), ..old(self).registers }),
            Cpu::same_but_registers(old(self), final(self)),
    {
        if value {
            self.registers.status = self.registers.status | flag.mask();
        } else {
            self.registers.status = self.registers.status & !flag.mask();
        }
    }

    /// Everything but the registers is as it was, memory included.
    pub open spec fn same_but_registers(before: &Cpu<M>, after: &Cpu<M>) -> bool {
        &&& after.cycles == before.cycles
        &&& after.memory == before.memory
        &&& after.decoder == before.decoder
        &&& after.need_nmi == before.need_nmi
        &&& after.prev_need_nmi == before.prev_need_nmi
        &&& after.prev_nmi_line == before.prev_nmi_line
        &&& after.run_irq == before.run_irq
        &&& after.prev_run_irq == before.prev_run_irq
        &&& after.nmi_line == before.nmi_line
        &&& after.irq_line == before.irq_line
    }

    /// Whether `flag` is set.
    pub fn is_flag_set(&self, flag: CpuFlag) -> (b: bool)
        ensures
            b == (self.registers.status & flag_mask(flag) != 0),
    {
        (self.registers.status & flag.mask()) != 0
    }

    /// Clear `flag`.
    pub fn clear_flag(&mut self, flag: CpuFlag)
        ensures
            final(self).registers == (CpuRegisters { status: set_bits(old(self).registers.status, flag_mask(flag), false), ..old(self).registers }),
            Cpu::same_but_registers(old(self), final(self)),
    {
        self.registers.status = self.registers.status & !flag.mask();
    }

    /// Set Zero and Negative from `value`.
    pub fn set_nz(&mut self, value: u8)
        ensures
            final(self).registers == (CpuRegisters { status: with_nz(old(self).registers.status, value), ..old(self).registers }),
            Cpu::same_but_registers(old(self), final(self)),
    {
        self.set_flag(CpuFlag::Zero, value == 0);
        self.set_flag(CpuFlag::Negative, (value & 0x80) != 0);
    }

    /// Read a byte from the bus.
    pub fn read_byte(&mut self, address: u16) -> (r: Result<u8, NesError>)
        ensures
            r == old(self).mem_read(address),
            Cpu::same_but_memory(old(self), final(self)),
            old(self).storage() ==> Cpu::memory_unchanged(old(self), final(self)),
    {
        match &mut self.memory {
            Some(m) => m.read_byte(address),
            None => Err(NesError::MemoryNotConnected),
        }
    }

    /// Write a byte to the bus.
    pub fn write_byte(&mut self, address: u16, value: u8) -> (r: Result<(), NesError>)
        ensures
            old(self).memory is None ==> r == Err::<(), NesError>(NesError::MemoryNotConnected),
            old(self).storage() && old(self).mem_handles(address) ==> r is Ok,
            Cpu::same_but_memory(old(self), final(self)),
            old(self).storage() ==> Cpu::memory_written(old(self), final(self), address, value),
    {
        match &mut self.memory {
            Some(m) => m.write_byte(address, value),
            None => Err(NesError::MemoryNotConnected),
        }
    }

    /// Read without any consequence of reading, for looking rather than executing.
    pub fn peek_byte(&self, address: u16) -> (r: Result<u8, NesError>)
        ensures
            r == self.mem_read(address),
    {
        match &self.memory {
            Some(m) => m.peek_byte(address),
            None => Err(NesError::MemoryNotConnected),
        }
    }

    /// Read a word without any consequence of reading.
    pub fn peek_word(&self, address: u16) -> (r: Result<u16, NesError>)
        ensures
            r == self.mem_word(address),
    {
        let low = self.peek_byte(address)?;
        let high = self.peek_byte(address.wrapping_add(1))?;
        Ok(crate::memory::combine_word(low, high))
    }

    /// Read a word as the processor does: the low byte, then the high byte.
    pub fn read_word(&mut self, address: u16) -> (r: Result<u16, NesError>)
        ensures
            old(self).storage() ==> r == old(self).mem_word(address),
            old(self).memory is None ==> r == Err::<u16, NesError>(NesError::MemoryNotConnected),
            Cpu::same_but_memory(old(self), final(self)),
            old(self).storage() ==> Cpu::memory_unchanged(old(self), final(self)),
    {
        let low = self.read_byte(address)?;
        let high = self.read_byte(address.wrapping_add(1))?;
        Ok(crate::memory::combine_word(low, high))
    }

    /// Write a word: the low byte at `address`, the high byte after it.
    pub fn write_word(&mut self, address: u16, value: u16) -> (r: Result<(), NesError>)
        ensures
            old(self).memory is None ==> r == Err::<(), NesError>(NesError::MemoryNotConnected),
            Cpu::same_but_memory(old(self), final(self)),
            old(self).storage() && old(self).mem_handles(address) && old(self).mem_handles(next_address(address))
                ==> r is Ok && final(self).mem_read(address) == Ok::<u8, NesError>((value % 256) as u8)
                && final(self).mem_read(next_address(address)) == Ok::<u8, NesError>((value / 256) as u8),
            old(self).storage() ==> final(self).storage(),
            old(self).storage() ==> forall|b: u16| b != address && b != next_address(address) ==> #[trigger]
                final(self).mem_read(b) == old(self).mem_read(b),
    {
        match &mut self.memory {
            Some(m) => m.write_word(address, value),
            None => Err(NesError::MemoryNotConnected),
        }
    }

    /// Push a byte: write it at the stack pointer, then move the pointer down.
    pub fn push_byte(&mut self, value: u8) -> (r: Result<(), NesError>)
        ensures
            old(self).storage() && old(self).mem_handles(stack_address(old(self).registers.sp)) ==> r is Ok,
            r is Ok ==> final(self).registers == (CpuRegisters { sp: wrap8(old(self).registers.sp - 1), ..old(self).registers }),
            r is Err ==> final(self).registers == old(self).registers,
            old(self).storage() ==> Cpu::memory_written(old(self), final(self), stack_address(old(self).registers.sp), value),
            final(self).cycles == old(self).cycles,
            final(self).decoder == old(self).decoder,
            final(self).nmi_line == old(self).nmi_line && final(self).irq_line == old(self).irq_line,
            final(self).need_nmi == old(self).need_nmi && final(self).prev_need_nmi == old(self).prev_need_nmi,
            final(self).prev_run_irq == old(self).prev_run_irq && final(self).run_irq == old(self).run_irq,
            final(self).prev_nmi_line == old(self).prev_nmi_line,
            final(self).memory is Some <==> old(self).memory is Some,
    {
        let sp = self.registers.sp;
        let stack_addr = 0x0100 | (sp as u16);
        assert(0x0100 | (sp as u16) == (0x0100 + sp as int) as u16) by (bit_vector);
        assert(stack_addr == stack_address(sp));
        let written = self.write_byte(stack_addr, value);
        let ghost mid = *self;
        if written.is_ok() {
            self.registers.sp = sp.wrapping_sub(1);
        }
        assert(self.memory == mid.memory);
        written
    }

    /// Pop a byte: a discarded read at the stack pointer, then the pointer moves up and the
    /// byte there is read.
    pub fn pop_byte(&mut self) -> (r: Result<u8, NesError>)
        ensures
            old(self).storage() ==> r == old(self).mem_read(stack_address(wrap8(old(self).registers.sp + 1))),
            final(self).registers == (CpuRegisters { sp: wrap8(old(self).registers.sp + 1), ..old(self).registers }),
            old(self).storage() ==> Cpu::memory_unchanged(old(self), final(self)),
            final(self).cycles == old(self).cycles,
            final(self).decoder == old(self).decoder,
            final(self).nmi_line == old(self).nmi_line && final(self).irq_line == old(self).irq_line,
            final(self).need_nmi == old(self).need_nmi && final(self).prev_need_nmi == old(self).prev_need_nmi,
            final(self).prev_run_irq == old(self).prev_run_irq && final(self).run_irq == old(self).run_irq,
            final(self).prev_nmi_line == old(self).prev_nmi_line,
            final(self).memory is Some <==> old(self).memory is Some,
    {
        let sp = self.registers.sp;
        let _ = self.read_byte(0x0100 | (sp as u16));
        let ghost mid = *self;
        let sp2 = sp.wrapping_add(1);
        self.registers.sp = sp2;
        assert(0x0100 | (sp2 as u16) == (0x0100 + sp2 as int) as u16) by (bit_vector);
        let stack_addr = 0x0100 | (sp2 as u16);
        assert(stack_addr == stack_address(wrap8(old(self).registers.sp + 1)));
        assert(self.memory == mid.memory);
        let r = self.read_byte(stack_addr);
        proof {
            if old(self).storage() {
                assert(mid.mem_read(stack_addr) == old(self).mem_read(stack_addr));
            }
        }
        r
    }

    /// Push a word, high byte first.
    pub fn push_word(&mut self, value: u16) -> (r: Result<(), NesError>)
        ensures
            old(self).storage() && old(self).mem_handles(stack_address(old(self).registers.sp))
                && old(self).mem_handles(stack_address(wrap8(old(self).registers.sp - 1))) ==> r is Ok,
            r is Ok ==> final(self).registers == (CpuRegisters { sp: wrap8(old(self).registers.sp - 2), ..old(self).registers }),
            old(self).storage() && r is Ok ==> memory_after_push_word(old(self).memory, final(self).memory, old(self).registers.sp, value),
            final(self).cycles == old(self).cycles,
            final(self).decoder == old(self).decoder,
            final(self).nmi_line == old(self).nmi_line && final(self).irq_line == old(self).irq_line,
            final(self).need_nmi == old(self).need_nmi && final(self).prev_need_nmi == old(self).prev_need_nmi,
            final(self).prev_run_irq == old(self).prev_run_irq && final(self).run_irq == old(self).run_irq,
            final(self).prev_nmi_line == old(self).prev_nmi_line,
            final(self).memory is Some <==> old(self).memory is Some,
    {
        let high = (value >> 8) as u8;
        let low = (value & 0xFF) as u8;
        proof {
            crate::memory::lemma_word_bytes(value);
        }
        let ghost before = *self;
        let first = self.push_byte(high);
        if first.is_err() {
            return first;
        }
        let ghost mid = *self;
        let second = self.push_byte(low);
        proof {
            if before.storage() && second is Ok {
                assert(stack_address(wrap8(before.registers.sp - 1)) != stack_address(before.registers.sp));
                assert forall|b: u16| #[trigger] memory_read(self.memory, b) == (
                    if b == stack_address(before.registers.sp) && memory_handles(before.memory, b) {
                        Ok::<u8, NesError>((value / 256) as u8)
                    } else if b == stack_address(wrap8(before.registers.sp - 1)) && memory_handles(before.memory, b) {
                        Ok::<u8, NesError>((value % 256) as u8)
                    } else {
                        memory_read(before.memory, b)
                    }) by {
                    assert(memory_read(mid.memory, b) == memory_read(before.memory, b) || b == stack_address(before.registers.sp));
                    assert(memory_handles(mid.memory, b) == memory_handles(before.memory, b));
                }
            }
        }
        second
    }

    /// Pop a word, low byte first.
    pub fn pop_word(&mut self) -> (r: Result<u16, NesError>)
        ensures
            old(self).storage() ==> r == word_from(
                old(self).mem_read(stack_address(wrap8(old(self).registers.sp + 1))),
                old(self).mem_read(stack_address(wrap8(old(self).registers.sp + 2))),
            ),
            r is Ok ==> final(self).registers == (CpuRegisters { sp: wrap8(old(self).registers.sp + 2), ..old(self).registers }),
            old(self).storage() ==> Cpu::memory_unchanged(old(self), final(self)),
            final(self).cycles == old(self).cycles,
            final(self).decoder == old(self).decoder,
            final(self).nmi_line == old(self).nmi_line && final(self).irq_line == old(self).irq_line,
            final(self).need_nmi == old(self).need_nmi && final(self).prev_need_nmi == old(self).prev_need_nmi,
            final(self).prev_run_irq == old(self).prev_run_irq && final(self).run_irq == old(self).run_irq,
            final(self).prev_nmi_line == old(self).prev_nmi_line,
            final(self).memory is Some <==> old(self).memory is Some,
    {
        let low = self.pop_byte()?;
        let high = self.pop_byte()?;
        Ok(crate::memory::combine_word(low, high))
    }
}


/// The status an interrupt pushes: Break clear and bit 5 set.
pub open spec fn interrupt_status(status: u8) -> u8 {
    set_bits(status, 0x10, false) | 0x20
}

/// `cpu` with the program counter past the opcode it points at: the state an instruction
/// executes in.
pub open spec fn fetched<M: Addressable>(cpu: &Cpu<M>) -> Cpu<M> {
    Cpu { registers: advance(cpu.registers, 1), ..*cpu }
}

/// A cycle count less an instruction's base count: the extra cycles execution reported.
pub open spec fn less_base(r: Result<u8, NesError>, base: u8) -> Result<u8, NesError> {
    match r {
        Ok(c) => Ok((c - base) as u8),
        Err(e) => Err(e),
    }
}

/// The interrupt state after the lines were sampled at the end of two cycles: an NMI edge
/// seen on the line latches, and IRQ is eligible while its line is held and InterruptDisable
/// is clear. Both shadows have caught up with what they follow.
pub open spec fn sampled<M: Addressable>(before: &Cpu<M>, after: &Cpu<M>) -> bool {
    let nmi = before.need_nmi || (!before.prev_nmi_line && before.nmi_line);
    let irq = before.irq_line && after.registers.status & 0x04 == 0;
    &&& after.need_nmi == nmi
    &&& after.prev_need_nmi == nmi
    &&& after.prev_nmi_line == before.nmi_line
    &&& after.run_irq == irq
    &&& after.prev_run_irq == irq
}

/// What a successful step does to the interrupt state: servicing a latched NMI clears it;
/// servicing an IRQ leaves a latched NMI alone; an instruction samples the lines.
pub open spec fn step_taken<M: Addressable>(before: Cpu<M>, after: Cpu<M>) -> bool {
    &&& after.nmi_line == before.nmi_line
    &&& after.irq_line == before.irq_line
    &&& if before.prev_need_nmi {
        !after.need_nmi && !after.prev_need_nmi && !after.prev_run_irq && after.prev_nmi_line == before.prev_nmi_line
    } else if before.prev_run_irq {
        after.need_nmi == before.need_nmi && !after.prev_need_nmi && !after.prev_run_irq && after.prev_nmi_line
            == before.prev_nmi_line
    } else {
        sampled(&before, &after)
    }
}

/// Whether each state of a run follows from the one before by a successful step.
pub open spec fn step_run<M: Addressable>(states: Seq<Cpu<M>>) -> bool {
    forall|k: int| 0 <= k < states.len() - 1 ==> step_taken(#[trigger] states[k], states[k + 1])
}

/// How many steps of a run service an NMI.
pub open spec fn nmi_services<M: Addressable>(states: Seq<Cpu<M>>) -> nat
    decreases states.len(),
{
    if states.len() < 2 {
        0
    } else {
        (if states[0].prev_need_nmi { 1nat } else { 0nat }) + nmi_services(states.drop_first())
    }
}

/// The interrupt latches and shadows are as they were.
pub open spec fn same_interrupt_state<M: Addressable>(before: &Cpu<M>, after: &Cpu<M>) -> bool {
    &&& after.need_nmi == before.need_nmi
    &&& after.prev_need_nmi == before.prev_need_nmi
    &&& after.prev_nmi_line == before.prev_nmi_line
    &&& after.run_irq == before.run_irq
    &&& after.prev_run_irq == before.prev_run_irq
}

impl<M: Addressable> Cpu<M> {
    /// The connected memory.
    pub fn memory(&self) -> (r: Result<&M, NesError>)
        ensures
            match self.memory {
                Some(m) => r == Ok::<&M, NesError>(&m),
                None => r == Err::<&M, NesError>(NesError::MemoryNotConnected),
            },
    {
        match &self.memory {
            Some(m) => Ok(m),
            None => Err(NesError::MemoryNotConnected),
        }
    }

    /// Reset: power-up registers, the program counter from the reset vector, seven cycles.
    pub fn reset(&mut self) -> (r: Result<(), NesError>)
        ensures
            Cpu::same_interrupt_lines(old(self), final(self)),
            old(self).memory is None ==> r == Err::<(), NesError>(NesError::MemoryNotConnected),
            old(self).storage() ==> Cpu::memory_unchanged(old(self), final(self)),
            old(self).storage() ==> match old(self).mem_word(RESET_VECTOR) {
                Ok(w) => r is Ok && final(self).registers == (CpuRegisters { pc: w, ..power_up_registers() })
                    && final(self).cycles == 7,
                Err(e) => r == Err::<(), NesError>(e) && final(self).registers == power_up_registers()
                    && final(self).cycles == old(self).cycles,
            },
    {
        self.registers = CpuRegisters::default();
        self.registers.pc = self.read_word(RESET_VECTOR)?;
        self.cycles = 7;
        Ok(())
    }

    /// The decoder, latches and lines are as they were.
    pub open spec fn same_interrupt_lines(before: &Cpu<M>, after: &Cpu<M>) -> bool {
        &&& after.decoder == before.decoder
        &&& same_interrupt_state(before, after)
        &&& after.nmi_line == before.nmi_line
        &&& after.irq_line == before.irq_line
        &&& (after.memory is Some <==> before.memory is Some)
    }

    /// Read the operand of an instruction in `mode`.
    pub fn read_byte_using_mode(&mut self, mode: AddressingMode) -> (r: Result<u8, NesError>)
        ensures
            Cpu::same_but_memory(old(self), final(self)),
            old(self).storage() ==> r == operand_value(mode, old(self)),
            old(self).storage() ==> Cpu::memory_unchanged(old(self), final(self)),
    {
        let ghost c0 = *self;
        let addr = mode.get_operand_address(self)?;
        let ghost c1 = *self;
        let r = self.read_byte(addr);
        proof {
            if c0.storage() {
                assert(c1.mem_read(addr) == c0.mem_read(addr));
            }
        }
        r
    }

    /// Assert the /NMI line and leave it asserted, as the PPU does through a vblank: one
    /// interrupt comes of the edge, none of holding it.
    pub fn request_nmi(&mut self)
        ensures
            *final(self) == (Cpu { nmi_line: true, ..*old(self) }),
    {
        self.nmi_line = true;
    }

    /// Drive the /NMI line to a level.
    pub fn set_nmi_line(&mut self, asserted: bool)
        ensures
            *final(self) == (Cpu { nmi_line: asserted, ..*old(self) }),
    {
        self.nmi_line = asserted;
    }

    /// Set the IRQ line. Level-triggered: the asserting device holds it.
    pub fn set_irq_line(&mut self, asserted: bool)
        ensures
            *final(self) == (Cpu { irq_line: asserted, ..*old(self) }),
    {
        self.irq_line = asserted;
    }

    /// Whether the IRQ line is asserted.
    pub fn irq_line(&self) -> (b: bool)
        ensures
            b == self.irq_line,
    {
        self.irq_line
    }

    /// The /NMI line's level.
    pub fn nmi_line(&self) -> (b: bool)
        ensures
            b == self.nmi_line,
    {
        self.nmi_line
    }

    /// Close one cycle: shift the latches into their one-cycle-delayed shadows, latch a rising
    /// NMI edge, and note whether IRQ is eligible.
    fn end_cpu_cycle(&mut self)
        ensures
            final(self).prev_need_nmi == old(self).need_nmi,
            final(self).need_nmi == (old(self).need_nmi || (!old(self).prev_nmi_line && old(self).nmi_line)),
            final(self).prev_nmi_line == old(self).nmi_line,
            final(self).prev_run_irq == old(self).run_irq,
            final(self).run_irq == (old(self).irq_line && old(self).registers.status & 0x04 == 0),
            final(self).registers == old(self).registers,
            final(self).cycles == old(self).cycles,
            final(self).memory == old(self).memory,
            final(self).decoder == old(self).decoder,
            final(self).nmi_line == old(self).nmi_line,
            final(self).irq_line == old(self).irq_line,
    {
        self.prev_need_nmi = self.need_nmi;
        let nmi_line = self.nmi_line;
        if !self.prev_nmi_line && nmi_line {
            self.need_nmi = true;
        }
        self.prev_nmi_line = nmi_line;
        self.prev_run_irq = self.run_irq;
        self.run_irq = self.irq_line && !self.get_flag(CpuFlag::InterruptDisable);
    }

    /// Consume a latched NMI for BRK to take over, if there is one.
    pub fn take_nmi_for_hijack(&mut self) -> (taken: bool)
        ensures
            taken == old(self).need_nmi,
            taken ==> *final(self) == (Cpu { need_nmi: false, prev_need_nmi: false, ..*old(self) }),
            !taken ==> *final(self) == *old(self),
    {
        if !self.need_nmi {
            return false;
        }
        self.clear_nmi();
        true
    }

    /// Release the latched NMI; only servicing does this.
    fn clear_nmi(&mut self)
        ensures
            *final(self) == (Cpu { need_nmi: false, prev_need_nmi: false, ..*old(self) }),
    {
        self.need_nmi = false;
        self.prev_need_nmi = false;
    }

    /// Bring the shadows up to date with the lines in one go: two cycles' worth.
    pub(crate) fn sample_interrupts(&mut self)
        ensures
            sampled(old(self), final(self)),
            final(self).registers == old(self).registers,
            final(self).cycles == old(self).cycles,
            final(self).memory == old(self).memory,
            final(self).decoder == old(self).decoder,
            final(self).nmi_line == old(self).nmi_line,
            final(self).irq_line == old(self).irq_line,
    {
        self.end_cpu_cycle();
        self.end_cpu_cycle();
    }

    /// Enter an interrupt handler: push the return address and the status (Break clear, bit 5
    /// set), set InterruptDisable, and jump through `vector`.
    fn service_interrupt(&mut self, vector: u16) -> (r: Result<u8, NesError>)
        requires
            vector == IRQ_VECTOR || vector == NMI_VECTOR,
        ensures
            Cpu::same_lines(old(self), final(self)),
            r is Ok ==> r == Ok::<u8, NesError>(INTERRUPT_CYCLES),
            old(self).storage() ==> interrupt_outcome(
                old(self),
                final(self),
                old(self).registers.pc,
                interrupt_status(old(self).registers.status),
                vector,
                r,
                INTERRUPT_CYCLES,
            ),
    {
        let status = (self.registers.status & !CpuFlag::Break.mask()) | CpuFlag::Unused.mask();
        self.push_frame(self.registers.pc, status, vector)?;
        Ok(INTERRUPT_CYCLES)
    }

    /// Service a pending interrupt, acting on the shadows: NMI first, then IRQ. Both shadows are
    /// cleared, so one instruction of the handler runs before another interrupt is taken.
    fn poll_interrupts(&mut self) -> (r: Result<Option<u8>, NesError>)
        ensures
            final(self).cycles == old(self).cycles,
            final(self).decoder == old(self).decoder,
            final(self).nmi_line == old(self).nmi_line && final(self).irq_line == old(self).irq_line,
            final(self).prev_nmi_line == old(self).prev_nmi_line,
            final(self).run_irq == old(self).run_irq,
            final(self).memory is Some <==> old(self).memory is Some,
            old(self).prev_need_nmi ==> {
                &&& !final(self).need_nmi && !final(self).prev_need_nmi && !final(self).prev_run_irq
                &&& r matches Ok(c) ==> c == Some(INTERRUPT_CYCLES)
                &&& old(self).storage() ==> interrupt_outcome(old(self), final(self), old(self).registers.pc,
                    interrupt_status(old(self).registers.status), NMI_VECTOR, unwrap_cycles(r), INTERRUPT_CYCLES)
            },
            !old(self).prev_need_nmi && old(self).prev_run_irq ==> {
                &&& final(self).need_nmi == old(self).need_nmi && !final(self).prev_need_nmi && !final(self).prev_run_irq
                &&& r matches Ok(c) ==> c == Some(INTERRUPT_CYCLES)
                &&& old(self).storage() ==> interrupt_outcome(old(self), final(self), old(self).registers.pc,
                    interrupt_status(old(self).registers.status), IRQ_VECTOR, unwrap_cycles(r), INTERRUPT_CYCLES)
            },
            !old(self).prev_need_nmi && !old(self).prev_run_irq ==> r == Ok::<Option<u8>, NesError>(None)
                && *final(self) == *old(self),
    {
        if self.prev_need_nmi {
            self.clear_nmi();
            self.prev_run_irq = false;
            let cycles = self.service_interrupt(NMI_VECTOR)?;
            return Ok(Some(cycles));
        }
        if self.prev_run_irq {
            self.prev_run_irq = false;
            let cycles = self.service_interrupt(IRQ_VECTOR)?;
            return Ok(Some(cycles));
        }
        Ok(None)
    }
}

/// A polled interrupt's cycles as a plain result.
pub open spec fn unwrap_cycles(r: Result<Option<u8>, NesError>) -> Result<u8, NesError> {
    match r {
        Ok(Some(c)) => Ok(c),
        Ok(None) => Ok(0),
        Err(e) => Err(e),
    }
}


/// What memory reads at `b` once the first `count` bytes of `program` have been written from
/// `load` on, one after another, over what `before` held. Writes wrap at the top of the address
/// space, and a later byte overwrites an earlier one at the same address.
pub open spec fn loaded_read<M: Addressable>(before: Option<M>, program: Seq<u8>, load: u16, count: nat, b: u16) -> Result<u8, NesError>
    decreases count,
{
    if count == 0 {
        memory_read(before, b)
    } else if b == wrap16(load + count - 1) && memory_handles(before, b) {
        Ok(program[count - 1])
    } else {
        loaded_read(before, program, load, (count - 1) as nat, b)
    }
}

/// Whether memory answers every address `program` is written to from `load` on.
pub open spec fn program_answered<M: Addressable>(cpu: &Cpu<M>, program: Seq<u8>, load: u16) -> bool {
    forall|i: int| 0 <= i < program.len() ==> #[trigger] cpu.mem_handles(wrap16(load + i))
}

impl<M: Addressable> Cpu<M> {
    /// Write `program` from `load_address` on, point the reset vector at it, and reset.
    pub fn load_program(&mut self, program: &[u8], load_address: u16) -> (r: Result<(), NesError>)
        ensures
            Cpu::same_interrupt_lines(old(self), final(self)),
            old(self).memory is None ==> r == Err::<(), NesError>(NesError::MemoryNotConnected),
            old(self).storage() && program_answered(old(self), program@, load_address)
                && old(self).mem_handles(RESET_VECTOR) && old(self).mem_handles(next_address(RESET_VECTOR)) ==> {
                &&& r is Ok
                &&& final(self).registers == (CpuRegisters { pc: load_address, ..power_up_registers() })
                &&& final(self).cycles == 7
                &&& final(self).storage()
                &&& final(self).mem_word(RESET_VECTOR) == Ok::<u16, NesError>(load_address)
                &&& forall|b: u16| b != RESET_VECTOR && b != next_address(RESET_VECTOR) ==>
                    #[trigger] final(self).mem_read(b) == loaded_read(old(self).memory, program@, load_address, program@.len(), b)
            },
    {
        let ghost c0 = *self;
        let n = program.len();
        let mut i: usize = 0;
        let mut offset: u16 = 0;
        while i < n
            invariant
                i <= n,
                n == program@.len(),
                offset as int == i as int % 0x10000,
                Cpu::same_but_memory(&c0, self),
                c0.memory is None ==> self.memory is None,
                c0.storage() ==> self.storage(),
                c0.storage() ==> forall|b: u16| #[trigger] memory_read(self.memory, b)
                    == loaded_read(c0.memory, program@, load_address, i as nat, b),
                c0.storage() ==> forall|b: u16| #[trigger] memory_handles(self.memory, b) == memory_handles(c0.memory, b),
                c0 == *old(self),
            decreases n - i,
        {
            let address = load_address.wrapping_add(offset);
            proof {
                vstd::arithmetic::div_mod::lemma_add_mod_noop(load_address as int, i as int, 0x10000);
                vstd::arithmetic::div_mod::lemma_small_mod(load_address as nat, 0x10000);
                assert(address == wrap16(load_address + i));
                if c0.storage() && program_answered(&c0, program@, load_address) {
                    assert(c0.mem_handles(wrap16(load_address + i as int)));
                    assert(memory_handles(self.memory, address) == memory_handles(c0.memory, address));
                }
            }
            let ghost before_write = *self;
            let written = self.write_byte(address, program[i]);
            proof {
                if c0.storage() {
                    assert forall|b: u16| #[trigger] memory_read(self.memory, b)
                        == loaded_read(c0.memory, program@, load_address, (i + 1) as nat, b) by {
                        assert(memory_handles(before_write.memory, address) == memory_handles(c0.memory, address));
                    }
                }
            }
            written?;
            i += 1;
            offset = offset.wrapping_add(1);
        }
        let ghost c1 = *self;
        self.write_word(RESET_VECTOR, load_address)?;
        let ghost c2 = *self;
        let reset = self.reset();
        proof {
            if c0.storage() && program_answered(&c0, program@, load_address)
                && c0.mem_handles(RESET_VECTOR) && c0.mem_handles(next_address(RESET_VECTOR)) {
                assert(c1.mem_handles(RESET_VECTOR) && c1.mem_handles(next_address(RESET_VECTOR)));
                assert(load_address == (load_address / 256) as u8 as u16 * 256 + (load_address % 256) as u8 as u16);
                assert(c2.mem_word(RESET_VECTOR) == Ok::<u16, NesError>(load_address));
                assert forall|b: u16| b != RESET_VECTOR && b != next_address(RESET_VECTOR) implies
                    #[trigger] self.mem_read(b) == loaded_read(c0.memory, program@, load_address, program@.len(), b) by {
                    assert(c2.mem_read(b) == c1.mem_read(b));
                }
            }
        }
        reset
    }

    /// Run one step: service a pending interrupt, or fetch, decode and execute one instruction.
    /// Returns the cycles taken, which the cycle counter advances by.
    #[verifier::rlimit(40)]
    pub fn step(&mut self) -> (r: Result<u8, NesError>)
        requires
            old(self).decoder.wf(),
            old(self).cycles <= u64::MAX - 9,
            !old(self).prev_need_nmi && !old(self).prev_run_irq && old(self).registers.pc == 0xFFFE
                ==> old(self).mem_read(0xFFFE) != Ok::<u8, NesError>(0x20),
        ensures
            final(self).decoder == old(self).decoder,
            final(self).nmi_line == old(self).nmi_line && final(self).irq_line == old(self).irq_line,
            final(self).memory is Some <==> old(self).memory is Some,
            r is Ok ==> step_taken(*old(self), *final(self)),
            old(self).prev_need_nmi ==> {
                &&& !final(self).need_nmi && !final(self).prev_need_nmi && !final(self).prev_run_irq
                &&& final(self).prev_nmi_line == old(self).prev_nmi_line && final(self).run_irq == old(self).run_irq
                &&& r matches Ok(c) ==> c == INTERRUPT_CYCLES && final(self).cycles == old(self).cycles + c
                &&& r is Err ==> final(self).cycles == old(self).cycles
                &&& old(self).storage() ==> interrupt_outcome(old(self), final(self), old(self).registers.pc,
                    interrupt_status(old(self).registers.status), NMI_VECTOR, r, INTERRUPT_CYCLES)
            },
            !old(self).prev_need_nmi && old(self).prev_run_irq ==> {
                &&& final(self).need_nmi == old(self).need_nmi && !final(self).prev_need_nmi && !final(self).prev_run_irq
                &&& final(self).prev_nmi_line == old(self).prev_nmi_line && final(self).run_irq == old(self).run_irq
                &&& r matches Ok(c) ==> c == INTERRUPT_CYCLES && final(self).cycles == old(self).cycles + c
                &&& r is Err ==> final(self).cycles == old(self).cycles
                &&& old(self).storage() ==> interrupt_outcome(old(self), final(self), old(self).registers.pc,
                    interrupt_status(old(self).registers.status), IRQ_VECTOR, r, INTERRUPT_CYCLES)
            },
            !old(self).prev_need_nmi && !old(self).prev_run_irq ==> match old(self).mem_read(old(self).registers.pc) {
                Err(e) => r == Err::<u8, NesError>(e) && final(self).registers == old(self).registers
                    && final(self).cycles == old(self).cycles && same_interrupt_state(old(self), final(self)),
                Ok(op) => match opcode_entry(op) {
                    None => r == Err::<u8, NesError>(NesError::InstructionDecoderError(InstructionDecoderError::InvalidOpcode(op)))
                        && final(self).registers == advance(old(self).registers, 1)
                        && final(self).cycles == old(self).cycles && same_interrupt_state(old(self), final(self)),
                    Some(m) => {
                        &&& old(self).storage() ==> executed(&fetched(old(self)), final(self), m, less_base(r, m.cycles))
                        &&& r matches Ok(c) ==> m.cycles <= c <= m.cycles + 2 && final(self).cycles == old(self).cycles + c
                            && sampled(old(self), final(self))
                        &&& r is Err ==> final(self).cycles == old(self).cycles && same_interrupt_state(old(self), final(self))
                    },
                },
            },
    {
        let ghost s0 = *self;
        let polled = self.poll_interrupts()?;
        if let Some(cycles) = polled {
            let ghost s1 = *self;
            self.cycles = self.cycles + cycles as u64;
            proof {
                if s0.storage() {
                    assert(s1.registers == self.registers && s1.memory == self.memory);
                }
            }
            return Ok(cycles);
        }
        let opcode = self.fetch()?;
        let ghost s1 = *self;
        let metadata = match self.decoder.decode(opcode) {
            Ok(m) => m,
            Err(e) => return Err(NesError::InstructionDecoderError(e)),
        };
        proof {
            lemma_opcode_entry_bounds(opcode);
        }
        let additional_cycles = self.execute(metadata)?;
        let ghost s2 = *self;
        let total_cycles = metadata.cycles + additional_cycles;
        // No clock advances the cycles here, so the lines are sampled once per instruction.
        self.sample_interrupts();
        self.cycles = self.cycles + total_cycles as u64;
        proof {
            if s0.storage() {
                instruction::lemma_executed_same_after(&s1, &s2, self, metadata, Ok(additional_cycles));
                assert(less_base(Ok::<u8, NesError>(total_cycles), metadata.cycles) == Ok::<u8, NesError>(additional_cycles));
                assert(fetched(&s0).registers == s1.registers);
                instruction::lemma_executed_same_reads(&fetched(&s0), &s1, self, metadata, Ok(additional_cycles));
            }
        }
        Ok(total_cycles)
    }
}

impl<M: Addressable> Default for Cpu<M> {
    /// A CPU in the power-up state with no memory connected.
    fn default() -> (c: Self)
        ensures
            c.registers == power_up_registers(),
            c.cycles == 0,
            c.memory is None,
            c.decoder.wf(),
            !c.need_nmi && !c.prev_need_nmi && !c.prev_nmi_line,
            !c.run_irq && !c.prev_run_irq,
            !c.nmi_line && !c.irq_line,
    {
        Self::new()
    }
}


/// Setting a flag is what reading it gives back, and setting one flag leaves every other as it
/// was.
pub proof fn lemma_flag_reads_back(status: u8, flag: CpuFlag, value: bool, other: CpuFlag)
    ensures
        (set_bits(status, flag_mask(flag), value) & flag_mask(flag) != 0) == value,
        other != flag ==> (set_bits(status, flag_mask(flag), value) & flag_mask(other) != 0)
            == (status & flag_mask(other) != 0),
{
    instruction::lemma_single_bit_update(status, flag_mask(flag), flag_mask(flag), value);
    instruction::lemma_single_bit_update(status, flag_mask(flag), flag_mask(other), value);
}

/// A pop after a push reads back the pushed byte, and leaves the stack pointer where it was.
pub proof fn lemma_pop_reads_what_push_wrote<M: Addressable>(before: &Cpu<M>, after: &Cpu<M>, value: u8)
    requires
        Cpu::memory_written(before, after, stack_address(before.registers.sp), value),
        before.mem_handles(stack_address(before.registers.sp)),
    ensures
        wrap8(wrap8(before.registers.sp - 1) + 1) == before.registers.sp,
        after.mem_read(stack_address(wrap8(wrap8(before.registers.sp - 1) + 1))) == Ok::<u8, NesError>(value),
{
    assert(wrap8(wrap8(before.registers.sp - 1) + 1) == before.registers.sp);
}

/// Popping a word after pushing one reads back the pushed word, and leaves the stack pointer
/// where it was: what RTS finds is what JSR left.
pub proof fn lemma_pop_word_reads_what_push_word_wrote<M: Addressable>(before: &Cpu<M>, after: &Cpu<M>, value: u16)
    requires
        memory_after_push_word(before.memory, after.memory, before.registers.sp, value),
        before.mem_handles(stack_address(before.registers.sp)),
        before.mem_handles(stack_address(wrap8(before.registers.sp - 1))),
    ensures
        wrap8(wrap8(before.registers.sp - 2) + 2) == before.registers.sp,
        instruction::stacked_word(after, wrap8(before.registers.sp - 2)) == Ok::<u16, NesError>(value),
{
    let sp = before.registers.sp;
    assert(wrap8(wrap8(sp - 2) + 1) == wrap8(sp - 1));
    assert(wrap8(wrap8(sp - 2) + 2) == sp);
    assert(stack_address(wrap8(sp - 1)) != stack_address(sp));
    assert(after.mem_read(stack_address(wrap8(sp - 1))) == Ok::<u8, NesError>((value % 256) as u8));
    assert(after.mem_read(stack_address(sp)) == Ok::<u8, NesError>((value / 256) as u8));
}

/// RTS after JSR returns to the instruction after the JSR, with the stack pointer where it was
/// before the call.
pub proof fn lemma_rts_returns_after_jsr<M: Addressable>(
    before: &Cpu<M>,
    called: &Cpu<M>,
    returned: &Cpu<M>,
    mode: AddressingMode,
    r: Result<u8, NesError>,
)
    requires
        before.registers.pc < 0xFFFF,
        before.mem_handles(stack_address(before.registers.sp)),
        before.mem_handles(stack_address(wrap8(before.registers.sp - 1))),
        operand_address(mode, before) is Ok,
        instruction::call_outcome(before, called, mode, Ok::<u8, NesError>(0)),
        instruction::return_outcome(called, returned, r),
    ensures
        r == Ok::<u8, NesError>(0),
        returned.registers.pc == wrap16(before.registers.pc + 2),
        returned.registers.sp == before.registers.sp,
{
    lemma_pop_word_reads_what_push_word_wrote(before, called, (before.registers.pc + 1) as u16);
}

/// A held /NMI line gives no second interrupt: with the line already seen asserted, sampling
/// latches nothing new.
pub proof fn lemma_held_nmi_line_latches_nothing_new<M: Addressable>(before: &Cpu<M>, after: &Cpu<M>)
    requires
        before.prev_nmi_line,
        sampled(before, after),
    ensures
        after.need_nmi == before.need_nmi,
{
}

/// A latched NMI survives its line being released: only servicing releases it.
pub proof fn lemma_latched_nmi_survives_release<M: Addressable>(before: &Cpu<M>, after: &Cpu<M>)
    requires
        before.need_nmi,
        sampled(before, after),
    ensures
        after.need_nmi,
        after.prev_need_nmi,
{
}

/// A rising edge on /NMI latches an interrupt, and IRQ is eligible exactly while its line is
/// held and InterruptDisable is clear.
pub proof fn lemma_sampling_sees_edges_and_levels<M: Addressable>(before: &Cpu<M>, after: &Cpu<M>)
    requires
        sampled(before, after),
    ensures
        !before.prev_nmi_line && before.nmi_line ==> after.need_nmi,
        after.prev_run_irq == (before.irq_line && after.registers.status & 0x04 == 0),
{
}


/// The run stays clear of NMIs once the edge it saw was serviced and the line stays held.
proof fn lemma_serviced_stays_clear<M: Addressable>(states: Seq<Cpu<M>>)
    requires
        step_run(states),
        states.len() > 0,
        !states[0].need_nmi && !states[0].prev_need_nmi && states[0].prev_nmi_line && states[0].nmi_line,
    ensures
        nmi_services(states) == 0,
    decreases states.len(),
{
    if states.len() >= 2 {
        assert(step_taken(states[0], states[1]));
        let rest = states.drop_first();
        assert forall|k: int| 0 <= k < rest.len() - 1 implies step_taken(#[trigger] rest[k], rest[k + 1]) by {
            assert(step_taken(states[k + 1], states[k + 2]));
        }
        lemma_serviced_stays_clear(rest);
    }
}

/// A latched NMI is serviced by the next step, and never again while the line stays held.
proof fn lemma_latched_serviced_once<M: Addressable>(states: Seq<Cpu<M>>)
    requires
        step_run(states),
        states.len() > 0,
        states[0].need_nmi && states[0].prev_need_nmi && states[0].prev_nmi_line && states[0].nmi_line,
    ensures
        nmi_services(states) == (if states.len() >= 2 { 1nat } else { 0nat }),
{
    if states.len() >= 2 {
        assert(step_taken(states[0], states[1]));
        let rest = states.drop_first();
        assert forall|k: int| 0 <= k < rest.len() - 1 implies step_taken(#[trigger] rest[k], rest[k + 1]) by {
            assert(step_taken(states[k + 1], states[k + 2]));
        }
        lemma_serviced_stays_clear(rest);
    }
}

/// One rising edge of /NMI, one interrupt, however long the line stays down: over a run of
/// successful steps that starts with the edge unseen and keeps the line asserted, at most one
/// step services an NMI, and one does within three steps (two when no IRQ is due first).
pub proof fn lemma_one_edge_one_nmi<M: Addressable>(states: Seq<Cpu<M>>)
    requires
        step_run(states),
        states.len() > 0,
        !states[0].need_nmi && !states[0].prev_need_nmi && !states[0].prev_nmi_line,
        forall|k: int| 0 <= k < states.len() ==> #[trigger] states[k].nmi_line,
    ensures
        nmi_services(states) <= 1,
        states.len() >= 4 ==> nmi_services(states) == 1,
        states.len() >= 3 && !states[0].prev_run_irq ==> nmi_services(states) == 1,
    decreases states.len(),
{
    if states.len() >= 2 {
        assert(states[0].nmi_line && states[1].nmi_line);
        assert(step_taken(states[0], states[1]));
        let rest = states.drop_first();
        assert forall|k: int| 0 <= k < rest.len() - 1 implies step_taken(#[trigger] rest[k], rest[k + 1]) by {
            assert(step_taken(states[k + 1], states[k + 2]));
        }
        assert forall|k: int| 0 <= k < rest.len() implies #[trigger] rest[k].nmi_line by {
            assert(states[k + 1].nmi_line);
        }
        if states[0].prev_run_irq {
            lemma_one_edge_one_nmi(rest);
        } else {
            lemma_latched_serviced_once(rest);
        }
    }
}

} // verus!
