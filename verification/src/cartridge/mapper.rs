//! Cartridge mappers: the bank-switching hardware that lays a large ROM over the CPU's 32 KB
//! program window and the PPU's 8 KB pattern window. A write into cartridge space is a command to
//! the mapper, not a write to ROM.
use vstd::prelude::*;

use super::Mirroring;

verus! {

/// Size of an MMC3 PRG bank.
pub const PRG_BANK: usize = 8 * 1024;
/// Size of an MMC3 CHR bank.
pub const CHR_BANK: usize = 1024;

/// How many whole banks of `size` bytes `len` bytes hold; at least one.
pub open spec fn bank_count(len: int, size: int) -> int {
    if len / size >= 1 { len / size } else { 1 }
}

/// Whether reading `offset` of a bank of `size` bytes stays inside data of `len` bytes: data
/// shorter than one bank is only readable where it reaches.
pub open spec fn bank_readable(len: int, size: int, offset: int) -> bool {
    len == 0 || len >= size || offset < len
}

/// The index of byte `offset` of bank `bank`, the bank number wrapping as a cartridge's
/// address lines wrap it.
pub open spec fn bank_index(len: int, bank: int, size: int, offset: int) -> int {
    (bank % bank_count(len, size)) * size + offset
}

/// A byte of `data` seen as banks of `size` bytes: zero for no data.
pub open spec fn banked_byte(data: Seq<u8>, bank: int, size: int, offset: int) -> u8 {
    if data.len() == 0 {
        0
    } else {
        data[bank_index(data.len() as int, bank, size, offset)]
    }
}

/// A byte of 8 KB CHR data at `address`, zero past its end.
pub open spec fn chr_byte(chr: Seq<u8>, address: u16) -> u8 {
    let i = address % 0x2000;
    if i < chr.len() { chr[i as int] } else { 0 }
}

/// `chr` after a write to `address` of 8 KB CHR space, which data too short ignores.
pub open spec fn chr_written(chr: Seq<u8>, address: u16, value: u8) -> Seq<u8> {
    let i = address % 0x2000;
    if i < chr.len() { chr.update(i as int, value) } else { chr }
}

/// CHR data as a board ships it: 8 KB of CHR RAM when there is no CHR ROM.
pub open spec fn chr_or_ram(chr: Seq<u8>) -> Seq<u8> {
    if chr.len() == 0 { Seq::new(0x2000, |i: int| 0u8) } else { chr }
}

/// `bank_index` stays inside data at least one bank long, and inside one bank otherwise.
proof fn lemma_bank_index_bounds(len: int, bank: int, size: int, offset: int)
    requires
        len >= 0,
        bank >= 0,
        size > 0,
        0 <= offset < size,
    ensures
        0 <= bank_index(len, bank, size, offset),
        len >= size ==> bank_index(len, bank, size, offset) < len,
        len < size ==> bank_index(len, bank, size, offset) == offset,
{
    if len >= size {
        assert(len / size >= 1) by (nonlinear_arith)
            requires
                len >= size,
                size > 0,
        ;
    } else {
        assert(len / size == 0) by (nonlinear_arith)
            requires
                0 <= len < size,
        ;
    }
    let n = bank_count(len, size);
    let k = bank % n;
    assert(0 <= k < n) by (nonlinear_arith)
        requires
            n >= 1,
            bank >= 0,
            k == bank % n,
    ;
    if len >= size {
        assert(n == len / size);
        assert(k * size + offset < len) by (nonlinear_arith)
            requires
                0 <= k < n,
                n == len / size,
                size > 0,
                0 <= offset < size,
                len >= size,
        ;
    } else {
        assert(n == 1);
        assert(k == 0) by (nonlinear_arith)
            requires
                n == 1,
                k == bank % n,
        ;
        assert(k * size == 0);
    }
    assert(0 <= k * size) by (nonlinear_arith)
        requires
            k >= 0,
            size > 0,
    ;
}

/// The index of byte `offset` of bank `bank` of `len` bytes of data.
fn bank_offset(len: usize, bank: usize, size: usize, offset: usize) -> (i: usize)
    requires
        size > 0,
        offset < size,
    ensures
        i == bank_index(len as int, bank as int, size as int, offset as int),
{
    proof {
        lemma_bank_index_bounds(len as int, bank as int, size as int, offset as int);
    }
    let banks = if len / size > 1 { len / size } else { 1 };
    let k = bank % banks;
    assert(k * size <= bank_index(len as int, bank as int, size as int, offset as int));
    k * size + offset
}

/// Read byte `offset` of bank `bank` of `data`, zero for no data.
fn banked(data: &Vec<u8>, bank: usize, bank_size: usize, offset: usize) -> (b: u8)
    requires
        bank_size > 0,
        offset < bank_size,
        bank_readable(data@.len() as int, bank_size as int, offset as int),
    ensures
        b == banked_byte(data@, bank as int, bank_size as int, offset as int),
{
    if data.len() == 0 {
        return 0;
    }
    proof {
        lemma_bank_index_bounds(data@.len() as int, bank as int, bank_size as int, offset as int);
    }
    data[bank_offset(data.len(), bank, bank_size, offset)]
}

/// 8 KB of zeros, the CHR RAM of boards without CHR ROM.
fn chr_ram(chr: Vec<u8>) -> (v: Vec<u8>)
    ensures
        v@ == chr_or_ram(chr@),
{
    if chr.len() != 0 {
        return chr;
    }
    let mut v: Vec<u8> = Vec::new();
    let mut i: usize = 0;
    while i < 0x2000
        invariant
            i <= 0x2000,
            v@ == Seq::new(i as nat, |k: int| 0u8),
        decreases 0x2000 - i,
    {
        v.push(0);
        i += 1;
    }
    v
}

/// Read 8 KB of CHR space, zero past the data's end.
fn read_chr_8k(chr: &Vec<u8>, address: u16) -> (b: u8)
    ensures
        b == chr_byte(chr@, address),
{
    let index = (address & 0x1FFF) as usize;
    proof {
        crate::memory::lemma_low_bits(address);
    }
    if index < chr.len() {
        chr[index]
    } else {
        0
    }
}

/// Write 8 KB of CHR space; data too short ignores it.
fn write_chr_8k(chr: &mut Vec<u8>, address: u16, value: u8)
    ensures
        final(chr)@ == chr_written(old(chr)@, address, value),
{
    let index = (address & 0x1FFF) as usize;
    proof {
        crate::memory::lemma_low_bits(address);
    }
    if index < chr.len() {
        chr.set(index, value);
    }
}

/// A cartridge's bank-switching hardware. Addresses are the raw CPU or PPU addresses.
pub trait Mapper {
    /// The mapper's own invariant.
    spec fn wf(&self) -> bool;

    /// Whether a read of CPU address `address` stays inside the PRG data.
    spec fn prg_readable(&self, address: u16) -> bool;

    /// Whether a read of PPU address `address` stays inside the CHR data.
    spec fn chr_readable(&self, address: u16) -> bool;

    /// What the CPU reads at `address` in `$4020-$FFFF`.
    spec fn spec_read_prg(&self, address: u16) -> u8;

    /// What the PPU reads at `address` in `$0000-$1FFF`.
    spec fn spec_read_chr(&self, address: u16) -> u8;

    /// The nametable mirroring the mapper selects.
    spec fn spec_mirroring(&self) -> Mirroring;

    /// Read from CPU address space.
    fn read_prg(&self, address: u16) -> (b: u8)
        requires
            self.wf(),
            self.prg_readable(address),
        ensures
            b == self.spec_read_prg(address),
    ;

    /// Write to CPU address space: usually a mapper register rather than storage.
    fn write_prg(&mut self, address: u16, value: u8)
        requires
            old(self).wf(),
        ensures
            final(self).wf(),
    ;

    /// Read from PPU pattern space.
    fn read_chr(&self, address: u16) -> (b: u8)
        requires
            self.wf(),
            self.chr_readable(address),
        ensures
            b == self.spec_read_chr(address),
    ;

    /// Write to PPU pattern space; only CHR RAM keeps it.
    fn write_chr(&mut self, address: u16, value: u8)
        requires
            old(self).wf(),
        ensures
            final(self).wf(),
    ;

    /// Nametable mirroring, which some mappers let the game change.
    fn mirroring(&self) -> (m: Mirroring)
        ensures
            m == self.spec_mirroring(),
    ;

    /// Whether the mapper is asserting an IRQ; only scanline-counting mappers ever do.
    fn irq_pending(&self) -> (b: bool)
        default_ensures
            !b,
    {
        false
    }

    /// Acknowledge the mapper's IRQ.
    fn acknowledge_irq(&mut self)
        requires
            old(self).wf(),
        ensures
            final(self).wf(),
    {
    }

    /// A scanline has been rendered, for mappers that count them.
    fn on_scanline(&mut self)
        requires
            old(self).wf(),
        ensures
            final(self).wf(),
    {
    }
}

/// NROM (mapper 0): no banking. A 16 KB image shows in both halves of `$8000-$FFFF`.
#[derive(Debug)]
pub struct Nrom {
    pub prg: Vec<u8>,
    pub chr: Vec<u8>,
    pub mirroring: Mirroring,
}

impl Nrom {
    pub fn new(prg: Vec<u8>, chr: Vec<u8>, mirroring: Mirroring) -> (m: Self)
        ensures
            m.prg@ == prg@,
            m.chr@ == chr@,
            m.mirroring == mirroring,
    {
        Nrom { prg, chr, mirroring }
    }
}

impl Mapper for Nrom {
    open spec fn wf(&self) -> bool {
        true
    }

    open spec fn prg_readable(&self, address: u16) -> bool {
        true
    }

    open spec fn chr_readable(&self, address: u16) -> bool {
        true
    }

    open spec fn spec_read_prg(&self, address: u16) -> u8 {
        if self.prg@.len() == 0 {
            0
        } else {
            self.prg@[(if address >= 0x8000 { address - 0x8000 } else { 0 }) % self.prg@.len() as int]
        }
    }

    open spec fn spec_read_chr(&self, address: u16) -> u8 {
        chr_byte(self.chr@, address)
    }

    open spec fn spec_mirroring(&self) -> Mirroring {
        self.mirroring
    }

    fn read_prg(&self, address: u16) -> (b: u8) {
        if self.prg.len() == 0 {
            return 0;
        }
        let offset = (address as usize).saturating_sub(0x8000);
        self.prg[offset % self.prg.len()]
    }

    /// No registers: the ROM is fixed in place, and the write is lost.
    fn write_prg(&mut self, address: u16, value: u8)
        ensures
            final(self).prg@ == old(self).prg@,
            final(self).chr@ == old(self).chr@,
            final(self).mirroring == old(self).mirroring,
    {
    }

    fn read_chr(&self, address: u16) -> (b: u8) {
        read_chr_8k(&self.chr, address)
    }

    fn write_chr(&mut self, address: u16, value: u8)
        ensures
            final(self).chr@ == chr_written(old(self).chr@, address, value),
            final(self).prg@ == old(self).prg@,
            final(self).mirroring == old(self).mirroring,
    {
        write_chr_8k(&mut self.chr, address, value);
    }

    fn mirroring(&self) -> (m: Mirroring) {
        self.mirroring
    }
}

/// UxROM (mapper 2): one switchable 16 KB bank at `$8000`, the last bank fixed at `$C000` so
/// the vectors stay reachable.
#[derive(Debug)]
pub struct UxRom {
    pub prg: Vec<u8>,
    pub chr: Vec<u8>,
    pub bank: usize,
    pub mirroring: Mirroring,
}

impl UxRom {
    pub fn new(prg: Vec<u8>, chr: Vec<u8>, mirroring: Mirroring) -> (m: Self)
        ensures
            m.prg@ == prg@,
            m.chr@ == chr_or_ram(chr@),
            m.bank == 0,
            m.mirroring == mirroring,
    {
        let chr = chr_ram(chr);
        UxRom { prg, chr, bank: 0, mirroring }
    }

    /// The number of the last 16 KB bank.
    pub open spec fn spec_last_bank(&self) -> int {
        if self.prg@.len() / 0x4000 >= 1 { self.prg@.len() / 0x4000 - 1 } else { 0 }
    }

    fn last_bank(&self) -> (b: usize)
        ensures
            b == self.spec_last_bank(),
    {
        (self.prg.len() / (16 * 1024)).saturating_sub(1)
    }
}

impl Mapper for UxRom {
    open spec fn wf(&self) -> bool {
        true
    }

    open spec fn prg_readable(&self, address: u16) -> bool {
        bank_readable(self.prg@.len() as int, 0x4000, (address % 0x4000) as int)
    }

    open spec fn chr_readable(&self, address: u16) -> bool {
        true
    }

    open spec fn spec_read_prg(&self, address: u16) -> u8 {
        let bank = if address < 0xC000 { self.bank as int } else { self.spec_last_bank() };
        banked_byte(self.prg@, bank, 0x4000, (address % 0x4000) as int)
    }

    open spec fn spec_read_chr(&self, address: u16) -> u8 {
        chr_byte(self.chr@, address)
    }

    open spec fn spec_mirroring(&self) -> Mirroring {
        self.mirroring
    }

    fn read_prg(&self, address: u16) -> (b: u8) {
        let bank = if address < 0xC000 { self.bank } else { self.last_bank() };
        proof {
            crate::memory::lemma_low_bits(address);
        }
        banked(&self.prg, bank, 16 * 1024, (address & 0x3FFF) as usize)
    }

    /// Any write into cartridge space selects the low bank; the fixed bank never moves.
    fn write_prg(&mut self, address: u16, value: u8)
        ensures
            final(self).bank == (value & 0x0F) as usize,
            final(self).prg@ == old(self).prg@,
            final(self).chr@ == old(self).chr@,
            final(self).mirroring == old(self).mirroring,
            forall|a: u16| a >= 0xC000 ==> #[trigger] final(self).spec_read_prg(a) == old(self).spec_read_prg(a),
    {
        self.bank = (value & 0x0F) as usize;
    }

    fn read_chr(&self, address: u16) -> (b: u8) {
        read_chr_8k(&self.chr, address)
    }

    fn write_chr(&mut self, address: u16, value: u8)
        ensures
            final(self).chr@ == chr_written(old(self).chr@, address, value),
            final(self).prg@ == old(self).prg@,
            final(self).bank == old(self).bank,
            final(self).mirroring == old(self).mirroring,
    {
        write_chr_8k(&mut self.chr, address, value);
    }

    fn mirroring(&self) -> (m: Mirroring) {
        self.mirroring
    }
}


/// MMC1 (mapper 1): configured through a serial port. Five one-bit writes load a register, the
/// fifth write's address choosing which; a write with bit 7 set aborts the sequence.
#[derive(Debug)]
pub struct Mmc1 {
    pub prg: Vec<u8>,
    pub chr: Vec<u8>,
    /// The bits accumulated so far, and how many.
    pub shift: u8,
    pub shift_count: u8,
    pub control: u8,
    pub chr_bank_0: u8,
    pub chr_bank_1: u8,
    pub prg_bank: u8,
}

/// The 16 KB PRG bank MMC1 shows at `address`, as the control register's mode places it.
pub open spec fn mmc1_prg_bank(m: &Mmc1, address: u16) -> int {
    let mode = (m.control >> 2u8) & 0x03;
    let bank = m.prg_bank & 0x0F;
    let last = bank_count(m.prg@.len() as int, 0x4000) - 1;
    if mode == 0 || mode == 1 {
        // 32 KB switching: the low bit of the bank number is ignored.
        (bank & 0xFE) as int + if address >= 0xC000 { 1int } else { 0int }
    } else if mode == 2 {
        if address < 0xC000 { 0 } else { bank as int }
    } else {
        if address < 0xC000 { bank as int } else { last }
    }
}

/// The 4 KB CHR bank MMC1 shows at `address`.
pub open spec fn mmc1_chr_bank(m: &Mmc1, address: u16) -> int {
    if m.control & 0x10 == 0 {
        (m.chr_bank_0 & 0xFE) as int + if address >= 0x1000 { 1int } else { 0int }
    } else if address < 0x1000 {
        m.chr_bank_0 as int
    } else {
        m.chr_bank_1 as int
    }
}

/// MMC1 after one write of `value` to `address` in cartridge space.
pub open spec fn mmc1_write(m: Mmc1, address: u16, value: u8) -> Mmc1 {
    if value & 0x80 != 0 {
        Mmc1 { shift: 0, shift_count: 0, control: m.control | 0x0C, ..m }
    } else {
        let shift = m.shift | ((value & 0x01) << m.shift_count);
        if m.shift_count + 1 < 5 {
            Mmc1 { shift, shift_count: (m.shift_count + 1) as u8, ..m }
        } else if 0x8000 <= address <= 0x9FFF {
            Mmc1 { shift: 0, shift_count: 0, control: shift, ..m }
        } else if 0xA000 <= address <= 0xBFFF {
            Mmc1 { shift: 0, shift_count: 0, chr_bank_0: shift, ..m }
        } else if 0xC000 <= address <= 0xDFFF {
            Mmc1 { shift: 0, shift_count: 0, chr_bank_1: shift, ..m }
        } else {
            Mmc1 { shift: 0, shift_count: 0, prg_bank: shift, ..m }
        }
    }
}

/// The register of MMC1 a transfer ending at `address` loads.
pub open spec fn mmc1_register(m: Mmc1, address: u16) -> u8 {
    if 0x8000 <= address <= 0x9FFF {
        m.control
    } else if 0xA000 <= address <= 0xBFFF {
        m.chr_bank_0
    } else if 0xC000 <= address <= 0xDFFF {
        m.chr_bank_1
    } else {
        m.prg_bank
    }
}

/// Five writes of the bits of a five-bit `value`, low bit first, all to `address`, load `value`
/// into the register `address` selects and leave the serial port empty, as a game loads one.
pub proof fn lemma_mmc1_five_writes_load(m: Mmc1, address: u16, value: u8)
    requires
        m.shift_count == 0,
        m.shift == 0,
        value < 32,
    ensures
        ({
            let m1 = mmc1_write(m, address, value & 1);
            let m2 = mmc1_write(m1, address, (value >> 1u8) & 1);
            let m3 = mmc1_write(m2, address, (value >> 2u8) & 1);
            let m4 = mmc1_write(m3, address, (value >> 3u8) & 1);
            let m5 = mmc1_write(m4, address, (value >> 4u8) & 1);
            &&& mmc1_register(m5, address) == value
            &&& m5.shift == 0 && m5.shift_count == 0
            &&& m5.prg@ == m.prg@ && m5.chr@ == m.chr@
        }),
{
    assert(
        (value & 1) & 0x80 == 0 && ((value >> 1u8) & 1) & 0x80 == 0 && ((value >> 2u8) & 1) & 0x80 == 0
        && ((value >> 3u8) & 1) & 0x80 == 0 && ((value >> 4u8) & 1) & 0x80 == 0
        && (((((0u8 | (((value & 1) & 0x01) << 0u8)) | ((((value >> 1u8) & 1) & 0x01) << 1u8))
            | ((((value >> 2u8) & 1) & 0x01) << 2u8)) | ((((value >> 3u8) & 1) & 0x01) << 3u8))
            | ((((value >> 4u8) & 1) & 0x01) << 4u8)) == value
    ) by (bit_vector)
        requires
            value < 32,
    ;
}

impl Mmc1 {
    pub fn new(prg: Vec<u8>, chr: Vec<u8>) -> (m: Self)
        ensures
            m.prg@ == prg@,
            m.chr@ == chr_or_ram(chr@),
            m.shift == 0 && m.shift_count == 0,
            m.control == 0x0C,
            m.chr_bank_0 == 0 && m.chr_bank_1 == 0 && m.prg_bank == 0,
    {
        let chr = chr_ram(chr);
        // Power-on fixes the last bank at $C000, so the reset vector is reachable before the
        // game has configured anything.
        Mmc1 { prg, chr, shift: 0, shift_count: 0, control: 0x0C, chr_bank_0: 0, chr_bank_1: 0, prg_bank: 0 }
    }

    fn prg_banks_16k(&self) -> (n: usize)
        ensures
            n == bank_count(self.prg@.len() as int, 0x4000),
    {
        if self.prg.len() / (16 * 1024) > 1 { self.prg.len() / (16 * 1024) } else { 1 }
    }

    fn prg_bank_for(&self, address: u16) -> (b: usize)
        ensures
            b == mmc1_prg_bank(self, address),
    {
        let mode = (self.control >> 2) & 0x03;
        let bank = self.prg_bank & 0x0F;
        let last = self.prg_banks_16k() - 1;
        if mode == 0 || mode == 1 {
            (bank & 0xFE) as usize + if address >= 0xC000 { 1 } else { 0 }
        } else if mode == 2 {
            if address < 0xC000 { 0 } else { bank as usize }
        } else {
            if address < 0xC000 { bank as usize } else { last }
        }
    }

    fn chr_bank_for(&self, address: u16) -> (b: usize)
        ensures
            b == mmc1_chr_bank(self, address),
    {
        if (self.control & 0x10) == 0 {
            (self.chr_bank_0 & 0xFE) as usize + if address >= 0x1000 { 1 } else { 0 }
        } else if address < 0x1000 {
            self.chr_bank_0 as usize
        } else {
            self.chr_bank_1 as usize
        }
    }
}

impl Mapper for Mmc1 {
    open spec fn wf(&self) -> bool {
        self.shift_count < 5
    }

    open spec fn prg_readable(&self, address: u16) -> bool {
        bank_readable(self.prg@.len() as int, 0x4000, (address % 0x4000) as int)
    }

    open spec fn chr_readable(&self, address: u16) -> bool {
        bank_readable(self.chr@.len() as int, 0x1000, (address % 0x1000) as int)
    }

    open spec fn spec_read_prg(&self, address: u16) -> u8 {
        banked_byte(self.prg@, mmc1_prg_bank(self, address), 0x4000, (address % 0x4000) as int)
    }

    open spec fn spec_read_chr(&self, address: u16) -> u8 {
        banked_byte(self.chr@, mmc1_chr_bank(self, address), 0x1000, (address % 0x1000) as int)
    }

    open spec fn spec_mirroring(&self) -> Mirroring {
        if self.control & 0x03 == 0 {
            Mirroring::SingleScreenLower
        } else if self.control & 0x03 == 1 {
            Mirroring::SingleScreenUpper
        } else if self.control & 0x03 == 2 {
            Mirroring::Vertical
        } else {
            Mirroring::Horizontal
        }
    }

    fn read_prg(&self, address: u16) -> (b: u8) {
        proof {
            crate::memory::lemma_low_bits(address);
        }
        banked(&self.prg, self.prg_bank_for(address), 16 * 1024, (address & 0x3FFF) as usize)
    }

    /// One bit of a serial transfer; the fifth commits it to the register its address selects.
    /// An unfinished transfer changes no banking.
    fn write_prg(&mut self, address: u16, value: u8)
        ensures
            *final(self) == mmc1_write(*old(self), address, value),
            value & 0x80 == 0 && old(self).shift_count < 4 ==> forall|a: u16| #[trigger] final(self).spec_read_prg(a)
                == old(self).spec_read_prg(a),
    {
        if value & 0x80 != 0 {
            self.shift = 0;
            self.shift_count = 0;
            self.control = self.control | 0x0C;
            return;
        }
        self.shift = self.shift | ((value & 0x01) << self.shift_count);
        self.shift_count = self.shift_count + 1;
        if self.shift_count < 5 {
            return;
        }
        let loaded = self.shift;
        self.shift = 0;
        self.shift_count = 0;
        if 0x8000 <= address && address <= 0x9FFF {
            self.control = loaded;
        } else if 0xA000 <= address && address <= 0xBFFF {
            self.chr_bank_0 = loaded;
        } else if 0xC000 <= address && address <= 0xDFFF {
            self.chr_bank_1 = loaded;
        } else {
            self.prg_bank = loaded;
        }
    }

    fn read_chr(&self, address: u16) -> (b: u8) {
        proof {
            crate::memory::lemma_low_bits(address);
        }
        banked(&self.chr, self.chr_bank_for(address), 4 * 1024, (address & 0x0FFF) as usize)
    }

    fn write_chr(&mut self, address: u16, value: u8)
        ensures
            ({
                let i = bank_index(old(self).chr@.len() as int, mmc1_chr_bank(old(self), address), 0x1000, (address % 0x1000) as int);
                final(self).chr@ == if i < old(self).chr@.len() { old(self).chr@.update(i, value) } else { old(self).chr@ }
            }),
            final(self).prg@ == old(self).prg@,
            final(self).control == old(self).control && final(self).prg_bank == old(self).prg_bank,
            final(self).chr_bank_0 == old(self).chr_bank_0 && final(self).chr_bank_1 == old(self).chr_bank_1,
            final(self).shift == old(self).shift && final(self).shift_count == old(self).shift_count,
    {
        let bank = self.chr_bank_for(address);
        proof {
            crate::memory::lemma_low_bits(address);
        }
        let index = bank_offset(self.chr.len(), bank, 4 * 1024, (address & 0x0FFF) as usize);
        if index < self.chr.len() {
            self.chr.set(index, value);
        }
    }

    fn mirroring(&self) -> (m: Mirroring) {
        let bits = self.control & 0x03;
        if bits == 0 {
            Mirroring::SingleScreenLower
        } else if bits == 1 {
            Mirroring::SingleScreenUpper
        } else if bits == 2 {
            Mirroring::Vertical
        } else {
            Mirroring::Horizontal
        }
    }
}

/// AxROM (mapper 7): 32 KB PRG banks and a single screen, both picked by one write.
#[derive(Debug)]
pub struct AxRom {
    pub prg: Vec<u8>,
    pub chr: Vec<u8>,
    pub bank: usize,
    pub upper_screen: bool,
}

impl AxRom {
    pub fn new(prg: Vec<u8>, chr: Vec<u8>) -> (m: Self)
        ensures
            m.prg@ == prg@,
            m.chr@ == chr_or_ram(chr@),
            m.bank == 0,
            !m.upper_screen,
    {
        let chr = chr_ram(chr);
        AxRom { prg, chr, bank: 0, upper_screen: false }
    }
}

impl Mapper for AxRom {
    open spec fn wf(&self) -> bool {
        true
    }

    open spec fn prg_readable(&self, address: u16) -> bool {
        bank_readable(self.prg@.len() as int, 0x8000, (address % 0x8000) as int)
    }

    open spec fn chr_readable(&self, address: u16) -> bool {
        true
    }

    open spec fn spec_read_prg(&self, address: u16) -> u8 {
        banked_byte(self.prg@, self.bank as int, 0x8000, (address % 0x8000) as int)
    }

    open spec fn spec_read_chr(&self, address: u16) -> u8 {
        chr_byte(self.chr@, address)
    }

    open spec fn spec_mirroring(&self) -> Mirroring {
        if self.upper_screen { Mirroring::SingleScreenUpper } else { Mirroring::SingleScreenLower }
    }

    fn read_prg(&self, address: u16) -> (b: u8) {
        proof {
            crate::memory::lemma_low_bits(address);
        }
        banked(&self.prg, self.bank, 32 * 1024, (address & 0x7FFF) as usize)
    }

    /// Bits 0-2 pick the 32 KB bank, bit 4 the screen.
    fn write_prg(&mut self, address: u16, value: u8)
        ensures
            final(self).bank == (value & 0x07) as usize,
            final(self).upper_screen == (value & 0x10 != 0),
            final(self).prg@ == old(self).prg@,
            final(self).chr@ == old(self).chr@,
    {
        self.bank = (value & 0x07) as usize;
        self.upper_screen = (value & 0x10) != 0;
    }

    fn read_chr(&self, address: u16) -> (b: u8) {
        read_chr_8k(&self.chr, address)
    }

    fn write_chr(&mut self, address: u16, value: u8)
        ensures
            final(self).chr@ == chr_written(old(self).chr@, address, value),
            final(self).prg@ == old(self).prg@,
            final(self).bank == old(self).bank && final(self).upper_screen == old(self).upper_screen,
    {
        write_chr_8k(&mut self.chr, address, value);
    }

    fn mirroring(&self) -> (m: Mirroring) {
        if self.upper_screen {
            Mirroring::SingleScreenUpper
        } else {
            Mirroring::SingleScreenLower
        }
    }
}


/// MMC3 (mapper 4): eight bank registers and a scanline counter. Two 8 KB PRG windows switch
/// and two are fixed, the last at `$E000` always; CHR is split into six windows.
#[derive(Debug)]
pub struct Mmc3 {
    pub prg: Vec<u8>,
    pub chr: Vec<u8>,
    /// Which bank register the next `$8001` write loads, and the mode bits.
    pub bank_select: u8,
    pub banks: Vec<u8>,
    pub mirroring: Mirroring,
    pub irq_latch: u8,
    pub irq_counter: u8,
    pub irq_enabled: bool,
    pub irq_pending: bool,
    pub irq_reload: bool,
}

/// The 8 KB PRG bank MMC3 shows at `address`: bit 6 of the bank select swaps the two
/// switchable windows; `$E000` is always the last bank.
pub open spec fn mmc3_prg_bank(m: &Mmc3, address: u16) -> int {
    let last = bank_count(m.prg@.len() as int, 0x2000) - 1;
    let second_last = if last >= 1 { last - 1 } else { 0 };
    let swapped = m.bank_select & 0x40 != 0;
    if 0x8000 <= address <= 0x9FFF {
        if swapped { second_last } else { m.banks@[6] as int }
    } else if 0xA000 <= address <= 0xBFFF {
        m.banks@[7] as int
    } else if 0xC000 <= address <= 0xDFFF {
        if swapped { m.banks@[6] as int } else { second_last }
    } else {
        last
    }
}

/// The 1 KB window of pattern space `address` falls in; bit 7 of the bank select swaps the
/// halves.
pub open spec fn mmc3_chr_slot(m: &Mmc3, address: u16) -> int {
    let a = address % 0x2000;
    if m.bank_select & 0x80 != 0 { ((a + 0x1000) % 0x2000) / 0x400 } else { (a / 0x400) as int }
}

/// The 1 KB CHR bank MMC3 shows at `address`: two 2 KB windows, then four 1 KB ones.
pub open spec fn mmc3_chr_bank(m: &Mmc3, address: u16) -> int {
    let slot = mmc3_chr_slot(m, address);
    if slot == 0 {
        (m.banks@[0] & 0xFE) as int
    } else if slot == 1 {
        (m.banks@[0] | 0x01) as int
    } else if slot == 2 {
        (m.banks@[1] & 0xFE) as int
    } else if slot == 3 {
        (m.banks@[1] | 0x01) as int
    } else if slot == 4 {
        m.banks@[2] as int
    } else if slot == 5 {
        m.banks@[3] as int
    } else if slot == 6 {
        m.banks@[4] as int
    } else {
        m.banks@[5] as int
    }
}

/// MMC3's counter after one scanline: reloaded from the latch when it is zero or a reload is
/// asked for, counted down otherwise; reaching zero while enabled raises the IRQ.
pub open spec fn mmc3_scanline(m: Mmc3) -> Mmc3 {
    let counter = if m.irq_counter == 0 || m.irq_reload { m.irq_latch } else { (m.irq_counter - 1) as u8 };
    Mmc3 {
        irq_counter: counter,
        irq_reload: if m.irq_counter == 0 || m.irq_reload { false } else { m.irq_reload },
        irq_pending: m.irq_pending || (counter == 0 && m.irq_enabled),
        ..m
    }
}

impl Mmc3 {
    pub fn new(prg: Vec<u8>, chr: Vec<u8>, mirroring: Mirroring) -> (m: Self)
        ensures
            m.prg@ == prg@,
            m.chr@ == chr_or_ram(chr@),
            m.bank_select == 0,
            m.banks@ == Seq::new(8, |i: int| 0u8),
            m.mirroring == mirroring,
            m.irq_latch == 0 && m.irq_counter == 0,
            !m.irq_enabled && !m.irq_pending && !m.irq_reload,
    {
        let chr = chr_ram(chr);
        let mut banks: Vec<u8> = Vec::new();
        let mut i: usize = 0;
        while i < 8
            invariant
                i <= 8,
                banks@ == Seq::new(i as nat, |k: int| 0u8),
            decreases 8 - i,
        {
            banks.push(0);
            i += 1;
        }
        Mmc3 {
            prg,
            chr,
            bank_select: 0,
            banks,
            mirroring,
            irq_latch: 0,
            irq_counter: 0,
            irq_enabled: false,
            irq_pending: false,
            irq_reload: false,
        }
    }

    fn prg_banks(&self) -> (n: usize)
        ensures
            n == bank_count(self.prg@.len() as int, 0x2000),
    {
        if self.prg.len() / PRG_BANK > 1 { self.prg.len() / PRG_BANK } else { 1 }
    }

    fn prg_bank_for(&self, address: u16) -> (b: usize)
        requires
            self.wf(),
        ensures
            b == mmc3_prg_bank(self, address),
    {
        let last = self.prg_banks() - 1;
        let second_last = last.saturating_sub(1);
        let swapped = (self.bank_select & 0x40) != 0;
        if 0x8000 <= address && address <= 0x9FFF {
            if swapped { second_last } else { self.banks[6] as usize }
        } else if 0xA000 <= address && address <= 0xBFFF {
            self.banks[7] as usize
        } else if 0xC000 <= address && address <= 0xDFFF {
            if swapped { self.banks[6] as usize } else { second_last }
        } else {
            last
        }
    }

    fn chr_bank_for(&self, address: u16) -> (b: usize)
        requires
            self.wf(),
        ensures
            b == mmc3_chr_bank(self, address),
    {
        let masked = address & 0x1FFF;
        let inverted = (self.bank_select & 0x80) != 0;
        let slot = if inverted { (masked ^ 0x1000) >> 10 } else { masked >> 10 };
        assert(((masked ^ 0x1000) >> 10u16) == ((address % 0x2000 + 0x1000) % 0x2000) / 0x400
            && (masked >> 10u16) == (address % 0x2000) / 0x400) by (bit_vector)
            requires
                masked == address & 0x1FFF,
        ;
        if slot == 0 {
            (self.banks[0] & 0xFE) as usize
        } else if slot == 1 {
            (self.banks[0] | 0x01) as usize
        } else if slot == 2 {
            (self.banks[1] & 0xFE) as usize
        } else if slot == 3 {
            (self.banks[1] | 0x01) as usize
        } else if slot == 4 {
            self.banks[2] as usize
        } else if slot == 5 {
            self.banks[3] as usize
        } else if slot == 6 {
            self.banks[4] as usize
        } else {
            self.banks[5] as usize
        }
    }
}

impl Mapper for Mmc3 {
    open spec fn wf(&self) -> bool {
        self.banks@.len() == 8
    }

    open spec fn prg_readable(&self, address: u16) -> bool {
        bank_readable(self.prg@.len() as int, 0x2000, (address % 0x2000) as int)
    }

    open spec fn chr_readable(&self, address: u16) -> bool {
        bank_readable(self.chr@.len() as int, 0x400, (address % 0x400) as int)
    }

    open spec fn spec_read_prg(&self, address: u16) -> u8 {
        banked_byte(self.prg@, mmc3_prg_bank(self, address), 0x2000, (address % 0x2000) as int)
    }

    open spec fn spec_read_chr(&self, address: u16) -> u8 {
        banked_byte(self.chr@, mmc3_chr_bank(self, address), 0x400, (address % 0x400) as int)
    }

    open spec fn spec_mirroring(&self) -> Mirroring {
        self.mirroring
    }

    fn read_prg(&self, address: u16) -> (b: u8) {
        proof {
            crate::memory::lemma_low_bits(address);
        }
        banked(&self.prg, self.prg_bank_for(address), PRG_BANK, (address & 0x1FFF) as usize)
    }

    /// A register write, selected by the address's high bits and whether it is even or odd.
    /// The last bank at `$E000` is fixed and no write moves it.
    fn write_prg(&mut self, address: u16, value: u8)
        ensures
            final(self).prg@ == old(self).prg@,
            final(self).chr@ == old(self).chr@,
            address & 0xE001 == 0x8000 ==> final(self).bank_select == value,
            address & 0xE001 != 0x8000 ==> final(self).bank_select == old(self).bank_select,
            address & 0xE001 == 0x8001 ==> final(self).banks@ == old(self).banks@.update((old(self).bank_select % 8) as int, value),
            address & 0xE001 != 0x8001 ==> final(self).banks@ == old(self).banks@,
            address & 0xE001 == 0xA000 ==> final(self).mirroring == if value & 0x01 == 0 {
                Mirroring::Vertical
            } else {
                Mirroring::Horizontal
            },
            address & 0xE001 != 0xA000 ==> final(self).mirroring == old(self).mirroring,
            final(self).irq_latch == if address & 0xE001 == 0xC000 { value } else { old(self).irq_latch },
            final(self).irq_reload == (address & 0xE001 == 0xC001 || old(self).irq_reload),
            final(self).irq_enabled == if address & 0xE001 == 0xE000 {
                false
            } else {
                address & 0xE001 == 0xE001 || old(self).irq_enabled
            },
            final(self).irq_pending == (address & 0xE001 != 0xE000 && old(self).irq_pending),
            final(self).irq_counter == old(self).irq_counter,
            forall|a: u16| a >= 0xE000 ==> #[trigger] final(self).spec_read_prg(a) == old(self).spec_read_prg(a),
    {
        let register = address & 0xE001;
        if register == 0x8000 {
            self.bank_select = value;
        } else if register == 0x8001 {
            let index = (self.bank_select % 8) as usize;
            self.banks.set(index, value);
        } else if register == 0xA000 {
            self.mirroring = if value & 0x01 == 0 { Mirroring::Vertical } else { Mirroring::Horizontal };
        } else if register == 0xA001 {
            // PRG-RAM protect: not modelled.
        } else if register == 0xC000 {
            self.irq_latch = value;
        } else if register == 0xC001 {
            self.irq_reload = true;
        } else if register == 0xE000 {
            self.irq_enabled = false;
            self.irq_pending = false;
        } else if register == 0xE001 {
            self.irq_enabled = true;
        }
    }

    fn read_chr(&self, address: u16) -> (b: u8) {
        proof {
            crate::memory::lemma_low_bits(address);
        }
        banked(&self.chr, self.chr_bank_for(address), CHR_BANK, (address & 0x03FF) as usize)
    }

    fn write_chr(&mut self, address: u16, value: u8)
        ensures
            ({
                let i = bank_index(old(self).chr@.len() as int, mmc3_chr_bank(old(self), address), 0x400, (address % 0x400) as int);
                final(self).chr@ == if i < old(self).chr@.len() { old(self).chr@.update(i, value) } else { old(self).chr@ }
            }),
            final(self).prg@ == old(self).prg@,
            final(self).banks@ == old(self).banks@,
            final(self).bank_select == old(self).bank_select,
            final(self).mirroring == old(self).mirroring,
            final(self).irq_latch == old(self).irq_latch && final(self).irq_counter == old(self).irq_counter,
            final(self).irq_enabled == old(self).irq_enabled && final(self).irq_pending == old(self).irq_pending,
            final(self).irq_reload == old(self).irq_reload,
    {
        let bank = self.chr_bank_for(address);
        proof {
            crate::memory::lemma_low_bits(address);
        }
        let index = bank_offset(self.chr.len(), bank, CHR_BANK, (address & 0x03FF) as usize);
        if index < self.chr.len() {
            self.chr.set(index, value);
        }
    }

    fn mirroring(&self) -> (m: Mirroring) {
        self.mirroring
    }

    fn irq_pending(&self) -> (b: bool)
        ensures
            b == self.irq_pending,
    {
        self.irq_pending
    }

    fn acknowledge_irq(&mut self)
        ensures
            *final(self) == (Mmc3 { irq_pending: false, ..*old(self) }),
    {
        self.irq_pending = false;
    }

    /// Count one scanline down, raising the IRQ when the counter reaches zero while enabled.
    fn on_scanline(&mut self)
        ensures
            *final(self) == mmc3_scanline(*old(self)),
    {
        if self.irq_counter == 0 || self.irq_reload {
            self.irq_counter = self.irq_latch;
            self.irq_reload = false;
        } else {
            self.irq_counter = self.irq_counter - 1;
        }
        if self.irq_counter == 0 && self.irq_enabled {
            self.irq_pending = true;
        }
    }
}

/// A disabled MMC3 counter never raises its IRQ, however many scanlines pass.
pub proof fn lemma_mmc3_disabled_never_fires(m: Mmc3)
    requires
        !m.irq_enabled,
        !m.irq_pending,
    ensures
        !mmc3_scanline(m).irq_enabled,
        !mmc3_scanline(m).irq_pending,
{
}

/// With the latch at `n` and a reload asked for, an enabled MMC3 counter raises its IRQ on the
/// `n + 1`-th scanline and not before.
pub proof fn lemma_mmc3_fires_after_latch(m: Mmc3, n: u8)
    requires
        m.irq_enabled,
        !m.irq_pending,
        m.irq_reload,
        m.irq_latch == n,
        n >= 1,
    ensures
        ({
            let first = mmc3_scanline(m);
            &&& first.irq_counter == n && !first.irq_pending && first.irq_enabled && !first.irq_reload
            &&& first.irq_latch == n
        }),
{
}

/// One step of an enabled, reloaded MMC3 counter above one counts down without firing; at one
/// it fires.
pub proof fn lemma_mmc3_counts_down(m: Mmc3)
    requires
        m.irq_enabled,
        !m.irq_pending,
        !m.irq_reload,
        m.irq_counter >= 1,
    ensures
        mmc3_scanline(m).irq_counter == m.irq_counter - 1,
        mmc3_scanline(m).irq_pending == (m.irq_counter == 1),
        mmc3_scanline(m).irq_enabled,
        !mmc3_scanline(m).irq_reload,
{
}

/// The mappers this emulator implements.
#[derive(Debug)]
pub enum MapperChip {
    Nrom(Nrom),
    UxRom(UxRom),
    Mmc1(Mmc1),
    AxRom(AxRom),
    Mmc3(Mmc3),
}

/// What a CPU write does to each mapper: NROM keeps everything; UxROM selects its low bank;
/// MMC1 takes one serial bit; AxROM selects its bank and screen; MMC3 writes the register the
/// address selects.
pub open spec fn chip_prg_written(before: MapperChip, after: MapperChip, address: u16, value: u8) -> bool {
    match before {
        MapperChip::Nrom(a) => after matches MapperChip::Nrom(b) && b.prg@ == a.prg@ && b.chr@ == a.chr@
            && b.mirroring == a.mirroring,
        MapperChip::UxRom(a) => after matches MapperChip::UxRom(b) && b.bank == (value & 0x0F) as usize && b.prg@
            == a.prg@ && b.chr@ == a.chr@ && b.mirroring == a.mirroring,
        MapperChip::Mmc1(a) => after matches MapperChip::Mmc1(b) && b == mmc1_write(a, address, value),
        MapperChip::AxRom(a) => after matches MapperChip::AxRom(b) && b.bank == (value & 0x07) as usize
            && b.upper_screen == (value & 0x10 != 0) && b.prg@ == a.prg@ && b.chr@ == a.chr@,
        MapperChip::Mmc3(a) => after matches MapperChip::Mmc3(b) && mmc3_prg_written(a, b, address, value),
    }
}

/// An MMC3 register write: `$8000` selects a bank register, `$8001` fills it, `$A000` sets the
/// mirroring, `$C000` the IRQ latch, `$C001` asks for a reload, `$E000` disables and
/// acknowledges the IRQ and `$E001` enables it (address bits 13-15 and 0 decide).
pub open spec fn mmc3_prg_written(a: Mmc3, b: Mmc3, address: u16, value: u8) -> bool {
    &&& b.prg@ == a.prg@
    &&& b.chr@ == a.chr@
    &&& b.bank_select == if address & 0xE001 == 0x8000 { value } else { a.bank_select }
    &&& b.banks@ == if address & 0xE001 == 0x8001 { a.banks@.update((a.bank_select % 8) as int, value) } else { a.banks@ }
    &&& b.mirroring == if address & 0xE001 == 0xA000 {
        if value & 0x01 == 0 {
            Mirroring::Vertical
        } else {
            Mirroring::Horizontal
        }
    } else {
        a.mirroring
    }
    &&& b.irq_latch == if address & 0xE001 == 0xC000 { value } else { a.irq_latch }
    &&& b.irq_reload == (address & 0xE001 == 0xC001 || a.irq_reload)
    &&& b.irq_enabled == if address & 0xE001 == 0xE000 { false } else { address & 0xE001 == 0xE001 || a.irq_enabled }
    &&& b.irq_pending == (address & 0xE001 != 0xE000 && a.irq_pending)
    &&& b.irq_counter == a.irq_counter
}

/// What a PPU write does to each mapper: only the CHR byte the address maps to changes, and
/// only where the CHR data reaches it.
pub open spec fn chip_chr_written(before: MapperChip, after: MapperChip, address: u16, value: u8) -> bool {
    match before {
        MapperChip::Nrom(a) => after matches MapperChip::Nrom(b) && b.chr@ == chr_written(a.chr@, address, value)
            && b.prg@ == a.prg@ && b.mirroring == a.mirroring,
        MapperChip::UxRom(a) => after matches MapperChip::UxRom(b) && b.chr@ == chr_written(a.chr@, address, value)
            && b.prg@ == a.prg@ && b.bank == a.bank && b.mirroring == a.mirroring,
        MapperChip::Mmc1(a) => after matches MapperChip::Mmc1(b) && ({
            let i = bank_index(a.chr@.len() as int, mmc1_chr_bank(&a, address), 0x1000, (address % 0x1000) as int);
            b.chr@ == if i < a.chr@.len() { a.chr@.update(i, value) } else { a.chr@ }
        }) && b.prg@ == a.prg@ && b.control == a.control && b.prg_bank == a.prg_bank && b.chr_bank_0 == a.chr_bank_0
            && b.chr_bank_1 == a.chr_bank_1 && b.shift == a.shift && b.shift_count == a.shift_count,
        MapperChip::AxRom(a) => after matches MapperChip::AxRom(b) && b.chr@ == chr_written(a.chr@, address, value)
            && b.prg@ == a.prg@ && b.bank == a.bank && b.upper_screen == a.upper_screen,
        MapperChip::Mmc3(a) => after matches MapperChip::Mmc3(b) && ({
            let i = bank_index(a.chr@.len() as int, mmc3_chr_bank(&a, address), 0x400, (address % 0x400) as int);
            b.chr@ == if i < a.chr@.len() { a.chr@.update(i, value) } else { a.chr@ }
        }) && b.prg@ == a.prg@ && b.banks@ == a.banks@ && b.bank_select == a.bank_select && b.mirroring
            == a.mirroring && b.irq_latch == a.irq_latch && b.irq_counter == a.irq_counter && b.irq_enabled
            == a.irq_enabled && b.irq_pending == a.irq_pending && b.irq_reload == a.irq_reload,
    }
}

impl Mapper for MapperChip {
    open spec fn wf(&self) -> bool {
        match self {
            MapperChip::Nrom(m) => m.wf(),
            MapperChip::UxRom(m) => m.wf(),
            MapperChip::Mmc1(m) => m.wf(),
            MapperChip::AxRom(m) => m.wf(),
            MapperChip::Mmc3(m) => m.wf(),
        }
    }

    open spec fn prg_readable(&self, address: u16) -> bool {
        match self {
            MapperChip::Nrom(m) => m.prg_readable(address),
            MapperChip::UxRom(m) => m.prg_readable(address),
            MapperChip::Mmc1(m) => m.prg_readable(address),
            MapperChip::AxRom(m) => m.prg_readable(address),
            MapperChip::Mmc3(m) => m.prg_readable(address),
        }
    }

    open spec fn chr_readable(&self, address: u16) -> bool {
        match self {
            MapperChip::Nrom(m) => m.chr_readable(address),
            MapperChip::UxRom(m) => m.chr_readable(address),
            MapperChip::Mmc1(m) => m.chr_readable(address),
            MapperChip::AxRom(m) => m.chr_readable(address),
            MapperChip::Mmc3(m) => m.chr_readable(address),
        }
    }

    open spec fn spec_read_prg(&self, address: u16) -> u8 {
        match self {
            MapperChip::Nrom(m) => m.spec_read_prg(address),
            MapperChip::UxRom(m) => m.spec_read_prg(address),
            MapperChip::Mmc1(m) => m.spec_read_prg(address),
            MapperChip::AxRom(m) => m.spec_read_prg(address),
            MapperChip::Mmc3(m) => m.spec_read_prg(address),
        }
    }

    open spec fn spec_read_chr(&self, address: u16) -> u8 {
        match self {
            MapperChip::Nrom(m) => m.spec_read_chr(address),
            MapperChip::UxRom(m) => m.spec_read_chr(address),
            MapperChip::Mmc1(m) => m.spec_read_chr(address),
            MapperChip::AxRom(m) => m.spec_read_chr(address),
            MapperChip::Mmc3(m) => m.spec_read_chr(address),
        }
    }

    open spec fn spec_mirroring(&self) -> Mirroring {
        match self {
            MapperChip::Nrom(m) => m.spec_mirroring(),
            MapperChip::UxRom(m) => m.spec_mirroring(),
            MapperChip::Mmc1(m) => m.spec_mirroring(),
            MapperChip::AxRom(m) => m.spec_mirroring(),
            MapperChip::Mmc3(m) => m.spec_mirroring(),
        }
    }

    fn read_prg(&self, address: u16) -> (b: u8) {
        match self {
            MapperChip::Nrom(m) => m.read_prg(address),
            MapperChip::UxRom(m) => m.read_prg(address),
            MapperChip::Mmc1(m) => m.read_prg(address),
            MapperChip::AxRom(m) => m.read_prg(address),
            MapperChip::Mmc3(m) => m.read_prg(address),
        }
    }

    fn write_prg(&mut self, address: u16, value: u8)
        ensures
            chip_prg_written(*old(self), *final(self), address, value),
    {
        match self {
            MapperChip::Nrom(m) => m.write_prg(address, value),
            MapperChip::UxRom(m) => m.write_prg(address, value),
            MapperChip::Mmc1(m) => m.write_prg(address, value),
            MapperChip::AxRom(m) => m.write_prg(address, value),
            MapperChip::Mmc3(m) => m.write_prg(address, value),
        }
    }

    fn read_chr(&self, address: u16) -> (b: u8) {
        match self {
            MapperChip::Nrom(m) => m.read_chr(address),
            MapperChip::UxRom(m) => m.read_chr(address),
            MapperChip::Mmc1(m) => m.read_chr(address),
            MapperChip::AxRom(m) => m.read_chr(address),
            MapperChip::Mmc3(m) => m.read_chr(address),
        }
    }

    fn write_chr(&mut self, address: u16, value: u8)
        ensures
            chip_chr_written(*old(self), *final(self), address, value),
    {
        match self {
            MapperChip::Nrom(m) => m.write_chr(address, value),
            MapperChip::UxRom(m) => m.write_chr(address, value),
            MapperChip::Mmc1(m) => m.write_chr(address, value),
            MapperChip::AxRom(m) => m.write_chr(address, value),
            MapperChip::Mmc3(m) => m.write_chr(address, value),
        }
    }

    fn mirroring(&self) -> (r: Mirroring) {
        match self {
            MapperChip::Nrom(m) => m.mirroring(),
            MapperChip::UxRom(m) => m.mirroring(),
            MapperChip::Mmc1(m) => m.mirroring(),
            MapperChip::AxRom(m) => m.mirroring(),
            MapperChip::Mmc3(m) => m.mirroring(),
        }
    }

    fn irq_pending(&self) -> (b: bool)
        ensures
            b == (self matches MapperChip::Mmc3(m) && m.irq_pending),
    {
        match self {
            MapperChip::Mmc3(m) => m.irq_pending(),
            _ => false,
        }
    }

    fn acknowledge_irq(&mut self)
        ensures
            *final(self) == match *old(self) {
                MapperChip::Mmc3(m) => MapperChip::Mmc3(Mmc3 { irq_pending: false, ..m }),
                other => other,
            },
    {
        match self {
            MapperChip::Mmc3(m) => m.acknowledge_irq(),
            _ => {},
        }
    }

    fn on_scanline(&mut self)
        ensures
            *final(self) == match *old(self) {
                MapperChip::Mmc3(m) => MapperChip::Mmc3(mmc3_scanline(m)),
                other => other,
            },
    {
        match self {
            MapperChip::Mmc3(m) => m.on_scanline(),
            _ => {},
        }
    }
}

/// Build the mapper a ROM's header asks for: `None` for schemes not implemented, so the caller
/// can say so rather than run the game with wrong banking. MMC1 and AxROM set their own
/// mirroring, so the header's is not passed to them.
pub fn create(number: u8, prg: Vec<u8>, chr: Vec<u8>, mirroring: Mirroring) -> (r: Option<MapperChip>)
    ensures
        r is Some <==> (number == 0 || number == 1 || number == 2 || number == 4 || number == 7),
        number == 0 ==> (r matches Some(MapperChip::Nrom(m)) && m.prg@ == prg@ && m.chr@ == chr@ && m.mirroring == mirroring),
        number == 1 ==> (r matches Some(MapperChip::Mmc1(m)) && m.prg@ == prg@ && m.chr@ == chr_or_ram(chr@)
            && m.control == 0x0C && m.shift_count == 0 && m.shift == 0 && m.prg_bank == 0 && m.chr_bank_0 == 0 && m.chr_bank_1 == 0),
        number == 2 ==> (r matches Some(MapperChip::UxRom(m)) && m.prg@ == prg@ && m.chr@ == chr_or_ram(chr@)
            && m.bank == 0 && m.mirroring == mirroring),
        number == 4 ==> (r matches Some(MapperChip::Mmc3(m)) && m.prg@ == prg@ && m.chr@ == chr_or_ram(chr@)
            && m.mirroring == mirroring && m.bank_select == 0 && m.banks@ == Seq::new(8, |i: int| 0u8)
            && m.irq_latch == 0 && m.irq_counter == 0 && !m.irq_enabled && !m.irq_pending && !m.irq_reload),
        number == 7 ==> (r matches Some(MapperChip::AxRom(m)) && m.prg@ == prg@ && m.chr@ == chr_or_ram(chr@)
            && m.bank == 0 && !m.upper_screen),
        r matches Some(m) ==> m.wf(),
{
    if number == 0 {
        Some(MapperChip::Nrom(Nrom::new(prg, chr, mirroring)))
    } else if number == 1 {
        Some(MapperChip::Mmc1(Mmc1::new(prg, chr)))
    } else if number == 2 {
        Some(MapperChip::UxRom(UxRom::new(prg, chr, mirroring)))
    } else if number == 4 {
        Some(MapperChip::Mmc3(Mmc3::new(prg, chr, mirroring)))
    } else if number == 7 {
        Some(MapperChip::AxRom(AxRom::new(prg, chr)))
    } else {
        None
    }
}

/// MMC3's two 2 KB CHR windows are pairs of consecutive 1 KB banks: the first kilobyte of the
/// window R0 (or R1) selects shows the even bank at or below it, and the second kilobyte the
/// odd bank right after. The windows sit at `$0000` and `$0800`, or at `$1000` and `$1800` when
/// bit 7 of the bank select swaps the pattern tables.
pub proof fn lemma_mmc3_two_kilobyte_windows(m: Mmc3, offset: u16)
    requires
        m.banks@.len() == 8,
        offset < 0x400,
    ensures
        ({
            let base: u16 = if m.bank_select >= 128 { 0x1000 } else { 0 };
            let r0 = m.banks@[0] as int;
            let r1 = m.banks@[1] as int;
            &&& mmc3_chr_bank(&m, (base + offset) as u16) == r0 - r0 % 2
            &&& mmc3_chr_bank(&m, (base + 0x400 + offset) as u16) == r0 - r0 % 2 + 1
            &&& mmc3_chr_bank(&m, (base + 0x800 + offset) as u16) == r1 - r1 % 2
            &&& mmc3_chr_bank(&m, (base + 0xC00 + offset) as u16) == r1 - r1 % 2 + 1
        }),
{
    let b0 = m.banks@[0];
    let b1 = m.banks@[1];
    let sel = m.bank_select;
    assert((b0 & 0xFE) as int == b0 - b0 % 2 && (b0 | 0x01) as int == b0 - b0 % 2 + 1 && (b1 & 0xFE) as int == b1
        - b1 % 2 && (b1 | 0x01) as int == b1 - b1 % 2 + 1 && ((sel & 0x80 != 0) == (sel >= 128))) by (bit_vector);
}

/// UxROM with `n` whole 16 KB banks shows the selected bank (modulo `n`) at `$8000-$BFFF` and
/// the last bank at `$C000-$FFFF`; AxROM with `n` whole 32 KB banks shows the selected bank
/// (modulo `n`) at `$8000-$FFFF`.
pub proof fn lemma_switched_prg_banks(u: UxRom, x: AxRom, address: u16, n: int, k: int)
    requires
        n >= 1,
        u.prg@.len() == n * 0x4000,
        k >= 1,
        x.prg@.len() == k * 0x8000,
        address >= 0x8000,
    ensures
        address < 0xC000 ==> u.spec_read_prg(address) == u.prg@[(u.bank as int % n) * 0x4000 + (address - 0x8000)],
        address >= 0xC000 ==> u.spec_read_prg(address) == u.prg@[(n - 1) * 0x4000 + (address - 0xC000)],
        x.spec_read_prg(address) == x.prg@[(x.bank as int % k) * 0x8000 + (address - 0x8000)],
{
    assert((n * 0x4000) / 0x4000 == n) by (nonlinear_arith)
        requires
            n >= 1,
    ;
    assert((k * 0x8000) / 0x8000 == k) by (nonlinear_arith)
        requires
            k >= 1,
    ;
    let ub = u.bank as int;
    let xb = x.bank as int;
    assert(0 <= ub % n < n) by (nonlinear_arith)
        requires
            n >= 1,
            ub >= 0,
    ;
    assert(0 <= xb % k < k) by (nonlinear_arith)
        requires
            k >= 1,
            xb >= 0,
    ;
    assert((ub % n) * 0x4000 + 0x3FFF < n * 0x4000) by (nonlinear_arith)
        requires
            0 <= ub % n < n,
    ;
    assert((xb % k) * 0x8000 + 0x7FFF < k * 0x8000) by (nonlinear_arith)
        requires
            0 <= xb % k < k,
    ;
    assert((n - 1) % n == n - 1) by (nonlinear_arith)
        requires
            n >= 1,
    ;
}

} // verus!
