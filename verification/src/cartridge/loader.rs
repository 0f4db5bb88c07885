use vstd::prelude::*;

verus! {

/// Length of an iNES header.
pub const INES_HEADER_SIZE: usize = 16;

/// Why a ROM image could not be loaded.
#[derive(Debug)]
pub enum RomLoadError {
    /// The image ended before the data its header announces; carries the I/O error's message.
    IoError(String),
    /// The image is not an iNES ROM.
    InvalidFormat(&'static str),
}

/// An iNES header, decoded.
#[derive(Debug, Clone, Copy, PartialEq, Eq, Structural)]
pub struct INesHeader {
    /// Size of PRG ROM in 16 KB units.
    pub prg_rom_size: usize,
    /// Size of CHR ROM in 8 KB units.
    pub chr_rom_size: usize,
    /// Mapper number.
    pub mapper: u8,
    /// Vertical mirroring when set, horizontal otherwise.
    pub mirroring: bool,
    /// Battery-backed RAM.
    pub battery: bool,
    /// A 512-byte trainer precedes the PRG data.
    pub trainer: bool,
    /// Four-screen VRAM layout.
    pub four_screen: bool,
}

/// A loaded iNES ROM: its header and both memory images.
#[derive(Debug)]
pub struct Rom {
    pub header: INesHeader,
    pub prg_rom: Vec<u8>,
    pub chr_rom: Vec<u8>,
}

/// The header the 16 bytes `h` describe.
pub open spec fn header_of(h: Seq<u8>) -> INesHeader {
    INesHeader {
        prg_rom_size: h[4] as usize,
        chr_rom_size: h[5] as usize,
        mapper: (h[7] & 0xF0) | ((h[6] & 0xF0) >> 4u8),
        mirroring: h[6] & 0x01 != 0,
        battery: h[6] & 0x02 != 0,
        trainer: h[6] & 0x04 != 0,
        four_screen: h[6] & 0x08 != 0,
    }
}

/// Whether `bytes` begin with the iNES signature, `NES` and an MS-DOS end of file.
pub open spec fn has_ines_magic(bytes: Seq<u8>) -> bool {
    bytes.len() >= 4 && bytes[0] == 0x4E && bytes[1] == 0x45 && bytes[2] == 0x53 && bytes[3] == 0x1A
}

/// Where the PRG data starts: after the header and the trainer, if any.
pub open spec fn prg_start(h: INesHeader) -> int {
    16 + if h.trainer { 512int } else { 0int }
}

/// The PRG data's length in bytes.
pub open spec fn prg_len(h: INesHeader) -> int {
    h.prg_rom_size * 0x4000
}

/// The CHR data's length in bytes.
pub open spec fn chr_len(h: INesHeader) -> int {
    h.chr_rom_size * 0x2000
}

/// What a ROM image's CHR data is: its CHR ROM, or 8 KB of zeros standing for CHR RAM when
/// the header announces none.
pub open spec fn chr_of(bytes: Seq<u8>, h: INesHeader) -> Seq<u8> {
    if h.chr_rom_size == 0 {
        Seq::new(0x2000, |i: int| 0u8)
    } else {
        bytes.subrange(prg_start(h) + prg_len(h), prg_start(h) + prg_len(h) + chr_len(h))
    }
}

/// Whether the image holds everything its header announces.
pub open spec fn image_complete(bytes: Seq<u8>, h: INesHeader) -> bool {
    bytes.len() >= prg_start(h) + prg_len(h) + if h.chr_rom_size == 0 { 0 } else { chr_len(h) }
}

/// The message a read past the end of a file gives.
pub open spec fn eof_message() -> Seq<char> {
    "failed to fill whole buffer"@
}

/// Decode the 16 bytes of an iNES header.
pub fn parse_ines_header(header: &[u8; 16]) -> (r: Result<INesHeader, RomLoadError>)
    ensures
        r matches Ok(h) && h == header_of(header@),
{
    let prg_rom_size = header[4] as usize;
    let chr_rom_size = header[5] as usize;
    let mirroring = (header[6] & 0x01) != 0;
    let battery = (header[6] & 0x02) != 0;
    let trainer = (header[6] & 0x04) != 0;
    let four_screen = (header[6] & 0x08) != 0;
    let mapper_low = (header[6] & 0xF0) >> 4;
    let mapper_high = header[7] & 0xF0;
    let mapper = mapper_high | mapper_low;
    Ok(INesHeader { prg_rom_size, chr_rom_size, mapper, mirroring, battery, trainer, four_screen })
}

/// `len` bytes of `bytes` from `start` on.
fn copy_range(bytes: &[u8], start: usize, len: usize) -> (v: Vec<u8>)
    requires
        start + len <= bytes.len(),
    ensures
        v@ == bytes@.subrange(start as int, start + len),
{
    let mut v: Vec<u8> = Vec::new();
    let mut i: usize = 0;
    while i < len
        invariant
            start + len <= bytes.len(),
            i <= len,
            v@ == bytes@.subrange(start as int, start + i),
        decreases len - i,
    {
        v.push(bytes[start + i]);
        i += 1;
    }
    v
}

/// `n` zero bytes.
fn zeros(n: usize) -> (v: Vec<u8>)
    ensures
        v@ == Seq::new(n as nat, |i: int| 0u8),
{
    let mut v: Vec<u8> = Vec::new();
    let mut i: usize = 0;
    while i < n
        invariant
            i <= n,
            v@ == Seq::new(i as nat, |k: int| 0u8),
        decreases n - i,
    {
        v.push(0);
        i += 1;
    }
    v
}

/// The first 16 bytes of `bytes` as a header array.
fn header_bytes(bytes: &[u8]) -> (h: [u8; 16])
    requires
        bytes@.len() >= 16,
    ensures
        h@ == bytes@.subrange(0, 16),
{
    let mut h = [0u8; 16];
    let mut i: usize = 0;
    while i < 16
        invariant
            bytes@.len() >= 16,
            i <= 16,
            h@.len() == 16,
            forall|k: int| 0 <= k < i ==> #[trigger] h@[k] == bytes@[k],
        decreases 16 - i,
    {
        h.set(i, bytes[i]);
        i += 1;
    }
    assert(h@ =~= bytes@.subrange(0, 16));
    h
}

/// Decode a whole iNES image: header, PRG ROM and CHR data. CHR RAM (a CHR size of zero) is
/// given as 8 KB of zeros.
pub fn parse_rom(bytes: &[u8]) -> (r: Result<Rom, RomLoadError>)
    ensures
        bytes@.len() < 16 ==> (r matches Err(RomLoadError::InvalidFormat(m))
            && m@ == "file is too small to be an iNES ROM (under 16 bytes)"@),
        bytes@.len() >= 16 && !has_ines_magic(bytes@) ==> (r matches Err(RomLoadError::InvalidFormat(m))
            && m@ == "not an iNES ROM (missing the \"NES\\x1A\" signature)"@),
        bytes@.len() >= 16 && has_ines_magic(bytes@) ==> ({
            let h = header_of(bytes@.subrange(0, 16));
            &&& image_complete(bytes@, h) ==> (r matches Ok(rom) && rom.header == h
                && rom.prg_rom@ == bytes@.subrange(prg_start(h), prg_start(h) + prg_len(h))
                && rom.chr_rom@ == chr_of(bytes@, h))
            &&& !image_complete(bytes@, h) ==> (r matches Err(RomLoadError::IoError(m)) && m@ == eof_message())
        }),
{
    if bytes.len() < INES_HEADER_SIZE {
        return Err(RomLoadError::InvalidFormat("file is too small to be an iNES ROM (under 16 bytes)"));
    }
    if !(bytes[0] == 0x4E && bytes[1] == 0x45 && bytes[2] == 0x53 && bytes[3] == 0x1A) {
        return Err(RomLoadError::InvalidFormat("not an iNES ROM (missing the \"NES\\x1A\" signature)"));
    }
    let header = header_bytes(bytes);
    let parsed = match parse_ines_header(&header) {
        Ok(h) => h,
        Err(e) => return Err(e),
    };
    let start: usize = if parsed.trainer { 16 + 512 } else { 16 };
    let prg_size = parsed.prg_rom_size * 16 * 1024;
    if bytes.len() < start || bytes.len() - start < prg_size {
        return Err(RomLoadError::IoError("failed to fill whole buffer".to_string()));
    }
    let prg_rom = copy_range(bytes, start, prg_size);
    let chr_size = parsed.chr_rom_size * 8 * 1024;
    let chr_rom = if chr_size == 0 {
        zeros(8192)
    } else {
        if bytes.len() - start - prg_size < chr_size {
            return Err(RomLoadError::IoError("failed to fill whole buffer".to_string()));
        }
        copy_range(bytes, start + prg_size, chr_size)
    };
    proof {
        assert(chr_size == 0 ==> chr_rom@ =~= chr_of(bytes@, parsed));
    }
    Ok(Rom { header: parsed, prg_rom, chr_rom })
}

/// Decode the CHR data of an iNES image, as loading only the graphics does: 8 KB of zeros
/// standing for CHR RAM when the header announces no CHR ROM.
pub fn parse_chr_rom(bytes: &[u8]) -> (r: Result<Vec<u8>, RomLoadError>)
    ensures
        bytes@.len() < 16 ==> (r matches Err(RomLoadError::IoError(m)) && m@ == eof_message()),
        bytes@.len() >= 16 && !has_ines_magic(bytes@) ==> (r matches Err(RomLoadError::InvalidFormat(m))
            && m@ == "Not a valid iNES ROM file"@),
        bytes@.len() >= 16 && has_ines_magic(bytes@) ==> ({
            let h = header_of(bytes@.subrange(0, 16));
            &&& image_complete(bytes@, h) ==> (r matches Ok(chr) && chr@ == chr_of(bytes@, h))
            &&& !image_complete(bytes@, h) ==> (r matches Err(RomLoadError::IoError(m)) && m@ == eof_message())
        }),
{
    if bytes.len() < INES_HEADER_SIZE {
        return Err(RomLoadError::IoError("failed to fill whole buffer".to_string()));
    }
    if !(bytes[0] == 0x4E && bytes[1] == 0x45 && bytes[2] == 0x53 && bytes[3] == 0x1A) {
        return Err(RomLoadError::InvalidFormat("Not a valid iNES ROM file"));
    }
    match parse_rom(bytes) {
        Ok(rom) => Ok(rom.chr_rom),
        Err(e) => Err(e),
    }
}

impl Rom {
    /// What the CPU reads at `address` in `$8000-$FFFF`: the PRG image from its start,
    /// repeating, so a 16 KB image shows in both halves.
    pub fn read_prg(&self, address: u16) -> (b: u8)
        ensures
            b == if self.prg_rom@.len() == 0 {
                0
            } else {
                self.prg_rom@[(if address >= 0x8000 { address - 0x8000 } else { 0 }) % self.prg_rom@.len() as int]
            },
    {
        if self.prg_rom.len() == 0 {
            return 0;
        }
        let offset = (address as usize).saturating_sub(0x8000);
        self.prg_rom[offset % self.prg_rom.len()]
    }

    /// The reset vector at `$FFFC`, where execution begins.
    pub fn reset_vector(&self) -> (v: u16)
        ensures
            v == self.spec_read_prg(0xFFFD) as u16 * 256 + self.spec_read_prg(0xFFFC) as u16,
    {
        let lo = self.read_prg(0xFFFC);
        let hi = self.read_prg(0xFFFD);
        crate::memory::combine_word(lo, hi)
    }

    /// What the CPU reads at `address`.
    pub open spec fn spec_read_prg(&self, address: u16) -> u8 {
        if self.prg_rom@.len() == 0 {
            0
        } else {
            self.prg_rom@[(if address >= 0x8000 { address - 0x8000 } else { 0 }) % self.prg_rom@.len() as int]
        }
    }
}

/// How flags 6 and 7 of an iNES header decode: bit 0 of byte 6 selects vertical mirroring, bit 1
/// battery-backed RAM, bit 2 a trainer, bit 3 four-screen VRAM; the mapper number's low nibble
/// is the high nibble of byte 6 and its high nibble that of byte 7. The PRG data starts right
/// after the 16-byte header, 512 bytes further when there is a trainer.
pub proof fn lemma_header_flags(h: Seq<u8>)
    requires
        h.len() >= 16,
    ensures
        ({
            let hd = header_of(h);
            let f = h[6] as int;
            &&& hd.mirroring == (f % 2 == 1)
            &&& hd.battery == ((f / 2) % 2 == 1)
            &&& hd.trainer == ((f / 4) % 2 == 1)
            &&& hd.four_screen == ((f / 8) % 2 == 1)
            &&& hd.mapper as int == (h[7] as int / 16) * 16 + f / 16
            &&& prg_start(hd) == 16 + 512 * ((f / 4) % 2)
            &&& hd.prg_rom_size == h[4] && hd.chr_rom_size == h[5]
        }),
{
    let f = h[6];
    let g = h[7];
    assert((f & 0x01 != 0) == (f % 2 == 1) && (f & 0x02 != 0) == ((f / 2) % 2 == 1) && (f & 0x04 != 0) == ((f / 4)
        % 2 == 1) && (f & 0x08 != 0) == ((f / 8) % 2 == 1) && ((g & 0xF0) | ((f & 0xF0) >> 4u8)) == (g / 16) * 16 + f
        / 16) by (bit_vector);
}

} // verus!
