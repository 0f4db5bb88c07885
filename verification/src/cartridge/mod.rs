//! Cartridges: their ROM images, the pattern tables the PPU draws from, and the mappers that
//! switch banks of a large ROM into the CPU's and PPU's small windows.
use vstd::prelude::*;

pub mod loader;
pub mod mapper;
pub mod pattern_table;

pub use loader::{parse_rom, INesHeader, Rom, RomLoadError};
pub use pattern_table::PatternTable;
use pattern_table::{tile_pixel, tile_row_in_range};

verus! {

/// How the PPU's two physical nametables are laid over its four logical ones.
#[derive(Debug, Clone, Copy, PartialEq, Eq, Structural)]
pub enum Mirroring {
    Horizontal,
    Vertical,
    /// Every nametable shows the first physical one.
    SingleScreenLower,
    /// Every nametable shows the second physical one.
    SingleScreenUpper,
}

/// A cartridge: its CHR data, as pattern tables.
#[derive(Clone, Debug)]
pub struct Cartridge {
    pub pattern_table: PatternTable,
}

impl Cartridge {
    /// The pattern table is always 8 KB.
    pub open spec fn wf(&self) -> bool {
        self.pattern_table.wf()
    }

    /// An empty cartridge.
    pub fn new() -> (c: Self)
        ensures
            c.wf(),
            forall|i: int| 0 <= i < 0x2000 ==> #[trigger] c.pattern_table.data@[i] == 0,
    {
        Cartridge { pattern_table: PatternTable::new() }
    }

    /// Load CHR data into the pattern table.
    pub fn load_chr_rom(&mut self, data: &[u8])
        requires
            old(self).wf(),
        ensures
            final(self).wf(),
            forall|i: int| 0 <= i < 0x2000 ==> #[trigger] final(self).pattern_table.data@[i] == if i < data@.len() {
                data@[i]
            } else {
                old(self).pattern_table.data@[i]
            },
    {
        self.pattern_table.load(data);
    }

    /// Read a byte of the pattern table.
    pub fn read_pattern_table(&self, address: u16) -> (b: u8)
        requires
            self.wf(),
        ensures
            b == self.pattern_table.data@[(address % 0x2000) as int],
    {
        self.pattern_table.read_byte(address)
    }

    /// Write a byte of the pattern table, for cartridges with CHR RAM.
    pub fn write_pattern_table(&mut self, address: u16, value: u8)
        requires
            old(self).wf(),
        ensures
            final(self).wf(),
            final(self).pattern_table.data@ == old(self).pattern_table.data@.update((address % 0x2000) as int, value),
    {
        self.pattern_table.write_byte(address, value);
    }

    /// The 8x8 pixels of a tile, each 0-3.
    pub fn get_tile_pixels(&self, tile_index: u16) -> (pixels: [u8; 64])
        requires
            self.wf(),
            tile_row_in_range(tile_index, 7),
        ensures
            forall|row: int, bit: int| 0 <= row < 8 && 0 <= bit < 8 ==> #[trigger] pixels@[row * 8 + bit]
                == tile_pixel(self.pattern_table.data@, tile_index as int, row, bit),
    {
        self.pattern_table.get_tile_pixels(tile_index)
    }

    /// One row of a tile's pixels, each 0-3.
    pub fn get_tile_row(&self, tile_index: u16, row: usize) -> (pixels: [u8; 8])
        requires
            self.wf(),
            tile_row_in_range(tile_index, row),
        ensures
            forall|bit: int| 0 <= bit < 8 ==> #[trigger] pixels@[bit] == tile_pixel(
                self.pattern_table.data@,
                tile_index as int,
                row as int,
                bit,
            ),
    {
        self.pattern_table.get_tile_row(tile_index, row)
    }
}

impl Default for Cartridge {
    /// An empty cartridge.
    fn default() -> (c: Self)
        ensures
            c.wf(),
    {
        Self::new()
    }
}

} // verus!
