use vstd::prelude::*;

verus! {

/// The value (0-3) of pixel `bit` (0 leftmost) of a tile row whose two bit planes are `low` and
/// `high`: bit 0 of the value from the low plane, bit 1 from the high plane.
pub open spec fn plane_pixel(low: u8, high: u8, bit: int) -> u8 {
    (((high >> ((7 - bit) as u8)) & 1) * 2 + ((low >> ((7 - bit) as u8)) & 1)) as u8
}

/// Pixel `bit` of row `row` of tile `tile` in pattern data `data`: 16 bytes a tile, the low
/// plane's eight rows before the high plane's.
pub open spec fn tile_pixel(data: Seq<u8>, tile: int, row: int, bit: int) -> u8 {
    plane_pixel(data[tile * 16 + row], data[tile * 16 + row + 8], bit)
}

/// Whether row `row` of tile `tile` lies inside 8 KB of pattern data.
pub open spec fn tile_row_in_range(tile: u16, row: usize) -> bool {
    row < 8 && tile as int * 16 + row + 8 < 0x2000
}

/// The CHR data holding sprite and background patterns: two 4 KB tables, each 8x8 tile taking
/// 16 bytes (eight of the low bit plane, then eight of the high).
#[derive(Clone, Debug)]
pub struct PatternTable {
    /// The raw pattern data, 8 KB.
    pub data: Vec<u8>,
}

impl PatternTable {
    /// Always 8 KB.
    pub open spec fn wf(&self) -> bool {
        self.data@.len() == 0x2000
    }

    /// An empty table: 8 KB of zeros.
    pub fn new() -> (pt: Self)
        ensures
            pt.wf(),
            forall|i: int| 0 <= i < 0x2000 ==> #[trigger] pt.data@[i] == 0,
    {
        let mut data: Vec<u8> = Vec::new();
        let mut i: usize = 0;
        while i < 0x2000
            invariant
                i <= 0x2000,
                data@.len() == i,
                forall|j: int| 0 <= j < i ==> #[trigger] data@[j] == 0,
            decreases 0x2000 - i,
        {
            data.push(0);
            i += 1;
        }
        PatternTable { data }
    }

    /// A table over existing data, which must be exactly 8 KB.
    pub fn from_data(data: Vec<u8>) -> (pt: Self)
        requires
            data@.len() == 0x2000,
        ensures
            pt.wf(),
            pt.data@ == data@,
    {
        PatternTable { data }
    }

    /// Read a byte; the address is taken modulo 8 KB.
    pub fn read_byte(&self, address: u16) -> (b: u8)
        requires
            self.wf(),
        ensures
            b == self.data@[(address % 0x2000) as int],
    {
        let addr = address & 0x1FFF;
        proof {
            crate::memory::lemma_low_bits(address);
        }
        self.data[addr as usize]
    }

    /// Write a byte, for CHR RAM; the address is taken modulo 8 KB.
    pub fn write_byte(&mut self, address: u16, value: u8)
        requires
            old(self).wf(),
        ensures
            final(self).wf(),
            final(self).data@ == old(self).data@.update((address % 0x2000) as int, value),
    {
        let addr = address & 0x1FFF;
        proof {
            crate::memory::lemma_low_bits(address);
        }
        self.data.set(addr as usize, value);
    }

    /// Load data from the start of the table; at most 8 KB of it is taken, and whatever the
    /// table holds past a shorter slice stays.
    pub fn load(&mut self, data: &[u8])
        requires
            old(self).wf(),
        ensures
            final(self).wf(),
            forall|i: int| 0 <= i < 0x2000 ==> #[trigger] final(self).data@[i] == if i < data@.len() {
                data@[i]
            } else {
                old(self).data@[i]
            },
    {
        let len = if data.len() < 0x2000 { data.len() } else { 0x2000 };
        let mut i: usize = 0;
        while i < len
            invariant
                len <= data@.len(),
                len <= 0x2000,
                i <= len,
                self.wf(),
                forall|j: int| 0 <= j < 0x2000 ==> #[trigger] self.data@[j] == if j < i {
                    data@[j]
                } else {
                    old(self).data@[j]
                },
            decreases len - i,
        {
            self.data.set(i, data[i]);
            i += 1;
        }
    }

    /// The 8x8 pixels of tile `tile_index`, row by row, each 0-3.
    pub fn get_tile_pixels(&self, tile_index: u16) -> (pixels: [u8; 64])
        requires
            self.wf(),
            tile_row_in_range(tile_index, 7),
        ensures
            forall|row: int, bit: int| 0 <= row < 8 && 0 <= bit < 8 ==> #[trigger] pixels@[row * 8 + bit]
                == tile_pixel(self.data@, tile_index as int, row, bit),
    {
        let mut pixels = [0u8; 64];
        let mut row: usize = 0;
        while row < 8
            invariant
                self.wf(),
                tile_row_in_range(tile_index, 7),
                row <= 8,
                pixels@.len() == 64,
                forall|r: int, bit: int| 0 <= r < row && 0 <= bit < 8 ==> #[trigger] pixels@[r * 8 + bit]
                    == tile_pixel(self.data@, tile_index as int, r, bit),
            decreases 8 - row,
        {
            let line = self.get_tile_row(tile_index, row);
            let mut bit: usize = 0;
            while bit < 8
                invariant
                    row < 8,
                    bit <= 8,
                    pixels@.len() == 64,
                    forall|k: int| 0 <= k < 8 ==> #[trigger] line@[k] == tile_pixel(self.data@, tile_index as int, row as int, k),
                    forall|r: int, b: int| 0 <= r < row && 0 <= b < 8 ==> #[trigger] pixels@[r * 8 + b]
                        == tile_pixel(self.data@, tile_index as int, r, b),
                    forall|b: int| 0 <= b < bit ==> #[trigger] pixels@[row * 8 + b]
                        == tile_pixel(self.data@, tile_index as int, row as int, b),
                decreases 8 - bit,
            {
                pixels.set(row * 8 + bit, line[bit]);
                bit += 1;
            }
            assert forall|r: int, b: int| 0 <= r < row + 1 && 0 <= b < 8 implies #[trigger] pixels@[r * 8 + b]
                == tile_pixel(self.data@, tile_index as int, r, b) by {
                if r == row {
                    assert(pixels@[row * 8 + b] == tile_pixel(self.data@, tile_index as int, row as int, b));
                }
            }
            row += 1;
        }
        pixels
    }

    /// One row of a tile's pixels, each 0-3.
    pub fn get_tile_row(&self, tile_index: u16, row: usize) -> (pixels: [u8; 8])
        requires
            self.wf(),
            tile_row_in_range(tile_index, row),
        ensures
            forall|bit: int| 0 <= bit < 8 ==> #[trigger] pixels@[bit] == tile_pixel(self.data@, tile_index as int, row as int, bit),
    {
        let tile_addr = (tile_index as usize) * 16;
        let low_byte = self.data[tile_addr + row];
        let high_byte = self.data[tile_addr + row + 8];
        let mut row_pixels = [0u8; 8];
        let mut bit: usize = 0;
        while bit < 8
            invariant
                bit <= 8,
                low_byte == self.data@[tile_index * 16 + row],
                high_byte == self.data@[tile_index * 16 + row + 8],
                row_pixels@.len() == 8,
                forall|b: int| 0 <= b < bit ==> #[trigger] row_pixels@[b] == tile_pixel(self.data@, tile_index as int, row as int, b),
            decreases 8 - bit,
        {
            let shift = (7 - bit) as u8;
            let low_bit = (low_byte >> shift) & 0x01;
            let high_bit = (high_byte >> shift) & 0x01;
            assert((((high_byte >> shift) & 1) << 1) | ((low_byte >> shift) & 1)
                == (((high_byte >> shift) & 1) * 2 + ((low_byte >> shift) & 1)) as u8) by (bit_vector);
            row_pixels.set(bit, (high_bit << 1) | low_bit);
            bit += 1;
        }
        row_pixels
    }
}

impl Default for PatternTable {
    /// An empty table.
    fn default() -> (pt: Self)
        ensures
            pt.wf(),
            forall|i: int| 0 <= i < 0x2000 ==> #[trigger] pt.data@[i] == 0,
    {
        Self::new()
    }
}

} // verus!
