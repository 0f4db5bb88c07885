//! Building an assembler for the NES layout, and an iNES image from its segments.
use vstd::prelude::*;

use super::segments::{extend_bytes, segment_position, segments_after_add, SegmentView, Segments};
use super::{AssembleError, Assembler, OpcodeTable};
use crate::text::chars_of;

verus! {

/// Size of the PRG area the vectors close.
pub const PRG_SIZE: usize = 16384;

/// Size of the iNES header.
pub const HEADER_SIZE: usize = 16;

/// The bytes of the segment named `name`, if there is one.
pub open spec fn segment_data(segments: Seq<SegmentView>, name: Seq<char>) -> Option<Seq<u8>> {
    let p = segment_position(segments, name);
    if 0 <= p < segments.len() {
        Some(segments[p].2)
    } else {
        None
    }
}

/// The bytes of the segment named `name`, or none.
pub open spec fn data_or_empty(segments: Seq<SegmentView>, name: Seq<char>) -> Seq<u8> {
    match segment_data(segments, name) {
        Some(d) => d,
        None => seq![],
    }
}

/// `prefix`, padded with zeros when short of where `vectors` must start to end the PRG area,
/// then `vectors`.
pub open spec fn with_vectors(prefix: Seq<u8>, vectors: Seq<u8>) -> Seq<u8> {
    let start = HEADER_SIZE + PRG_SIZE - vectors.len();
    let padded = if prefix.len() < start {
        prefix + Seq::new((start - prefix.len()) as nat, |i: int| 0u8)
    } else {
        prefix
    };
    padded + vectors
}

/// Whether an image can be laid out from these segments: with vectors, the header and code
/// hold at least a header's worth of bytes and the vectors fit in the PRG area.
pub open spec fn rom_layout_fits(segments: Seq<SegmentView>) -> bool {
    (segment_data(segments, "HEADER"@) is Some && segment_data(segments, "VECTORS"@) is Some) ==> (
    data_or_empty(segments, "HEADER"@).len() + data_or_empty(segments, "STARTUP"@).len() >= HEADER_SIZE
        && data_or_empty(segments, "VECTORS"@).len() <= PRG_SIZE)
}

/// The iNES image of these segments: the header, the code, the vectors at the end of the PRG
/// area, then the character data; `None` without a header.
pub open spec fn nes_rom(segments: Seq<SegmentView>) -> Option<Seq<u8>> {
    match segment_data(segments, "HEADER"@) {
        None => None,
        Some(header) => {
            let prg = header + data_or_empty(segments, "STARTUP"@);
            let with_vecs = match segment_data(segments, "VECTORS"@) {
                Some(v) => with_vectors(prg, v),
                None => prg,
            };
            Some(with_vecs + data_or_empty(segments, "CHARS"@))
        },
    }
}

impl Assembler {
    /// An assembler with no segments, placing code at `load_address` by default.
    pub fn new(load_address: u16) -> (a: Self)
        ensures
            a.load_address == load_address,
            a.segments.spec_list() == Seq::<SegmentView>::empty(),
            a.segments.spec_current() is None,
    {
        Assembler { table: OpcodeTable::new(), load_address, segments: Segments::new() }
    }

    /// The standard NES segments added: `HEADER` and `ZEROPAGE` at 0, `STARTUP` at `$8000`,
    /// `VECTORS` at `$FFFA`, and `CHARS` at 0.
    pub fn with_nes_segments(self) -> (a: Self)
        ensures
            a.load_address == self.load_address,
            a.segments.spec_current() == self.segments.spec_current(),
            a.segments.spec_list() == segments_after_add(
                segments_after_add(
                    segments_after_add(
                        segments_after_add(segments_after_add(self.segments.spec_list(), "HEADER"@, 0), "ZEROPAGE"@, 0),
                        "STARTUP"@,
                        0x8000,
                    ),
                    "VECTORS"@,
                    0xFFFA,
                ),
                "CHARS"@,
                0,
            ),
    {
        let mut a = self;
        a.segments.add("HEADER", 0x0000);
        a.segments.add("ZEROPAGE", 0x0000);
        a.segments.add("STARTUP", 0x8000);
        a.segments.add("VECTORS", 0xFFFA);
        a.segments.add("CHARS", 0x0000);
        a
    }

    /// The index of the segment named `name`, if there is one.
    fn segment_index(&self, name: &str) -> (r: Option<usize>)
        ensures
            match r {
                Some(i) => i == segment_position(self.segments.spec_list(), name@) && i < self.segments.spec_list().len(),
                None => segment_position(self.segments.spec_list(), name@) >= self.segments.spec_list().len(),
            },
    {
        let key = chars_of(name);
        let i = self.segments.position(key.as_slice());
        if i < self.segments.len() {
            Some(i)
        } else {
            None
        }
    }

    /// The iNES image: the `HEADER` bytes, the `STARTUP` code, the `VECTORS` placed to end the
    /// PRG area (zeros fill the gap), then the `CHARS` data. Fails without a `HEADER` segment.
    pub fn create_nes_rom(&self) -> (r: Result<Vec<u8>, AssembleError>)
        requires
            rom_layout_fits(self.segments.spec_list()),
        ensures
            match nes_rom(self.segments.spec_list()) {
                Some(rom) => r matches Ok(v) && v@ == rom,
                None => r matches Err(AssembleError::SegmentError(m)) && m@ == "Missing HEADER segment"@,
            },
    {
        let ghost segs = self.segments.spec_list();
        let mut rom: Vec<u8> = Vec::new();
        match self.segment_index("HEADER") {
            Some(i) => extend_bytes(&mut rom, self.segments.data_at(i).as_slice()),
            None => {
                return Err(AssembleError::SegmentError(String::from_str("Missing HEADER segment")));
            },
        }
        if let Some(i) = self.segment_index("STARTUP") {
            extend_bytes(&mut rom, self.segments.data_at(i).as_slice());
        }
        assert(rom@ == data_or_empty(segs, "HEADER"@) + data_or_empty(segs, "STARTUP"@));
        if let Some(i) = self.segment_index("VECTORS") {
            let vectors = self.segments.data_at(i);
            let ghost prefix = rom@;
            let current_prg_size = rom.len() - HEADER_SIZE;
            let vectors_len = vectors.len();
            if current_prg_size < PRG_SIZE - vectors_len {
                let target = HEADER_SIZE + PRG_SIZE - vectors_len;
                while rom.len() < target
                    invariant
                        target == HEADER_SIZE + PRG_SIZE - vectors_len,
                        prefix.len() <= rom@.len() <= target,
                        rom@ =~= prefix + Seq::new((rom@.len() - prefix.len()) as nat, |k: int| 0u8),
                    decreases target - rom@.len(),
                {
                    rom.push(0);
                }
            }
            extend_bytes(&mut rom, vectors.as_slice());
            assert(rom@ =~= with_vectors(prefix, vectors@));
        }
        if let Some(i) = self.segment_index("CHARS") {
            extend_bytes(&mut rom, self.segments.data_at(i).as_slice());
        }
        assert(rom@ =~= nes_rom(segs)->0);
        Ok(rom)
    }
}

} // verus!
