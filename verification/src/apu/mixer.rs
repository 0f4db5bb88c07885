//! Where the mixer looks up each channel group's level.
use vstd::prelude::*;

verus! {

/// Entries in the pulse table: sums 0 to 30.
pub const PULSE_TABLE_LEN: usize = 31;

/// Entries in the triangle/noise/DMC table: weighted sums 0 to 202.
pub const TND_TABLE_LEN: usize = 203;

/// The table indices for five DAC levels: the pulse sum `pulse1 + pulse2`, and the weighted
/// sum `3 * triangle + 2 * noise + dmc`, each held to its table's last entry.
pub fn mix_indices(pulse1: u8, pulse2: u8, triangle: u8, noise: u8, dmc: u8) -> (r: (usize, usize))
    ensures
        r.0 == if pulse1 + pulse2 < PULSE_TABLE_LEN { pulse1 + pulse2 } else { PULSE_TABLE_LEN - 1 },
        r.1 == if 3 * triangle + 2 * noise + dmc < TND_TABLE_LEN {
            3 * triangle + 2 * noise + dmc
        } else {
            TND_TABLE_LEN - 1
        },
        r.0 < PULSE_TABLE_LEN,
        r.1 < TND_TABLE_LEN,
{
    let pulse = pulse1 as usize + pulse2 as usize;
    let tnd = 3 * triangle as usize + 2 * noise as usize + dmc as usize;
    let pulse_index = if pulse < PULSE_TABLE_LEN {
        pulse
    } else {
        PULSE_TABLE_LEN - 1
    };
    let tnd_index = if tnd < TND_TABLE_LEN {
        tnd
    } else {
        TND_TABLE_LEN - 1
    };
    (pulse_index, tnd_index)
}

} // verus!
