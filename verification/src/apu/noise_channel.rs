use vstd::prelude::*;

use super::envelope::{cleared_envelope, envelope_after_tick, Envelope};
use super::length_counter::{counter_after_load, LengthCounter};

verus! {

/// The APU's noise channel: a 15-bit linear-feedback shift register gating an envelope.
#[derive(Debug, Clone, Copy)]
pub struct NoiseChannel {
    pub control: u8,
    pub timer_lo: u8,
    pub timer_hi: u8,
    pub enabled: bool,
    pub timer: u16,
    pub timer_value: u16,
    pub shift_register: u16,
    /// Short mode: feedback from bit 6 rather than bit 1.
    pub mode: bool,
    pub envelope: Envelope,
    pub length_counter: LengthCounter,
}

/// The noise timer periods, indexed by the low four bits of the period register.
pub const TIMER_PERIOD: [u16; 16] = [
    4, 8, 16, 32, 64, 96, 128, 160, 202, 254, 380, 508, 762, 1016, 2034, 4068,
];

/// The noise period table as a sequence.
pub open spec fn noise_periods() -> Seq<u16> {
    seq![4u16, 8, 16, 32, 64, 96, 128, 160, 202, 254, 380, 508, 762, 1016, 2034, 4068]
}

/// One step of the shift register: feedback is bit 0 XOR bit 1 (bit 6 in short mode) of the
/// register as it was; the register shifts right and the feedback enters at bit 14.
pub open spec fn lfsr_step(r: u16, short_mode: bool) -> u16 {
    let bit0 = r & 1;
    let shifted = r >> 1;
    let tap = if short_mode {
        (r >> 6) & 1
    } else {
        (r >> 1) & 1
    };
    shifted | ((bit0 ^ tap) << 14)
}

/// The level the noise channel presents to the mixer.
pub open spec fn noise_level(n: NoiseChannel) -> u8 {
    if !n.enabled || n.length_counter.counter == 0 {
        0
    } else if n.shift_register & 1 != 0 {
        n.envelope.spec_volume()
    } else {
        0
    }
}

/// The channel after a write of `value` to its register `register_offset`.
pub open spec fn noise_register_written(before: NoiseChannel, after: NoiseChannel, register_offset: u16, value: u8) -> bool {
    &&& (register_offset == 0 ==> after.control == value && after.envelope.period == value & 0x0F && after.envelope.constant_volume == (value & 0x10 != 0) && after.envelope.loop_flag == (value & 0x20 != 0) && after.mode == before.mode && after.timer == before.timer)
    &&& (register_offset == 1 ==> after == (NoiseChannel { mode: value & 0x80 != 0, ..before }))
    &&& (register_offset == 2 ==> after == (NoiseChannel { timer_lo: value, timer: noise_periods()[(value & 0x0F) as int], ..before }))
    &&& (register_offset == 3 ==> after.timer_hi == value && after.timer == noise_periods()[(before.timer_lo & 0x0F) as int] && after.envelope == (Envelope { start: true, ..before.envelope }) && after.length_counter.counter == counter_after_load(before.length_counter, value) && after.mode == before.mode)
    &&& (register_offset > 3 ==> after == before)
    &&& (register_offset != 3 ==> after.length_counter.counter == before.length_counter.counter)
    &&& (after.enabled == before.enabled)
    &&& (after.shift_register == before.shift_register)
}

/// The channel after a quarter-frame clock of its envelope.
pub open spec fn noise_envelope_ticked(before: NoiseChannel, after: NoiseChannel) -> bool {
    &&& (after == (NoiseChannel { envelope: envelope_after_tick(before.envelope), ..before }))
}

/// The channel after a half-frame clock of its length counter.
pub open spec fn noise_length_ticked(before: NoiseChannel, after: NoiseChannel) -> bool {
    &&& after.length_counter.counter == (if before.length_counter.counter > 0 && !before.length_counter.halt
        && !before.length_counter.reloaded_on_the_clock {
        (before.length_counter.counter - 1) as u8
    } else {
        before.length_counter.counter
    })
    &&& (after.length_counter.halt == before.length_counter.halt)
    &&& (after.length_counter.enabled == before.length_counter.enabled)
    &&& (after == (NoiseChannel { length_counter: after.length_counter, ..before }))
}

impl NoiseChannel {
    /// The envelope's fields fit their bits.
    pub open spec fn wf(&self) -> bool {
        self.envelope.wf()
    }

    /// Whether the invariant holds.
    pub fn is_sound(&self) -> (b: bool)
        ensures
            b == self.wf(),
    {
        self.envelope.is_sound()
    }

    /// A silent, disabled noise channel with its shift register at 1.
    pub fn new() -> (n: Self)
        ensures
            n.control == 0 && n.timer_lo == 0 && n.timer_hi == 0,
            !n.enabled,
            n.timer == 0 && n.timer_value == 0,
            n.shift_register == 1,
            !n.mode,
            n.envelope == cleared_envelope(),
            n.length_counter.counter == 0 && !n.length_counter.enabled,
            n.length_counter == super::length_counter::cleared_length_counter(),
            n.wf(),
    {
        NoiseChannel {
            control: 0,
            timer_lo: 0,
            timer_hi: 0,
            enabled: false,
            timer: 0,
            timer_value: 0,
            shift_register: 1,
            mode: false,
            envelope: Envelope::new(),
            length_counter: LengthCounter::new(),
        }
    }

    /// Return every register to zero and the shift register to 1.
    pub fn reset(&mut self)
        ensures
            final(self).control == 0 && final(self).timer_lo == 0 && final(self).timer_hi == 0,
            !final(self).enabled,
            final(self).timer == 0 && final(self).timer_value == 0,
            final(self).shift_register == 1,
            !final(self).mode,
            final(self).envelope == cleared_envelope(),
            final(self).length_counter.counter == 0 && !final(self).length_counter.enabled,
            final(self).wf(),
    {
        self.control = 0;
        self.timer_lo = 0;
        self.timer_hi = 0;
        self.enabled = false;
        self.timer = 0;
        self.timer_value = 0;
        self.shift_register = 1;
        self.mode = false;
        self.envelope.reset();
        self.length_counter.reset();
    }

    /// Clock the timer: when it expires, reload it and step the shift register. Runs only
    /// while enabled with the length counter non-zero.
    pub fn tick(&mut self)
        ensures
            ({
                let o = *old(self);
                let runs = o.enabled && o.length_counter.counter > 0;
                &&& final(self).timer_value == (if !runs {
                    o.timer_value
                } else if o.timer_value == 0 {
                    o.timer
                } else {
                    (o.timer_value - 1) as u16
                })
                &&& final(self).shift_register == (if runs && o.timer_value == 0 {
                    lfsr_step(o.shift_register, o.mode)
                } else {
                    o.shift_register
                })
                &&& *final(self) == (NoiseChannel { timer_value: final(self).timer_value, shift_register: final(self).shift_register, ..o })
            }),
    {
        if self.enabled && self.length_counter.is_active() {
            if self.timer_value == 0 {
                self.timer_value = self.timer;
                let bit0 = self.shift_register & 1;
                let tap = if self.mode {
                    (self.shift_register >> 6) & 1
                } else {
                    (self.shift_register >> 1) & 1
                };
                let feedback = bit0 ^ tap;
                self.shift_register >>= 1;
                self.shift_register |= feedback << 14;
            } else {
                self.timer_value -= 1;
            }
        }
    }

    /// Quarter-frame clock for the envelope.
    pub fn tick_envelope(&mut self)
        requires
            old(self).wf(),
        ensures
            *final(self) == (NoiseChannel { envelope: envelope_after_tick(old(self).envelope), ..*old(self) }),
            final(self).wf(),
            noise_envelope_ticked(*old(self), *final(self)),
    {
        self.envelope.tick();
    }

    /// Half-frame clock for the length counter.
    pub fn tick_length_counter(&mut self)
        ensures
            final(self).length_counter.counter == (if old(self).length_counter.counter > 0
                && !old(self).length_counter.halt && !old(self).length_counter.reloaded_on_the_clock {
                (old(self).length_counter.counter - 1) as u8
            } else {
                old(self).length_counter.counter
            }),
            final(self).length_counter.halt == old(self).length_counter.halt,
            final(self).length_counter.enabled == old(self).length_counter.enabled,
            *final(self) == (NoiseChannel { length_counter: final(self).length_counter, ..*old(self) }),
            noise_length_ticked(*old(self), *final(self)),
    {
        self.length_counter.tick();
    }

    /// Look the period up from the low four bits of the period register.
    pub fn update_timer(&mut self)
        ensures
            *final(self) == (NoiseChannel { timer: noise_periods()[(old(self).timer_lo & 0x0F) as int], ..*old(self) }),
    {
        let table = TIMER_PERIOD;
        proof {
            assert(table@ == noise_periods());
        }
        let lo = self.timer_lo;
        let period_index = lo & 0x0F;
        assert(lo & 0x0F < 16) by (bit_vector);
        self.timer = table[period_index as usize];
    }

    /// Decode the control register into the envelope and the length-counter halt (bit 5).
    pub fn update_properties(&mut self)
        requires
            old(self).wf(),
        ensures
            final(self).envelope.loop_flag == (old(self).control & 0x20 != 0),
            final(self).envelope.constant_volume == (old(self).control & 0x10 != 0),
            final(self).envelope.period == old(self).control & 0x0F,
            final(self).envelope.counter == old(self).envelope.counter,
            final(self).envelope.volume == old(self).envelope.volume,
            final(self).envelope.start == old(self).envelope.start,
            old(self).length_counter.clock_imminent ==> final(self).length_counter.pending_halt
                == Some(old(self).control & 0x20 != 0),
            !old(self).length_counter.clock_imminent ==> final(self).length_counter.halt == (
            old(self).control & 0x20 != 0),
            final(self).length_counter.counter == old(self).length_counter.counter,
            final(self).length_counter.enabled == old(self).length_counter.enabled,
            final(self).control == old(self).control,
            final(self).timer == old(self).timer,
            final(self).shift_register == old(self).shift_register,
            final(self).mode == old(self).mode,
            final(self).enabled == old(self).enabled,
            final(self).wf(),
    {
        self.envelope.update_from_register(self.control);
        self.length_counter.set_halt((self.control & 0x20) != 0);
    }

    /// Load the length counter from a value written to the fourth register.
    pub fn load_length_counter(&mut self, value: u8)
        ensures
            final(self).length_counter.counter == counter_after_load(old(self).length_counter, value),
            final(self).length_counter.enabled == old(self).length_counter.enabled,
            final(self).length_counter.halt == old(self).length_counter.halt,
            *final(self) == (NoiseChannel { length_counter: final(self).length_counter, ..*old(self) }),
    {
        self.length_counter.load(value);
    }

    /// The channel's current DAC level: the envelope volume while bit 0 of the shift register
    /// is set, zero otherwise or when disabled or out of length.
    pub fn output(&self) -> (level: u8)
        requires
            self.wf(),
        ensures
            level == noise_level(*self),
            level <= 15,
    {
        if !self.enabled || !self.length_counter.is_active() {
            return 0;
        }
        if self.shift_register & 1 != 0 {
            self.envelope.get_volume()
        } else {
            0
        }
    }

    /// Enable or disable the channel. Disabling clears the envelope and the length counter.
    pub fn set_enabled(&mut self, enabled: bool)
        requires
            old(self).wf(),
        ensures
            final(self).enabled == enabled,
            !enabled ==> final(self).envelope == cleared_envelope(),
            enabled ==> final(self).envelope == old(self).envelope,
            final(self).length_counter.enabled == enabled,
            final(self).length_counter.counter == (if enabled { old(self).length_counter.counter } else { 0 }),
            final(self).length_counter.halt == old(self).length_counter.halt,
            final(self).timer == old(self).timer,
            final(self).timer_value == old(self).timer_value,
            final(self).shift_register == old(self).shift_register,
            final(self).mode == old(self).mode,
            final(self).control == old(self).control,
            final(self).wf(),
    {
        self.enabled = enabled;
        if !enabled {
            self.envelope = Envelope::new();
        }
        self.length_counter.set_enabled(enabled);
    }

    /// Whether the channel is enabled.
    pub fn is_enabled(&self) -> (b: bool)
        ensures
            b == self.enabled,
    {
        self.enabled
    }

    /// Whether the length counter is non-zero.
    pub fn is_length_counter_active(&self) -> (b: bool)
        ensures
            b == (self.length_counter.counter > 0),
    {
        self.length_counter.is_active()
    }

    /// Write one of the channel's registers: control (0), mode (1, bit 7), period (2), and
    /// length (3), which also restarts the envelope. Other offsets are ignored.
    pub fn write_register(&mut self, register_offset: u16, value: u8)
        requires
            old(self).wf(),
        ensures
            register_offset == 0 ==> final(self).control == value
                && final(self).envelope.period == value & 0x0F
                && final(self).envelope.constant_volume == (value & 0x10 != 0)
                && final(self).envelope.loop_flag == (value & 0x20 != 0)
                && final(self).mode == old(self).mode && final(self).timer == old(self).timer,
            register_offset == 1 ==> *final(self) == (NoiseChannel { mode: value & 0x80 != 0, ..*old(self) }),
            register_offset == 2 ==> *final(self) == (NoiseChannel { timer_lo: value, timer: noise_periods()[(value & 0x0F) as int], ..*old(self) }),
            register_offset == 3 ==> final(self).timer_hi == value
                && final(self).timer == noise_periods()[(old(self).timer_lo & 0x0F) as int]
                && final(self).envelope == (Envelope { start: true, ..old(self).envelope })
                && final(self).length_counter.counter == counter_after_load(old(self).length_counter, value)
                && final(self).mode == old(self).mode,
            register_offset > 3 ==> *final(self) == *old(self),
            register_offset != 3 ==> final(self).length_counter.counter == old(self).length_counter.counter,
            final(self).enabled == old(self).enabled,
            final(self).shift_register == old(self).shift_register,
            final(self).wf(),
            noise_register_written(*old(self), *final(self), register_offset, value),
    {
        if register_offset == 0 {
            self.control = value;
            self.update_properties();
        } else if register_offset == 1 {
            self.mode = (value & 0x80) != 0;
        } else if register_offset == 2 {
            self.timer_lo = value;
            self.update_timer();
        } else if register_offset == 3 {
            self.timer_hi = value;
            self.update_timer();
            self.load_length_counter(value);
            self.envelope.restart();
        }
    }

    /// Set the shift register directly.
    pub fn set_shift_register(&mut self, value: u16)
        ensures
            *final(self) == (NoiseChannel { shift_register: value, ..*old(self) }),
    {
        self.shift_register = value;
    }
}

/// The shift register never locks up: from any non-zero 15-bit state, a step leads to another
/// non-zero 15-bit state, so the noise never falls permanently silent.
pub proof fn lemma_lfsr_never_reaches_zero(r: u16, short_mode: bool)
    requires
        r != 0,
        r < 0x8000,
    ensures
        lfsr_step(r, short_mode) != 0,
        lfsr_step(r, short_mode) < 0x8000,
{
    if short_mode {
        assert(r != 0 && r < 0x8000 ==> ((r >> 1) | (((r & 1) ^ ((r >> 6) & 1)) << 14)) != 0
            && ((r >> 1) | (((r & 1) ^ ((r >> 6) & 1)) << 14)) < 0x8000) by (bit_vector);
    } else {
        assert(r != 0 && r < 0x8000 ==> ((r >> 1) | (((r & 1) ^ ((r >> 1) & 1)) << 14)) != 0
            && ((r >> 1) | (((r & 1) ^ ((r >> 1) & 1)) << 14)) < 0x8000) by (bit_vector);
    }
}

/// Whatever state a well-formed noise channel is in, its level fits the 4-bit DAC.
pub proof fn lemma_noise_level_fits_dac(n: NoiseChannel)
    requires
        n.wf(),
    ensures
        noise_level(n) <= 15,
{
}

} // verus!
