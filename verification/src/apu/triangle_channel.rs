use vstd::prelude::*;

use super::length_counter::{counter_after_load, LengthCounter};
use super::pulse_channel::{combine_timer, timer_from_registers};

verus! {

/// The APU's triangle channel: a 32-step ramp gated by a linear counter and a length counter.
#[derive(Debug, Clone, Copy)]
pub struct TriangleChannel {
    pub control: u8,
    pub timer_lo: u8,
    pub timer_hi: u8,
    pub enabled: bool,
    pub timer: u16,
    pub timer_value: u16,
    /// Position in the 32-step sequence.
    pub sequence_pos: u8,
    pub volume: u8,
    pub linear_counter: u8,
    pub linear_counter_reload: u8,
    pub linear_counter_halt: bool,
    pub linear_counter_reload_flag: bool,
    pub length_counter: LengthCounter,
}

/// The 32-step triangle sequence, from 15 down to 0 and back up.
pub open spec fn triangle_sequence() -> Seq<u8> {
    seq![
        15u8, 14, 13, 12, 11, 10, 9, 8, 7, 6, 5, 4, 3, 2, 1, 0, 0, 1, 2, 3, 4, 5, 6, 7, 8, 9, 10, 11,
        12, 13, 14, 15,
    ]
}

/// The level the triangle channel presents to the mixer.
pub open spec fn triangle_level(t: TriangleChannel) -> u8 {
    if !t.enabled || t.length_counter.counter == 0 || t.linear_counter == 0 {
        0
    } else {
        triangle_sequence()[t.sequence_pos as int]
    }
}

/// The channel after a write of `value` to its register `register_offset`.
pub open spec fn triangle_register_written(before: TriangleChannel, after: TriangleChannel, register_offset: u16, value: u8) -> bool {
    &&& (register_offset == 0 ==> after.control == value && after.linear_counter_reload == value & 0x7F && after.linear_counter_halt == (value & 0x80 != 0) && after.linear_counter == value & 0x7F && after.timer == before.timer && after.linear_counter_reload_flag == before.linear_counter_reload_flag)
    &&& (register_offset == 2 ==> after.timer_lo == value && after.timer == timer_from_registers(value, before.timer_hi) && after.linear_counter == before.linear_counter && after.linear_counter_reload_flag == before.linear_counter_reload_flag)
    &&& (register_offset == 3 ==> after.timer_hi == value && after.timer == timer_from_registers(before.timer_lo, value) && after.length_counter.counter == counter_after_load(before.length_counter, value) && after.linear_counter == before.linear_counter && after.linear_counter_reload_flag)
    &&& (register_offset != 3 ==> after.length_counter.counter == before.length_counter.counter)
    &&& (after.enabled == before.enabled)
    &&& (after.length_counter.enabled == before.length_counter.enabled)
    &&& (after.sequence_pos == before.sequence_pos)
}

/// The channel after a quarter-frame clock of its linear counter.
pub open spec fn triangle_linear_ticked(before: TriangleChannel, after: TriangleChannel) -> bool {
    &&& after.linear_counter == (if before.linear_counter_reload_flag {
        before.linear_counter_reload
    } else if before.linear_counter > 0 {
        (before.linear_counter - 1) as u8
    } else {
        0
    })
    &&& after == (TriangleChannel {
        linear_counter: after.linear_counter,
        linear_counter_reload_flag: false,
        ..before
    })
}

/// The channel after a half-frame clock of its length counter.
pub open spec fn triangle_length_ticked(before: TriangleChannel, after: TriangleChannel) -> bool {
    &&& after.length_counter.counter == (if before.length_counter.counter > 0 && !before.length_counter.halt
        && !before.length_counter.reloaded_on_the_clock {
        (before.length_counter.counter - 1) as u8
    } else {
        before.length_counter.counter
    })
    &&& (after.length_counter.halt == before.length_counter.halt)
    &&& (after.length_counter.enabled == before.length_counter.enabled)
    &&& (after == (TriangleChannel { length_counter: after.length_counter, ..before }))
}

impl TriangleChannel {
    /// The sequence position indexes the 32-step table, and the timer has 11 bits.
    pub open spec fn wf(&self) -> bool {
        self.sequence_pos < 32 && self.timer <= 0x7FF
    }

    /// Whether the invariant holds.
    pub fn is_sound(&self) -> (b: bool)
        ensures
            b == self.wf(),
    {
        self.sequence_pos < 32 && self.timer <= 0x7FF
    }

    /// A silent, disabled triangle channel.
    pub fn new() -> (t: Self)
        ensures
            t.control == 0 && t.timer_lo == 0 && t.timer_hi == 0,
            !t.enabled,
            t.timer == 0 && t.timer_value == 0 && t.sequence_pos == 0 && t.volume == 0,
            t.linear_counter == 0 && t.linear_counter_reload == 0,
            !t.linear_counter_halt && !t.linear_counter_reload_flag,
            t.length_counter.counter == 0 && !t.length_counter.enabled,
            t.length_counter == super::length_counter::cleared_length_counter(),
            t.wf(),
    {
        TriangleChannel {
            control: 0,
            timer_lo: 0,
            timer_hi: 0,
            enabled: false,
            timer: 0,
            timer_value: 0,
            sequence_pos: 0,
            volume: 0,
            linear_counter: 0,
            linear_counter_reload: 0,
            linear_counter_halt: false,
            linear_counter_reload_flag: false,
            length_counter: LengthCounter::new(),
        }
    }

    /// Return every register and counter to zero.
    pub fn reset(&mut self)
        ensures
            final(self).control == 0 && final(self).timer_lo == 0 && final(self).timer_hi == 0,
            !final(self).enabled,
            final(self).timer == 0 && final(self).timer_value == 0,
            final(self).sequence_pos == 0 && final(self).volume == 0,
            final(self).linear_counter == 0 && final(self).linear_counter_reload == 0,
            !final(self).linear_counter_halt && !final(self).linear_counter_reload_flag,
            final(self).length_counter.counter == 0 && !final(self).length_counter.enabled,
            final(self).wf(),
    {
        self.control = 0;
        self.timer_lo = 0;
        self.timer_hi = 0;
        self.enabled = false;
        self.timer = 0;
        self.timer_value = 0;
        self.sequence_pos = 0;
        self.volume = 0;
        self.linear_counter = 0;
        self.linear_counter_reload = 0;
        self.linear_counter_halt = false;
        self.linear_counter_reload_flag = false;
        self.length_counter.reset();
    }

    /// Clock the timer: when it expires, reload it and step the sequence. Runs only while
    /// enabled with both counters non-zero.
    pub fn tick(&mut self)
        requires
            old(self).wf(),
        ensures
            ({
                let o = *old(self);
                let runs = o.enabled && o.length_counter.counter > 0 && o.linear_counter > 0;
                &&& final(self).timer_value == (if !runs {
                    o.timer_value
                } else if o.timer_value == 0 {
                    o.timer
                } else {
                    (o.timer_value - 1) as u16
                })
                &&& final(self).sequence_pos == (if runs && o.timer_value == 0 {
                    ((o.sequence_pos + 1) % 32) as u8
                } else {
                    o.sequence_pos
                })
                &&& *final(self) == (TriangleChannel { timer_value: final(self).timer_value, sequence_pos: final(self).sequence_pos, ..o })
            }),
            final(self).wf(),
    {
        if self.enabled && self.length_counter.is_active() && self.linear_counter > 0 {
            if self.timer_value == 0 {
                self.timer_value = self.timer;
                self.sequence_pos = (self.sequence_pos + 1) % 32;
            } else {
                self.timer_value -= 1;
            }
        }
    }

    /// Quarter-frame clock for the linear counter: reload it if asked, else count it down.
    pub fn tick_linear_counter(&mut self)
        ensures
            final(self).linear_counter == (if old(self).linear_counter_reload_flag {
                old(self).linear_counter_reload
            } else if old(self).linear_counter > 0 {
                (old(self).linear_counter - 1) as u8
            } else {
                0
            }),
            *final(self) == (TriangleChannel {
                linear_counter: final(self).linear_counter,
                linear_counter_reload_flag: false,
                ..*old(self)
            }),
            triangle_linear_ticked(*old(self), *final(self)),
    {
        if self.linear_counter_reload_flag {
            self.linear_counter = self.linear_counter_reload;
            self.linear_counter_reload_flag = false;
        } else if self.linear_counter > 0 {
            self.linear_counter -= 1;
        }
    }

    /// Half-frame clock for the length counter.
    pub fn tick_length_counter(&mut self)
        ensures
            final(self).length_counter.counter == (if old(self).length_counter.counter > 0
                && !old(self).length_counter.halt && !old(self).length_counter.reloaded_on_the_clock {
                (old(self).length_counter.counter - 1) as u8
            } else {
                old(self).length_counter.counter
            }),
            final(self).length_counter.halt == old(self).length_counter.halt,
            final(self).length_counter.enabled == old(self).length_counter.enabled,
            *final(self) == (TriangleChannel { length_counter: final(self).length_counter, ..*old(self) }),
            triangle_length_ticked(*old(self), *final(self)),
    {
        self.length_counter.tick();
    }

    /// Recompute the period from the timer registers.
    pub fn update_timer(&mut self)
        ensures
            *final(self) == (TriangleChannel { timer: timer_from_registers(old(self).timer_lo, old(self).timer_hi), ..*old(self) }),
            final(self).timer <= 0x7FF,
    {
        self.timer = combine_timer(self.timer_lo, self.timer_hi);
    }

    /// Decode the control register: linear reload value (bits 0-6) and halt (bit 7), which
    /// also halts the length counter; the linear counter takes the reload value at once.
    pub fn update_properties(&mut self)
        ensures
            final(self).linear_counter_reload == old(self).control & 0x7F,
            final(self).linear_counter_halt == (old(self).control & 0x80 != 0),
            final(self).linear_counter == old(self).control & 0x7F,
            old(self).length_counter.clock_imminent ==> final(self).length_counter.pending_halt
                == Some(old(self).control & 0x80 != 0),
            !old(self).length_counter.clock_imminent ==> final(self).length_counter.halt == (
            old(self).control & 0x80 != 0),
            final(self).length_counter.counter == old(self).length_counter.counter,
            final(self).length_counter.enabled == old(self).length_counter.enabled,
            final(self).control == old(self).control,
            final(self).enabled == old(self).enabled,
            final(self).timer == old(self).timer,
            final(self).timer_value == old(self).timer_value,
            final(self).sequence_pos == old(self).sequence_pos,
            final(self).linear_counter_reload_flag == old(self).linear_counter_reload_flag,
    {
        self.linear_counter_reload = self.control & 0x7F;
        self.linear_counter_halt = (self.control & 0x80) != 0;
        self.length_counter.set_halt(self.linear_counter_halt);
        self.linear_counter = self.linear_counter_reload;
    }

    /// Load the length counter from a value written to the fourth register.
    pub fn load_length_counter(&mut self, value: u8)
        ensures
            final(self).length_counter.counter == counter_after_load(old(self).length_counter, value),
            final(self).length_counter.enabled == old(self).length_counter.enabled,
            final(self).length_counter.halt == old(self).length_counter.halt,
            *final(self) == (TriangleChannel { length_counter: final(self).length_counter, ..*old(self) }),
    {
        self.length_counter.load(value);
    }

    /// The channel's current DAC level, 0..=15: the sequence value, or zero while disabled or
    /// with either counter run out.
    pub fn output(&self) -> (level: u8)
        requires
            self.wf(),
        ensures
            level == triangle_level(*self),
            level <= 15,
    {
        if !self.enabled || !self.length_counter.is_active() || self.linear_counter == 0 {
            return 0;
        }
        let sequence: [u8; 32] = [
            15, 14, 13, 12, 11, 10, 9, 8, 7, 6, 5, 4, 3, 2, 1, 0, 0, 1, 2, 3, 4, 5, 6, 7, 8, 9, 10,
            11, 12, 13, 14, 15,
        ];
        proof {
            assert(sequence@ == triangle_sequence());
        }
        sequence[self.sequence_pos as usize]
    }

    /// Enable or disable the channel; disabling clears the linear and length counters.
    pub fn set_enabled(&mut self, enabled: bool)
        ensures
            final(self).enabled == enabled,
            final(self).linear_counter == (if enabled { old(self).linear_counter } else { 0 }),
            final(self).length_counter.enabled == enabled,
            final(self).length_counter.counter == (if enabled { old(self).length_counter.counter } else { 0 }),
            final(self).length_counter.halt == old(self).length_counter.halt,
            final(self).timer == old(self).timer,
            final(self).timer_value == old(self).timer_value,
            final(self).sequence_pos == old(self).sequence_pos,
            final(self).control == old(self).control,
            final(self).linear_counter_reload == old(self).linear_counter_reload,
            final(self).linear_counter_halt == old(self).linear_counter_halt,
            final(self).linear_counter_reload_flag == old(self).linear_counter_reload_flag,
    {
        self.enabled = enabled;
        if !enabled {
            self.linear_counter = 0;
        }
        self.length_counter.set_enabled(enabled);
    }

    /// Whether the channel is enabled.
    pub fn is_enabled(&self) -> (b: bool)
        ensures
            b == self.enabled,
    {
        self.enabled
    }

    /// Whether the length counter is non-zero.
    pub fn is_length_counter_active(&self) -> (b: bool)
        ensures
            b == (self.length_counter.counter > 0),
    {
        self.length_counter.is_active()
    }

    /// Write one of the channel's registers (`offset` 0, 2 or 3): control, timer low, and timer
    /// high, which also reloads the length counter and asks for a linear-counter reload.
    pub fn write_register(&mut self, register_offset: u16, value: u8)
        requires
            old(self).wf(),
            register_offset == 0 || register_offset == 2 || register_offset == 3,
        ensures
            register_offset == 0 ==> final(self).control == value
                && final(self).linear_counter_reload == value & 0x7F
                && final(self).linear_counter_halt == (value & 0x80 != 0)
                && final(self).linear_counter == value & 0x7F
                && final(self).timer == old(self).timer
                && final(self).linear_counter_reload_flag == old(self).linear_counter_reload_flag,
            register_offset == 2 ==> final(self).timer_lo == value
                && final(self).timer == timer_from_registers(value, old(self).timer_hi)
                && final(self).linear_counter == old(self).linear_counter
                && final(self).linear_counter_reload_flag == old(self).linear_counter_reload_flag,
            register_offset == 3 ==> final(self).timer_hi == value
                && final(self).timer == timer_from_registers(old(self).timer_lo, value)
                && final(self).length_counter.counter == counter_after_load(old(self).length_counter, value)
                && final(self).linear_counter == old(self).linear_counter
                && final(self).linear_counter_reload_flag,
            register_offset != 3 ==> final(self).length_counter.counter == old(self).length_counter.counter,
            final(self).enabled == old(self).enabled,
            final(self).length_counter.enabled == old(self).length_counter.enabled,
            final(self).sequence_pos == old(self).sequence_pos,
            final(self).wf(),
            triangle_register_written(*old(self), *final(self), register_offset, value),
    {
        if register_offset == 0 {
            self.control = value;
            self.update_properties();
        } else if register_offset == 2 {
            self.timer_lo = value;
            self.update_timer();
        } else {
            self.timer_hi = value;
            self.update_timer();
            self.load_length_counter(value);
            self.linear_counter_reload_flag = true;
        }
    }

    /// Set the position in the 32-step sequence.
    pub fn set_sequence_pos(&mut self, pos: u8)
        ensures
            *final(self) == (TriangleChannel { sequence_pos: pos, ..*old(self) }),
    {
        self.sequence_pos = pos;
    }
}

/// The triangle's 32-step sequence falls from 15 to 0 over its first half and rises from 0 to
/// 15 over its second.
pub proof fn lemma_triangle_shape(pos: int)
    requires
        0 <= pos < 32,
    ensures
        triangle_sequence()[pos] as int == if pos < 16 { 15 - pos } else { pos - 16 },
{
    assert(triangle_sequence() =~= Seq::new(32, |i: int| (if i < 16 { 15 - i } else { i - 16 }) as u8));
}

} // verus!
