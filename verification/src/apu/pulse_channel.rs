use vstd::prelude::*;

use super::envelope::{cleared_envelope, envelope_after_tick, Envelope};
use super::length_counter::{counter_after_load, LengthCounter};
use super::sweep::{mutes, sweep_result, target_period, Sweep};

verus! {

/// One of the APU's two square-wave channels.
#[derive(Debug, Clone, Copy)]
pub struct PulseChannel {
    pub control: u8,
    pub sweep: u8,
    pub timer_lo: u8,
    pub timer_hi: u8,
    pub enabled: bool,
    /// The 11-bit period.
    pub timer: u16,
    /// The countdown to the next duty step.
    pub timer_value: u16,
    /// Which of the four duty patterns is selected.
    pub duty_cycle: u8,
    /// Position in the 8-step duty sequence.
    pub duty_pos: u8,
    pub volume: u8,
    pub envelope: Envelope,
    pub sweep_unit: Sweep,
    pub length_counter: LengthCounter,
}

/// The four duty patterns, one bit per step of the sequence.
pub open spec fn duty_patterns() -> Seq<u8> {
    seq![0b00000001u8, 0b00000011, 0b00001111, 0b11111100]
}

/// Whether the duty pattern `duty` is high at step `pos`.
pub open spec fn duty_high(duty: u8, pos: u8) -> bool {
    (duty_patterns()[(duty & 0x03) as int] >> (pos & 0x07)) & 0x01 != 0
}

/// The 11-bit period formed from the two timer registers.
pub open spec fn timer_from_registers(lo: u8, hi: u8) -> u16 {
    (((hi as u16 & 0x07) << 8) | lo as u16) as u16
}

/// The level a pulse channel presents to the mixer.
pub open spec fn pulse_level(p: PulseChannel) -> u8 {
    if !p.enabled || p.length_counter.counter == 0 {
        0
    } else if mutes(p.sweep_unit, p.timer, target_period(p.sweep_unit, p.timer)) {
        0
    } else if duty_high(p.duty_cycle, p.duty_pos) {
        p.envelope.spec_volume()
    } else {
        0
    }
}

/// Combine the timer registers into the 11-bit period.
pub fn combine_timer(lo: u8, hi: u8) -> (t: u16)
    ensures
        t == timer_from_registers(lo, hi),
        t <= 0x7FF,
{
    let t = ((hi as u16 & 0x07) << 8) | (lo as u16);
    assert(((((hi as u16) & 0x07) << 8) | (lo as u16)) <= 0x7FF) by (bit_vector);
    t
}

/// The channel after a write of `value` to its register `register_offset`.
pub open spec fn pulse_register_written(before: PulseChannel, after: PulseChannel, register_offset: u16, value: u8) -> bool {
    &&& (register_offset == 0 ==> after.control == value && after.duty_cycle == (value >> 6) & 0x03 && after.envelope.period == value & 0x0F && after.envelope.constant_volume == (value & 0x10 != 0) && after.envelope.loop_flag == (value & 0x20 != 0) && after.volume == after.envelope.spec_volume() && after.timer == before.timer)
    &&& (register_offset == 1 ==> after.sweep == value && after.sweep_unit.enabled == (value & 0x80 != 0) && after.sweep_unit.period == (value >> 4) & 0x07 && after.sweep_unit.negate == (value & 0x08 != 0) && after.sweep_unit.shift == value & 0x07 && after.sweep_unit.reload_flag && after.timer == before.timer)
    &&& (register_offset == 2 ==> after.timer_lo == value && after.timer == timer_from_registers(value, before.timer_hi))
    &&& (register_offset == 3 ==> after.timer_hi == value && after.timer == timer_from_registers(before.timer_lo, value) && after.envelope.start && after.length_counter.counter == counter_after_load(before.length_counter, value))
    &&& (register_offset != 3 ==> after.length_counter.counter == before.length_counter.counter)
    &&& (after.enabled == before.enabled)
    &&& (after.length_counter.enabled == before.length_counter.enabled)
    &&& (after.duty_pos == before.duty_pos)
    &&& (after.sweep_unit.is_pulse1 == before.sweep_unit.is_pulse1)
    &&& (register_offset == 0 ==> after.sweep_unit == before.sweep_unit && after.sweep == before.sweep
        && after.timer_lo == before.timer_lo && after.timer_hi == before.timer_hi)
    &&& (register_offset == 1 ==> after.control == before.control && after.duty_cycle == before.duty_cycle
        && after.envelope == before.envelope && after.volume == before.volume && after.timer_lo == before.timer_lo
        && after.timer_hi == before.timer_hi && after.sweep_unit.divider == before.sweep_unit.divider
        && after.length_counter == before.length_counter)
    &&& (register_offset == 2 ==> after == (PulseChannel {
        timer_lo: value,
        timer: timer_from_registers(value, before.timer_hi),
        ..before
    }))
    &&& (register_offset == 3 ==> after == (PulseChannel {
        timer_hi: value,
        timer: timer_from_registers(before.timer_lo, value),
        envelope: Envelope { start: true, ..before.envelope },
        length_counter: after.length_counter,
        ..before
    }))
}

/// The channel after a quarter-frame clock of its envelope.
pub open spec fn pulse_envelope_ticked(before: PulseChannel, after: PulseChannel) -> bool {
    &&& (after.envelope == envelope_after_tick(before.envelope))
    &&& after.volume == (if before.envelope.constant_volume {
        before.volume
    } else {
        envelope_after_tick(before.envelope).volume
    })
    &&& (after == (PulseChannel { envelope: after.envelope, volume: after.volume, ..before }))
}

/// The channel after a half-frame clock of its sweep.
pub open spec fn pulse_sweep_ticked(before: PulseChannel, after: PulseChannel) -> bool {
    &&& after.timer == (match sweep_result(before.sweep_unit, before.timer) {
        Some(p) => p,
        None => before.timer,
    })
    &&& (sweep_result(before.sweep_unit, before.timer) is Some ==> after.timer == timer_from_registers(after.timer_lo, after.timer_hi))
    &&& (sweep_result(before.sweep_unit, before.timer) is None ==> after.timer_lo == before.timer_lo && after.timer_hi == before.timer_hi)
    &&& (after.sweep_unit.period == before.sweep_unit.period)
    &&& (after.sweep_unit.enabled == before.sweep_unit.enabled)
    &&& (after.sweep_unit.shift == before.sweep_unit.shift)
    &&& (after.sweep_unit.negate == before.sweep_unit.negate)
    &&& (after.sweep_unit.is_pulse1 == before.sweep_unit.is_pulse1)
    &&& (after.envelope == before.envelope)
    &&& (after.length_counter == before.length_counter)
    &&& (after.enabled == before.enabled)
    &&& (after.duty_pos == before.duty_pos)
    &&& (after.duty_cycle == before.duty_cycle)
    &&& (after.volume == before.volume)
    &&& (after.timer_value == before.timer_value)
    &&& (after.control == before.control)
    &&& (after.sweep == before.sweep)
}

/// The channel after a half-frame clock of its length counter.
pub open spec fn pulse_length_ticked(before: PulseChannel, after: PulseChannel) -> bool {
    &&& after.length_counter.counter == (if before.length_counter.counter > 0 && !before.length_counter.halt
        && !before.length_counter.reloaded_on_the_clock {
        (before.length_counter.counter - 1) as u8
    } else {
        before.length_counter.counter
    })
    &&& (after.length_counter.halt == before.length_counter.halt)
    &&& (after.length_counter.enabled == before.length_counter.enabled)
    &&& (after == (PulseChannel { length_counter: after.length_counter, ..before }))
}

impl PulseChannel {
    /// Every field stays inside the bits the hardware gives it.
    pub open spec fn wf(&self) -> bool {
        &&& self.envelope.wf()
        &&& self.sweep_unit.wf()
        &&& self.duty_cycle <= 3
        &&& self.duty_pos <= 7
        &&& self.timer <= 0x7FF
        &&& self.volume <= 15
    }

    /// Whether the invariant holds.
    pub fn is_sound(&self) -> (b: bool)
        ensures
            b == self.wf(),
    {
        self.envelope.is_sound() && self.sweep_unit.is_sound() && self.duty_cycle <= 3 && self.duty_pos <= 7
            && self.timer <= 0x7FF && self.volume <= 15
    }

    /// A silent, disabled channel. `is_pulse1` selects pulse 1's sweep negation.
    pub fn new(is_pulse1: bool) -> (p: Self)
        ensures
            p.control == 0 && p.sweep == 0 && p.timer_lo == 0 && p.timer_hi == 0,
            !p.enabled,
            p.timer == 0 && p.timer_value == 0,
            p.duty_cycle == 0 && p.duty_pos == 0 && p.volume == 0,
            p.envelope == cleared_envelope(),
            p.sweep_unit.is_pulse1 == is_pulse1,
            p.length_counter.counter == 0 && !p.length_counter.enabled,
            p.length_counter == super::length_counter::cleared_length_counter(),
            p.sweep_unit == (Sweep {
                enabled: false,
                period: 0,
                negate: false,
                shift: 0,
                divider: 0,
                reload_flag: false,
                is_pulse1,
            }),
            p.wf(),
    {
        PulseChannel {
            control: 0,
            sweep: 0,
            timer_lo: 0,
            timer_hi: 0,
            enabled: false,
            timer: 0,
            timer_value: 0,
            duty_cycle: 0,
            duty_pos: 0,
            volume: 0,
            envelope: Envelope::new(),
            sweep_unit: Sweep::new(is_pulse1),
            length_counter: LengthCounter::new(),
        }
    }

    /// Return every register and counter to zero, keeping which pulse channel this is.
    pub fn reset(&mut self)
        ensures
            final(self).control == 0 && final(self).sweep == 0,
            final(self).timer_lo == 0 && final(self).timer_hi == 0,
            !final(self).enabled,
            final(self).timer == 0 && final(self).timer_value == 0,
            final(self).duty_cycle == 0 && final(self).duty_pos == 0 && final(self).volume == 0,
            final(self).envelope == cleared_envelope(),
            final(self).sweep_unit.is_pulse1 == old(self).sweep_unit.is_pulse1,
            final(self).length_counter.counter == 0 && !final(self).length_counter.enabled,
            final(self).wf(),
    {
        self.control = 0;
        self.sweep = 0;
        self.timer_lo = 0;
        self.timer_hi = 0;
        self.enabled = false;
        self.timer = 0;
        self.timer_value = 0;
        self.duty_cycle = 0;
        self.duty_pos = 0;
        self.volume = 0;
        self.envelope.reset();
        self.sweep_unit.reset();
        self.length_counter.reset();
    }

    /// Clock the timer: when it expires, reload it and step the duty sequence. Nothing moves
    /// while the channel is disabled, silenced by its length counter, or muted by its sweep.
    pub fn tick(&mut self)
        requires
            old(self).wf(),
        ensures
            ({
                let o = *old(self);
                let runs = o.enabled && o.length_counter.counter > 0 && !mutes(o.sweep_unit, o.timer, target_period(o.sweep_unit, o.timer));
                &&& final(self).timer_value == (if !runs {
                    o.timer_value
                } else if o.timer_value == 0 {
                    o.timer
                } else {
                    (o.timer_value - 1) as u16
                })
                &&& final(self).duty_pos == (if runs && o.timer_value == 0 {
                    ((o.duty_pos + 1) % 8) as u8
                } else {
                    o.duty_pos
                })
                &&& *final(self) == (PulseChannel { timer_value: final(self).timer_value, duty_pos: final(self).duty_pos, ..o })
            }),
            final(self).wf(),
    {
        if self.enabled && self.length_counter.is_active() {
            let target_period = self.sweep_unit.calculate_target_period(self.timer);
            let should_mute = self.sweep_unit.should_mute(self.timer, target_period);
            if !should_mute {
                if self.timer_value == 0 {
                    self.timer_value = self.timer;
                    self.duty_pos = (self.duty_pos + 1) % 8;
                } else {
                    self.timer_value -= 1;
                }
            }
        }
    }

    /// Quarter-frame clock: clock the envelope, and follow its level unless in constant volume.
    pub fn tick_envelope(&mut self)
        requires
            old(self).wf(),
        ensures
            final(self).envelope == envelope_after_tick(old(self).envelope),
            final(self).volume == (if old(self).envelope.constant_volume {
                old(self).volume
            } else {
                envelope_after_tick(old(self).envelope).volume
            }),
            *final(self) == (PulseChannel { envelope: final(self).envelope, volume: final(self).volume, ..*old(self) }),
            final(self).wf(),
            pulse_envelope_ticked(*old(self), *final(self)),
    {
        self.envelope.tick();
        if !self.envelope.is_constant_volume() {
            self.volume = self.envelope.get_envelope_volume();
        }
    }

    /// Half-frame clock for the sweep: a period the sweep hands back replaces the timer, and
    /// the timer registers follow it.
    pub fn tick_sweep(&mut self)
        requires
            old(self).wf(),
        ensures
            final(self).timer == (match sweep_result(old(self).sweep_unit, old(self).timer) {
                Some(p) => p,
                None => old(self).timer,
            }),
            sweep_result(old(self).sweep_unit, old(self).timer) is Some ==> final(self).timer
                == timer_from_registers(final(self).timer_lo, final(self).timer_hi),
            sweep_result(old(self).sweep_unit, old(self).timer) is None ==> final(self).timer_lo
                == old(self).timer_lo && final(self).timer_hi == old(self).timer_hi,
            final(self).sweep_unit.period == old(self).sweep_unit.period,
            final(self).sweep_unit.enabled == old(self).sweep_unit.enabled,
            final(self).sweep_unit.shift == old(self).sweep_unit.shift,
            final(self).sweep_unit.negate == old(self).sweep_unit.negate,
            final(self).sweep_unit.is_pulse1 == old(self).sweep_unit.is_pulse1,
            final(self).envelope == old(self).envelope,
            final(self).length_counter == old(self).length_counter,
            final(self).enabled == old(self).enabled,
            final(self).duty_pos == old(self).duty_pos,
            final(self).duty_cycle == old(self).duty_cycle,
            final(self).volume == old(self).volume,
            final(self).timer_value == old(self).timer_value,
            final(self).control == old(self).control,
            final(self).sweep == old(self).sweep,
            final(self).wf(),
            pulse_sweep_ticked(*old(self), *final(self)),
    {
        proof {
            super::sweep::lemma_sweep_result_fits_timer(self.sweep_unit, self.timer);
        }
        if let Some(new_period) = self.sweep_unit.tick(self.timer) {
            self.timer = new_period;
            self.timer_lo = (self.timer & 0xFF) as u8;
            self.timer_hi = ((self.timer >> 8) & 0x07) as u8;
            let t = self.timer;
            assert(t <= 0x7FF ==> t == ((((((t >> 8) & 0x07) as u8) as u16 & 0x07) << 8) | (((t & 0xFF) as u8) as u16))) by (bit_vector);
        }
    }

    /// Half-frame clock for the length counter.
    pub fn tick_length_counter(&mut self)
        ensures
            final(self).length_counter.counter == (if old(self).length_counter.counter > 0
                && !old(self).length_counter.halt && !old(self).length_counter.reloaded_on_the_clock {
                (old(self).length_counter.counter - 1) as u8
            } else {
                old(self).length_counter.counter
            }),
            final(self).length_counter.halt == old(self).length_counter.halt,
            final(self).length_counter.enabled == old(self).length_counter.enabled,
            *final(self) == (PulseChannel { length_counter: final(self).length_counter, ..*old(self) }),
            pulse_length_ticked(*old(self), *final(self)),
    {
        self.length_counter.tick();
    }

    /// Recompute the period from the timer registers.
    pub fn update_timer(&mut self)
        ensures
            *final(self) == (PulseChannel { timer: timer_from_registers(old(self).timer_lo, old(self).timer_hi), ..*old(self) }),
            final(self).timer <= 0x7FF,
    {
        self.timer = combine_timer(self.timer_lo, self.timer_hi);
    }

    /// Decode the control register: duty (bits 6-7), envelope flags and period, length halt
    /// (bit 5); the volume follows the envelope.
    pub fn update_properties(&mut self)
        requires
            old(self).wf(),
        ensures
            final(self).duty_cycle == (old(self).control >> 6) & 0x03,
            final(self).envelope.loop_flag == (old(self).control & 0x20 != 0),
            final(self).envelope.constant_volume == (old(self).control & 0x10 != 0),
            final(self).envelope.period == old(self).control & 0x0F,
            final(self).envelope.counter == old(self).envelope.counter,
            final(self).envelope.volume == old(self).envelope.volume,
            final(self).envelope.start == old(self).envelope.start,
            final(self).envelope.divider == old(self).envelope.divider,
            final(self).volume == final(self).envelope.spec_volume(),
            old(self).length_counter.clock_imminent ==> final(self).length_counter.pending_halt
                == Some(old(self).control & 0x20 != 0),
            !old(self).length_counter.clock_imminent ==> final(self).length_counter.halt == (
            old(self).control & 0x20 != 0),
            final(self).length_counter.counter == old(self).length_counter.counter,
            final(self).length_counter.enabled == old(self).length_counter.enabled,
            final(self).control == old(self).control,
            final(self).timer == old(self).timer,
            final(self).timer_value == old(self).timer_value,
            final(self).duty_pos == old(self).duty_pos,
            final(self).enabled == old(self).enabled,
            final(self).sweep_unit == old(self).sweep_unit,
            final(self).sweep == old(self).sweep,
            final(self).timer_lo == old(self).timer_lo && final(self).timer_hi == old(self).timer_hi,
            final(self).wf(),
    {
        self.duty_cycle = (self.control >> 6) & 0x03;
        let c = self.control;
        assert((c >> 6) & 0x03 <= 3) by (bit_vector);
        self.envelope.update_from_register(self.control);
        self.length_counter.set_halt((self.control & 0x20) != 0);
        self.volume = self.envelope.get_volume();
    }

    /// Ask the envelope to restart on the next quarter frame.
    pub fn restart_envelope(&mut self)
        ensures
            *final(self) == (PulseChannel { envelope: Envelope { start: true, ..old(self).envelope }, ..*old(self) }),
    {
        self.envelope.restart();
    }

    /// Load the length counter from a value written to the fourth register.
    pub fn load_length_counter(&mut self, value: u8)
        ensures
            final(self).length_counter.counter == counter_after_load(old(self).length_counter, value),
            final(self).length_counter.enabled == old(self).length_counter.enabled,
            final(self).length_counter.halt == old(self).length_counter.halt,
            *final(self) == (PulseChannel { length_counter: final(self).length_counter, ..*old(self) }),
    {
        self.length_counter.load(value);
    }

    /// The channel's current DAC level: the envelope's volume while the duty pattern is high,
    /// and zero when disabled, out of length, or muted by the sweep.
    pub fn output(&self) -> (level: u8)
        requires
            self.wf(),
        ensures
            level == pulse_level(*self),
            level <= 15,
    {
        if !self.enabled || !self.length_counter.is_active() {
            return 0;
        }
        if self.sweep_unit.should_mute(self.timer, self.sweep_unit.calculate_target_period(self.timer)) {
            return 0;
        }
        let duty_table: [u8; 4] = [0b00000001, 0b00000011, 0b00001111, 0b11111100];
        proof {
            assert(duty_table@ == duty_patterns());
        }
        let dc = self.duty_cycle;
        let duty_idx = dc & 0x03;
        assert(dc & 0x03 < 4) by (bit_vector);
        let duty_pattern = duty_table[duty_idx as usize];
        let dp = self.duty_pos;
        let pos = dp & 0x07;
        assert(dp & 0x07 < 8) by (bit_vector);
        let is_active = ((duty_pattern >> pos) & 0x01) != 0;
        if is_active {
            self.envelope.get_volume()
        } else {
            0
        }
    }

    /// Enable or disable the channel. Disabling clears the envelope, the volume and the
    /// length counter.
    pub fn set_enabled(&mut self, enabled: bool)
        requires
            old(self).wf(),
        ensures
            final(self).enabled == enabled,
            !enabled ==> final(self).envelope == cleared_envelope() && final(self).volume == 0,
            enabled ==> final(self).envelope == old(self).envelope && final(self).volume == old(self).volume,
            final(self).length_counter.enabled == enabled,
            final(self).length_counter.counter == (if enabled { old(self).length_counter.counter } else { 0 }),
            final(self).length_counter.halt == old(self).length_counter.halt,
            final(self).timer == old(self).timer,
            final(self).timer_value == old(self).timer_value,
            final(self).duty_pos == old(self).duty_pos,
            final(self).duty_cycle == old(self).duty_cycle,
            final(self).sweep_unit == old(self).sweep_unit,
            final(self).control == old(self).control,
            final(self).wf(),
    {
        self.enabled = enabled;
        if !enabled {
            self.envelope = Envelope::new();
            self.volume = 0;
        }
        self.length_counter.set_enabled(enabled);
    }

    /// Whether the channel is enabled.
    pub fn is_enabled(&self) -> (b: bool)
        ensures
            b == self.enabled,
    {
        self.enabled
    }

    /// Whether the length counter is non-zero.
    pub fn is_length_counter_active(&self) -> (b: bool)
        ensures
            b == (self.length_counter.counter > 0),
    {
        self.length_counter.is_active()
    }

    /// Write one of the channel's four registers (`offset` 0-3): control, sweep, timer low,
    /// and timer high, which also restarts the envelope and reloads the length counter.
    pub fn write_register(&mut self, register_offset: u16, value: u8)
        requires
            old(self).wf(),
            register_offset <= 3,
        ensures
            register_offset == 0 ==> final(self).control == value
                && final(self).duty_cycle == (value >> 6) & 0x03
                && final(self).envelope.period == value & 0x0F
                && final(self).envelope.constant_volume == (value & 0x10 != 0)
                && final(self).envelope.loop_flag == (value & 0x20 != 0)
                && final(self).volume == final(self).envelope.spec_volume()
                && final(self).timer == old(self).timer,
            register_offset == 1 ==> final(self).sweep == value
                && final(self).sweep_unit.enabled == (value & 0x80 != 0)
                && final(self).sweep_unit.period == (value >> 4) & 0x07
                && final(self).sweep_unit.negate == (value & 0x08 != 0)
                && final(self).sweep_unit.shift == value & 0x07
                && final(self).sweep_unit.reload_flag
                && final(self).timer == old(self).timer,
            register_offset == 2 ==> final(self).timer_lo == value
                && final(self).timer == timer_from_registers(value, old(self).timer_hi),
            register_offset == 3 ==> final(self).timer_hi == value
                && final(self).timer == timer_from_registers(old(self).timer_lo, value)
                && final(self).envelope.start
                && final(self).length_counter.counter == counter_after_load(old(self).length_counter, value),
            register_offset != 3 ==> final(self).length_counter.counter == old(self).length_counter.counter,
            final(self).enabled == old(self).enabled,
            final(self).length_counter.enabled == old(self).length_counter.enabled,
            final(self).duty_pos == old(self).duty_pos,
            final(self).sweep_unit.is_pulse1 == old(self).sweep_unit.is_pulse1,
            register_offset == 0 ==> final(self).sweep_unit == old(self).sweep_unit && final(self).sweep == old(self).sweep
                && final(self).timer_lo == old(self).timer_lo && final(self).timer_hi == old(self).timer_hi,
            register_offset == 1 ==> final(self).control == old(self).control && final(self).duty_cycle
                == old(self).duty_cycle && final(self).envelope == old(self).envelope && final(self).volume
                == old(self).volume && final(self).timer_lo == old(self).timer_lo && final(self).timer_hi
                == old(self).timer_hi && final(self).sweep_unit.divider == old(self).sweep_unit.divider
                && final(self).length_counter == old(self).length_counter,
            register_offset == 2 ==> *final(self) == (PulseChannel {
                timer_lo: value,
                timer: timer_from_registers(value, old(self).timer_hi),
                ..*old(self)
            }),
            register_offset == 3 ==> *final(self) == (PulseChannel {
                timer_hi: value,
                timer: timer_from_registers(old(self).timer_lo, value),
                envelope: Envelope { start: true, ..old(self).envelope },
                length_counter: final(self).length_counter,
                ..*old(self)
            }),
            final(self).wf(),
            pulse_register_written(*old(self), *final(self), register_offset, value),
    {
        if register_offset == 0 {
            self.control = value;
            self.update_properties();
            self.volume = self.envelope.get_volume();
        } else if register_offset == 1 {
            self.sweep = value;
            self.sweep_unit.update_from_register(value);
        } else if register_offset == 2 {
            self.timer_lo = value;
            self.update_timer();
        } else {
            self.timer_hi = value;
            self.update_timer();
            self.restart_envelope();
            self.load_length_counter(value);
        }
    }

    /// Set the position in the duty sequence.
    pub fn set_duty_pos(&mut self, pos: u8)
        ensures
            *final(self) == (PulseChannel { duty_pos: pos, ..*old(self) }),
    {
        self.duty_pos = pos;
    }

    /// The current position in the 8-step duty sequence.
    pub fn duty_pos(&self) -> (p: u8)
        ensures
            p == self.duty_pos,
    {
        self.duty_pos
    }
}

/// Whatever state a well-formed pulse channel is in, its level fits the 4-bit DAC.
pub proof fn lemma_pulse_level_fits_dac(p: PulseChannel)
    requires
        p.wf(),
    ensures
        pulse_level(p) <= 15,
{
}

/// The four duty cycles are high for one, two, four and six of the eight steps: 12.5% at step
/// 0, 25% at steps 0-1, 50% at steps 0-3, and 75% at steps 2-7. The period is the low register
/// plus 256 times the low three bits of the high one.
pub proof fn lemma_duty_cycles_and_period(pos: u8, lo: u8, hi: u8)
    requires
        pos < 8,
    ensures
        duty_high(0, pos) == (pos == 0),
        duty_high(1, pos) == (pos < 2),
        duty_high(2, pos) == (pos < 4),
        duty_high(3, pos) == (pos >= 2),
        timer_from_registers(lo, hi) == (hi % 8) as int * 256 + lo,
{
    assert(duty_patterns()[0] == 1u8 && duty_patterns()[1] == 3u8 && duty_patterns()[2] == 15u8 && duty_patterns()[3]
        == 0xFCu8);
    assert((0u8 & 0x03) == 0 && (1u8 & 0x03) == 1 && (2u8 & 0x03) == 2 && (3u8 & 0x03) == 3) by (bit_vector);
    assert(pos < 8 ==> (((1u8 >> (pos & 0x07)) & 0x01 != 0) == (pos == 0) && ((3u8 >> (pos & 0x07)) & 0x01 != 0) == (
    pos < 2) && ((15u8 >> (pos & 0x07)) & 0x01 != 0) == (pos < 4) && ((0xFCu8 >> (pos & 0x07)) & 0x01 != 0) == (
    pos >= 2))) by (bit_vector);
    assert(((((hi as u16 & 0x07) << 8) | lo as u16) as u16) as int == (hi % 8) as int * 256 + lo) by (bit_vector);
}

} // verus!
