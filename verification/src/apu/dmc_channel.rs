use vstd::prelude::*;

use super::length_counter::{counter_after_load, LengthCounter};

verus! {

/// The APU's delta modulation channel: plays 1-bit delta samples fetched from cartridge space.
///
/// The channel cannot read memory itself: it asks for a byte through `pending_fetch`, and the
/// owner of the bus answers with `supply_byte`.
#[derive(Debug, Clone, Copy)]
pub struct DmcChannel {
    /// `$4010`: IRQ enable, loop, rate.
    pub control: u8,
    /// `$4011`: the last direct load.
    pub direct_load: u8,
    /// `$4012`: sample address.
    pub address: u8,
    /// `$4013`: sample length.
    pub length: u8,
    pub enabled: bool,
    pub irq_enabled: bool,
    pub loop_flag: bool,
    /// The 7-bit level presented to the mixer.
    pub output_level: u8,
    /// The one-byte buffer between the memory reader and the output unit.
    pub sample_buffer: u8,
    pub sample_buffer_empty: bool,
    pub bits_remaining: u8,
    pub shift_register: u8,
    pub silence_flag: bool,
    pub current_address: u16,
    pub bytes_remaining: u16,
    pub timer: u16,
    pub timer_value: u16,
    pub length_counter: LengthCounter,
    /// Set when a sample finishes with the IRQ enabled, until cleared.
    pub irq_pending: bool,
    /// A sample byte the channel wants fetched and has not been given yet.
    pub pending_fetch: Option<u16>,
    /// Ticks left before a `$4015`-started fetch may be requested (2 after an even-cycle
    /// write, 3 after an odd one).
    pub start_delay: u8,
}

/// The rate table: the timer period for each value of `$4010`'s low four bits.
pub open spec fn dmc_rates() -> Seq<u16> {
    seq![428u16, 380, 340, 320, 286, 254, 226, 214, 190, 160, 142, 128, 106, 84, 72, 54]
}

/// The first phase of a tick: the start-up delay counts down, and the memory reader asks for
/// the next byte if the buffer is empty, the sample unfinished, and no request is out.
pub open spec fn dmc_reader_step(d: DmcChannel) -> DmcChannel {
    let delay: u8 = if d.start_delay > 0 { (d.start_delay - 1) as u8 } else { 0 };
    let asks = delay == 0 && d.sample_buffer_empty && d.bytes_remaining > 0 && d.pending_fetch is None;
    DmcChannel {
        start_delay: delay,
        pending_fetch: if asks { Some(d.current_address) } else { d.pending_fetch },
        ..d
    }
}

/// The output level after one bit leaves the shifter: up by two for a 1, down by two for a 0,
/// held at the ends of the 7-bit range.
pub open spec fn nudged_level(level: u8, bit: bool) -> u8 {
    if bit {
        if level <= 0x7D { (level + 2) as u8 } else { level }
    } else {
        if level >= 2 { (level - 2) as u8 } else { level }
    }
}

/// The second phase of a tick: the free-running timer, and, when it expires, one bit out of the
/// shifter and a reload of the shifter from the buffer when it empties.
pub open spec fn dmc_output_step(d: DmcChannel) -> DmcChannel {
    if d.timer_value != 0 {
        DmcChannel { timer_value: (d.timer_value - 1) as u16, ..d }
    } else {
        let shifts = !d.silence_flag && d.bits_remaining > 0;
        let level = if shifts { nudged_level(d.output_level, d.shift_register & 1 != 0) } else { d.output_level };
        let shifter = if shifts { d.shift_register >> 1 } else { d.shift_register };
        let bits: u8 = if d.bits_remaining > 0 { (d.bits_remaining - 1) as u8 } else { 0 };
        let timer_value: u16 = if d.timer > 0 { (d.timer - 1) as u16 } else { 0 };
        if bits != 0 {
            DmcChannel { timer_value, output_level: level, shift_register: shifter, bits_remaining: bits, ..d }
        } else if d.sample_buffer_empty {
            DmcChannel { timer_value, output_level: level, shift_register: shifter, bits_remaining: 8, silence_flag: true, ..d }
        } else {
            let asks = d.bytes_remaining > 0 && d.pending_fetch is None;
            DmcChannel {
                timer_value,
                output_level: level,
                bits_remaining: 8,
                silence_flag: false,
                shift_register: d.sample_buffer,
                sample_buffer_empty: true,
                pending_fetch: if asks { Some(d.current_address) } else { d.pending_fetch },
                ..d
            }
        }
    }
}

/// The first address of the sample `$4012` selects.
pub open spec fn sample_start(address: u8) -> u16 {
    ((address as u16) << 6 | 0xC000) as u16
}

/// The byte count `$4013` selects.
pub open spec fn sample_bytes(length: u8) -> u16 {
    ((length as u16) << 4 | 1) as u16
}

/// The channel after a write of `value` to its register `register_offset`: control (IRQ
/// enable, loop, rate), direct load, sample address, or sample length.
pub open spec fn dmc_register_written(before: DmcChannel, after: DmcChannel, register_offset: u16, value: u8) -> bool {
    &&& (register_offset == 0 ==> after == (DmcChannel {
        control: value,
        irq_enabled: value & 0x80 != 0,
        irq_pending: before.irq_pending && value & 0x80 != 0,
        loop_flag: value & 0x40 != 0,
        timer: dmc_rates()[(value & 0x0F) as int],
        ..before
    }))
    &&& (register_offset == 1 ==> after == (DmcChannel { direct_load: value, output_level: value & 0x7F, ..before }))
    &&& (register_offset == 2 ==> after == (DmcChannel { address: value, ..before }))
    &&& (register_offset == 3 ==> after.length == value && after.length_counter.counter == counter_after_load(
        before.length_counter,
        value,
    ) && after == (DmcChannel { length: value, length_counter: after.length_counter, ..before }))
    &&& (register_offset > 3 ==> after == before)
}

impl DmcChannel {
    /// The level fits the 7-bit DAC, the shifter holds at most a byte, and the start-up delay
    /// is at most three cycles.
    pub open spec fn wf(&self) -> bool {
        &&& self.output_level <= 127
        &&& self.bits_remaining <= 8
        &&& self.start_delay <= 3
    }

    /// Whether the invariant holds.
    pub fn is_sound(&self) -> (b: bool)
        ensures
            b == self.wf(),
    {
        self.output_level <= 127 && self.bits_remaining <= 8 && self.start_delay <= 3
    }

    /// A disabled channel at power-on: rate 0's period of 428, silent, empty buffer.
    pub fn new() -> (d: Self)
        ensures
            d.control == 0 && d.direct_load == 0 && d.address == 0 && d.length == 0,
            !d.enabled && !d.irq_enabled && !d.loop_flag,
            d.output_level == 0 && d.sample_buffer == 0 && d.sample_buffer_empty,
            d.bits_remaining == 0 && d.shift_register == 0 && d.silence_flag,
            d.current_address == 0 && d.bytes_remaining == 0,
            d.timer == 428 && d.timer_value == 0,
            !d.irq_pending && d.pending_fetch is None && d.start_delay == 0,
            d.length_counter.counter == 0,
            d.length_counter == super::length_counter::cleared_length_counter(),
            d.wf(),
    {
        DmcChannel {
            control: 0,
            direct_load: 0,
            address: 0,
            length: 0,
            enabled: false,
            irq_enabled: false,
            loop_flag: false,
            output_level: 0,
            sample_buffer: 0,
            sample_buffer_empty: true,
            bits_remaining: 0,
            shift_register: 0,
            silence_flag: true,
            current_address: 0,
            bytes_remaining: 0,
            timer: 428,
            timer_value: 0,
            length_counter: LengthCounter::new(),
            irq_pending: false,
            pending_fetch: None,
            start_delay: 0,
        }
    }

    /// Return the registers and the sample state to power-on values. The output level, a
    /// pending interrupt and an outstanding request are left as they were.
    pub fn reset(&mut self)
        ensures
            final(self).control == 0 && final(self).direct_load == 0,
            final(self).address == 0 && final(self).length == 0,
            !final(self).enabled && !final(self).irq_enabled && !final(self).loop_flag,
            final(self).sample_buffer == 0 && final(self).sample_buffer_empty,
            final(self).bits_remaining == 0 && final(self).shift_register == 0,
            final(self).silence_flag,
            final(self).current_address == 0 && final(self).bytes_remaining == 0,
            final(self).timer == 428 && final(self).timer_value == 0,
            final(self).start_delay == 0,
            final(self).length_counter.counter == 0,
            final(self).output_level == old(self).output_level,
            final(self).irq_pending == old(self).irq_pending,
            final(self).pending_fetch == old(self).pending_fetch,
            old(self).wf() ==> final(self).wf(),
    {
        self.control = 0;
        self.direct_load = 0;
        self.address = 0;
        self.length = 0;
        self.enabled = false;
        self.irq_enabled = false;
        self.loop_flag = false;
        self.sample_buffer = 0;
        self.sample_buffer_empty = true;
        self.bits_remaining = 0;
        self.shift_register = 0;
        self.silence_flag = true;
        self.current_address = 0;
        self.bytes_remaining = 0;
        self.timer = 428;
        self.timer_value = 0;
        self.start_delay = 0;
        self.length_counter.reset();
    }

    /// Advance one CPU cycle: the reader phase, then the free-running output unit.
    pub fn tick(&mut self)
        requires
            old(self).wf(),
        ensures
            *final(self) == dmc_output_step(dmc_reader_step(*old(self))),
            final(self).wf(),
    {
        self.reader_phase();
        self.output_phase();
    }

    /// The start-up delay counts down and the memory reader asks for a byte when it may.
    fn reader_phase(&mut self)
        requires
            old(self).wf(),
        ensures
            *final(self) == dmc_reader_step(*old(self)),
            final(self).wf(),
    {
        if self.start_delay > 0 {
            self.start_delay -= 1;
        }
        if self.start_delay == 0 && self.sample_buffer_empty && self.bytes_remaining > 0
            && self.pending_fetch.is_none() {
            self.load_next_byte();
        }
    }

    /// The free-running timer, the shifter and the reload from the buffer.
    #[verifier::rlimit(30)]
    fn output_phase(&mut self)
        requires
            old(self).wf(),
        ensures
            *final(self) == dmc_output_step(*old(self)),
            final(self).wf(),
    {
        if self.timer_value == 0 {
            self.timer_value = self.timer.saturating_sub(1);
            if !self.silence_flag && self.bits_remaining > 0 {
                let bit = (self.shift_register & 0x01) != 0;
                self.shift_register >>= 1;
                if bit {
                    if self.output_level <= 0x7D {
                        self.output_level += 2;
                    }
                } else if self.output_level >= 0x02 {
                    self.output_level -= 2;
                }
            }
            if self.bits_remaining > 0 {
                self.bits_remaining -= 1;
            }
            if self.bits_remaining == 0 {
                self.bits_remaining = 8;
                if self.sample_buffer_empty {
                    self.silence_flag = true;
                } else {
                    self.silence_flag = false;
                    self.shift_register = self.sample_buffer;
                    self.sample_buffer_empty = true;
                    if self.bytes_remaining > 0 && self.pending_fetch.is_none() {
                        self.load_next_byte();
                    }
                }
            }
        } else {
            self.timer_value -= 1;
        }
    }

    /// Ask for the next sample byte, or fall silent if the sample is finished.
    fn load_next_byte(&mut self)
        ensures
            old(self).bytes_remaining > 0 ==> *final(self) == (DmcChannel { pending_fetch: Some(old(self).current_address), ..*old(self) }),
            old(self).bytes_remaining == 0 ==> *final(self) == (DmcChannel { sample_buffer_empty: true, silence_flag: true, ..*old(self) }),
    {
        if self.bytes_remaining > 0 {
            self.pending_fetch = Some(self.current_address);
        } else {
            self.sample_buffer_empty = true;
            self.silence_flag = true;
        }
    }

    /// Whether the channel is holding an interrupt.
    pub fn irq_pending(&self) -> (b: bool)
        ensures
            b == self.irq_pending,
    {
        self.irq_pending
    }

    /// Drop any interrupt the channel is holding.
    pub fn acknowledge_irq(&mut self)
        ensures
            *final(self) == (DmcChannel { irq_pending: false, ..*old(self) }),
    {
        self.irq_pending = false;
    }

    /// Whether the channel is waiting on a byte, leaving the request where it is.
    pub fn wants_fetch(&self) -> (b: bool)
        ensures
            b == self.pending_fetch is Some,
    {
        self.pending_fetch.is_some()
    }

    /// The address the channel wants read, if any. Clears the request.
    pub fn take_pending_fetch(&mut self) -> (a: Option<u16>)
        ensures
            a == old(self).pending_fetch,
            *final(self) == (DmcChannel { pending_fetch: None, ..*old(self) }),
    {
        self.pending_fetch.take()
    }

    /// Hand the channel the byte it asked for: it fills the buffer, the address advances
    /// (wrapping from `$FFFF` to `$8000`), and the last byte either restarts a looping sample
    /// or raises the interrupt.
    pub fn supply_byte(&mut self, value: u8)
        requires
            old(self).bytes_remaining > 0,
        ensures
            final(self).sample_buffer == value,
            !final(self).sample_buffer_empty,
            ({
                let next: u16 = if old(self).current_address == 0xFFFF { 0x8000 } else { (old(self).current_address + 1) as u16 };
                let left = (old(self).bytes_remaining - 1) as u16;
                if left == 0 && old(self).loop_flag {
                    final(self).current_address == sample_start(old(self).address)
                        && final(self).bytes_remaining == sample_bytes(old(self).length)
                        && final(self).irq_pending == old(self).irq_pending
                } else {
                    final(self).current_address == next
                        && final(self).bytes_remaining == left
                        && final(self).irq_pending == (old(self).irq_pending || (left == 0 && old(self).irq_enabled))
                }
            }),
            *final(self) == (DmcChannel {
                sample_buffer: value,
                sample_buffer_empty: false,
                current_address: final(self).current_address,
                bytes_remaining: final(self).bytes_remaining,
                irq_pending: final(self).irq_pending,
                ..*old(self)
            }),
    {
        self.sample_buffer = value;
        self.sample_buffer_empty = false;
        self.current_address = if self.current_address == 0xFFFF {
            0x8000
        } else {
            self.current_address + 1
        };
        self.bytes_remaining -= 1;
        if self.bytes_remaining == 0 {
            if self.loop_flag {
                self.restart();
            } else if self.irq_enabled {
                self.irq_pending = true;
            }
        }
    }

    /// Point the reader back at the start of the sample.
    fn restart(&mut self)
        ensures
            *final(self) == (DmcChannel {
                current_address: sample_start(old(self).address),
                bytes_remaining: sample_bytes(old(self).length),
                ..*old(self)
            }),
    {
        self.current_address = (self.address as u16) << 6 | 0xC000;
        self.bytes_remaining = (self.length as u16) << 4 | 1;
    }

    /// Take the timer period from the rate bits of the control register.
    fn update_timer(&mut self)
        ensures
            *final(self) == (DmcChannel { timer: dmc_rates()[(old(self).control & 0x0F) as int], ..*old(self) }),
    {
        let rates: [u16; 16] = [428, 380, 340, 320, 286, 254, 226, 214, 190, 160, 142, 128, 106, 84, 72, 54];
        proof {
            assert(rates@ == dmc_rates());
        }
        let c = self.control;
        let freq_bits = c & 0x0F;
        assert(c & 0x0F < 16) by (bit_vector);
        self.timer = rates[freq_bits as usize];
    }

    /// The channel's current DAC level, 0..=127; zero while disabled. The level persists
    /// through silence.
    pub fn output(&self) -> (level: u8)
        requires
            self.wf(),
        ensures
            level == (if self.enabled { self.output_level } else { 0 }),
            level <= 127,
    {
        if !self.enabled {
            return 0;
        }
        self.output_level
    }

    /// Enable or disable the channel. Enabling restarts a finished sample and, if the buffer is
    /// empty, schedules the first fetch 2 cycles (even write) or 3 (odd) away; disabling stops
    /// the sample at once.
    pub fn set_enabled(&mut self, enabled: bool, on_even_cycle: bool)
        requires
            old(self).wf(),
        ensures
            final(self).enabled == enabled,
            enabled && old(self).bytes_remaining == 0 ==> final(self).current_address == sample_start(old(self).address)
                && final(self).bytes_remaining == sample_bytes(old(self).length),
            enabled && old(self).bytes_remaining > 0 ==> final(self).current_address == old(self).current_address
                && final(self).bytes_remaining == old(self).bytes_remaining,
            enabled ==> final(self).start_delay == (if final(self).sample_buffer_empty && final(self).bytes_remaining > 0
                && final(self).pending_fetch is None {
                if on_even_cycle { 2u8 } else { 3u8 }
            } else {
                old(self).start_delay
            }),
            !enabled ==> final(self).bytes_remaining == 0 && final(self).current_address == old(self).current_address
                && final(self).start_delay == old(self).start_delay,
            final(self).length_counter.enabled == enabled,
            final(self).length_counter.counter == (if enabled { old(self).length_counter.counter } else { 0 }),
            final(self).sample_buffer_empty == old(self).sample_buffer_empty,
            final(self).pending_fetch == old(self).pending_fetch,
            final(self).output_level == old(self).output_level,
            final(self).irq_pending == old(self).irq_pending,
            final(self).timer == old(self).timer,
            final(self).timer_value == old(self).timer_value,
            final(self).bits_remaining == old(self).bits_remaining,
            final(self).silence_flag == old(self).silence_flag,
            final(self).shift_register == old(self).shift_register,
            final(self).control == old(self).control && final(self).direct_load == old(self).direct_load,
            final(self).address == old(self).address && final(self).length == old(self).length,
            final(self).irq_enabled == old(self).irq_enabled && final(self).loop_flag == old(self).loop_flag,
            final(self).sample_buffer == old(self).sample_buffer,
            final(self).wf(),
    {
        self.enabled = enabled;
        if enabled {
            if self.bytes_remaining == 0 {
                self.restart();
            }
            if self.sample_buffer_empty && self.bytes_remaining > 0 && self.pending_fetch.is_none() {
                self.start_delay = if on_even_cycle {
                    2
                } else {
                    3
                };
            }
        } else {
            self.bytes_remaining = 0;
        }
        self.length_counter.set_enabled(enabled);
    }

    /// Whether the channel is enabled.
    pub fn is_enabled(&self) -> (b: bool)
        ensures
            b == self.enabled,
    {
        self.enabled
    }

    /// Whether sample bytes are still to be fetched: what bit 4 of `$4015` reports.
    pub fn has_bytes_remaining(&self) -> (b: bool)
        ensures
            b == (self.bytes_remaining > 0),
    {
        self.bytes_remaining > 0
    }

    /// Write one of the channel's registers: control (0), direct load (1), address (2),
    /// length (3). Other offsets are ignored.
    pub fn write_register(&mut self, register_offset: u16, value: u8)
        requires
            old(self).wf(),
        ensures
            register_offset == 0 ==> *final(self) == (DmcChannel {
                control: value,
                irq_enabled: value & 0x80 != 0,
                irq_pending: old(self).irq_pending && value & 0x80 != 0,
                loop_flag: value & 0x40 != 0,
                timer: dmc_rates()[(value & 0x0F) as int],
                ..*old(self)
            }),
            register_offset == 1 ==> *final(self) == (DmcChannel { direct_load: value, output_level: value & 0x7F, ..*old(self) }),
            register_offset == 2 ==> *final(self) == (DmcChannel { address: value, ..*old(self) }),
            register_offset == 3 ==> final(self).length == value
                && final(self).length_counter.counter == counter_after_load(old(self).length_counter, value)
                && *final(self) == (DmcChannel { length: value, length_counter: final(self).length_counter, ..*old(self) }),
            register_offset > 3 ==> *final(self) == *old(self),
            final(self).wf(),
            dmc_register_written(*old(self), *final(self), register_offset, value),
    {
        if register_offset == 0 {
            self.control = value;
            self.irq_enabled = (value & 0x80) != 0;
            if !self.irq_enabled {
                self.irq_pending = false;
            }
            self.loop_flag = (value & 0x40) != 0;
            self.update_timer();
        } else if register_offset == 1 {
            self.direct_load = value;
            self.output_level = value & 0x7F;
            assert(value & 0x7F <= 127) by (bit_vector);
        } else if register_offset == 2 {
            self.address = value;
        } else if register_offset == 3 {
            self.length = value;
            self.length_counter.load(value);
        }
    }
}

/// The output unit never drives the DAC outside its 7-bit range, whatever the bits shifted.
pub proof fn lemma_dmc_level_stays_in_range(d: DmcChannel)
    requires
        d.wf(),
    ensures
        dmc_output_step(dmc_reader_step(d)).wf(),
        dmc_output_step(dmc_reader_step(d)).output_level <= 127,
{
}

/// When the output timer expires on a channel that is playing, the bit leaving the shifter
/// moves the level by two in its own direction: a 1 never lowers the level and raises it by two
/// while it is at most 125; a 0 never raises it and lowers it by two while it is at least 2. A
/// silenced channel, or one with no bits left, holds its level, and so does a tick that only
/// counts the timer down.
pub proof fn lemma_delta_bits_move_the_level(d: DmcChannel)
    ensures
        ({
            let after = dmc_output_step(d);
            let playing = d.timer_value == 0 && !d.silence_flag && d.bits_remaining > 0;
            let one = d.shift_register % 2 == 1;
            &&& (playing && one) ==> after.output_level >= d.output_level
                && (d.output_level <= 125 ==> after.output_level == d.output_level + 2)
            &&& (playing && !one) ==> after.output_level <= d.output_level
                && (d.output_level >= 2 ==> after.output_level + 2 == d.output_level)
            &&& !playing ==> after.output_level == d.output_level
        }),
{
    let r = d.shift_register;
    assert((r & 1 != 0) == (r % 2 == 1)) by (bit_vector);
}

} // verus!
