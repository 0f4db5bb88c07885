//! The APU: five sound channels, the frame sequencer that clocks them, and the status register
//! at `$4015`. Mixing the channels into audio samples is floating-point work and lives with the
//! audio output, outside this crate.
use vstd::prelude::*;

use crate::errors::NesError;
use crate::memory::Addressable;

pub mod dmc_channel;
pub mod envelope;
pub mod frame_counter;
pub mod length_counter;
pub mod mixer;
pub mod noise_channel;
pub mod pulse_channel;
pub mod sweep;
pub mod triangle_channel;

use dmc_channel::DmcChannel;
use frame_counter::{FrameClock, FrameCounter};
use noise_channel::{noise_envelope_ticked, noise_length_ticked, noise_register_written, NoiseChannel};
use pulse_channel::{
    pulse_envelope_ticked, pulse_length_ticked, pulse_register_written, pulse_sweep_ticked, PulseChannel,
};
use triangle_channel::{triangle_length_ticked, triangle_linear_ticked, triangle_register_written, TriangleChannel};

verus! {

/// The status and control register.
pub const APU_STATUS: u16 = 0x4015;

/// Bit 6 of `$4015`: the frame IRQ.
pub const STATUS_FRAME_IRQ: u8 = 0x40;

/// Bit 7 of `$4015`: the DMC IRQ, cleared by reading or writing `$4015`.
pub const STATUS_DMC_IRQ: u8 = 0x80;

/// The APU's five sound channels.
#[derive(Debug, Clone, Copy, PartialEq, Eq, Structural)]
pub enum Channel {
    Pulse1,
    Pulse2,
    Triangle,
    Noise,
    Dmc,
}

/// A channel's enable bit in `$4015`.
pub open spec fn channel_bit(channel: Channel) -> u8 {
    match channel {
        Channel::Pulse1 => 0x01,
        Channel::Pulse2 => 0x02,
        Channel::Triangle => 0x04,
        Channel::Noise => 0x08,
        Channel::Dmc => 0x10,
    }
}

impl Channel {
    /// Every channel, in register order.
    pub fn all() -> (c: [Channel; 5])
        ensures
            c@ == seq![Channel::Pulse1, Channel::Pulse2, Channel::Triangle, Channel::Noise, Channel::Dmc],
    {
        [Channel::Pulse1, Channel::Pulse2, Channel::Triangle, Channel::Noise, Channel::Dmc]
    }

    /// This channel's enable bit in `$4015`.
    pub fn status_bit(&self) -> (b: u8)
        ensures
            b == channel_bit(*self),
    {
        match self {
            Channel::Pulse1 => 0x01,
            Channel::Pulse2 => 0x02,
            Channel::Triangle => 0x04,
            Channel::Noise => 0x08,
            Channel::Dmc => 0x10,
        }
    }

    /// The channel's name, for people.
    pub fn label(&self) -> (s: &'static str)
        ensures
            s@ == match self {
                Channel::Pulse1 => "Pulse 1"@,
                Channel::Pulse2 => "Pulse 2"@,
                Channel::Triangle => "Triangle"@,
                Channel::Noise => "Noise"@,
                Channel::Dmc => "DMC"@,
            },
    {
        match self {
            Channel::Pulse1 => "Pulse 1",
            Channel::Pulse2 => "Pulse 2",
            Channel::Triangle => "Triangle",
            Channel::Noise => "Noise",
            Channel::Dmc => "DMC",
        }
    }
}

/// Everything about the APU a game can observe or hear: the channels, the status register and
/// the frame sequencer.
#[derive(Debug, Clone)]
pub struct ApuState {
    pub pulse1: PulseChannel,
    pub pulse2: PulseChannel,
    pub triangle: TriangleChannel,
    pub noise: NoiseChannel,
    pub dmc: DmcChannel,
    pub status: u8,
    pub apu_cycle: bool,
    pub frame_counter: FrameCounter,
}

/// The APU's sound-generating state, clocked once per CPU cycle.
#[derive(Debug)]
pub struct Apu {
    pulse1: PulseChannel,
    pulse2: PulseChannel,
    triangle: TriangleChannel,
    noise: NoiseChannel,
    dmc: DmcChannel,
    /// The last value written to `$4015`.
    status: u8,
    /// CPU cycles run.
    cycle_counter: u64,
    /// Divides the CPU clock by two: pulse and noise timers run on the APU cycles.
    apu_cycle: bool,
    /// Clocks envelopes, sweeps and length counters, and raises the frame IRQ.
    frame_counter: FrameCounter,
}

/// Whether a register address belongs to the APU: the channels, `$4015` and `$4017`.
pub open spec fn apu_register(address: u16) -> bool {
    0x4000 <= address <= 0x400F || address == 0x4015 || address == 0x4017
}

/// The clock a `$4017` write gives at once: both halves when it selects 5 steps, none otherwise.
pub open spec fn write_clock(value: u8) -> FrameClock {
    if value & 0x80 != 0 { frame_counter::clock_both() } else { frame_counter::clock_none() }
}

/// A pulse channel after a quarter-frame step: its envelope clocked, when there is one.
pub open spec fn pulse_quarter_step(before: PulseChannel, after: PulseChannel, on: bool) -> bool {
    if on { pulse_envelope_ticked(before, after) } else { after == before }
}

/// A pulse channel after a half-frame step, through `mid`: its sweep then its length counter
/// clocked, when there is one.
pub open spec fn pulse_half_step(before: PulseChannel, mid: PulseChannel, after: PulseChannel, on: bool) -> bool {
    if on { pulse_sweep_ticked(before, mid) && pulse_length_ticked(mid, after) } else { after == before }
}

/// A pulse channel after a frame-sequencer clock: the quarter-frame step, then the half-frame one.
pub open spec fn pulse_frame_clocked(before: PulseChannel, after: PulseChannel, clock: FrameClock) -> bool {
    exists|q: PulseChannel, h: PulseChannel|
        #[trigger] pulse_quarter_step(before, q, clock.quarter_frame) && #[trigger] pulse_half_step(q, h, after, clock.half_frame)
}

/// The triangle after a frame-sequencer clock: its linear counter on a quarter frame, then its
/// length counter on a half frame.
pub open spec fn triangle_frame_clocked(before: TriangleChannel, after: TriangleChannel, clock: FrameClock) -> bool {
    exists|q: TriangleChannel|
        #[trigger] triangle_quarter_step(before, q, clock.quarter_frame) && (if clock.half_frame {
            triangle_length_ticked(q, after)
        } else {
            after == q
        })
}

/// The triangle after a quarter-frame step.
pub open spec fn triangle_quarter_step(before: TriangleChannel, after: TriangleChannel, on: bool) -> bool {
    if on { triangle_linear_ticked(before, after) } else { after == before }
}

/// The noise channel after a frame-sequencer clock: its envelope on a quarter frame, then its
/// length counter on a half frame.
pub open spec fn noise_frame_clocked(before: NoiseChannel, after: NoiseChannel, clock: FrameClock) -> bool {
    exists|q: NoiseChannel|
        #[trigger] noise_quarter_step(before, q, clock.quarter_frame) && (if clock.half_frame {
            noise_length_ticked(q, after)
        } else {
            after == q
        })
}

/// The noise channel after a quarter-frame step.
pub open spec fn noise_quarter_step(before: NoiseChannel, after: NoiseChannel, on: bool) -> bool {
    if on { noise_envelope_ticked(before, after) } else { after == before }
}

/// A length counter after its channel's enable bit is written: a disabled channel's drops to
/// zero, an enabled one's is kept.
pub open spec fn counter_after_enable(counter: u8, enabled: bool) -> u8 {
    if enabled { counter } else { 0 }
}

/// What a write of `value` to `$4015` does to the channels: each disabled channel's length
/// counter drops to zero; the DMC's remaining bytes drop to zero when it is disabled, and, when
/// enabled with none left, its sample restarts.
pub open spec fn status_written(before: Apu, after: Apu, value: u8) -> bool {
    &&& after.spec_pulse1().length_counter.counter == counter_after_enable(
        before.spec_pulse1().length_counter.counter,
        value & 0x01 != 0,
    )
    &&& after.spec_pulse2().length_counter.counter == counter_after_enable(
        before.spec_pulse2().length_counter.counter,
        value & 0x02 != 0,
    )
    &&& after.spec_triangle().length_counter.counter == counter_after_enable(
        before.spec_triangle().length_counter.counter,
        value & 0x04 != 0,
    )
    &&& after.spec_noise().length_counter.counter == counter_after_enable(
        before.spec_noise().length_counter.counter,
        value & 0x08 != 0,
    )
    &&& after.spec_dmc().bytes_remaining == (if value & 0x10 == 0 {
        0
    } else if before.spec_dmc().bytes_remaining == 0 {
        dmc_channel::sample_bytes(before.spec_dmc().length)
    } else {
        before.spec_dmc().bytes_remaining
    })
}

impl Apu {
    /// Every channel and the frame sequencer keep their invariants.
    #[verifier::type_invariant]
    closed spec fn wf(&self) -> bool {
        &&& self.pulse1.wf()
        &&& self.pulse2.wf()
        &&& self.triangle.wf()
        &&& self.noise.wf()
        &&& self.dmc.wf()
        &&& self.frame_counter.wf()
        &&& self.pulse1.sweep_unit.is_pulse1
        &&& !self.pulse2.sweep_unit.is_pulse1
    }

    /// Pulse channel 1.
    pub closed spec fn spec_pulse1(&self) -> PulseChannel {
        self.pulse1
    }

    /// Pulse channel 2.
    pub closed spec fn spec_pulse2(&self) -> PulseChannel {
        self.pulse2
    }

    /// The triangle channel.
    pub closed spec fn spec_triangle(&self) -> TriangleChannel {
        self.triangle
    }

    /// The noise channel.
    pub closed spec fn spec_noise(&self) -> NoiseChannel {
        self.noise
    }

    /// The DMC.
    pub closed spec fn spec_dmc(&self) -> DmcChannel {
        self.dmc
    }

    /// The last value written to `$4015`.
    pub closed spec fn spec_status(&self) -> u8 {
        self.status
    }

    /// CPU cycles run.
    pub closed spec fn spec_cycle_counter(&self) -> u64 {
        self.cycle_counter
    }

    /// Whether this is an APU cycle (every other CPU cycle).
    pub closed spec fn spec_apu_cycle(&self) -> bool {
        self.apu_cycle
    }

    /// The frame sequencer.
    pub closed spec fn spec_frame_counter(&self) -> FrameCounter {
        self.frame_counter
    }

    /// Pulse channel 1.
    pub fn pulse1(&self) -> (p: PulseChannel)
        ensures
            p == self.spec_pulse1(),
    {
        self.pulse1
    }

    /// Pulse channel 2.
    pub fn pulse2(&self) -> (p: PulseChannel)
        ensures
            p == self.spec_pulse2(),
    {
        self.pulse2
    }

    /// The triangle channel.
    pub fn triangle(&self) -> (t: TriangleChannel)
        ensures
            t == self.spec_triangle(),
    {
        self.triangle
    }

    /// The noise channel.
    pub fn noise(&self) -> (n: NoiseChannel)
        ensures
            n == self.spec_noise(),
    {
        self.noise
    }

    /// The DMC.
    pub fn dmc(&self) -> (d: DmcChannel)
        ensures
            d == self.spec_dmc(),
    {
        self.dmc
    }

    /// The last value written to `$4015`.
    pub fn status(&self) -> (s: u8)
        ensures
            s == self.spec_status(),
    {
        self.status
    }

    /// CPU cycles run since power-on or reset.
    pub fn cycle_counter(&self) -> (c: u64)
        ensures
            c == self.spec_cycle_counter(),
    {
        self.cycle_counter
    }

    /// Whether the last cycle was an APU cycle.
    pub fn apu_cycle(&self) -> (b: bool)
        ensures
            b == self.spec_apu_cycle(),
    {
        self.apu_cycle
    }

    /// The frame sequencer.
    pub fn frame_counter(&self) -> (f: FrameCounter)
        ensures
            f == self.spec_frame_counter(),
    {
        self.frame_counter
    }

    /// What reading `$4015` reports: the frame and DMC interrupts, which channels' length
    /// counters are running, and whether the DMC has bytes left to fetch.
    pub open spec fn status_byte(&self) -> u8 {
        (if self.spec_frame_counter().irq_pending { STATUS_FRAME_IRQ } else { 0u8 })
            | (if self.spec_dmc().irq_pending { STATUS_DMC_IRQ } else { 0u8 })
            | (if self.spec_pulse1().length_counter.counter > 0 { 0x01u8 } else { 0u8 })
            | (if self.spec_pulse2().length_counter.counter > 0 { 0x02u8 } else { 0u8 })
            | (if self.spec_triangle().length_counter.counter > 0 { 0x04u8 } else { 0u8 })
            | (if self.spec_noise().length_counter.counter > 0 { 0x08u8 } else { 0u8 })
            | (if self.spec_dmc().bytes_remaining > 0 { 0x10u8 } else { 0u8 })
    }

    /// An APU in its power-on state.
    pub fn new() -> (apu: Self)
        ensures
            apu.spec_status() == 0 && apu.spec_cycle_counter() == 0 && !apu.spec_apu_cycle(),
            !apu.spec_pulse1().enabled && !apu.spec_pulse2().enabled && !apu.spec_triangle().enabled,
            !apu.spec_noise().enabled && !apu.spec_dmc().enabled,
            !apu.spec_frame_counter().irq_pending && !apu.spec_dmc().irq_pending,
            apu.spec_frame_counter().cycle == 0 && apu.spec_frame_counter().pending_reset is None,
    {
        let mut apu = Apu {
            pulse1: PulseChannel::new(true),
            pulse2: PulseChannel::new(false),
            triangle: TriangleChannel::new(),
            noise: NoiseChannel::new(),
            dmc: DmcChannel::new(),
            status: 0,
            cycle_counter: 0,
            apu_cycle: false,
            frame_counter: FrameCounter::new(),
        };
        apu.power_on();
        apu
    }

    /// Restore the power-on state: every channel register, envelope and counter cleared. The
    /// DMC's output level, and an interrupt or fetch it holds, are left to the channel's own reset.
    pub fn power_on(&mut self)
        ensures
            final(self).spec_status() == 0 && final(self).spec_cycle_counter() == 0 && !final(self).spec_apu_cycle(),
            !final(self).spec_pulse1().enabled && !final(self).spec_pulse2().enabled,
            !final(self).spec_triangle().enabled && !final(self).spec_noise().enabled && !final(self).spec_dmc().enabled,
            !final(self).spec_frame_counter().irq_pending,
            final(self).spec_dmc().irq_pending == old(self).spec_dmc().irq_pending,
            final(self).spec_frame_counter().cycle == 0 && final(self).spec_frame_counter().pending_reset is None,
            final(self).spec_pulse1().control == 0 && final(self).spec_pulse2().control == 0,
            final(self).spec_triangle().control == 0 && final(self).spec_noise().control == 0,
            final(self).spec_dmc().control == 0,
            final(self).spec_pulse1().length_counter.counter == 0 && final(self).spec_pulse2().length_counter.counter == 0,
            final(self).spec_triangle().length_counter.counter == 0 && final(self).spec_noise().length_counter.counter == 0,
            final(self).spec_dmc().bytes_remaining == 0,
    {
        proof {
            use_type_invariant(&*self);
        }
        let mut pulse1 = self.pulse1;
        pulse1.reset();
        let mut pulse2 = self.pulse2;
        pulse2.reset();
        let mut triangle = self.triangle;
        triangle.reset();
        let mut noise = self.noise;
        noise.reset();
        let mut dmc = self.dmc;
        dmc.reset();
        self.pulse1 = pulse1;
        self.pulse2 = pulse2;
        self.triangle = triangle;
        self.noise = noise;
        self.dmc = dmc;
        self.status = 0;
        self.cycle_counter = 0;
        self.apu_cycle = false;
        self.frame_counter = FrameCounter::new();
    }

    /// Press reset: `$4015` is cleared, silencing every channel, and `$4000-$4013` keep what
    /// was written to them.
    pub fn reset(&mut self)
        ensures
            final(self).spec_status() == 0 && final(self).spec_cycle_counter() == 0 && !final(self).spec_apu_cycle(),
            !final(self).spec_pulse1().enabled && !final(self).spec_pulse2().enabled,
            !final(self).spec_triangle().enabled && !final(self).spec_noise().enabled && !final(self).spec_dmc().enabled,
            final(self).spec_pulse1().control == old(self).spec_pulse1().control,
            final(self).spec_pulse2().control == old(self).spec_pulse2().control,
            final(self).spec_triangle().control == old(self).spec_triangle().control,
            final(self).spec_triangle().linear_counter_halt == old(self).spec_triangle().linear_counter_halt,
            final(self).spec_noise().control == old(self).spec_noise().control,
            final(self).spec_dmc().control == old(self).spec_dmc().control,
            final(self).spec_frame_counter().cycle == 0 && !final(self).spec_frame_counter().irq_pending,
    {
        let _ = self.write_status(0);
        proof {
            use_type_invariant(&*self);
        }
        assert(0u8 & 0x01 == 0 && 0u8 & 0x02 == 0 && 0u8 & 0x04 == 0 && 0u8 & 0x08 == 0 && 0u8 & 0x10 == 0) by (bit_vector);
        self.cycle_counter = 0;
        self.apu_cycle = false;
        let mut frame_counter = self.frame_counter;
        frame_counter.reset();
        self.frame_counter = frame_counter;
    }

    /// Advance one CPU cycle: the frame sequencer, then the pulse and noise timers on every
    /// other cycle, then the triangle and the DMC, which run at the CPU rate.
    pub fn tick(&mut self)
        requires
            old(self).spec_cycle_counter() < u64::MAX,
            old(self).spec_frame_counter().cycle < u64::MAX,
        ensures
            final(self).spec_cycle_counter() == old(self).spec_cycle_counter() + 1,
            final(self).spec_apu_cycle() == !old(self).spec_apu_cycle(),
            final(self).spec_status() == old(self).spec_status(),
            !final(self).spec_apu_cycle() ==> final(self).spec_pulse1().timer_value == old(self).spec_pulse1().timer_value
                && final(self).spec_pulse2().timer_value == old(self).spec_pulse2().timer_value
                && final(self).spec_noise().timer_value == old(self).spec_noise().timer_value,
    {
        proof {
            use_type_invariant(&*self);
        }
        self.cycle_counter = self.cycle_counter + 1;
        self.apu_cycle = !self.apu_cycle;
        let mut frame_counter = self.frame_counter;
        let clock = frame_counter.tick();
        self.frame_counter = frame_counter;
        self.apply_frame_clock(clock);
        proof {
            use_type_invariant(&*self);
        }
        let mut pulse1 = self.pulse1;
        let mut pulse2 = self.pulse2;
        let mut noise = self.noise;
        if self.apu_cycle {
            pulse1.tick();
            pulse2.tick();
            noise.tick();
        }
        let mut triangle = self.triangle;
        triangle.tick();
        let mut dmc = self.dmc;
        dmc.tick();
        self.pulse1 = pulse1;
        self.pulse2 = pulse2;
        self.noise = noise;
        self.triangle = triangle;
        self.dmc = dmc;
    }

    /// Clock what a frame-sequencer step asks for: envelopes and the triangle's linear counter
    /// on a quarter frame; sweeps and length counters on a half frame.
    fn apply_frame_clock(&mut self, clock: FrameClock)
        ensures
            final(self).status == old(self).status,
            final(self).cycle_counter == old(self).cycle_counter,
            final(self).apu_cycle == old(self).apu_cycle,
            final(self).frame_counter == old(self).frame_counter,
            final(self).dmc == old(self).dmc,
            final(self).pulse1.timer_value == old(self).pulse1.timer_value,
            final(self).pulse2.timer_value == old(self).pulse2.timer_value,
            final(self).noise.timer_value == old(self).noise.timer_value,
            !clock.quarter_frame && !clock.half_frame ==> final(self).pulse1 == old(self).pulse1
                && final(self).pulse2 == old(self).pulse2 && final(self).triangle == old(self).triangle
                && final(self).noise == old(self).noise,
            pulse_frame_clocked(old(self).pulse1, final(self).pulse1, clock),
            pulse_frame_clocked(old(self).pulse2, final(self).pulse2, clock),
            triangle_frame_clocked(old(self).triangle, final(self).triangle, clock),
            noise_frame_clocked(old(self).noise, final(self).noise, clock),
    {
        proof {
            use_type_invariant(&*self);
        }
        let mut pulse1 = self.pulse1;
        let mut pulse2 = self.pulse2;
        let mut triangle = self.triangle;
        let mut noise = self.noise;
        if clock.quarter_frame {
            pulse1.tick_envelope();
            pulse2.tick_envelope();
            triangle.tick_linear_counter();
            noise.tick_envelope();
        }
        let ghost p1_q = pulse1;
        let ghost p2_q = pulse2;
        let ghost t_q = triangle;
        let ghost n_q = noise;
        let ghost mut p1_h = pulse1;
        let ghost mut p2_h = pulse2;
        if clock.half_frame {
            pulse1.tick_sweep();
            pulse2.tick_sweep();
            proof {
                p1_h = pulse1;
                p2_h = pulse2;
            }
            pulse1.tick_length_counter();
            pulse2.tick_length_counter();
            triangle.tick_length_counter();
            noise.tick_length_counter();
        }
        assert(pulse_quarter_step(old(self).pulse1, p1_q, clock.quarter_frame) && pulse_half_step(p1_q, p1_h, pulse1, clock.half_frame));
        assert(pulse_quarter_step(old(self).pulse2, p2_q, clock.quarter_frame) && pulse_half_step(p2_q, p2_h, pulse2, clock.half_frame));
        assert(triangle_quarter_step(old(self).triangle, t_q, clock.quarter_frame));
        assert(noise_quarter_step(old(self).noise, n_q, clock.quarter_frame));
        self.pulse1 = pulse1;
        self.pulse2 = pulse2;
        self.triangle = triangle;
        self.noise = noise;
    }

    /// Clear the frame IRQ, as reading `$4015` does.
    pub fn acknowledge_frame_irq(&mut self)
        ensures
            !final(self).spec_frame_counter().irq_pending,
            final(self).spec_frame_counter() == (FrameCounter { irq_pending: false, ..old(self).spec_frame_counter() }),
            final(self).spec_pulse1() == old(self).spec_pulse1() && final(self).spec_pulse2() == old(self).spec_pulse2(),
            final(self).spec_triangle() == old(self).spec_triangle() && final(self).spec_noise() == old(self).spec_noise(),
            final(self).spec_dmc() == old(self).spec_dmc() && final(self).spec_status() == old(self).spec_status(),
            final(self).spec_cycle_counter() == old(self).spec_cycle_counter(),
            final(self).spec_apu_cycle() == old(self).spec_apu_cycle(),
    {
        proof {
            use_type_invariant(&*self);
        }
        let mut frame_counter = self.frame_counter;
        let _ = frame_counter.take_irq();
        self.frame_counter = frame_counter;
    }

    /// Whether a channel is enabled through `$4015`.
    pub fn channel_enabled(&self, channel: Channel) -> (b: bool)
        ensures
            b == match channel {
                Channel::Pulse1 => self.spec_pulse1().enabled,
                Channel::Pulse2 => self.spec_pulse2().enabled,
                Channel::Triangle => self.spec_triangle().enabled,
                Channel::Noise => self.spec_noise().enabled,
                Channel::Dmc => self.spec_dmc().enabled,
            },
    {
        match channel {
            Channel::Pulse1 => self.pulse1.is_enabled(),
            Channel::Pulse2 => self.pulse2.is_enabled(),
            Channel::Triangle => self.triangle.is_enabled(),
            Channel::Noise => self.noise.is_enabled(),
            Channel::Dmc => self.dmc.is_enabled(),
        }
    }

    /// Whether the IRQ line is asserted: by the frame sequencer or by the DMC finishing a
    /// sample.
    pub fn irq_pending(&self) -> (b: bool)
        ensures
            b == (self.spec_frame_counter().irq_pending || self.spec_dmc().irq_pending),
    {
        self.frame_counter.irq_pending() || self.dmc.irq_pending()
    }

    /// The address the DMC wants a sample byte from, if it is waiting on one.
    pub fn take_dmc_fetch(&mut self) -> (a: Option<u16>)
        ensures
            a == old(self).spec_dmc().pending_fetch,
            final(self).spec_dmc() == (DmcChannel { pending_fetch: None, ..old(self).spec_dmc() }),
            final(self).spec_pulse1() == old(self).spec_pulse1() && final(self).spec_pulse2() == old(self).spec_pulse2(),
            final(self).spec_triangle() == old(self).spec_triangle() && final(self).spec_noise() == old(self).spec_noise(),
            final(self).spec_frame_counter() == old(self).spec_frame_counter(),
    {
        proof {
            use_type_invariant(&*self);
        }
        let mut dmc = self.dmc;
        let fetch = dmc.take_pending_fetch();
        self.dmc = dmc;
        fetch
    }

    /// Hand the DMC the byte it asked for.
    pub fn supply_dmc_byte(&mut self, value: u8)
        requires
            old(self).spec_dmc().bytes_remaining > 0,
        ensures
            final(self).spec_dmc().sample_buffer == value,
            !final(self).spec_dmc().sample_buffer_empty,
            final(self).spec_pulse1() == old(self).spec_pulse1() && final(self).spec_pulse2() == old(self).spec_pulse2(),
            final(self).spec_triangle() == old(self).spec_triangle() && final(self).spec_noise() == old(self).spec_noise(),
            final(self).spec_frame_counter() == old(self).spec_frame_counter(),
    {
        proof {
            use_type_invariant(&*self);
        }
        let mut dmc = self.dmc;
        dmc.supply_byte(value);
        self.dmc = dmc;
    }

    /// Capture everything that cannot be recomputed.
    pub fn save_state(&self) -> (s: ApuState)
        ensures
            s.pulse1 == self.spec_pulse1() && s.pulse2 == self.spec_pulse2() && s.triangle == self.spec_triangle(),
            s.noise == self.spec_noise() && s.dmc == self.spec_dmc(),
            s.status == self.spec_status() && s.apu_cycle == self.spec_apu_cycle(),
            s.frame_counter == self.spec_frame_counter(),
    {
        ApuState {
            pulse1: self.pulse1.clone(),
            pulse2: self.pulse2.clone(),
            triangle: self.triangle.clone(),
            noise: self.noise.clone(),
            dmc: self.dmc.clone(),
            status: self.status,
            apu_cycle: self.apu_cycle,
            frame_counter: self.frame_counter.clone(),
        }
    }

    /// Restore a captured state, if it keeps the channels' invariants; returns whether it did.
    pub fn load_state(&mut self, state: &ApuState) -> (loaded: bool)
        ensures
            loaded == (state.pulse1.wf() && state.pulse2.wf() && state.triangle.wf() && state.noise.wf()
                && state.dmc.wf() && state.frame_counter.wf() && state.pulse1.sweep_unit.is_pulse1
                && !state.pulse2.sweep_unit.is_pulse1),
            loaded ==> final(self).spec_pulse1() == state.pulse1 && final(self).spec_pulse2() == state.pulse2
                && final(self).spec_triangle() == state.triangle && final(self).spec_noise() == state.noise
                && final(self).spec_dmc() == state.dmc && final(self).spec_status() == state.status
                && final(self).spec_apu_cycle() == state.apu_cycle && final(self).spec_frame_counter() == state.frame_counter
                && final(self).spec_cycle_counter() == old(self).spec_cycle_counter(),
            !loaded ==> *final(self) == *old(self),
    {
        if !state_is_sound(state) {
            return false;
        }
        proof {
            use_type_invariant(&*self);
        }
        self.pulse1 = state.pulse1;
        self.pulse2 = state.pulse2;
        self.triangle = state.triangle;
        self.noise = state.noise;
        self.dmc = state.dmc;
        self.status = state.status;
        self.apu_cycle = state.apu_cycle;
        self.frame_counter = state.frame_counter;
        true
    }

    /// Build the status byte.
    fn status_value(&self) -> (b: u8)
        ensures
            b == self.status_byte(),
    {
        let frame_irq: u8 = if self.frame_counter.irq_pending() { STATUS_FRAME_IRQ } else { 0 };
        let dmc_irq: u8 = if self.dmc.irq_pending() { STATUS_DMC_IRQ } else { 0 };
        let pulse1: u8 = if self.pulse1.is_length_counter_active() { 0x01 } else { 0 };
        let pulse2: u8 = if self.pulse2.is_length_counter_active() { 0x02 } else { 0 };
        let triangle: u8 = if self.triangle.is_length_counter_active() { 0x04 } else { 0 };
        let noise: u8 = if self.noise.is_length_counter_active() { 0x08 } else { 0 };
        let dmc: u8 = if self.dmc.has_bytes_remaining() { 0x10 } else { 0 };
        frame_irq | dmc_irq | pulse1 | pulse2 | triangle | noise | dmc
    }

    /// A write to `$4015`: enable or disable each channel, and acknowledge the DMC interrupt.
    fn write_status(&mut self, value: u8) -> (r: Result<(), NesError>)
        ensures
            r is Ok,
            final(self).status == value,
            final(self).pulse1.enabled == (value & 0x01 != 0),
            final(self).pulse2.enabled == (value & 0x02 != 0),
            final(self).triangle.enabled == (value & 0x04 != 0),
            final(self).noise.enabled == (value & 0x08 != 0),
            final(self).dmc.enabled == (value & 0x10 != 0),
            !final(self).dmc.irq_pending,
            final(self).pulse1.control == old(self).pulse1.control && final(self).pulse2.control == old(self).pulse2.control,
            final(self).triangle.control == old(self).triangle.control && final(self).noise.control == old(self).noise.control,
            final(self).triangle.linear_counter_halt == old(self).triangle.linear_counter_halt,
            final(self).dmc.control == old(self).dmc.control,
            final(self).frame_counter == old(self).frame_counter,
            final(self).cycle_counter == old(self).cycle_counter && final(self).apu_cycle == old(self).apu_cycle,
            status_written(*old(self), *final(self), value),
    {
        proof {
            use_type_invariant(&*self);
        }
        let mut pulse1 = self.pulse1;
        pulse1.set_enabled((value & 0x01) != 0);
        let mut pulse2 = self.pulse2;
        pulse2.set_enabled((value & 0x02) != 0);
        let mut triangle = self.triangle;
        triangle.set_enabled((value & 0x04) != 0);
        let mut noise = self.noise;
        noise.set_enabled((value & 0x08) != 0);
        let even = self.cycle_counter % 2 == 0;
        let mut dmc = self.dmc;
        dmc.set_enabled((value & 0x10) != 0, even);
        dmc.acknowledge_irq();
        self.pulse1 = pulse1;
        self.pulse2 = pulse2;
        self.triangle = triangle;
        self.noise = noise;
        self.dmc = dmc;
        self.status = value;
        Ok(())
    }

    /// A write to one of the pulse, triangle or noise registers.
    fn write_channel_register(&mut self, address: u16, value: u8)
        requires
            0x4000 <= address <= 0x400F,
        ensures
            final(self).dmc == old(self).dmc && final(self).status == old(self).status,
            final(self).frame_counter == old(self).frame_counter,
            final(self).cycle_counter == old(self).cycle_counter && final(self).apu_cycle == old(self).apu_cycle,
            address > 0x4003 ==> final(self).pulse1 == old(self).pulse1,
            !(0x4004 <= address <= 0x4007) ==> final(self).pulse2 == old(self).pulse2,
            !(0x4008 <= address <= 0x400B) ==> final(self).triangle == old(self).triangle,
            address < 0x400C ==> final(self).noise == old(self).noise,
            address == 0x4009 ==> final(self).triangle == old(self).triangle,
            address <= 0x4003 ==> pulse_register_written(old(self).pulse1, final(self).pulse1, (address - 0x4000) as u16, value),
            0x4004 <= address <= 0x4007 ==> pulse_register_written(
                old(self).pulse2,
                final(self).pulse2,
                (address - 0x4004) as u16,
                value,
            ),
            0x4008 <= address <= 0x400B && address != 0x4009 ==> triangle_register_written(
                old(self).triangle,
                final(self).triangle,
                (address - 0x4008) as u16,
                value,
            ),
            address >= 0x400C ==> noise_register_written(old(self).noise, final(self).noise, (address - 0x400C) as u16, value),
    {
        proof {
            use_type_invariant(&*self);
        }
        if address <= 0x4003 {
            let mut pulse1 = self.pulse1;
            pulse1.write_register(address - 0x4000, value);
            self.pulse1 = pulse1;
        } else if address <= 0x4007 {
            let mut pulse2 = self.pulse2;
            pulse2.write_register(address - 0x4004, value);
            self.pulse2 = pulse2;
        } else if address <= 0x400B {
            // $4009 is unused.
            if address != 0x4009 {
                let mut triangle = self.triangle;
                triangle.write_register(address - 0x4008, value);
                self.triangle = triangle;
            }
        } else {
            let mut noise = self.noise;
            noise.write_register(address - 0x400C, value);
            self.noise = noise;
        }
    }
}

/// Whether a captured state keeps every invariant the APU relies on.
fn state_is_sound(state: &ApuState) -> (b: bool)
    ensures
        b == (state.pulse1.wf() && state.pulse2.wf() && state.triangle.wf() && state.noise.wf() && state.dmc.wf()
            && state.frame_counter.wf() && state.pulse1.sweep_unit.is_pulse1 && !state.pulse2.sweep_unit.is_pulse1),
{
    state.pulse1.is_sound() && state.pulse2.is_sound() && state.triangle.is_sound() && state.noise.is_sound()
        && state.dmc.is_sound() && state.frame_counter.is_sound() && state.pulse1.sweep_unit.is_pulse1
        && !state.pulse2.sweep_unit.is_pulse1
}

impl Addressable for Apu {
    closed spec fn spec_handles(&self, address: u16) -> bool {
        apu_register(address)
    }

    closed spec fn spec_read(&self, address: u16) -> Result<u8, NesError> {
        if address == APU_STATUS { Ok(self.status_byte()) } else { Ok(0) }
    }

    /// Reading `$4015` acknowledges the frame interrupt: a register, not storage.
    open spec fn is_storage(&self) -> bool {
        false
    }

    fn handles_address(&self, address: u16) -> (b: bool) {
        (0x4000 <= address && address <= 0x400F) || address == 0x4015 || address == 0x4017
    }

    fn peek_byte(&self, address: u16) -> (r: Result<u8, NesError>) {
        if address == APU_STATUS {
            Ok(self.status_value())
        } else {
            Ok(0)
        }
    }

    /// Read a register. Only `$4015` reads back; the others are write-only and read as zero.
    /// Reading changes nothing here: acknowledging the frame interrupt that a `$4015` read
    /// causes is the bus's part (see `Component::read_byte`).
    fn read_byte(&mut self, address: u16) -> (r: Result<u8, NesError>)
        ensures
            address == APU_STATUS ==> r == Ok::<u8, NesError>(old(self).status_byte()),
            address != APU_STATUS ==> r == Ok::<u8, NesError>(0),
            *final(self) == *old(self),
    {
        if address == APU_STATUS {
            Ok(self.status_value())
        } else {
            Ok(0)
        }
    }

    /// Write a register: the channel registers go to their channel, `$4015` enables channels,
    /// and `$4017` sets the frame sequencer's mode, clocking at once when it selects 5 steps.
    /// Writes elsewhere are ignored.
    fn write_byte(&mut self, address: u16, value: u8) -> (r: Result<(), NesError>)
        ensures
            r is Ok,
            !(0x4000 <= address <= 0x4013 || address == 0x4015 || address == 0x4017) ==> *final(self) == *old(self),
            0x4000 <= address <= 0x4003 ==> final(self).spec_pulse2() == old(self).spec_pulse2()
                && final(self).spec_triangle() == old(self).spec_triangle() && final(self).spec_noise() == old(self).spec_noise()
                && final(self).spec_dmc() == old(self).spec_dmc() && final(self).spec_status() == old(self).spec_status(),
            0x4004 <= address <= 0x4007 ==> final(self).spec_pulse1() == old(self).spec_pulse1()
                && final(self).spec_triangle() == old(self).spec_triangle() && final(self).spec_noise() == old(self).spec_noise()
                && final(self).spec_dmc() == old(self).spec_dmc() && final(self).spec_status() == old(self).spec_status(),
            0x4008 <= address <= 0x400B ==> final(self).spec_pulse1() == old(self).spec_pulse1()
                && final(self).spec_pulse2() == old(self).spec_pulse2() && final(self).spec_noise() == old(self).spec_noise()
                && final(self).spec_dmc() == old(self).spec_dmc() && final(self).spec_status() == old(self).spec_status(),
            0x400C <= address <= 0x400F ==> final(self).spec_pulse1() == old(self).spec_pulse1()
                && final(self).spec_pulse2() == old(self).spec_pulse2() && final(self).spec_triangle() == old(self).spec_triangle()
                && final(self).spec_dmc() == old(self).spec_dmc() && final(self).spec_status() == old(self).spec_status(),
            address == APU_STATUS ==> final(self).spec_status() == value
                && final(self).spec_pulse1().enabled == (value & 0x01 != 0) && final(self).spec_pulse2().enabled == (value & 0x02 != 0)
                && final(self).spec_triangle().enabled == (value & 0x04 != 0) && final(self).spec_noise().enabled == (value & 0x08 != 0)
                && final(self).spec_dmc().enabled == (value & 0x10 != 0) && !final(self).spec_dmc().irq_pending,
            address == 0x4017 ==> final(self).spec_frame_counter().irq_inhibit == (value & 0x40 != 0)
                && final(self).spec_frame_counter().pending_reset == Some(3u8)
                && final(self).spec_frame_counter().mode == (if value & 0x80 != 0 {
                    frame_counter::Mode::FiveStep
                } else {
                    frame_counter::Mode::FourStep
                })
                && final(self).spec_status() == old(self).spec_status(),
            address == 0x4017 ==> pulse_frame_clocked(old(self).spec_pulse1(), final(self).spec_pulse1(), write_clock(value))
                && pulse_frame_clocked(old(self).spec_pulse2(), final(self).spec_pulse2(), write_clock(value))
                && triangle_frame_clocked(old(self).spec_triangle(), final(self).spec_triangle(), write_clock(value))
                && noise_frame_clocked(old(self).spec_noise(), final(self).spec_noise(), write_clock(value)),
            address == APU_STATUS ==> status_written(*old(self), *final(self), value),
            0x4000 <= address <= 0x4003 ==> pulse_register_written(
                old(self).spec_pulse1(),
                final(self).spec_pulse1(),
                (address - 0x4000) as u16,
                value,
            ),
            0x4004 <= address <= 0x4007 ==> pulse_register_written(
                old(self).spec_pulse2(),
                final(self).spec_pulse2(),
                (address - 0x4004) as u16,
                value,
            ),
            0x4008 <= address <= 0x400B && address != 0x4009 ==> triangle_register_written(
                old(self).spec_triangle(),
                final(self).spec_triangle(),
                (address - 0x4008) as u16,
                value,
            ),
            address == 0x4009 ==> final(self).spec_triangle() == old(self).spec_triangle(),
            0x400C <= address <= 0x400F ==> noise_register_written(
                old(self).spec_noise(),
                final(self).spec_noise(),
                (address - 0x400C) as u16,
                value,
            ),
            0x4010 <= address <= 0x4013 ==> dmc_channel::dmc_register_written(
                old(self).spec_dmc(),
                final(self).spec_dmc(),
                (address - 0x4010) as u16,
                value,
            ) && final(self).spec_pulse1() == old(self).spec_pulse1() && final(self).spec_pulse2() == old(self).spec_pulse2()
                && final(self).spec_triangle() == old(self).spec_triangle() && final(self).spec_noise()
                == old(self).spec_noise() && final(self).spec_status() == old(self).spec_status(),
    {
        proof {
            use_type_invariant(&*self);
        }
        if 0x4000 <= address && address <= 0x400F {
            self.write_channel_register(address, value);
            Ok(())
        } else if 0x4010 <= address && address <= 0x4013 {
            let mut dmc = self.dmc;
            dmc.write_register(address - 0x4010, value);
            self.dmc = dmc;
            Ok(())
        } else if address == APU_STATUS {
            self.write_status(value)
        } else if address == 0x4017 {
            let mut frame_counter = self.frame_counter;
            let immediate = frame_counter.write(value);
            self.frame_counter = frame_counter;
            self.apply_frame_clock(immediate);
            Ok(())
        } else {
            Ok(())
        }
    }

    /// Nothing: a bus reset leaves the registers to the component's own reset.
    fn reset(&mut self)
        ensures
            *final(self) == *old(self),
    {
    }
}

impl Default for Apu {
    /// An APU in its power-on state.
    fn default() -> (apu: Self)
        ensures
            apu.spec_status() == 0 && apu.spec_cycle_counter() == 0,
    {
        Self::new()
    }
}

} // verus!
