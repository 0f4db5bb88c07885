//! The APU frame counter (frame sequencer).
//!
//! A free-running divider off the CPU clock that clocks the envelopes, the triangle's linear
//! counter, the sweep units and the length counters at fixed points in a repeating sequence.
//! Bit 7 of `$4017` selects the 4-step sequence (with an IRQ at its end unless inhibited) or the
//! longer 5-step one (never an IRQ). Step boundaries are in CPU cycles.
use vstd::prelude::*;

verus! {

/// What a step of the sequence should clock.
#[derive(Debug, Clone, Copy, PartialEq, Eq, Structural, Default)]
pub struct FrameClock {
    /// Envelopes and the triangle's linear counter.
    pub quarter_frame: bool,
    /// Sweep units and length counters. Always accompanied by a quarter frame.
    pub half_frame: bool,
}

/// The sequence mode selected by bit 7 of `$4017`.
#[derive(Debug, Clone, Copy, PartialEq, Eq, Structural)]
pub enum Mode {
    FourStep,
    FiveStep,
}

/// The frame sequencer.
#[derive(Debug, Clone, Copy)]
pub struct FrameCounter {
    pub mode: Mode,
    /// CPU cycles since the sequence last restarted.
    pub cycle: u64,
    /// When set, the frame IRQ never fires and any pending one is cleared.
    pub irq_inhibit: bool,
    /// Latched IRQ status, reported by bit 6 of `$4015`.
    pub irq_pending: bool,
    /// Countdown to a pending `$4017` reset, in CPU cycles.
    pub pending_reset: Option<u8>,
}

/// No clock at all.
pub open spec fn clock_none() -> FrameClock {
    FrameClock { quarter_frame: false, half_frame: false }
}

/// A quarter frame only.
pub open spec fn clock_quarter() -> FrameClock {
    FrameClock { quarter_frame: true, half_frame: false }
}

/// A half frame, which always brings a quarter frame with it.
pub open spec fn clock_both() -> FrameClock {
    FrameClock { quarter_frame: true, half_frame: true }
}

/// The cycle at which a sequence wraps: its last step.
pub open spec fn sequence_length(mode: Mode) -> u64 {
    match mode {
        Mode::FourStep => 29830,
        Mode::FiveStep => 37282,
    }
}

/// The step table: what each mode clocks at a given cycle of its sequence.
pub open spec fn step_clock(mode: Mode, cycle: u64) -> FrameClock {
    match mode {
        Mode::FourStep => {
            if cycle == 7457 {
                clock_quarter()
            } else if cycle == 14913 {
                clock_both()
            } else if cycle == 22371 {
                clock_quarter()
            } else if cycle == 29830 {
                clock_both()
            } else {
                clock_none()
            }
        },
        Mode::FiveStep => {
            if cycle == 7457 {
                clock_quarter()
            } else if cycle == 14913 {
                clock_both()
            } else if cycle == 22371 {
                clock_quarter()
            } else if cycle == 37282 {
                clock_both()
            } else {
                clock_none()
            }
        },
    }
}

/// The sequence cycle a tick advances to, after applying any reset that has come due.
pub open spec fn advanced_cycle(f: FrameCounter) -> u64 {
    let base: u64 = if f.pending_reset == Some(0u8) { 0 } else { f.cycle };
    (base + 1) as u64
}

impl FrameClock {
    /// Whether this step clocks nothing.
    pub fn is_idle(&self) -> (b: bool)
        ensures
            b == (!self.quarter_frame && !self.half_frame),
    {
        !self.quarter_frame && !self.half_frame
    }

    /// No clock at all.
    pub fn none() -> (c: Self)
        ensures
            c == clock_none(),
    {
        FrameClock { quarter_frame: false, half_frame: false }
    }

    /// A quarter frame only.
    pub fn quarter() -> (c: Self)
        ensures
            c == clock_quarter(),
    {
        FrameClock { quarter_frame: true, half_frame: false }
    }

    /// A half frame together with its quarter frame.
    pub fn both() -> (c: Self)
        ensures
            c == clock_both(),
    {
        FrameClock { quarter_frame: true, half_frame: true }
    }
}

/// Look a cycle up in a mode's step table.
fn sequence_step(mode: Mode, cycle: u64) -> (c: FrameClock)
    ensures
        c == step_clock(mode, cycle),
{
    if cycle == 7457 || cycle == 22371 {
        FrameClock::quarter()
    } else if cycle == 14913 {
        FrameClock::both()
    } else {
        match mode {
            Mode::FourStep => if cycle == 29830 {
                FrameClock::both()
            } else {
                FrameClock::none()
            },
            Mode::FiveStep => if cycle == 37282 {
                FrameClock::both()
            } else {
                FrameClock::none()
            },
        }
    }
}

/// The wrap point of a mode's sequence.
fn last_cycle(mode: Mode) -> (c: u64)
    ensures
        c == sequence_length(mode),
{
    match mode {
        Mode::FourStep => 29830,
        Mode::FiveStep => 37282,
    }
}

impl FrameCounter {
    /// The cycle count stays inside the sequence unless a restart is on its way: a mode change
    /// can leave it past the new sequence's end until that restart lands.
    pub open spec fn wf(&self) -> bool {
        match self.pending_reset {
            Some(d) => d <= 3,
            None => self.cycle < sequence_length(self.mode),
        }
    }

    /// Whether the invariant holds.
    pub fn is_sound(&self) -> (b: bool)
        ensures
            b == self.wf(),
    {
        match self.pending_reset {
            Some(d) => d <= 3,
            None => self.cycle < last_cycle(self.mode),
        }
    }

    /// A frame counter in 4-step mode at the start of its sequence, with nothing pending.
    pub fn new() -> (f: Self)
        ensures
            f.mode == Mode::FourStep,
            f.cycle == 0,
            !f.irq_inhibit,
            !f.irq_pending,
            f.pending_reset is None,
            f.wf(),
    {
        FrameCounter {
            mode: Mode::FourStep,
            cycle: 0,
            irq_inhibit: false,
            irq_pending: false,
            pending_reset: None,
        }
    }

    /// Return to the power-on state.
    pub fn reset(&mut self)
        ensures
            final(self).mode == Mode::FourStep,
            final(self).cycle == 0,
            !final(self).irq_inhibit,
            !final(self).irq_pending,
            final(self).pending_reset is None,
            final(self).wf(),
    {
        *self = Self::new();
    }

    /// Whether a frame IRQ is currently asserted.
    pub fn irq_pending(&self) -> (b: bool)
        ensures
            b == self.irq_pending,
    {
        self.irq_pending
    }

    /// Read and clear the IRQ flag, as reading `$4015` does.
    pub fn take_irq(&mut self) -> (pending: bool)
        ensures
            pending == old(self).irq_pending,
            *final(self) == (FrameCounter { irq_pending: false, ..*old(self) }),
    {
        let pending = self.irq_pending;
        self.irq_pending = false;
        pending
    }

    /// Handle a write to `$4017`: select the mode and IRQ inhibit, schedule the restart three
    /// cycles away, and return the clocks to apply at once (both, when entering 5-step mode).
    pub fn write(&mut self, value: u8) -> (c: FrameClock)
        requires
            old(self).wf(),
        ensures
            final(self).mode == (if value & 0x80 != 0 { Mode::FiveStep } else { Mode::FourStep }),
            final(self).irq_inhibit == (value & 0x40 != 0),
            final(self).irq_pending == (old(self).irq_pending && value & 0x40 == 0),
            final(self).pending_reset == Some(3u8),
            final(self).cycle == old(self).cycle,
            c == (if value & 0x80 != 0 { clock_both() } else { clock_none() }),
            final(self).wf(),
    {
        self.mode = if value & 0x80 != 0 {
            Mode::FiveStep
        } else {
            Mode::FourStep
        };
        self.irq_inhibit = value & 0x40 != 0;
        if self.irq_inhibit {
            self.irq_pending = false;
        }
        self.pending_reset = Some(3);
        match self.mode {
            Mode::FiveStep => FrameClock::both(),
            Mode::FourStep => FrameClock::none(),
        }
    }

    /// Advance one CPU cycle and report what should be clocked.
    pub fn tick(&mut self) -> (c: FrameClock)
        requires
            old(self).wf(),
            old(self).cycle < u64::MAX,
        ensures
            c == step_clock(old(self).mode, advanced_cycle(*old(self))),
            final(self).cycle == (if advanced_cycle(*old(self)) == sequence_length(old(self).mode) {
                0
            } else {
                advanced_cycle(*old(self))
            }),
            final(self).pending_reset == (match old(self).pending_reset {
                Some(d) => if d == 0 { None } else { Some((d - 1) as u8) },
                None => None,
            }),
            final(self).irq_pending == (old(self).irq_pending || (advanced_cycle(*old(self))
                == sequence_length(old(self).mode) && old(self).mode == Mode::FourStep
                && !old(self).irq_inhibit)),
            final(self).mode == old(self).mode,
            final(self).irq_inhibit == old(self).irq_inhibit,
            final(self).wf(),
            frame_ticked(*old(self), *final(self)),
    {
        if let Some(delay) = self.pending_reset {
            if delay == 0 {
                self.pending_reset = None;
                self.cycle = 0;
            } else {
                self.pending_reset = Some(delay - 1);
            }
        }
        self.cycle += 1;
        let last = last_cycle(self.mode);
        let clock = sequence_step(self.mode, self.cycle);
        if self.cycle == last {
            if self.mode == Mode::FourStep && !self.irq_inhibit {
                self.irq_pending = true;
            }
            self.cycle = 0;
        }
        clock
    }
}

/// Every clock the sequencer hands out obeys the hardware rule that a half frame comes with a
/// quarter frame, whether from a tick or from a write.
pub proof fn lemma_half_frame_implies_quarter_frame(mode: Mode, cycle: u64)
    ensures
        step_clock(mode, cycle).half_frame ==> step_clock(mode, cycle).quarter_frame,
        clock_both().half_frame ==> clock_both().quarter_frame,
{
}

/// The 5-step sequence never raises an IRQ, and neither does an inhibited one: a tick in either
/// situation leaves the IRQ flag as it found it.
pub proof fn lemma_no_irq_in_five_step_or_inhibited(f: FrameCounter)
    requires
        f.wf(),
        f.mode == Mode::FiveStep || f.irq_inhibit,
    ensures
        (f.irq_pending || (advanced_cycle(f) == sequence_length(f.mode) && f.mode == Mode::FourStep
            && !f.irq_inhibit)) == f.irq_pending,
{
}

/// What a tick does to the mode, the inhibit flag and the frame interrupt: the first two stay,
/// and the interrupt is raised only at the end of an uninhibited four-step sequence.
pub open spec fn frame_ticked(before: FrameCounter, after: FrameCounter) -> bool {
    &&& after.mode == before.mode
    &&& after.irq_inhibit == before.irq_inhibit
    &&& after.irq_pending == (before.irq_pending || (advanced_cycle(before) == sequence_length(before.mode)
        && before.mode == Mode::FourStep && !before.irq_inhibit))
}

/// Whether each state of a run follows from the one before by a tick.
pub open spec fn tick_run(states: Seq<FrameCounter>) -> bool {
    forall|k: int| 0 <= k < states.len() - 1 ==> frame_ticked(#[trigger] states[k], states[k + 1])
}

/// In 5-step mode, or with the IRQ inhibited, no number of ticks raises the frame interrupt:
/// a run of ticks that starts with none pending has none pending at every state.
pub proof fn lemma_no_irq_over_any_run(states: Seq<FrameCounter>)
    requires
        tick_run(states),
        states.len() > 0,
        states[0].mode == Mode::FiveStep || states[0].irq_inhibit,
        !states[0].irq_pending,
    ensures
        forall|k: int| 0 <= k < states.len() ==> !(#[trigger] states[k]).irq_pending,
        forall|k: int| 0 <= k < states.len() ==> #[trigger] states[k].mode == states[0].mode && states[k].irq_inhibit
            == states[0].irq_inhibit,
    decreases states.len(),
{
    if states.len() >= 2 {
        let rest = states.drop_first();
        assert(frame_ticked(states[0], states[1]));
        assert forall|k: int| 0 <= k < rest.len() - 1 implies frame_ticked(#[trigger] rest[k], rest[k + 1]) by {
            assert(frame_ticked(states[k + 1], states[k + 2]));
        }
        lemma_no_irq_over_any_run(rest);
        assert forall|k: int| 0 <= k < states.len() implies !(#[trigger] states[k]).irq_pending by {
            if k > 0 {
                assert(states[k] == rest[k - 1]);
            }
        }
        assert forall|k: int| 0 <= k < states.len() implies #[trigger] states[k].mode == states[0].mode
            && states[k].irq_inhibit == states[0].irq_inhibit by {
            if k > 0 {
                assert(states[k] == rest[k - 1]);
            }
        }
    }
}

} // verus!
