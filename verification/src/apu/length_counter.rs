use vstd::prelude::*;

verus! {

/// The length counter that limits how long a channel sounds.
///
/// Loaded from a table through the channel's fourth register and decremented on half frames,
/// it silences its channel when it reaches zero.
#[derive(Debug, Clone, Copy)]
pub struct LengthCounter {
    /// The counter itself (0 = silent).
    pub counter: u8,
    /// Whether counting is halted.
    pub halt: bool,
    /// Whether the channel is enabled through `$4015`.
    pub enabled: bool,
    /// Whether the clock that would decrement this counter comes on the next cycle.
    ///
    /// A reload landing on that cycle is ignored unless the counter is already zero, and a
    /// halt change written then applies only after the clock.
    pub clock_imminent: bool,
    /// A halt flag written while the clock was imminent, applied once it has happened.
    pub pending_halt: Option<bool>,
    /// Set when a reload was accepted on the imminent clock; that clock must not decrement it.
    pub reloaded_on_the_clock: bool,
}

/// The length load values, indexed by bits 3-7 of the register written.
pub const LENGTH_TABLE: [u8; 32] = [
    10, 254, 20, 2, 40, 4, 80, 6, 160, 8, 60, 10, 14, 12, 26, 14, 12, 16, 24, 18, 48, 20, 96, 22,
    192, 24, 72, 26, 16, 28, 32, 30,
];

/// The length load table as a sequence.
pub open spec fn length_table() -> Seq<u8> {
    seq![
        10u8, 254, 20, 2, 40, 4, 80, 6, 160, 8, 60, 10, 14, 12, 26, 14, 12, 16, 24, 18, 48, 20, 96,
        22, 192, 24, 72, 26, 16, 28, 32, 30,
    ]
}

/// The length a register value selects: its bits 3-7 index the table.
pub open spec fn length_for(value: u8) -> u8 {
    length_table()[((value >> 3) & 0x1F) as int]
}

/// Look a register value's length up in the table.
pub fn length_lookup(value: u8) -> (r: u8)
    ensures
        r == length_for(value),
{
    let table = LENGTH_TABLE;
    proof {
        assert(table@ == length_table());
    }
    let index = (value >> 3) & 0x1F;
    assert(index < 32) by (bit_vector)
        requires
            index == (value >> 3) & 0x1F,
    ;
    table[index as usize]
}

/// The counter after a reload write, given the state before it.
pub open spec fn counter_after_load(c: LengthCounter, value: u8) -> u8 {
    if c.clock_imminent && c.counter > 0 {
        c.counter
    } else if c.enabled {
        length_for(value)
    } else {
        c.counter
    }
}

/// A length counter at power-on: silent, disabled, not halted, nothing pending.
pub open spec fn cleared_length_counter() -> LengthCounter {
    LengthCounter {
        counter: 0,
        halt: false,
        enabled: false,
        clock_imminent: false,
        pending_halt: None,
        reloaded_on_the_clock: false,
    }
}

impl LengthCounter {
    /// A fresh, disabled length counter.
    pub fn new() -> (c: Self)
        ensures
            c.counter == 0,
            !c.halt,
            !c.enabled,
            !c.clock_imminent,
            c.pending_halt is None,
            !c.reloaded_on_the_clock,
            c == cleared_length_counter(),
    {
        LengthCounter {
            counter: 0,
            halt: false,
            enabled: false,
            clock_imminent: false,
            pending_halt: None,
            reloaded_on_the_clock: false,
        }
    }

    /// Clear the counter, the halt flag and the enable, leaving the timing notes alone.
    pub fn reset(&mut self)
        ensures
            *final(self) == (LengthCounter { counter: 0, halt: false, enabled: false, ..*old(self) }),
    {
        self.counter = 0;
        self.halt = false;
        self.enabled = false;
    }

    /// Close a CPU cycle: apply a deferred halt, drop a stale note, and record whether the
    /// clock is due on the next cycle.
    pub fn end_cycle(&mut self, clock_imminent: bool)
        ensures
            final(self).halt == (match old(self).pending_halt {
                Some(h) => h,
                None => old(self).halt,
            }),
            final(self).pending_halt is None,
            final(self).reloaded_on_the_clock == (old(self).clock_imminent
                && old(self).reloaded_on_the_clock),
            final(self).clock_imminent == clock_imminent,
            final(self).counter == old(self).counter,
            final(self).enabled == old(self).enabled,
    {
        if let Some(halt) = self.pending_halt.take() {
            self.halt = halt;
        }
        if !self.clock_imminent {
            self.reloaded_on_the_clock = false;
        }
        self.clock_imminent = clock_imminent;
    }

    /// Load a new length from a channel's fourth register (bits 3-7 index the table).
    ///
    /// Ignored while disabled, and ignored on the very cycle of the clock unless the counter
    /// has already run down to zero.
    pub fn load(&mut self, value: u8)
        ensures
            final(self).counter == counter_after_load(*old(self), value),
            final(self).reloaded_on_the_clock == (old(self).reloaded_on_the_clock
                || (old(self).clock_imminent && old(self).counter == 0)),
            final(self).halt == old(self).halt,
            final(self).enabled == old(self).enabled,
            final(self).clock_imminent == old(self).clock_imminent,
            final(self).pending_halt == old(self).pending_halt,
    {
        if self.clock_imminent {
            if self.counter > 0 {
                return;
            }
            self.reloaded_on_the_clock = true;
        }
        if self.enabled {
            self.counter = length_lookup(value);
        }
    }

    /// Set the halt flag, deferring it past the clock when the clock is imminent.
    pub fn set_halt(&mut self, halt: bool)
        ensures
            old(self).clock_imminent ==> final(self).pending_halt == Some(halt)
                && final(self).halt == old(self).halt,
            !old(self).clock_imminent ==> final(self).halt == halt
                && final(self).pending_halt == old(self).pending_halt,
            final(self).counter == old(self).counter,
            final(self).enabled == old(self).enabled,
            final(self).clock_imminent == old(self).clock_imminent,
            final(self).reloaded_on_the_clock == old(self).reloaded_on_the_clock,
    {
        if self.clock_imminent {
            self.pending_halt = Some(halt);
        } else {
            self.halt = halt;
        }
    }

    /// Enable or disable the channel; disabling clears the counter.
    pub fn set_enabled(&mut self, enabled: bool)
        ensures
            final(self).enabled == enabled,
            final(self).counter == (if enabled { old(self).counter } else { 0 }),
            final(self).halt == old(self).halt,
            final(self).clock_imminent == old(self).clock_imminent,
            final(self).pending_halt == old(self).pending_halt,
            final(self).reloaded_on_the_clock == old(self).reloaded_on_the_clock,
    {
        self.enabled = enabled;
        if !enabled {
            self.counter = 0;
        }
    }

    /// The counter itself.
    pub fn value(&self) -> (v: u8)
        ensures
            v == self.counter,
    {
        self.counter
    }

    /// Process a half-frame clock; returns whether the counter is now zero.
    pub fn tick(&mut self) -> (zero: bool)
        ensures
            final(self).counter == (if old(self).counter > 0 && !old(self).halt
                && !old(self).reloaded_on_the_clock {
                (old(self).counter - 1) as u8
            } else {
                old(self).counter
            }),
            !final(self).reloaded_on_the_clock,
            zero == (final(self).counter == 0),
            final(self).halt == old(self).halt,
            final(self).enabled == old(self).enabled,
            final(self).clock_imminent == old(self).clock_imminent,
            final(self).pending_halt == old(self).pending_halt,
    {
        if self.counter > 0 && !self.halt && !self.reloaded_on_the_clock {
            self.counter -= 1;
        }
        self.reloaded_on_the_clock = false;
        self.counter == 0
    }

    /// Whether the counter is non-zero, which is what lets its channel sound.
    pub fn is_active(&self) -> (b: bool)
        ensures
            b == (self.counter > 0),
    {
        self.counter > 0
    }
}

/// A disabled counter stays silent: no reload can raise it, and a clock leaves it at zero.
pub proof fn lemma_disabled_counter_stays_silent(c: LengthCounter, value: u8)
    requires
        !c.enabled,
        c.counter == 0,
    ensures
        counter_after_load(c, value) == 0,
{
}

} // verus!
