use vstd::prelude::*;

verus! {

/// The envelope generator shared by the pulse and noise channels.
///
/// On a start it jumps to full volume, then decays by one step every `period + 1` quarter
/// frames, optionally looping back to 15 once it reaches zero.
#[derive(Debug, Clone, Copy)]
pub struct Envelope {
    pub start: bool,
    pub divider: u8,
    pub counter: u8,
    pub loop_flag: bool,
    pub constant_volume: bool,
    pub period: u8,
    pub volume: u8,
}

/// The envelope with every field cleared.
pub open spec fn cleared_envelope() -> Envelope {
    Envelope {
        start: false,
        divider: 0,
        counter: 0,
        loop_flag: false,
        constant_volume: false,
        period: 0,
        volume: 0,
    }
}

/// What one quarter-frame clock does to an envelope.
pub open spec fn envelope_after_tick(e: Envelope) -> Envelope {
    if e.start {
        Envelope { start: false, counter: 15, divider: e.period, volume: 15, ..e }
    } else if e.divider == 0 {
        let counter: u8 = if e.counter > 0 {
            (e.counter - 1) as u8
        } else if e.loop_flag {
            15
        } else {
            0
        };
        Envelope { divider: e.period, counter: counter, volume: counter, ..e }
    } else {
        Envelope { divider: (e.divider - 1) as u8, ..e }
    }
}

impl Envelope {
    /// Every level the envelope holds fits its 4-bit field.
    pub open spec fn wf(&self) -> bool {
        &&& self.divider <= 15
        &&& self.counter <= 15
        &&& self.period <= 15
        &&& self.volume <= 15
    }

    /// Whether the invariant holds.
    pub fn is_sound(&self) -> (b: bool)
        ensures
            b == self.wf(),
    {
        self.divider <= 15 && self.counter <= 15 && self.period <= 15 && self.volume <= 15
    }

    /// The level the envelope presents: the period in constant-volume mode, else the decay level.
    pub open spec fn spec_volume(&self) -> u8 {
        if self.constant_volume {
            self.period
        } else {
            self.volume
        }
    }

    /// A fresh envelope generator, all fields cleared.
    pub fn new() -> (e: Self)
        ensures
            e == cleared_envelope(),
            e.wf(),
    {
        Envelope {
            start: false,
            divider: 0,
            counter: 0,
            loop_flag: false,
            constant_volume: false,
            period: 0,
            volume: 0,
        }
    }

    /// Clear every field, as at power-on.
    pub fn reset(&mut self)
        ensures
            *final(self) == cleared_envelope(),
            final(self).wf(),
    {
        self.start = false;
        self.divider = 0;
        self.counter = 0;
        self.loop_flag = false;
        self.constant_volume = false;
        self.period = 0;
        self.volume = 0;
    }

    /// Process a quarter-frame clock.
    pub fn tick(&mut self)
        requires
            old(self).wf(),
        ensures
            *final(self) == envelope_after_tick(*old(self)),
            final(self).wf(),
    {
        if self.start {
            self.start = false;
            self.counter = 15;
            self.divider = self.period;
            self.volume = 15;
        } else {
            if self.divider == 0 {
                self.divider = self.period;
                if self.counter > 0 {
                    self.counter -= 1;
                } else if self.loop_flag {
                    self.counter = 15;
                }
                self.volume = self.counter;
            } else {
                self.divider -= 1;
            }
        }
    }

    /// Take the loop flag (bit 5), the constant-volume flag (bit 4) and the period (bits 0-3)
    /// from a channel's control register.
    pub fn update_from_register(&mut self, value: u8)
        ensures
            final(self).loop_flag == (value & 0x20 != 0),
            final(self).constant_volume == (value & 0x10 != 0),
            final(self).period == value & 0x0F,
            final(self).start == old(self).start,
            final(self).divider == old(self).divider,
            final(self).counter == old(self).counter,
            final(self).volume == old(self).volume,
            old(self).wf() ==> final(self).wf(),
    {
        self.loop_flag = (value & 0x20) != 0;
        self.constant_volume = (value & 0x10) != 0;
        self.period = value & 0x0F;
        assert(value & 0x0F <= 15) by (bit_vector);
    }

    /// Ask for the envelope to restart on the next quarter frame.
    pub fn restart(&mut self)
        ensures
            *final(self) == (Envelope { start: true, ..*old(self) }),
    {
        self.start = true;
    }

    /// The current output volume: the period in constant-volume mode, otherwise the decay level.
    pub fn get_volume(&self) -> (v: u8)
        ensures
            v == self.spec_volume(),
            self.wf() ==> v <= 15,
    {
        if self.constant_volume {
            self.period
        } else {
            self.volume
        }
    }

    /// Whether the envelope is in constant-volume mode.
    pub fn is_constant_volume(&self) -> (b: bool)
        ensures
            b == self.constant_volume,
    {
        self.constant_volume
    }

    /// The decay level, whatever the mode.
    pub fn get_envelope_volume(&self) -> (v: u8)
        ensures
            v == self.volume,
    {
        self.volume
    }
}

/// Once the decay has run out without looping, further clocks leave it silent: a started
/// envelope reaches 15 and, absent the loop flag, each clock only lowers or holds the level.
pub proof fn lemma_envelope_decay_never_rises(e: Envelope)
    requires
        e.wf(),
        !e.start,
        !e.loop_flag,
    ensures
        envelope_after_tick(e).counter <= e.counter,
        envelope_after_tick(e).wf(),
{
}

} // verus!
