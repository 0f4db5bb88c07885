use vstd::prelude::*;

verus! {

/// The sweep unit of a pulse channel: periodically moves the channel's period up or down.
#[derive(Debug, Clone, Copy)]
pub struct Sweep {
    pub enabled: bool,
    pub period: u8,
    pub negate: bool,
    pub shift: u8,
    pub divider: u8,
    pub reload_flag: bool,
    /// Pulse 1 negates in ones' complement, pulse 2 in two's complement.
    pub is_pulse1: bool,
}

/// The period a sweep would move `current` to, in 16-bit arithmetic as the hardware adder does.
pub open spec fn target_period(s: Sweep, current: u16) -> u16 {
    let change = current >> s.shift;
    if s.negate {
        if s.is_pulse1 {
            ((current - change - 1) % 0x10000) as u16
        } else {
            ((current - change) % 0x10000) as u16
        }
    } else {
        ((current + change) % 0x10000) as u16
    }
}

/// Whether a channel with period `current` and sweep target `target` is silenced.
pub open spec fn mutes(s: Sweep, current: u16, target: u16) -> bool {
    current < 8 || (!s.negate && target > 0x7FF)
}

/// What a half-frame clock hands back: a new period, when the divider fires on an enabled,
/// shifting, unmuted sweep.
pub open spec fn sweep_result(s: Sweep, current: u16) -> Option<u16> {
    if s.divider == 0 && s.enabled && s.shift > 0 && !mutes(s, current, target_period(s, current)) {
        Some(target_period(s, current))
    } else {
        None
    }
}

impl Sweep {
    /// Every field fits the bits it was decoded from.
    pub open spec fn wf(&self) -> bool {
        self.period <= 7 && self.shift <= 7 && self.divider <= 7
    }

    /// Whether the invariant holds.
    pub fn is_sound(&self) -> (b: bool)
        ensures
            b == self.wf(),
    {
        self.period <= 7 && self.shift <= 7 && self.divider <= 7
    }

    /// A fresh sweep unit for pulse 1 or pulse 2.
    pub fn new(is_pulse1: bool) -> (s: Self)
        ensures
            s == (Sweep { enabled: false, period: 0, negate: false, shift: 0, divider: 0, reload_flag: false, is_pulse1 }),
            s.wf(),
    {
        Sweep {
            enabled: false,
            period: 0,
            negate: false,
            shift: 0,
            divider: 0,
            reload_flag: false,
            is_pulse1,
        }
    }

    /// Clear the register state, keeping which channel this sweep belongs to.
    pub fn reset(&mut self)
        ensures
            *final(self) == (Sweep { enabled: false, period: 0, negate: false, shift: 0, divider: 0, reload_flag: false, is_pulse1: old(self).is_pulse1 }),
            final(self).wf(),
    {
        self.enabled = false;
        self.period = 0;
        self.negate = false;
        self.shift = 0;
        self.divider = 0;
        self.reload_flag = false;
    }

    /// Decode the sweep register: enable (bit 7), period (bits 4-6), negate (bit 3),
    /// shift (bits 0-2). Always sets the reload flag.
    pub fn update_from_register(&mut self, value: u8)
        ensures
            final(self).enabled == (value & 0x80 != 0),
            final(self).period == (value >> 4) & 0x07,
            final(self).negate == (value & 0x08 != 0),
            final(self).shift == value & 0x07,
            final(self).reload_flag,
            final(self).divider == old(self).divider,
            final(self).is_pulse1 == old(self).is_pulse1,
            old(self).wf() ==> final(self).wf(),
    {
        self.enabled = (value & 0x80) != 0;
        self.period = (value >> 4) & 0x07;
        self.negate = (value & 0x08) != 0;
        self.shift = value & 0x07;
        self.reload_flag = true;
        assert((value >> 4) & 0x07 <= 7 && value & 0x07 <= 7) by (bit_vector);
    }

    /// Process a half-frame clock. Returns the new period when the sweep changes it.
    pub fn tick(&mut self, current_period: u16) -> (r: Option<u16>)
        requires
            old(self).wf(),
        ensures
            r == sweep_result(*old(self), current_period),
            final(self).divider == (if old(self).divider == 0 || old(self).reload_flag {
                old(self).period
            } else {
                (old(self).divider - 1) as u8
            }),
            !final(self).reload_flag,
            final(self).enabled == old(self).enabled,
            final(self).period == old(self).period,
            final(self).negate == old(self).negate,
            final(self).shift == old(self).shift,
            final(self).is_pulse1 == old(self).is_pulse1,
            final(self).wf(),
    {
        let mut new_period = None;
        if self.divider == 0 && self.enabled && self.shift > 0 {
            let target = self.calculate_target_period(current_period);
            if !self.should_mute(current_period, target) {
                new_period = Some(target);
            }
        }
        if self.divider == 0 || self.reload_flag {
            self.divider = self.period;
            self.reload_flag = false;
        } else {
            self.divider -= 1;
        }
        new_period
    }

    /// The period the sweep aims for from `current_period`.
    pub fn calculate_target_period(&self, current_period: u16) -> (t: u16)
        requires
            self.wf(),
        ensures
            t == target_period(*self, current_period),
    {
        let change_amount = current_period >> self.shift;
        if self.negate {
            if self.is_pulse1 {
                current_period.wrapping_sub(change_amount).wrapping_sub(1)
            } else {
                current_period.wrapping_sub(change_amount)
            }
        } else {
            current_period.wrapping_add(change_amount)
        }
    }

    /// Whether the sweep silences the channel: a period under 8, or, when adding, a target past
    /// 11 bits. A subtracting sweep is not muted by its target, even where pulse 1's extra one
    /// takes it below zero and the result wraps: such a channel keeps running.
    pub fn should_mute(&self, current_period: u16, target_period: u16) -> (m: bool)
        ensures
            m == mutes(*self, current_period, target_period),
    {
        if current_period < 8 {
            return true;
        }
        if !self.negate && target_period > 0x7FF {
            return true;
        }
        false
    }

    /// The divider period, bits 4-6 of the sweep register.
    pub fn get_period(&self) -> (p: u8)
        ensures
            p == self.period,
    {
        self.period
    }

    /// Whether the sweep subtracts.
    pub fn get_negate(&self) -> (n: bool)
        ensures
            n == self.negate,
    {
        self.negate
    }

    /// The shift count, bits 0-2 of the sweep register.
    pub fn get_shift(&self) -> (s: u8)
        ensures
            s == self.shift,
    {
        self.shift
    }
}

/// A period the sweep hands back always fits the channel's 11-bit timer, and, for a period the
/// timer can hold, an adding sweep never lowers it.
pub proof fn lemma_sweep_result_fits_timer(s: Sweep, current: u16)
    requires
        s.wf(),
        current <= 0x7FF,
    ensures
        sweep_result(s, current) matches Some(p) ==> p <= 0x7FF,
        sweep_result(s, current) matches Some(p) ==> (!s.negate ==> p >= current),
{
    let sh = s.shift;
    assert((current >> sh) <= current && (sh >= 1 ==> (current >> sh) <= current / 2)) by (bit_vector);
}

} // verus!
