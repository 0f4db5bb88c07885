use vstd::prelude::*;

use crate::errors::NesError;
use crate::memory::Addressable;

verus! {

/// The strobe line both controllers share: while it is high they keep reloading their shift
/// registers from the pads.
#[derive(Debug, Clone)]
pub struct StrobeLatch {
    pub value: bool,
}

impl StrobeLatch {
    /// A latch that is off.
    pub fn new() -> (l: Self)
        ensures
            !l.value,
    {
        StrobeLatch { value: false }
    }

    /// Set the strobe.
    pub fn set(&mut self, value: bool)
        ensures
            final(self).value == value,
    {
        self.value = value;
    }

    /// The strobe's level.
    pub fn get(&self) -> (b: bool)
        ensures
            b == self.value,
    {
        self.value
    }

    /// Take the strobe from bit 0 of a write; returns whether it changed.
    pub fn update_from_write(&mut self, value: u8) -> (changed: bool)
        ensures
            final(self).value == (value & 0x01 == 0x01),
            changed == (final(self).value != old(self).value),
    {
        let new_strobe = (value & 0x01) == 0x01;
        let old_strobe = self.value;
        if new_strobe != old_strobe {
            self.value = new_strobe;
            true
        } else {
            false
        }
    }
}

/// The eight buttons of a pad.
#[derive(Debug, Clone, Copy, PartialEq, Eq, Structural)]
pub enum ControllerButton {
    A,
    B,
    Select,
    Start,
    Up,
    Down,
    Left,
    Right,
}

/// A button's bit in the pad's state byte, in the order the shift register reports them.
pub open spec fn button_mask(button: ControllerButton) -> u8 {
    match button {
        ControllerButton::A => 0x01,
        ControllerButton::B => 0x02,
        ControllerButton::Select => 0x04,
        ControllerButton::Start => 0x08,
        ControllerButton::Up => 0x10,
        ControllerButton::Down => 0x20,
        ControllerButton::Left => 0x40,
        ControllerButton::Right => 0x80,
    }
}

impl ControllerButton {
    /// The button's bit in the state byte.
    pub fn mask(&self) -> (m: u8)
        ensures
            m == button_mask(*self),
    {
        match self {
            ControllerButton::A => 0x01,
            ControllerButton::B => 0x02,
            ControllerButton::Select => 0x04,
            ControllerButton::Start => 0x08,
            ControllerButton::Up => 0x10,
            ControllerButton::Down => 0x20,
            ControllerButton::Left => 0x40,
            ControllerButton::Right => 0x80,
        }
    }
}

/// Which buttons are held: bit 0 A, then B, Select, Start, Up, Down, Left, Right.
#[derive(Debug, Clone, Copy, PartialEq, Eq, Structural)]
pub struct ControllerState {
    pub button_state: u8,
}

impl ControllerState {
    /// No button held.
    pub fn new() -> (s: Self)
        ensures
            s.button_state == 0,
    {
        ControllerState { button_state: 0 }
    }

    /// Press or release a button.
    pub fn set_button(&mut self, button: ControllerButton, pressed: bool)
        ensures
            final(self).button_state == if pressed {
                old(self).button_state | button_mask(button)
            } else {
                old(self).button_state & !button_mask(button)
            },
    {
        let mask = button.mask();
        if pressed {
            self.button_state = self.button_state | mask;
        } else {
            self.button_state = self.button_state & !mask;
        }
    }

    /// Whether a button is held.
    pub fn is_button_pressed(&self, button: ControllerButton) -> (b: bool)
        ensures
            b == (self.button_state & button_mask(button) != 0),
    {
        (self.button_state & button.mask()) != 0
    }

    /// The state byte.
    pub fn raw_state(&self) -> (b: u8)
        ensures
            b == self.button_state,
    {
        self.button_state
    }
}

/// Which socket a pad is plugged into.
#[derive(Debug, Clone, Copy, PartialEq, Eq, Structural)]
pub enum ControllerPort {
    One,
    Two,
}

/// The shift register after one read with the strobe low: shifted right, a one coming in at
/// the top, which is what reads past the eighth button return.
pub open spec fn shifted_once(register: u8) -> u8 {
    (register >> 1u8) | 0x80
}

/// The shift register after `n` reads with the strobe low.
pub open spec fn shifted(register: u8, n: nat) -> u8
    decreases n,
{
    if n == 0 { register } else { shifted_once(shifted(register, (n - 1) as nat)) }
}

/// One pad.
#[derive(Debug)]
pub struct Controller {
    pub port: ControllerPort,
    pub controller_state: ControllerState,
    /// Reports the latched buttons one bit at a time.
    pub shift_register: u8,
}

impl Controller {
    /// A pad with nothing held and nothing latched.
    pub fn new(port: ControllerPort) -> (c: Self)
        ensures
            c.port == port,
            c.controller_state.button_state == 0,
            c.shift_register == 0,
    {
        Controller { port, controller_state: ControllerState::new(), shift_register: 0 }
    }

    /// Replace which buttons are held; what is latched stays.
    pub fn set_state(&mut self, state: ControllerState)
        ensures
            final(self).controller_state == state,
            final(self).shift_register == old(self).shift_register,
            final(self).port == old(self).port,
    {
        self.controller_state = state;
    }

    /// Latch the held buttons into the shift register.
    pub fn latch_state(&mut self)
        ensures
            final(self).shift_register == old(self).controller_state.button_state,
            final(self).controller_state == old(self).controller_state,
            final(self).port == old(self).port,
    {
        self.shift_register = self.controller_state.raw_state();
    }

    /// Read the next button: bit 0 of the shift register. With the strobe low the register
    /// then shifts; with it high it reloads from the pad, so every read reports A.
    pub fn read_button(&mut self, strobe_active: bool) -> (b: u8)
        ensures
            b == old(self).shift_register & 0x01,
            final(self).shift_register == if strobe_active {
                old(self).controller_state.button_state
            } else {
                shifted_once(old(self).shift_register)
            },
            final(self).controller_state == old(self).controller_state,
            final(self).port == old(self).port,
    {
        let result = self.shift_register & 0x01;
        if !strobe_active {
            let current = self.shift_register;
            self.shift_register = (current >> 1) | 0x80;
        } else {
            self.shift_register = self.controller_state.raw_state();
        }
        result
    }

    /// The socket the pad is in.
    pub fn port(&self) -> (p: ControllerPort)
        ensures
            p == self.port,
    {
        self.port
    }
}

/// Reading a latched pad with the strobe low reports its buttons in order, A first, one per
/// read; from the ninth read on every read reports 1.
pub proof fn lemma_reads_report_buttons_in_order(state: u8, n: nat)
    ensures
        shifted(state, n) & 1 == if n < 8 { (state >> (n as u8)) & 1 } else { 1 },
    decreases n,
{
    reveal_with_fuel(shifted, 9);
    let r1 = shifted_once(state);
    let r2 = shifted_once(r1);
    let r3 = shifted_once(r2);
    let r4 = shifted_once(r3);
    let r5 = shifted_once(r4);
    let r6 = shifted_once(r5);
    let r7 = shifted_once(r6);
    let r8 = shifted_once(r7);
    assert(
        r1 & 1 == (state >> 1u8) & 1 && r2 & 1 == (state >> 2u8) & 1 && r3 & 1 == (state >> 3u8) & 1
        && r4 & 1 == (state >> 4u8) & 1 && r5 & 1 == (state >> 5u8) & 1 && r6 & 1 == (state >> 6u8) & 1
        && r7 & 1 == (state >> 7u8) & 1 && r8 == 0xFF && state & 1 == (state >> 0u8) & 1
        && ((0xFFu8 >> 1u8) | 0x80) == 0xFF && 0xFFu8 & 1 == 1
    ) by (bit_vector)
        requires
            r1 == (state >> 1u8) | 0x80,
            r2 == (r1 >> 1u8) | 0x80,
            r3 == (r2 >> 1u8) | 0x80,
            r4 == (r3 >> 1u8) | 0x80,
            r5 == (r4 >> 1u8) | 0x80,
            r6 == (r5 >> 1u8) | 0x80,
            r7 == (r6 >> 1u8) | 0x80,
            r8 == (r7 >> 1u8) | 0x80,
    ;
    assert(shifted(state, 1) == r1 && shifted(state, 2) == r2 && shifted(state, 3) == r3 && shifted(state, 4) == r4);
    assert(shifted(state, 5) == r5 && shifted(state, 6) == r6 && shifted(state, 7) == r7 && shifted(state, 8) == r8);
    if n >= 8 {
        lemma_shifted_saturates(state, n);
    }
}

/// After eight reads the register holds all ones, and stays so.
proof fn lemma_shifted_saturates(state: u8, n: nat)
    requires
        n >= 8,
        shifted(state, 8) == 0xFF,
        ((0xFFu8 >> 1u8) | 0x80) == 0xFF,
    ensures
        shifted(state, n) == 0xFF,
    decreases n,
{
    if n > 8 {
        lemma_shifted_saturates(state, (n - 1) as nat);
    }
}

/// The handler for both pads at `$4016` and `$4017`.
#[derive(Debug)]
pub struct ControllerHandler {
    pub controller1: Controller,
    pub controller2: Controller,
    pub strobe: StrobeLatch,
}

impl ControllerHandler {
    /// Two pads with nothing held, the strobe low.
    pub fn new() -> (h: Self)
        ensures
            h.controller1.port == ControllerPort::One,
            h.controller2.port == ControllerPort::Two,
            h.controller1.controller_state.button_state == 0 && h.controller1.shift_register == 0,
            h.controller2.controller_state.button_state == 0 && h.controller2.shift_register == 0,
            !h.strobe.value,
    {
        ControllerHandler {
            controller1: Controller::new(ControllerPort::One),
            controller2: Controller::new(ControllerPort::Two),
            strobe: StrobeLatch::new(),
        }
    }

    /// Set the buttons of pad 1; with the strobe high they are latched at once.
    pub fn set_controller1_state(&mut self, state: ControllerState)
        ensures
            final(self).controller1.controller_state == state,
            final(self).controller1.shift_register == if old(self).strobe.value {
                state.button_state
            } else {
                old(self).controller1.shift_register
            },
            final(self).controller1.port == old(self).controller1.port,
            final(self).controller2 == old(self).controller2,
            final(self).strobe.value == old(self).strobe.value,
    {
        self.controller1.set_state(state);
        if self.strobe.get() {
            self.controller1.latch_state();
        }
    }

    /// Set the buttons of pad 2; with the strobe high they are latched at once.
    pub fn set_controller2_state(&mut self, state: ControllerState)
        ensures
            final(self).controller2.controller_state == state,
            final(self).controller2.shift_register == if old(self).strobe.value {
                state.button_state
            } else {
                old(self).controller2.shift_register
            },
            final(self).controller2.port == old(self).controller2.port,
            final(self).controller1 == old(self).controller1,
            final(self).strobe.value == old(self).strobe.value,
    {
        self.controller2.set_state(state);
        if self.strobe.get() {
            self.controller2.latch_state();
        }
    }

    /// A write to `$4016`: bit 0 drives the strobe, and a change of level latches both pads.
    fn process_strobe_write(&mut self, value: u8)
        ensures
            final(self).strobe.value == (value & 0x01 == 0x01),
            final(self).controller1.controller_state == old(self).controller1.controller_state,
            final(self).controller2.controller_state == old(self).controller2.controller_state,
            final(self).controller1.port == old(self).controller1.port,
            final(self).controller2.port == old(self).controller2.port,
            final(self).controller1.shift_register == if final(self).strobe.value != old(self).strobe.value {
                old(self).controller1.controller_state.button_state
            } else {
                old(self).controller1.shift_register
            },
            final(self).controller2.shift_register == if final(self).strobe.value != old(self).strobe.value {
                old(self).controller2.controller_state.button_state
            } else {
                old(self).controller2.shift_register
            },
    {
        let strobe_changed = self.strobe.update_from_write(value);
        if strobe_changed {
            self.controller1.latch_state();
            self.controller2.latch_state();
        }
    }
}

impl Addressable for ControllerHandler {
    open spec fn spec_handles(&self, address: u16) -> bool {
        address == 0x4016 || address == 0x4017
    }

    open spec fn spec_read(&self, address: u16) -> Result<u8, NesError> {
        if address == 0x4016 {
            Ok(self.controller1.shift_register & 0x01)
        } else if address == 0x4017 {
            Ok(self.controller2.shift_register & 0x01)
        } else {
            Err(NesError::MemoryAccessError(address))
        }
    }

    /// Reading shifts a pad's register: these are ports, not storage.
    open spec fn is_storage(&self) -> bool {
        false
    }

    fn handles_address(&self, address: u16) -> (b: bool) {
        address == 0x4016 || address == 0x4017
    }

    fn peek_byte(&self, address: u16) -> (r: Result<u8, NesError>) {
        if address == 0x4016 {
            Ok(self.controller1.shift_register & 0x01)
        } else if address == 0x4017 {
            Ok(self.controller2.shift_register & 0x01)
        } else {
            Err(NesError::MemoryAccessError(address))
        }
    }

    /// Read the next button of a pad, which shifts its register (or, with the strobe high,
    /// reloads it).
    fn read_byte(&mut self, address: u16) -> (r: Result<u8, NesError>)
        ensures
            address == 0x4016 ==> final(self).controller1.shift_register == if old(self).strobe.value {
                old(self).controller1.controller_state.button_state
            } else {
                shifted_once(old(self).controller1.shift_register)
            } && final(self).controller2 == old(self).controller2,
            address == 0x4017 ==> final(self).controller2.shift_register == if old(self).strobe.value {
                old(self).controller2.controller_state.button_state
            } else {
                shifted_once(old(self).controller2.shift_register)
            } && final(self).controller1 == old(self).controller1,
            address != 0x4016 && address != 0x4017 ==> final(self).controller1 == old(self).controller1
                && final(self).controller2 == old(self).controller2,
            final(self).controller1.controller_state == old(self).controller1.controller_state,
            final(self).controller2.controller_state == old(self).controller2.controller_state,
            final(self).strobe.value == old(self).strobe.value,
    {
        let strobe = self.strobe.get();
        if address == 0x4016 {
            Ok(self.controller1.read_button(strobe))
        } else if address == 0x4017 {
            Ok(self.controller2.read_button(strobe))
        } else {
            Err(NesError::MemoryAccessError(address))
        }
    }

    /// A write to `$4016` drives the strobe; `$4017` belongs to the APU's frame counter and is
    /// ignored here.
    fn write_byte(&mut self, address: u16, value: u8) -> (r: Result<(), NesError>)
        ensures
            r is Ok <==> (address == 0x4016 || address == 0x4017),
            r is Err ==> r == Err::<(), NesError>(NesError::MemoryAccessError(address)),
            address == 0x4016 ==> final(self).strobe.value == (value & 0x01 == 0x01),
            address != 0x4016 ==> final(self).strobe.value == old(self).strobe.value
                && final(self).controller1 == old(self).controller1 && final(self).controller2 == old(self).controller2,
            final(self).controller1.controller_state == old(self).controller1.controller_state,
            final(self).controller2.controller_state == old(self).controller2.controller_state,
    {
        if address == 0x4016 {
            self.process_strobe_write(value);
            Ok(())
        } else if address == 0x4017 {
            Ok(())
        } else {
            Err(NesError::MemoryAccessError(address))
        }
    }

    /// Nothing: a bus reset leaves the registers to the component's own reset.
    fn reset(&mut self)
        ensures
            *final(self) == *old(self),
    {
    }
}

} // verus!
