use vstd::prelude::*;

use super::{Addressable, MockMemory, Ram};
use crate::apu::Apu;
use crate::errors::NesError;
use crate::input::ControllerHandler;

verus! {

/// A component that can sit on the bus.
#[derive(Debug)]
pub enum Component {
    Ram(Ram),
    Mock(MockMemory),
    /// The APU's registers.
    Apu(Apu),
    /// The controller ports.
    Controllers(ControllerHandler),
}

impl Addressable for Component {
    open spec fn spec_handles(&self, address: u16) -> bool {
        match self {
            Component::Ram(c) => c.spec_handles(address),
            Component::Mock(c) => c.spec_handles(address),
            Component::Apu(c) => c.spec_handles(address),
            Component::Controllers(c) => c.spec_handles(address),
        }
    }

    open spec fn spec_read(&self, address: u16) -> Result<u8, NesError> {
        match self {
            Component::Ram(c) => c.spec_read(address),
            Component::Mock(c) => c.spec_read(address),
            Component::Apu(c) => c.spec_read(address),
            Component::Controllers(c) => c.spec_read(address),
        }
    }

    open spec fn is_storage(&self) -> bool {
        match self {
            Component::Ram(c) => c.is_storage(),
            Component::Mock(c) => c.is_storage(),
            Component::Apu(c) => c.is_storage(),
            Component::Controllers(c) => c.is_storage(),
        }
    }

    fn handles_address(&self, address: u16) -> (b: bool) {
        match self {
            Component::Ram(c) => c.handles_address(address),
            Component::Mock(c) => c.handles_address(address),
            Component::Apu(c) => c.handles_address(address),
            Component::Controllers(c) => c.handles_address(address),
        }
    }

    fn peek_byte(&self, address: u16) -> (r: Result<u8, NesError>) {
        match self {
            Component::Ram(c) => c.peek_byte(address),
            Component::Mock(c) => c.peek_byte(address),
            Component::Apu(c) => c.peek_byte(address),
            Component::Controllers(c) => c.peek_byte(address),
        }
    }

    /// Reading `$4015` from the APU acknowledges its frame interrupt.
    fn read_byte(&mut self, address: u16) -> (r: Result<u8, NesError>) {
        let r = match self {
            Component::Ram(c) => c.read_byte(address),
            Component::Mock(c) => c.read_byte(address),
            Component::Apu(c) => c.read_byte(address),
            Component::Controllers(c) => c.read_byte(address),
        };
        if let Component::Apu(c) = self {
            if address == crate::apu::APU_STATUS {
                c.acknowledge_frame_irq();
            }
        }
        r
    }

    fn write_byte(&mut self, address: u16, value: u8) -> (r: Result<(), NesError>) {
        match self {
            Component::Ram(c) => c.write_byte(address, value),
            Component::Mock(c) => c.write_byte(address, value),
            Component::Apu(c) => c.write_byte(address, value),
            Component::Controllers(c) => c.write_byte(address, value),
        }
    }

    fn reset(&mut self)
        ensures
            component_reset(*old(self), *final(self)),
    {
        match self {
            Component::Ram(c) => c.reset(),
            Component::Mock(c) => c.reset(),
            Component::Apu(c) => Addressable::reset(c),
            Component::Controllers(c) => Addressable::reset(c),
        }
    }
}

/// What resetting a component does: RAM keeps its range and size and reads zero everywhere;
/// a mock stays as it was.
pub open spec fn component_reset(before: Component, after: Component) -> bool {
    match before {
        Component::Ram(a) => after matches Component::Ram(b) && b.start_address == a.start_address && b.end_address
            == a.end_address && b.data@.len() == a.data@.len() && forall|i: int|
            0 <= i < b.data@.len() ==> b.data@[i] == 0,
        Component::Mock(a) => after == Component::Mock(a),
        Component::Apu(a) => after == Component::Apu(a),
        Component::Controllers(a) => after == Component::Controllers(a),
    }
}

/// Routes memory accesses to the components attached to it.
///
/// Components are consulted in the order they were attached; the first that answers an
/// address handles it.
#[derive(Debug)]
pub struct Bus {
    pub components: Vec<Component>,
}

/// The index of the first component from `i` on that answers `address`, or the length of
/// `comps` when none does.
pub open spec fn handler_from(comps: Seq<Component>, address: u16, i: int) -> int
    decreases comps.len() - i,
{
    if i >= comps.len() {
        comps.len() as int
    } else if comps[i].spec_handles(address) {
        i
    } else {
        handler_from(comps, address, i + 1)
    }
}

/// The first component that answers `address`, or the length of `comps` when none does.
pub open spec fn handler(comps: Seq<Component>, address: u16) -> int {
    handler_from(comps, address, 0)
}

/// `handler_from` lands on an answering component inside the list, or past its end, never
/// before `i`, and no component between `i` and it answers.
pub proof fn lemma_handler_from_bounds(comps: Seq<Component>, address: u16, i: int)
    requires
        0 <= i <= comps.len(),
    ensures
        i <= handler_from(comps, address, i) <= comps.len(),
        handler_from(comps, address, i) < comps.len() ==> comps[handler_from(comps, address, i)].spec_handles(address),
        forall|j: int| i <= j < handler_from(comps, address, i) ==> !#[trigger] comps[j].spec_handles(address),
    decreases comps.len() - i,
{
    if i < comps.len() && !comps[i].spec_handles(address) {
        lemma_handler_from_bounds(comps, address, i + 1);
    }
}

/// Which component handles an address depends only on which addresses the components answer.
pub proof fn lemma_handler_from_same_handles(c1: Seq<Component>, c2: Seq<Component>, address: u16, i: int)
    requires
        c1.len() == c2.len(),
        0 <= i <= c1.len(),
        forall|j: int| 0 <= j < c1.len() ==> #[trigger] c1[j].spec_handles(address) == c2[j].spec_handles(address),
    ensures
        handler_from(c1, address, i) == handler_from(c2, address, i),
    decreases c1.len() - i,
{
    if i < c1.len() {
        lemma_handler_from_same_handles(c1, c2, address, i + 1);
    }
}

impl Bus {
    /// A bus with 8 KB of RAM attached at `$0000-$1FFF`.
    pub fn new() -> (b: Self)
        ensures
            b.components@.len() == 1,
            b.is_storage(),
            forall|a: u16| #[trigger] b.spec_handles(a) <==> a <= 0x1FFF,
            forall|a: u16| a <= 0x1FFF ==> #[trigger] b.spec_read(a) == Ok::<u8, NesError>(0u8),
    {
        let ram = Ram::with_range(0x0000, 0x1FFF);
        let mut bus = Bus { components: Vec::new() };
        bus.attach_component(Component::Ram(ram));
        proof {
            assert forall|a: u16| #[trigger] bus.spec_handles(a) <==> a <= 0x1FFF by {
                lemma_handler_from_bounds(bus.components@, a, 0);
            }
            assert forall|a: u16| a <= 0x1FFF implies #[trigger] bus.spec_read(a) == Ok::<u8, NesError>(0u8) by {
                lemma_handler_from_bounds(bus.components@, a, 0);
                vstd::arithmetic::div_mod::lemma_small_mod(a as nat, 0x2000);
            }
        }
        bus
    }

    /// Attach a component; it is consulted after every component already attached.
    pub fn attach_component(&mut self, component: Component)
        ensures
            final(self).components@ == old(self).components@.push(component),
    {
        self.components.push(component);
    }

    /// Reset every attached component.
    pub fn reset(&mut self)
        ensures
            final(self).components@.len() == old(self).components@.len(),
            forall|i: int|
                0 <= i < old(self).components@.len() ==> component_reset(
                    #[trigger] old(self).components@[i],
                    final(self).components@[i],
                ),
    {
        let n = self.components.len();
        let mut i: usize = 0;
        while i < n
            invariant
                n == self.components@.len(),
                n == old(self).components@.len(),
                i <= n,
                forall|j: int| 0 <= j < i ==> component_reset(#[trigger] old(self).components@[j], self.components@[j]),
                forall|j: int| i <= j < n ==> #[trigger] self.components@[j] == old(self).components@[j],
            decreases n - i,
        {
            let mut c = self.components.remove(i);
            let ghost before = c;
            c.reset();
            self.components.insert(i, c);
            i += 1;
        }
    }

    /// Find the first component that answers `address`.
    fn find_component_for_address(&self, address: u16) -> (i: usize)
        ensures
            i == handler(self.components@, address),
    {
        proof {
            lemma_handler_from_bounds(self.components@, address, 0);
        }
        let n = self.components.len();
        let mut i: usize = 0;
        while i < n
            invariant
                n == self.components@.len(),
                0 <= i <= n,
                handler_from(self.components@, address, i as int) == handler(self.components@, address),
            decreases n - i,
        {
            if self.components[i].handles_address(address) {
                return i;
            }
            i += 1;
        }
        i
    }
}

/// After changing component `i` in a way that keeps the addresses every component answers,
/// the bus answers the same addresses and reads as before wherever component `i` reads as
/// before.
proof fn lemma_bus_after_component_change(old_bus: &Bus, new_bus: &Bus, i: int, b: u16)
    requires
        new_bus.components@.len() == old_bus.components@.len(),
        0 <= i < old_bus.components@.len(),
        forall|j: int| 0 <= j < old_bus.components@.len() && j != i ==> new_bus.components@[j] == old_bus.components@[j],
        forall|c: u16| #[trigger] new_bus.components@[i].spec_handles(c) == old_bus.components@[i].spec_handles(c),
    ensures
        new_bus.spec_handles(b) == old_bus.spec_handles(b),
        handler(new_bus.components@, b) == handler(old_bus.components@, b),
        handler(new_bus.components@, b) != i ==> new_bus.spec_read(b) == old_bus.spec_read(b),
{
    assert forall|j: int| 0 <= j < new_bus.components@.len() implies #[trigger] new_bus.components@[j].spec_handles(b)
        == old_bus.components@[j].spec_handles(b) by {
        if j != i {
            assert(new_bus.components@[j] == old_bus.components@[j]);
        }
    }
    lemma_handler_from_same_handles(new_bus.components@, old_bus.components@, b, 0);
    lemma_handler_from_bounds(new_bus.components@, b, 0);
    let h = handler(new_bus.components@, b);
    if 0 <= h < new_bus.components@.len() && h != i {
        assert(new_bus.components@[h] == old_bus.components@[h]);
    }
}

impl Addressable for Bus {
    open spec fn spec_handles(&self, address: u16) -> bool {
        handler(self.components@, address) < self.components@.len()
    }

    open spec fn spec_read(&self, address: u16) -> Result<u8, NesError> {
        let h = handler(self.components@, address);
        if 0 <= h < self.components@.len() {
            self.components@[h].spec_read(address)
        } else {
            Ok(0)
        }
    }

    open spec fn is_storage(&self) -> bool {
        forall|i: int| 0 <= i < self.components@.len() ==> #[trigger] self.components@[i].is_storage()
    }

    fn handles_address(&self, address: u16) -> (b: bool) {
        proof {
            lemma_handler_from_bounds(self.components@, address, 0);
        }
        self.find_component_for_address(address) < self.components.len()
    }

    fn peek_byte(&self, address: u16) -> (r: Result<u8, NesError>) {
        proof {
            lemma_handler_from_bounds(self.components@, address, 0);
        }
        let i = self.find_component_for_address(address);
        if i < self.components.len() {
            self.components[i].peek_byte(address)
        } else {
            Ok(0)
        }
    }

    fn read_byte(&mut self, address: u16) -> (r: Result<u8, NesError>) {
        proof {
            lemma_handler_from_bounds(self.components@, address, 0);
        }
        let i = self.find_component_for_address(address);
        if i < self.components.len() {
            let r = self.components[i].read_byte(address);
            proof {
                if old(self).is_storage() {
                    assert(old(self).components@[i as int].is_storage());
                    assert(forall|c: u16| #[trigger] self.components@[i as int].spec_handles(c) == old(self).components@[i as int].spec_handles(c));
                    assert forall|b: u16| #[trigger] self.spec_read(b) == old(self).spec_read(b) by {
                        lemma_bus_after_component_change(old(self), self, i as int, b);
                    }
                    assert forall|b: u16| #[trigger] self.spec_handles(b) == old(self).spec_handles(b) by {
                        lemma_bus_after_component_change(old(self), self, i as int, b);
                    }
                    assert forall|j: int| 0 <= j < self.components@.len() implies #[trigger] self.components@[j].is_storage() by {
                        if j != i {
                            assert(self.components@[j] == old(self).components@[j]);
                        }
                    }
                }
            }
            r
        } else {
            Ok(0)
        }
    }

    fn write_byte(&mut self, address: u16, value: u8) -> (r: Result<(), NesError>) {
        proof {
            lemma_handler_from_bounds(self.components@, address, 0);
        }
        let i = self.find_component_for_address(address);
        if i < self.components.len() {
            let r = self.components[i].write_byte(address, value);
            proof {
                if old(self).is_storage() {
                    assert(old(self).components@[i as int].is_storage());
                    assert forall|j: int| 0 <= j < self.components@.len() implies #[trigger] self.components@[j].is_storage() by {
                        if j != i {
                            assert(self.components@[j] == old(self).components@[j]);
                        }
                    }
                    assert forall|b: u16| #[trigger] self.spec_handles(b) == old(self).spec_handles(b) by {
                        lemma_bus_after_component_change(old(self), self, i as int, b);
                    }
                    assert forall|b: u16| (b != address || !old(self).spec_handles(address)) implies #[trigger] self.spec_read(b) == old(self).spec_read(b) by {
                        lemma_bus_after_component_change(old(self), self, i as int, b);
                    }
                    lemma_bus_after_component_change(old(self), self, i as int, address);
                }
            }
            r
        } else {
            Ok(())
        }
    }

    fn reset(&mut self)
        ensures
            final(self).components@.len() == old(self).components@.len(),
            forall|i: int|
                0 <= i < old(self).components@.len() ==> component_reset(
                    #[trigger] old(self).components@[i],
                    final(self).components@[i],
                ),
    {
        Bus::reset(self);
    }
}

} // verus!
