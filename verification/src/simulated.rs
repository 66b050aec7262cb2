//! A machine without hardware, for running the driver on a host.

use crate::memmap;
use crate::platform::{Event, Platform};
use vstd::prelude::*;

verus! {

/// How a store changes the register that its address selects: 0 for a plain store, 1 for
/// inverting, 2 for setting and 3 for clearing the bits that are ones in the word stored.
pub open spec fn alias_of(addr: u32) -> u32 {
    (addr / 0x1000) % 4
}

/// The register that an address selects.
pub open spec fn register_of(addr: u32) -> u32 {
    (addr - 0x1000 * alias_of(addr)) as u32
}

/// What a register that held `word` holds after a store of `value` through the given alias.
pub open spec fn after_store(alias: u32, word: u32, value: u32) -> u32 {
    if alias == 0 {
        value
    } else if alias == 1 {
        word ^ value
    } else if alias == 2 {
        word | value
    } else {
        word & !value
    }
}

/// Whether the register at `addr` holds flags, of which a plain store clears those that are ones in
/// the word stored.
pub open spec fn clears_on_one(addr: u32) -> bool {
    ||| addr == memmap::pio_reg(0, memmap::IRQ)
    ||| addr == memmap::pio_reg(1, memmap::IRQ)
    ||| addr == memmap::pio_reg(0, memmap::FDEBUG)
    ||| addr == memmap::pio_reg(1, memmap::FDEBUG)
}

/// Whether a store to `target` raises flags of the register at `addr`.
pub open spec fn forces(target: u32, addr: u32) -> bool {
    ||| target == memmap::pio_reg(0, memmap::IRQ_FORCE) && addr == memmap::pio_reg(0, memmap::IRQ)
    ||| target == memmap::pio_reg(1, memmap::IRQ_FORCE) && addr == memmap::pio_reg(1, memmap::IRQ)
}

/// Whether a step can change the register at `addr`.
pub open spec fn reaches(event: Event, addr: u32) -> bool {
    event is Write && (register_of(event->Write_addr) == addr || forces(event->Write_addr, addr))
}

/// What one step leaves in the register at `addr`, which held `word`.
pub open spec fn after_event(event: Event, addr: u32, word: u32) -> u32 {
    match event {
        Event::Write { addr: target, value } => if register_of(target) == addr {
            if alias_of(target) == 0 && clears_on_one(addr) {
                word & !value
            } else {
                after_store(alias_of(target), word, value)
            }
        } else if forces(target, addr) {
            word | value
        } else {
            word
        },
        _ => word,
    }
}

/// What the steps of a trace leave in the register at `addr`, which held `start` before them, if
/// nothing but these steps changes it.
pub open spec fn word_after(start: u32, trace: Seq<Event>, addr: u32) -> u32
    decreases trace.len(),
{
    if trace.len() == 0 {
        start
    } else {
        after_event(trace.last(), addr, word_after(start, trace.drop_last(), addr))
    }
}

/// Every load from `addr` in the trace yielded what the steps before it had left there. Registers
/// start at zero.
pub open spec fn keeps(trace: Seq<Event>, addr: u32) -> bool {
    forall|i: int|
        #![trigger trace[i]]
        0 <= i < trace.len() && trace[i] is Read && trace[i]->Read_addr == addr
            ==> trace[i]->Read_value == word_after(0, trace.take(i), addr)
}

/// Computes [`after_event`].
fn apply(event: Event, addr: u32, word: u32) -> (r: u32)
    ensures
        r == after_event(event, addr, word),
{
    if let Event::Write { addr: target, value } = event {
        let irq0: u32 = memmap::PIO0_BASE + memmap::IRQ;
        let irq1: u32 = memmap::PIO1_BASE + memmap::IRQ;
        let fdebug0: u32 = memmap::PIO0_BASE + memmap::FDEBUG;
        let fdebug1: u32 = memmap::PIO1_BASE + memmap::FDEBUG;
        let alias: u32 = (target / 0x1000) % 4;
        if target - 0x1000 * alias == addr {
            if alias == 0 {
                if addr == irq0 || addr == irq1 || addr == fdebug0 || addr == fdebug1 {
                    word & !value
                } else {
                    value
                }
            } else if alias == 1 {
                word ^ value
            } else if alias == 2 {
                word | value
            } else {
                word & !value
            }
        } else if target == memmap::PIO0_BASE + memmap::IRQ_FORCE && addr == irq0 || target
            == memmap::PIO1_BASE + memmap::IRQ_FORCE && addr == irq1 {
            word | value
        } else {
            word
        }
    } else {
        word
    }
}

/// A machine whose registers change by stores alone: the flags of the IRQ and FIFO debug registers
/// as their stores say, and all others keep what is stored in them. It records its trace.
pub struct SimulatedPlatform {
    events: Vec<Event>,
}

impl SimulatedPlatform {
    #[verifier::type_invariant]
    spec fn inv(self) -> bool {
        forall|addr: u32| #[trigger] keeps(self.events@, addr)
    }

    /// A machine on which nothing has happened yet.
    pub fn new() -> (m: Self)
        ensures
            m.trace() == Seq::<Event>::empty(),
    {
        SimulatedPlatform { events: Vec::new() }
    }

    /// Returns the number of steps taken so far.
    pub fn len(&self) -> (n: usize)
        ensures
            n == self.trace().len(),
    {
        self.events.len()
    }

    /// Returns step `i`, counted from zero.
    pub fn event(&self, i: usize) -> (event: Event)
        requires
            i < self.trace().len(),
        ensures
            event == self.trace()[i as int],
    {
        self.events[i]
    }

    /// Returns what the register at `addr` holds. Every load from it so far has yielded what it
    /// held at that time.
    pub fn word(&self, addr: u32) -> (word: u32)
        ensures
            word == word_after(0, self.trace(), addr),
            keeps(self.trace(), addr),
    {
        proof {
            use_type_invariant(self);
            assert(keeps(self.events@, addr));
        }
        let mut word: u32 = 0;
        let mut i: usize = 0;
        while i < self.events.len()
            invariant
                i <= self.events@.len(),
                word == word_after(0, self.events@.take(i as int), addr),
            decreases self.events@.len() - i,
        {
            assert(self.events@.take(i + 1).drop_last() =~= self.events@.take(i as int));
            word = apply(self.events[i], addr, word);
            i = i + 1;
        }
        assert(self.events@.take(i as int) =~= self.events@);
        word
    }

    fn record(&mut self, event: Event)
        requires
            event matches Event::Read { addr, value } ==> value == word_after(
                0,
                old(self).trace(),
                addr,
            ),
        ensures
            final(self).trace() == old(self).trace().push(event),
    {
        proof {
            use_type_invariant(&*self);
        }
        let ghost before = self.events@;
        let mut events: Vec<Event> = Vec::new();
        core::mem::swap(&mut events, &mut self.events);
        events.push(event);
        assert forall|addr: u32| #[trigger] keeps(events@, addr) by {
            assert(keeps(before, addr));
            assert forall|i: int|
                #![trigger events@[i]]
                0 <= i < events@.len() && events@[i] is Read && events@[i]->Read_addr
                    == addr implies events@[i]->Read_value == word_after(
                0,
                events@.take(i),
                addr,
            ) by {
                assert(events@.take(i) =~= before.take(i));
                if i < before.len() {
                    assert(events@[i] == before[i]);
                } else {
                    assert(before.take(i) =~= before);
                }
            }
        }
        self.events = events;
    }
}

impl Platform for SimulatedPlatform {
    closed spec fn trace(&self) -> Seq<Event> {
        self.events@
    }

    fn read(&mut self, addr: u32) -> (value: u32) {
        let value: u32 = self.word(addr);
        self.record(Event::Read { addr, value });
        value
    }

    fn write(&mut self, addr: u32, value: u32) {
        self.record(Event::Write { addr, value });
    }

    fn fence(&mut self) {
        self.record(Event::Fence);
    }

    fn enter_critical(&mut self) {
        self.record(Event::EnterCritical);
    }

    fn leave_critical(&mut self) {
        self.record(Event::LeaveCritical);
    }

    fn register_waker(&mut self, pio: u8, slot: usize) {
        self.record(Event::RegisterWaker { pio, slot });
    }

    fn wake(&mut self, pio: u8, slot: usize) {
        self.record(Event::Wake { pio, slot });
    }

    fn disable_interrupt(&mut self, pio: u8) {
        self.record(Event::DisableInterrupt { pio });
    }

    fn set_interrupt_priority(&mut self, pio: u8, priority: u8) {
        self.record(Event::SetInterruptPriority { pio, priority });
    }

    fn enable_interrupt(&mut self, pio: u8) {
        self.record(Event::EnableInterrupt { pio });
    }
}

} // verus!
