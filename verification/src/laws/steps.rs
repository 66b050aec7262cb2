//! What each step of a machine adds to its trace, which calls are taken, and what stores leave in
//! the registers of the simulated machine.

use crate::futures::IrqFuture;
use crate::instance::PioInstance;
use crate::memmap;
use crate::pin::PioPin;
use crate::platform::{Event, Platform};
use crate::sealed::{PioInstance as _, PioStateMachine as _};
use crate::simulated;
use crate::simulated::SimulatedPlatform;
use crate::sm::{DataSize, PioStateMachine};
use vstd::prelude::*;

verus! {

/// A load adds the address and the word that it returned; a store adds the address and the word
/// stored.
pub proof fn law_bus_steps<M: Platform>(m: &mut M, n: &mut M, addr: u32, value: u32)
    requires
        call_ensures(M::read, (m, addr), value),
        call_ensures(M::write, (n, addr, value), ()),
    ensures
        final(m).trace() == old(m).trace().push(Event::Read { addr, value }),
        final(n).trace() == old(n).trace().push(Event::Write { addr, value }),
{
}

/// Fences and critical sections add one step each.
pub proof fn law_order_steps<M: Platform>(m: &mut M, n: &mut M, o: &mut M)
    requires
        call_ensures(M::fence, (m,), ()),
        call_ensures(M::enter_critical, (n,), ()),
        call_ensures(M::leave_critical, (o,), ()),
    ensures
        final(m).trace() == old(m).trace().push(Event::Fence),
        final(n).trace() == old(n).trace().push(Event::EnterCritical),
        final(o).trace() == old(o).trace().push(Event::LeaveCritical),
{
}

/// Storing a waker and waking a task add the block and the slot.
pub proof fn law_waker_steps<M: Platform>(m: &mut M, n: &mut M, pio: u8, slot: usize)
    requires
        call_ensures(M::register_waker, (m, pio, slot), ()),
        call_ensures(M::wake, (n, pio, slot), ()),
    ensures
        final(m).trace() == old(m).trace().push(Event::RegisterWaker { pio, slot }),
        final(n).trace() == old(n).trace().push(Event::Wake { pio, slot }),
{
}

/// The steps at the interrupt controller add the block, and the priority.
pub proof fn law_interrupt_steps<M: Platform>(
    m: &mut M,
    n: &mut M,
    o: &mut M,
    pio: u8,
    priority: u8,
)
    requires
        call_ensures(M::disable_interrupt, (m, pio), ()),
        call_ensures(M::set_interrupt_priority, (n, pio, priority), ()),
        call_ensures(M::enable_interrupt, (o, pio), ()),
    ensures
        final(m).trace() == old(m).trace().push(Event::DisableInterrupt { pio }),
        final(n).trace() == old(n).trace().push(Event::SetInterruptPriority { pio, priority }),
        final(o).trace() == old(o).trace().push(Event::EnableInterrupt { pio }),
{
}

/// The calls that set a range of pins take every range that ends below pin 31, and those that start
/// a DMA channel take every channel.
pub proof fn law_ranges_and_channels_are_taken<S: PioStateMachine, M: Platform>(
    s: &mut S,
    t: &S,
    m: &mut M,
    base: u8,
    count: u8,
    channel: u8,
    size: DataSize,
    data: u32,
    len: usize,
)
    requires
        base + count < 32,
        channel < 12,
    ensures
        call_requires(S::set_set_range::<M>, (s, m, base, count)),
        call_requires(S::set_out_range::<M>, (s, m, base, count)),
        call_requires(S::dma_push::<M>, (t, m, channel, size, data, len)),
        call_requires(S::dma_pull::<M>, (t, m, channel, size, data, len)),
{
}

/// The calls that set pins take every row of pins whose numbers count up by one and end below 31.
pub proof fn law_rows_of_pins_are_taken<S: PioStateMachine, M: Platform>(
    s: &mut S,
    m: &mut M,
    pins: &[&PioPin<S::Pio>],
)
    requires
        pins@.len() > 0,
        pins@[0].bank() % 32 + pins@.len() < 32,
        forall|i: int|
            0 <= i < pins@.len() ==> (#[trigger] pins@[i]).bank() % 32 == pins@[0].bank() % 32 + i,
    ensures
        call_requires(S::set_set_pins::<M>, (s, m, pins)),
        call_requires(S::set_out_pins::<M>, (s, m, pins)),
{
}

/// Waits for every flag number below 32 can be polled and ended.
pub proof fn law_flag_waits_are_taken<PIO: PioInstance, M: Platform>(
    f: &mut IrqFuture<PIO>,
    m: &mut M,
)
    requires
        old(f).irq_no() < 32,
    ensures
        call_requires(IrqFuture::<PIO>::poll::<M>, (f, m)),
        call_requires(IrqFuture::<PIO>::drop::<M>, (f, m)),
{
}

/// The pad control and function select registers of a pin are where its number says.
pub proof fn law_pin_addresses(pin_bank: u8, pad: u32, io: u32)
    requires
        call_ensures(memmap::pad_address, (pin_bank,), pad),
        call_ensures(memmap::io_ctrl_address, (pin_bank,), io),
    ensures
        (pin_bank / 32) % 2 == 0 ==> pad == 0x4001_c004 + 4 * (pin_bank % 32) && io == 0x4001_4004
            + 8 * (pin_bank % 32),
        (pin_bank / 32) % 2 == 1 ==> pad == 0x4002_0004 + 4 * (pin_bank % 32) && io == 0x4001_8004
            + 8 * (pin_bank % 32),
{
}

/// What a store leaves in the registers of the simulated machine. At its own address, an ordinary
/// register takes the word stored, and of a register of flags those are cleared that are ones in
/// the word. A page, two pages and three pages further up, the ones in the word invert, set and
/// clear bits. Other registers keep their words.
pub proof fn law_stores_in_simulation(addr: u32, other: u32, word: u32, value: u32)
    requires
        (addr / 0x1000) % 4 == 0,
    ensures
        simulated::after_event(Event::Write { addr, value }, addr, word) == if addr == 0x5020_0030
            || addr == 0x5030_0030 || addr == 0x5020_0008 || addr == 0x5030_0008 {
            word & !value
        } else {
            value
        },
        simulated::after_event(
            Event::Write { addr: (addr + 0x1000) as u32, value },
            addr,
            word,
        ) == word ^ value,
        simulated::after_event(
            Event::Write { addr: (addr + 0x2000) as u32, value },
            addr,
            word,
        ) == word | value,
        simulated::after_event(
            Event::Write { addr: (addr + 0x3000) as u32, value },
            addr,
            word,
        ) == word & !value,
        simulated::after_event(
            Event::Write { addr: 0x5020_0034, value },
            0x5020_0030,
            word,
        ) == word | value,
        simulated::after_event(
            Event::Write { addr: 0x5030_0034, value },
            0x5030_0030,
            word,
        ) == word | value,
        other != addr && !(addr == 0x5020_0034 && other == 0x5020_0030) && !(addr == 0x5030_0034
            && other == 0x5030_0030) ==> simulated::after_event(
            Event::Write { addr, value },
            other,
            word,
        ) == word,
        simulated::after_event(Event::Read { addr, value }, other, word) == word,
{
}

/// The simulated machine starts with an empty trace, and returns of its trace what it holds and of
/// its registers what the stores have left there.
pub proof fn law_simulated_machine(
    new: SimulatedPlatform,
    m: &SimulatedPlatform,
    i: usize,
    addr: u32,
    len: usize,
    event: Event,
    word: u32,
)
    requires
        call_ensures(SimulatedPlatform::new, (), new),
        call_ensures(SimulatedPlatform::len, (m,), len),
        call_ensures(SimulatedPlatform::event, (m, i), event),
        call_ensures(SimulatedPlatform::word, (m, addr), word),
    ensures
        new.trace().len() == 0,
        len == m.trace().len(),
        event == m.trace()[i as int],
        word == simulated::word_after(0, m.trace(), addr),
{
}

} // verus!
