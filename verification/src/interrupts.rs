//! Interrupt line 0 of the PIO blocks.

use crate::bits;
use crate::instance::{PioInstance, PIO0, PIO1};
use crate::memmap;
use crate::platform;
use crate::platform::{Event, Platform};
use crate::sealed::PioInstance as _;
use vstd::prelude::*;

verus! {

/// Number of waker slots of a PIO block: one for each interrupt that can wake a task.
pub const WAKERS: usize = 12;

/// First slot of the tasks that wait for a word in an RX FIFO.
pub const FIFO_IN: usize = 0;

/// First slot of the tasks that wait for room in a TX FIFO.
pub const FIFO_OUT: usize = 4;

/// First slot of the tasks that wait for an IRQ flag.
pub const IRQ_FLAG: usize = 8;

/// `before`, followed by the wake-ups that `ints` calls for among the first `n` slots of a block,
/// lowest slot first.
pub open spec fn woken(before: Seq<Event>, pio: u8, ints: u32, n: nat) -> Seq<Event>
    decreases n,
{
    if n == 0 {
        before
    } else {
        let rest = woken(before, pio, ints, (n - 1) as nat);
        if bits::bit(ints, (n - 1) as u32) {
            rest.push(Event::Wake { pio, slot: (n - 1) as usize })
        } else {
            rest
        }
    }
}

/// Serves interrupt line 0: wakes the tasks whose interrupts are pending, then disables those
/// interrupts.
pub fn irq_0<PIO: PioInstance, M: Platform>(m: &mut M)
    ensures
        ({
            let ints = platform::nth_read(final(m).trace(), old(m).trace().len() as int);
            let looked = old(m).trace().push(
                Event::Read { addr: memmap::pio_reg(PIO::no(), memmap::IRQ0_INTS), value: ints },
            );
            final(m).trace() == woken(looked, PIO::no(), ints, WAKERS as nat).push(
                Event::Write {
                    addr: memmap::clear_alias(memmap::pio_reg(PIO::no(), memmap::IRQ0_INTE)),
                    value: ints,
                },
            )
        }),
{
    proof {
        PIO::lemma_block();
    }
    let ints: u32 = m.read(PIO::PIO + memmap::IRQ0_INTS);
    let ghost looked = m.trace();
    let mut bit: usize = 0;
    while bit < WAKERS
        invariant
            bit <= WAKERS,
            PIO::PIO_NO == PIO::no(),
            m.trace() == woken(looked, PIO::no(), ints, bit as nat),
        decreases WAKERS - bit,
    {
        if bits::test_bit(ints, bit as u32) {
            m.wake(PIO::PIO_NO, bit);
        }
        bit = bit + 1;
    }
    proof {
        lemma_woken_keeps(looked, PIO::no(), ints, WAKERS as nat);
        assert(m.trace()[looked.len() - 1] == looked.last());
    }
    m.write(PIO::PIO + memmap::IRQ0_INTE + memmap::CLEAR_ALIAS, ints);
}

/// Wake-ups only add to the trace.
proof fn lemma_woken_keeps(before: Seq<Event>, pio: u8, ints: u32, n: nat)
    ensures
        before.len() <= woken(before, pio, ints, n).len(),
        forall|i: int| 0 <= i < before.len() ==> woken(before, pio, ints, n)[i] == before[i],
    decreases n,
{
    if n > 0 {
        lemma_woken_keeps(before, pio, ints, (n - 1) as nat);
    }
}

/// The steps that make interrupt line 0 of a block ready: with the line masked, it gets the lowest
/// priority and all its interrupts are disabled.
pub open spec fn made_ready<PIO: PioInstance>(before: Seq<Event>) -> Seq<Event> {
    before + seq![
        Event::DisableInterrupt { pio: PIO::no() },
        Event::SetInterruptPriority { pio: PIO::no(), priority: 3 },
        Event::Write { addr: memmap::pio_reg(PIO::no(), memmap::IRQ0_INTE), value: 0 },
        Event::EnableInterrupt { pio: PIO::no() },
    ]
}

fn make_ready<PIO: PioInstance, M: Platform>(m: &mut M)
    ensures
        final(m).trace() == made_ready::<PIO>(old(m).trace()),
{
    proof {
        PIO::lemma_block();
    }
    m.disable_interrupt(PIO::PIO_NO);
    m.set_interrupt_priority(PIO::PIO_NO, 3);
    m.write(PIO::PIO + memmap::IRQ0_INTE, 0);
    m.enable_interrupt(PIO::PIO_NO);
    assert(m.trace() =~= made_ready::<PIO>(old(m).trace()));
}

/// Makes interrupt line 0 of both blocks ready.
pub fn init<M: Platform>(m: &mut M)
    ensures
        final(m).trace() == made_ready::<PIO1>(made_ready::<PIO0>(old(m).trace())),
{
    make_ready::<PIO0, M>(m);
    make_ready::<PIO1, M>(m);
}

} // verus!
