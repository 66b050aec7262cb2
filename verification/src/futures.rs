//! Waiting for FIFOs and IRQ flags.

use crate::bits;
use crate::instance::PioInstance;
use crate::interrupts;
use crate::memmap;
use crate::platform;
use crate::platform::{Event, Platform};
use crate::sealed;
use crate::sm::PioStateMachine;
use core::marker::PhantomData;
use vstd::prelude::*;

verus! {

/// What a poll found.
#[derive(Debug, PartialEq, Eq)]
pub enum Poll<T> {
    /// It is done, with this outcome.
    Ready(T),
    /// Not yet. The task is woken when polling again makes sense.
    Pending,
}

/// Interrupt enable bit of "RX FIFO not empty" for state machine 0.
pub const RXNEMPTY_MASK: u32 = 0x001;

/// Interrupt enable bit of "TX FIFO not full" for state machine 0.
pub const TXNFULL_MASK: u32 = 0x010;

/// Interrupt enable bit of state machine IRQ flag 0.
pub const SMIRQ_MASK: u32 = 0x100;

/// The steps that let interrupt line 0 of a block wake the polling task: its waker is stored, then
/// the interrupts in `mask` are enabled.
pub open spec fn armed<PIO: PioInstance>(before: Seq<Event>, slot: usize, mask: u32) -> Seq<Event> {
    before.push(Event::RegisterWaker { pio: PIO::no(), slot }).push(
        Event::Write {
            addr: memmap::set_alias(memmap::pio_reg(PIO::no(), memmap::IRQ0_INTE)),
            value: mask,
        },
    )
}

/// From `before` to `after`, the interrupts in `mask` were disabled.
pub open spec fn disarmed<PIO: PioInstance>(
    before: Seq<Event>,
    after: Seq<Event>,
    mask: u32,
) -> bool {
    platform::stored(
        before,
        after,
        memmap::clear_alias(memmap::pio_reg(PIO::no(), memmap::IRQ0_INTE)),
        mask,
    )
}

fn arm<PIO: PioInstance, M: Platform>(m: &mut M, slot: usize, mask: u32)
    ensures
        final(m).trace() == armed::<PIO>(old(m).trace(), slot, mask),
{
    proof {
        PIO::lemma_block();
    }
    m.register_waker(PIO::PIO_NO, slot);
    m.write(PIO::PIO + memmap::IRQ0_INTE + memmap::SET_ALIAS, mask);
}

fn disarm<PIO: PioInstance, M: Platform>(m: &mut M, mask: u32)
    ensures
        disarmed::<PIO>(old(m).trace(), final(m).trace(), mask),
{
    proof {
        PIO::lemma_block();
    }
    m.write(PIO::PIO + memmap::IRQ0_INTE + memmap::CLEAR_ALIAS, mask);
}

/// Waits for room in a TX FIFO, to put a word into it.
#[must_use]
pub struct FifoOutFuture<'a, PIO: PioInstance, SM: sealed::PioStateMachine> {
    sm: &'a mut SM,
    pio: PhantomData<PIO>,
    value: u32,
}

impl<'a, PIO: PioInstance, SM: sealed::PioStateMachine> FifoOutFuture<'a, PIO, SM> {
    /// The word to put into the FIFO.
    pub closed spec fn value(&self) -> u32 {
        self.value
    }

    /// The state machine whose FIFO it is.
    pub closed spec fn machine(&self) -> SM {
        *self.sm
    }

    /// Makes a future that puts `value` into the TX FIFO of `sm`.
    pub fn new(sm: &'a mut SM, value: u32) -> (future: Self)
        ensures
            future.value() == value,
            future.machine() == *old(sm),
    {
        FifoOutFuture { sm, pio: PhantomData, value }
    }
}

impl<'a, PIO: PioInstance, SM: PioStateMachine> FifoOutFuture<'a, PIO, SM> {
    /// Puts the word into the FIFO if there is room. Otherwise arranges for the task to be woken
    /// when there is.
    pub fn poll<M: Platform>(&mut self, m: &mut M) -> (r: Poll<()>)
        ensures
            final(self).value() == old(self).value(),
            final(self).machine() == old(self).machine(),
            ({
                let looked = final(m).trace().take(old(m).trace().len() as int + 1);
                match r {
                    Poll::Ready(_) => crate::sm::try_pushed::<SM>(
                        old(m).trace(),
                        final(m).trace(),
                        old(self).value(),
                        true,
                    ),
                    Poll::Pending => crate::sm::try_pushed::<SM>(
                        old(m).trace(),
                        looked,
                        old(self).value(),
                        false,
                    ) && final(m).trace() == armed::<PIO>(
                        looked,
                        (interrupts::FIFO_OUT + SM::index()) as usize,
                        TXNFULL_MASK << SM::index(),
                    ),
                }
            }),
    {
        let value: u32 = self.value;
        if self.sm.try_push_tx(m, value) {
            Poll::Ready(())
        } else {
            proof {
                SM::lemma_sm();
            }
            let ghost looked = m.trace();
            arm::<PIO, M>(m, interrupts::FIFO_OUT + SM::SM, TXNFULL_MASK << SM::SM);
            assert(m.trace().take(looked.len() as int) =~= looked);
            Poll::Pending
        }
    }

    /// Stops waiting: disables the interrupt again.
    pub fn drop<M: Platform>(&mut self, m: &mut M)
        ensures
            final(self).value() == old(self).value(),
            final(self).machine() == old(self).machine(),
            disarmed::<PIO>(old(m).trace(), final(m).trace(), TXNFULL_MASK << SM::index()),
    {
        proof {
            SM::lemma_sm();
        }
        disarm::<PIO, M>(m, TXNFULL_MASK << SM::SM);
    }
}

/// Waits for a word in an RX FIFO, to take it out.
#[must_use]
pub struct FifoInFuture<'a, PIO: PioInstance, SM: sealed::PioStateMachine> {
    sm: &'a mut SM,
    pio: PhantomData<PIO>,
}

impl<'a, PIO: PioInstance, SM: sealed::PioStateMachine> FifoInFuture<'a, PIO, SM> {
    /// The state machine whose FIFO it is.
    pub closed spec fn machine(&self) -> SM {
        *self.sm
    }

    /// Makes a future that takes a word out of the RX FIFO of `sm`.
    pub fn new(sm: &'a mut SM) -> (future: Self)
        ensures
            future.machine() == *old(sm),
    {
        FifoInFuture { sm, pio: PhantomData }
    }
}

impl<'a, PIO: PioInstance, SM: PioStateMachine> FifoInFuture<'a, PIO, SM> {
    /// Takes a word out of the FIFO if there is one. Otherwise arranges for the task to be woken
    /// when there is.
    pub fn poll<M: Platform>(&mut self, m: &mut M) -> (r: Poll<u32>)
        ensures
            final(self).machine() == old(self).machine(),
            ({
                let looked = final(m).trace().take(old(m).trace().len() as int + 1);
                match r {
                    Poll::Ready(v) => crate::sm::try_pulled::<SM>(
                        old(m).trace(),
                        final(m).trace(),
                        Some(v),
                    ),
                    Poll::Pending => crate::sm::try_pulled::<SM>(old(m).trace(), looked, None)
                        && final(m).trace() == armed::<PIO>(
                        looked,
                        (interrupts::FIFO_IN + SM::index()) as usize,
                        RXNEMPTY_MASK << SM::index(),
                    ),
                }
            }),
    {
        match self.sm.try_pull_rx(m) {
            Some(v) => Poll::Ready(v),
            None => {
                proof {
                    SM::lemma_sm();
                }
                let ghost looked = m.trace();
                arm::<PIO, M>(m, interrupts::FIFO_IN + SM::SM, RXNEMPTY_MASK << SM::SM);
                assert(m.trace().take(looked.len() as int) =~= looked);
                Poll::Pending
            },
        }
    }

    /// Stops waiting: disables the interrupt again.
    pub fn drop<M: Platform>(&mut self, m: &mut M)
        ensures
            final(self).machine() == old(self).machine(),
            disarmed::<PIO>(old(m).trace(), final(m).trace(), RXNEMPTY_MASK << SM::index()),
    {
        proof {
            SM::lemma_sm();
        }
        disarm::<PIO, M>(m, RXNEMPTY_MASK << SM::SM);
    }
}

/// From `before` to `after`, a wait for flag `irq_no` was polled, with outcome `r`: in a critical
/// section the flags were read and the flag cleared if it was raised; if it was not, the wait was
/// armed where the flag can wake a task.
pub open spec fn irq_polled<PIO: PioInstance>(
    before: Seq<Event>,
    after: Seq<Event>,
    irq_no: u8,
    r: Option<Poll<()>>,
) -> bool {
    let addr = memmap::pio_reg(PIO::no(), memmap::IRQ);
    let flags = platform::nth_read(after, before.len() as int + 1);
    let looked = before.push(Event::EnterCritical).push(Event::Read { addr, value: flags });
    if bits::bit(flags, irq_no as u32) {
        r == Some(Poll::Ready(())) && after == looked.push(
            Event::Write { addr, value: 1u32 << irq_no },
        ).push(Event::LeaveCritical)
    } else if irq_no < 4 {
        r == Some(Poll::<()>::Pending) && after == armed::<PIO>(
            looked.push(Event::LeaveCritical),
            (interrupts::IRQ_FLAG + irq_no) as usize,
            SMIRQ_MASK << irq_no,
        )
    } else {
        r is None && after == looked.push(Event::LeaveCritical)
    }
}

/// Waits for a state machine IRQ flag, to clear it.
#[must_use]
pub struct IrqFuture<PIO: PioInstance> {
    pio: PhantomData<PIO>,
    irq_no: u8,
}

impl<PIO: PioInstance> IrqFuture<PIO> {
    /// The number of the flag.
    pub closed spec fn irq_no(&self) -> u8 {
        self.irq_no
    }

    /// Makes a future that waits for a flag.
    pub fn new(irq_no: u8) -> (future: Self)
        ensures
            future.irq_no() == irq_no,
    {
        IrqFuture { pio: PhantomData, irq_no }
    }

    /// Clears the flag if it is raised. Otherwise arranges for the task to be woken when it is.
    /// Only the first four flags can wake a task: `None` is the answer for another one that is
    /// not raised.
    pub fn poll<M: Platform>(&mut self, m: &mut M) -> (r: Option<Poll<()>>)
        requires
            old(self).irq_no() < 32,
        ensures
            final(self).irq_no() == old(self).irq_no(),
            irq_polled::<PIO>(old(m).trace(), final(m).trace(), old(self).irq_no(), r),
    {
        proof {
            PIO::lemma_block();
        }
        let irq_no: u8 = self.irq_no;
        m.enter_critical();
        let flags: u32 = m.read(PIO::PIO + memmap::IRQ);
        let raised: bool = bits::test_bit(flags, irq_no as u32);
        if raised {
            m.write(PIO::PIO + memmap::IRQ, 1u32 << irq_no);
        }
        m.leave_critical();
        if raised {
            return Some(Poll::Ready(()));
        }
        if irq_no >= 4 {
            return None;
        }
        arm::<PIO, M>(m, interrupts::IRQ_FLAG + irq_no as usize, SMIRQ_MASK << irq_no);
        Some(Poll::Pending)
    }

    /// Stops waiting: disables the interrupt again.
    pub fn drop<M: Platform>(&mut self, m: &mut M)
        requires
            old(self).irq_no() < 32,
        ensures
            final(self).irq_no() == old(self).irq_no(),
            disarmed::<PIO>(old(m).trace(), final(m).trace(), SMIRQ_MASK << old(self).irq_no()),
    {
        disarm::<PIO, M>(m, SMIRQ_MASK << self.irq_no);
    }
}

} // verus!
