//! What the polls of the waits and the interrupt handler do, and that they fit together: a task
//! that waits is woken.

use crate::bits;
use crate::futures::{FifoInFuture, FifoOutFuture, IrqFuture, Poll};
use crate::instance::PioInstance;
use crate::interrupts;
use crate::laws::words;
use crate::platform::{Event, Platform};
use crate::sealed::{PioInstance as _, PioStateMachine as _};
use crate::sm::PioStateMachine;
use vstd::prelude::*;

verus! {

/// `wait_push` waits to push the word asked for, all of it, and `wait_irq` for the flag asked for.
pub proof fn law_waits_are_as_asked<'a, S: PioStateMachine>(
    s: &'a mut S,
    t: &S,
    value: u32,
    irq_no: u8,
    push: FifoOutFuture<'a, S::Pio, S>,
    flag: IrqFuture<S::Pio>,
)
    requires
        call_ensures(S::wait_push, (s, value), push),
        call_ensures(S::wait_irq, (t, irq_no), flag),
    ensures
        push.value() == value,
        flag.irq_no() == irq_no,
{
}

/// A future made by hand waits for what it was made for.
pub proof fn law_new_futures_are_as_asked<'a, PIO: PioInstance, S: PioStateMachine>(
    s: &'a mut S,
    value: u32,
    irq_no: u8,
    push: FifoOutFuture<'a, PIO, S>,
    flag: IrqFuture<PIO>,
)
    requires
        call_ensures(FifoOutFuture::<'a, PIO, S>::new, (s, value), push),
        call_ensures(IrqFuture::<PIO>::new, (irq_no,), flag),
    ensures
        push.value() == value,
        flag.irq_no() == irq_no,
{
}

/// A poll of `wait_push` looks whether the TX FIFO is full. If it is not, the word goes there and
/// the wait is over. If it is, the waker is stored in slot 4 + n of the block, then interrupt 4 + n
/// of the block is enabled.
pub proof fn law_poll_push<'a, PIO: PioInstance, S: PioStateMachine, M: Platform>(
    f: &mut FifoOutFuture<'a, PIO, S>,
    m: &mut M,
    r: Poll<()>,
)
    requires
        call_ensures(FifoOutFuture::<'a, PIO, S>::poll::<M>, (f, m), r),
    ensures
        ({
            let status = (0x5020_0004 + 0x10_0000 * S::Pio::no()) as u32;
            let fifo = (0x5020_0010 + 0x10_0000 * S::Pio::no() + 4 * S::index()) as u32;
            let enable = (0x5020_212c + 0x10_0000 * PIO::no()) as u32;
            let word = final(m).trace()[old(m).trace().len() as int]->Read_value;
            let looked = old(m).trace().push(Event::Read { addr: status, value: word });
            let full = (word >> ((S::index() + 16) as u32)) & 1 == 1;
            &&& r is Pending <==> full
            &&& !full ==> final(m).trace() == looked.push(
                Event::Write { addr: fifo, value: old(f).value() },
            )
            &&& full ==> final(m).trace() == looked.push(
                Event::RegisterWaker { pio: PIO::no(), slot: (4 + S::index()) as usize },
            ).push(Event::Write { addr: enable, value: 1u32 << ((4 + S::index()) as u32) })
        }),
        final(f).value() == old(f).value(),
{
    S::lemma_sm();
    S::Pio::lemma_block();
    PIO::lemma_block();
    let n = old(m).trace().len() as int;
    let word = final(m).trace()[n]->Read_value;
    words::law_bit_is_a_shift(word, (S::index() + 16) as u32);
    lemma_mask(0x10, S::index() as u32, 4);
    assert(0x10u32 << S::index() == 0x10u32 << (S::index() as u32));
    if r is Pending {
        let looked = final(m).trace().take(n + 1);
        assert(looked[n] == final(m).trace()[n]);
    }
}

/// A poll of `wait_pull` looks whether the RX FIFO is empty. If it is not, the wait ends with the
/// word, all of it, that one load from there yields. If it is, the waker is stored in slot n of the
/// block, then interrupt n of the block is enabled.
pub proof fn law_poll_pull<'a, PIO: PioInstance, S: PioStateMachine, M: Platform>(
    f: &mut FifoInFuture<'a, PIO, S>,
    m: &mut M,
    r: Poll<u32>,
)
    requires
        call_ensures(FifoInFuture::<'a, PIO, S>::poll::<M>, (f, m), r),
    ensures
        ({
            let status = (0x5020_0004 + 0x10_0000 * S::Pio::no()) as u32;
            let fifo = (0x5020_0020 + 0x10_0000 * S::Pio::no() + 4 * S::index()) as u32;
            let enable = (0x5020_212c + 0x10_0000 * PIO::no()) as u32;
            let word = final(m).trace()[old(m).trace().len() as int]->Read_value;
            let looked = old(m).trace().push(Event::Read { addr: status, value: word });
            let empty = (word >> ((S::index() + 8) as u32)) & 1 == 1;
            &&& r is Pending <==> empty
            &&& !empty ==> final(m).trace() == looked.push(
                Event::Read { addr: fifo, value: r->Ready_0 },
            )
            &&& empty ==> final(m).trace() == looked.push(
                Event::RegisterWaker { pio: PIO::no(), slot: S::index() },
            ).push(Event::Write { addr: enable, value: 1u32 << (S::index() as u32) })
        }),
{
    S::lemma_sm();
    S::Pio::lemma_block();
    PIO::lemma_block();
    let n = old(m).trace().len() as int;
    let word = final(m).trace()[n]->Read_value;
    words::law_bit_is_a_shift(word, (S::index() + 8) as u32);
    lemma_mask(1, S::index() as u32, 0);
    assert(1u32 << S::index() == 1u32 << (S::index() as u32));
    if r is Pending {
        let looked = final(m).trace().take(n + 1);
        assert(looked[n] == final(m).trace()[n]);
    }
}

/// A poll of `wait_irq` reads the flags in a critical section. If the flag is raised, it is cleared
/// before the section ends and the wait is over. If it is not, and is one of the first four, the
/// waker is stored in slot 8 + n of the block, then interrupt 8 + n of the block is enabled.
pub proof fn law_poll_irq<PIO: PioInstance, M: Platform>(
    f: &mut IrqFuture<PIO>,
    m: &mut M,
    r: Option<Poll<()>>,
)
    requires
        old(f).irq_no() < 32,
        call_ensures(IrqFuture::<PIO>::poll::<M>, (f, m), r),
    ensures
        ({
            let flags = (0x5020_0030 + 0x10_0000 * PIO::no()) as u32;
            let enable = (0x5020_212c + 0x10_0000 * PIO::no()) as u32;
            let irq_no = old(f).irq_no();
            let word = final(m).trace()[old(m).trace().len() as int + 1]->Read_value;
            let looked = old(m).trace().push(Event::EnterCritical).push(
                Event::Read { addr: flags, value: word },
            );
            let raised = (word >> (irq_no as u32)) & 1 == 1;
            &&& raised ==> r == Some(Poll::Ready(())) && final(m).trace() == looked.push(
                Event::Write { addr: flags, value: 1u32 << irq_no },
            ).push(Event::LeaveCritical)
            &&& !raised && irq_no < 4 ==> r == Some(Poll::<()>::Pending) && final(m).trace()
                == looked.push(Event::LeaveCritical).push(
                Event::RegisterWaker { pio: PIO::no(), slot: (8 + irq_no) as usize },
            ).push(Event::Write { addr: enable, value: 1u32 << ((8 + irq_no) as u32) })
            &&& !raised && irq_no >= 4 ==> r is None && final(m).trace() == looked.push(
                Event::LeaveCritical,
            )
        }),
        final(f).irq_no() == old(f).irq_no(),
{
    PIO::lemma_block();
    let n = old(m).trace().len() as int;
    let word = final(m).trace()[n + 1]->Read_value;
    let irq_no = old(f).irq_no();
    words::law_bit_is_a_shift(word, irq_no as u32);
    if irq_no < 4 {
        lemma_mask(0x100, irq_no as u32, 8);
        assert(0x100u32 << irq_no == 0x100u32 << (irq_no as u32));
    }
}

proof fn lemma_mask(mask: u32, n: u32, first: u32)
    requires
        mask == 1 && first == 0 || mask == 0x10 && first == 4 || mask == 0x100 && first == 8,
        n < 4,
    ensures
        mask << n == 1u32 << ((first + n) as u32),
{
    let sum = (first + n) as u32;
    assert(mask << n == 1u32 << sum) by (bit_vector)
        requires
            mask == 1 && first == 0 || mask == 0x10 && first == 4 || mask == 0x100 && first == 8,
            n < 4,
            sum == first + n,
    ;
}

/// Ending a wait disables the interrupt that a poll of it enables, and no other.
pub proof fn law_drops<'a, PIO: PioInstance, S: PioStateMachine, M: Platform>(
    push: &mut FifoOutFuture<'a, PIO, S>,
    pull: &mut FifoInFuture<'a, PIO, S>,
    flag: &mut IrqFuture<PIO>,
    m: &mut M,
    n: &mut M,
    o: &mut M,
)
    requires
        old(flag).irq_no() < 24,
        call_ensures(FifoOutFuture::<'a, PIO, S>::drop::<M>, (push, m), ()),
        call_ensures(FifoInFuture::<'a, PIO, S>::drop::<M>, (pull, n), ()),
        call_ensures(IrqFuture::<PIO>::drop::<M>, (flag, o), ()),
    ensures
        ({
            let addr = (0x5020_312c + 0x10_0000 * PIO::no()) as u32;
            let flag_bit = 1u32 << ((8 + old(flag).irq_no()) as u32);
            &&& final(m).trace() == old(m).trace().push(
                Event::Write { addr, value: 1u32 << ((4 + S::index()) as u32) },
            )
            &&& final(n).trace() == old(n).trace().push(
                Event::Write { addr, value: 1u32 << (S::index() as u32) },
            )
            &&& final(o).trace() == old(o).trace().push(Event::Write { addr, value: flag_bit })
        }),
        final(push).value() == old(push).value(),
        final(flag).irq_no() == old(flag).irq_no(),
{
    S::lemma_sm();
    PIO::lemma_block();
    lemma_mask(0x10, S::index() as u32, 4);
    lemma_mask(1, S::index() as u32, 0);
    assert(0x10u32 << S::index() == 0x10u32 << (S::index() as u32));
    assert(1u32 << S::index() == 1u32 << (S::index() as u32));
    let irq_no = old(flag).irq_no();
    let sum = (8 + irq_no) as u32;
    assert(0x100u32 << irq_no == 1u32 << sum) by (bit_vector)
        requires
            irq_no < 24,
            sum == 8 + irq_no,
    ;
}

/// Ending a wait for a flag whose interrupt bit does not exist disables nothing.
pub proof fn law_drop_without_interrupt<PIO: PioInstance, M: Platform>(
    flag: &mut IrqFuture<PIO>,
    m: &mut M,
)
    requires
        24 <= old(flag).irq_no() < 32,
        call_ensures(IrqFuture::<PIO>::drop::<M>, (flag, m), ()),
    ensures
        ({
            let addr = (0x5020_312c + 0x10_0000 * PIO::no()) as u32;
            final(m).trace() == old(m).trace().push(Event::Write { addr, value: 0 })
        }),
        final(flag).irq_no() == old(flag).irq_no(),
{
    PIO::lemma_block();
    let irq_no = old(flag).irq_no();
    assert(0x100u32 << irq_no == 0) by (bit_vector)
        requires
            24 <= irq_no < 32,
    ;
}

/// What the handler has added to `before` once it has gone through the first `n` slots.
proof fn lemma_wakes(before: Seq<Event>, pio: u8, ints: u32, n: nat)
    requires
        n <= 12,
    ensures
        ({
            let t = interrupts::woken(before, pio, ints, n);
            &&& before.len() <= t.len()
            &&& t.take(before.len() as int) =~= before
            &&& forall|i: int|
                before.len() <= i < t.len() ==> (#[trigger] t[i]) is Wake && t[i]->Wake_pio == pio
                    && t[i]->Wake_slot < n && (ints >> (t[i]->Wake_slot as u32)) & 1 == 1
            &&& forall|i: int, j: int|
                before.len() <= i < j < t.len() ==> (#[trigger] t[i])->Wake_slot < (
                #[trigger] t[j])->Wake_slot
            &&& forall|slot: usize|
                slot < n && (#[trigger] (ints >> (slot as u32))) & 1 == 1 ==> t.skip(
                    before.len() as int,
                ).contains(Event::Wake { pio, slot })
        }),
    decreases n,
{
    let t = interrupts::woken(before, pio, ints, n);
    if n > 0 {
        lemma_wakes(before, pio, ints, (n - 1) as nat);
        let rest = interrupts::woken(before, pio, ints, (n - 1) as nat);
        let k = before.len() as int;
        words::law_bit_is_a_shift(ints, (n - 1) as u32);
        if bits::bit(ints, (n - 1) as u32) {
            let last = Event::Wake { pio, slot: (n - 1) as usize };
            assert(t.take(k) =~= rest.take(k));
            assert forall|slot: usize|
                slot < n && (#[trigger] (ints >> (slot as u32))) & 1 == 1 implies t.skip(
                k,
            ).contains(Event::Wake { pio, slot }) by {
                if slot == n - 1 {
                    assert(t.skip(k)[t.len() - 1 - k] == last);
                } else {
                    let wake = Event::Wake { pio, slot };
                    let tail = rest.skip(k);
                    assert(tail.contains(wake));
                    let i = choose|i: int| 0 <= i < tail.len() && tail[i] == wake;
                    assert(t.skip(k)[i] == wake);
                }
            }
        }
    }
}

/// The handler reads which interrupts are pending, wakes for each pending one of the first twelve
/// the slot with its number, once and in order, and then disables all that were pending. It does
/// nothing else.
pub proof fn law_irq_0<PIO: PioInstance, M: Platform>(m: &mut M)
    requires
        call_ensures(interrupts::irq_0::<PIO, M>, (m,), ()),
    ensures
        ({
            let t = final(m).trace();
            let n = old(m).trace().len() as int;
            let ints = t[n]->Read_value;
            let pending = (0x5020_0134 + 0x10_0000 * PIO::no()) as u32;
            let disable = (0x5020_312c + 0x10_0000 * PIO::no()) as u32;
            &&& t.len() >= n + 2
            &&& t.take(n) == old(m).trace()
            &&& t[n] == Event::Read { addr: pending, value: ints }
            &&& t.last() == Event::Write { addr: disable, value: ints }
            &&& forall|i: int|
                n < i < t.len() - 1 ==> (#[trigger] t[i]) is Wake && t[i]->Wake_pio == PIO::no()
                    && t[i]->Wake_slot < 12 && (ints >> (t[i]->Wake_slot as u32)) & 1 == 1
            &&& forall|i: int, j: int|
                n < i < j < t.len() - 1 ==> (#[trigger] t[i])->Wake_slot < (
                #[trigger] t[j])->Wake_slot
            &&& forall|slot: usize|
                slot < 12 && (#[trigger] (ints >> (slot as u32))) & 1 == 1 ==> t.contains(
                    Event::Wake { pio: PIO::no(), slot },
                ) && t.subrange(n + 1, t.len() - 1).contains(Event::Wake { pio: PIO::no(), slot })
        }),
{
    PIO::lemma_block();
    let t = final(m).trace();
    let t0 = old(m).trace();
    let n = t0.len() as int;
    let ints = t[n]->Read_value;
    let pending = (0x5020_0134 + 0x10_0000 * PIO::no()) as u32;
    let looked = t0.push(Event::Read { addr: pending, value: ints });
    let woken = interrupts::woken(looked, PIO::no(), ints, 12);
    lemma_wakes(looked, PIO::no(), ints, 12);
    assert(t.drop_last() =~= woken);
    assert forall|i: int| 0 <= i < woken.len() implies t[i] == #[trigger] woken[i] by {
        assert(t.drop_last()[i] == t[i]);
    }
    assert(woken.take(n + 1)[n] == looked[n]);
    assert(t.take(n) =~= t0) by {
        assert forall|i: int| 0 <= i < n implies t[i] == t0[i] by {
            assert(woken.take(n + 1)[i] == woken[i]);
            assert(looked[i] == t0[i]);
        }
    }
    assert forall|slot: usize|
        slot < 12 && (#[trigger] (ints >> (slot as u32))) & 1 == 1 implies t.contains(
        Event::Wake { pio: PIO::no(), slot },
    ) && t.subrange(n + 1, t.len() - 1).contains(Event::Wake { pio: PIO::no(), slot }) by {
        let wake = Event::Wake { pio: PIO::no(), slot };
        let tail = woken.skip(n + 1);
        assert(tail.contains(wake));
        let i = choose|i: int| 0 <= i < tail.len() && tail[i] == wake;
        assert(woken[n + 1 + i] == wake);
        assert(t[n + 1 + i] == wake);
        assert(t.subrange(n + 1, t.len() - 1)[i] == wake);
    }
}

/// Whether a run of the handler from `t0` to `t1` woke the task whose waker the step `register`
/// stored.
pub open spec fn wakes_registered(t0: Seq<Event>, t1: Seq<Event>, register: Event) -> bool {
    t1.subrange(t0.len() as int, t1.len() as int).contains(
        Event::Wake { pio: register->RegisterWaker_pio, slot: register->RegisterWaker_slot },
    )
}

proof fn lemma_wakes_registered<PIO: PioInstance, M: Platform>(m: &mut M, slot: usize)
    requires
        slot < 12,
        call_ensures(interrupts::irq_0::<PIO, M>, (m,), ()),
    ensures
        wakes_registered(
            old(m).trace(),
            final(m).trace(),
            Event::RegisterWaker { pio: PIO::no(), slot },
        ) <==> final(m).trace()[old(m).trace().len() as int]->Read_value & (1u32 << (slot as u32))
            != 0,
{
    law_irq_0::<PIO, M>(m);
    let t = final(m).trace();
    let n = old(m).trace().len() as int;
    let ints = t[n]->Read_value;
    let wake = Event::Wake { pio: PIO::no(), slot };
    words::law_bit_is_a_shift(ints, slot as u32);
    let all = t.subrange(n, t.len() as int);
    if (ints >> (slot as u32)) & 1 == 1 {
        let inner = t.subrange(n + 1, t.len() - 1);
        assert(inner.contains(wake));
        let i = choose|i: int| 0 <= i < inner.len() && inner[i] == wake;
        assert(all[i + 1] == wake);
    }
    if all.contains(wake) {
        let i = choose|i: int| 0 <= i < all.len() && all[i] == wake;
        assert(t[n + i] == wake);
    }
}

/// A poll of `wait_push` that leaves the wait pending stores the waker in the slot with the number
/// of the one interrupt that it enables: a run of the handler wakes exactly what this poll stored,
/// if and only if it finds this interrupt pending.
pub proof fn law_pending_push_is_woken<
    'a,
    PIO: PioInstance,
    S: PioStateMachine,
    M: Platform,
    N: Platform,
>(f: &mut FifoOutFuture<'a, PIO, S>, m: &mut M, h: &mut N)
    requires
        call_ensures(FifoOutFuture::<'a, PIO, S>::poll::<M>, (f, m), Poll::Pending),
        call_ensures(interrupts::irq_0::<PIO, N>, (h,), ()),
    ensures
        ({
            let n = old(m).trace().len() as int;
            let register = final(m).trace()[n + 1];
            let enable = final(m).trace()[n + 2];
            let ints = final(h).trace()[old(h).trace().len() as int]->Read_value;
            &&& final(m).trace().len() == n + 3
            &&& register == Event::RegisterWaker {
                pio: PIO::no(),
                slot: (4 + S::index()) as usize,
            }
            &&& enable is Write
            &&& enable->Write_value == 1u32 << (register->RegisterWaker_slot as u32)
            &&& wakes_registered(old(h).trace(), final(h).trace(), register) <==> ints
                & enable->Write_value != 0
        }),
{
    S::lemma_sm();
    law_poll_push(f, m, Poll::Pending);
    lemma_wakes_registered::<PIO, N>(h, (4 + S::index()) as usize);
}

/// The same of `wait_pull`.
pub proof fn law_pending_pull_is_woken<
    'a,
    PIO: PioInstance,
    S: PioStateMachine,
    M: Platform,
    N: Platform,
>(f: &mut FifoInFuture<'a, PIO, S>, m: &mut M, h: &mut N)
    requires
        call_ensures(FifoInFuture::<'a, PIO, S>::poll::<M>, (f, m), Poll::Pending),
        call_ensures(interrupts::irq_0::<PIO, N>, (h,), ()),
    ensures
        ({
            let n = old(m).trace().len() as int;
            let register = final(m).trace()[n + 1];
            let enable = final(m).trace()[n + 2];
            let ints = final(h).trace()[old(h).trace().len() as int]->Read_value;
            &&& final(m).trace().len() == n + 3
            &&& register == Event::RegisterWaker { pio: PIO::no(), slot: S::index() }
            &&& enable is Write
            &&& enable->Write_value == 1u32 << (register->RegisterWaker_slot as u32)
            &&& wakes_registered(old(h).trace(), final(h).trace(), register) <==> ints
                & enable->Write_value != 0
        }),
{
    S::lemma_sm();
    law_poll_pull(f, m, Poll::Pending);
    lemma_wakes_registered::<PIO, N>(h, S::index());
}

/// The same of `wait_irq`.
pub proof fn law_pending_irq_is_woken<PIO: PioInstance, M: Platform, N: Platform>(
    f: &mut IrqFuture<PIO>,
    m: &mut M,
    h: &mut N,
)
    requires
        old(f).irq_no() < 32,
        call_ensures(IrqFuture::<PIO>::poll::<M>, (f, m), Some(Poll::Pending)),
        call_ensures(interrupts::irq_0::<PIO, N>, (h,), ()),
    ensures
        ({
            let n = old(m).trace().len() as int;
            let register = final(m).trace()[n + 3];
            let enable = final(m).trace()[n + 4];
            let ints = final(h).trace()[old(h).trace().len() as int]->Read_value;
            &&& final(m).trace().len() == n + 5
            &&& old(f).irq_no() < 4
            &&& register == Event::RegisterWaker {
                pio: PIO::no(),
                slot: (8 + old(f).irq_no()) as usize,
            }
            &&& enable is Write
            &&& enable->Write_value == 1u32 << (register->RegisterWaker_slot as u32)
            &&& wakes_registered(old(h).trace(), final(h).trace(), register) <==> ints
                & enable->Write_value != 0
        }),
{
    law_poll_irq(f, m, Some(Poll::Pending));
    lemma_wakes_registered::<PIO, N>(h, (8 + old(f).irq_no()) as usize);
}

/// `init` masks line 0 of each block, gives it the lowest of the four priorities, disables all its
/// interrupts and unmasks it, block 0 first.
pub proof fn law_init<M: Platform>(m: &mut M)
    requires
        call_ensures(interrupts::init::<M>, (m,), ()),
    ensures
        final(m).trace() == old(m).trace() + seq![
            Event::DisableInterrupt { pio: 0 },
            Event::SetInterruptPriority { pio: 0, priority: 3 },
            Event::Write { addr: 0x5020_012c, value: 0 },
            Event::EnableInterrupt { pio: 0 },
            Event::DisableInterrupt { pio: 1 },
            Event::SetInterruptPriority { pio: 1, priority: 3 },
            Event::Write { addr: 0x5030_012c, value: 0 },
            Event::EnableInterrupt { pio: 1 },
        ],
{
}

} // verus!
