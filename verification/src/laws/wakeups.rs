//! A task that waits is woken by what it waits for.

use crate::bits;
use crate::futures;
use crate::instance::{PioInstance, PIO0, PIO1};
use crate::interrupts;
use crate::laws::read_back;
use crate::memmap;
use crate::platform::Event;
use crate::sealed::{PioInstance as _, PioStateMachine as _};
use crate::simulated;
use crate::sm::PioStateMachine;
use vstd::prelude::*;

verus! {

/// The interrupt handler wakes a slot exactly if the interrupt with the slot's number is pending.
pub proof fn law_handler_wakes_pending_slots(
    before: Seq<Event>,
    pio: u8,
    ints: u32,
    n: nat,
    slot: usize,
)
    requires
        n <= interrupts::WAKERS,
    ensures
        interrupts::woken(before, pio, ints, n).len() >= before.len(),
        interrupts::woken(before, pio, ints, n).take(before.len() as int) == before,
        interrupts::woken(before, pio, ints, n).skip(before.len() as int).contains(
            Event::Wake { pio, slot },
        ) <==> slot < n && bits::bit(ints, slot as u32),
    decreases n,
{
    let all = interrupts::woken(before, pio, ints, n);
    if n == 0 {
        assert(all.take(before.len() as int) =~= before);
    } else {
        law_handler_wakes_pending_slots(before, pio, ints, (n - 1) as nat, slot);
        let rest = interrupts::woken(before, pio, ints, (n - 1) as nat);
        let wake = Event::Wake { pio, slot };
        let tail = rest.skip(before.len() as int);
        if bits::bit(ints, (n - 1) as u32) {
            let last = Event::Wake { pio, slot: (n - 1) as usize };
            assert(all.take(before.len() as int) =~= rest.take(before.len() as int));
            assert(all.skip(before.len() as int) =~= tail.push(last));
            if tail.contains(wake) {
                let i = choose|i: int| 0 <= i < tail.len() && tail[i] == wake;
                assert(tail.push(last)[i] == wake);
            }
            if slot == n - 1 {
                assert(tail.push(last)[tail.len() as int] == wake);
            }
            if tail.push(last).contains(wake) && slot != n - 1 {
                let i = choose|i: int| 0 <= i < tail.push(last).len() && tail.push(last)[i] == wake;
                assert(tail[i] == wake);
            }
        }
    }
}

/// A task that waits is woken by the interrupt it enabled: the slot in which its waker is stored
/// has the number of the one interrupt bit that arming sets. This holds of a wait for a TX FIFO,
/// for an RX FIFO and for each flag that can wake a task.
pub proof fn law_armed_interrupt_wakes_the_task<S: PioStateMachine>(irq_no: u8, j: u32)
    requires
        irq_no < 4,
        j < 32,
    ensures
        bits::bit(futures::TXNFULL_MASK << S::index(), j) <==> j == interrupts::FIFO_OUT
            + S::index(),
        bits::bit(futures::RXNEMPTY_MASK << S::index(), j) <==> j == interrupts::FIFO_IN
            + S::index(),
        bits::bit(futures::SMIRQ_MASK << irq_no, j) <==> j == interrupts::IRQ_FLAG + irq_no,
        interrupts::FIFO_OUT + S::index() < interrupts::IRQ_FLAG,
        interrupts::FIFO_IN + S::index() < interrupts::FIFO_OUT,
        interrupts::IRQ_FLAG + irq_no < interrupts::WAKERS,
{
    S::lemma_sm();
    let n = S::index() as u32;
    assert((0x10u32 << n) & (1u32 << j) != 0 <==> j == 4 + n) by (bit_vector)
        requires
            n < 4,
            j < 32,
    ;
    assert((0x1u32 << n) & (1u32 << j) != 0 <==> j == n) by (bit_vector)
        requires
            n < 4,
            j < 32,
    ;
    assert((0x100u32 << irq_no) & (1u32 << j) != 0 <==> j == 8 + irq_no) by (bit_vector)
        requires
            irq_no < 4,
            j < 32,
    ;
}

/// Arming sets the interrupt enable bits in `mask` and disarming clears them; neither touches
/// another bit, so waits do not disturb each other.
pub proof fn law_waits_do_not_disturb_each_other<PIO: PioInstance>(
    start: u32,
    t0: Seq<Event>,
    slot: usize,
    mask: u32,
    t1: Seq<Event>,
    t2: Seq<Event>,
    j: u32,
)
    requires
        j < 32,
        futures::disarmed::<PIO>(t1, t2, mask),
    ensures
        bits::bit(
            simulated::word_after(
                start,
                futures::armed::<PIO>(t0, slot, mask),
                memmap::pio_reg(PIO::no(), memmap::IRQ0_INTE),
            ),
            j,
        ) == (bits::bit(mask, j) || bits::bit(
            simulated::word_after(start, t0, memmap::pio_reg(PIO::no(), memmap::IRQ0_INTE)),
            j,
        )),
        bits::bit(
            simulated::word_after(start, t2, memmap::pio_reg(PIO::no(), memmap::IRQ0_INTE)),
            j,
        ) == (
        !bits::bit(mask, j) && bits::bit(
            simulated::word_after(start, t1, memmap::pio_reg(PIO::no(), memmap::IRQ0_INTE)),
            j,
        )),
{
    PIO::lemma_block();
    let addr = memmap::pio_reg(PIO::no(), memmap::IRQ0_INTE);
    let t = futures::armed::<PIO>(t0, slot, mask);
    assert(t.drop_last().drop_last() =~= t0);
    assert(t.drop_last().last() == Event::RegisterWaker { pio: PIO::no(), slot });
    assert(t2.drop_last() =~= t1);
    let w0 = simulated::word_after(start, t0, addr);
    let w1 = simulated::word_after(start, t1, addr);
    assert(simulated::word_after(start, t.drop_last(), addr) == w0);
    assert(simulated::word_after(start, t, addr) == w0 | mask);
    assert(simulated::word_after(start, t2, addr) == w1 & !mask);
    assert((w0 | mask) & (1u32 << j) != 0 <==> mask & (1u32 << j) != 0 || w0 & (1u32 << j) != 0)
        by (bit_vector);
    assert((w1 & !mask) & (1u32 << j) != 0 <==> mask & (1u32 << j) == 0 && w1 & (1u32 << j) != 0)
        by (bit_vector)
        requires
            j < 32,
    ;
}

/// The handler wakes the task that waits for a FIFO or a flag exactly if the interrupt that this
/// task enabled is pending. `tail` is what the handler adds to `before`.
pub proof fn law_pending_interrupt_wakes_its_task<S: PioStateMachine>(
    before: Seq<Event>,
    ints: u32,
    irq_no: u8,
    tail: Seq<Event>,
)
    requires
        irq_no < 4,
        tail == interrupts::woken(
            before,
            S::Pio::no(),
            ints,
            interrupts::WAKERS as nat,
        ).skip(before.len() as int),
    ensures
        tail.contains(
            Event::Wake {
                pio: S::Pio::no(),
                slot: (interrupts::FIFO_OUT + S::index()) as usize,
            },
        ) <==> ints & (futures::TXNFULL_MASK << S::index()) != 0,
        tail.contains(
            Event::Wake { pio: S::Pio::no(), slot: (interrupts::FIFO_IN + S::index()) as usize },
        ) <==> ints & (futures::RXNEMPTY_MASK << S::index()) != 0,
        tail.contains(
            Event::Wake { pio: S::Pio::no(), slot: (interrupts::IRQ_FLAG + irq_no) as usize },
        ) <==> ints & (futures::SMIRQ_MASK << irq_no) != 0,
{
    S::lemma_sm();
    let pio = S::Pio::no();
    let all = interrupts::WAKERS as nat;
    let n = S::index() as u32;
    law_handler_wakes_pending_slots(
        before,
        pio,
        ints,
        all,
        (interrupts::FIFO_OUT + S::index()) as usize,
    );
    law_handler_wakes_pending_slots(
        before,
        pio,
        ints,
        all,
        (interrupts::FIFO_IN + S::index()) as usize,
    );
    law_handler_wakes_pending_slots(
        before,
        pio,
        ints,
        all,
        (interrupts::IRQ_FLAG + irq_no) as usize,
    );
    let out = (4 + n) as u32;
    let flag = (8 + irq_no) as u32;
    assert(0x10u32 << n == 1u32 << out) by (bit_vector)
        requires
            n < 4,
            out == 4 + n,
    ;
    assert(0x100u32 << irq_no == 1u32 << flag) by (bit_vector)
        requires
            irq_no < 4,
            flag == 8 + irq_no,
    ;
}

/// Waking tasks stores nothing.
proof fn lemma_woken_stores_nothing(before: Seq<Event>, pio: u8, ints: u32, n: nat, addr: u32)
    ensures
        read_back::untouched(before, interrupts::woken(before, pio, ints, n), addr),
    decreases n,
{
    let all = interrupts::woken(before, pio, ints, n);
    if n == 0 {
        assert(all.take(before.len() as int) =~= before);
    } else {
        lemma_woken_stores_nothing(before, pio, ints, (n - 1) as nat, addr);
        let rest = interrupts::woken(before, pio, ints, (n - 1) as nat);
        assert(all.take(before.len() as int) =~= rest.take(before.len() as int));
        assert forall|i: int| before.len() <= i < all.len() implies !simulated::reaches(
            #[trigger] all[i],
            addr,
        ) by {
            if i < rest.len() {
                assert(all[i] == rest[i]);
            }
        }
    }
}

/// The handler disables the interrupts that it found pending, and no other, so it is not called
/// again for them until a task waits anew. From `t0`, it found `ints` pending and ended at `t1`.
pub proof fn law_handler_disables_what_it_served<PIO: PioInstance>(
    start: u32,
    t0: Seq<Event>,
    t1: Seq<Event>,
    ints: u32,
)
    requires
        t1 == interrupts::woken(
            t0.push(
                Event::Read { addr: memmap::pio_reg(PIO::no(), memmap::IRQ0_INTS), value: ints },
            ),
            PIO::no(),
            ints,
            interrupts::WAKERS as nat,
        ).push(
            Event::Write {
                addr: memmap::clear_alias(memmap::pio_reg(PIO::no(), memmap::IRQ0_INTE)),
                value: ints,
            },
        ),
    ensures
        simulated::word_after(start, t1, memmap::pio_reg(PIO::no(), memmap::IRQ0_INTE))
            == simulated::word_after(start, t0, memmap::pio_reg(PIO::no(), memmap::IRQ0_INTE))
            & !ints,
{
    PIO::lemma_block();
    let addr = memmap::pio_reg(PIO::no(), memmap::IRQ0_INTE);
    let looked = t0.push(
        Event::Read { addr: memmap::pio_reg(PIO::no(), memmap::IRQ0_INTS), value: ints },
    );
    assert(looked.drop_last() =~= t0);
    assert(simulated::word_after(start, looked, addr) == simulated::word_after(start, t0, addr));
    lemma_woken_stores_nothing(looked, PIO::no(), ints, interrupts::WAKERS as nat, addr);
    let awake = interrupts::woken(looked, PIO::no(), ints, interrupts::WAKERS as nat);
    read_back::law_untouched_register_keeps_its_word(start, looked, awake, addr);
    assert(t1.drop_last() =~= awake);
}

/// After `init`, no interrupt of line 0 is enabled in either block.
pub proof fn law_init_disables_all(start: u32, t0: Seq<Event>)
    ensures
        simulated::word_after(
            start,
            interrupts::made_ready::<PIO1>(interrupts::made_ready::<PIO0>(t0)),
            memmap::pio_reg(0, memmap::IRQ0_INTE),
        ) == 0,
        simulated::word_after(
            start,
            interrupts::made_ready::<PIO1>(interrupts::made_ready::<PIO0>(t0)),
            memmap::pio_reg(1, memmap::IRQ0_INTE),
        ) == 0,
{
    let t1 = interrupts::made_ready::<PIO0>(t0);
    let t2 = interrupts::made_ready::<PIO1>(t1);
    lemma_made_ready::<PIO0>(start, t0, memmap::pio_reg(0, memmap::IRQ0_INTE));
    lemma_made_ready::<PIO1>(start, t1, memmap::pio_reg(0, memmap::IRQ0_INTE));
    lemma_made_ready::<PIO1>(start, t1, memmap::pio_reg(1, memmap::IRQ0_INTE));
}

/// Making a block ready leaves zero in its interrupt enable register, and every other register as
/// it was.
proof fn lemma_made_ready<PIO: PioInstance>(start: u32, t0: Seq<Event>, addr: u32)
    ensures
        simulated::word_after(start, interrupts::made_ready::<PIO>(t0), addr) == if addr
            == memmap::pio_reg(PIO::no(), memmap::IRQ0_INTE) {
            0
        } else {
            simulated::word_after(start, t0, addr)
        },
{
    PIO::lemma_block();
    let t4 = interrupts::made_ready::<PIO>(t0);
    let t3 = t4.drop_last();
    let t2 = t3.drop_last();
    let t1 = t2.drop_last();
    assert(t1.drop_last() =~= t0);
    assert(simulated::word_after(start, t1, addr) == simulated::word_after(start, t0, addr));
    assert(simulated::word_after(start, t2, addr) == simulated::word_after(start, t1, addr));
    assert(t3.last() == Event::Write {
        addr: memmap::pio_reg(PIO::no(), memmap::IRQ0_INTE),
        value: 0,
    });
    assert(simulated::word_after(start, t4, addr) == simulated::word_after(start, t3, addr));
}

} // verus!
