//! What the calls on the shared part of a block do.

use crate::bits;
use crate::common;
use crate::common::{Pio, PioCommon, PioInstanceMemory};
use crate::instance::PioInstance;
use crate::laws::words;
use crate::pin::PioPin;
use crate::platform::{Event, Platform};
use crate::sealed::PioInstance as _;
use crate::simulated;
use vstd::prelude::*;
use vstd::std_specs::iter::IteratorSpec;

verus! {

/// In a new block no slot of instruction memory is in use.
pub proof fn law_new<'d, PIO: PioInstance>(pio: PIO, r: Pio<'d, PIO>, slot: int)
    requires
        call_ensures(Pio::<'d, PIO>::new, (pio,), r),
    ensures
        !r.common.used().contains(slot),
{
}

/// `write_instr` stores instruction `i` of the program, all of it, in slot `start % 256 + i`, in
/// order and nothing else, and takes exactly these slots into use.
pub proof fn law_write_instr<'d, PIO: PioInstance, M: Platform, I: Iterator<Item = u16>>(
    c: &mut PioCommon<'d, PIO>,
    m: &mut M,
    start: usize,
    instrs: I,
    memory: PioInstanceMemory<'d, PIO>,
)
    requires
        call_ensures(PioCommon::<'d, PIO>::write_instr::<M, I>, (c, m, start, instrs), memory),
        instrs.remaining().len() > 0 ==> start % 256 + instrs.remaining().len() <= 32,
    ensures
        final(m).trace().len() == old(m).trace().len() + instrs.remaining().len(),
        final(m).trace().take(old(m).trace().len() as int) == old(m).trace(),
        forall|i: int|
            0 <= i < instrs.remaining().len()
                ==> (#[trigger] final(m).trace()[old(m).trace().len() + i]) is Write
                && final(m).trace()[old(m).trace().len() + i]->Write_addr == (0x5020_0048
                + 0x10_0000 * PIO::no() + 4 * (start % 256 + i)) as u32
                && final(m).trace()[old(m).trace().len() + i]->Write_value
                == instrs.remaining()[i],
        forall|slot: int| #[trigger]
            memory.used().contains(slot) <==> start % 256 <= slot < start % 256
                + instrs.remaining().len(),
        forall|slot: int| #[trigger]
            final(c).used().contains(slot) <==> old(c).used().contains(slot) || start % 256 <= slot
                < start % 256 + instrs.remaining().len(),
{
    PIO::lemma_block();
    let n = old(m).trace().len() as int;
    let stores = common::instr_writes(PIO::no(), (start % 256) as int, instrs.remaining());
    assert(final(m).trace() == old(m).trace() + stores);
    assert(final(m).trace().take(n) =~= old(m).trace());
    assert forall|i: int| 0 <= i < instrs.remaining().len() implies (
    #[trigger] final(m).trace()[n + i]) == stores[i] by {}
}

/// The first `len` stores of a program leave instruction `i` in slot `first + i` for `i < len`, and
/// every other slot as it was.
proof fn lemma_program_in_memory(
    word: u32,
    t0: Seq<Event>,
    t1: Seq<Event>,
    pio: u8,
    first: int,
    instrs: Seq<u16>,
    len: int,
    slot: int,
)
    requires
        pio < 2,
        0 <= len <= instrs.len(),
        0 <= first,
        instrs.len() > 0 ==> first + instrs.len() <= 32,
        0 <= slot < 32,
        t1.len() == t0.len() + instrs.len(),
        t1.take(t0.len() as int) == t0,
        forall|i: int|
            0 <= i < instrs.len() ==> (#[trigger] t1[t0.len() + i]) == (Event::Write {
                addr: (0x5020_0048 + 0x10_0000 * pio + 4 * (first + i)) as u32,
                value: instrs[i] as u32,
            }),
    ensures
        simulated::word_after(
            word,
            t1.take(t0.len() + len),
            (0x5020_0048 + 0x10_0000 * pio + 4 * slot) as u32,
        ) == if first <= slot < first + len {
            instrs[slot - first] as u32
        } else {
            simulated::word_after(
                word,
                t0,
                (0x5020_0048 + 0x10_0000 * pio + 4 * slot) as u32,
            )
        },
    decreases len,
{
    let addr = (0x5020_0048 + 0x10_0000 * pio + 4 * slot) as u32;
    if len > 0 {
        lemma_program_in_memory(word, t0, t1, pio, first, instrs, len - 1, slot);
        let now = t1.take(t0.len() + len);
        let i = len - 1;
        assert(now.drop_last() =~= t1.take(t0.len() + i));
        assert(now.last() == t1[t0.len() + i]);
        let target = (0x5020_0048 + 0x10_0000 * pio + 4 * (first + i)) as u32;
        assert(simulated::alias_of(target) == 0 && simulated::register_of(target) == target);
        assert(target == addr <==> slot == first + i);
        assert(!simulated::clears_on_one(addr));
        assert(!simulated::forces(target, addr));
    }
}

/// After a program is written on a machine whose registers keep what is stored, slot `start % 256 +
/// i` of instruction memory holds instruction `i`, all 16 bits of it, and every slot that the
/// program does not use holds what it held.
pub proof fn law_program_is_in_memory<
    'd,
    PIO: PioInstance,
    M: Platform,
    I: Iterator<Item = u16>,
>(
    word: u32,
    c: &mut PioCommon<'d, PIO>,
    m: &mut M,
    start: usize,
    instrs: I,
    memory: PioInstanceMemory<'d, PIO>,
    slot: int,
)
    requires
        call_ensures(PioCommon::<'d, PIO>::write_instr::<M, I>, (c, m, start, instrs), memory),
        instrs.remaining().len() > 0 ==> start % 256 + instrs.remaining().len() <= 32,
        0 <= slot < 32,
    ensures
        simulated::word_after(
            word,
            final(m).trace(),
            (0x5020_0048 + 0x10_0000 * PIO::no() + 4 * slot) as u32,
        ) == if start % 256 <= slot < start % 256 + instrs.remaining().len() {
            instrs.remaining()[slot - start % 256] as u32
        } else {
            simulated::word_after(
                word,
                old(m).trace(),
                (0x5020_0048 + 0x10_0000 * PIO::no() + 4 * slot) as u32,
            )
        },
{
    PIO::lemma_block();
    law_write_instr(c, m, start, instrs, memory);
    let len = instrs.remaining().len() as int;
    assert(final(m).trace().take(old(m).trace().len() + len) =~= final(m).trace());
    lemma_program_in_memory(
        word,
        old(m).trace(),
        final(m).trace(),
        PIO::no(),
        (start % 256) as int,
        instrs.remaining(),
        len,
        slot,
    );
}

/// `free_instr` takes the slots of the piece out of use, and no other.
pub proof fn law_free_instr<'d, 'e, PIO: PioInstance>(
    c: &mut PioCommon<'d, PIO>,
    instrs: PioInstanceMemory<'e, PIO>,
    slot: int,
)
    requires
        call_ensures(PioCommon::<'d, PIO>::free_instr, (c, instrs), ()),
    ensures
        final(c).used().contains(slot) <==> old(c).used().contains(slot)
            && !instrs.used().contains(slot),
{
}

/// `blocked_at` finds nothing exactly if the `len` addresses from `start % 256` on are all below 32
/// and free, and otherwise finds the first that is not.
pub proof fn law_blocked_at<'d, PIO: PioInstance>(
    c: &PioCommon<'d, PIO>,
    start: usize,
    len: usize,
    blocked: Option<u8>,
)
    requires
        call_ensures(PioCommon::<'d, PIO>::blocked_at, (c, start, len), blocked),
    ensures
        blocked is None <==> (len > 0 ==> start % 256 + len <= 32) && (forall|addr: int|
            start % 256 <= addr < start % 256 + len ==> !(#[trigger] c.used().contains(addr))),
        blocked matches Some(found) ==> {
            &&& start % 256 <= found < start % 256 + len
            &&& found >= 32 || c.used().contains(found as int)
            &&& found > start % 256 ==> found <= 32
            &&& forall|addr: int|
                start % 256 <= addr < found ==> !(#[trigger] c.used().contains(addr))
        },
{
    let first = (start % 256) as int;
    if blocked is None {
        assert forall|addr: int| first <= addr < first + len implies !(
        #[trigger] c.used().contains(addr)) by {
            assert(c.free_slot(first + (addr - first)));
        }
        if len > 0 {
            assert(c.free_slot(first + (len - 1)));
        }
    } else {
        let found = blocked->0;
        assert(!c.free_slot(found as int));
        assert(c.accepts(start, found - start % 256));
        assert forall|addr: int| first <= addr < found implies !(
        #[trigger] c.used().contains(addr)) by {
            assert(c.free_slot(first + (addr - first)));
        }
        if found > first {
            assert(c.free_slot(first + (found - 1 - first)));
        }
        let in_use = c.used().contains(found as int);
        assert(found >= 32 || in_use);
    }
}

/// A program is taken wherever its slots are all below 32 and free.
pub proof fn law_program_that_fits_is_taken<
    'd,
    PIO: PioInstance,
    M: Platform,
    I: Iterator<Item = u16>,
>(c: &mut PioCommon<'d, PIO>, m: &mut M, start: usize, instrs: I)
    requires
        instrs.obeys_prophetic_iter_laws(),
        instrs.remaining().len() > 0 ==> start % 256 + instrs.remaining().len() <= 32,
        forall|addr: int|
            start % 256 <= addr < start % 256 + instrs.remaining().len() ==> !(
            #[trigger] old(c).used().contains(addr)),
    ensures
        call_requires(PioCommon::<'d, PIO>::write_instr::<M, I>, (c, m, start, instrs)),
{
    let first = (start % 256) as int;
    assert forall|i: int| 0 <= i < instrs.remaining().len() implies #[trigger] c.free_slot(
        first + i,
    ) by {
        assert(!old(c).used().contains(first + i));
    }
}

/// `is_irq_set` returns the bit of the flag in the word of the IRQ flags.
pub proof fn law_is_irq_set<'d, PIO: PioInstance, M: Platform>(
    c: &PioCommon<'d, PIO>,
    m: &mut M,
    irq_no: u8,
    set: bool,
)
    requires
        irq_no < 8,
        call_ensures(PioCommon::<'d, PIO>::is_irq_set::<M>, (c, m, irq_no), set),
    ensures
        ({
            let addr = (0x5020_0030 + 0x10_0000 * PIO::no()) as u32;
            let word = final(m).trace().last()->Read_value;
            &&& final(m).trace() == old(m).trace().push(Event::Read { addr, value: word })
            &&& set == ((word >> (irq_no as u32)) & 1 == 1)
        }),
{
    PIO::lemma_block();
    words::law_bit_is_a_shift(final(m).trace().last()->Read_value, irq_no as u32);
}

/// `clear_irq` stores a one to its own flag alone, at the IRQ flags.
pub proof fn law_clear_irq<'d, PIO: PioInstance, M: Platform>(
    c: &mut PioCommon<'d, PIO>,
    m: &mut M,
    irq_no: usize,
    slot: int,
)
    requires
        irq_no < 8,
        call_ensures(PioCommon::<'d, PIO>::clear_irq::<M>, (c, m, irq_no), ()),
    ensures
        ({
            let addr = (0x5020_0030 + 0x10_0000 * PIO::no()) as u32;
            final(m).trace() == old(m).trace().push(Event::Write { addr, value: 1u32 << irq_no })
        }),
        final(c).used().contains(slot) == old(c).used().contains(slot),
{
    PIO::lemma_block();
}

/// `clear_irqs` stores its mask, as it is, at the IRQ flags.
pub proof fn law_clear_irqs<'d, PIO: PioInstance, M: Platform>(
    c: &mut PioCommon<'d, PIO>,
    m: &mut M,
    mask: u8,
    slot: int,
)
    requires
        call_ensures(PioCommon::<'d, PIO>::clear_irqs::<M>, (c, m, mask), ()),
    ensures
        ({
            let addr = (0x5020_0030 + 0x10_0000 * PIO::no()) as u32;
            let value = final(m).trace().last()->Write_value;
            &&& final(m).trace() == old(m).trace().push(Event::Write { addr, value })
            &&& value == mask
        }),
        final(c).used().contains(slot) == old(c).used().contains(slot),
{
    PIO::lemma_block();
}

/// `force_irq` stores a one to its own flag alone, where a one raises the flag.
pub proof fn law_force_irq<'d, PIO: PioInstance, M: Platform>(
    c: &mut PioCommon<'d, PIO>,
    m: &mut M,
    irq_no: usize,
    slot: int,
)
    requires
        irq_no < 8,
        call_ensures(PioCommon::<'d, PIO>::force_irq::<M>, (c, m, irq_no), ()),
    ensures
        ({
            let addr = (0x5020_0034 + 0x10_0000 * PIO::no()) as u32;
            final(m).trace() == old(m).trace().push(Event::Write { addr, value: 1u32 << irq_no })
        }),
        final(c).used().contains(slot) == old(c).used().contains(slot),
{
    PIO::lemma_block();
}

/// `set_input_sync_bypass` sets the bits of the bypass register that are ones in both `mask` and
/// `bypass`, then clears those that are ones in `mask` and zeros in `bypass`.
pub proof fn law_set_input_sync_bypass<'d, PIO: PioInstance, M: Platform>(
    c: &mut PioCommon<'d, PIO>,
    m: &mut M,
    bypass: u32,
    mask: u32,
    j: u32,
    slot: int,
)
    requires
        j < 32,
        call_ensures(PioCommon::<'d, PIO>::set_input_sync_bypass::<M>, (c, m, bypass, mask), ()),
    ensures
        ({
            let n = old(m).trace().len() as int;
            let ones = final(m).trace()[n]->Write_value;
            let zeros = final(m).trace()[n + 1]->Write_value;
            let set = (0x5020_2038 + 0x10_0000 * PIO::no()) as u32;
            let clear = (0x5020_3038 + 0x10_0000 * PIO::no()) as u32;
            &&& final(m).trace() == old(m).trace().push(
                Event::Write { addr: set, value: ones },
            ).push(Event::Write { addr: clear, value: zeros })
            &&& (ones >> j) & 1 == 1 <==> (mask >> j) & 1 == 1 && (bypass >> j) & 1 == 1
            &&& (zeros >> j) & 1 == 1 <==> (mask >> j) & 1 == 1 && (bypass >> j) & 1 == 0
        }),
        final(c).used().contains(slot) == old(c).used().contains(slot),
{
    PIO::lemma_block();
    assert(((mask & bypass) >> j) & 1 == 1 <==> (mask >> j) & 1 == 1 && (bypass >> j) & 1 == 1)
        by (bit_vector);
    assert(((mask & !bypass) >> j) & 1 == 1 <==> (mask >> j) & 1 == 1 && (bypass >> j) & 1 == 0)
        by (bit_vector)
        requires
            j < 32,
    ;
}

/// `get_input_sync_bypass` returns the word of the bypass register as it is.
pub proof fn law_get_input_sync_bypass<'d, PIO: PioInstance, M: Platform>(
    c: &PioCommon<'d, PIO>,
    m: &mut M,
    bypass: u32,
)
    requires
        call_ensures(PioCommon::<'d, PIO>::get_input_sync_bypass::<M>, (c, m), bypass),
    ensures
        ({
            let addr = (0x5020_0038 + 0x10_0000 * PIO::no()) as u32;
            final(m).trace() == old(m).trace().push(Event::Read { addr, value: bypass })
        }),
{
    PIO::lemma_block();
}

/// `make_pio_pin` stores the function code of the block, 6 or 7, in the function select register of
/// the pin asked for, and returns that pin.
pub proof fn law_make_pio_pin<'d, PIO: PioInstance, M: Platform>(
    c: &PioCommon<'d, PIO>,
    m: &mut M,
    pin_bank: u8,
    pin: PioPin<PIO>,
)
    requires
        pin_bank % 32 < 30,
        call_ensures(PioCommon::<'d, PIO>::make_pio_pin::<M>, (c, m, pin_bank), pin),
    ensures
        ({
            let bank = if (pin_bank / 32) % 2 == 0 {
                0x4001_4004int
            } else {
                0x4001_8004
            };
            let addr = (bank + 8 * (pin_bank % 32)) as u32;
            let value = (6 + PIO::no()) as u32;
            final(m).trace() == old(m).trace().push(Event::Write { addr, value })
        }),
        pin.bank() == pin_bank,
{
    PIO::lemma_block();
}

/// The calls that take a flag number or a pin number take all that there are.
pub proof fn law_shared_calls_are_taken<'d, PIO: PioInstance, M: Platform>(
    c: &mut PioCommon<'d, PIO>,
    d: &PioCommon<'d, PIO>,
    m: &mut M,
    irq_no: usize,
    pin_bank: u8,
)
    requires
        irq_no < 8,
        pin_bank % 32 < 30,
    ensures
        call_requires(PioCommon::<'d, PIO>::is_irq_set::<M>, (d, m, irq_no as u8)),
        call_requires(PioCommon::<'d, PIO>::clear_irq::<M>, (c, m, irq_no)),
        call_requires(PioCommon::<'d, PIO>::force_irq::<M>, (c, m, irq_no)),
        call_requires(PioCommon::<'d, PIO>::make_pio_pin::<M>, (d, m, pin_bank)),
{
}

} // verus!
