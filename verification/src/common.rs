//! What the state machines of a PIO block share: instruction memory, IRQ flags, input
//! synchronizers, pins.

use crate::bits;
use crate::instance::PioInstance;
use crate::memmap;
use crate::pin::PioPin;
use crate::platform;
use crate::platform::{Event, Platform};
use crate::sm::PioStateMachineInstance;
use core::marker::PhantomData;
use vstd::prelude::*;
use vstd::std_specs::iter::IteratorSpec;

verus! {

/// The instruction memory slots that a mask stands for.
pub open spec fn slots(mask: u32) -> Set<int> {
    Set::new(|i: int| 0 <= i < 32 && bits::bit(mask, i as u32))
}

/// The `len` slots from `first` on.
pub open spec fn span(first: int, len: int) -> Set<int> {
    Set::new(|i: int| first <= i < first + len)
}

/// The stores that put `instrs` into instruction memory from slot `first` on.
pub open spec fn instr_writes(pio: u8, first: int, instrs: Seq<u16>) -> Seq<Event> {
    Seq::new(
        instrs.len(),
        |i: int|
            Event::Write {
                addr: memmap::pio_reg(pio, (memmap::INSTR_MEM + 4 * (first + i)) as u32),
                value: instrs[i] as u32,
            },
    )
}

proof fn lemma_no_slots()
    ensures
        slots(0) =~= Set::empty(),
{
    assert forall|i: int| !(#[trigger] slots(0).contains(i)) by {
        let n = i as u32;
        assert(0u32 & (1u32 << n) == 0) by (bit_vector);
    }
}

proof fn lemma_add_slot(mask: u32, slot: u32)
    requires
        slot < 32,
    ensures
        slots(mask | (1u32 << slot)) =~= slots(mask).insert(slot as int),
{
    assert forall|i: int| #[trigger]
        slots(mask | (1u32 << slot)).contains(i) == (slots(mask).contains(i) || i == slot) by {
        if 0 <= i < 32 {
            let n = i as u32;
            assert((mask | (1u32 << slot)) & (1u32 << n) != 0 <==> mask & (1u32 << n) != 0 || n
                == slot) by (bit_vector)
                requires
                    n < 32,
                    slot < 32,
            ;
        }
    }
}

proof fn lemma_union_slots(a: u32, b: u32)
    ensures
        slots(a | b) =~= slots(a).union(slots(b)),
{
    assert forall|i: int| #[trigger]
        slots(a | b).contains(i) == (slots(a).contains(i) || slots(b).contains(i)) by {
        let n = i as u32;
        assert((a | b) & (1u32 << n) != 0 <==> a & (1u32 << n) != 0 || b & (1u32 << n) != 0)
            by (bit_vector);
    }
}

proof fn lemma_difference_slots(a: u32, b: u32)
    ensures
        slots(a & !b) =~= slots(a).difference(slots(b)),
{
    assert forall|i: int| #[trigger]
        slots(a & !b).contains(i) == (slots(a).contains(i) && !slots(b).contains(i)) by {
        let n = i as u32;
        assert(n < 32 ==> ((a & !b) & (1u32 << n) != 0 <==> a & (1u32 << n) != 0 && b & (1u32 << n)
            == 0)) by (bit_vector);
    }
}

/// The low byte of a sum, where the low byte of one summand leaves room for the other.
proof fn lemma_low_byte(start: usize, i: usize)
    requires
        start % 256 + i < 256,
    ensures
        start + i <= usize::MAX,
        (start + i) as usize as u8 == start % 256 + i,
{
    let sum = (start + i) as usize;
    assert(start - start % 256 + 255 <= usize::MAX) by {
        assert(start % 256 <= 255);
        assert(start / 256 <= usize::MAX / 256);
    }
    assert(sum as u8 == sum % 256) by (bit_vector);
}

/// The shared part of a PIO block.
pub struct PioCommon<'d, PIO: PioInstance> {
    instructions_used: u32,
    pio: PhantomData<&'d PIO>,
}

/// A piece of instruction memory in use.
pub struct PioInstanceMemory<'d, PIO: PioInstance> {
    used_mask: u32,
    pio: PhantomData<&'d PIO>,
}

impl<'d, PIO: PioInstance> PioInstanceMemory<'d, PIO> {
    /// The slots that this piece covers.
    pub closed spec fn used(&self) -> Set<int> {
        slots(self.used_mask)
    }
}

impl<'d, PIO: PioInstance> PioCommon<'d, PIO> {
    /// The slots in use.
    pub closed spec fn used(&self) -> Set<int> {
        slots(self.instructions_used)
    }

    /// Whether slot `i` exists and is free.
    pub open spec fn free_slot(&self, i: int) -> bool {
        0 <= i < 32 && !self.used().contains(i)
    }

    /// Whether `len` instructions can be written from `start` on. Addresses are taken modulo 256,
    /// so only the low byte of `start` counts.
    pub open spec fn accepts(&self, start: usize, len: int) -> bool {
        forall|i: int| 0 <= i < len ==> #[trigger] self.free_slot(start % 256 + i)
    }

    /// Writes a program into instruction memory, none of which may be in use yet.
    pub fn write_instr<M: Platform, I: Iterator<Item = u16>>(
        &mut self,
        m: &mut M,
        start: usize,
        instrs: I,
    ) -> (memory: PioInstanceMemory<'d, PIO>)
        requires
            instrs.obeys_prophetic_iter_laws(),
            old(self).accepts(start, instrs.remaining().len() as int),
        ensures
            memory.used() == span((start % 256) as int, instrs.remaining().len() as int),
            final(self).used() == old(self).used().union(memory.used()),
            final(m).trace() == old(m).trace() + instr_writes(
                PIO::no(),
                (start % 256) as int,
                instrs.remaining(),
            ),
    {
        let mut rest = instrs;
        let mut used_mask: u32 = 0;
        let mut i: usize = 0;
        let ghost first = (start % 256) as int;
        let ghost before = m.trace();
        proof {
            lemma_no_slots();
            PIO::lemma_block();
            assert(before + instr_writes(PIO::no(), first, instrs.remaining().take(0)) =~= before);
        }
        loop
            invariant
                rest.obeys_prophetic_iter_laws(),
                i <= instrs.remaining().len(),
                rest.remaining() =~= instrs.remaining().skip(i as int),
                first == start % 256,
                PIO::PIO == memmap::base(PIO::no()),
                *self == *old(self),
                self.accepts(start, instrs.remaining().len() as int),
                i > 0 ==> first + i <= 32,
                slots(used_mask) =~= span(first, i as int),
                m.trace() =~= before + instr_writes(
                    PIO::no(),
                    first,
                    instrs.remaining().take(i as int),
                ),
            ensures
                i == instrs.remaining().len(),
            decreases 32 - i,
        {
            match rest.next() {
                Some(instr) => {
                    proof {
                        assert(self.free_slot(first + i));
                        assert(instr == instrs.remaining()[i as int]);
                        lemma_low_byte(start, i);
                    }
                    let addr: u8 = (i + start) as u8;
                    let mask: u32 = 1u32 << addr;
                    m.write(PIO::PIO + memmap::INSTR_MEM + 4 * (addr as u32), instr as u32);
                    proof {
                        lemma_add_slot(used_mask, addr as u32);
                        assert(instrs.remaining().take(i + 1) =~= instrs.remaining().take(
                            i as int,
                        ).push(instr));
                    }
                    used_mask = used_mask | mask;
                    i = i + 1;
                },
                None => {
                    break;
                },
            }
        }
        proof {
            assert(instrs.remaining().take(i as int) =~= instrs.remaining());
            lemma_union_slots(self.instructions_used, used_mask);
        }
        self.instructions_used = self.instructions_used | used_mask;
        PioInstanceMemory { used_mask, pio: PhantomData }
    }

    /// Returns the first address that stands in the way of writing `len` instructions from `start`
    /// on: one past the end of instruction memory, or one in use.
    pub fn blocked_at(&self, start: usize, len: usize) -> (blocked: Option<u8>)
        ensures
            blocked is None <==> self.accepts(start, len as int),
            blocked matches Some(addr) ==> start % 256 <= addr < start % 256 + len
                && !self.free_slot(addr as int) && self.accepts(start, addr - start % 256),
    {
        let first: usize = start % 256;
        let mut i: usize = 0;
        while i < len
            invariant
                first == start % 256,
                i <= len,
                i > 0 ==> first + i <= 32,
                self.accepts(start, i as int),
            decreases len - i,
        {
            let slot: usize = first + i;
            if slot >= 32 || bits::test_bit(self.instructions_used, slot as u32) {
                assert(!self.free_slot(first + i));
                return Some(slot as u8);
            }
            assert(self.free_slot(first + i));
            i = i + 1;
        }
        None
    }

    /// Gives back instruction memory.
    pub fn free_instr(&mut self, instrs: PioInstanceMemory<'_, PIO>)
        ensures
            final(self).used() == old(self).used().difference(instrs.used()),
    {
        proof {
            lemma_difference_slots(self.instructions_used, instrs.used_mask);
        }
        self.instructions_used = self.instructions_used & !instrs.used_mask;
    }

    /// Returns whether a state machine IRQ flag is raised.
    pub fn is_irq_set<M: Platform>(&self, m: &mut M, irq_no: u8) -> (set: bool)
        requires
            irq_no < 8,
        ensures
            platform::loaded(
                old(m).trace(),
                final(m).trace(),
                memmap::pio_reg(PIO::no(), memmap::IRQ),
            ),
            set == bits::bit(platform::last_read(final(m).trace()), irq_no as u32),
    {
        proof {
            PIO::lemma_block();
        }
        let flags: u32 = m.read(PIO::PIO + memmap::IRQ);
        bits::test_bit(flags, irq_no as u32)
    }

    /// Clears a state machine IRQ flag.
    pub fn clear_irq<M: Platform>(&mut self, m: &mut M, irq_no: usize)
        requires
            irq_no < 8,
        ensures
            *final(self) == *old(self),
            platform::stored(
                old(m).trace(),
                final(m).trace(),
                memmap::pio_reg(PIO::no(), memmap::IRQ),
                1u32 << irq_no,
            ),
    {
        proof {
            PIO::lemma_block();
        }
        m.write(PIO::PIO + memmap::IRQ, 1u32 << irq_no);
    }

    /// Clears the state machine IRQ flags whose bits are set in `mask`.
    pub fn clear_irqs<M: Platform>(&mut self, m: &mut M, mask: u8)
        ensures
            *final(self) == *old(self),
            platform::stored(
                old(m).trace(),
                final(m).trace(),
                memmap::pio_reg(PIO::no(), memmap::IRQ),
                mask as u32,
            ),
    {
        proof {
            PIO::lemma_block();
        }
        m.write(PIO::PIO + memmap::IRQ, mask as u32);
    }

    /// Raises a state machine IRQ flag.
    pub fn force_irq<M: Platform>(&mut self, m: &mut M, irq_no: usize)
        requires
            irq_no < 8,
        ensures
            *final(self) == *old(self),
            platform::stored(
                old(m).trace(),
                final(m).trace(),
                memmap::pio_reg(PIO::no(), memmap::IRQ_FORCE),
                1u32 << irq_no,
            ),
    {
        proof {
            PIO::lemma_block();
        }
        m.write(PIO::PIO + memmap::IRQ_FORCE, 1u32 << irq_no);
    }

    /// Sets the input synchronizer bypass of the pins in `mask` to the bits of `bypass`, and
    /// touches no other pin's. The ones are set before the zeros are cleared.
    pub fn set_input_sync_bypass<M: Platform>(&mut self, m: &mut M, bypass: u32, mask: u32)
        ensures
            *final(self) == *old(self),
            final(m).trace() == old(m).trace().push(
                Event::Write {
                    addr: memmap::set_alias(memmap::pio_reg(PIO::no(), memmap::INPUT_SYNC_BYPASS)),
                    value: mask & bypass,
                },
            ).push(
                Event::Write {
                    addr: memmap::clear_alias(
                        memmap::pio_reg(PIO::no(), memmap::INPUT_SYNC_BYPASS),
                    ),
                    value: mask & !bypass,
                },
            ),
    {
        proof {
            PIO::lemma_block();
        }
        m.write(PIO::PIO + memmap::INPUT_SYNC_BYPASS + memmap::SET_ALIAS, mask & bypass);
        m.write(PIO::PIO + memmap::INPUT_SYNC_BYPASS + memmap::CLEAR_ALIAS, mask & !bypass);
    }

    /// Returns the input synchronizer bypass bits.
    pub fn get_input_sync_bypass<M: Platform>(&self, m: &mut M) -> (bypass: u32)
        ensures
            platform::loaded(
                old(m).trace(),
                final(m).trace(),
                memmap::pio_reg(PIO::no(), memmap::INPUT_SYNC_BYPASS),
            ),
            bypass == platform::last_read(final(m).trace()),
    {
        proof {
            PIO::lemma_block();
        }
        m.read(PIO::PIO + memmap::INPUT_SYNC_BYPASS)
    }

    /// Hands a pin to the block. There is a function select register for each of the 30 pins of a
    /// bank.
    pub fn make_pio_pin<M: Platform>(&self, m: &mut M, pin_bank: u8) -> (pin: PioPin<PIO>)
        requires
            pin_bank % 32 < 30,
        ensures
            pin.bank() == pin_bank,
            platform::stored(
                old(m).trace(),
                final(m).trace(),
                memmap::io_ctrl_reg(pin_bank),
                (6 + PIO::no()) as u32,
            ),
    {
        proof {
            PIO::lemma_block();
        }
        m.write(memmap::io_ctrl_address(pin_bank), PIO::FUNCSEL as u32);
        PioPin::new(pin_bank)
    }
}

/// A PIO block, taken apart into its shared part and its state machines.
pub struct Pio<'d, PIO: PioInstance> {
    pub common: PioCommon<'d, PIO>,
    pub sm0: PioStateMachineInstance<'d, PIO, 0>,
    pub sm1: PioStateMachineInstance<'d, PIO, 1>,
    pub sm2: PioStateMachineInstance<'d, PIO, 2>,
    pub sm3: PioStateMachineInstance<'d, PIO, 3>,
}

impl<'d, PIO: PioInstance> Pio<'d, PIO> {
    /// Takes a block apart. No instruction memory is in use.
    pub fn new(_pio: PIO) -> (pio: Self)
        ensures
            pio.common.used() == Set::<int>::empty(),
    {
        proof {
            lemma_no_slots();
        }
        Pio {
            common: PioCommon { instructions_used: 0, pio: PhantomData },
            sm0: PioStateMachineInstance { pio: PhantomData },
            sm1: PioStateMachineInstance { pio: PhantomData },
            sm2: PioStateMachineInstance { pio: PhantomData },
            sm3: PioStateMachineInstance { pio: PhantomData },
        }
    }
}

} // verus!
