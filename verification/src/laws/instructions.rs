//! Instruction memory is handed out once at a time.

use crate::common;
use crate::common::{PioCommon, PioInstanceMemory};
use crate::instance::PioInstance;
use crate::memmap;
use crate::sealed::PioInstance as _;
use vstd::prelude::*;

verus! {

/// Instruction memory that `write_instr` hands out was free before, so it overlaps no piece handed
/// out earlier and still in use; giving it back makes it free again and nothing else. `c1` and
/// `memory` are what writing `len` instructions from `start` on makes of `c0`, and `c2` is what
/// giving `memory` back makes of `c1`.
pub proof fn law_instruction_memory_is_given_back<'d, PIO: PioInstance>(
    c0: PioCommon<'d, PIO>,
    c1: PioCommon<'d, PIO>,
    c2: PioCommon<'d, PIO>,
    memory: PioInstanceMemory<'d, PIO>,
    earlier: PioInstanceMemory<'d, PIO>,
    start: usize,
    len: int,
)
    requires
        c0.accepts(start, len),
        memory.used() == common::span((start % 256) as int, len),
        c1.used() == c0.used().union(memory.used()),
        c2.used() == c1.used().difference(memory.used()),
        earlier.used().subset_of(c0.used()),
    ensures
        memory.used().disjoint(c0.used()),
        memory.used().disjoint(earlier.used()),
        earlier.used().subset_of(c1.used()),
        earlier.used().subset_of(c2.used()),
        c2.used() == c0.used(),
{
    assert forall|i: int| memory.used().contains(i) implies !c0.used().contains(i) by {
        assert(c0.free_slot(start % 256 + (i - start % 256)));
    }
    assert(c2.used() =~= c0.used());
}

/// No store of `write_instr` goes to a slot in use, and all go into instruction memory.
pub proof fn law_programs_do_not_overwrite<'d, PIO: PioInstance>(
    c0: PioCommon<'d, PIO>,
    start: usize,
    instrs: Seq<u16>,
    i: int,
    slot: int,
)
    requires
        c0.accepts(start, instrs.len() as int),
        0 <= i < instrs.len(),
        c0.used().contains(slot),
    ensures
        memmap::pio_reg(PIO::no(), memmap::INSTR_MEM) <= common::instr_writes(
            PIO::no(),
            (start % 256) as int,
            instrs,
        )[i]->Write_addr < memmap::pio_reg(PIO::no(), memmap::INSTR_MEM) + 4 * 32,
        common::instr_writes(PIO::no(), (start % 256) as int, instrs)[i]->Write_addr
            != memmap::pio_reg(PIO::no(), memmap::INSTR_MEM) + 4 * slot,
{
    PIO::lemma_block();
    assert(c0.free_slot(start % 256 + i));
}

} // verus!
