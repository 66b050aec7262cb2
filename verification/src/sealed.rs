//! The facts about PIO blocks and state machines that no other crate can claim.

use vstd::prelude::*;

verus! {

/// Which PIO block an instance stands for.
pub trait PioInstance {
    /// Number of the block.
    const PIO_NO: u8;

    /// First address of the block.
    const PIO: u32;

    /// Function select code that hands a pin to the block.
    const FUNCSEL: u8;

    /// Number of the block, for specifications.
    spec fn no() -> u8;

    /// There are two blocks.
    proof fn lemma_block()
        ensures
            Self::no() < 2,
            Self::PIO_NO == Self::no(),
            Self::PIO == crate::memmap::base(Self::no()),
            Self::FUNCSEL == 6 + Self::no(),
    ;
}

/// Which state machine of which block a handle stands for.
pub trait PioStateMachine {
    /// The block.
    type Pio: crate::instance::PioInstance;

    /// Number of the state machine.
    const SM: usize;

    /// Number of the state machine, for specifications.
    spec fn index() -> usize;

    /// A block has four state machines.
    proof fn lemma_sm()
        ensures
            Self::index() < 4,
            Self::SM == Self::index(),
    ;

    /// First address of the registers of this state machine.
    fn this_sm() -> (addr: u32)
        ensures
            addr == crate::memmap::sm_reg(<Self::Pio as PioInstance>::no(), Self::index(), 0),
    {
        proof {
            Self::lemma_sm();
            <Self::Pio as PioInstance>::lemma_block();
        }
        <Self::Pio as PioInstance>::PIO + 0xc8 + 0x18 * (Self::SM as u32)
    }
}

} // verus!
