//! The two PIO blocks.

use crate::memmap::{PIO0_BASE, PIO1_BASE};
use crate::sealed;
use vstd::prelude::*;

verus! {

/// A PIO block.
pub trait PioInstance: sealed::PioInstance + Sized {
    /// Returns the number of the block.
    fn pio(&self) -> (no: u8)
        ensures
            no == Self::no(),
    {
        proof {
            Self::lemma_block();
        }
        Self::PIO_NO
    }
}

/// PIO block 0.
pub struct PIO0;

/// PIO block 1.
pub struct PIO1;

impl sealed::PioInstance for PIO0 {
    const PIO_NO: u8 = 0;

    const PIO: u32 = PIO0_BASE;

    const FUNCSEL: u8 = 6;

    open spec fn no() -> u8 {
        0
    }

    proof fn lemma_block() {
    }
}

impl PioInstance for PIO0 {

}

impl sealed::PioInstance for PIO1 {
    const PIO_NO: u8 = 1;

    const PIO: u32 = PIO1_BASE;

    const FUNCSEL: u8 = 7;

    open spec fn no() -> u8 {
        1
    }

    proof fn lemma_block() {
    }
}

impl PioInstance for PIO1 {

}

} // verus!
