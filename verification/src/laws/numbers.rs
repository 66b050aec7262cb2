//! The numbers of the blocks and of the state machines.

use crate::instance::{PioInstance, PIO0, PIO1};
use crate::sealed::{PioInstance as _, PioStateMachine as _};
use crate::sm::PioStateMachineInstance;
use vstd::prelude::*;

verus! {

/// The blocks are numbered 0 and 1, and the state machines of a block 0 to 3, as their types say.
pub proof fn law_numbers<'d, PIO: PioInstance>()
    ensures
        PIO0::no() == 0,
        PIO1::no() == 1,
        PIO::no() < 2,
        PioStateMachineInstance::<'d, PIO, 0>::index() == 0,
        PioStateMachineInstance::<'d, PIO, 1>::index() == 1,
        PioStateMachineInstance::<'d, PIO, 2>::index() == 2,
        PioStateMachineInstance::<'d, PIO, 3>::index() == 3,
        <PioStateMachineInstance::<'d, PIO, 0> as crate::sealed::PioStateMachine>::Pio::no()
            == PIO::no(),
        <PioStateMachineInstance::<'d, PIO, 1> as crate::sealed::PioStateMachine>::Pio::no()
            == PIO::no(),
        <PioStateMachineInstance::<'d, PIO, 2> as crate::sealed::PioStateMachine>::Pio::no()
            == PIO::no(),
        <PioStateMachineInstance::<'d, PIO, 3> as crate::sealed::PioStateMachine>::Pio::no()
            == PIO::no(),
{
    PIO::lemma_block();
}

} // verus!
