//! What the control, status and FIFO calls of a state machine do: which word at which address, and
//! what becomes of a word on its way.

use crate::instance::PioInstance;
use crate::laws::apart;
use crate::laws::words;
use crate::platform::{Event, Platform};
use crate::sealed::{PioInstance as _, PioStateMachine as _};
use crate::sm::{DataSize, PioStateMachine};
use vstd::prelude::*;

verus! {

/// `pio`, `pio_no` and `sm_no` return the numbers of the block and of the state machine.
pub proof fn law_numbers_are_returned<PIO: PioInstance, S: PioStateMachine>(
    pio: &PIO,
    sm: &S,
    block: u8,
    block_of_sm: u8,
    index: u8,
)
    requires
        call_ensures(PIO::pio, (pio,), block),
        call_ensures(S::pio_no, (sm,), block_of_sm),
        call_ensures(S::sm_no, (sm,), index),
    ensures
        block == PIO::no(),
        block_of_sm == S::Pio::no(),
        index == S::index(),
        index < 4,
{
    S::lemma_sm();
}

/// `restart` sets bit 4 + n of the control register for state machine n.
pub proof fn law_restart<S: PioStateMachine, M: Platform>(sm: &mut S, m: &mut M)
    requires
        call_ensures(S::restart::<M>, (sm, m), ()),
    ensures
        ({
            let addr = (0x5020_2000 + 0x10_0000 * S::Pio::no()) as u32;
            let value = 1u32 << ((S::index() + 4) as u32);
            final(m).trace() == old(m).trace().push(Event::Write { addr, value })
        }),
{
    S::lemma_sm();
    S::Pio::lemma_block();
}

/// `clkdiv_restart` sets bit 8 + n of the control register for state machine n.
pub proof fn law_clkdiv_restart<S: PioStateMachine, M: Platform>(sm: &mut S, m: &mut M)
    requires
        call_ensures(S::clkdiv_restart::<M>, (sm, m), ()),
    ensures
        ({
            let addr = (0x5020_2000 + 0x10_0000 * S::Pio::no()) as u32;
            let value = 1u32 << ((S::index() + 8) as u32);
            final(m).trace() == old(m).trace().push(Event::Write { addr, value })
        }),
{
    S::lemma_sm();
    S::Pio::lemma_block();
}

/// `set_enable` sets bit n of the control register for state machine n, or clears it.
pub proof fn law_set_enable<S: PioStateMachine, M: Platform>(sm: &mut S, m: &mut M, enable: bool)
    requires
        call_ensures(S::set_enable::<M>, (sm, m, enable), ()),
    ensures
        ({
            let addr = ((if enable {
                0x5020_2000int
            } else {
                0x5020_3000
            }) + 0x10_0000 * S::Pio::no()) as u32;
            let value = 1u32 << (S::index() as u32);
            final(m).trace() == old(m).trace().push(Event::Write { addr, value })
        }),
{
    S::lemma_sm();
    S::Pio::lemma_block();
}

/// `is_enabled` returns bit n of the control word for state machine n.
pub proof fn law_is_enabled<S: PioStateMachine, M: Platform>(sm: &S, m: &mut M, r: bool)
    requires
        call_ensures(S::is_enabled::<M>, (sm, m), r),
    ensures
        ({
            let addr = (0x5020_0000 + 0x10_0000 * S::Pio::no()) as u32;
            let word = final(m).trace().last()->Read_value;
            &&& final(m).trace() == old(m).trace().push(Event::Read { addr, value: word })
            &&& r == ((word >> (S::index() as u32)) & 1 == 1)
        }),
{
    S::lemma_sm();
    S::Pio::lemma_block();
    let word = final(m).trace().last()->Read_value;
    words::law_bit_is_a_shift(word, (S::index()) as u32);
}

/// `is_tx_empty` returns bit 24 + n of the FIFO status word for state machine n.
pub proof fn law_is_tx_empty<S: PioStateMachine, M: Platform>(sm: &S, m: &mut M, r: bool)
    requires
        call_ensures(S::is_tx_empty::<M>, (sm, m), r),
    ensures
        ({
            let addr = (0x5020_0004 + 0x10_0000 * S::Pio::no()) as u32;
            let word = final(m).trace().last()->Read_value;
            &&& final(m).trace() == old(m).trace().push(Event::Read { addr, value: word })
            &&& r == ((word >> ((S::index() + 24) as u32)) & 1 == 1)
        }),
{
    S::lemma_sm();
    S::Pio::lemma_block();
    let word = final(m).trace().last()->Read_value;
    words::law_bit_is_a_shift(word, (S::index() + 24) as u32);
}

/// `is_tx_full` returns bit 16 + n of the FIFO status word for state machine n.
pub proof fn law_is_tx_full<S: PioStateMachine, M: Platform>(sm: &S, m: &mut M, r: bool)
    requires
        call_ensures(S::is_tx_full::<M>, (sm, m), r),
    ensures
        ({
            let addr = (0x5020_0004 + 0x10_0000 * S::Pio::no()) as u32;
            let word = final(m).trace().last()->Read_value;
            &&& final(m).trace() == old(m).trace().push(Event::Read { addr, value: word })
            &&& r == ((word >> ((S::index() + 16) as u32)) & 1 == 1)
        }),
{
    S::lemma_sm();
    S::Pio::lemma_block();
    let word = final(m).trace().last()->Read_value;
    words::law_bit_is_a_shift(word, (S::index() + 16) as u32);
}

/// `is_rx_empty` returns bit 8 + n of the FIFO status word for state machine n.
pub proof fn law_is_rx_empty<S: PioStateMachine, M: Platform>(sm: &S, m: &mut M, r: bool)
    requires
        call_ensures(S::is_rx_empty::<M>, (sm, m), r),
    ensures
        ({
            let addr = (0x5020_0004 + 0x10_0000 * S::Pio::no()) as u32;
            let word = final(m).trace().last()->Read_value;
            &&& final(m).trace() == old(m).trace().push(Event::Read { addr, value: word })
            &&& r == ((word >> ((S::index() + 8) as u32)) & 1 == 1)
        }),
{
    S::lemma_sm();
    S::Pio::lemma_block();
    let word = final(m).trace().last()->Read_value;
    words::law_bit_is_a_shift(word, (S::index() + 8) as u32);
}

/// `is_rx_full` returns bit n of the FIFO status word for state machine n.
pub proof fn law_is_rx_full<S: PioStateMachine, M: Platform>(sm: &S, m: &mut M, r: bool)
    requires
        call_ensures(S::is_rx_full::<M>, (sm, m), r),
    ensures
        ({
            let addr = (0x5020_0004 + 0x10_0000 * S::Pio::no()) as u32;
            let word = final(m).trace().last()->Read_value;
            &&& final(m).trace() == old(m).trace().push(Event::Read { addr, value: word })
            &&& r == ((word >> (S::index() as u32)) & 1 == 1)
        }),
{
    S::lemma_sm();
    S::Pio::lemma_block();
    let word = final(m).trace().last()->Read_value;
    words::law_bit_is_a_shift(word, (S::index()) as u32);
}

/// `tx_level` returns the four bits from bit 8 * n on of the FIFO level word for state machine n.
pub proof fn law_tx_level<S: PioStateMachine, M: Platform>(sm: &S, m: &mut M, r: u8)
    requires
        call_ensures(S::tx_level::<M>, (sm, m), r),
    ensures
        ({
            let addr = (0x5020_000c + 0x10_0000 * S::Pio::no()) as u32;
            let word = final(m).trace().last()->Read_value;
            &&& final(m).trace() == old(m).trace().push(Event::Read { addr, value: word })
            &&& r == (word >> ((8 * S::index()) as u32)) & 0x0f
        }),
{
    S::lemma_sm();
    S::Pio::lemma_block();
    let word = final(m).trace().last()->Read_value;
    let shift = (8 * S::index()) as u32;
    assert((word >> shift) & 0x0f <= 0x0f) by (bit_vector);
}

/// `rx_level` returns the four bits from bit 8 * n + 4 on of the FIFO level word for state machine
/// n.
pub proof fn law_rx_level<S: PioStateMachine, M: Platform>(sm: &S, m: &mut M, r: u8)
    requires
        call_ensures(S::rx_level::<M>, (sm, m), r),
    ensures
        ({
            let addr = (0x5020_000c + 0x10_0000 * S::Pio::no()) as u32;
            let word = final(m).trace().last()->Read_value;
            &&& final(m).trace() == old(m).trace().push(Event::Read { addr, value: word })
            &&& r == (word >> ((8 * S::index() + 4) as u32)) & 0x0f
        }),
{
    S::lemma_sm();
    S::Pio::lemma_block();
    let word = final(m).trace().last()->Read_value;
    let shift = (8 * S::index() + 4) as u32;
    assert((word >> shift) & 0x0f <= 0x0f) by (bit_vector);
}

/// `push_tx` stores the word, all of it, in the TX FIFO of its own state machine: the word at
/// 0x10 + 4 * n of its block.
pub proof fn law_push_tx<S: PioStateMachine, M: Platform>(sm: &mut S, m: &mut M, v: u32)
    requires
        call_ensures(S::push_tx::<M>, (sm, m, v), ()),
    ensures
        ({
            let addr = (0x5020_0010 + 0x10_0000 * S::Pio::no() + 4 * S::index()) as u32;
            final(m).trace() == old(m).trace().push(Event::Write { addr, value: v })
        }),
{
    S::lemma_sm();
    S::Pio::lemma_block();
}

/// `pull_rx` returns the word, all of it, that its one load yields from the RX FIFO of its own
/// state machine: the word at 0x20 + 4 * n of its block.
pub proof fn law_pull_rx<S: PioStateMachine, M: Platform>(sm: &mut S, m: &mut M, v: u32)
    requires
        call_ensures(S::pull_rx::<M>, (sm, m), v),
    ensures
        ({
            let addr = (0x5020_0020 + 0x10_0000 * S::Pio::no() + 4 * S::index()) as u32;
            final(m).trace() == old(m).trace().push(Event::Read { addr, value: v })
        }),
{
    S::lemma_sm();
    S::Pio::lemma_block();
}

/// Words pushed by two state machines go to the same address only if it is the same state machine,
/// and no word is pushed where another one is pulled.
pub proof fn law_fifos_are_apart<S: PioStateMachine, T: PioStateMachine, M: Platform>(
    s: &mut S,
    t: &mut T,
    u: &mut T,
    m: &mut M,
    n: &mut M,
    o: &mut M,
    v: u32,
    w: u32,
    x: u32,
)
    requires
        call_ensures(S::push_tx::<M>, (s, m, v), ()),
        call_ensures(T::push_tx::<M>, (t, n, w), ()),
        call_ensures(T::pull_rx::<M>, (u, o), x),
    ensures
        final(m).trace().last()->Write_addr == final(n).trace().last()->Write_addr <==>
            S::Pio::no() == T::Pio::no() && S::index() == T::index(),
        final(m).trace().last()->Write_addr != final(o).trace().last()->Read_addr,
        final(m).trace().last()->Write_value == v,
        final(o).trace().last()->Read_value == x,
{
    law_push_tx::<S, M>(s, m, v);
    law_push_tx::<T, M>(t, n, w);
    law_pull_rx::<T, M>(u, o, x);
    S::lemma_sm();
    S::Pio::lemma_block();
    T::lemma_sm();
    T::Pio::lemma_block();
}

/// Words pulled by two state machines come from the same address only if it is the same state
/// machine.
pub proof fn law_rx_fifos_are_apart<S: PioStateMachine, T: PioStateMachine, M: Platform>(
    s: &mut S,
    t: &mut T,
    m: &mut M,
    n: &mut M,
    v: u32,
    w: u32,
)
    requires
        call_ensures(S::pull_rx::<M>, (s, m), v),
        call_ensures(T::pull_rx::<M>, (t, n), w),
    ensures
        final(m).trace().last()->Read_addr == final(n).trace().last()->Read_addr <==>
            S::Pio::no() == T::Pio::no() && S::index() == T::index(),
{
    law_pull_rx::<S, M>(s, m, v);
    law_pull_rx::<T, M>(t, n, w);
    S::lemma_sm();
    S::Pio::lemma_block();
    T::lemma_sm();
    T::Pio::lemma_block();
}

/// `try_push_tx` looks whether the TX FIFO is full. If it is, that is all. If it is not, the word
/// follows, all of it, to where `push_tx` puts it.
pub proof fn law_try_push_tx<S: PioStateMachine, M: Platform>(
    sm: &mut S,
    m: &mut M,
    v: u32,
    pushed: bool,
)
    requires
        call_ensures(S::try_push_tx::<M>, (sm, m, v), pushed),
    ensures
        ({
            let status = (0x5020_0004 + 0x10_0000 * S::Pio::no()) as u32;
            let fifo = (0x5020_0010 + 0x10_0000 * S::Pio::no() + 4 * S::index()) as u32;
            let word = final(m).trace()[old(m).trace().len() as int]->Read_value;
            let looked = old(m).trace().push(Event::Read { addr: status, value: word });
            let full = (word >> ((S::index() + 16) as u32)) & 1 == 1;
            &&& pushed == !full
            &&& full ==> final(m).trace() == looked
            &&& !full ==> final(m).trace() == looked.push(Event::Write { addr: fifo, value: v })
        }),
{
    S::lemma_sm();
    S::Pio::lemma_block();
    let word = final(m).trace()[old(m).trace().len() as int]->Read_value;
    words::law_bit_is_a_shift(word, (S::index() + 16) as u32);
}

/// `try_pull_rx` looks whether the RX FIFO is empty. If it is, that is all. If it is not, it
/// returns the word, all of it, that one load from the RX FIFO yields, as `pull_rx` does.
pub proof fn law_try_pull_rx<S: PioStateMachine, M: Platform>(
    sm: &mut S,
    m: &mut M,
    pulled: Option<u32>,
)
    requires
        call_ensures(S::try_pull_rx::<M>, (sm, m), pulled),
    ensures
        ({
            let status = (0x5020_0004 + 0x10_0000 * S::Pio::no()) as u32;
            let fifo = (0x5020_0020 + 0x10_0000 * S::Pio::no() + 4 * S::index()) as u32;
            let word = final(m).trace()[old(m).trace().len() as int]->Read_value;
            let looked = old(m).trace().push(Event::Read { addr: status, value: word });
            let empty = (word >> ((S::index() + 8) as u32)) & 1 == 1;
            &&& empty ==> pulled is None && final(m).trace() == looked
            &&& !empty ==> pulled is Some && final(m).trace() == looked.push(
                Event::Read { addr: fifo, value: pulled->0 },
            )
        }),
{
    S::lemma_sm();
    S::Pio::lemma_block();
    let word = final(m).trace()[old(m).trace().len() as int]->Read_value;
    words::law_bit_is_a_shift(word, (S::index() + 8) as u32);
}

/// `has_tx_stalled` returns the flag of its own state machine for a stall on an empty TX FIFO, bit
/// 24 + n of the FIFO debug word, and stores a one to that flag alone.
pub proof fn law_has_tx_stalled<S: PioStateMachine, M: Platform>(sm: &S, m: &mut M, r: bool)
    requires
        call_ensures(S::has_tx_stalled::<M>, (sm, m), r),
    ensures
        ({
            let addr = (0x5020_0008 + 0x10_0000 * S::Pio::no()) as u32;
            let word = final(m).trace()[old(m).trace().len() as int]->Read_value;
            let value = 1u32 << ((S::index() + 24) as u32);
            &&& final(m).trace() == old(m).trace().push(Event::Read { addr, value: word }).push(
                Event::Write { addr, value },
            )
            &&& r == ((word >> ((S::index() + 24) as u32)) & 1 == 1)
        }),
{
    S::lemma_sm();
    S::Pio::lemma_block();
    let word = final(m).trace()[old(m).trace().len() as int]->Read_value;
    words::law_bit_is_a_shift(word, (S::index() + 24) as u32);
}

/// `has_tx_overflowed` returns the flag of its own state machine for a overflow of the TX FIFO, bit
/// 16 + n of the FIFO debug word, and stores a one to that flag alone.
pub proof fn law_has_tx_overflowed<S: PioStateMachine, M: Platform>(sm: &S, m: &mut M, r: bool)
    requires
        call_ensures(S::has_tx_overflowed::<M>, (sm, m), r),
    ensures
        ({
            let addr = (0x5020_0008 + 0x10_0000 * S::Pio::no()) as u32;
            let word = final(m).trace()[old(m).trace().len() as int]->Read_value;
            let value = 1u32 << ((S::index() + 16) as u32);
            &&& final(m).trace() == old(m).trace().push(Event::Read { addr, value: word }).push(
                Event::Write { addr, value },
            )
            &&& r == ((word >> ((S::index() + 16) as u32)) & 1 == 1)
        }),
{
    S::lemma_sm();
    S::Pio::lemma_block();
    let word = final(m).trace()[old(m).trace().len() as int]->Read_value;
    words::law_bit_is_a_shift(word, (S::index() + 16) as u32);
}

/// `has_rx_stalled` returns the flag of its own state machine for a stall on a full RX FIFO, bit n
/// of the FIFO debug word, and stores a one to that flag alone.
pub proof fn law_has_rx_stalled<S: PioStateMachine, M: Platform>(sm: &S, m: &mut M, r: bool)
    requires
        call_ensures(S::has_rx_stalled::<M>, (sm, m), r),
    ensures
        ({
            let addr = (0x5020_0008 + 0x10_0000 * S::Pio::no()) as u32;
            let word = final(m).trace()[old(m).trace().len() as int]->Read_value;
            let value = 1u32 << (S::index() as u32);
            &&& final(m).trace() == old(m).trace().push(Event::Read { addr, value: word }).push(
                Event::Write { addr, value },
            )
            &&& r == ((word >> (S::index() as u32)) & 1 == 1)
        }),
{
    S::lemma_sm();
    S::Pio::lemma_block();
    let word = final(m).trace()[old(m).trace().len() as int]->Read_value;
    words::law_bit_is_a_shift(word, S::index() as u32);
}

/// `has_rx_underflowed` returns the flag of its own state machine for a underflow of the RX FIFO,
/// bit 8 + n of the FIFO debug word, and stores a one to that flag alone.
pub proof fn law_has_rx_underflowed<S: PioStateMachine, M: Platform>(sm: &S, m: &mut M, r: bool)
    requires
        call_ensures(S::has_rx_underflowed::<M>, (sm, m), r),
    ensures
        ({
            let addr = (0x5020_0008 + 0x10_0000 * S::Pio::no()) as u32;
            let word = final(m).trace()[old(m).trace().len() as int]->Read_value;
            let value = 1u32 << ((S::index() + 8) as u32);
            &&& final(m).trace() == old(m).trace().push(Event::Read { addr, value: word }).push(
                Event::Write { addr, value },
            )
            &&& r == ((word >> ((S::index() + 8) as u32)) & 1 == 1)
        }),
{
    S::lemma_sm();
    S::Pio::lemma_block();
    let word = final(m).trace()[old(m).trace().len() as int]->Read_value;
    words::law_bit_is_a_shift(word, (S::index() + 8) as u32);
}

/// `dma_push` makes a DMA channel move `len` words of the size asked for from memory at `data` to
/// the TX FIFO of its own state machine, paced by the request of that FIFO. The channel is chained
/// to itself, only the read address advances, and the store that starts the channel is the last
/// one, between two fences.
pub proof fn law_dma_push<S: PioStateMachine, M: Platform>(
    sm: &S,
    m: &mut M,
    channel: u8,
    size: DataSize,
    data: u32,
    len: usize,
)
    requires
        channel < 12,
        call_ensures(S::dma_push::<M>, (sm, m, channel, size, data, len), ()),
    ensures
        ({
            let regs = 0x5000_0000 + 0x40 * channel;
            let fifo = (0x5020_0010 + 0x10_0000 * S::Pio::no() + 4 * S::index()) as u32;
            let code = match size {
                DataSize::Byte => 0int,
                DataSize::HalfWord => 1,
                DataSize::Word => 2,
            };
            let request = 8 * S::Pio::no() + S::index();
            let ctrl = 0x8000 * request + 0x800 * channel + 0x10 + 4 * code + 1;
            final(m).trace() == old(m).trace() + seq![
                Event::Write { addr: regs as u32, value: data },
                Event::Write { addr: (regs + 4) as u32, value: fifo },
                Event::Write { addr: (regs + 8) as u32, value: len as u32 },
                Event::Fence,
                Event::Write { addr: (regs + 12) as u32, value: ctrl as u32 },
                Event::Fence,
            ]
        }),
{
    S::lemma_sm();
    S::Pio::lemma_block();
    apart::law_dma_control_word_is_as_asked(
        (8 * S::Pio::no() + S::index()) as u8,
        size,
        channel,
        true,
    );
}

/// `dma_pull` makes a DMA channel move `len` words of the size asked for from the RX FIFO of its
/// own state machine to memory at `data`, paced by the request of that FIFO. The channel is chained
/// to itself, only the write address advances, and the store that starts the channel is the last
/// one, between two fences.
pub proof fn law_dma_pull<S: PioStateMachine, M: Platform>(
    sm: &S,
    m: &mut M,
    channel: u8,
    size: DataSize,
    data: u32,
    len: usize,
)
    requires
        channel < 12,
        call_ensures(S::dma_pull::<M>, (sm, m, channel, size, data, len), ()),
    ensures
        ({
            let regs = 0x5000_0000 + 0x40 * channel;
            let fifo = (0x5020_0020 + 0x10_0000 * S::Pio::no() + 4 * S::index()) as u32;
            let code = match size {
                DataSize::Byte => 0int,
                DataSize::HalfWord => 1,
                DataSize::Word => 2,
            };
            let request = 8 * S::Pio::no() + S::index() + 4;
            let ctrl = 0x8000 * request + 0x800 * channel + 0x20 + 4 * code + 1;
            final(m).trace() == old(m).trace() + seq![
                Event::Write { addr: (regs + 4) as u32, value: data },
                Event::Write { addr: regs as u32, value: fifo },
                Event::Write { addr: (regs + 8) as u32, value: len as u32 },
                Event::Fence,
                Event::Write { addr: (regs + 12) as u32, value: ctrl as u32 },
                Event::Fence,
            ]
        }),
{
    S::lemma_sm();
    S::Pio::lemma_block();
    apart::law_dma_control_word_is_as_asked(
        (8 * S::Pio::no() + S::index() + 4) as u8,
        size,
        channel,
        false,
    );
}

} // verus!
