//! What the settings of a state machine are, one call at a time: the word at which address changes,
//! in which bits, and what a getter makes of the word it loads.

use crate::bits;
use crate::laws::apart;
use crate::pin::PioPin;
use crate::platform::{Event, Platform};
use crate::regs::{Execctrl, Pinctrl, Shiftctrl};
use crate::sealed::{PioInstance as _, PioStateMachine as _};
use crate::sm::{FifoJoin, PioStateMachine, ShiftDirection};
use vstd::prelude::*;

verus! {

proof fn lemma_side_en(before: u32, after: u32, v0: bool)
    requires
        after == Execctrl(before).with_side_en(v0).0,
    ensures
        (after / 0x4000_0000) % 2 == bits::level(v0),
        after % 0x4000_0000 == before % 0x4000_0000,
        after / 0x8000_0000 == before / 0x8000_0000,
{
    bits::law_field_write(before, 0x4000_0000, 2, bits::level(v0), 1, 0x4000_0000);
    bits::law_field_write(before, 0x4000_0000, 2, bits::level(v0), 0x8000_0000, 2);
}

/// `set_side_enable` sets bit 30 of the execution settings, and nothing else.
pub proof fn law_set_side_enable<S: PioStateMachine, M: Platform>(
    sm: &S,
    m: &mut M,
    enable: bool,
)
    requires
        call_ensures(S::set_side_enable::<M>, (sm, m, enable), ()),
    ensures
        ({
            let addr = (0x5020_00cc + 0x10_0000 * S::Pio::no() + 0x18 * S::index()) as u32;
            let before = final(m).trace()[old(m).trace().len() as int]->Read_value;
            let after = final(m).trace().last()->Write_value;
            &&& final(m).trace() == old(m).trace().push(Event::Read { addr, value: before }).push(
                Event::Write { addr, value: after },
            )
            &&& (after / 0x4000_0000) % 2 == (if enable {
                1int
            } else {
                0
            })
            &&& after % 0x4000_0000 == before % 0x4000_0000
            &&& after / 0x8000_0000 == before / 0x8000_0000
        }),
{
    S::lemma_sm();
    S::Pio::lemma_block();
    let before = final(m).trace()[old(m).trace().len() as int]->Read_value;
    let after = final(m).trace().last()->Write_value;
    lemma_side_en(before, after, enable);
}

proof fn lemma_side_pindir(before: u32, after: u32, v0: bool)
    requires
        after == Execctrl(before).with_side_pindir(v0).0,
    ensures
        (after / 0x2000_0000) % 2 == bits::level(v0),
        after % 0x2000_0000 == before % 0x2000_0000,
        after / 0x4000_0000 == before / 0x4000_0000,
{
    bits::law_field_write(before, 0x2000_0000, 2, bits::level(v0), 1, 0x2000_0000);
    bits::law_field_write(before, 0x2000_0000, 2, bits::level(v0), 0x4000_0000, 4);
}

/// `set_side_pindir` sets bit 29 of the execution settings, and nothing else.
pub proof fn law_set_side_pindir<S: PioStateMachine, M: Platform>(
    sm: &mut S,
    m: &mut M,
    pindir: bool,
)
    requires
        call_ensures(S::set_side_pindir::<M>, (sm, m, pindir), ()),
    ensures
        ({
            let addr = (0x5020_00cc + 0x10_0000 * S::Pio::no() + 0x18 * S::index()) as u32;
            let before = final(m).trace()[old(m).trace().len() as int]->Read_value;
            let after = final(m).trace().last()->Write_value;
            &&& final(m).trace() == old(m).trace().push(Event::Read { addr, value: before }).push(
                Event::Write { addr, value: after },
            )
            &&& (after / 0x2000_0000) % 2 == (if pindir {
                1int
            } else {
                0
            })
            &&& after % 0x2000_0000 == before % 0x2000_0000
            &&& after / 0x4000_0000 == before / 0x4000_0000
        }),
{
    S::lemma_sm();
    S::Pio::lemma_block();
    let before = final(m).trace()[old(m).trace().len() as int]->Read_value;
    let after = final(m).trace().last()->Write_value;
    lemma_side_pindir(before, after, pindir);
}

proof fn lemma_jmp_pin(before: u32, after: u32, v0: u8)
    requires
        after == Execctrl(before).with_jmp_pin(v0).0,
    ensures
        (after / 0x100_0000) % 32 == v0 % 32,
        after % 0x100_0000 == before % 0x100_0000,
        after / 0x2000_0000 == before / 0x2000_0000,
{
    bits::law_field_write(before, 0x100_0000, 32, v0 as u32, 1, 0x100_0000);
    bits::law_field_write(before, 0x100_0000, 32, v0 as u32, 0x2000_0000, 8);
}

/// `set_jmp_pin` sets bits 24 to 28 of the execution settings, and nothing else.
pub proof fn law_set_jmp_pin<S: PioStateMachine, M: Platform>(
    sm: &mut S,
    m: &mut M,
    pin: u8,
)
    requires
        call_ensures(S::set_jmp_pin::<M>, (sm, m, pin), ()),
    ensures
        ({
            let addr = (0x5020_00cc + 0x10_0000 * S::Pio::no() + 0x18 * S::index()) as u32;
            let before = final(m).trace()[old(m).trace().len() as int]->Read_value;
            let after = final(m).trace().last()->Write_value;
            &&& final(m).trace() == old(m).trace().push(Event::Read { addr, value: before }).push(
                Event::Write { addr, value: after },
            )
            &&& (after / 0x100_0000) % 32 == pin % 32
            &&& after % 0x100_0000 == before % 0x100_0000
            &&& after / 0x2000_0000 == before / 0x2000_0000
        }),
{
    S::lemma_sm();
    S::Pio::lemma_block();
    let before = final(m).trace()[old(m).trace().len() as int]->Read_value;
    let after = final(m).trace().last()->Write_value;
    lemma_jmp_pin(before, after, pin);
}

proof fn lemma_wrap_top_and_wrap_bottom(before: u32, after: u32, v0: u8, v1: u8)
    requires
        after == Execctrl(before).with_wrap_top(v0).with_wrap_bottom(v1).0,
    ensures
        (after / 0x1000) % 32 == v0 % 32,
        (after / 0x80) % 32 == v1 % 32,
        after % 0x80 == before % 0x80,
        after / 0x2_0000 == before / 0x2_0000,
{
    bits::law_field_write(before, 0x1000, 32, v0 as u32, 0x80, 0x20);
    bits::law_field_write(before, 0x1000, 32, v0 as u32, 1, 0x80);
    bits::law_field_write(before, 0x1000, 32, v0 as u32, 0x2_0000, 0x8000);
    let half = Execctrl(before).with_wrap_top(v0).0;
    bits::law_field_write(half, 0x80, 32, v1 as u32, 0x1000, 0x20);
    bits::law_field_write(half, 0x80, 32, v1 as u32, 1, 0x80);
    bits::law_field_write(half, 0x80, 32, v1 as u32, 0x2_0000, 0x8000);
}

/// `set_wrap` sets the top in bits 12 to 16 and the bottom in bits 7 to 11 of the execution
/// settings, and nothing else.
pub proof fn law_set_wrap<S: PioStateMachine, M: Platform>(
    sm: &S,
    m: &mut M,
    source: u8,
    target: u8,
)
    requires
        call_ensures(S::set_wrap::<M>, (sm, m, source, target), ()),
    ensures
        ({
            let addr = (0x5020_00cc + 0x10_0000 * S::Pio::no() + 0x18 * S::index()) as u32;
            let before = final(m).trace()[old(m).trace().len() as int]->Read_value;
            let after = final(m).trace().last()->Write_value;
            &&& final(m).trace() == old(m).trace().push(Event::Read { addr, value: before }).push(
                Event::Write { addr, value: after },
            )
            &&& (after / 0x1000) % 32 == source % 32
            &&& (after / 0x80) % 32 == target % 32
            &&& after % 0x80 == before % 0x80
            &&& after / 0x2_0000 == before / 0x2_0000
        }),
{
    S::lemma_sm();
    S::Pio::lemma_block();
    let before = final(m).trace()[old(m).trace().len() as int]->Read_value;
    let after = final(m).trace().last()->Write_value;
    lemma_wrap_top_and_wrap_bottom(before, after, source, target);
}

proof fn lemma_fjoin_rx_and_fjoin_tx(before: u32, after: u32, v0: bool, v1: bool)
    requires
        after == Shiftctrl(before).with_fjoin_rx(v0).with_fjoin_tx(v1).0,
    ensures
        (after / 0x8000_0000) % 2 == bits::level(v0),
        (after / 0x4000_0000) % 2 == bits::level(v1),
        after % 0x4000_0000 == before % 0x4000_0000,
{
    bits::law_field_write(before, 0x8000_0000, 2, bits::level(v0), 0x4000_0000, 2);
    bits::law_field_write(before, 0x8000_0000, 2, bits::level(v0), 1, 0x4000_0000);
    let half = Shiftctrl(before).with_fjoin_rx(v0).0;
    bits::law_field_write(half, 0x4000_0000, 2, bits::level(v1), 0x8000_0000, 2);
    bits::law_field_write(half, 0x4000_0000, 2, bits::level(v1), 1, 0x4000_0000);
}

/// `set_fifo_join` sets bit 31 for RX and bit 30 for TX, or neither, and keeps every other shift
/// register setting.
pub proof fn law_set_fifo_join<S: PioStateMachine, M: Platform>(
    sm: &mut S,
    m: &mut M,
    join: FifoJoin,
)
    requires
        call_ensures(S::set_fifo_join::<M>, (sm, m, join), ()),
    ensures
        ({
            let addr = (0x5020_00d0 + 0x10_0000 * S::Pio::no() + 0x18 * S::index()) as u32;
            let before = final(m).trace()[old(m).trace().len() as int]->Read_value;
            let after = final(m).trace().last()->Write_value;
            &&& final(m).trace() == old(m).trace().push(Event::Read { addr, value: before }).push(
                Event::Write { addr, value: after },
            )
            &&& (after / 0x8000_0000) % 2 == (if join == FifoJoin::RxOnly {
                1int
            } else {
                0
            })
            &&& (after / 0x4000_0000) % 2 == (if join == FifoJoin::TxOnly {
                1int
            } else {
                0
            })
            &&& after % 0x4000_0000 == before % 0x4000_0000
            &&& Shiftctrl(after).autopush() == Shiftctrl(before).autopush()
            &&& Shiftctrl(after).autopull() == Shiftctrl(before).autopull()
            &&& Shiftctrl(after).in_shiftdir() == Shiftctrl(before).in_shiftdir()
            &&& Shiftctrl(after).out_shiftdir() == Shiftctrl(before).out_shiftdir()
            &&& Shiftctrl(after).push_thresh() == Shiftctrl(before).push_thresh()
            &&& Shiftctrl(after).pull_thresh() == Shiftctrl(before).pull_thresh()
        }),
{
    S::lemma_sm();
    S::Pio::lemma_block();
    let before = final(m).trace()[old(m).trace().len() as int]->Read_value;
    let after = final(m).trace().last()->Write_value;
    lemma_fjoin_rx_and_fjoin_tx(before, after, join == FifoJoin::RxOnly, join == FifoJoin::TxOnly);
    apart::law_fjoin_rx_is_apart(Shiftctrl(before), join == FifoJoin::RxOnly);
    apart::law_fjoin_tx_is_apart(
        Shiftctrl(before).with_fjoin_rx(join == FifoJoin::RxOnly),
        join == FifoJoin::TxOnly,
    );
}

proof fn lemma_pull_thresh(before: u32, after: u32, v0: u8)
    requires
        after == Shiftctrl(before).with_pull_thresh(v0).0,
    ensures
        (after / 0x200_0000) % 32 == v0 % 32,
        after % 0x200_0000 == before % 0x200_0000,
        after / 0x4000_0000 == before / 0x4000_0000,
{
    bits::law_field_write(before, 0x200_0000, 32, v0 as u32, 1, 0x200_0000);
    bits::law_field_write(before, 0x200_0000, 32, v0 as u32, 0x4000_0000, 4);
}

/// `set_pull_threshold` sets bits 25 to 29 of the shift register settings, and nothing else.
pub proof fn law_set_pull_threshold<S: PioStateMachine, M: Platform>(
    sm: &mut S,
    m: &mut M,
    threshold: u8,
)
    requires
        call_ensures(S::set_pull_threshold::<M>, (sm, m, threshold), ()),
    ensures
        ({
            let addr = (0x5020_00d0 + 0x10_0000 * S::Pio::no() + 0x18 * S::index()) as u32;
            let before = final(m).trace()[old(m).trace().len() as int]->Read_value;
            let after = final(m).trace().last()->Write_value;
            &&& final(m).trace() == old(m).trace().push(Event::Read { addr, value: before }).push(
                Event::Write { addr, value: after },
            )
            &&& (after / 0x200_0000) % 32 == threshold % 32
            &&& after % 0x200_0000 == before % 0x200_0000
            &&& after / 0x4000_0000 == before / 0x4000_0000
        }),
{
    S::lemma_sm();
    S::Pio::lemma_block();
    let before = final(m).trace()[old(m).trace().len() as int]->Read_value;
    let after = final(m).trace().last()->Write_value;
    lemma_pull_thresh(before, after, threshold);
}

proof fn lemma_push_thresh(before: u32, after: u32, v0: u8)
    requires
        after == Shiftctrl(before).with_push_thresh(v0).0,
    ensures
        (after / 0x10_0000) % 32 == v0 % 32,
        after % 0x10_0000 == before % 0x10_0000,
        after / 0x200_0000 == before / 0x200_0000,
{
    bits::law_field_write(before, 0x10_0000, 32, v0 as u32, 1, 0x10_0000);
    bits::law_field_write(before, 0x10_0000, 32, v0 as u32, 0x200_0000, 0x80);
}

/// `set_push_threshold` sets bits 20 to 24 of the shift register settings, and nothing else.
pub proof fn law_set_push_threshold<S: PioStateMachine, M: Platform>(
    sm: &mut S,
    m: &mut M,
    threshold: u8,
)
    requires
        call_ensures(S::set_push_threshold::<M>, (sm, m, threshold), ()),
    ensures
        ({
            let addr = (0x5020_00d0 + 0x10_0000 * S::Pio::no() + 0x18 * S::index()) as u32;
            let before = final(m).trace()[old(m).trace().len() as int]->Read_value;
            let after = final(m).trace().last()->Write_value;
            &&& final(m).trace() == old(m).trace().push(Event::Read { addr, value: before }).push(
                Event::Write { addr, value: after },
            )
            &&& (after / 0x10_0000) % 32 == threshold % 32
            &&& after % 0x10_0000 == before % 0x10_0000
            &&& after / 0x200_0000 == before / 0x200_0000
        }),
{
    S::lemma_sm();
    S::Pio::lemma_block();
    let before = final(m).trace()[old(m).trace().len() as int]->Read_value;
    let after = final(m).trace().last()->Write_value;
    lemma_push_thresh(before, after, threshold);
}

proof fn lemma_out_shiftdir(before: u32, after: u32, v0: bool)
    requires
        after == Shiftctrl(before).with_out_shiftdir(v0).0,
    ensures
        (after / 0x8_0000) % 2 == bits::level(v0),
        after % 0x8_0000 == before % 0x8_0000,
        after / 0x10_0000 == before / 0x10_0000,
{
    bits::law_field_write(before, 0x8_0000, 2, bits::level(v0), 1, 0x8_0000);
    bits::law_field_write(before, 0x8_0000, 2, bits::level(v0), 0x10_0000, 0x1000);
}

/// `set_out_shift_dir` sets bit 19 of the shift register settings, and nothing else.
pub proof fn law_set_out_shift_dir<S: PioStateMachine, M: Platform>(
    sm: &mut S,
    m: &mut M,
    dir: ShiftDirection,
)
    requires
        call_ensures(S::set_out_shift_dir::<M>, (sm, m, dir), ()),
    ensures
        ({
            let addr = (0x5020_00d0 + 0x10_0000 * S::Pio::no() + 0x18 * S::index()) as u32;
            let before = final(m).trace()[old(m).trace().len() as int]->Read_value;
            let after = final(m).trace().last()->Write_value;
            &&& final(m).trace() == old(m).trace().push(Event::Read { addr, value: before }).push(
                Event::Write { addr, value: after },
            )
            &&& (after / 0x8_0000) % 2 == (if dir == ShiftDirection::Right {
                1int
            } else {
                0
            })
            &&& after % 0x8_0000 == before % 0x8_0000
            &&& after / 0x10_0000 == before / 0x10_0000
        }),
{
    S::lemma_sm();
    S::Pio::lemma_block();
    let before = final(m).trace()[old(m).trace().len() as int]->Read_value;
    let after = final(m).trace().last()->Write_value;
    lemma_out_shiftdir(before, after, dir == ShiftDirection::Right);
}

proof fn lemma_in_shiftdir(before: u32, after: u32, v0: bool)
    requires
        after == Shiftctrl(before).with_in_shiftdir(v0).0,
    ensures
        (after / 0x4_0000) % 2 == bits::level(v0),
        after % 0x4_0000 == before % 0x4_0000,
        after / 0x8_0000 == before / 0x8_0000,
{
    bits::law_field_write(before, 0x4_0000, 2, bits::level(v0), 1, 0x4_0000);
    bits::law_field_write(before, 0x4_0000, 2, bits::level(v0), 0x8_0000, 0x2000);
}

/// `set_in_shift_dir` sets bit 18 of the shift register settings, and nothing else.
pub proof fn law_set_in_shift_dir<S: PioStateMachine, M: Platform>(
    sm: &mut S,
    m: &mut M,
    dir: ShiftDirection,
)
    requires
        call_ensures(S::set_in_shift_dir::<M>, (sm, m, dir), ()),
    ensures
        ({
            let addr = (0x5020_00d0 + 0x10_0000 * S::Pio::no() + 0x18 * S::index()) as u32;
            let before = final(m).trace()[old(m).trace().len() as int]->Read_value;
            let after = final(m).trace().last()->Write_value;
            &&& final(m).trace() == old(m).trace().push(Event::Read { addr, value: before }).push(
                Event::Write { addr, value: after },
            )
            &&& (after / 0x4_0000) % 2 == (if dir == ShiftDirection::Right {
                1int
            } else {
                0
            })
            &&& after % 0x4_0000 == before % 0x4_0000
            &&& after / 0x8_0000 == before / 0x8_0000
        }),
{
    S::lemma_sm();
    S::Pio::lemma_block();
    let before = final(m).trace()[old(m).trace().len() as int]->Read_value;
    let after = final(m).trace().last()->Write_value;
    lemma_in_shiftdir(before, after, dir == ShiftDirection::Right);
}

proof fn lemma_autopull(before: u32, after: u32, v0: bool)
    requires
        after == Shiftctrl(before).with_autopull(v0).0,
    ensures
        (after / 0x2_0000) % 2 == bits::level(v0),
        after % 0x2_0000 == before % 0x2_0000,
        after / 0x4_0000 == before / 0x4_0000,
{
    bits::law_field_write(before, 0x2_0000, 2, bits::level(v0), 1, 0x2_0000);
    bits::law_field_write(before, 0x2_0000, 2, bits::level(v0), 0x4_0000, 0x4000);
}

/// `set_autopull` sets bit 17 of the shift register settings, and nothing else.
pub proof fn law_set_autopull<S: PioStateMachine, M: Platform>(
    sm: &mut S,
    m: &mut M,
    auto: bool,
)
    requires
        call_ensures(S::set_autopull::<M>, (sm, m, auto), ()),
    ensures
        ({
            let addr = (0x5020_00d0 + 0x10_0000 * S::Pio::no() + 0x18 * S::index()) as u32;
            let before = final(m).trace()[old(m).trace().len() as int]->Read_value;
            let after = final(m).trace().last()->Write_value;
            &&& final(m).trace() == old(m).trace().push(Event::Read { addr, value: before }).push(
                Event::Write { addr, value: after },
            )
            &&& (after / 0x2_0000) % 2 == (if auto {
                1int
            } else {
                0
            })
            &&& after % 0x2_0000 == before % 0x2_0000
            &&& after / 0x4_0000 == before / 0x4_0000
        }),
{
    S::lemma_sm();
    S::Pio::lemma_block();
    let before = final(m).trace()[old(m).trace().len() as int]->Read_value;
    let after = final(m).trace().last()->Write_value;
    lemma_autopull(before, after, auto);
}

proof fn lemma_autopush(before: u32, after: u32, v0: bool)
    requires
        after == Shiftctrl(before).with_autopush(v0).0,
    ensures
        (after / 0x1_0000) % 2 == bits::level(v0),
        after % 0x1_0000 == before % 0x1_0000,
        after / 0x2_0000 == before / 0x2_0000,
{
    bits::law_field_write(before, 0x1_0000, 2, bits::level(v0), 1, 0x1_0000);
    bits::law_field_write(before, 0x1_0000, 2, bits::level(v0), 0x2_0000, 0x8000);
}

/// `set_autopush` sets bit 16 of the shift register settings, and nothing else.
pub proof fn law_set_autopush<S: PioStateMachine, M: Platform>(
    sm: &mut S,
    m: &mut M,
    auto: bool,
)
    requires
        call_ensures(S::set_autopush::<M>, (sm, m, auto), ()),
    ensures
        ({
            let addr = (0x5020_00d0 + 0x10_0000 * S::Pio::no() + 0x18 * S::index()) as u32;
            let before = final(m).trace()[old(m).trace().len() as int]->Read_value;
            let after = final(m).trace().last()->Write_value;
            &&& final(m).trace() == old(m).trace().push(Event::Read { addr, value: before }).push(
                Event::Write { addr, value: after },
            )
            &&& (after / 0x1_0000) % 2 == (if auto {
                1int
            } else {
                0
            })
            &&& after % 0x1_0000 == before % 0x1_0000
            &&& after / 0x2_0000 == before / 0x2_0000
        }),
{
    S::lemma_sm();
    S::Pio::lemma_block();
    let before = final(m).trace()[old(m).trace().len() as int]->Read_value;
    let after = final(m).trace().last()->Write_value;
    lemma_autopush(before, after, auto);
}

proof fn lemma_sideset_count(before: u32, after: u32, v0: u8)
    requires
        after == Pinctrl(before).with_sideset_count(v0).0,
    ensures
        (after / 0x2000_0000) % 8 == v0 % 8,
        after % 0x2000_0000 == before % 0x2000_0000,
{
    bits::law_field_write(before, 0x2000_0000, 8, v0 as u32, 1, 0x2000_0000);
}

/// `set_sideset_count` sets bits 29 to 31 of the pin mapping, and nothing else.
pub proof fn law_set_sideset_count<S: PioStateMachine, M: Platform>(
    sm: &mut S,
    m: &mut M,
    count: u8,
)
    requires
        call_ensures(S::set_sideset_count::<M>, (sm, m, count), ()),
    ensures
        ({
            let addr = (0x5020_00dc + 0x10_0000 * S::Pio::no() + 0x18 * S::index()) as u32;
            let before = final(m).trace()[old(m).trace().len() as int]->Read_value;
            let after = final(m).trace().last()->Write_value;
            &&& final(m).trace() == old(m).trace().push(Event::Read { addr, value: before }).push(
                Event::Write { addr, value: after },
            )
            &&& (after / 0x2000_0000) % 8 == count % 8
            &&& after % 0x2000_0000 == before % 0x2000_0000
        }),
{
    S::lemma_sm();
    S::Pio::lemma_block();
    let before = final(m).trace()[old(m).trace().len() as int]->Read_value;
    let after = final(m).trace().last()->Write_value;
    lemma_sideset_count(before, after, count);
}

proof fn lemma_sideset_base(before: u32, after: u32, v0: u8)
    requires
        after == Pinctrl(before).with_sideset_base(v0).0,
    ensures
        (after / 0x400) % 32 == v0 % 32,
        after % 0x400 == before % 0x400,
        after / 0x8000 == before / 0x8000,
{
    bits::law_field_write(before, 0x400, 32, v0 as u32, 1, 0x400);
    bits::law_field_write(before, 0x400, 32, v0 as u32, 0x8000, 0x2_0000);
}

/// `set_sideset_base_pin` sets bits 10 to 14 of the pin mapping to the number of the pin, and
/// nothing else.
pub proof fn law_set_sideset_base_pin<S: PioStateMachine, M: Platform>(
    sm: &mut S,
    m: &mut M,
    base_pin: &PioPin<S::Pio>,
)
    requires
        call_ensures(S::set_sideset_base_pin::<M>, (sm, m, base_pin), ()),
    ensures
        ({
            let addr = (0x5020_00dc + 0x10_0000 * S::Pio::no() + 0x18 * S::index()) as u32;
            let before = final(m).trace()[old(m).trace().len() as int]->Read_value;
            let after = final(m).trace().last()->Write_value;
            &&& final(m).trace() == old(m).trace().push(Event::Read { addr, value: before }).push(
                Event::Write { addr, value: after },
            )
            &&& (after / 0x400) % 32 == base_pin.bank() % 32
            &&& after % 0x400 == before % 0x400
            &&& after / 0x8000 == before / 0x8000
        }),
{
    S::lemma_sm();
    S::Pio::lemma_block();
    let before = final(m).trace()[old(m).trace().len() as int]->Read_value;
    let after = final(m).trace().last()->Write_value;
    lemma_sideset_base(before, after, base_pin.bank() % 32);
}

proof fn lemma_in_base(before: u32, after: u32, v0: u8)
    requires
        after == Pinctrl(before).with_in_base(v0).0,
    ensures
        (after / 0x8000) % 32 == v0 % 32,
        after % 0x8000 == before % 0x8000,
        after / 0x10_0000 == before / 0x10_0000,
{
    bits::law_field_write(before, 0x8000, 32, v0 as u32, 1, 0x8000);
    bits::law_field_write(before, 0x8000, 32, v0 as u32, 0x10_0000, 0x1000);
}

/// `set_in_base_pin` sets bits 15 to 19 of the pin mapping to the number of the pin, and nothing
/// else.
pub proof fn law_set_in_base_pin<S: PioStateMachine, M: Platform>(
    sm: &mut S,
    m: &mut M,
    base: &PioPin<S::Pio>,
)
    requires
        call_ensures(S::set_in_base_pin::<M>, (sm, m, base), ()),
    ensures
        ({
            let addr = (0x5020_00dc + 0x10_0000 * S::Pio::no() + 0x18 * S::index()) as u32;
            let before = final(m).trace()[old(m).trace().len() as int]->Read_value;
            let after = final(m).trace().last()->Write_value;
            &&& final(m).trace() == old(m).trace().push(Event::Read { addr, value: before }).push(
                Event::Write { addr, value: after },
            )
            &&& (after / 0x8000) % 32 == base.bank() % 32
            &&& after % 0x8000 == before % 0x8000
            &&& after / 0x10_0000 == before / 0x10_0000
        }),
{
    S::lemma_sm();
    S::Pio::lemma_block();
    let before = final(m).trace()[old(m).trace().len() as int]->Read_value;
    let after = final(m).trace().last()->Write_value;
    lemma_in_base(before, after, base.bank() % 32);
}

proof fn lemma_set_base_and_set_count(before: u32, after: u32, v0: u8, v1: u8)
    requires
        after == Pinctrl(before).with_set_base(v0).with_set_count(v1).0,
    ensures
        (after / 0x20) % 32 == v0 % 32,
        (after / 0x400_0000) % 8 == v1 % 8,
        after % 0x20 == before % 0x20,
        (after / 0x400) % 0x1_0000 == (before / 0x400) % 0x1_0000,
        after / 0x2000_0000 == before / 0x2000_0000,
{
    bits::law_field_write(before, 0x20, 32, v0 as u32, 0x400_0000, 8);
    bits::law_field_write(before, 0x20, 32, v0 as u32, 1, 0x20);
    bits::law_field_write(before, 0x20, 32, v0 as u32, 0x400, 0x1_0000);
    bits::law_field_write(before, 0x20, 32, v0 as u32, 0x2000_0000, 8);
    let half = Pinctrl(before).with_set_base(v0).0;
    bits::law_field_write(half, 0x400_0000, 8, v1 as u32, 0x20, 0x20);
    bits::law_field_write(half, 0x400_0000, 8, v1 as u32, 1, 0x20);
    bits::law_field_write(half, 0x400_0000, 8, v1 as u32, 0x400, 0x1_0000);
    bits::law_field_write(half, 0x400_0000, 8, v1 as u32, 0x2000_0000, 8);
}

/// `set_set_range` sets the first pin in bits 5 to 9 and the count in bits 26 to 28 of the pin
/// mapping, and nothing else.
pub proof fn law_set_set_range<S: PioStateMachine, M: Platform>(
    sm: &mut S,
    m: &mut M,
    base: u8,
    count: u8,
)
    requires
        call_ensures(S::set_set_range::<M>, (sm, m, base, count), ()),
    ensures
        ({
            let addr = (0x5020_00dc + 0x10_0000 * S::Pio::no() + 0x18 * S::index()) as u32;
            let before = final(m).trace()[old(m).trace().len() as int]->Read_value;
            let after = final(m).trace().last()->Write_value;
            &&& final(m).trace() == old(m).trace().push(Event::Read { addr, value: before }).push(
                Event::Write { addr, value: after },
            )
            &&& (after / 0x20) % 32 == base % 32
            &&& (after / 0x400_0000) % 8 == count % 8
            &&& after % 0x20 == before % 0x20
            &&& (after / 0x400) % 0x1_0000 == (before / 0x400) % 0x1_0000
            &&& after / 0x2000_0000 == before / 0x2000_0000
        }),
{
    S::lemma_sm();
    S::Pio::lemma_block();
    let before = final(m).trace()[old(m).trace().len() as int]->Read_value;
    let after = final(m).trace().last()->Write_value;
    lemma_set_base_and_set_count(before, after, base, count);
}

proof fn lemma_out_base_and_out_count(before: u32, after: u32, v0: u8, v1: u8)
    requires
        after == Pinctrl(before).with_out_base(v0).with_out_count(v1).0,
    ensures
        after % 32 == v0 % 32,
        (after / 0x10_0000) % 64 == v1 % 64,
        (after / 0x20) % 0x8000 == (before / 0x20) % 0x8000,
        after / 0x400_0000 == before / 0x400_0000,
{
    bits::law_field_write(before, 1, 32, v0 as u32, 0x10_0000, 0x40);
    bits::law_field_write(before, 1, 32, v0 as u32, 0x20, 0x8000);
    bits::law_field_write(before, 1, 32, v0 as u32, 0x400_0000, 0x40);
    let half = Pinctrl(before).with_out_base(v0).0;
    bits::law_field_write(half, 0x10_0000, 64, v1 as u32, 1, 0x20);
    bits::law_field_write(half, 0x10_0000, 64, v1 as u32, 0x20, 0x8000);
    bits::law_field_write(half, 0x10_0000, 64, v1 as u32, 0x400_0000, 0x40);
}

/// `set_out_range` sets the first pin in bits 0 to 4 and the count in bits 20 to 25 of the pin
/// mapping, and nothing else.
pub proof fn law_set_out_range<S: PioStateMachine, M: Platform>(
    sm: &mut S,
    m: &mut M,
    base: u8,
    count: u8,
)
    requires
        call_ensures(S::set_out_range::<M>, (sm, m, base, count), ()),
    ensures
        ({
            let addr = (0x5020_00dc + 0x10_0000 * S::Pio::no() + 0x18 * S::index()) as u32;
            let before = final(m).trace()[old(m).trace().len() as int]->Read_value;
            let after = final(m).trace().last()->Write_value;
            &&& final(m).trace() == old(m).trace().push(Event::Read { addr, value: before }).push(
                Event::Write { addr, value: after },
            )
            &&& after % 32 == base % 32
            &&& (after / 0x10_0000) % 64 == count % 64
            &&& (after / 0x20) % 0x8000 == (before / 0x20) % 0x8000
            &&& after / 0x400_0000 == before / 0x400_0000
        }),
{
    S::lemma_sm();
    S::Pio::lemma_block();
    let before = final(m).trace()[old(m).trace().len() as int]->Read_value;
    let after = final(m).trace().last()->Write_value;
    lemma_out_base_and_out_count(before, after, base, count);
}

/// `set_set_pins` sets the number of the first pin in bits 5 to 9 and the number of pins in bits 26
/// to 28 of the pin mapping, and nothing else.
pub proof fn law_set_set_pins<S: PioStateMachine, M: Platform>(
    sm: &mut S,
    m: &mut M,
    pins: &[&PioPin<S::Pio>],
)
    requires
        1 <= pins@.len() < 32,
        call_ensures(S::set_set_pins::<M>, (sm, m, pins), ()),
    ensures
        ({
            let addr = (0x5020_00dc + 0x10_0000 * S::Pio::no() + 0x18 * S::index()) as u32;
            let before = final(m).trace()[old(m).trace().len() as int]->Read_value;
            let after = final(m).trace().last()->Write_value;
            &&& final(m).trace() == old(m).trace().push(Event::Read { addr, value: before }).push(
                Event::Write { addr, value: after },
            )
            &&& (after / 0x20) % 32 == pins@[0].bank() % 32
            &&& (after / 0x400_0000) % 8 == pins@.len() % 8
            &&& after % 0x20 == before % 0x20
            &&& (after / 0x400) % 0x1_0000 == (before / 0x400) % 0x1_0000
            &&& after / 0x2000_0000 == before / 0x2000_0000
        }),
{
    S::lemma_sm();
    S::Pio::lemma_block();
    let before = final(m).trace()[old(m).trace().len() as int]->Read_value;
    let after = final(m).trace().last()->Write_value;
    lemma_set_base_and_set_count(before, after, pins@[0].bank() % 32, pins@.len() as u8);
}

/// `set_out_pins` sets the number of the first pin in bits 0 to 4 and the number of pins in bits 20
/// to 25 of the pin mapping, and nothing else.
pub proof fn law_set_out_pins<S: PioStateMachine, M: Platform>(
    sm: &mut S,
    m: &mut M,
    pins: &[&PioPin<S::Pio>],
)
    requires
        1 <= pins@.len() < 32,
        call_ensures(S::set_out_pins::<M>, (sm, m, pins), ()),
    ensures
        ({
            let addr = (0x5020_00dc + 0x10_0000 * S::Pio::no() + 0x18 * S::index()) as u32;
            let before = final(m).trace()[old(m).trace().len() as int]->Read_value;
            let after = final(m).trace().last()->Write_value;
            &&& final(m).trace() == old(m).trace().push(Event::Read { addr, value: before }).push(
                Event::Write { addr, value: after },
            )
            &&& after % 32 == pins@[0].bank() % 32
            &&& (after / 0x10_0000) % 64 == pins@.len() % 64
            &&& (after / 0x20) % 0x8000 == (before / 0x20) % 0x8000
            &&& after / 0x400_0000 == before / 0x400_0000
        }),
{
    S::lemma_sm();
    S::Pio::lemma_block();
    let before = final(m).trace()[old(m).trace().len() as int]->Read_value;
    let after = final(m).trace().last()->Write_value;
    lemma_out_base_and_out_count(before, after, pins@[0].bank() % 32, pins@.len() as u8);
}

/// `is_side_enabled` returns what bit 30 of the word that it loads say.
pub proof fn law_is_side_enabled<S: PioStateMachine, M: Platform>(sm: &S, m: &mut M, r: bool)
    requires
        call_ensures(S::is_side_enabled::<M>, (sm, m), r),
    ensures
        ({
            let addr = (0x5020_00cc + 0x10_0000 * S::Pio::no() + 0x18 * S::index()) as u32;
            let word = final(m).trace().last()->Read_value;
            &&& final(m).trace() == old(m).trace().push(Event::Read { addr, value: word })
            &&& r == ((word / 0x4000_0000) % 2 == 1)
        }),
{
    S::lemma_sm();
    S::Pio::lemma_block();
}

/// `is_side_pindir` returns what bit 29 of the word that it loads say.
pub proof fn law_is_side_pindir<S: PioStateMachine, M: Platform>(sm: &S, m: &mut M, r: bool)
    requires
        call_ensures(S::is_side_pindir::<M>, (sm, m), r),
    ensures
        ({
            let addr = (0x5020_00cc + 0x10_0000 * S::Pio::no() + 0x18 * S::index()) as u32;
            let word = final(m).trace().last()->Read_value;
            &&& final(m).trace() == old(m).trace().push(Event::Read { addr, value: word })
            &&& r == ((word / 0x2000_0000) % 2 == 1)
        }),
{
    S::lemma_sm();
    S::Pio::lemma_block();
}

/// `get_jmp_pin` returns what bits 24 to 28 of the word that it loads say.
pub proof fn law_get_jmp_pin<S: PioStateMachine, M: Platform>(sm: &mut S, m: &mut M, r: u8)
    requires
        call_ensures(S::get_jmp_pin::<M>, (sm, m), r),
    ensures
        ({
            let addr = (0x5020_00cc + 0x10_0000 * S::Pio::no() + 0x18 * S::index()) as u32;
            let word = final(m).trace().last()->Read_value;
            &&& final(m).trace() == old(m).trace().push(Event::Read { addr, value: word })
            &&& r == (word / 0x100_0000) % 32
        }),
{
    S::lemma_sm();
    S::Pio::lemma_block();
}

/// `get_wrap` returns what bits 12 to 16 and bits 7 to 11 of the word that it loads say.
pub proof fn law_get_wrap<S: PioStateMachine, M: Platform>(sm: &S, m: &mut M, r: (u8, u8))
    requires
        call_ensures(S::get_wrap::<M>, (sm, m), r),
    ensures
        ({
            let addr = (0x5020_00cc + 0x10_0000 * S::Pio::no() + 0x18 * S::index()) as u32;
            let word = final(m).trace().last()->Read_value;
            &&& final(m).trace() == old(m).trace().push(Event::Read { addr, value: word })
            &&& r.0 == (word / 0x1000) % 32
            &&& r.1 == (word / 0x80) % 32
        }),
{
    S::lemma_sm();
    S::Pio::lemma_block();
}

/// `get_pull_threshold` returns what bits 25 to 29 of the word that it loads say.
pub proof fn law_get_pull_threshold<S: PioStateMachine, M: Platform>(sm: &S, m: &mut M, r: u8)
    requires
        call_ensures(S::get_pull_threshold::<M>, (sm, m), r),
    ensures
        ({
            let addr = (0x5020_00d0 + 0x10_0000 * S::Pio::no() + 0x18 * S::index()) as u32;
            let word = final(m).trace().last()->Read_value;
            &&& final(m).trace() == old(m).trace().push(Event::Read { addr, value: word })
            &&& r == (word / 0x200_0000) % 32
        }),
{
    S::lemma_sm();
    S::Pio::lemma_block();
}

/// `get_push_threshold` returns what bits 20 to 24 of the word that it loads say.
pub proof fn law_get_push_threshold<S: PioStateMachine, M: Platform>(sm: &S, m: &mut M, r: u8)
    requires
        call_ensures(S::get_push_threshold::<M>, (sm, m), r),
    ensures
        ({
            let addr = (0x5020_00d0 + 0x10_0000 * S::Pio::no() + 0x18 * S::index()) as u32;
            let word = final(m).trace().last()->Read_value;
            &&& final(m).trace() == old(m).trace().push(Event::Read { addr, value: word })
            &&& r == (word / 0x10_0000) % 32
        }),
{
    S::lemma_sm();
    S::Pio::lemma_block();
}

/// `is_autopull` returns what bit 17 of the word that it loads say.
pub proof fn law_is_autopull<S: PioStateMachine, M: Platform>(sm: &S, m: &mut M, r: bool)
    requires
        call_ensures(S::is_autopull::<M>, (sm, m), r),
    ensures
        ({
            let addr = (0x5020_00d0 + 0x10_0000 * S::Pio::no() + 0x18 * S::index()) as u32;
            let word = final(m).trace().last()->Read_value;
            &&& final(m).trace() == old(m).trace().push(Event::Read { addr, value: word })
            &&& r == ((word / 0x2_0000) % 2 == 1)
        }),
{
    S::lemma_sm();
    S::Pio::lemma_block();
}

/// `is_autopush` returns what bit 16 of the word that it loads say.
pub proof fn law_is_autopush<S: PioStateMachine, M: Platform>(sm: &S, m: &mut M, r: bool)
    requires
        call_ensures(S::is_autopush::<M>, (sm, m), r),
    ensures
        ({
            let addr = (0x5020_00d0 + 0x10_0000 * S::Pio::no() + 0x18 * S::index()) as u32;
            let word = final(m).trace().last()->Read_value;
            &&& final(m).trace() == old(m).trace().push(Event::Read { addr, value: word })
            &&& r == ((word / 0x1_0000) % 2 == 1)
        }),
{
    S::lemma_sm();
    S::Pio::lemma_block();
}

/// `get_out_shiftdir` returns what bit 19 of the word that it loads say.
pub proof fn law_get_out_shiftdir<S: PioStateMachine, M: Platform>(
    sm: &S,
    m: &mut M,
    r: ShiftDirection,
)
    requires
        call_ensures(S::get_out_shiftdir::<M>, (sm, m), r),
    ensures
        ({
            let addr = (0x5020_00d0 + 0x10_0000 * S::Pio::no() + 0x18 * S::index()) as u32;
            let word = final(m).trace().last()->Read_value;
            &&& final(m).trace() == old(m).trace().push(Event::Read { addr, value: word })
            &&& r == ShiftDirection::Right <==> (word / 0x8_0000) % 2 == 1
            &&& r == ShiftDirection::Left <==> (word / 0x8_0000) % 2 == 0
        }),
{
    S::lemma_sm();
    S::Pio::lemma_block();
}

/// `get_in_shiftdir` returns what bit 18 of the word that it loads say.
pub proof fn law_get_in_shiftdir<S: PioStateMachine, M: Platform>(
    sm: &S,
    m: &mut M,
    r: ShiftDirection,
)
    requires
        call_ensures(S::get_in_shiftdir::<M>, (sm, m), r),
    ensures
        ({
            let addr = (0x5020_00d0 + 0x10_0000 * S::Pio::no() + 0x18 * S::index()) as u32;
            let word = final(m).trace().last()->Read_value;
            &&& final(m).trace() == old(m).trace().push(Event::Read { addr, value: word })
            &&& r == ShiftDirection::Right <==> (word / 0x4_0000) % 2 == 1
            &&& r == ShiftDirection::Left <==> (word / 0x4_0000) % 2 == 0
        }),
{
    S::lemma_sm();
    S::Pio::lemma_block();
}

/// `get_fifo_join` returns what bit 31 and bit 30 of the word that it loads say.
pub proof fn law_get_fifo_join<S: PioStateMachine, M: Platform>(sm: &S, m: &mut M, r: FifoJoin)
    requires
        call_ensures(S::get_fifo_join::<M>, (sm, m), r),
    ensures
        ({
            let addr = (0x5020_00d0 + 0x10_0000 * S::Pio::no() + 0x18 * S::index()) as u32;
            let word = final(m).trace().last()->Read_value;
            &&& final(m).trace() == old(m).trace().push(Event::Read { addr, value: word })
            &&& r == FifoJoin::RxOnly <==> word / 0x8000_0000 == 1
            &&& r == FifoJoin::TxOnly <==> word / 0x4000_0000 == 1
            &&& r == FifoJoin::Duplex <==> word / 0x4000_0000 == 0
        }),
{
    S::lemma_sm();
    S::Pio::lemma_block();
}

/// `get_sideset_count` returns what bits 29 to 31 of the word that it loads say.
pub proof fn law_get_sideset_count<S: PioStateMachine, M: Platform>(sm: &S, m: &mut M, r: u8)
    requires
        call_ensures(S::get_sideset_count::<M>, (sm, m), r),
    ensures
        ({
            let addr = (0x5020_00dc + 0x10_0000 * S::Pio::no() + 0x18 * S::index()) as u32;
            let word = final(m).trace().last()->Read_value;
            &&& final(m).trace() == old(m).trace().push(Event::Read { addr, value: word })
            &&& r == (word / 0x2000_0000) % 8
        }),
{
    S::lemma_sm();
    S::Pio::lemma_block();
}

/// `get_sideset_base` returns what bits 10 to 14 of the word that it loads say.
pub proof fn law_get_sideset_base<S: PioStateMachine, M: Platform>(sm: &S, m: &mut M, r: u8)
    requires
        call_ensures(S::get_sideset_base::<M>, (sm, m), r),
    ensures
        ({
            let addr = (0x5020_00dc + 0x10_0000 * S::Pio::no() + 0x18 * S::index()) as u32;
            let word = final(m).trace().last()->Read_value;
            &&& final(m).trace() == old(m).trace().push(Event::Read { addr, value: word })
            &&& r == (word / 0x400) % 32
        }),
{
    S::lemma_sm();
    S::Pio::lemma_block();
}

/// `get_set_range` returns what bits 5 to 9 and bits 26 to 28 of the word that it loads say.
pub proof fn law_get_set_range<S: PioStateMachine, M: Platform>(sm: &S, m: &mut M, r: (u8, u8))
    requires
        call_ensures(S::get_set_range::<M>, (sm, m), r),
    ensures
        ({
            let addr = (0x5020_00dc + 0x10_0000 * S::Pio::no() + 0x18 * S::index()) as u32;
            let word = final(m).trace().last()->Read_value;
            &&& final(m).trace() == old(m).trace().push(Event::Read { addr, value: word })
            &&& r.0 == (word / 0x20) % 32
            &&& r.1 == (word / 0x400_0000) % 8
        }),
{
    S::lemma_sm();
    S::Pio::lemma_block();
}

/// `get_in_base` returns what bits 15 to 19 of the word that it loads say.
pub proof fn law_get_in_base<S: PioStateMachine, M: Platform>(sm: &S, m: &mut M, r: u8)
    requires
        call_ensures(S::get_in_base::<M>, (sm, m), r),
    ensures
        ({
            let addr = (0x5020_00dc + 0x10_0000 * S::Pio::no() + 0x18 * S::index()) as u32;
            let word = final(m).trace().last()->Read_value;
            &&& final(m).trace() == old(m).trace().push(Event::Read { addr, value: word })
            &&& r == (word / 0x8000) % 32
        }),
{
    S::lemma_sm();
    S::Pio::lemma_block();
}

/// `get_out_range` returns what bits 0 to 4 and bits 20 to 25 of the word that it loads say.
pub proof fn law_get_out_range<S: PioStateMachine, M: Platform>(sm: &S, m: &mut M, r: (u8, u8))
    requires
        call_ensures(S::get_out_range::<M>, (sm, m), r),
    ensures
        ({
            let addr = (0x5020_00dc + 0x10_0000 * S::Pio::no() + 0x18 * S::index()) as u32;
            let word = final(m).trace().last()->Read_value;
            &&& final(m).trace() == old(m).trace().push(Event::Read { addr, value: word })
            &&& r.0 == word % 32
            &&& r.1 == (word / 0x10_0000) % 64
        }),
{
    S::lemma_sm();
    S::Pio::lemma_block();
}

/// `clear_fifos` stores the shift register settings twice, each time with bit 31 inverted against
/// the word loaded just before and with nothing else changed.
pub proof fn law_clear_fifos<S: PioStateMachine, M: Platform>(sm: &mut S, m: &mut M)
    requires
        call_ensures(S::clear_fifos::<M>, (sm, m), ()),
    ensures
        ({
            let addr = (0x5020_00d0 + 0x10_0000 * S::Pio::no() + 0x18 * S::index()) as u32;
            let n = old(m).trace().len() as int;
            let first = final(m).trace()[n]->Read_value;
            let joined = final(m).trace()[n + 1]->Write_value;
            let second = final(m).trace()[n + 2]->Read_value;
            let restored = final(m).trace()[n + 3]->Write_value;
            &&& final(m).trace() == old(m).trace().push(Event::Read { addr, value: first }).push(
                Event::Write { addr, value: joined },
            ).push(Event::Read { addr, value: second }).push(
                Event::Write { addr, value: restored },
            )
            &&& joined % 0x8000_0000 == first % 0x8000_0000
            &&& joined / 0x8000_0000 != first / 0x8000_0000
            &&& restored % 0x8000_0000 == second % 0x8000_0000
            &&& restored / 0x8000_0000 != second / 0x8000_0000
        }),
{
    S::lemma_sm();
    S::Pio::lemma_block();
}

/// `set_clkdiv` stores the divisor eight bits up, so that its integer part is the upper half of the
/// word; what does not fit is dropped.
pub proof fn law_set_clkdiv<S: PioStateMachine, M: Platform>(
    sm: &mut S,
    m: &mut M,
    div_x_256: u32,
)
    requires
        call_ensures(S::set_clkdiv::<M>, (sm, m, div_x_256), ()),
    ensures
        ({
            let addr = (0x5020_00c8 + 0x10_0000 * S::Pio::no() + 0x18 * S::index()) as u32;
            let word = final(m).trace().last()->Write_value;
            &&& final(m).trace() == old(m).trace().push(Event::Write { addr, value: word })
            &&& word % 0x100 == 0
            &&& word / 0x100 == div_x_256 % 0x100_0000
        }),
{
    S::lemma_sm();
    S::Pio::lemma_block();
}

/// `get_clkdiv` returns the upper 24 bits of the word that it loads.
pub proof fn law_get_clkdiv<S: PioStateMachine, M: Platform>(sm: &S, m: &mut M, r: u32)
    requires
        call_ensures(S::get_clkdiv::<M>, (sm, m), r),
    ensures
        ({
            let addr = (0x5020_00c8 + 0x10_0000 * S::Pio::no() + 0x18 * S::index()) as u32;
            let word = final(m).trace().last()->Read_value;
            &&& final(m).trace() == old(m).trace().push(Event::Read { addr, value: word })
            &&& r == word / 0x100
        }),
{
    S::lemma_sm();
    S::Pio::lemma_block();
}

/// `get_addr` returns the lowest five bits of the program counter.
pub proof fn law_get_addr<S: PioStateMachine, M: Platform>(sm: &S, m: &mut M, r: u8)
    requires
        call_ensures(S::get_addr::<M>, (sm, m), r),
    ensures
        ({
            let addr = (0x5020_00d4 + 0x10_0000 * S::Pio::no() + 0x18 * S::index()) as u32;
            let word = final(m).trace().last()->Read_value;
            &&& final(m).trace() == old(m).trace().push(Event::Read { addr, value: word })
            &&& r == word % 32
        }),
{
    S::lemma_sm();
    S::Pio::lemma_block();
}

/// `get_current_instr` returns the word of the instruction register as it is.
pub proof fn law_get_current_instr<S: PioStateMachine, M: Platform>(m: &mut M, r: u32)
    requires
        call_ensures(S::get_current_instr::<M>, (m,), r),
    ensures
        ({
            let addr = (0x5020_00d8 + 0x10_0000 * S::Pio::no() + 0x18 * S::index()) as u32;
            final(m).trace() == old(m).trace().push(Event::Read { addr, value: r })
        }),
{
    S::lemma_sm();
    S::Pio::lemma_block();
}

/// `exec_instr` stores the instruction, all of it, in the instruction register.
pub proof fn law_exec_instr<S: PioStateMachine, M: Platform>(sm: &mut S, m: &mut M, instr: u16)
    requires
        call_ensures(S::exec_instr::<M>, (sm, m, instr), ()),
    ensures
        ({
            let addr = (0x5020_00d8 + 0x10_0000 * S::Pio::no() + 0x18 * S::index()) as u32;
            let word = final(m).trace().last()->Write_value;
            &&& final(m).trace() == old(m).trace().push(Event::Write { addr, value: word })
            &&& word == instr
        }),
{
    S::lemma_sm();
    S::Pio::lemma_block();
}

} // verus!
