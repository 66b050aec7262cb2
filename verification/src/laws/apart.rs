//! What one call changes, another thing does not share.

use crate::bits;
use crate::memmap;
use crate::pin::Pull;
use crate::regs::{DmaCtrl, Execctrl, PadCtrl, Pinctrl, Shiftctrl};
use crate::sealed::{PioInstance as _, PioStateMachine as _};
use crate::sm;
use crate::sm::{DataSize, PioStateMachine};
use vstd::prelude::*;

verus! {

/// A field write seen through another field that the written one does not overlap.
proof fn lemma_apart(word: u32, unit: u32, size: u32, value: u32, other_unit: u32, other_size: u32)
    requires
        unit > 0,
        size > 0,
        other_unit > 0,
        other_size > 0,
        0x1_0000_0000int % (unit * size) == 0,
        (other_unit as int) % (unit * size) == 0 || (unit as int) % (other_unit * other_size) == 0,
    ensures
        bits::field(bits::with_field(word, unit, size, value), other_unit, other_size)
            == bits::field(word, other_unit, other_size),
{
    bits::law_field_write(word, unit, size, value, other_unit, other_size);
}

/// Changing the execution setting `wrap_bottom` leaves the others as they were.
pub proof fn law_wrap_bottom_is_apart(word: Execctrl, value: u8)
    ensures
        word.with_wrap_bottom(value).wrap_top() == word.wrap_top(),
        word.with_wrap_bottom(value).jmp_pin() == word.jmp_pin(),
        word.with_wrap_bottom(value).side_pindir() == word.side_pindir(),
        word.with_wrap_bottom(value).side_en() == word.side_en(),
{
    lemma_apart(word.0, 0x80, 32, value as u32, 0x1000, 32);
    lemma_apart(word.0, 0x80, 32, value as u32, 0x100_0000, 32);
    lemma_apart(word.0, 0x80, 32, value as u32, 0x2000_0000, 2);
    lemma_apart(word.0, 0x80, 32, value as u32, 0x4000_0000, 2);
}

/// Changing the execution setting `wrap_top` leaves the others as they were.
pub proof fn law_wrap_top_is_apart(word: Execctrl, value: u8)
    ensures
        word.with_wrap_top(value).wrap_bottom() == word.wrap_bottom(),
        word.with_wrap_top(value).jmp_pin() == word.jmp_pin(),
        word.with_wrap_top(value).side_pindir() == word.side_pindir(),
        word.with_wrap_top(value).side_en() == word.side_en(),
{
    lemma_apart(word.0, 0x1000, 32, value as u32, 0x80, 32);
    lemma_apart(word.0, 0x1000, 32, value as u32, 0x100_0000, 32);
    lemma_apart(word.0, 0x1000, 32, value as u32, 0x2000_0000, 2);
    lemma_apart(word.0, 0x1000, 32, value as u32, 0x4000_0000, 2);
}

/// Changing the execution setting `jmp_pin` leaves the others as they were.
pub proof fn law_jmp_pin_is_apart(word: Execctrl, value: u8)
    ensures
        word.with_jmp_pin(value).wrap_bottom() == word.wrap_bottom(),
        word.with_jmp_pin(value).wrap_top() == word.wrap_top(),
        word.with_jmp_pin(value).side_pindir() == word.side_pindir(),
        word.with_jmp_pin(value).side_en() == word.side_en(),
{
    lemma_apart(word.0, 0x100_0000, 32, value as u32, 0x80, 32);
    lemma_apart(word.0, 0x100_0000, 32, value as u32, 0x1000, 32);
    lemma_apart(word.0, 0x100_0000, 32, value as u32, 0x2000_0000, 2);
    lemma_apart(word.0, 0x100_0000, 32, value as u32, 0x4000_0000, 2);
}

/// Changing the execution setting `side_pindir` leaves the others as they were.
pub proof fn law_side_pindir_is_apart(word: Execctrl, value: bool)
    ensures
        word.with_side_pindir(value).wrap_bottom() == word.wrap_bottom(),
        word.with_side_pindir(value).wrap_top() == word.wrap_top(),
        word.with_side_pindir(value).jmp_pin() == word.jmp_pin(),
        word.with_side_pindir(value).side_en() == word.side_en(),
{
    lemma_apart(word.0, 0x2000_0000, 2, bits::level(value), 0x80, 32);
    lemma_apart(word.0, 0x2000_0000, 2, bits::level(value), 0x1000, 32);
    lemma_apart(word.0, 0x2000_0000, 2, bits::level(value), 0x100_0000, 32);
    lemma_apart(word.0, 0x2000_0000, 2, bits::level(value), 0x4000_0000, 2);
}

/// Changing the execution setting `side_en` leaves the others as they were.
pub proof fn law_side_en_is_apart(word: Execctrl, value: bool)
    ensures
        word.with_side_en(value).wrap_bottom() == word.wrap_bottom(),
        word.with_side_en(value).wrap_top() == word.wrap_top(),
        word.with_side_en(value).jmp_pin() == word.jmp_pin(),
        word.with_side_en(value).side_pindir() == word.side_pindir(),
{
    lemma_apart(word.0, 0x4000_0000, 2, bits::level(value), 0x80, 32);
    lemma_apart(word.0, 0x4000_0000, 2, bits::level(value), 0x1000, 32);
    lemma_apart(word.0, 0x4000_0000, 2, bits::level(value), 0x100_0000, 32);
    lemma_apart(word.0, 0x4000_0000, 2, bits::level(value), 0x2000_0000, 2);
}

/// Changing the shift register setting `autopush` leaves the others as they were.
pub proof fn law_autopush_is_apart(word: Shiftctrl, value: bool)
    ensures
        word.with_autopush(value).autopull() == word.autopull(),
        word.with_autopush(value).in_shiftdir() == word.in_shiftdir(),
        word.with_autopush(value).out_shiftdir() == word.out_shiftdir(),
        word.with_autopush(value).push_thresh() == word.push_thresh(),
        word.with_autopush(value).pull_thresh() == word.pull_thresh(),
        word.with_autopush(value).fjoin_tx() == word.fjoin_tx(),
        word.with_autopush(value).fjoin_rx() == word.fjoin_rx(),
{
    lemma_apart(word.0, 0x1_0000, 2, bits::level(value), 0x2_0000, 2);
    lemma_apart(word.0, 0x1_0000, 2, bits::level(value), 0x4_0000, 2);
    lemma_apart(word.0, 0x1_0000, 2, bits::level(value), 0x8_0000, 2);
    lemma_apart(word.0, 0x1_0000, 2, bits::level(value), 0x10_0000, 32);
    lemma_apart(word.0, 0x1_0000, 2, bits::level(value), 0x200_0000, 32);
    lemma_apart(word.0, 0x1_0000, 2, bits::level(value), 0x4000_0000, 2);
    lemma_apart(word.0, 0x1_0000, 2, bits::level(value), 0x8000_0000, 2);
}

/// Changing the shift register setting `autopull` leaves the others as they were.
pub proof fn law_autopull_is_apart(word: Shiftctrl, value: bool)
    ensures
        word.with_autopull(value).autopush() == word.autopush(),
        word.with_autopull(value).in_shiftdir() == word.in_shiftdir(),
        word.with_autopull(value).out_shiftdir() == word.out_shiftdir(),
        word.with_autopull(value).push_thresh() == word.push_thresh(),
        word.with_autopull(value).pull_thresh() == word.pull_thresh(),
        word.with_autopull(value).fjoin_tx() == word.fjoin_tx(),
        word.with_autopull(value).fjoin_rx() == word.fjoin_rx(),
{
    lemma_apart(word.0, 0x2_0000, 2, bits::level(value), 0x1_0000, 2);
    lemma_apart(word.0, 0x2_0000, 2, bits::level(value), 0x4_0000, 2);
    lemma_apart(word.0, 0x2_0000, 2, bits::level(value), 0x8_0000, 2);
    lemma_apart(word.0, 0x2_0000, 2, bits::level(value), 0x10_0000, 32);
    lemma_apart(word.0, 0x2_0000, 2, bits::level(value), 0x200_0000, 32);
    lemma_apart(word.0, 0x2_0000, 2, bits::level(value), 0x4000_0000, 2);
    lemma_apart(word.0, 0x2_0000, 2, bits::level(value), 0x8000_0000, 2);
}

/// Changing the shift register setting `in_shiftdir` leaves the others as they were.
pub proof fn law_in_shiftdir_is_apart(word: Shiftctrl, value: bool)
    ensures
        word.with_in_shiftdir(value).autopush() == word.autopush(),
        word.with_in_shiftdir(value).autopull() == word.autopull(),
        word.with_in_shiftdir(value).out_shiftdir() == word.out_shiftdir(),
        word.with_in_shiftdir(value).push_thresh() == word.push_thresh(),
        word.with_in_shiftdir(value).pull_thresh() == word.pull_thresh(),
        word.with_in_shiftdir(value).fjoin_tx() == word.fjoin_tx(),
        word.with_in_shiftdir(value).fjoin_rx() == word.fjoin_rx(),
{
    lemma_apart(word.0, 0x4_0000, 2, bits::level(value), 0x1_0000, 2);
    lemma_apart(word.0, 0x4_0000, 2, bits::level(value), 0x2_0000, 2);
    lemma_apart(word.0, 0x4_0000, 2, bits::level(value), 0x8_0000, 2);
    lemma_apart(word.0, 0x4_0000, 2, bits::level(value), 0x10_0000, 32);
    lemma_apart(word.0, 0x4_0000, 2, bits::level(value), 0x200_0000, 32);
    lemma_apart(word.0, 0x4_0000, 2, bits::level(value), 0x4000_0000, 2);
    lemma_apart(word.0, 0x4_0000, 2, bits::level(value), 0x8000_0000, 2);
}

/// Changing the shift register setting `out_shiftdir` leaves the others as they were.
pub proof fn law_out_shiftdir_is_apart(word: Shiftctrl, value: bool)
    ensures
        word.with_out_shiftdir(value).autopush() == word.autopush(),
        word.with_out_shiftdir(value).autopull() == word.autopull(),
        word.with_out_shiftdir(value).in_shiftdir() == word.in_shiftdir(),
        word.with_out_shiftdir(value).push_thresh() == word.push_thresh(),
        word.with_out_shiftdir(value).pull_thresh() == word.pull_thresh(),
        word.with_out_shiftdir(value).fjoin_tx() == word.fjoin_tx(),
        word.with_out_shiftdir(value).fjoin_rx() == word.fjoin_rx(),
{
    lemma_apart(word.0, 0x8_0000, 2, bits::level(value), 0x1_0000, 2);
    lemma_apart(word.0, 0x8_0000, 2, bits::level(value), 0x2_0000, 2);
    lemma_apart(word.0, 0x8_0000, 2, bits::level(value), 0x4_0000, 2);
    lemma_apart(word.0, 0x8_0000, 2, bits::level(value), 0x10_0000, 32);
    lemma_apart(word.0, 0x8_0000, 2, bits::level(value), 0x200_0000, 32);
    lemma_apart(word.0, 0x8_0000, 2, bits::level(value), 0x4000_0000, 2);
    lemma_apart(word.0, 0x8_0000, 2, bits::level(value), 0x8000_0000, 2);
}

/// Changing the shift register setting `push_thresh` leaves the others as they were.
pub proof fn law_push_thresh_is_apart(word: Shiftctrl, value: u8)
    ensures
        word.with_push_thresh(value).autopush() == word.autopush(),
        word.with_push_thresh(value).autopull() == word.autopull(),
        word.with_push_thresh(value).in_shiftdir() == word.in_shiftdir(),
        word.with_push_thresh(value).out_shiftdir() == word.out_shiftdir(),
        word.with_push_thresh(value).pull_thresh() == word.pull_thresh(),
        word.with_push_thresh(value).fjoin_tx() == word.fjoin_tx(),
        word.with_push_thresh(value).fjoin_rx() == word.fjoin_rx(),
{
    lemma_apart(word.0, 0x10_0000, 32, value as u32, 0x1_0000, 2);
    lemma_apart(word.0, 0x10_0000, 32, value as u32, 0x2_0000, 2);
    lemma_apart(word.0, 0x10_0000, 32, value as u32, 0x4_0000, 2);
    lemma_apart(word.0, 0x10_0000, 32, value as u32, 0x8_0000, 2);
    lemma_apart(word.0, 0x10_0000, 32, value as u32, 0x200_0000, 32);
    lemma_apart(word.0, 0x10_0000, 32, value as u32, 0x4000_0000, 2);
    lemma_apart(word.0, 0x10_0000, 32, value as u32, 0x8000_0000, 2);
}

/// Changing the shift register setting `pull_thresh` leaves the others as they were.
pub proof fn law_pull_thresh_is_apart(word: Shiftctrl, value: u8)
    ensures
        word.with_pull_thresh(value).autopush() == word.autopush(),
        word.with_pull_thresh(value).autopull() == word.autopull(),
        word.with_pull_thresh(value).in_shiftdir() == word.in_shiftdir(),
        word.with_pull_thresh(value).out_shiftdir() == word.out_shiftdir(),
        word.with_pull_thresh(value).push_thresh() == word.push_thresh(),
        word.with_pull_thresh(value).fjoin_tx() == word.fjoin_tx(),
        word.with_pull_thresh(value).fjoin_rx() == word.fjoin_rx(),
{
    lemma_apart(word.0, 0x200_0000, 32, value as u32, 0x1_0000, 2);
    lemma_apart(word.0, 0x200_0000, 32, value as u32, 0x2_0000, 2);
    lemma_apart(word.0, 0x200_0000, 32, value as u32, 0x4_0000, 2);
    lemma_apart(word.0, 0x200_0000, 32, value as u32, 0x8_0000, 2);
    lemma_apart(word.0, 0x200_0000, 32, value as u32, 0x10_0000, 32);
    lemma_apart(word.0, 0x200_0000, 32, value as u32, 0x4000_0000, 2);
    lemma_apart(word.0, 0x200_0000, 32, value as u32, 0x8000_0000, 2);
}

/// Changing the shift register setting `fjoin_tx` leaves the others as they were.
pub proof fn law_fjoin_tx_is_apart(word: Shiftctrl, value: bool)
    ensures
        word.with_fjoin_tx(value).autopush() == word.autopush(),
        word.with_fjoin_tx(value).autopull() == word.autopull(),
        word.with_fjoin_tx(value).in_shiftdir() == word.in_shiftdir(),
        word.with_fjoin_tx(value).out_shiftdir() == word.out_shiftdir(),
        word.with_fjoin_tx(value).push_thresh() == word.push_thresh(),
        word.with_fjoin_tx(value).pull_thresh() == word.pull_thresh(),
        word.with_fjoin_tx(value).fjoin_rx() == word.fjoin_rx(),
{
    lemma_apart(word.0, 0x4000_0000, 2, bits::level(value), 0x1_0000, 2);
    lemma_apart(word.0, 0x4000_0000, 2, bits::level(value), 0x2_0000, 2);
    lemma_apart(word.0, 0x4000_0000, 2, bits::level(value), 0x4_0000, 2);
    lemma_apart(word.0, 0x4000_0000, 2, bits::level(value), 0x8_0000, 2);
    lemma_apart(word.0, 0x4000_0000, 2, bits::level(value), 0x10_0000, 32);
    lemma_apart(word.0, 0x4000_0000, 2, bits::level(value), 0x200_0000, 32);
    lemma_apart(word.0, 0x4000_0000, 2, bits::level(value), 0x8000_0000, 2);
}

/// Changing the shift register setting `fjoin_rx` leaves the others as they were.
pub proof fn law_fjoin_rx_is_apart(word: Shiftctrl, value: bool)
    ensures
        word.with_fjoin_rx(value).autopush() == word.autopush(),
        word.with_fjoin_rx(value).autopull() == word.autopull(),
        word.with_fjoin_rx(value).in_shiftdir() == word.in_shiftdir(),
        word.with_fjoin_rx(value).out_shiftdir() == word.out_shiftdir(),
        word.with_fjoin_rx(value).push_thresh() == word.push_thresh(),
        word.with_fjoin_rx(value).pull_thresh() == word.pull_thresh(),
        word.with_fjoin_rx(value).fjoin_tx() == word.fjoin_tx(),
{
    lemma_apart(word.0, 0x8000_0000, 2, bits::level(value), 0x1_0000, 2);
    lemma_apart(word.0, 0x8000_0000, 2, bits::level(value), 0x2_0000, 2);
    lemma_apart(word.0, 0x8000_0000, 2, bits::level(value), 0x4_0000, 2);
    lemma_apart(word.0, 0x8000_0000, 2, bits::level(value), 0x8_0000, 2);
    lemma_apart(word.0, 0x8000_0000, 2, bits::level(value), 0x10_0000, 32);
    lemma_apart(word.0, 0x8000_0000, 2, bits::level(value), 0x200_0000, 32);
    lemma_apart(word.0, 0x8000_0000, 2, bits::level(value), 0x4000_0000, 2);
}

/// Changing the pin mapping setting `out_base` leaves the others as they were.
pub proof fn law_out_base_is_apart(word: Pinctrl, value: u8)
    ensures
        word.with_out_base(value).set_base() == word.set_base(),
        word.with_out_base(value).sideset_base() == word.sideset_base(),
        word.with_out_base(value).in_base() == word.in_base(),
        word.with_out_base(value).out_count() == word.out_count(),
        word.with_out_base(value).set_count() == word.set_count(),
        word.with_out_base(value).sideset_count() == word.sideset_count(),
{
    lemma_apart(word.0, 1, 32, value as u32, 0x20, 32);
    lemma_apart(word.0, 1, 32, value as u32, 0x400, 32);
    lemma_apart(word.0, 1, 32, value as u32, 0x8000, 32);
    lemma_apart(word.0, 1, 32, value as u32, 0x10_0000, 64);
    lemma_apart(word.0, 1, 32, value as u32, 0x400_0000, 8);
    lemma_apart(word.0, 1, 32, value as u32, 0x2000_0000, 8);
}

/// Changing the pin mapping setting `set_base` leaves the others as they were.
pub proof fn law_set_base_is_apart(word: Pinctrl, value: u8)
    ensures
        word.with_set_base(value).out_base() == word.out_base(),
        word.with_set_base(value).sideset_base() == word.sideset_base(),
        word.with_set_base(value).in_base() == word.in_base(),
        word.with_set_base(value).out_count() == word.out_count(),
        word.with_set_base(value).set_count() == word.set_count(),
        word.with_set_base(value).sideset_count() == word.sideset_count(),
{
    lemma_apart(word.0, 0x20, 32, value as u32, 1, 32);
    lemma_apart(word.0, 0x20, 32, value as u32, 0x400, 32);
    lemma_apart(word.0, 0x20, 32, value as u32, 0x8000, 32);
    lemma_apart(word.0, 0x20, 32, value as u32, 0x10_0000, 64);
    lemma_apart(word.0, 0x20, 32, value as u32, 0x400_0000, 8);
    lemma_apart(word.0, 0x20, 32, value as u32, 0x2000_0000, 8);
}

/// Changing the pin mapping setting `sideset_base` leaves the others as they were.
pub proof fn law_sideset_base_is_apart(word: Pinctrl, value: u8)
    ensures
        word.with_sideset_base(value).out_base() == word.out_base(),
        word.with_sideset_base(value).set_base() == word.set_base(),
        word.with_sideset_base(value).in_base() == word.in_base(),
        word.with_sideset_base(value).out_count() == word.out_count(),
        word.with_sideset_base(value).set_count() == word.set_count(),
        word.with_sideset_base(value).sideset_count() == word.sideset_count(),
{
    lemma_apart(word.0, 0x400, 32, value as u32, 1, 32);
    lemma_apart(word.0, 0x400, 32, value as u32, 0x20, 32);
    lemma_apart(word.0, 0x400, 32, value as u32, 0x8000, 32);
    lemma_apart(word.0, 0x400, 32, value as u32, 0x10_0000, 64);
    lemma_apart(word.0, 0x400, 32, value as u32, 0x400_0000, 8);
    lemma_apart(word.0, 0x400, 32, value as u32, 0x2000_0000, 8);
}

/// Changing the pin mapping setting `in_base` leaves the others as they were.
pub proof fn law_in_base_is_apart(word: Pinctrl, value: u8)
    ensures
        word.with_in_base(value).out_base() == word.out_base(),
        word.with_in_base(value).set_base() == word.set_base(),
        word.with_in_base(value).sideset_base() == word.sideset_base(),
        word.with_in_base(value).out_count() == word.out_count(),
        word.with_in_base(value).set_count() == word.set_count(),
        word.with_in_base(value).sideset_count() == word.sideset_count(),
{
    lemma_apart(word.0, 0x8000, 32, value as u32, 1, 32);
    lemma_apart(word.0, 0x8000, 32, value as u32, 0x20, 32);
    lemma_apart(word.0, 0x8000, 32, value as u32, 0x400, 32);
    lemma_apart(word.0, 0x8000, 32, value as u32, 0x10_0000, 64);
    lemma_apart(word.0, 0x8000, 32, value as u32, 0x400_0000, 8);
    lemma_apart(word.0, 0x8000, 32, value as u32, 0x2000_0000, 8);
}

/// Changing the pin mapping setting `out_count` leaves the others as they were.
pub proof fn law_out_count_is_apart(word: Pinctrl, value: u8)
    ensures
        word.with_out_count(value).out_base() == word.out_base(),
        word.with_out_count(value).set_base() == word.set_base(),
        word.with_out_count(value).sideset_base() == word.sideset_base(),
        word.with_out_count(value).in_base() == word.in_base(),
        word.with_out_count(value).set_count() == word.set_count(),
        word.with_out_count(value).sideset_count() == word.sideset_count(),
{
    lemma_apart(word.0, 0x10_0000, 64, value as u32, 1, 32);
    lemma_apart(word.0, 0x10_0000, 64, value as u32, 0x20, 32);
    lemma_apart(word.0, 0x10_0000, 64, value as u32, 0x400, 32);
    lemma_apart(word.0, 0x10_0000, 64, value as u32, 0x8000, 32);
    lemma_apart(word.0, 0x10_0000, 64, value as u32, 0x400_0000, 8);
    lemma_apart(word.0, 0x10_0000, 64, value as u32, 0x2000_0000, 8);
}

/// Changing the pin mapping setting `set_count` leaves the others as they were.
pub proof fn law_set_count_is_apart(word: Pinctrl, value: u8)
    ensures
        word.with_set_count(value).out_base() == word.out_base(),
        word.with_set_count(value).set_base() == word.set_base(),
        word.with_set_count(value).sideset_base() == word.sideset_base(),
        word.with_set_count(value).in_base() == word.in_base(),
        word.with_set_count(value).out_count() == word.out_count(),
        word.with_set_count(value).sideset_count() == word.sideset_count(),
{
    lemma_apart(word.0, 0x400_0000, 8, value as u32, 1, 32);
    lemma_apart(word.0, 0x400_0000, 8, value as u32, 0x20, 32);
    lemma_apart(word.0, 0x400_0000, 8, value as u32, 0x400, 32);
    lemma_apart(word.0, 0x400_0000, 8, value as u32, 0x8000, 32);
    lemma_apart(word.0, 0x400_0000, 8, value as u32, 0x10_0000, 64);
    lemma_apart(word.0, 0x400_0000, 8, value as u32, 0x2000_0000, 8);
}

/// Changing the pin mapping setting `sideset_count` leaves the others as they were.
pub proof fn law_sideset_count_is_apart(word: Pinctrl, value: u8)
    ensures
        word.with_sideset_count(value).out_base() == word.out_base(),
        word.with_sideset_count(value).set_base() == word.set_base(),
        word.with_sideset_count(value).sideset_base() == word.sideset_base(),
        word.with_sideset_count(value).in_base() == word.in_base(),
        word.with_sideset_count(value).out_count() == word.out_count(),
        word.with_sideset_count(value).set_count() == word.set_count(),
{
    lemma_apart(word.0, 0x2000_0000, 8, value as u32, 1, 32);
    lemma_apart(word.0, 0x2000_0000, 8, value as u32, 0x20, 32);
    lemma_apart(word.0, 0x2000_0000, 8, value as u32, 0x400, 32);
    lemma_apart(word.0, 0x2000_0000, 8, value as u32, 0x8000, 32);
    lemma_apart(word.0, 0x2000_0000, 8, value as u32, 0x10_0000, 64);
    lemma_apart(word.0, 0x2000_0000, 8, value as u32, 0x400_0000, 8);
}

/// Changing the pad setting `slewfast` leaves the others as they were.
pub proof fn law_slewfast_is_apart(word: PadCtrl, value: bool)
    ensures
        word.with_slewfast(value).schmitt() == word.schmitt(),
        word.with_slewfast(value).pde() == word.pde(),
        word.with_slewfast(value).pue() == word.pue(),
        word.with_slewfast(value).drive() == word.drive(),
{
    lemma_apart(word.0, 1, 2, bits::level(value), 2, 2);
    lemma_apart(word.0, 1, 2, bits::level(value), 4, 2);
    lemma_apart(word.0, 1, 2, bits::level(value), 8, 2);
    lemma_apart(word.0, 1, 2, bits::level(value), 0x10, 4);
}

/// Changing the pad setting `schmitt` leaves the others as they were.
pub proof fn law_schmitt_is_apart(word: PadCtrl, value: bool)
    ensures
        word.with_schmitt(value).slewfast() == word.slewfast(),
        word.with_schmitt(value).pde() == word.pde(),
        word.with_schmitt(value).pue() == word.pue(),
        word.with_schmitt(value).drive() == word.drive(),
{
    lemma_apart(word.0, 2, 2, bits::level(value), 1, 2);
    lemma_apart(word.0, 2, 2, bits::level(value), 4, 2);
    lemma_apart(word.0, 2, 2, bits::level(value), 8, 2);
    lemma_apart(word.0, 2, 2, bits::level(value), 0x10, 4);
}

/// Changing the pad setting `pde` leaves the others as they were.
pub proof fn law_pde_is_apart(word: PadCtrl, value: bool)
    ensures
        word.with_pde(value).slewfast() == word.slewfast(),
        word.with_pde(value).schmitt() == word.schmitt(),
        word.with_pde(value).pue() == word.pue(),
        word.with_pde(value).drive() == word.drive(),
{
    lemma_apart(word.0, 4, 2, bits::level(value), 1, 2);
    lemma_apart(word.0, 4, 2, bits::level(value), 2, 2);
    lemma_apart(word.0, 4, 2, bits::level(value), 8, 2);
    lemma_apart(word.0, 4, 2, bits::level(value), 0x10, 4);
}

/// Changing the pad setting `pue` leaves the others as they were.
pub proof fn law_pue_is_apart(word: PadCtrl, value: bool)
    ensures
        word.with_pue(value).slewfast() == word.slewfast(),
        word.with_pue(value).schmitt() == word.schmitt(),
        word.with_pue(value).pde() == word.pde(),
        word.with_pue(value).drive() == word.drive(),
{
    lemma_apart(word.0, 8, 2, bits::level(value), 1, 2);
    lemma_apart(word.0, 8, 2, bits::level(value), 2, 2);
    lemma_apart(word.0, 8, 2, bits::level(value), 4, 2);
    lemma_apart(word.0, 8, 2, bits::level(value), 0x10, 4);
}

/// Changing the pad setting `drive` leaves the others as they were.
pub proof fn law_drive_is_apart(word: PadCtrl, value: u8)
    ensures
        word.with_drive(value).slewfast() == word.slewfast(),
        word.with_drive(value).schmitt() == word.schmitt(),
        word.with_drive(value).pde() == word.pde(),
        word.with_drive(value).pue() == word.pue(),
{
    lemma_apart(word.0, 0x10, 4, value as u32, 1, 2);
    lemma_apart(word.0, 0x10, 4, value as u32, 2, 2);
    lemma_apart(word.0, 0x10, 4, value as u32, 4, 2);
    lemma_apart(word.0, 0x10, 4, value as u32, 8, 2);
}

/// The registers of two state machines do not overlap, so a setting of one is none of another.
pub proof fn law_state_machines_are_apart<S: PioStateMachine, T: PioStateMachine>(
    offset: u32,
    other: u32,
)
    requires
        offset < 0x18,
        other < 0x18,
        sm::own_reg::<S>(offset) == sm::own_reg::<T>(other),
    ensures
        S::Pio::no() == T::Pio::no(),
        S::index() == T::index(),
        offset == other,
{
    S::lemma_sm();
    T::lemma_sm();
    S::Pio::lemma_block();
    T::Pio::lemma_block();
}

/// A pad never pulls both ways after `set_pull`, and pulls the way asked for.
pub proof fn law_pull_is_as_asked(pad: u32, pull: Pull)
    ensures
        PadCtrl(pad).with_pue(pull == Pull::Up).with_pde(pull == Pull::Down).pue() == (pull
            == Pull::Up),
        PadCtrl(pad).with_pue(pull == Pull::Up).with_pde(pull == Pull::Down).pde() == (pull
            == Pull::Down),
{
    let first = PadCtrl(pad).with_pue(pull == Pull::Up);
    bits::law_field_write(pad, 8, 2, bits::level(pull == Pull::Up), 4, 2);
    bits::law_field_write(first.0, 4, 2, bits::level(pull == Pull::Down), 8, 2);
}

/// A write into a field that holds zero adds the value, at the field's weight.
proof fn lemma_fill(word: u32, unit: u32, size: u32, value: u32)
    requires
        unit > 0,
        size > 0,
        bits::field(word, unit, size) == 0,
        value < size,
        0 <= word + value * unit <= u32::MAX,
    ensures
        bits::with_field(word, unit, size, value) == word + value * unit,
{
    assert(0 * unit == 0);
    assert(value % size == value) by (nonlinear_arith)
        requires
            value < size,
    ;
}

proof fn lemma_dma_sum(treq: u8, size: DataSize, channel: u8, from_memory: bool)
    requires
        treq < 64,
        channel < 12,
    ensures
        sm::dma_ctrl(treq, size, channel, from_memory) == 1 + 4 * sm::data_size_code(size) + 0x10
            * bits::level(from_memory) + 0x20 * bits::level(!from_memory) + 0x800 * channel + 0x8000
            * treq,
{
    let code = sm::data_size_code(size);
    let reads = bits::level(from_memory);
    let writes = bits::level(!from_memory);
    let paced = (0x8000 * treq) as u32;
    let sized = (paced + 4 * code) as u32;
    let chained = (sized + 0x800 * channel) as u32;
    let reading = (chained + 0x10 * reads) as u32;
    let writing = (reading + 0x20 * writes) as u32;
    lemma_fill(0, 0x8000, 64, treq as u32);
    lemma_fill(paced, 4, 4, code as u32);
    lemma_fill(sized, 0x800, 16, channel as u32);
    lemma_fill(chained, 0x10, 2, reads);
    lemma_fill(reading, 0x20, 2, writes);
    lemma_fill(writing, 1, 2, 1);
}

proof fn lemma_dma_fields(word: u32, treq: u32, code: u32, channel: u32, reads: u32, writes: u32)
    requires
        treq < 64,
        code < 4,
        channel < 16,
        reads < 2,
        writes < 2,
        word == 1 + 4 * code + 0x10 * reads + 0x20 * writes + 0x800 * channel + 0x8000 * treq,
    ensures
        bits::field(word, 0x8000, 64) == treq,
        bits::field(word, 0x800, 16) == channel,
        bits::field(word, 0x20, 2) == writes,
        bits::field(word, 0x10, 2) == reads,
        bits::field(word, 4, 4) == code,
        bits::field(word, 1, 2) == 1,
{
    assert(word / 0x8000 == treq);
    assert(word / 0x800 == 16 * treq + channel);
    assert(word / 0x20 == 0x400 * treq + 0x40 * channel + writes);
    assert(word / 0x10 == 0x800 * treq + 0x80 * channel + 2 * writes + reads);
    assert(word / 4 == 0x2000 * treq + 0x200 * channel + 8 * writes + 4 * reads + code);
}

/// The control word of a DMA channel says what was asked: paced by the request, words of the size
/// given, chained to itself and so to none, the memory side advancing, started.
pub proof fn law_dma_control_word_is_as_asked(
    treq: u8,
    size: DataSize,
    channel: u8,
    from_memory: bool,
)
    requires
        treq < 64,
        channel < 12,
    ensures
        sm::dma_ctrl(treq, size, channel, from_memory) == 1 + 4 * sm::data_size_code(size) + 0x10
            * bits::level(from_memory) + 0x20 * bits::level(!from_memory) + 0x800 * channel + 0x8000
            * treq,
        DmaCtrl(sm::dma_ctrl(treq, size, channel, from_memory)).treq_sel() == treq,
        DmaCtrl(sm::dma_ctrl(treq, size, channel, from_memory)).data_size() == sm::data_size_code(
            size,
        ),
        DmaCtrl(sm::dma_ctrl(treq, size, channel, from_memory)).chain_to() == channel,
        DmaCtrl(sm::dma_ctrl(treq, size, channel, from_memory)).incr_read() == from_memory,
        DmaCtrl(sm::dma_ctrl(treq, size, channel, from_memory)).incr_write() == !from_memory,
        DmaCtrl(sm::dma_ctrl(treq, size, channel, from_memory)).en(),
{
    lemma_dma_sum(treq, size, channel, from_memory);
    lemma_dma_fields(
        sm::dma_ctrl(treq, size, channel, from_memory),
        treq as u32,
        sm::data_size_code(size) as u32,
        channel as u32,
        bits::level(from_memory),
        bits::level(!from_memory),
    );
}

/// No two FIFOs of the two blocks share a DMA request.
pub proof fn law_dma_requests_are_distinct<S: PioStateMachine, T: PioStateMachine>()
    ensures
        8 * S::Pio::no() + S::index() == 8 * T::Pio::no() + T::index() ==> S::Pio::no()
            == T::Pio::no() && S::index() == T::index(),
        8 * S::Pio::no() + S::index() != 8 * T::Pio::no() + T::index() + 4,
        8 * S::Pio::no() + S::index() + 4 < 16,
{
    S::lemma_sm();
    T::lemma_sm();
    S::Pio::lemma_block();
    T::Pio::lemma_block();
}

/// Whether a group of sticky FIFO flags starts at bit `first`.
pub open spec fn sticky_group(first: u32) -> bool {
    ||| first == memmap::FDEBUG_RXSTALL
    ||| first == memmap::FDEBUG_RXUNDER
    ||| first == memmap::FDEBUG_TXOVER
    ||| first == memmap::FDEBUG_TXSTALL
}

/// Taking one sticky FIFO flag clears no other: flags of another group or of another state machine
/// have another bit.
pub proof fn law_sticky_flags_are_apart<S: PioStateMachine, T: PioStateMachine>(
    first: u32,
    other: u32,
)
    requires
        sticky_group(first),
        sticky_group(other),
        first != other || S::index() != T::index(),
    ensures
        !bits::bit(1u32 << sm::own_bit::<S>(first), sm::own_bit::<T>(other)),
{
    S::lemma_sm();
    T::lemma_sm();
    let i = sm::own_bit::<S>(first);
    let j = sm::own_bit::<T>(other);
    assert((1u32 << i) & (1u32 << j) == 0) by (bit_vector)
        requires
            i < 32,
            j < 32,
            i != j,
    ;
}

} // verus!
