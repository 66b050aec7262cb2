//! What the fields of the register words are.

use crate::bits;
use crate::regs::{DmaCtrl, Execctrl, PadCtrl, Pinctrl, Shiftctrl};
use vstd::prelude::*;

verus! {

/// Bit `i` of a word is what is left of the word after shifting it down by `i` places and dropping
/// all but the lowest bit.
pub proof fn law_bit_is_a_shift(word: u32, i: u32)
    requires
        i < 32,
    ensures
        bits::bit(word, i) == ((word >> i) & 1 == 1),
{
    assert(word & (1u32 << i) != 0 <==> (word >> i) & 1 == 1) by (bit_vector)
        requires
            i < 32,
    ;
}

/// `test_bit` tests the bit asked for.
pub proof fn law_test_bit(word: u32, i: u32, set: bool)
    requires
        i < 32,
        call_ensures(bits::test_bit, (word, i), set),
    ensures
        set == ((word >> i) & 1 == 1),
{
    law_bit_is_a_shift(word, i);
}

/// `get_field` returns the field asked for.
pub proof fn law_get_field(word: u32, unit: u32, size: u32, value: u32)
    requires
        unit > 0,
        size > 0,
        call_ensures(bits::get_field, (word, unit, size), value),
    ensures
        value == (word / unit) % size,
{
}

/// `set_field` gives the field asked for the value, as far as it fits, and leaves what is below the
/// field and what is above it.
pub proof fn law_set_field(word: u32, unit: u32, size: u32, value: u32, r: u32)
    requires
        unit > 0,
        size > 0,
        0x1_0000_0000int % (unit * size) == 0,
        call_ensures(bits::set_field, (word, unit, size, value), r),
    ensures
        (r / unit) % size == value % size,
        r % unit == word % unit,
        r as int / (unit * size) == word as int / (unit * size),
{
    let w = word as int;
    let u = unit as int;
    let n = size as int;
    let v = (value % size) as int;
    bits::law_field_write(word, unit, size, value, unit, size);
    let hi = (w / u) / n;
    let f = (w / u) % n;
    let s = w % u;
    assert(u * n > 0) by (nonlinear_arith)
        requires
            u > 0,
            n > 0,
    ;
    assert(0 <= f * u + s < u * n && 0 <= v * u + s < u * n) by (nonlinear_arith)
        requires
            0 <= f < n,
            0 <= v < n,
            0 <= s < u,
    ;
    assert(w == hi * (u * n) + (f * u + s) && w - f * u + v * u == hi * (u * n) + (v * u + s) && w
        - f * u + v * u == (hi * n + v) * u + s) by (nonlinear_arith)
        requires
            hi == (w / u) / n,
            f == (w / u) % n,
            s == w % u,
            u > 0,
            n > 0,
    ;
    bits::lemma_field_parts(w, u, n, v);
    vstd::arithmetic::div_mod::lemma_fundamental_div_mod_converse(
        w - f * u + v * u,
        u,
        hi * n + v,
        s,
    );
    vstd::arithmetic::div_mod::lemma_fundamental_div_mod_converse(w, u * n, hi, f * u + s);
    vstd::arithmetic::div_mod::lemma_fundamental_div_mod_converse(
        w - f * u + v * u,
        u * n,
        hi,
        v * u + s,
    );
}

/// The execution setting `wrap_bottom` is bits 7 to 11 of its word; setting it changes nothing
/// else.
pub proof fn law_wrap_bottom_field(word: u32, value: u8)
    ensures
        Execctrl(word).wrap_bottom() == (word / 0x80) % 32,
        (Execctrl(word).with_wrap_bottom(value).0 / 0x80) % 32 == value % 32,
        Execctrl(word).with_wrap_bottom(value).0 % 0x80 == word % 0x80,
        Execctrl(word).with_wrap_bottom(value).0 / 0x1000 == word / 0x1000,
{
    bits::law_field_write(word, 0x80, 32, value as u32, 1, 0x80);
    bits::law_field_write(word, 0x80, 32, value as u32, 0x1000, 0x10_0000);
}

/// The execution setting `wrap_top` is bits 12 to 16 of its word; setting it changes nothing else.
pub proof fn law_wrap_top_field(word: u32, value: u8)
    ensures
        Execctrl(word).wrap_top() == (word / 0x1000) % 32,
        (Execctrl(word).with_wrap_top(value).0 / 0x1000) % 32 == value % 32,
        Execctrl(word).with_wrap_top(value).0 % 0x1000 == word % 0x1000,
        Execctrl(word).with_wrap_top(value).0 / 0x2_0000 == word / 0x2_0000,
{
    bits::law_field_write(word, 0x1000, 32, value as u32, 1, 0x1000);
    bits::law_field_write(word, 0x1000, 32, value as u32, 0x2_0000, 0x8000);
}

/// The execution setting `jmp_pin` is bits 24 to 28 of its word; setting it changes nothing else.
pub proof fn law_jmp_pin_field(word: u32, value: u8)
    ensures
        Execctrl(word).jmp_pin() == (word / 0x100_0000) % 32,
        (Execctrl(word).with_jmp_pin(value).0 / 0x100_0000) % 32 == value % 32,
        Execctrl(word).with_jmp_pin(value).0 % 0x100_0000 == word % 0x100_0000,
        Execctrl(word).with_jmp_pin(value).0 / 0x2000_0000 == word / 0x2000_0000,
{
    bits::law_field_write(word, 0x100_0000, 32, value as u32, 1, 0x100_0000);
    bits::law_field_write(word, 0x100_0000, 32, value as u32, 0x2000_0000, 8);
}

/// The execution setting `side_pindir` is bit 29 of its word; setting it changes nothing else.
pub proof fn law_side_pindir_field(word: u32, value: bool)
    ensures
        Execctrl(word).side_pindir() == ((word / 0x2000_0000) % 2 == 1),
        (Execctrl(word).with_side_pindir(value).0 / 0x2000_0000) % 2 == if value {
            1int
        } else {
            0
        },
        Execctrl(word).with_side_pindir(value).0 % 0x2000_0000 == word % 0x2000_0000,
        Execctrl(word).with_side_pindir(value).0 / 0x4000_0000 == word / 0x4000_0000,
{
    bits::law_field_write(word, 0x2000_0000, 2, bits::level(value), 1, 0x2000_0000);
    bits::law_field_write(word, 0x2000_0000, 2, bits::level(value), 0x4000_0000, 4);
}

/// The execution setting `side_en` is bit 30 of its word; setting it changes nothing else.
pub proof fn law_side_en_field(word: u32, value: bool)
    ensures
        Execctrl(word).side_en() == ((word / 0x4000_0000) % 2 == 1),
        (Execctrl(word).with_side_en(value).0 / 0x4000_0000) % 2 == if value {
            1int
        } else {
            0
        },
        Execctrl(word).with_side_en(value).0 % 0x4000_0000 == word % 0x4000_0000,
        Execctrl(word).with_side_en(value).0 / 0x8000_0000 == word / 0x8000_0000,
{
    bits::law_field_write(word, 0x4000_0000, 2, bits::level(value), 1, 0x4000_0000);
    bits::law_field_write(word, 0x4000_0000, 2, bits::level(value), 0x8000_0000, 2);
}

/// The shift register setting `autopush` is bit 16 of its word; setting it changes nothing else.
pub proof fn law_autopush_field(word: u32, value: bool)
    ensures
        Shiftctrl(word).autopush() == ((word / 0x1_0000) % 2 == 1),
        (Shiftctrl(word).with_autopush(value).0 / 0x1_0000) % 2 == if value {
            1int
        } else {
            0
        },
        Shiftctrl(word).with_autopush(value).0 % 0x1_0000 == word % 0x1_0000,
        Shiftctrl(word).with_autopush(value).0 / 0x2_0000 == word / 0x2_0000,
{
    bits::law_field_write(word, 0x1_0000, 2, bits::level(value), 1, 0x1_0000);
    bits::law_field_write(word, 0x1_0000, 2, bits::level(value), 0x2_0000, 0x8000);
}

/// The shift register setting `autopull` is bit 17 of its word; setting it changes nothing else.
pub proof fn law_autopull_field(word: u32, value: bool)
    ensures
        Shiftctrl(word).autopull() == ((word / 0x2_0000) % 2 == 1),
        (Shiftctrl(word).with_autopull(value).0 / 0x2_0000) % 2 == if value {
            1int
        } else {
            0
        },
        Shiftctrl(word).with_autopull(value).0 % 0x2_0000 == word % 0x2_0000,
        Shiftctrl(word).with_autopull(value).0 / 0x4_0000 == word / 0x4_0000,
{
    bits::law_field_write(word, 0x2_0000, 2, bits::level(value), 1, 0x2_0000);
    bits::law_field_write(word, 0x2_0000, 2, bits::level(value), 0x4_0000, 0x4000);
}

/// The shift register setting `in_shiftdir` is bit 18 of its word; setting it changes nothing else.
pub proof fn law_in_shiftdir_field(word: u32, value: bool)
    ensures
        Shiftctrl(word).in_shiftdir() == ((word / 0x4_0000) % 2 == 1),
        (Shiftctrl(word).with_in_shiftdir(value).0 / 0x4_0000) % 2 == if value {
            1int
        } else {
            0
        },
        Shiftctrl(word).with_in_shiftdir(value).0 % 0x4_0000 == word % 0x4_0000,
        Shiftctrl(word).with_in_shiftdir(value).0 / 0x8_0000 == word / 0x8_0000,
{
    bits::law_field_write(word, 0x4_0000, 2, bits::level(value), 1, 0x4_0000);
    bits::law_field_write(word, 0x4_0000, 2, bits::level(value), 0x8_0000, 0x2000);
}

/// The shift register setting `out_shiftdir` is bit 19 of its word; setting it changes nothing
/// else.
pub proof fn law_out_shiftdir_field(word: u32, value: bool)
    ensures
        Shiftctrl(word).out_shiftdir() == ((word / 0x8_0000) % 2 == 1),
        (Shiftctrl(word).with_out_shiftdir(value).0 / 0x8_0000) % 2 == if value {
            1int
        } else {
            0
        },
        Shiftctrl(word).with_out_shiftdir(value).0 % 0x8_0000 == word % 0x8_0000,
        Shiftctrl(word).with_out_shiftdir(value).0 / 0x10_0000 == word / 0x10_0000,
{
    bits::law_field_write(word, 0x8_0000, 2, bits::level(value), 1, 0x8_0000);
    bits::law_field_write(word, 0x8_0000, 2, bits::level(value), 0x10_0000, 0x1000);
}

/// The shift register setting `push_thresh` is bits 20 to 24 of its word; setting it changes
/// nothing else.
pub proof fn law_push_thresh_field(word: u32, value: u8)
    ensures
        Shiftctrl(word).push_thresh() == (word / 0x10_0000) % 32,
        (Shiftctrl(word).with_push_thresh(value).0 / 0x10_0000) % 32 == value % 32,
        Shiftctrl(word).with_push_thresh(value).0 % 0x10_0000 == word % 0x10_0000,
        Shiftctrl(word).with_push_thresh(value).0 / 0x200_0000 == word / 0x200_0000,
{
    bits::law_field_write(word, 0x10_0000, 32, value as u32, 1, 0x10_0000);
    bits::law_field_write(word, 0x10_0000, 32, value as u32, 0x200_0000, 0x80);
}

/// The shift register setting `pull_thresh` is bits 25 to 29 of its word; setting it changes
/// nothing else.
pub proof fn law_pull_thresh_field(word: u32, value: u8)
    ensures
        Shiftctrl(word).pull_thresh() == (word / 0x200_0000) % 32,
        (Shiftctrl(word).with_pull_thresh(value).0 / 0x200_0000) % 32 == value % 32,
        Shiftctrl(word).with_pull_thresh(value).0 % 0x200_0000 == word % 0x200_0000,
        Shiftctrl(word).with_pull_thresh(value).0 / 0x4000_0000 == word / 0x4000_0000,
{
    bits::law_field_write(word, 0x200_0000, 32, value as u32, 1, 0x200_0000);
    bits::law_field_write(word, 0x200_0000, 32, value as u32, 0x4000_0000, 4);
}

/// The shift register setting `fjoin_tx` is bit 30 of its word; setting it changes nothing else.
pub proof fn law_fjoin_tx_field(word: u32, value: bool)
    ensures
        Shiftctrl(word).fjoin_tx() == ((word / 0x4000_0000) % 2 == 1),
        (Shiftctrl(word).with_fjoin_tx(value).0 / 0x4000_0000) % 2 == if value {
            1int
        } else {
            0
        },
        Shiftctrl(word).with_fjoin_tx(value).0 % 0x4000_0000 == word % 0x4000_0000,
        Shiftctrl(word).with_fjoin_tx(value).0 / 0x8000_0000 == word / 0x8000_0000,
{
    bits::law_field_write(word, 0x4000_0000, 2, bits::level(value), 1, 0x4000_0000);
    bits::law_field_write(word, 0x4000_0000, 2, bits::level(value), 0x8000_0000, 2);
}

/// The shift register setting `fjoin_rx` is bit 31 of its word; setting it changes nothing else.
pub proof fn law_fjoin_rx_field(word: u32, value: bool)
    ensures
        Shiftctrl(word).fjoin_rx() == ((word / 0x8000_0000) % 2 == 1),
        (Shiftctrl(word).with_fjoin_rx(value).0 / 0x8000_0000) % 2 == if value {
            1int
        } else {
            0
        },
        Shiftctrl(word).with_fjoin_rx(value).0 % 0x8000_0000 == word % 0x8000_0000,
{
    bits::law_field_write(word, 0x8000_0000, 2, bits::level(value), 1, 0x8000_0000);
}

/// The pin mapping setting `out_base` is bits 0 to 4 of its word; setting it changes nothing else.
pub proof fn law_out_base_field(word: u32, value: u8)
    ensures
        Pinctrl(word).out_base() == word % 32,
        Pinctrl(word).with_out_base(value).0 % 32 == value % 32,
        Pinctrl(word).with_out_base(value).0 / 0x20 == word / 0x20,
{
    bits::law_field_write(word, 1, 32, value as u32, 0x20, 0x800_0000);
}

/// The pin mapping setting `set_base` is bits 5 to 9 of its word; setting it changes nothing else.
pub proof fn law_set_base_field(word: u32, value: u8)
    ensures
        Pinctrl(word).set_base() == (word / 0x20) % 32,
        (Pinctrl(word).with_set_base(value).0 / 0x20) % 32 == value % 32,
        Pinctrl(word).with_set_base(value).0 % 0x20 == word % 0x20,
        Pinctrl(word).with_set_base(value).0 / 0x400 == word / 0x400,
{
    bits::law_field_write(word, 0x20, 32, value as u32, 1, 0x20);
    bits::law_field_write(word, 0x20, 32, value as u32, 0x400, 0x40_0000);
}

/// The pin mapping setting `sideset_base` is bits 10 to 14 of its word; setting it changes nothing
/// else.
pub proof fn law_sideset_base_field(word: u32, value: u8)
    ensures
        Pinctrl(word).sideset_base() == (word / 0x400) % 32,
        (Pinctrl(word).with_sideset_base(value).0 / 0x400) % 32 == value % 32,
        Pinctrl(word).with_sideset_base(value).0 % 0x400 == word % 0x400,
        Pinctrl(word).with_sideset_base(value).0 / 0x8000 == word / 0x8000,
{
    bits::law_field_write(word, 0x400, 32, value as u32, 1, 0x400);
    bits::law_field_write(word, 0x400, 32, value as u32, 0x8000, 0x2_0000);
}

/// The pin mapping setting `in_base` is bits 15 to 19 of its word; setting it changes nothing else.
pub proof fn law_in_base_field(word: u32, value: u8)
    ensures
        Pinctrl(word).in_base() == (word / 0x8000) % 32,
        (Pinctrl(word).with_in_base(value).0 / 0x8000) % 32 == value % 32,
        Pinctrl(word).with_in_base(value).0 % 0x8000 == word % 0x8000,
        Pinctrl(word).with_in_base(value).0 / 0x10_0000 == word / 0x10_0000,
{
    bits::law_field_write(word, 0x8000, 32, value as u32, 1, 0x8000);
    bits::law_field_write(word, 0x8000, 32, value as u32, 0x10_0000, 0x1000);
}

/// The pin mapping setting `out_count` is bits 20 to 25 of its word; setting it changes nothing
/// else.
pub proof fn law_out_count_field(word: u32, value: u8)
    ensures
        Pinctrl(word).out_count() == (word / 0x10_0000) % 64,
        (Pinctrl(word).with_out_count(value).0 / 0x10_0000) % 64 == value % 64,
        Pinctrl(word).with_out_count(value).0 % 0x10_0000 == word % 0x10_0000,
        Pinctrl(word).with_out_count(value).0 / 0x400_0000 == word / 0x400_0000,
{
    bits::law_field_write(word, 0x10_0000, 64, value as u32, 1, 0x10_0000);
    bits::law_field_write(word, 0x10_0000, 64, value as u32, 0x400_0000, 0x40);
}

/// The pin mapping setting `set_count` is bits 26 to 28 of its word; setting it changes nothing
/// else.
pub proof fn law_set_count_field(word: u32, value: u8)
    ensures
        Pinctrl(word).set_count() == (word / 0x400_0000) % 8,
        (Pinctrl(word).with_set_count(value).0 / 0x400_0000) % 8 == value % 8,
        Pinctrl(word).with_set_count(value).0 % 0x400_0000 == word % 0x400_0000,
        Pinctrl(word).with_set_count(value).0 / 0x2000_0000 == word / 0x2000_0000,
{
    bits::law_field_write(word, 0x400_0000, 8, value as u32, 1, 0x400_0000);
    bits::law_field_write(word, 0x400_0000, 8, value as u32, 0x2000_0000, 8);
}

/// The pin mapping setting `sideset_count` is bits 29 to 31 of its word; setting it changes nothing
/// else.
pub proof fn law_sideset_count_field(word: u32, value: u8)
    ensures
        Pinctrl(word).sideset_count() == (word / 0x2000_0000) % 8,
        (Pinctrl(word).with_sideset_count(value).0 / 0x2000_0000) % 8 == value % 8,
        Pinctrl(word).with_sideset_count(value).0 % 0x2000_0000 == word % 0x2000_0000,
{
    bits::law_field_write(word, 0x2000_0000, 8, value as u32, 1, 0x2000_0000);
}

/// The pad setting `slewfast` is bit 0 of its word; setting it changes nothing else.
pub proof fn law_slewfast_field(word: u32, value: bool)
    ensures
        PadCtrl(word).slewfast() == (word % 2 == 1),
        PadCtrl(word).with_slewfast(value).0 % 2 == if value {
            1int
        } else {
            0
        },
        PadCtrl(word).with_slewfast(value).0 / 2 == word / 2,
{
    bits::law_field_write(word, 1, 2, bits::level(value), 2, 0x8000_0000);
}

/// The pad setting `schmitt` is bit 1 of its word; setting it changes nothing else.
pub proof fn law_schmitt_field(word: u32, value: bool)
    ensures
        PadCtrl(word).schmitt() == ((word / 2) % 2 == 1),
        (PadCtrl(word).with_schmitt(value).0 / 2) % 2 == if value {
            1int
        } else {
            0
        },
        PadCtrl(word).with_schmitt(value).0 % 2 == word % 2,
        PadCtrl(word).with_schmitt(value).0 / 4 == word / 4,
{
    bits::law_field_write(word, 2, 2, bits::level(value), 1, 2);
    bits::law_field_write(word, 2, 2, bits::level(value), 4, 0x4000_0000);
}

/// The pad setting `pde` is bit 2 of its word; setting it changes nothing else.
pub proof fn law_pde_field(word: u32, value: bool)
    ensures
        PadCtrl(word).pde() == ((word / 4) % 2 == 1),
        (PadCtrl(word).with_pde(value).0 / 4) % 2 == if value {
            1int
        } else {
            0
        },
        PadCtrl(word).with_pde(value).0 % 4 == word % 4,
        PadCtrl(word).with_pde(value).0 / 8 == word / 8,
{
    bits::law_field_write(word, 4, 2, bits::level(value), 1, 4);
    bits::law_field_write(word, 4, 2, bits::level(value), 8, 0x2000_0000);
}

/// The pad setting `pue` is bit 3 of its word; setting it changes nothing else.
pub proof fn law_pue_field(word: u32, value: bool)
    ensures
        PadCtrl(word).pue() == ((word / 8) % 2 == 1),
        (PadCtrl(word).with_pue(value).0 / 8) % 2 == if value {
            1int
        } else {
            0
        },
        PadCtrl(word).with_pue(value).0 % 8 == word % 8,
        PadCtrl(word).with_pue(value).0 / 0x10 == word / 0x10,
{
    bits::law_field_write(word, 8, 2, bits::level(value), 1, 8);
    bits::law_field_write(word, 8, 2, bits::level(value), 0x10, 0x1000_0000);
}

/// The pad setting `drive` is bits 4 to 5 of its word; setting it changes nothing else.
pub proof fn law_drive_field(word: u32, value: u8)
    ensures
        PadCtrl(word).drive() == (word / 0x10) % 4,
        (PadCtrl(word).with_drive(value).0 / 0x10) % 4 == value % 4,
        PadCtrl(word).with_drive(value).0 % 0x10 == word % 0x10,
        PadCtrl(word).with_drive(value).0 / 0x40 == word / 0x40,
{
    bits::law_field_write(word, 0x10, 4, value as u32, 1, 0x10);
    bits::law_field_write(word, 0x10, 4, value as u32, 0x40, 0x400_0000);
}

/// The DMA control field `en` is bit 0 of its word; setting it changes nothing else.
pub proof fn law_en_field(word: u32, value: bool)
    ensures
        DmaCtrl(word).en() == (word % 2 == 1),
        DmaCtrl(word).with_en(value).0 % 2 == if value {
            1int
        } else {
            0
        },
        DmaCtrl(word).with_en(value).0 / 2 == word / 2,
{
    bits::law_field_write(word, 1, 2, bits::level(value), 2, 0x8000_0000);
}

/// The DMA control field `data_size` is bits 2 to 3 of its word; setting it changes nothing else.
pub proof fn law_data_size_field(word: u32, value: u8)
    ensures
        DmaCtrl(word).data_size() == (word / 4) % 4,
        (DmaCtrl(word).with_data_size(value).0 / 4) % 4 == value % 4,
        DmaCtrl(word).with_data_size(value).0 % 4 == word % 4,
        DmaCtrl(word).with_data_size(value).0 / 0x10 == word / 0x10,
{
    bits::law_field_write(word, 4, 4, value as u32, 1, 4);
    bits::law_field_write(word, 4, 4, value as u32, 0x10, 0x1000_0000);
}

/// The DMA control field `incr_read` is bit 4 of its word; setting it changes nothing else.
pub proof fn law_incr_read_field(word: u32, value: bool)
    ensures
        DmaCtrl(word).incr_read() == ((word / 0x10) % 2 == 1),
        (DmaCtrl(word).with_incr_read(value).0 / 0x10) % 2 == if value {
            1int
        } else {
            0
        },
        DmaCtrl(word).with_incr_read(value).0 % 0x10 == word % 0x10,
        DmaCtrl(word).with_incr_read(value).0 / 0x20 == word / 0x20,
{
    bits::law_field_write(word, 0x10, 2, bits::level(value), 1, 0x10);
    bits::law_field_write(word, 0x10, 2, bits::level(value), 0x20, 0x800_0000);
}

/// The DMA control field `incr_write` is bit 5 of its word; setting it changes nothing else.
pub proof fn law_incr_write_field(word: u32, value: bool)
    ensures
        DmaCtrl(word).incr_write() == ((word / 0x20) % 2 == 1),
        (DmaCtrl(word).with_incr_write(value).0 / 0x20) % 2 == if value {
            1int
        } else {
            0
        },
        DmaCtrl(word).with_incr_write(value).0 % 0x20 == word % 0x20,
        DmaCtrl(word).with_incr_write(value).0 / 0x40 == word / 0x40,
{
    bits::law_field_write(word, 0x20, 2, bits::level(value), 1, 0x20);
    bits::law_field_write(word, 0x20, 2, bits::level(value), 0x40, 0x400_0000);
}

/// The DMA control field `chain_to` is bits 11 to 14 of its word; setting it changes nothing else.
pub proof fn law_chain_to_field(word: u32, value: u8)
    ensures
        DmaCtrl(word).chain_to() == (word / 0x800) % 16,
        (DmaCtrl(word).with_chain_to(value).0 / 0x800) % 16 == value % 16,
        DmaCtrl(word).with_chain_to(value).0 % 0x800 == word % 0x800,
        DmaCtrl(word).with_chain_to(value).0 / 0x8000 == word / 0x8000,
{
    bits::law_field_write(word, 0x800, 16, value as u32, 1, 0x800);
    bits::law_field_write(word, 0x800, 16, value as u32, 0x8000, 0x2_0000);
}

/// The DMA control field `treq_sel` is bits 15 to 20 of its word; setting it changes nothing else.
pub proof fn law_treq_sel_field(word: u32, value: u8)
    ensures
        DmaCtrl(word).treq_sel() == (word / 0x8000) % 64,
        (DmaCtrl(word).with_treq_sel(value).0 / 0x8000) % 64 == value % 64,
        DmaCtrl(word).with_treq_sel(value).0 % 0x8000 == word % 0x8000,
        DmaCtrl(word).with_treq_sel(value).0 / 0x20_0000 == word / 0x20_0000,
{
    bits::law_field_write(word, 0x8000, 64, value as u32, 1, 0x8000);
    bits::law_field_write(word, 0x8000, 64, value as u32, 0x20_0000, 0x800);
}

} // verus!
