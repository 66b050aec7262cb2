//! Bit fields and single bits of 32-bit register words.

use vstd::prelude::*;

verus! {

/// The value of the field of `word` whose lowest bit weighs `unit` and which takes `size` values.
#[verifier::inline]
pub open spec fn field(word: u32, unit: u32, size: u32) -> u32 {
    (word / unit) % size
}

/// `word` with that field replaced by `value`, of which only the bits that fit are taken.
#[verifier::inline]
pub open spec fn with_field(word: u32, unit: u32, size: u32, value: u32) -> u32 {
    (word - field(word, unit, size) * unit + (value % size) * unit) as u32
}

/// Whether bit `i` of `word` is set.
pub open spec fn bit(word: u32, i: u32) -> bool {
    word & (1u32 << i) != 0
}

/// One for `true`, zero for `false`.
#[verifier::inline]
pub open spec fn level(flag: bool) -> u32 {
    if flag {
        1
    } else {
        0
    }
}

/// Reads a field.
pub fn get_field(word: u32, unit: u32, size: u32) -> (value: u32)
    requires
        unit > 0,
        size > 0,
    ensures
        value == field(word, unit, size),
{
    (word / unit) % size
}

pub(crate) proof fn lemma_field_parts(word: int, unit: int, size: int, value: int)
    by (nonlinear_arith)
    requires
        0 <= word < 0x1_0000_0000,
        unit > 0,
        size > 0,
        0x1_0000_0000int % (unit * size) == 0,
        0 <= value < size,
    ensures
        0 <= ((word / unit) % size) * unit <= word,
        0 <= value * unit,
        word - ((word / unit) % size) * unit + value * unit < 0x1_0000_0000,
{
    let q = (word / unit) / size;
    let f = (word / unit) % size;
    let s = word % unit;
    let span = unit * size;
    assert(span > 0);
    assert(word == (q * size + f) * unit + s);
    assert((q * size + f) * unit == q * span + f * unit);
    let k = 0x1_0000_0000int / span;
    assert(k * span == 0x1_0000_0000);
    assert(q * span < k * span);
    assert(q < k);
    assert(q * span <= (k - 1) * span);
    assert((k - 1) * span == k * span - span);
    assert(value * unit <= (size - 1) * unit);
    assert((size - 1) * unit == span - unit);
}

/// Replaces a field.
pub fn set_field(word: u32, unit: u32, size: u32, value: u32) -> (r: u32)
    requires
        unit > 0,
        size > 0,
        0x1_0000_0000int % (unit * size) == 0,
    ensures
        r == with_field(word, unit, size, value),
{
    proof {
        lemma_field_parts(word as int, unit as int, size as int, (value % size) as int);
    }
    let cleared = word - ((word / unit) % size) * unit;
    cleared + (value % size) * unit
}

/// What a field holds after a write, and that the other fields keep their values: a field above
/// starts at a multiple of the end of the written one, a field below ends at a divisor of its
/// start.
pub proof fn law_field_write(
    word: u32,
    unit: u32,
    size: u32,
    value: u32,
    other_unit: u32,
    other_size: u32,
)
    requires
        unit > 0,
        size > 0,
        other_unit > 0,
        other_size > 0,
        0x1_0000_0000int % (unit * size) == 0,
    ensures
        field(with_field(word, unit, size, value), unit, size) == value % size,
        (other_unit as int) % (unit * size) == 0 ==> field(
            with_field(word, unit, size, value),
            other_unit,
            other_size,
        ) == field(word, other_unit, other_size),
        (unit as int) % (other_unit * other_size) == 0 ==> field(
            with_field(word, unit, size, value),
            other_unit,
            other_size,
        ) == field(word, other_unit, other_size),
{
    let w = word as int;
    let u = unit as int;
    let n = size as int;
    let v = (value % size) as int;
    let ou = other_unit as int;
    let on = other_size as int;
    let span = u * n;
    lemma_field_parts(w, u, n, v);
    let new = w - ((w / u) % n) * u + v * u;
    assert(new == with_field(word, unit, size, value));
    let hi = (w / u) / n;
    let f = (w / u) % n;
    let s = w % u;
    assert(span > 0) by (nonlinear_arith)
        requires
            u > 0,
            n > 0,
            span == u * n,
    ;
    assert(w == hi * span + (f * u + s) && new == (hi * n + v) * u + s && new == hi * span + (v * u
        + s)) by (nonlinear_arith)
        requires
            hi == (w / u) / n,
            f == (w / u) % n,
            s == w % u,
            u > 0,
            n > 0,
            span == u * n,
            new == w - f * u + v * u,
    ;
    vstd::arithmetic::div_mod::lemma_fundamental_div_mod_converse(new, u, hi * n + v, s);
    vstd::arithmetic::div_mod::lemma_fundamental_div_mod_converse(hi * n + v, n, hi, v);
    assert(0 <= f * u + s < span && 0 <= v * u + s < span) by (nonlinear_arith)
        requires
            0 <= f < n,
            0 <= v < n,
            0 <= s < u,
            span == u * n,
    ;
    if ou % span == 0 {
        let m = ou / span;
        assert(ou == span * m && m > 0) by (nonlinear_arith)
            requires
                ou % span == 0,
                m == ou / span,
                ou > 0,
                span > 0,
        ;
        vstd::arithmetic::div_mod::lemma_fundamental_div_mod_converse(w, span, hi, f * u + s);
        vstd::arithmetic::div_mod::lemma_fundamental_div_mod_converse(new, span, hi, v * u + s);
        vstd::arithmetic::div_mod::lemma_div_denominator(w, span, m);
        vstd::arithmetic::div_mod::lemma_div_denominator(new, span, m);
    }
    if u % (ou * on) == 0 {
        let k = u / (ou * on);
        assert(ou * on > 0) by (nonlinear_arith)
            requires
                ou > 0,
                on > 0,
        ;
        assert(u == k * (ou * on)) by (nonlinear_arith)
            requires
                u % (ou * on) == 0,
                k == u / (ou * on),
                ou * on > 0,
        ;
        lemma_low_field(w / u, k, ou, on, s);
        lemma_low_field(hi * n + v, k, ou, on, s);
        assert(w == (w / u) * u + s) by (nonlinear_arith)
            requires
                s == w % u,
                u > 0,
        ;
    }
}

/// A field that ends at or below a multiple of `unit * size` sees only what is below it.
proof fn lemma_low_field(high: int, k: int, unit: int, size: int, low: int)
    requires
        unit > 0,
        size > 0,
        0 <= low,
    ensures
        ((high * (k * (unit * size)) + low) / unit) % size == (low / unit) % size,
{
    let x = high * (k * (unit * size)) + low;
    let q = high * k * size;
    assert(x == q * unit + low) by (nonlinear_arith)
        requires
            x == high * (k * (unit * size)) + low,
            q == high * k * size,
    ;
    assert(x == (q + low / unit) * unit + low % unit) by (nonlinear_arith)
        requires
            x == q * unit + low,
            unit > 0,
    ;
    vstd::arithmetic::div_mod::lemma_fundamental_div_mod_converse(
        x,
        unit,
        q + low / unit,
        low % unit,
    );
    vstd::arithmetic::div_mod::lemma_mod_multiples_vanish(high * k, low / unit, size);
    assert(size * (high * k) == q) by (nonlinear_arith)
        requires
            q == high * k * size,
    ;
}

/// Reads bit `i`.
pub fn test_bit(word: u32, i: u32) -> (set: bool)
    requires
        i < 32,
    ensures
        set == bit(word, i),
{
    word & (1u32 << i) != 0
}

} // verus!
