//! Bit-range access inside one 32-bit unit.
//!
//! A field is described by an in-place `mask` and the `shift` of its lowest
//! bit. Reading extracts the masked bits and shifts them down; writing merges
//! a value into the masked bits and leaves every other bit of the unit alone.
use vstd::prelude::*;

verus! {

/// The value of the field `mask`/`shift` inside unit `u`.
pub open spec fn get_bits(u: u32, mask: u32, shift: u32) -> u32 {
    (u & mask) >> shift
}

/// Unit `u` with the field `mask`/`shift` replaced by `v`.
pub open spec fn set_bits(u: u32, mask: u32, shift: u32, v: u32) -> u32 {
    (u & !mask) | ((v << shift) & mask)
}

/// A well-formed field layout: no mask bit lies below `shift`.
pub open spec fn layout_ok(mask: u32, shift: u32) -> bool {
    shift < 32 && (mask >> shift) << shift == mask
}

/// `v` fits in the field: it has no bit outside the shifted-down mask.
pub open spec fn fits(v: u32, mask: u32, shift: u32) -> bool {
    v & !(mask >> shift) == 0
}

/// Extracts the field `mask`/`shift` from `u`.
pub fn read_bits(u: u32, mask: u32, shift: u32) -> (r: u32)
    requires
        shift < 32,
    ensures
        r == get_bits(u, mask, shift),
{
    (u & mask) >> shift
}

/// Merges `v` into the field `mask`/`shift` of `u`.
pub fn write_bits(u: u32, mask: u32, shift: u32, v: u32) -> (r: u32)
    requires
        shift < 32,
    ensures
        r == set_bits(u, mask, shift, v),
{
    (u & !mask) | ((v << shift) & mask)
}

/// Writing a fitting value and reading the same field gives the value back.
pub proof fn lemma_get_set_same(u: u32, mask: u32, shift: u32, v: u32)
    requires
        layout_ok(mask, shift),
        fits(v, mask, shift),
    ensures
        get_bits(set_bits(u, mask, shift, v), mask, shift) == v,
{
    assert(((((u & !mask) | ((v << shift) & mask)) & mask) >> shift) == v) by (bit_vector)
        requires
            shift < 32,
            (mask >> shift) << shift == mask,
            v & !(mask >> shift) == 0,
    ;
}

/// Writing one field leaves a field with a disjoint mask unchanged.
pub proof fn lemma_get_set_disjoint(u: u32, m1: u32, s1: u32, v: u32, m2: u32, s2: u32)
    requires
        s1 < 32,
        s2 < 32,
        m1 & m2 == 0,
    ensures
        get_bits(set_bits(u, m1, s1, v), m2, s2) == get_bits(u, m2, s2),
{
    assert(((((u & !m1) | ((v << s1) & m1)) & m2) >> s2) == ((u & m2) >> s2)) by (bit_vector)
        requires
            s1 < 32,
            s2 < 32,
            m1 & m2 == 0,
    ;
}

/// Writing inside the low byte keeps a byte-sized unit byte-sized.
pub proof fn lemma_set_stays_byte(u: u32, mask: u32, shift: u32, v: u32)
    requires
        u < 0x100,
        mask < 0x100,
    ensures
        set_bits(u, mask, shift, v) < 0x100,
{
    assert(((u & !mask) | ((v << shift) & mask)) < 0x100) by (bit_vector)
        requires
            u < 0x100,
            mask < 0x100,
    ;
}

/// A field read is never larger than the shifted-down mask.
pub proof fn lemma_get_bounded(u: u32, mask: u32, shift: u32)
    requires
        shift < 32,
    ensures
        get_bits(u, mask, shift) <= mask >> shift,
        fits(get_bits(u, mask, shift), mask, shift),
{
    assert(((u & mask) >> shift) <= (mask >> shift)) by (bit_vector)
        requires
            shift < 32,
    ;
    assert(((u & mask) >> shift) & !(mask >> shift) == 0) by (bit_vector)
        requires
            shift < 32,
    ;
}

/// A value no larger than an all-ones low mask has no bit outside it.
pub proof fn lemma_fits_low(v: u32, low: u32)
    requires
        v <= low,
        low == 0 || low == 0x3 || low == 0xF || low == 0x7F || low == 0xFF || low == 0xFFFF
            || low == 0xFFFF_FFFF,
    ensures
        v & !low == 0,
{
    assert(v & !low == 0) by (bit_vector)
        requires
            v <= low,
            low == 0 || low == 0x3 || low == 0xF || low == 0x7F || low == 0xFF || low == 0xFFFF
                || low == 0xFFFF_FFFF,
    ;
}

/// Every field of a zero unit is zero.
pub proof fn lemma_get_zero_all()
    ensures
        forall|mask: u32, shift: u32| #[trigger] get_bits(0, mask, shift) == 0,
{
    assert forall|mask: u32, shift: u32| #[trigger] get_bits(0, mask, shift) == 0 by {
        assert((0u32 & mask) >> shift == 0) by (bit_vector);
    }
}

/// Flipping one bit of a field value changes it and keeps it in the field.
pub proof fn lemma_flip_bit(x: u32, low: u32, bit: u32)
    requires
        x <= low,
        (low == 0x3 && bit < 2) || (low == 0xF && bit < 4) || (low == 0x7F && bit < 7) || (low
            == 0xFF && bit < 8),
    ensures
        x ^ (1u32 << bit) <= low,
        x ^ (1u32 << bit) != x,
{
    assert(x ^ (1u32 << bit) <= low && x ^ (1u32 << bit) != x) by (bit_vector)
        requires
            x <= low,
            (low == 0x3 && bit < 2) || (low == 0xF && bit < 4) || (low == 0x7F && bit < 7) || (low
                == 0xFF && bit < 8),
    ;
}

} // verus!
