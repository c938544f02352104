//! Small helpers for reasoning about column bit patterns.
//!
//! A column pattern is a `u16` whose bit `c` says whether matrix column `c`
//! is lit; only bits 0 through 8 are ever used.  Image rows use the same
//! convention in a `u8`.

use vstd::prelude::*;

verus! {

/// Whether bit `c` of `mask` is set.
pub open spec fn bit(mask: u16, c: u16) -> bool {
    mask & (1u16 << c) != 0
}

/// Whether bit `c` of the byte `mask` is set.
pub open spec fn bit8(mask: u8, c: u8) -> bool {
    mask & (1u8 << c) != 0
}

/// Setting one bit sets that bit and leaves every other bit alone.
pub proof fn lemma_bit_or_one(m: u16, i: u16, c: u16)
    by (bit_vector)
    requires
        i < 16,
        c < 16,
    ensures
        bit(m | (1u16 << i), c) == (bit(m, c) || c == i),
{
}

/// The empty pattern has no bit set.
pub proof fn lemma_bit_zero(c: u16)
    by (bit_vector)
    requires
        c < 16,
    ensures
        !bit(0u16, c),
{
}

/// A pattern below 512 keeps that bound when a column bit is set in it.
pub proof fn lemma_or_keeps_bound(m: u16, i: u16)
    by (bit_vector)
    requires
        i < 9,
        m < 512,
    ensures
        (m | (1u16 << i)) < 512,
{
}

/// A pattern below 512 with none of the nine column bits set is zero.
pub proof fn lemma_no_bits_means_zero(m: u16)
    by (bit_vector)
    requires
        m < 512,
        !bit(m, 0),
        !bit(m, 1),
        !bit(m, 2),
        !bit(m, 3),
        !bit(m, 4),
        !bit(m, 5),
        !bit(m, 6),
        !bit(m, 7),
        !bit(m, 8),
    ensures
        m == 0,
{
}

/// Setting one bit of a byte sets that bit and leaves every other bit alone.
pub proof fn lemma_bit8_or_one(m: u8, i: u8, c: u8)
    by (bit_vector)
    requires
        i < 8,
        c < 8,
    ensures
        bit8(m | (1u8 << i), c) == (bit8(m, c) || c == i),
{
}

/// The empty byte has no bit set.
pub proof fn lemma_bit8_zero(c: u8)
    by (bit_vector)
    requires
        c < 8,
    ensures
        !bit8(0u8, c),
{
}

} // verus!
