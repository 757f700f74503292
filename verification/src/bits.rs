//! Facts about powers of two and low-bit masks on the unsigned carriers.
//!
//! The carriers of the bounded integers are `u8` .. `u128`; every fact here is
//! stated over `pow2` so that contracts elsewhere can speak of plain arithmetic.
use vstd::prelude::*;
use vstd::arithmetic::power2::{pow2, lemma_pow2_unfold, lemma2_to64, lemma_pow2_pos};
use vstd::arithmetic::div_mod::lemma_mod_breakdown;

verus! {

/// `1 << b` on `u128` is `2^b`.
pub proof fn lemma_shl_one_u128(b: u128)
    requires
        b < 128,
    ensures
        (1u128 << b) as nat == pow2(b as nat),
        (1u128 << b) > 0,
    decreases b,
{
    lemma_pow2_pos(b as nat);
    if b == 0 {
        assert(1u128 << 0u128 == 1u128) by (bit_vector);
        lemma2_to64();
    } else {
        lemma_shl_one_u128((b - 1) as u128);
        let c: u128 = (b - 1) as u128;
        assert((1u128 << b) == (1u128 << c) * 2) by (bit_vector)
            requires
                0 < b < 128,
                c == b - 1,
        ;
        lemma_pow2_unfold(b as nat);
    }
}

/// Masking a `u128` with the low `b` bits is the remainder modulo `2^b`.
pub proof fn lemma_mask_mod_u128(x: u128, b: u128)
    requires
        b < 128,
    ensures
        (x & (((1u128 << b) - 1) as u128)) as nat == x as nat % pow2(b as nat),
    decreases b,
{
    lemma_shl_one_u128(b);
    if b == 0 {
        assert(x & (((1u128 << 0u128) - 1) as u128) == 0) by (bit_vector);
        lemma2_to64();
    } else {
        let c: u128 = (b - 1) as u128;
        let h: u128 = x >> 1u128;
        lemma_mask_mod_u128(h, c);
        assert(x & (((1u128 << b) - 1) as u128) == (h & (((1u128 << c) - 1) as u128)) * 2 + (x
            & 1)) by (bit_vector)
            requires
                0 < b < 128,
                c == b - 1,
                h == x >> 1u128,
        ;
        assert(h == x / 2 && x & 1 == x % 2) by (bit_vector)
            requires
                h == x >> 1u128,
        ;
        lemma_pow2_unfold(b as nat);
        lemma_pow2_pos(c as nat);
        lemma_mod_breakdown(x as int, 2, pow2(c as nat) as int);
        assert((x as int) % (pow2(b as nat) as int) == 2 * ((x as int / 2) % (pow2(
            c as nat,
        ) as int)) + (x as int) % 2);
    }
}

/// `1 << b` on `u8` is `2^b` when `b` is below the width.
pub proof fn lemma_shl_one_u8(b: u8)
    requires
        b < 8,
    ensures
        (1u8 << b) as nat == pow2(b as nat),
        (1u8 << b) > 0,
{
    let w: u128 = b as u128;
    lemma_pow2_pos(b as nat);
    assert((1u8 << b) as u128 == 1u128 << w) by (bit_vector)
        requires
            b < 8,
            w == b,
    ;
    lemma_shl_one_u128(w);
}

/// Masking a `u8` with the low `b` bits is the remainder modulo `2^b`.
pub proof fn lemma_mask_mod_u8(x: u8, b: u8)
    requires
        b < 8,
    ensures
        (x & (((1u8 << b) - 1) as u8)) as nat == x as nat % pow2(b as nat),
{
    let w: u128 = b as u128;
    let y: u128 = x as u128;
    lemma_shl_one_u8(b);
    assert((x & (((1u8 << b) - 1) as u8)) as u128 == y & (((1u128 << w) - 1) as u128))
        by (bit_vector)
        requires
            b < 8,
            w == b,
            y == x,
    ;
    lemma_mask_mod_u128(y, w);
}

/// `1 << b` on `u16` is `2^b` when `b` is below the width.
pub proof fn lemma_shl_one_u16(b: u8)
    requires
        b < 16,
    ensures
        (1u16 << b) as nat == pow2(b as nat),
        (1u16 << b) > 0,
{
    let w: u128 = b as u128;
    lemma_pow2_pos(b as nat);
    assert((1u16 << b) as u128 == 1u128 << w) by (bit_vector)
        requires
            b < 16,
            w == b,
    ;
    lemma_shl_one_u128(w);
}

/// Masking a `u16` with the low `b` bits is the remainder modulo `2^b`.
pub proof fn lemma_mask_mod_u16(x: u16, b: u8)
    requires
        b < 16,
    ensures
        (x & (((1u16 << b) - 1) as u16)) as nat == x as nat % pow2(b as nat),
{
    let w: u128 = b as u128;
    let y: u128 = x as u128;
    lemma_shl_one_u16(b);
    assert((x & (((1u16 << b) - 1) as u16)) as u128 == y & (((1u128 << w) - 1) as u128))
        by (bit_vector)
        requires
            b < 16,
            w == b,
            y == x,
    ;
    lemma_mask_mod_u128(y, w);
}

/// `1 << b` on `u32` is `2^b` when `b` is below the width.
pub proof fn lemma_shl_one_u32(b: u8)
    requires
        b < 32,
    ensures
        (1u32 << b) as nat == pow2(b as nat),
        (1u32 << b) > 0,
{
    let w: u128 = b as u128;
    lemma_pow2_pos(b as nat);
    assert((1u32 << b) as u128 == 1u128 << w) by (bit_vector)
        requires
            b < 32,
            w == b,
    ;
    lemma_shl_one_u128(w);
}

/// Masking a `u32` with the low `b` bits is the remainder modulo `2^b`.
pub proof fn lemma_mask_mod_u32(x: u32, b: u8)
    requires
        b < 32,
    ensures
        (x & (((1u32 << b) - 1) as u32)) as nat == x as nat % pow2(b as nat),
{
    let w: u128 = b as u128;
    let y: u128 = x as u128;
    lemma_shl_one_u32(b);
    assert((x & (((1u32 << b) - 1) as u32)) as u128 == y & (((1u128 << w) - 1) as u128))
        by (bit_vector)
        requires
            b < 32,
            w == b,
            y == x,
    ;
    lemma_mask_mod_u128(y, w);
}

/// `1 << b` on `u64` is `2^b` when `b` is below the width.
pub proof fn lemma_shl_one_u64(b: u8)
    requires
        b < 64,
    ensures
        (1u64 << b) as nat == pow2(b as nat),
        (1u64 << b) > 0,
{
    let w: u128 = b as u128;
    lemma_pow2_pos(b as nat);
    assert((1u64 << b) as u128 == 1u128 << w) by (bit_vector)
        requires
            b < 64,
            w == b,
    ;
    lemma_shl_one_u128(w);
}

/// Masking a `u64` with the low `b` bits is the remainder modulo `2^b`.
pub proof fn lemma_mask_mod_u64(x: u64, b: u8)
    requires
        b < 64,
    ensures
        (x & (((1u64 << b) - 1) as u64)) as nat == x as nat % pow2(b as nat),
{
    let w: u128 = b as u128;
    let y: u128 = x as u128;
    lemma_shl_one_u64(b);
    assert((x & (((1u64 << b) - 1) as u64)) as u128 == y & (((1u128 << w) - 1) as u128))
        by (bit_vector)
        requires
            b < 64,
            w == b,
            y == x,
    ;
    lemma_mask_mod_u128(y, w);
}

/// `1 << b` on `u128` with a `u8` shift is `2^b`.
pub proof fn lemma_shl_one_u128_by_u8(b: u8)
    requires
        b < 128,
    ensures
        (1u128 << b) as nat == pow2(b as nat),
        (1u128 << b) > 0,
{
    let w: u128 = b as u128;
    lemma_pow2_pos(b as nat);
    assert(1u128 << b == 1u128 << w) by (bit_vector)
        requires
            w == b,
    ;
    lemma_shl_one_u128(w);
}

/// Masking a `u128` with the low `b` bits (`u8` shift) is the remainder modulo `2^b`.
pub proof fn lemma_mask_mod_u128_by_u8(x: u128, b: u8)
    requires
        b < 128,
    ensures
        (x & (((1u128 << b) - 1) as u128)) as nat == x as nat % pow2(b as nat),
{
    let w: u128 = b as u128;
    assert(1u128 << b == 1u128 << w) by (bit_vector)
        requires
            w == b,
    ;
    lemma_mask_mod_u128(x, w);
}

/// `1 << b` on `usize` is `2^b` when `b` is below the width.
pub proof fn lemma_shl_one_usize(b: u32)
    requires
        b < usize::BITS,
    ensures
        (1usize << b) as nat == pow2(b as nat),
{
    let w: u128 = b as u128;
    assert((1usize << b) as u128 == 1u128 << w) by (bit_vector)
        requires
            b < usize::BITS,
            w == b,
    ;
    lemma_shl_one_u128(w);
}

} // verus!
