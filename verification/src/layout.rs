//! The placement of one field in a packed word: the field of `width` bits that
//! starts at bit `start` of the word. Reading it and writing it are what the
//! accessors of every bit-packed struct do, on a word of at most 128 bits.
use vstd::prelude::*;
use vstd::arithmetic::power2::pow2;
use vstd::bits::lemma_u128_shr_is_div;
use crate::bits::{lemma_mask_mod_u128, lemma_shl_one_u128};

verus! {

/// The low `width` bits set.
pub open spec fn mask_of(width: u32) -> u128 {
    ((1u128 << (width as u128)) - 1) as u128
}

/// A field of `width` bits at `start` lies inside a 128-bit word, and its
/// mask can be formed.
pub open spec fn field_fits(start: u32, width: u32) -> bool {
    width < 128 && start < 128 && start + width <= 128
}

/// The bits of the field, moved down to bit 0.
pub open spec fn read_bits(word: u128, start: u32, width: u32) -> u128 {
    (word >> (start as u128)) & mask_of(width)
}

/// The word with the bits of the field replaced by the low `width` bits of `value`.
pub open spec fn write_bits(word: u128, start: u32, width: u32, value: u128) -> u128 {
    (word & !(mask_of(width) << (start as u128))) | ((value & mask_of(width)) << (start as u128))
}

/// Two fields share no bit.
pub open spec fn disjoint(start1: u32, width1: u32, start2: u32, width2: u32) -> bool {
    start1 + width1 <= start2 || start2 + width2 <= start1
}

/// Reads the field of `width` bits at `start` from `word`.
pub fn read_field(word: u128, start: u32, width: u32) -> (r: u128)
    requires
        field_fits(start, width),
    ensures
        r == read_bits(word, start, width),
        r as nat == (word as nat / pow2(start as nat)) % pow2(width as nat),
{
    proof {
        lemma_read_is_arithmetic(word, start, width);
        lemma_shl_one_u128(width as u128);
    }
    let mask: u128 = (1u128 << (width as u128)) - 1;
    (word >> (start as u128)) & mask
}

/// Writes the low `width` bits of `value` into the field of `width` bits at `start`.
pub fn write_field(word: u128, start: u32, width: u32, value: u128) -> (r: u128)
    requires
        field_fits(start, width),
    ensures
        r == write_bits(word, start, width, value),
{
    proof {
        lemma_shl_one_u128(width as u128);
    }
    let mask: u128 = (1u128 << (width as u128)) - 1;
    (word & !(mask << (start as u128))) | ((value & mask) << (start as u128))
}

#[verifier::rlimit(100)]
proof fn bv_split(x: u128, y: u128, s: u128, m: u128)
    ensures
        ((x | y) >> s) & m == ((x >> s) & m) | ((y >> s) & m),
{
    assert(((x | y) >> s) & m == ((x >> s) & m) | ((y >> s) & m)) by (bit_vector);
}

#[verifier::rlimit(100)]
proof fn bv_cleared(w: u128, s: u128, m: u128, n: u128)
    requires
        n < 128,
        s + n <= 128,
        m == ((1u128 << n) - 1) as u128,
    ensures
        ((w & !(m << s)) >> s) & m == 0,
{
    assert(((w & !(m << s)) >> s) & m == 0) by (bit_vector)
        requires
            n < 128,
            s + n <= 128,
            m == ((1u128 << n) - 1) as u128,
    ;
}

#[verifier::rlimit(100)]
proof fn bv_placed(v: u128, s: u128, m: u128, n: u128)
    requires
        n < 128,
        s + n <= 128,
        m == ((1u128 << n) - 1) as u128,
    ensures
        (((v & m) << s) >> s) & m == v & m,
{
    assert((((v & m) << s) >> s) & m == v & m) by (bit_vector)
        requires
            n < 128,
            s + n <= 128,
            m == ((1u128 << n) - 1) as u128,
    ;
}

#[verifier::rlimit(100)]
proof fn bv_placed_elsewhere(v: u128, s1: u128, m1: u128, n1: u128, s2: u128, m2: u128, n2: u128)
    requires
        n1 < 128,
        s1 + n1 <= 128,
        m1 == ((1u128 << n1) - 1) as u128,
        n2 < 128,
        s2 + n2 <= 128,
        m2 == ((1u128 << n2) - 1) as u128,
        s1 + n1 <= s2 || s2 + n2 <= s1,
    ensures
        (((v & m1) << s1) >> s2) & m2 == 0,
{
    assert((((v & m1) << s1) >> s2) & m2 == 0) by (bit_vector)
        requires
            n1 < 128,
            s1 + n1 <= 128,
            m1 == ((1u128 << n1) - 1) as u128,
            n2 < 128,
            s2 + n2 <= 128,
            m2 == ((1u128 << n2) - 1) as u128,
            s1 + n1 <= s2 || s2 + n2 <= s1,
    ;
}

#[verifier::rlimit(100)]
proof fn bv_kept_elsewhere(w: u128, s1: u128, m1: u128, n1: u128, s2: u128, m2: u128, n2: u128)
    requires
        n1 < 128,
        s1 + n1 <= 128,
        m1 == ((1u128 << n1) - 1) as u128,
        n2 < 128,
        s2 + n2 <= 128,
        m2 == ((1u128 << n2) - 1) as u128,
        s1 + n1 <= s2 || s2 + n2 <= s1,
    ensures
        ((w & !(m1 << s1)) >> s2) & m2 == (w >> s2) & m2,
{
    assert(((w & !(m1 << s1)) >> s2) & m2 == (w >> s2) & m2) by (bit_vector)
        requires
            n1 < 128,
            s1 + n1 <= 128,
            m1 == ((1u128 << n1) - 1) as u128,
            n2 < 128,
            s2 + n2 <= 128,
            m2 == ((1u128 << n2) - 1) as u128,
            s1 + n1 <= s2 || s2 + n2 <= s1,
    ;
}

#[verifier::rlimit(100)]
proof fn bv_write_back(w: u128, s: u128, m: u128, n: u128)
    requires
        n < 128,
        s + n <= 128,
        m == ((1u128 << n) - 1) as u128,
    ensures
        (w & !(m << s)) | ((((w >> s) & m) & m) << s) == w,
{
    assert((w & !(m << s)) | ((((w >> s) & m) & m) << s) == w) by (bit_vector)
        requires
            n < 128,
            s + n <= 128,
            m == ((1u128 << n) - 1) as u128,
    ;
}

#[verifier::rlimit(100)]
proof fn bv_overwrite(w: u128, a: u128, b: u128, s: u128, m: u128)
    ensures
        (((w & !(m << s)) | ((a & m) << s)) & !(m << s)) | ((b & m) << s) == (w & !(m << s)) | ((b
            & m) << s),
{
    assert((((w & !(m << s)) | ((a & m) << s)) & !(m << s)) | ((b & m) << s) == (w & !(m << s))
        | ((b & m) << s)) by (bit_vector);
}

/// What is written to a field is read back from it, cut to the field's width.
pub proof fn lemma_read_after_write(word: u128, start: u32, width: u32, value: u128)
    requires
        field_fits(start, width),
    ensures
        read_bits(write_bits(word, start, width, value), start, width) == value & mask_of(width),
{
    let s = start as u128;
    let n = width as u128;
    let m = mask_of(width);
    let x = word & !(m << s);
    let y = (value & m) << s;
    bv_split(x, y, s, m);
    bv_cleared(word, s, m, n);
    bv_placed(value, s, m, n);
    assert(0u128 | (value & m) == value & m) by (bit_vector);
}

/// Writing a field leaves every field that shares no bit with it as it was.
pub proof fn lemma_write_keeps_other_fields(
    word: u128,
    start: u32,
    width: u32,
    value: u128,
    other_start: u32,
    other_width: u32,
)
    requires
        field_fits(start, width),
        field_fits(other_start, other_width),
        disjoint(start, width, other_start, other_width),
    ensures
        read_bits(write_bits(word, start, width, value), other_start, other_width) == read_bits(
            word,
            other_start,
            other_width,
        ),
{
    let s1 = start as u128;
    let n1 = width as u128;
    let m1 = mask_of(width);
    let s2 = other_start as u128;
    let n2 = other_width as u128;
    let m2 = mask_of(other_width);
    let x = word & !(m1 << s1);
    let y = (value & m1) << s1;
    bv_split(x, y, s2, m2);
    bv_kept_elsewhere(word, s1, m1, n1, s2, m2, n2);
    bv_placed_elsewhere(value, s1, m1, n1, s2, m2, n2);
    let z = (word >> s2) & m2;
    assert(z | 0u128 == z) by (bit_vector);
}

/// Writing back what was read from a field leaves the word as it was.
pub proof fn lemma_write_what_was_read(word: u128, start: u32, width: u32)
    requires
        field_fits(start, width),
    ensures
        write_bits(word, start, width, read_bits(word, start, width)) == word,
{
    bv_write_back(word, start as u128, mask_of(width), width as u128);
}

/// A second write to a field replaces the first.
pub proof fn lemma_write_twice(word: u128, start: u32, width: u32, first: u128, second: u128)
    requires
        field_fits(start, width),
    ensures
        write_bits(write_bits(word, start, width, first), start, width, second) == write_bits(
            word,
            start,
            width,
            second,
        ),
{
    bv_overwrite(word, first, second, start as u128, mask_of(width));
}

#[verifier::rlimit(100)]
proof fn bv_apart(v: u128, s1: u128, m1: u128, n1: u128, s2: u128, m2: u128, n2: u128)
    requires
        n1 < 128,
        s1 + n1 <= 128,
        m1 == ((1u128 << n1) - 1) as u128,
        n2 < 128,
        s2 + n2 <= 128,
        m2 == ((1u128 << n2) - 1) as u128,
        s1 + n1 <= s2 || s2 + n2 <= s1,
    ensures
        ((v & m1) << s1) & (m2 << s2) == 0,
{
    assert(((v & m1) << s1) & (m2 << s2) == 0) by (bit_vector)
        requires
            n1 < 128,
            s1 + n1 <= 128,
            m1 == ((1u128 << n1) - 1) as u128,
            n2 < 128,
            s2 + n2 <= 128,
            m2 == ((1u128 << n2) - 1) as u128,
            s1 + n1 <= s2 || s2 + n2 <= s1,
    ;
}

proof fn bv_swap(w: u128, k1: u128, a1: u128, k2: u128, a2: u128)
    requires
        a1 & k2 == 0,
        a2 & k1 == 0,
    ensures
        (((w & !k1) | a1) & !k2) | a2 == (((w & !k2) | a2) & !k1) | a1,
{
    assert((((w & !k1) | a1) & !k2) | a2 == (((w & !k2) | a2) & !k1) | a1) by (bit_vector)
        requires
            a1 & k2 == 0,
            a2 & k1 == 0,
    ;
}

/// Writes to two fields that share no bit can be made in either order.
pub proof fn lemma_disjoint_writes_commute(
    word: u128,
    start1: u32,
    width1: u32,
    value1: u128,
    start2: u32,
    width2: u32,
    value2: u128,
)
    requires
        field_fits(start1, width1),
        field_fits(start2, width2),
        disjoint(start1, width1, start2, width2),
    ensures
        write_bits(write_bits(word, start1, width1, value1), start2, width2, value2) == write_bits(
            write_bits(word, start2, width2, value2),
            start1,
            width1,
            value1,
        ),
{
    let s1 = start1 as u128;
    let n1 = width1 as u128;
    let m1 = mask_of(width1);
    let s2 = start2 as u128;
    let n2 = width2 as u128;
    let m2 = mask_of(width2);
    bv_apart(value1, s1, m1, n1, s2, m2, n2);
    bv_apart(value2, s2, m2, n2, s1, m1, n1);
    bv_swap(word, m1 << s1, (value1 & m1) << s1, m2 << s2, (value2 & m2) << s2);
}

/// A field's bits, read as a number, are the quotient of the word by `2^start`
/// taken modulo `2^width`; in particular they are below `2^width`.
pub proof fn lemma_read_is_arithmetic(word: u128, start: u32, width: u32)
    requires
        field_fits(start, width),
    ensures
        read_bits(word, start, width) as nat == (word as nat / pow2(start as nat)) % pow2(
            width as nat,
        ),
        (read_bits(word, start, width) as nat) < pow2(width as nat),
{
    let s = start as u128;
    let n = width as u128;
    lemma_u128_shr_is_div(word, s);
    let h = word >> s;
    lemma_mask_mod_u128(h, n);
    lemma_shl_one_u128(n);
    vstd::arithmetic::power2::lemma_pow2_pos(width as nat);
}

} // verus!
