//! Unsigned integers narrower than their carrier: `B8<BITS>` holds a `u8`
//! below `2^BITS`, and so on up to `B128<BITS>` on a `u128`.
//!
//! Every value of these types keeps its invariant: `0 < BITS < width of the
//! carrier` and the held value is below `2^BITS`. A value can only be made by
//! `try_new` (which refuses what does not fit), `checked_new` (whose caller
//! shows that it fits) or `trimmed_new` (which keeps the low `BITS` bits).
use vstd::prelude::*;
use vstd::arithmetic::power2::pow2;
use vstd::std_specs::convert::FromSpecImpl;
use crate::BitRepr;
use crate::bits::{
    lemma_mask_mod_u128_by_u8, lemma_mask_mod_u16, lemma_mask_mod_u32, lemma_mask_mod_u64,
    lemma_mask_mod_u8, lemma_shl_one_u128_by_u8, lemma_shl_one_u16, lemma_shl_one_u32,
    lemma_shl_one_u64, lemma_shl_one_u8,
};

verus! {

/// `bits` is a width that a bounded integer on a carrier of `carrier_bits` bits can have.
pub open spec fn valid_width(bits: u8, carrier_bits: nat) -> bool {
    0 < bits && (bits as nat) < carrier_bits
}

/// `value` fits in `bits` bits.
pub open spec fn fits(value: nat, bits: u8) -> bool {
    value < pow2(bits as nat)
}

/// Keeping the low `bits` bits of a value that fits in them changes nothing,
/// and keeping them twice is keeping them once.
pub proof fn lemma_trim_fitting(value: nat, bits: u8)
    ensures
        fits(value, bits) ==> value % pow2(bits as nat) == value,
        (value % pow2(bits as nat)) % pow2(bits as nat) == value % pow2(bits as nat),
        fits(value % pow2(bits as nat), bits),
{
    vstd::arithmetic::power2::lemma_pow2_pos(bits as nat);
    vstd::arithmetic::div_mod::lemma_mod_twice(value as int, pow2(bits as nat) as int);
    if fits(value, bits) {
        vstd::arithmetic::div_mod::lemma_small_mod(value, pow2(bits as nat));
    }
}

/// An unsigned integer of `BITS` bits, held in a `u8`.
#[derive(Debug, Clone, Copy, PartialEq, Eq)]
pub struct B8<const BITS: u8>(u8);

impl<const BITS: u8> View for B8<BITS> {
    type V = u8;

    closed spec fn view(&self) -> u8 {
        self.0
    }
}

impl<const BITS: u8> B8<BITS> {
    #[verifier::type_invariant]
    spec fn well_formed(self) -> bool {
        valid_width(BITS, 8) && fits(self.0 as nat, BITS)
    }

    /// The held value.
    pub fn inner(&self) -> (r: u8)
        ensures
            r == self@,
            valid_width(BITS, 8),
            fits(r as nat, BITS),
    {
        proof {
            use_type_invariant(self);
        }
        self.0
    }

    /// Two values with the same view are the same value.
    pub proof fn lemma_view_injective(a: Self, b: Self)
        requires
            a@ == b@,
        ensures
            a == b,
    {
    }

    /// Makes the value when `BITS` is a proper width and `value` fits in it;
    /// hands `value` back as the error otherwise.
    pub fn try_new(value: u8) -> (r: Result<Self, u8>)
        ensures
            r is Ok <==> (valid_width(BITS, 8) && fits(value as nat, BITS)),
            r matches Ok(v) ==> v@ == value,
            r matches Err(e) ==> e == value,
    {
        if BITS == 0 || BITS >= 8 {
            return Err(value);
        }
        proof {
            lemma_shl_one_u8(BITS);
        }
        let max = (1u8 << BITS) - 1;
        if value > max {
            return Err(value);
        }
        Ok(Self(value))
    }

    /// Makes the value; the caller shows that it fits.
    pub fn checked_new(value: u8) -> (r: Self)
        requires
            valid_width(BITS, 8),
            fits(value as nat, BITS),
        ensures
            r@ == value,
    {
        match Self::try_new(value) {
            Ok(v) => v,
            Err(_) => vstd::pervasive::unreached(),
        }
    }

    /// Keeps the low `BITS` bits of `value`.
    pub fn trimmed_new(value: u8) -> (r: Self)
        requires
            valid_width(BITS, 8),
        ensures
            r@ as nat == value as nat % pow2(BITS as nat),
    {
        proof {
            lemma_shl_one_u8(BITS);
            lemma_mask_mod_u8(value, BITS);
        }
        let mask = (1u8 << BITS) - 1;
        proof {
            assert(value as nat % pow2(BITS as nat) < pow2(BITS as nat)) by {
                vstd::arithmetic::power2::lemma_pow2_pos(BITS as nat);
            }
        }
        Self(value & mask)
    }
}

impl<const BITS: u8> core::ops::Deref for B8<BITS> {
    type Target = u8;

    fn deref(&self) -> (r: &u8)
        ensures
            *r == self@,
            valid_width(BITS, 8),
            fits(*r as nat, BITS),
    {
        proof {
            use_type_invariant(self);
        }
        &self.0
    }
}

impl<const BITS: u8> BitRepr for B8<BITS> {
    type BitRepr = Self;
}

/// An unsigned integer of `BITS` bits, held in a `u16`.
#[derive(Debug, Clone, Copy, PartialEq, Eq)]
pub struct B16<const BITS: u8>(u16);

impl<const BITS: u8> View for B16<BITS> {
    type V = u16;

    closed spec fn view(&self) -> u16 {
        self.0
    }
}

impl<const BITS: u8> B16<BITS> {
    #[verifier::type_invariant]
    spec fn well_formed(self) -> bool {
        valid_width(BITS, 16) && fits(self.0 as nat, BITS)
    }

    /// Two values with the same view are the same value.
    pub proof fn lemma_view_injective(a: Self, b: Self)
        requires
            a@ == b@,
        ensures
            a == b,
    {
    }

    /// Makes the value when `BITS` is a proper width and `value` fits in it;
    /// hands `value` back as the error otherwise.
    pub fn try_new(value: u16) -> (r: Result<Self, u16>)
        ensures
            r is Ok <==> (valid_width(BITS, 16) && fits(value as nat, BITS)),
            r matches Ok(v) ==> v@ == value,
            r matches Err(e) ==> e == value,
    {
        if BITS == 0 || BITS >= 16 {
            return Err(value);
        }
        proof {
            lemma_shl_one_u16(BITS);
        }
        let max = (1u16 << BITS) - 1;
        if value > max {
            return Err(value);
        }
        Ok(Self(value))
    }

    /// Makes the value; the caller shows that it fits.
    pub fn checked_new(value: u16) -> (r: Self)
        requires
            valid_width(BITS, 16),
            fits(value as nat, BITS),
        ensures
            r@ == value,
    {
        match Self::try_new(value) {
            Ok(v) => v,
            Err(_) => vstd::pervasive::unreached(),
        }
    }

    /// Keeps the low `BITS` bits of `value`.
    pub fn trimmed_new(value: u16) -> (r: Self)
        requires
            valid_width(BITS, 16),
        ensures
            r@ as nat == value as nat % pow2(BITS as nat),
    {
        proof {
            lemma_shl_one_u16(BITS);
            lemma_mask_mod_u16(value, BITS);
        }
        let mask = (1u16 << BITS) - 1;
        proof {
            assert(value as nat % pow2(BITS as nat) < pow2(BITS as nat)) by {
                vstd::arithmetic::power2::lemma_pow2_pos(BITS as nat);
            }
        }
        Self(value & mask)
    }
}

impl<const BITS: u8> core::ops::Deref for B16<BITS> {
    type Target = u16;

    fn deref(&self) -> (r: &u16)
        ensures
            *r == self@,
            valid_width(BITS, 16),
            fits(*r as nat, BITS),
    {
        proof {
            use_type_invariant(self);
        }
        &self.0
    }
}

impl<const BITS: u8> BitRepr for B16<BITS> {
    type BitRepr = Self;
}

/// An unsigned integer of `BITS` bits, held in a `u32`.
#[derive(Debug, Clone, Copy, PartialEq, Eq)]
pub struct B32<const BITS: u8>(u32);

impl<const BITS: u8> View for B32<BITS> {
    type V = u32;

    closed spec fn view(&self) -> u32 {
        self.0
    }
}

impl<const BITS: u8> B32<BITS> {
    #[verifier::type_invariant]
    spec fn well_formed(self) -> bool {
        valid_width(BITS, 32) && fits(self.0 as nat, BITS)
    }

    /// Two values with the same view are the same value.
    pub proof fn lemma_view_injective(a: Self, b: Self)
        requires
            a@ == b@,
        ensures
            a == b,
    {
    }

    /// Makes the value when `BITS` is a proper width and `value` fits in it;
    /// hands `value` back as the error otherwise.
    pub fn try_new(value: u32) -> (r: Result<Self, u32>)
        ensures
            r is Ok <==> (valid_width(BITS, 32) && fits(value as nat, BITS)),
            r matches Ok(v) ==> v@ == value,
            r matches Err(e) ==> e == value,
    {
        if BITS == 0 || BITS >= 32 {
            return Err(value);
        }
        proof {
            lemma_shl_one_u32(BITS);
        }
        let max = (1u32 << BITS) - 1;
        if value > max {
            return Err(value);
        }
        Ok(Self(value))
    }

    /// Makes the value; the caller shows that it fits.
    pub fn checked_new(value: u32) -> (r: Self)
        requires
            valid_width(BITS, 32),
            fits(value as nat, BITS),
        ensures
            r@ == value,
    {
        match Self::try_new(value) {
            Ok(v) => v,
            Err(_) => vstd::pervasive::unreached(),
        }
    }

    /// Keeps the low `BITS` bits of `value`.
    pub fn trimmed_new(value: u32) -> (r: Self)
        requires
            valid_width(BITS, 32),
        ensures
            r@ as nat == value as nat % pow2(BITS as nat),
    {
        proof {
            lemma_shl_one_u32(BITS);
            lemma_mask_mod_u32(value, BITS);
        }
        let mask = (1u32 << BITS) - 1;
        proof {
            assert(value as nat % pow2(BITS as nat) < pow2(BITS as nat)) by {
                vstd::arithmetic::power2::lemma_pow2_pos(BITS as nat);
            }
        }
        Self(value & mask)
    }
}

impl<const BITS: u8> core::ops::Deref for B32<BITS> {
    type Target = u32;

    fn deref(&self) -> (r: &u32)
        ensures
            *r == self@,
            valid_width(BITS, 32),
            fits(*r as nat, BITS),
    {
        proof {
            use_type_invariant(self);
        }
        &self.0
    }
}

impl<const BITS: u8> BitRepr for B32<BITS> {
    type BitRepr = Self;
}

/// An unsigned integer of `BITS` bits, held in a `u64`.
#[derive(Debug, Clone, Copy, PartialEq, Eq)]
pub struct B64<const BITS: u8>(u64);

impl<const BITS: u8> View for B64<BITS> {
    type V = u64;

    closed spec fn view(&self) -> u64 {
        self.0
    }
}

impl<const BITS: u8> B64<BITS> {
    #[verifier::type_invariant]
    spec fn well_formed(self) -> bool {
        valid_width(BITS, 64) && fits(self.0 as nat, BITS)
    }

    /// Two values with the same view are the same value.
    pub proof fn lemma_view_injective(a: Self, b: Self)
        requires
            a@ == b@,
        ensures
            a == b,
    {
    }

    /// Makes the value when `BITS` is a proper width and `value` fits in it;
    /// hands `value` back as the error otherwise.
    pub fn try_new(value: u64) -> (r: Result<Self, u64>)
        ensures
            r is Ok <==> (valid_width(BITS, 64) && fits(value as nat, BITS)),
            r matches Ok(v) ==> v@ == value,
            r matches Err(e) ==> e == value,
    {
        if BITS == 0 || BITS >= 64 {
            return Err(value);
        }
        proof {
            lemma_shl_one_u64(BITS);
        }
        let max = (1u64 << BITS) - 1;
        if value > max {
            return Err(value);
        }
        Ok(Self(value))
    }

    /// Makes the value; the caller shows that it fits.
    pub fn checked_new(value: u64) -> (r: Self)
        requires
            valid_width(BITS, 64),
            fits(value as nat, BITS),
        ensures
            r@ == value,
    {
        match Self::try_new(value) {
            Ok(v) => v,
            Err(_) => vstd::pervasive::unreached(),
        }
    }

    /// Keeps the low `BITS` bits of `value`.
    pub fn trimmed_new(value: u64) -> (r: Self)
        requires
            valid_width(BITS, 64),
        ensures
            r@ as nat == value as nat % pow2(BITS as nat),
    {
        proof {
            lemma_shl_one_u64(BITS);
            lemma_mask_mod_u64(value, BITS);
        }
        let mask = (1u64 << BITS) - 1;
        proof {
            assert(value as nat % pow2(BITS as nat) < pow2(BITS as nat)) by {
                vstd::arithmetic::power2::lemma_pow2_pos(BITS as nat);
            }
        }
        Self(value & mask)
    }
}

impl<const BITS: u8> core::ops::Deref for B64<BITS> {
    type Target = u64;

    fn deref(&self) -> (r: &u64)
        ensures
            *r == self@,
            valid_width(BITS, 64),
            fits(*r as nat, BITS),
    {
        proof {
            use_type_invariant(self);
        }
        &self.0
    }
}

impl<const BITS: u8> BitRepr for B64<BITS> {
    type BitRepr = Self;
}

/// An unsigned integer of `BITS` bits, held in a `u128`.
#[derive(Debug, Clone, Copy, PartialEq, Eq)]
pub struct B128<const BITS: u8>(u128);

impl<const BITS: u8> View for B128<BITS> {
    type V = u128;

    closed spec fn view(&self) -> u128 {
        self.0
    }
}

impl<const BITS: u8> B128<BITS> {
    #[verifier::type_invariant]
    spec fn well_formed(self) -> bool {
        valid_width(BITS, 128) && fits(self.0 as nat, BITS)
    }

    /// Two values with the same view are the same value.
    pub proof fn lemma_view_injective(a: Self, b: Self)
        requires
            a@ == b@,
        ensures
            a == b,
    {
    }

    /// Makes the value when `BITS` is a proper width and `value` fits in it;
    /// hands `value` back as the error otherwise.
    pub fn try_new(value: u128) -> (r: Result<Self, u128>)
        ensures
            r is Ok <==> (valid_width(BITS, 128) && fits(value as nat, BITS)),
            r matches Ok(v) ==> v@ == value,
            r matches Err(e) ==> e == value,
    {
        if BITS == 0 || BITS >= 128 {
            return Err(value);
        }
        proof {
            lemma_shl_one_u128_by_u8(BITS);
        }
        let max = (1u128 << BITS) - 1;
        if value > max {
            return Err(value);
        }
        Ok(Self(value))
    }

    /// Makes the value; the caller shows that it fits.
    pub fn checked_new(value: u128) -> (r: Self)
        requires
            valid_width(BITS, 128),
            fits(value as nat, BITS),
        ensures
            r@ == value,
    {
        match Self::try_new(value) {
            Ok(v) => v,
            Err(_) => vstd::pervasive::unreached(),
        }
    }

    /// Keeps the low `BITS` bits of `value`.
    pub fn trimmed_new(value: u128) -> (r: Self)
        requires
            valid_width(BITS, 128),
        ensures
            r@ as nat == value as nat % pow2(BITS as nat),
    {
        proof {
            lemma_shl_one_u128_by_u8(BITS);
            lemma_mask_mod_u128_by_u8(value, BITS);
        }
        let mask = (1u128 << BITS) - 1;
        proof {
            assert(value as nat % pow2(BITS as nat) < pow2(BITS as nat)) by {
                vstd::arithmetic::power2::lemma_pow2_pos(BITS as nat);
            }
        }
        Self(value & mask)
    }
}

impl<const BITS: u8> core::ops::Deref for B128<BITS> {
    type Target = u128;

    fn deref(&self) -> (r: &u128)
        ensures
            *r == self@,
            valid_width(BITS, 128),
            fits(*r as nat, BITS),
    {
        proof {
            use_type_invariant(self);
        }
        &self.0
    }
}

impl<const BITS: u8> BitRepr for B128<BITS> {
    type BitRepr = Self;
}

impl<const BITS: u8> From<B8<BITS>> for u8 {
    fn from(value: B8<BITS>) -> (r: u8)
        ensures
            r == value@,
            valid_width(BITS, 8),
            fits(r as nat, BITS),
    {
        proof {
            use_type_invariant(&value);
        }
        value.0 as u8
    }
}

impl<const BITS: u8> FromSpecImpl<B8<BITS>> for u8 {
    open spec fn obeys_from_spec() -> bool {
        true
    }

    open spec fn from_spec(v: B8<BITS>) -> u8 {
        v@ as u8
    }
}

impl<const BITS: u8> From<B8<BITS>> for u16 {
    fn from(value: B8<BITS>) -> (r: u16)
        ensures
            r == value@,
            valid_width(BITS, 8),
            fits(r as nat, BITS),
    {
        proof {
            use_type_invariant(&value);
        }
        value.0 as u16
    }
}

impl<const BITS: u8> FromSpecImpl<B8<BITS>> for u16 {
    open spec fn obeys_from_spec() -> bool {
        true
    }

    open spec fn from_spec(v: B8<BITS>) -> u16 {
        v@ as u16
    }
}

impl<const BITS: u8> From<B8<BITS>> for u32 {
    fn from(value: B8<BITS>) -> (r: u32)
        ensures
            r == value@,
            valid_width(BITS, 8),
            fits(r as nat, BITS),
    {
        proof {
            use_type_invariant(&value);
        }
        value.0 as u32
    }
}

impl<const BITS: u8> FromSpecImpl<B8<BITS>> for u32 {
    open spec fn obeys_from_spec() -> bool {
        true
    }

    open spec fn from_spec(v: B8<BITS>) -> u32 {
        v@ as u32
    }
}

impl<const BITS: u8> From<B8<BITS>> for u64 {
    fn from(value: B8<BITS>) -> (r: u64)
        ensures
            r == value@,
            valid_width(BITS, 8),
            fits(r as nat, BITS),
    {
        proof {
            use_type_invariant(&value);
        }
        value.0 as u64
    }
}

impl<const BITS: u8> FromSpecImpl<B8<BITS>> for u64 {
    open spec fn obeys_from_spec() -> bool {
        true
    }

    open spec fn from_spec(v: B8<BITS>) -> u64 {
        v@ as u64
    }
}

impl<const BITS: u8> From<B8<BITS>> for u128 {
    fn from(value: B8<BITS>) -> (r: u128)
        ensures
            r == value@,
            valid_width(BITS, 8),
            fits(r as nat, BITS),
    {
        proof {
            use_type_invariant(&value);
        }
        value.0 as u128
    }
}

impl<const BITS: u8> FromSpecImpl<B8<BITS>> for u128 {
    open spec fn obeys_from_spec() -> bool {
        true
    }

    open spec fn from_spec(v: B8<BITS>) -> u128 {
        v@ as u128
    }
}

impl<const BITS: u8> From<B16<BITS>> for u16 {
    fn from(value: B16<BITS>) -> (r: u16)
        ensures
            r == value@,
            valid_width(BITS, 16),
            fits(r as nat, BITS),
    {
        proof {
            use_type_invariant(&value);
        }
        value.0 as u16
    }
}

impl<const BITS: u8> FromSpecImpl<B16<BITS>> for u16 {
    open spec fn obeys_from_spec() -> bool {
        true
    }

    open spec fn from_spec(v: B16<BITS>) -> u16 {
        v@ as u16
    }
}

impl<const BITS: u8> From<B16<BITS>> for u32 {
    fn from(value: B16<BITS>) -> (r: u32)
        ensures
            r == value@,
            valid_width(BITS, 16),
            fits(r as nat, BITS),
    {
        proof {
            use_type_invariant(&value);
        }
        value.0 as u32
    }
}

impl<const BITS: u8> FromSpecImpl<B16<BITS>> for u32 {
    open spec fn obeys_from_spec() -> bool {
        true
    }

    open spec fn from_spec(v: B16<BITS>) -> u32 {
        v@ as u32
    }
}

impl<const BITS: u8> From<B16<BITS>> for u64 {
    fn from(value: B16<BITS>) -> (r: u64)
        ensures
            r == value@,
            valid_width(BITS, 16),
            fits(r as nat, BITS),
    {
        proof {
            use_type_invariant(&value);
        }
        value.0 as u64
    }
}

impl<const BITS: u8> FromSpecImpl<B16<BITS>> for u64 {
    open spec fn obeys_from_spec() -> bool {
        true
    }

    open spec fn from_spec(v: B16<BITS>) -> u64 {
        v@ as u64
    }
}

impl<const BITS: u8> From<B16<BITS>> for u128 {
    fn from(value: B16<BITS>) -> (r: u128)
        ensures
            r == value@,
            valid_width(BITS, 16),
            fits(r as nat, BITS),
    {
        proof {
            use_type_invariant(&value);
        }
        value.0 as u128
    }
}

impl<const BITS: u8> FromSpecImpl<B16<BITS>> for u128 {
    open spec fn obeys_from_spec() -> bool {
        true
    }

    open spec fn from_spec(v: B16<BITS>) -> u128 {
        v@ as u128
    }
}

impl<const BITS: u8> From<B32<BITS>> for u32 {
    fn from(value: B32<BITS>) -> (r: u32)
        ensures
            r == value@,
            valid_width(BITS, 32),
            fits(r as nat, BITS),
    {
        proof {
            use_type_invariant(&value);
        }
        value.0 as u32
    }
}

impl<const BITS: u8> FromSpecImpl<B32<BITS>> for u32 {
    open spec fn obeys_from_spec() -> bool {
        true
    }

    open spec fn from_spec(v: B32<BITS>) -> u32 {
        v@ as u32
    }
}

impl<const BITS: u8> From<B32<BITS>> for u64 {
    fn from(value: B32<BITS>) -> (r: u64)
        ensures
            r == value@,
            valid_width(BITS, 32),
            fits(r as nat, BITS),
    {
        proof {
            use_type_invariant(&value);
        }
        value.0 as u64
    }
}

impl<const BITS: u8> FromSpecImpl<B32<BITS>> for u64 {
    open spec fn obeys_from_spec() -> bool {
        true
    }

    open spec fn from_spec(v: B32<BITS>) -> u64 {
        v@ as u64
    }
}

impl<const BITS: u8> From<B32<BITS>> for u128 {
    fn from(value: B32<BITS>) -> (r: u128)
        ensures
            r == value@,
            valid_width(BITS, 32),
            fits(r as nat, BITS),
    {
        proof {
            use_type_invariant(&value);
        }
        value.0 as u128
    }
}

impl<const BITS: u8> FromSpecImpl<B32<BITS>> for u128 {
    open spec fn obeys_from_spec() -> bool {
        true
    }

    open spec fn from_spec(v: B32<BITS>) -> u128 {
        v@ as u128
    }
}

impl<const BITS: u8> From<B64<BITS>> for u64 {
    fn from(value: B64<BITS>) -> (r: u64)
        ensures
            r == value@,
            valid_width(BITS, 64),
            fits(r as nat, BITS),
    {
        proof {
            use_type_invariant(&value);
        }
        value.0 as u64
    }
}

impl<const BITS: u8> FromSpecImpl<B64<BITS>> for u64 {
    open spec fn obeys_from_spec() -> bool {
        true
    }

    open spec fn from_spec(v: B64<BITS>) -> u64 {
        v@ as u64
    }
}

impl<const BITS: u8> From<B64<BITS>> for u128 {
    fn from(value: B64<BITS>) -> (r: u128)
        ensures
            r == value@,
            valid_width(BITS, 64),
            fits(r as nat, BITS),
    {
        proof {
            use_type_invariant(&value);
        }
        value.0 as u128
    }
}

impl<const BITS: u8> FromSpecImpl<B64<BITS>> for u128 {
    open spec fn obeys_from_spec() -> bool {
        true
    }

    open spec fn from_spec(v: B64<BITS>) -> u128 {
        v@ as u128
    }
}

impl<const BITS: u8> From<B128<BITS>> for u128 {
    fn from(value: B128<BITS>) -> (r: u128)
        ensures
            r == value@,
            valid_width(BITS, 128),
            fits(r as nat, BITS),
    {
        proof {
            use_type_invariant(&value);
        }
        value.0 as u128
    }
}

impl<const BITS: u8> FromSpecImpl<B128<BITS>> for u128 {
    open spec fn obeys_from_spec() -> bool {
        true
    }

    open spec fn from_spec(v: B128<BITS>) -> u128 {
        v@ as u128
    }
}

} // verus!
