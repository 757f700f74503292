//! Bit-packed values: every type that can stand in a bit field says which
//! bit pattern represents it (`BitRepr`), how to read itself from that
//! pattern (`FromBits`, or `TryFromBits` where some patterns mean nothing) and
//! how to write itself back (`ToBits`).
//!
//! `ints` holds the bounded integers `u1` .. `u127` and `nonzero` the
//! non-zero integers. `layout` reads and writes one field of a packed word.
//! `struct_macro` and `enum_macro` hold the decisions of the `bitstuff`
//! attribute on a struct and on an enum, over the attribute syntax that
//! `syntax` holds as plain values; `errors` gathers errors, and `bits` holds
//! facts about powers of two.
#![allow(non_camel_case_types)]
use vstd::prelude::*;
use vstd::arithmetic::power2::lemma2_to64;

pub mod bits;
pub mod errors;
pub mod enum_macro;
pub mod layout;
pub mod ints;
pub mod nonzero;
pub mod syntax;
pub mod struct_macro;

use ints::u1;
use nonzero::{NonZeroU8, NonZeroU16, NonZeroU32, NonZeroU64, NonZeroU128};

verus! {

/// The bit pattern that represents a value of the type.
pub trait BitRepr {
    type BitRepr;
}

/// A type every bit pattern of which represents a value.
pub trait FromBits: BitRepr + Sized {
    fn from_bits(bits: Self::BitRepr) -> Self;
}

/// A type that can be written as its bit pattern.
pub trait ToBits: BitRepr + Sized {
    fn to_bits(self) -> Self::BitRepr;
}

/// A type some bit patterns of which represent no value; those are handed back.
pub trait TryFromBits: BitRepr + Sized {
    fn try_from_bits(bits: Self::BitRepr) -> Result<Self, Self::BitRepr>;
}

impl<T> FromBits for T where T: BitRepr<BitRepr = T> {
    fn from_bits(bits: T::BitRepr) -> (r: Self)
        ensures
            r == bits,
    {
        bits
    }
}

impl<T> ToBits for T where T: BitRepr<BitRepr = T> {
    fn to_bits(self) -> (r: Self::BitRepr)
        ensures
            r == self,
    {
        self
    }
}

/// The bit that a flag is written as.
pub open spec fn flag_bit(b: bool) -> u8 {
    if b {
        1
    } else {
        0
    }
}

/// The flag that a bit reads as.
pub open spec fn bit_flag(bit: u8) -> bool {
    bit != 0
}

/// A flag written as its bit reads back as the same flag, and a one-bit value
/// read as a flag is written back as the same bit.
pub proof fn lemma_flag_round_trip(b: bool, bit: u8)
    ensures
        bit_flag(flag_bit(b)) == b,
        bit < 2 ==> flag_bit(bit_flag(bit)) == bit,
{
}

impl BitRepr for bool {
    type BitRepr = u1;
}

impl FromBits for bool {
    fn from_bits(bits: u1) -> (r: Self)
        ensures
            r == bit_flag(bits@),
    {
        *bits != 0
    }
}

impl ToBits for bool {
    fn to_bits(self) -> (r: u1)
        ensures
            r@ == flag_bit(self),
    {
        proof {
            lemma2_to64();
        }
        u1::trimmed_new(self as u8)
    }
}

impl BitRepr for u8 {
    type BitRepr = u8;
}

impl BitRepr for NonZeroU8 {
    type BitRepr = u8;
}

impl TryFromBits for NonZeroU8 {
    fn try_from_bits(bits: u8) -> (r: Result<Self, u8>)
        ensures
            r is Ok <==> bits != 0,
            r matches Ok(v) ==> v@ == bits,
            r matches Err(e) ==> e == bits,
    {
        NonZeroU8::new(bits).ok_or(bits)
    }
}

impl ToBits for NonZeroU8 {
    fn to_bits(self) -> (r: u8)
        ensures
            r == self@,
    {
        self.get()
    }
}

impl BitRepr for Option<NonZeroU8> {
    type BitRepr = u8;
}

impl FromBits for Option<NonZeroU8> {
    fn from_bits(bits: u8) -> (r: Self)
        ensures
            r == NonZeroU8::spec_new(bits),
            r is Some <==> bits != 0,
            r matches Some(v) ==> v@ == bits,
    {
        NonZeroU8::new(bits)
    }
}

impl ToBits for Option<NonZeroU8> {
    fn to_bits(self) -> (r: u8)
        ensures
            r == (match self {
                Some(v) => v@,
                None => 0,
            }),
    {
        match self {
            Some(v) => v.get(),
            None => 0,
        }
    }
}

/// Reading an optional `NonZeroU8` from its bits and writing it back gives the same
/// bits, and writing one and reading it back gives the same value.
pub proof fn lemma_option_nonzero_u8_round_trip(bits: u8, o: Option<NonZeroU8>)
    ensures
        (match NonZeroU8::spec_new(bits) {
            Some(v) => v@,
            None => 0,
        }) == bits,
        (o matches Some(v) ==> v@ != 0) ==> NonZeroU8::spec_new(
            match o {
                Some(v) => v@,
                None => 0,
            },
        ) == o,
{
    NonZeroU8::lemma_get_of_new(bits);
    NonZeroU8::lemma_get_of_new(0);
    if let Some(v) = o {
        if v@ != 0 {
            NonZeroU8::lemma_new_of_get(v);
        }
    }
}

impl BitRepr for u16 {
    type BitRepr = u16;
}

impl BitRepr for NonZeroU16 {
    type BitRepr = u16;
}

impl TryFromBits for NonZeroU16 {
    fn try_from_bits(bits: u16) -> (r: Result<Self, u16>)
        ensures
            r is Ok <==> bits != 0,
            r matches Ok(v) ==> v@ == bits,
            r matches Err(e) ==> e == bits,
    {
        NonZeroU16::new(bits).ok_or(bits)
    }
}

impl ToBits for NonZeroU16 {
    fn to_bits(self) -> (r: u16)
        ensures
            r == self@,
    {
        self.get()
    }
}

impl BitRepr for Option<NonZeroU16> {
    type BitRepr = u16;
}

impl FromBits for Option<NonZeroU16> {
    fn from_bits(bits: u16) -> (r: Self)
        ensures
            r == NonZeroU16::spec_new(bits),
            r is Some <==> bits != 0,
            r matches Some(v) ==> v@ == bits,
    {
        NonZeroU16::new(bits)
    }
}

impl ToBits for Option<NonZeroU16> {
    fn to_bits(self) -> (r: u16)
        ensures
            r == (match self {
                Some(v) => v@,
                None => 0,
            }),
    {
        match self {
            Some(v) => v.get(),
            None => 0,
        }
    }
}

/// Reading an optional `NonZeroU16` from its bits and writing it back gives the same
/// bits, and writing one and reading it back gives the same value.
pub proof fn lemma_option_nonzero_u16_round_trip(bits: u16, o: Option<NonZeroU16>)
    ensures
        (match NonZeroU16::spec_new(bits) {
            Some(v) => v@,
            None => 0,
        }) == bits,
        (o matches Some(v) ==> v@ != 0) ==> NonZeroU16::spec_new(
            match o {
                Some(v) => v@,
                None => 0,
            },
        ) == o,
{
    NonZeroU16::lemma_get_of_new(bits);
    NonZeroU16::lemma_get_of_new(0);
    if let Some(v) = o {
        if v@ != 0 {
            NonZeroU16::lemma_new_of_get(v);
        }
    }
}

impl BitRepr for u32 {
    type BitRepr = u32;
}

impl BitRepr for NonZeroU32 {
    type BitRepr = u32;
}

impl TryFromBits for NonZeroU32 {
    fn try_from_bits(bits: u32) -> (r: Result<Self, u32>)
        ensures
            r is Ok <==> bits != 0,
            r matches Ok(v) ==> v@ == bits,
            r matches Err(e) ==> e == bits,
    {
        NonZeroU32::new(bits).ok_or(bits)
    }
}

impl ToBits for NonZeroU32 {
    fn to_bits(self) -> (r: u32)
        ensures
            r == self@,
    {
        self.get()
    }
}

impl BitRepr for Option<NonZeroU32> {
    type BitRepr = u32;
}

impl FromBits for Option<NonZeroU32> {
    fn from_bits(bits: u32) -> (r: Self)
        ensures
            r == NonZeroU32::spec_new(bits),
            r is Some <==> bits != 0,
            r matches Some(v) ==> v@ == bits,
    {
        NonZeroU32::new(bits)
    }
}

impl ToBits for Option<NonZeroU32> {
    fn to_bits(self) -> (r: u32)
        ensures
            r == (match self {
                Some(v) => v@,
                None => 0,
            }),
    {
        match self {
            Some(v) => v.get(),
            None => 0,
        }
    }
}

/// Reading an optional `NonZeroU32` from its bits and writing it back gives the same
/// bits, and writing one and reading it back gives the same value.
pub proof fn lemma_option_nonzero_u32_round_trip(bits: u32, o: Option<NonZeroU32>)
    ensures
        (match NonZeroU32::spec_new(bits) {
            Some(v) => v@,
            None => 0,
        }) == bits,
        (o matches Some(v) ==> v@ != 0) ==> NonZeroU32::spec_new(
            match o {
                Some(v) => v@,
                None => 0,
            },
        ) == o,
{
    NonZeroU32::lemma_get_of_new(bits);
    NonZeroU32::lemma_get_of_new(0);
    if let Some(v) = o {
        if v@ != 0 {
            NonZeroU32::lemma_new_of_get(v);
        }
    }
}

impl BitRepr for u64 {
    type BitRepr = u64;
}

impl BitRepr for NonZeroU64 {
    type BitRepr = u64;
}

impl TryFromBits for NonZeroU64 {
    fn try_from_bits(bits: u64) -> (r: Result<Self, u64>)
        ensures
            r is Ok <==> bits != 0,
            r matches Ok(v) ==> v@ == bits,
            r matches Err(e) ==> e == bits,
    {
        NonZeroU64::new(bits).ok_or(bits)
    }
}

impl ToBits for NonZeroU64 {
    fn to_bits(self) -> (r: u64)
        ensures
            r == self@,
    {
        self.get()
    }
}

impl BitRepr for Option<NonZeroU64> {
    type BitRepr = u64;
}

impl FromBits for Option<NonZeroU64> {
    fn from_bits(bits: u64) -> (r: Self)
        ensures
            r == NonZeroU64::spec_new(bits),
            r is Some <==> bits != 0,
            r matches Some(v) ==> v@ == bits,
    {
        NonZeroU64::new(bits)
    }
}

impl ToBits for Option<NonZeroU64> {
    fn to_bits(self) -> (r: u64)
        ensures
            r == (match self {
                Some(v) => v@,
                None => 0,
            }),
    {
        match self {
            Some(v) => v.get(),
            None => 0,
        }
    }
}

/// Reading an optional `NonZeroU64` from its bits and writing it back gives the same
/// bits, and writing one and reading it back gives the same value.
pub proof fn lemma_option_nonzero_u64_round_trip(bits: u64, o: Option<NonZeroU64>)
    ensures
        (match NonZeroU64::spec_new(bits) {
            Some(v) => v@,
            None => 0,
        }) == bits,
        (o matches Some(v) ==> v@ != 0) ==> NonZeroU64::spec_new(
            match o {
                Some(v) => v@,
                None => 0,
            },
        ) == o,
{
    NonZeroU64::lemma_get_of_new(bits);
    NonZeroU64::lemma_get_of_new(0);
    if let Some(v) = o {
        if v@ != 0 {
            NonZeroU64::lemma_new_of_get(v);
        }
    }
}

impl BitRepr for u128 {
    type BitRepr = u128;
}

impl BitRepr for NonZeroU128 {
    type BitRepr = u128;
}

impl TryFromBits for NonZeroU128 {
    fn try_from_bits(bits: u128) -> (r: Result<Self, u128>)
        ensures
            r is Ok <==> bits != 0,
            r matches Ok(v) ==> v@ == bits,
            r matches Err(e) ==> e == bits,
    {
        NonZeroU128::new(bits).ok_or(bits)
    }
}

impl ToBits for NonZeroU128 {
    fn to_bits(self) -> (r: u128)
        ensures
            r == self@,
    {
        self.get()
    }
}

impl BitRepr for Option<NonZeroU128> {
    type BitRepr = u128;
}

impl FromBits for Option<NonZeroU128> {
    fn from_bits(bits: u128) -> (r: Self)
        ensures
            r == NonZeroU128::spec_new(bits),
            r is Some <==> bits != 0,
            r matches Some(v) ==> v@ == bits,
    {
        NonZeroU128::new(bits)
    }
}

impl ToBits for Option<NonZeroU128> {
    fn to_bits(self) -> (r: u128)
        ensures
            r == (match self {
                Some(v) => v@,
                None => 0,
            }),
    {
        match self {
            Some(v) => v.get(),
            None => 0,
        }
    }
}

/// Reading an optional `NonZeroU128` from its bits and writing it back gives the same
/// bits, and writing one and reading it back gives the same value.
pub proof fn lemma_option_nonzero_u128_round_trip(bits: u128, o: Option<NonZeroU128>)
    ensures
        (match NonZeroU128::spec_new(bits) {
            Some(v) => v@,
            None => 0,
        }) == bits,
        (o matches Some(v) ==> v@ != 0) ==> NonZeroU128::spec_new(
            match o {
                Some(v) => v@,
                None => 0,
            },
        ) == o,
{
    NonZeroU128::lemma_get_of_new(bits);
    NonZeroU128::lemma_get_of_new(0);
    if let Some(v) = o {
        if v@ != 0 {
            NonZeroU128::lemma_new_of_get(v);
        }
    }
}

} // verus!
