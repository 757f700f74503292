//! Unsigned integers that are never zero, `NonZeroU8` .. `NonZeroU128`.
//!
//! These stand beside the bit conversions of `FromBits`, `ToBits` and
//! `TryFromBits`: a zero bit pattern is the one that none of them holds.
use vstd::prelude::*;

verus! {

/// A `u8` that is not zero.
#[derive(Debug, Clone, Copy, PartialEq, Eq, Structural)]
pub struct NonZeroU8(u8);

impl View for NonZeroU8 {
    type V = u8;

    closed spec fn view(&self) -> u8 {
        self.0
    }
}

impl NonZeroU8 {
    #[verifier::type_invariant]
    spec fn nonzero(self) -> bool {
        self.0 != 0
    }

    /// Two values with the same view are the same value.
    pub proof fn lemma_view_injective(a: Self, b: Self)
        requires
            a@ == b@,
        ensures
            a == b,
    {
    }

    /// What `new` gives for `n`: nothing for zero, else the value `n`.
    pub closed spec fn spec_new(n: u8) -> Option<Self> {
        if n == 0 {
            None
        } else {
            Some(NonZeroU8(n))
        }
    }

    /// The value `n`, or `None` where `n` is zero.
    pub fn new(n: u8) -> (r: Option<Self>)
        ensures
            r == Self::spec_new(n),
            r is Some <==> n != 0,
            r matches Some(v) ==> v@ == n,
    {
        if n == 0 {
            None
        } else {
            Some(NonZeroU8(n))
        }
    }

    /// The held value, which is not zero.
    pub fn get(self) -> (r: u8)
        ensures
            r == self@,
            r != 0,
    {
        proof {
            use_type_invariant(&self);
        }
        self.0
    }

    /// Making a value from what `get` gives back yields the same value.
    pub proof fn lemma_new_of_get(v: Self)
        requires
            v@ != 0,
        ensures
            Self::spec_new(v@) == Some(v),
    {
    }

    /// What `new` makes holds the number it was made from.
    pub proof fn lemma_get_of_new(n: u8)
        ensures
            Self::spec_new(n) is Some <==> n != 0,
            Self::spec_new(n) matches Some(v) ==> v@ == n,
    {
    }
}

/// A `u16` that is not zero.
#[derive(Debug, Clone, Copy, PartialEq, Eq, Structural)]
pub struct NonZeroU16(u16);

impl View for NonZeroU16 {
    type V = u16;

    closed spec fn view(&self) -> u16 {
        self.0
    }
}

impl NonZeroU16 {
    #[verifier::type_invariant]
    spec fn nonzero(self) -> bool {
        self.0 != 0
    }

    /// Two values with the same view are the same value.
    pub proof fn lemma_view_injective(a: Self, b: Self)
        requires
            a@ == b@,
        ensures
            a == b,
    {
    }

    /// What `new` gives for `n`: nothing for zero, else the value `n`.
    pub closed spec fn spec_new(n: u16) -> Option<Self> {
        if n == 0 {
            None
        } else {
            Some(NonZeroU16(n))
        }
    }

    /// The value `n`, or `None` where `n` is zero.
    pub fn new(n: u16) -> (r: Option<Self>)
        ensures
            r == Self::spec_new(n),
            r is Some <==> n != 0,
            r matches Some(v) ==> v@ == n,
    {
        if n == 0 {
            None
        } else {
            Some(NonZeroU16(n))
        }
    }

    /// The held value, which is not zero.
    pub fn get(self) -> (r: u16)
        ensures
            r == self@,
            r != 0,
    {
        proof {
            use_type_invariant(&self);
        }
        self.0
    }

    /// Making a value from what `get` gives back yields the same value.
    pub proof fn lemma_new_of_get(v: Self)
        requires
            v@ != 0,
        ensures
            Self::spec_new(v@) == Some(v),
    {
    }

    /// What `new` makes holds the number it was made from.
    pub proof fn lemma_get_of_new(n: u16)
        ensures
            Self::spec_new(n) is Some <==> n != 0,
            Self::spec_new(n) matches Some(v) ==> v@ == n,
    {
    }
}

/// A `u32` that is not zero.
#[derive(Debug, Clone, Copy, PartialEq, Eq, Structural)]
pub struct NonZeroU32(u32);

impl View for NonZeroU32 {
    type V = u32;

    closed spec fn view(&self) -> u32 {
        self.0
    }
}

impl NonZeroU32 {
    #[verifier::type_invariant]
    spec fn nonzero(self) -> bool {
        self.0 != 0
    }

    /// Two values with the same view are the same value.
    pub proof fn lemma_view_injective(a: Self, b: Self)
        requires
            a@ == b@,
        ensures
            a == b,
    {
    }

    /// What `new` gives for `n`: nothing for zero, else the value `n`.
    pub closed spec fn spec_new(n: u32) -> Option<Self> {
        if n == 0 {
            None
        } else {
            Some(NonZeroU32(n))
        }
    }

    /// The value `n`, or `None` where `n` is zero.
    pub fn new(n: u32) -> (r: Option<Self>)
        ensures
            r == Self::spec_new(n),
            r is Some <==> n != 0,
            r matches Some(v) ==> v@ == n,
    {
        if n == 0 {
            None
        } else {
            Some(NonZeroU32(n))
        }
    }

    /// The held value, which is not zero.
    pub fn get(self) -> (r: u32)
        ensures
            r == self@,
            r != 0,
    {
        proof {
            use_type_invariant(&self);
        }
        self.0
    }

    /// Making a value from what `get` gives back yields the same value.
    pub proof fn lemma_new_of_get(v: Self)
        requires
            v@ != 0,
        ensures
            Self::spec_new(v@) == Some(v),
    {
    }

    /// What `new` makes holds the number it was made from.
    pub proof fn lemma_get_of_new(n: u32)
        ensures
            Self::spec_new(n) is Some <==> n != 0,
            Self::spec_new(n) matches Some(v) ==> v@ == n,
    {
    }
}

/// A `u64` that is not zero.
#[derive(Debug, Clone, Copy, PartialEq, Eq, Structural)]
pub struct NonZeroU64(u64);

impl View for NonZeroU64 {
    type V = u64;

    closed spec fn view(&self) -> u64 {
        self.0
    }
}

impl NonZeroU64 {
    #[verifier::type_invariant]
    spec fn nonzero(self) -> bool {
        self.0 != 0
    }

    /// Two values with the same view are the same value.
    pub proof fn lemma_view_injective(a: Self, b: Self)
        requires
            a@ == b@,
        ensures
            a == b,
    {
    }

    /// What `new` gives for `n`: nothing for zero, else the value `n`.
    pub closed spec fn spec_new(n: u64) -> Option<Self> {
        if n == 0 {
            None
        } else {
            Some(NonZeroU64(n))
        }
    }

    /// The value `n`, or `None` where `n` is zero.
    pub fn new(n: u64) -> (r: Option<Self>)
        ensures
            r == Self::spec_new(n),
            r is Some <==> n != 0,
            r matches Some(v) ==> v@ == n,
    {
        if n == 0 {
            None
        } else {
            Some(NonZeroU64(n))
        }
    }

    /// The held value, which is not zero.
    pub fn get(self) -> (r: u64)
        ensures
            r == self@,
            r != 0,
    {
        proof {
            use_type_invariant(&self);
        }
        self.0
    }

    /// Making a value from what `get` gives back yields the same value.
    pub proof fn lemma_new_of_get(v: Self)
        requires
            v@ != 0,
        ensures
            Self::spec_new(v@) == Some(v),
    {
    }

    /// What `new` makes holds the number it was made from.
    pub proof fn lemma_get_of_new(n: u64)
        ensures
            Self::spec_new(n) is Some <==> n != 0,
            Self::spec_new(n) matches Some(v) ==> v@ == n,
    {
    }
}

/// A `u128` that is not zero.
#[derive(Debug, Clone, Copy, PartialEq, Eq, Structural)]
pub struct NonZeroU128(u128);

impl View for NonZeroU128 {
    type V = u128;

    closed spec fn view(&self) -> u128 {
        self.0
    }
}

impl NonZeroU128 {
    #[verifier::type_invariant]
    spec fn nonzero(self) -> bool {
        self.0 != 0
    }

    /// Two values with the same view are the same value.
    pub proof fn lemma_view_injective(a: Self, b: Self)
        requires
            a@ == b@,
        ensures
            a == b,
    {
    }

    /// What `new` gives for `n`: nothing for zero, else the value `n`.
    pub closed spec fn spec_new(n: u128) -> Option<Self> {
        if n == 0 {
            None
        } else {
            Some(NonZeroU128(n))
        }
    }

    /// The value `n`, or `None` where `n` is zero.
    pub fn new(n: u128) -> (r: Option<Self>)
        ensures
            r == Self::spec_new(n),
            r is Some <==> n != 0,
            r matches Some(v) ==> v@ == n,
    {
        if n == 0 {
            None
        } else {
            Some(NonZeroU128(n))
        }
    }

    /// The held value, which is not zero.
    pub fn get(self) -> (r: u128)
        ensures
            r == self@,
            r != 0,
    {
        proof {
            use_type_invariant(&self);
        }
        self.0
    }

    /// Making a value from what `get` gives back yields the same value.
    pub proof fn lemma_new_of_get(v: Self)
        requires
            v@ != 0,
        ensures
            Self::spec_new(v@) == Some(v),
    {
    }

    /// What `new` makes holds the number it was made from.
    pub proof fn lemma_get_of_new(n: u128)
        ensures
            Self::spec_new(n) is Some <==> n != 0,
            Self::spec_new(n) matches Some(v) ==> v@ == n,
    {
    }
}

} // verus!
