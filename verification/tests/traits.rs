use bitstuff::ints::u1;
use bitstuff::nonzero::{NonZeroU128, NonZeroU16, NonZeroU32, NonZeroU64, NonZeroU8};
use bitstuff::{FromBits, ToBits, TryFromBits};

#[test]
fn a_flag_is_one_bit() {
    assert_eq!(true.to_bits().inner(), 1);
    assert_eq!(false.to_bits().inner(), 0);
    assert!(<bool as FromBits>::from_bits(u1::checked_new(1)));
    assert!(!<bool as FromBits>::from_bits(u1::checked_new(0)));
}

#[test]
fn a_flag_round_trips() {
    for b in [false, true] {
        assert_eq!(<bool as FromBits>::from_bits(b.to_bits()), b);
    }
    for v in 0u8..2 {
        assert_eq!(<bool as FromBits>::from_bits(u1::checked_new(v)).to_bits().inner(), v);
    }
}

#[test]
fn primitive_integers_are_their_own_bits() {
    assert_eq!(<u8 as FromBits>::from_bits(200), 200);
    assert_eq!(200u16.to_bits(), 200);
    assert_eq!(<u32 as FromBits>::from_bits(7).to_bits(), 7);
    assert_eq!(<u64 as FromBits>::from_bits(u64::MAX), u64::MAX);
    assert_eq!(<u128 as FromBits>::from_bits(1 << 100), 1 << 100);
    let x = u1::checked_new(1);
    assert_eq!(<u1 as FromBits>::from_bits(x), x);
}

#[test]
fn zero_is_no_nonzero_integer() {
    assert_eq!(NonZeroU8::try_from_bits(0).map(|v| v.get()), Err(0));
    assert_eq!(NonZeroU16::try_from_bits(0).map(|v| v.get()), Err(0));
    assert_eq!(NonZeroU32::try_from_bits(0).map(|v| v.get()), Err(0));
    assert_eq!(NonZeroU64::try_from_bits(0).map(|v| v.get()), Err(0));
    assert_eq!(NonZeroU128::try_from_bits(0).map(|v| v.get()), Err(0));
}

#[test]
fn nonzero_integers_round_trip() {
    assert_eq!(NonZeroU8::try_from_bits(9).map(|v| v.to_bits()), Ok(9));
    assert_eq!(NonZeroU16::try_from_bits(999).map(|v| v.to_bits()), Ok(999));
    assert_eq!(NonZeroU32::try_from_bits(u32::MAX).map(|v| v.to_bits()), Ok(u32::MAX));
    assert_eq!(NonZeroU64::try_from_bits(1).map(|v| v.to_bits()), Ok(1));
    assert_eq!(NonZeroU128::try_from_bits(u128::MAX).map(|v| v.to_bits()), Ok(u128::MAX));
    assert_eq!(NonZeroU8::new(3).map(|v| v.get()), Some(3));
    assert!(NonZeroU8::new(0).is_none());
}

#[test]
fn an_optional_nonzero_integer_reads_zero_as_none() {
    assert_eq!(<Option<NonZeroU8> as FromBits>::from_bits(0), None);
    assert_eq!(<Option<NonZeroU16> as FromBits>::from_bits(0), None);
    assert_eq!(<Option<NonZeroU32> as FromBits>::from_bits(0), None);
    assert_eq!(<Option<NonZeroU64> as FromBits>::from_bits(0), None);
    assert_eq!(<Option<NonZeroU128> as FromBits>::from_bits(0), None);
    assert_eq!(<Option<NonZeroU8> as FromBits>::from_bits(5).map(|v| v.get()), Some(5));
}

#[test]
fn an_optional_nonzero_integer_round_trips() {
    assert_eq!(None::<NonZeroU8>.to_bits(), 0);
    assert_eq!(None::<NonZeroU128>.to_bits(), 0);
    for v in 0u8..=255 {
        assert_eq!(<Option<NonZeroU8> as FromBits>::from_bits(v).to_bits(), v);
    }
    for v in [0u64, 1, 77, u64::MAX] {
        assert_eq!(<Option<NonZeroU64> as FromBits>::from_bits(v).to_bits(), v);
    }
    let some = NonZeroU32::new(42);
    assert_eq!(<Option<NonZeroU32> as FromBits>::from_bits(some.to_bits()), some);
}
