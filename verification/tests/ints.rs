use bitstuff::ints::implementation::{B128, B16, B32, B64, B8};
use bitstuff::ints::{u1, u12, u127, u20, u3, u33, u65, u7, u9};

#[test]
fn try_new_accepts_values_that_fit() {
    assert_eq!(u3::try_new(0).map(|v| v.inner()), Ok(0));
    assert_eq!(u3::try_new(7).map(|v| v.inner()), Ok(7));
    assert_eq!(u7::try_new(127).map(|v| v.inner()), Ok(127));
    assert_eq!(u9::try_new(511).map(|v| *v), Ok(511));
    assert_eq!(u20::try_new(0xF_FFFF).map(|v| *v), Ok(0xF_FFFF));
    assert_eq!(u33::try_new(1 << 32).map(|v| *v), Ok(1 << 32));
    assert_eq!(u127::try_new(u128::MAX >> 1).map(|v| *v), Ok(u128::MAX >> 1));
}

#[test]
fn try_new_refuses_values_that_do_not_fit() {
    assert_eq!(u3::try_new(8), Err(8));
    assert_eq!(u1::try_new(2), Err(2));
    assert_eq!(u12::try_new(4096), Err(4096));
    assert_eq!(u65::try_new(u128::MAX), Err(u128::MAX));
    assert_eq!(u127::try_new(1 << 127), Err(1 << 127));
}

#[test]
fn try_new_refuses_widths_that_are_not_proper() {
    assert_eq!(B8::<0>::try_new(0), Err(0));
    assert_eq!(B8::<8>::try_new(1), Err(1));
    assert_eq!(B16::<16>::try_new(3), Err(3));
    assert_eq!(B32::<40>::try_new(3), Err(3));
    assert_eq!(B64::<64>::try_new(3), Err(3));
    assert_eq!(B128::<128>::try_new(3), Err(3));
    assert_eq!(B128::<0>::try_new(0), Err(0));
}

#[test]
fn checked_new_keeps_the_value() {
    assert_eq!(u3::checked_new(5).inner(), 5);
    assert_eq!(*B16::<10>::checked_new(1000), 1000);
    assert_eq!(*B64::<40>::checked_new((1 << 40) - 1), (1 << 40) - 1);
}

#[test]
fn trimmed_new_keeps_the_low_bits() {
    assert_eq!(u3::trimmed_new(0b1111_1101).inner(), 0b101);
    assert_eq!(u1::trimmed_new(2).inner(), 0);
    assert_eq!(u1::trimmed_new(3).inner(), 1);
    assert_eq!(*u12::trimmed_new(0xABCD), 0xBCD);
    assert_eq!(*u20::trimmed_new(u32::MAX), 0xF_FFFF);
    assert_eq!(*u33::trimmed_new(u64::MAX), (1 << 33) - 1);
    assert_eq!(*u127::trimmed_new(u128::MAX), u128::MAX >> 1);
    assert_eq!(*u65::trimmed_new(7), 7);
}

#[test]
fn trimmed_new_is_the_remainder_modulo_two_to_the_width() {
    for v in 0u8..=255 {
        assert_eq!(u3::trimmed_new(v).inner(), v % 8);
        assert_eq!(u7::trimmed_new(v).inner(), v % 128);
    }
}

#[test]
fn conversions_to_wider_integers_keep_the_value() {
    let x = u7::checked_new(100);
    assert_eq!(u8::from(x), 100u8);
    assert_eq!(u16::from(x), 100u16);
    assert_eq!(u32::from(x), 100u32);
    assert_eq!(u64::from(x), 100u64);
    assert_eq!(u128::from(x), 100u128);
    let y = u12::checked_new(4000);
    assert_eq!(u16::from(y), 4000u16);
    assert_eq!(u128::from(y), 4000u128);
    let z = u20::checked_new(1_000_000);
    assert_eq!(u32::from(z), 1_000_000u32);
    assert_eq!(u64::from(z), 1_000_000u64);
    let w = u33::checked_new(5_000_000_000);
    assert_eq!(u64::from(w), 5_000_000_000u64);
    assert_eq!(u128::from(w), 5_000_000_000u128);
    let q = u65::checked_new(1 << 64);
    assert_eq!(u128::from(q), 1u128 << 64);
}

#[test]
fn equal_values_compare_equal() {
    assert_eq!(u3::checked_new(4), u3::trimmed_new(12));
    assert_ne!(u3::checked_new(4), u3::checked_new(5));
}
