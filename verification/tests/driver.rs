use provider_runtime::driver::{
    big_dec_to_big_uint, big_uint_to_big_dec, increase_least_significant_digit, pack_up, SignedDecimal,
    PackStep, PRECISION_DIGITS,
};

fn decimal(negative: bool, mantissa: u128, scale: i64) -> SignedDecimal {
    SignedDecimal { negative, mantissa, scale }
}

#[test]
fn lowest_digit_is_raised() {
    assert_eq!(increase_least_significant_digit(0), Some(0));
    assert_eq!(increase_least_significant_digit(1), Some(2));
    assert_eq!(increase_least_significant_digit(9), Some(10));
    assert_eq!(increase_least_significant_digit(10), Some(20));
    assert_eq!(increase_least_significant_digit(1_200), Some(1_300));
    assert_eq!(increase_least_significant_digit(1_900), Some(2_000));
    assert_eq!(increase_least_significant_digit(123_456), Some(123_457));
    assert_eq!(
        increase_least_significant_digit(5_000_000_000_000_000_000_000),
        Some(6_000_000_000_000_000_000_000)
    );
}

#[test]
fn a_raise_beyond_the_range_is_refused() {
    assert_eq!(increase_least_significant_digit(u128::MAX), None);
    let top = 300_000_000_000_000_000_000_000_000_000_000_000_000u128;
    assert_eq!(increase_least_significant_digit(top), None);
    assert_eq!(increase_least_significant_digit(top - 1), Some(top));
}

#[test]
fn pack_up_walks_to_a_packable_amount() {
    // A stand-in for the network's rule: amounts of at most two digits that are not zero.
    let is_packable = |n: u128| n.to_string().trim_end_matches('0').len() <= 2;
    let amount = 12_345u128;
    let mut candidate = 12_000u128;
    let mut turns = 0;
    let packed = loop {
        turns += 1;
        match pack_up(amount, candidate, is_packable(candidate)) {
            PackStep::Done(n) => break n,
            PackStep::Try(next) => candidate = next,
            PackStep::OutOfRange => panic!("the walk stays in range"),
        }
    };
    assert_eq!(packed, 13_000);
    assert_eq!(turns, 2);
    assert_eq!(pack_up(100, 100, true), PackStep::Done(100));
    assert_eq!(pack_up(100, 100, false), PackStep::Try(200));
    assert_eq!(pack_up(100, 99, true), PackStep::Try(100));
    assert_eq!(pack_up(5, 0, true), PackStep::Try(0));
    assert_eq!(pack_up(u128::MAX, u128::MAX - 1, true), PackStep::Try(u128::MAX));
    assert_eq!(pack_up(u128::MAX, u128::MAX, false), PackStep::OutOfRange);
}

#[test]
fn decimal_amounts_become_units() {
    assert_eq!(PRECISION_DIGITS, 18);
    let one = 1_000_000_000_000_000_000u128;
    assert_eq!(big_dec_to_big_uint(decimal(false, 1, 0)).ok(), Some(one));
    assert_eq!(big_dec_to_big_uint(decimal(false, 12, 0)).ok(), Some(12 * one));
    assert_eq!(big_dec_to_big_uint(decimal(false, 125, 1)).ok(), Some(12 * one + one / 2));
    assert_eq!(big_dec_to_big_uint(decimal(false, 5, -2)).ok(), Some(500 * one));
    assert_eq!(big_dec_to_big_uint(decimal(false, 7, 18)).ok(), Some(7));
    assert_eq!(big_dec_to_big_uint(decimal(false, 0, 3)).ok(), Some(0));
    // What is below a unit is cut off.
    assert_eq!(big_dec_to_big_uint(decimal(false, 19, 19)).ok(), Some(1));
    assert_eq!(big_dec_to_big_uint(decimal(false, 9, 19)).ok(), Some(0));
    assert_eq!(big_dec_to_big_uint(decimal(false, u128::MAX, 100)).ok(), Some(0));
    assert_eq!(big_dec_to_big_uint(decimal(false, u128::MAX, 18)).ok(), Some(u128::MAX));
    assert_eq!(big_dec_to_big_uint(decimal(false, u128::MAX, 56)).ok(), Some(3));
    assert_eq!(big_dec_to_big_uint(decimal(false, u128::MAX, 57)).ok(), Some(0));
    assert_eq!(big_dec_to_big_uint(decimal(false, 0, i64::MIN)).ok(), Some(0));
    assert_eq!(big_dec_to_big_uint(decimal(false, 1, -20)).ok(), Some(100 * one * one));
}

#[test]
fn amounts_below_zero_are_refused() {
    let e = big_dec_to_big_uint(decimal(true, 1, 0)).err().unwrap();
    assert_eq!(e.inner, "Failed to convert to biguint");
    // Less than a unit below zero is zero.
    assert_eq!(big_dec_to_big_uint(decimal(true, 9, 19)).ok(), Some(0));
    assert_eq!(big_dec_to_big_uint(decimal(true, 0, 0)).ok(), Some(0));
    let e = big_dec_to_big_uint(decimal(true, 1, i64::MIN)).err().unwrap();
    assert_eq!(e.inner, "Failed to convert to biguint");
}

#[test]
fn amounts_beyond_the_range_are_refused() {
    let e = big_dec_to_big_uint(decimal(false, u128::MAX, 17)).err().unwrap();
    assert_eq!(e.inner, "Failed to convert to bigint");
    let e = big_dec_to_big_uint(decimal(false, 1, -21)).err().unwrap();
    assert_eq!(e.inner, "Failed to convert to bigint");
    let e = big_dec_to_big_uint(decimal(false, 1, i64::MIN)).err().unwrap();
    assert_eq!(e.inner, "Failed to convert to bigint");
}

#[test]
fn units_become_decimal_amounts() {
    let d = big_uint_to_big_dec(1_500_000_000_000_000_000).ok().unwrap();
    assert_eq!(d, decimal(false, 1_500_000_000_000_000_000, 18));
    assert_eq!(big_dec_to_big_uint(d).ok(), Some(1_500_000_000_000_000_000));
    let d = big_uint_to_big_dec(0).ok().unwrap();
    assert_eq!(d, decimal(false, 0, 18));
}
