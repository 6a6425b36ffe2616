//! Token amounts of the payment driver: how a decimal amount becomes a
//! number of the smallest units of the token, and how an amount is raised to
//! one that fits the packed form in which the network carries amounts.

use bigdecimal::BigDecimal;
use num::bigint::{BigInt, ToBigInt};
use num::pow::pow;
use num::{BigUint, ToPrimitive};
use vstd::prelude::*;
use vstd::string::*;

verus! {

/// How many decimal places of a token the smallest unit stands for.
pub const PRECISION_DIGITS: i64 = 18;

/// `base` to the power of `exp`.
pub open spec fn power(base: nat, exp: nat) -> nat
    decreases exp,
{
    if exp == 0 {
        1
    } else {
        base * power(base, (exp - 1) as nat)
    }
}

/// The number that the digits `s` stand for in the base `radix`, the lowest
/// digit first.
pub open spec fn digits_value(s: Seq<u8>, radix: nat) -> nat
    decreases s.len(),
{
    if s.len() == 0 {
        0
    } else {
        s[0] as nat + radix * digits_value(s.drop_first(), radix)
    }
}

/// The place of the lowest decimal digit of `n` that is not zero; 0 for 0.
pub open spec fn lowest_digit(n: nat) -> nat
    decreases n,
{
    if n == 0 || n % 10 != 0 {
        0
    } else {
        1 + lowest_digit(n / 10)
    }
}

/// The digits of `amount` in the base `radix`, the lowest first.
///
/// Calls `BigUint::to_radix_le` of num. Its documentation says that the
/// result holds the little-endian digits of the number in the base, each as
/// a number from zero on.
#[verifier::external_body]
fn radix_digits(amount: u128, radix: u32) -> (r: Vec<u8>)
    requires
        2 <= radix <= 256,
    ensures
        digits_value(r@, radix as nat) == amount,
        forall|i: int| 0 <= i < r@.len() ==> r@[i] < radix,
{
    BigUint::from(amount).to_radix_le(radix)
}

/// `base` to the power of `exp`, if it is a `u128`.
///
/// Calls `pow` of num on a `BigUint`, which is documented to raise a value
/// to a power, and converts the result with `to_u128`, which is documented
/// to give `None` where the number does not fit. The exponent is kept small
/// so that the call has a bounded amount of work to do.
#[verifier::external_body]
fn power_of(base: u32, exp: usize) -> (r: Option<u128>)
    requires
        exp <= 128,
    ensures
        r == if power(base as nat, exp as nat) <= u128::MAX {
            Some(power(base as nat, exp as nat) as u128)
        } else {
            None
        },
{
    pow(BigUint::from(base), exp).to_u128()
}

/// Decimal digits whose lowest `i` are zero and whose next is not stand for
/// a number of at least ten to the `i`, whose lowest digit that is not zero
/// is at the place `i`.
proof fn lemma_lowest_digit(s: Seq<u8>, i: int)
    requires
        0 <= i < s.len(),
        forall|j: int| 0 <= j < s.len() ==> s[j] < 10,
        forall|j: int| 0 <= j < i ==> s[j] == 0,
        s[i] != 0,
    ensures
        power(10, i as nat) <= digits_value(s, 10),
        lowest_digit(digits_value(s, 10)) == i,
    decreases i,
{
    let v = digits_value(s, 10);
    let rest = s.drop_first();
    let w = digits_value(rest, 10);
    assert(v == s[0] as nat + 10 * w);
    if i == 0 {
        assert(v % 10 == s[0] as nat);
    } else {
        assert forall|j: int| 0 <= j < rest.len() implies rest[j] < 10 by {
            assert(rest[j] == s[j + 1]);
        }
        assert forall|j: int| 0 <= j < i - 1 implies rest[j] == 0 by {
            assert(rest[j] == s[j + 1]);
        }
        assert(rest[i - 1] == s[i]);
        lemma_lowest_digit(rest, i - 1);
        assert(s[0] == 0);
        assert(v == 10 * w);
        assert(w >= 1);
        assert(v % 10 == 0);
        assert(v / 10 == w);
    }
}

/// `amount` with its lowest decimal digit that is not zero raised by one:
/// ten to the place of that digit is added. Zero stays zero. `None` where the
/// sum is beyond a `u128`.
pub fn increase_least_significant_digit(amount: u128) -> (r: Option<u128>)
    ensures
        r == if amount == 0 {
            Some(0u128)
        } else if amount + power(10, lowest_digit(amount as nat)) <= u128::MAX {
            Some((amount + power(10, lowest_digit(amount as nat))) as u128)
        } else {
            None
        },
{
    let digits = radix_digits(amount, 10);
    let mut i: usize = 0;
    while i < digits.len()
        invariant
            i <= digits.len(),
            digits_value(digits@, 10) == amount,
            forall|j: int| 0 <= j < digits@.len() ==> digits@[j] < 10,
            forall|j: int| 0 <= j < i ==> digits@[j] == 0,
        decreases digits.len() - i,
    {
        if digits[i] != 0 {
            proof {
                lemma_lowest_digit(digits@, i as int);
                if i >= 39 {
                    lemma_power_beyond(i as nat);
                }
            }
            return match power_of(10, i) {
                Some(step) => amount.checked_add(step),
                None => None,
            };
        }
        i += 1;
    }
    proof {
        lemma_zero_digits(digits@);
    }
    Some(amount)
}

/// Digits that are all zero stand for zero.
proof fn lemma_zero_digits(s: Seq<u8>)
    requires
        forall|j: int| 0 <= j < s.len() ==> s[j] == 0,
    ensures
        digits_value(s, 10) == 0,
    decreases s.len(),
{
    if s.len() > 0 {
        let rest = s.drop_first();
        assert forall|j: int| 0 <= j < rest.len() implies rest[j] == 0 by {
            assert(rest[j] == s[j + 1]);
        }
        lemma_zero_digits(rest);
    }
}

/// One turn of the search for a packable amount.
#[derive(Clone, Copy, PartialEq, Eq, Structural, Debug)]
pub enum PackStep {
    /// The candidate is packable and not below the amount: it is the answer.
    Done(u128),
    /// Try this candidate next.
    Try(u128),
    /// The next candidate would be beyond a `u128`.
    OutOfRange,
}

/// Finds the closest packable amount that is not below `amount`, one turn
/// at a time. `packable_amount` is the candidate of this turn, at first the
/// closest packable amount of the network; `is_packable` says whether the
/// network can carry it. A candidate that is below the amount or cannot be
/// carried gives way to the next one, with its lowest digit raised.
pub fn pack_up(amount: u128, packable_amount: u128, is_packable: bool) -> (r: PackStep)
    ensures
        r == if packable_amount >= amount && is_packable {
            PackStep::Done(packable_amount)
        } else if packable_amount == 0 {
            PackStep::Try(0)
        } else if packable_amount + power(10, lowest_digit(packable_amount as nat))
            <= u128::MAX {
            PackStep::Try((packable_amount + power(10, lowest_digit(packable_amount as nat))) as u128)
        } else {
            PackStep::OutOfRange
        },
{
    if packable_amount < amount || !is_packable {
        match increase_least_significant_digit(packable_amount) {
            Some(next) => PackStep::Try(next),
            None => PackStep::OutOfRange,
        }
    } else {
        PackStep::Done(packable_amount)
    }
}

/// A decimal number: `mantissa` with the decimal point moved `scale` places
/// to the left (to the right where `scale` is negative), below zero where
/// `negative` is set.
#[derive(Clone, Copy, PartialEq, Eq, Structural, Debug)]
pub struct SignedDecimal {
    pub negative: bool,
    pub mantissa: u128,
    pub scale: i64,
}

/// What went wrong in the driver, in words.
pub struct GenericError {
    pub inner: String,
}

impl GenericError {
    pub fn new(inner: &str) -> (e: Self)
        ensures
            e.inner@ == inner@,
    {
        GenericError { inner: inner.to_owned() }
    }
}

/// The whole part of `mantissa` with the decimal point moved `scale` places
/// to the left: what is left after the decimal places are cut off.
pub open spec fn truncated(mantissa: nat, scale: int) -> nat {
    if scale >= 0 {
        mantissa / power(10, scale as nat)
    } else {
        mantissa * power(10, (-scale) as nat)
    }
}

/// How many of the smallest units of the token the absolute value of `v` is,
/// fractions of a unit cut off.
pub open spec fn units(v: SignedDecimal) -> nat {
    truncated(v.mantissa as nat, v.scale - PRECISION_DIGITS)
}

/// The whole part of a decimal number that is not negative, if it is a
/// `u128`.
///
/// Calls `to_bigint` of bigdecimal on the number made by `BigDecimal::new`.
/// The source shows that `to_bigint` rescales the number to no decimal
/// places: a mantissa with places to the left of the point is divided by
/// the power of ten, one with places to the right is multiplied by it. The
/// scale is kept small so that the power is.
#[verifier::external_body]
fn whole_part(mantissa: u128, scale: i64) -> (r: Option<u128>)
    requires
        -38 <= scale <= 38,
    ensures
        r == if truncated(mantissa as nat, scale as int) <= u128::MAX {
            Some(truncated(mantissa as nat, scale as int) as u128)
        } else {
            None
        },
{
    BigDecimal::new(BigInt::from(mantissa), scale).to_bigint().and_then(|i| i.to_u128())
}

/// Ten to the 39 is more than a `u128` holds, and so is every higher power.
proof fn lemma_power_beyond(e: nat)
    requires
        e >= 39,
    ensures
        power(10, e) > u128::MAX,
    decreases e,
{
    if e == 39 {
        reveal_with_fuel(power, 40);
        assert(power(10, 39) == 1000000000000000000000000000000000000000nat);
    } else {
        lemma_power_beyond((e - 1) as nat);
    }
}

/// The number of the smallest units of the token that the amount `v` is:
/// `v` times ten to the eighteen, fractions of a unit cut off. An amount
/// below zero of at least one unit is refused, and so is one of more units
/// than a `u128` holds.
pub fn big_dec_to_big_uint(v: SignedDecimal) -> (r: Result<u128, GenericError>)
    ensures
        match r {
            Ok(u) => u == units(v) && !(v.negative && units(v) != 0),
            Err(e) => if v.negative && units(v) != 0 {
                e.inner@ == "Failed to convert to biguint"@
            } else {
                units(v) > u128::MAX && e.inner@ == "Failed to convert to bigint"@
            },
        },
{
    let whole = if v.scale > 38 + PRECISION_DIGITS {
        proof {
            lemma_power_beyond((v.scale - 18) as nat);
            let p = power(10, (v.scale - 18) as nat);
            assert(v.mantissa as nat / p == 0) by (nonlinear_arith)
                requires
                    v.mantissa < p,
            ;
        }
        Some(0)
    } else if v.scale < PRECISION_DIGITS - 38 {
        if v.mantissa == 0 {
            proof {
                let p = power(10, (18 - v.scale) as nat);
                assert(0 * p == 0) by (nonlinear_arith);
            }
            Some(0)
        } else {
            proof {
                lemma_power_beyond((18 - v.scale) as nat);
                let p = power(10, (18 - v.scale) as nat);
                assert(v.mantissa as nat * p >= p) by (nonlinear_arith)
                    requires
                        v.mantissa >= 1,
                ;
            }
            None
        }
    } else {
        whole_part(v.mantissa, v.scale - PRECISION_DIGITS)
    };
    match whole {
        Some(u) => {
            if v.negative && u != 0 {
                Err(GenericError::new("Failed to convert to biguint"))
            } else {
                Ok(u)
            }
        },
        None => {
            if v.negative {
                Err(GenericError::new("Failed to convert to biguint"))
            } else {
                Err(GenericError::new("Failed to convert to bigint"))
            }
        },
    }
}

/// The amount that `v` of the smallest units of the token are: `v` with
/// eighteen decimal places.
pub fn big_uint_to_big_dec(v: u128) -> (r: Result<SignedDecimal, GenericError>)
    ensures
        r matches Ok(d) && d == (SignedDecimal { negative: false, mantissa: v, scale: 18 }),
{
    Ok(SignedDecimal { negative: false, mantissa: v, scale: 18 })
}

} // verus!
