//! Amounts of money.
//!
//! An amount is a decimal number that is not negative: a mantissa of any
//! size with a number of decimal places. Amounts are added up over the life
//! of an agreement and over the life of the provider; no sum is too large
//! and no digit is lost. The mantissa is kept as its bytes, the lowest
//! first, and the arithmetic is that of bigdecimal.

use bigdecimal::BigDecimal;
use num::bigint::BigInt;
use num::{BigUint, ToPrimitive};
use vstd::prelude::*;

verus! {

/// An amount as contracts see it: `mantissa` with the decimal point moved
/// `scale` places to the left.
pub struct Decimal {
    pub mantissa: nat,
    pub scale: nat,
}

/// Ten to the power of `e`.
pub open spec fn pow10(e: nat) -> nat
    decreases e,
{
    if e == 0 {
        1
    } else {
        10 * pow10((e - 1) as nat)
    }
}

/// The number that the bytes `s` stand for, the lowest byte first.
pub open spec fn bytes_value(s: Seq<u8>) -> nat
    decreases s.len(),
{
    if s.len() == 0 {
        0
    } else {
        s[0] as nat + 256 * bytes_value(s.drop_first())
    }
}

/// The larger of two scales.
pub open spec fn wider(a: nat, b: nat) -> nat {
    if a >= b {
        a
    } else {
        b
    }
}

impl Decimal {
    /// Nothing.
    pub open spec fn zero() -> Decimal {
        Decimal { mantissa: 0, scale: 0 }
    }

    /// The mantissa that the number has with `scale` decimal places, which
    /// are not fewer than its own.
    pub open spec fn at_scale(self, scale: nat) -> nat {
        self.mantissa * pow10((scale - self.scale) as nat)
    }

    /// The sum of the two numbers: it has the decimal places of the one that
    /// has more, and its mantissa is the sum of the two mantissas with that
    /// many places.
    pub open spec fn plus(self, other: Decimal) -> Decimal {
        let scale = wider(self.scale, other.scale);
        Decimal { mantissa: self.at_scale(scale) + other.at_scale(scale), scale }
    }
}

/// A power of ten with a sum as its exponent is the product of the powers.
pub proof fn lemma_pow10_adds(a: nat, b: nat)
    ensures
        pow10(a + b) == pow10(a) * pow10(b),
    decreases a,
{
    if a == 0 {
        assert(pow10(0) * pow10(b) == pow10(b)) by (nonlinear_arith)
            requires
                pow10(0) == 1,
        ;
    } else {
        lemma_pow10_adds((a - 1) as nat, b);
        assert(pow10(a + b) == 10 * pow10((a - 1 + b) as nat));
        assert(10 * (pow10((a - 1) as nat) * pow10(b)) == (10 * pow10((a - 1) as nat)) * pow10(b))
            by (nonlinear_arith);
    }
}

/// A number with more decimal places: the mantissa grows by the power of
/// ten of the places that are added.
pub proof fn lemma_at_scale(d: Decimal, mid: nat, scale: nat)
    requires
        d.scale <= mid <= scale,
    ensures
        d.at_scale(scale) == d.at_scale(mid) * pow10((scale - mid) as nat),
{
    let x = (mid - d.scale) as nat;
    let y = (scale - mid) as nat;
    lemma_pow10_adds(x, y);
    assert(x + y == scale - d.scale);
    assert(d.mantissa * (pow10(x) * pow10(y)) == (d.mantissa * pow10(x)) * pow10(y))
        by (nonlinear_arith);
}

/// Adding nothing changes nothing.
pub proof fn lemma_plus_zero(d: Decimal)
    ensures
        d.plus(Decimal::zero()) == d,
        Decimal::zero().plus(d) == d,
{
    assert(d.mantissa * pow10(0) == d.mantissa) by (nonlinear_arith)
        requires
            pow10(0) == 1,
    ;
    assert(0 * pow10(d.scale) == 0) by (nonlinear_arith);
}

/// The order of two numbers does not change their sum.
pub proof fn lemma_plus_commutes(a: Decimal, b: Decimal)
    ensures
        a.plus(b) == b.plus(a),
{
}

/// The order in which three numbers are added does not change their sum.
pub proof fn lemma_plus_associates(a: Decimal, b: Decimal, c: Decimal)
    ensures
        a.plus(b).plus(c) == a.plus(b.plus(c)),
{
    let ab = wider(a.scale, b.scale);
    let bc = wider(b.scale, c.scale);
    let s = wider(ab, c.scale);
    assert(s == wider(a.scale, bc));
    lemma_at_scale(a, ab, s);
    lemma_at_scale(b, ab, s);
    lemma_at_scale(b, bc, s);
    lemma_at_scale(c, bc, s);
    let p = pow10((s - ab) as nat);
    let q = pow10((s - bc) as nat);
    assert((a.at_scale(ab) + b.at_scale(ab)) * p == a.at_scale(ab) * p + b.at_scale(ab) * p)
        by (nonlinear_arith);
    assert((b.at_scale(bc) + c.at_scale(bc)) * q == b.at_scale(bc) * q + c.at_scale(bc) * q)
        by (nonlinear_arith);
}

/// The bytes of `units`, the lowest first.
///
/// Calls `BigUint::to_bytes_le` of num, which is documented to return the
/// byte representation of the number in little-endian byte order.
#[verifier::external_body]
fn bytes_of(units: u128) -> (r: Vec<u8>)
    ensures
        bytes_value(r@) == units,
{
    BigUint::from(units).to_bytes_le()
}

/// The number that the bytes stand for, if it is a `u128`.
///
/// Calls `BigUint::from_bytes_le` of num, which is documented to read the
/// bytes in little-endian byte order, and `to_u128`, which is documented to
/// give `None` where the number does not fit.
#[verifier::external_body]
fn number_of(bytes: &Vec<u8>) -> (r: Option<u128>)
    ensures
        r == if bytes_value(bytes@) <= u128::MAX {
            Some(bytes_value(bytes@) as u128)
        } else {
            None
        },
{
    BigUint::from_bytes_le(bytes).to_u128()
}

/// The sum of two decimal numbers, each given by the bytes of its mantissa
/// and its decimal places.
///
/// Makes a `BigDecimal` of each with `BigDecimal::new` and adds the two
/// with the `+` of bigdecimal. The source shows that the sum has the larger
/// of the two scales, and that its mantissa is the sum of the two mantissas
/// after the one with the smaller scale was multiplied by the power of ten
/// that brings it to the larger.
#[verifier::external_body]
fn sum_of(a: &Vec<u8>, a_scale: u16, b: &Vec<u8>, b_scale: u16) -> (r: (Vec<u8>, u16))
    ensures
        r.1 == wider(a_scale as nat, b_scale as nat),
        bytes_value(r.0@) == bytes_value(a@) * pow10((r.1 - a_scale) as nat) + bytes_value(b@)
            * pow10((r.1 - b_scale) as nat),
{
    let x = BigDecimal::new(BigInt::from(BigUint::from_bytes_le(a)), i64::from(a_scale));
    let y = BigDecimal::new(BigInt::from(BigUint::from_bytes_le(b)), i64::from(b_scale));
    let (sum, scale) = (x + y).into_bigint_and_exponent();
    (sum.magnitude().to_bytes_le(), scale as u16)
}

/// An amount of money: a decimal number that is not negative.
#[derive(Debug)]
pub struct Amount {
    bytes: Vec<u8>,
    scale: u16,
}

impl View for Amount {
    type V = Decimal;

    closed spec fn view(&self) -> Decimal {
        Decimal { mantissa: bytes_value(self.bytes@), scale: self.scale as nat }
    }
}

impl Amount {
    /// No money.
    pub fn zero() -> (r: Amount)
        ensures
            r@ == Decimal::zero(),
    {
        let mut bytes: Vec<u8> = Vec::new();
        bytes.push(0);
        assert(bytes@.drop_first() =~= Seq::empty());
        assert(bytes_value(bytes@.drop_first()) == 0);
        assert(bytes_value(bytes@) == 0);
        Amount { bytes, scale: 0 }
    }

    /// The amount with the mantissa `mantissa` and `scale` decimal places.
    pub fn new(mantissa: u128, scale: u16) -> (r: Amount)
        ensures
            r@ == (Decimal { mantissa: mantissa as nat, scale: scale as nat }),
    {
        Amount { bytes: bytes_of(mantissa), scale }
    }

    /// The amount whose mantissa has the bytes `bytes`, the lowest first,
    /// with `scale` decimal places.
    pub fn from_bytes(bytes: Vec<u8>, scale: u16) -> (r: Amount)
        ensures
            r@ == (Decimal { mantissa: bytes_value(bytes@), scale: scale as nat }),
    {
        Amount { bytes, scale }
    }

    /// The whole amount `units`.
    pub fn from_u128(units: u128) -> (r: Amount)
        ensures
            r@ == (Decimal { mantissa: units as nat, scale: 0 }),
    {
        Amount::new(units, 0)
    }

    /// The bytes of the mantissa, the lowest first.
    pub fn bytes(&self) -> (r: &Vec<u8>)
        ensures
            bytes_value(r@) == self@.mantissa,
    {
        &self.bytes
    }

    /// The number of decimal places.
    pub fn scale(&self) -> (r: u16)
        ensures
            r == self@.scale,
    {
        self.scale
    }

    /// The mantissa, if it is a `u128`.
    pub fn mantissa(&self) -> (r: Option<u128>)
        ensures
            r == if self@.mantissa <= u128::MAX {
                Some(self@.mantissa as u128)
            } else {
                None
            },
    {
        number_of(&self.bytes)
    }

    /// The amount as a whole number, if it has no decimal places and is a
    /// `u128`.
    pub fn to_u128(&self) -> (r: Option<u128>)
        ensures
            r == if self@.scale == 0 && self@.mantissa <= u128::MAX {
                Some(self@.mantissa as u128)
            } else {
                None
            },
    {
        if self.scale == 0 {
            number_of(&self.bytes)
        } else {
            None
        }
    }

    /// The two amounts together.
    pub fn plus(&self, other: &Amount) -> (r: Amount)
        ensures
            r@ == self@.plus(other@),
    {
        let (bytes, scale) = sum_of(&self.bytes, self.scale, &other.bytes, other.scale);
        Amount { bytes, scale }
    }

    pub fn clone(&self) -> (r: Amount)
        ensures
            r@ == self@,
    {
        let r = Amount { bytes: self.bytes.clone(), scale: self.scale };
        assert(r.bytes@ =~= self.bytes@);
        r
    }
}

/// The amounts of a list, as contracts see them.
pub open spec fn amounts(v: Seq<Amount>) -> Seq<Decimal> {
    v.map_values(|a: Amount| a@)
}

/// The sums of the numbers that stand at the same place in both lists, for
/// as many places as both lists have.
pub open spec fn plus_each(a: Seq<Decimal>, b: Seq<Decimal>) -> Seq<Decimal> {
    Seq::new(
        if a.len() <= b.len() {
            a.len()
        } else {
            b.len()
        },
        |i: int| a[i].plus(b[i]),
    )
}

/// A copy of a list of amounts.
pub fn clone_amounts(v: &Vec<Amount>) -> (r: Vec<Amount>)
    ensures
        amounts(r@) == amounts(v@),
{
    let mut r: Vec<Amount> = Vec::new();
    let mut i: usize = 0;
    while i < v.len()
        invariant
            i <= v.len(),
            r@.len() == i,
            forall|j: int| 0 <= j < i ==> (#[trigger] r@[j])@ == v@[j]@,
        decreases v.len() - i,
    {
        r.push(v[i].clone());
        i += 1;
    }
    assert(amounts(r@) =~= amounts(v@));
    r
}

/// The sums of the amounts that stand at the same place in both lists.
pub fn plus_each_of(a: &Vec<Amount>, b: &Vec<Amount>) -> (r: Vec<Amount>)
    ensures
        amounts(r@) == plus_each(amounts(a@), amounts(b@)),
{
    let n = if a.len() <= b.len() {
        a.len()
    } else {
        b.len()
    };
    let mut r: Vec<Amount> = Vec::new();
    let mut i: usize = 0;
    while i < n
        invariant
            i <= n,
            n <= a.len(),
            n <= b.len(),
            r@.len() == i,
            forall|j: int| 0 <= j < i ==> (#[trigger] r@[j])@ == a@[j]@.plus(b@[j]@),
        decreases n - i,
    {
        r.push(a[i].plus(&b[i]));
        i += 1;
    }
    assert(amounts(r@) =~= plus_each(amounts(a@), amounts(b@)));
    r
}

} // verus!
