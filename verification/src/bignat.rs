//! Arbitrary-precision natural numbers, held as base-2^32 digits and computed
//! on by `num`'s `BigUint`.
use vstd::prelude::*;

use num::BigUint;
use num::One;

use crate::decimal::decimal;

verus! {

/// The value of base-2^32 digits, least significant digit first.
pub open spec fn digits_value(d: Seq<u32>) -> nat
    decreases d.len(),
{
    if d.len() == 0 {
        0
    } else {
        d[0] as nat + 0x1_0000_0000 * digits_value(d.drop_first())
    }
}

/// A natural number of any size.
pub struct BigNat {
    digits: Vec<u32>,
}

impl View for BigNat {
    type V = nat;

    closed spec fn view(&self) -> nat {
        digits_value(self.digits@)
    }
}

/// `BigUint::from(u32)`, read back by `BigUint::to_u32_digits`: the number `x`.
#[verifier::external_body]
fn big_from_u32(x: u32) -> (r: BigNat)
    ensures
        r@ == x as nat,
{
    BigNat { digits: BigUint::from(x).to_u32_digits() }
}

/// `<BigUint as One>::one`, read back by `BigUint::to_u32_digits`: the number one.
#[verifier::external_body]
fn big_one() -> (r: BigNat)
    ensures
        r@ == 1,
{
    BigNat { digits: BigUint::one().to_u32_digits() }
}

/// `BigUint * BigUint` on the numbers built by `BigUint::new` from the digits:
/// the exact product.
#[verifier::external_body]
fn big_mul(a: &BigNat, b: &BigNat) -> (r: BigNat)
    ensures
        r@ == a@ * b@,
{
    let p = BigUint::new(a.digits.clone()) * BigUint::new(b.digits.clone());
    BigNat { digits: p.to_u32_digits() }
}

/// `BigUint::to_string` (its `Display`) on the number built by `BigUint::new`:
/// the decimal numeral of the number.
#[verifier::external_body]
fn big_to_string(a: &BigNat) -> (r: String)
    ensures
        r@ == decimal(a@),
{
    BigUint::new(a.digits.clone()).to_string()
}

impl BigNat {
    /// The number `x`.
    pub fn from_u32(x: u32) -> (r: BigNat)
        ensures
            r@ == x as nat,
    {
        big_from_u32(x)
    }

    /// The number one.
    pub fn one() -> (r: BigNat)
        ensures
            r@ == 1,
    {
        big_one()
    }

    /// The product of two numbers.
    pub fn mul(&self, other: &BigNat) -> (r: BigNat)
        ensures
            r@ == self@ * other@,
    {
        big_mul(self, other)
    }

    /// The decimal numeral of the number.
    pub fn to_decimal_string(&self) -> (r: String)
        ensures
            r@ == decimal(self@),
    {
        big_to_string(self)
    }
}

/// The product of the numbers of a sequence, taken from the first to the last.
pub open spec fn product_values(s: Seq<BigNat>) -> nat
    decreases s.len(),
{
    if s.len() == 0 {
        1
    } else {
        product_values(s.drop_last()) * s.last()@
    }
}

/// Every part is a factor of the product, whatever the number of parts: the
/// product of a nonempty sequence is that of all but its last part times the
/// last, and the product of two sequences put end to end is the product of
/// their products.
pub proof fn product_multiplies_every_part(s: Seq<BigNat>, t: Seq<BigNat>)
    ensures
        s.len() > 0 ==> product_values(s) == product_values(s.drop_last()) * s.last()@,
        product_values(s + t) == product_values(s) * product_values(t),
    decreases t.len(),
{
    if t.len() == 0 {
        assert(s + t =~= s);
        assert(product_values(t) == 1);
    } else {
        product_multiplies_every_part(s, t.drop_last());
        assert((s + t).drop_last() =~= s + t.drop_last());
        assert((s + t).last() == t.last());
        let a = product_values(s) as int;
        let b = product_values(t.drop_last()) as int;
        let c = t.last()@ as int;
        assert(product_values(s + t) == product_values((s + t).drop_last()) * (s + t).last()@);
        assert(product_values(t) == product_values(t.drop_last()) * t.last()@);
        assert((a * b) * c == a * (b * c)) by (nonlinear_arith);
    }
}

/// Multiplies the numbers of `parts` together, starting from one.
pub fn product_of(parts: &Vec<BigNat>) -> (r: BigNat)
    ensures
        r@ == product_values(parts@),
{
    let mut acc = big_from_u32(1);
    let mut i: usize = 0;
    while i < parts.len()
        invariant
            i <= parts.len(),
            acc@ == product_values(parts@.take(i as int)),
        decreases parts.len() - i,
    {
        acc = big_mul(&acc, &parts[i]);
        proof {
            assert(parts@.take(i as int + 1).drop_last() =~= parts@.take(i as int));
        }
        i = i + 1;
    }
    proof {
        assert(parts@.take(i as int) =~= parts@);
    }
    acc
}

} // verus!
