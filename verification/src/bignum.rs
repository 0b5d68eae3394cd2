//! Integers of any size and their arithmetic, computed by the `num` crate.
use vstd::prelude::*;

use num::bigint::{BigInt, Sign};

use crate::printer::decimal;
use crate::values::BigNumber;

verus! {

/// The greatest common divisor of two natural numbers, by Euclid's algorithm.
pub open spec fn gcd(a: nat, b: nat) -> nat
    decreases b,
{
    if b == 0 {
        a
    } else {
        gcd(b, a % b)
    }
}

pub open spec fn abs(i: int) -> nat {
    if i < 0 {
        (-i) as nat
    } else {
        i as nat
    }
}

/// The numerator of `n / d` in lowest terms, with a positive denominator.
pub open spec fn reduced_num(n: int, d: int) -> int {
    (if d < 0 {
        -n
    } else {
        n
    }) / (gcd(abs(n), abs(d)) as int)
}

/// The denominator of `n / d` in lowest terms: positive.
pub open spec fn reduced_den(n: int, d: int) -> int {
    (if d < 0 {
        -d
    } else {
        d
    }) / (gcd(abs(n), abs(d)) as int)
}

/// A copy of an integer.
pub fn big_copy(b: &BigNumber) -> (r: BigNumber)
    ensures
        r@ == b@,
{
    let mut digits: Vec<u32> = Vec::new();
    let mut i: usize = 0;
    while i < b.digits.len()
        invariant
            i <= b.digits.len(),
            digits@ == b.digits@.subrange(0, i as int),
        decreases b.digits.len() - i,
    {
        digits.push(b.digits[i]);
        i = i + 1;
    }
    assert(digits@ =~= b.digits@);
    BigNumber { negative: b.negative, digits }
}

/// `num::BigInt::from` an `isize`: the same integer.
#[verifier::external_body]
pub fn big_from_isize(i: isize) -> (r: BigNumber)
    ensures
        r@ == i as int,
{
    let (sign, digits) = BigInt::from(i).to_u32_digits();
    BigNumber { negative: sign == Sign::Minus, digits }
}

/// `+` on `num::BigInt`: the sum.
#[verifier::external_body]
pub fn big_add(a: &BigNumber, b: &BigNumber) -> (r: BigNumber)
    ensures
        r@ == a@ + b@,
{
    let x = BigInt::from_slice(if a.negative { Sign::Minus } else { Sign::Plus }, &a.digits);
    let y = BigInt::from_slice(if b.negative { Sign::Minus } else { Sign::Plus }, &b.digits);
    let (sign, digits) = (x + y).to_u32_digits();
    BigNumber { negative: sign == Sign::Minus, digits }
}

/// `*` on `num::BigInt`: the product.
#[verifier::external_body]
pub fn big_mul(a: &BigNumber, b: &BigNumber) -> (r: BigNumber)
    ensures
        r@ == a@ * b@,
{
    let x = BigInt::from_slice(if a.negative { Sign::Minus } else { Sign::Plus }, &a.digits);
    let y = BigInt::from_slice(if b.negative { Sign::Minus } else { Sign::Plus }, &b.digits);
    let (sign, digits) = (x * y).to_u32_digits();
    BigNumber { negative: sign == Sign::Minus, digits }
}

/// `num::traits::Pow::<usize>::pow` on `num::BigInt`: `base` to the power `e`.
#[verifier::external_body]
pub fn big_pow(base: &BigNumber, e: usize) -> (r: BigNumber)
    ensures
        r@ == vstd::arithmetic::power::pow(base@, e as nat),
{
    let x = BigInt::from_slice(if base.negative { Sign::Minus } else { Sign::Plus }, &base.digits);
    let (sign, digits) = num::traits::Pow::pow(x, e).to_u32_digits();
    BigNumber { negative: sign == Sign::Minus, digits }
}

/// `num::traits::Pow::<&num::BigUint>::pow` on `num::BigInt`, the exponent given as a
/// non-negative integer: `base` to the power `e`. For a base other than -1, 0 and 1 the
/// source goes through `u64` and `u128` exponents and panics past them, so the exponent is
/// kept to a `u64` there.
#[verifier::external_body]
pub fn big_pow_big(base: &BigNumber, e: &BigNumber) -> (r: BigNumber)
    requires
        e@ >= 0,
        -1 <= base@ <= 1 || e@ <= u64::MAX,
    ensures
        r@ == vstd::arithmetic::power::pow(base@, e@ as nat),
{
    let x = BigInt::from_slice(if base.negative { Sign::Minus } else { Sign::Plus }, &base.digits);
    let y = BigInt::from_slice(if e.negative { Sign::Minus } else { Sign::Plus }, &e.digits);
    let (sign, digits) = num::traits::Pow::pow(&x, y.magnitude()).to_u32_digits();
    BigNumber { negative: sign == Sign::Minus, digits }
}

/// `num::integer::Integer::is_even` on `num::BigInt`: whether the integer is even.
#[verifier::external_body]
pub fn big_is_even(b: &BigNumber) -> (r: bool)
    ensures
        r == (b@ % 2 == 0),
{
    let x = BigInt::from_slice(if b.negative { Sign::Minus } else { Sign::Plus }, &b.digits);
    num::integer::Integer::is_even(&x)
}

/// `-` on `num::BigInt`: the difference.
#[verifier::external_body]
pub fn big_sub(a: &BigNumber, b: &BigNumber) -> (r: BigNumber)
    ensures
        r@ == a@ - b@,
{
    let x = BigInt::from_slice(if a.negative { Sign::Minus } else { Sign::Plus }, &a.digits);
    let y = BigInt::from_slice(if b.negative { Sign::Minus } else { Sign::Plus }, &b.digits);
    let (sign, digits) = (x - y).to_u32_digits();
    BigNumber { negative: sign == Sign::Minus, digits }
}

/// `num::integer::Roots::sqrt` on `num::BigInt`: the truncated square root `r`, with
/// `r * r <= b < (r + 1) * (r + 1)`; it panics on a negative number.
#[verifier::external_body]
pub fn big_sqrt(b: &BigNumber) -> (r: BigNumber)
    requires
        b@ >= 0,
    ensures
        r@ >= 0,
        r@ * r@ <= b@ < (r@ + 1) * (r@ + 1),
{
    let x = BigInt::from_slice(if b.negative { Sign::Minus } else { Sign::Plus }, &b.digits);
    let (sign, digits) = num::integer::Roots::sqrt(&x).to_u32_digits();
    BigNumber { negative: sign == Sign::Minus, digits }
}

/// `num::integer::Roots::sqrt` on `isize`: the truncated square root `r`, with
/// `r * r <= x < (r + 1) * (r + 1)`; it panics on a negative number.
#[verifier::external_body]
pub fn isize_sqrt(x: isize) -> (r: isize)
    requires
        x >= 0,
    ensures
        r >= 0,
        r * r <= x < (r + 1) * (r + 1),
{
    num::integer::Roots::sqrt(&x)
}

/// `num::BigRational::new`: the fraction `n / d` in lowest terms, its denominator positive
/// (zero is `0 / 1`); it panics on a zero denominator.
#[verifier::external_body]
pub fn big_ratio(n: &BigNumber, d: &BigNumber) -> (r: (BigNumber, BigNumber))
    requires
        d@ != 0,
    ensures
        r.0@ == reduced_num(n@, d@),
        r.1@ == reduced_den(n@, d@),
        r.1@ > 0,
{
    let x = BigInt::from_slice(if n.negative { Sign::Minus } else { Sign::Plus }, &n.digits);
    let y = BigInt::from_slice(if d.negative { Sign::Minus } else { Sign::Plus }, &d.digits);
    let q = num::BigRational::new(x, y);
    let (s1, d1) = q.numer().to_u32_digits();
    let (s2, d2) = q.denom().to_u32_digits();
    (BigNumber { negative: s1 == Sign::Minus, digits: d1 }, BigNumber { negative: s2 == Sign::Minus, digits: d2 })
}

/// `num::traits::ToPrimitive::to_isize` on `num::BigInt`: the integer when it fits a
/// machine word.
#[verifier::external_body]
pub fn big_to_isize(b: &BigNumber) -> (r: Option<isize>)
    ensures
        match r {
            Some(i) => i as int == b@,
            None => !(isize::MIN <= b@ <= isize::MAX),
        },
{
    let x = BigInt::from_slice(if b.negative { Sign::Minus } else { Sign::Plus }, &b.digits);
    num::traits::ToPrimitive::to_isize(&x)
}

/// `num::traits::ToPrimitive::to_i32` on `num::BigInt`: the integer when it fits 32 bits.
#[verifier::external_body]
pub fn big_to_i32(b: &BigNumber) -> (r: Option<i32>)
    ensures
        match r {
            Some(i) => i as int == b@,
            None => !(i32::MIN <= b@ <= i32::MAX),
        },
{
    let x = BigInt::from_slice(if b.negative { Sign::Minus } else { Sign::Plus }, &b.digits);
    num::traits::ToPrimitive::to_i32(&x)
}

/// `==` on `num::BigInt`: whether the two integers are equal.
#[verifier::external_body]
pub fn big_eq(a: &BigNumber, b: &BigNumber) -> (r: bool)
    ensures
        r == (a@ == b@),
{
    let x = BigInt::from_slice(if a.negative { Sign::Minus } else { Sign::Plus }, &a.digits);
    let y = BigInt::from_slice(if b.negative { Sign::Minus } else { Sign::Plus }, &b.digits);
    x == y
}

/// `<` on `num::BigInt`: whether the first integer is smaller.
#[verifier::external_body]
pub fn big_less(a: &BigNumber, b: &BigNumber) -> (r: bool)
    ensures
        r == (a@ < b@),
{
    let x = BigInt::from_slice(if a.negative { Sign::Minus } else { Sign::Plus }, &a.digits);
    let y = BigInt::from_slice(if b.negative { Sign::Minus } else { Sign::Plus }, &b.digits);
    x < y
}

/// `to_string` on `num::BigInt` (its `Display`): the decimal text, a minus sign first for a
/// negative number.
#[verifier::external_body]
pub fn big_decimal(b: &BigNumber) -> (s: String)
    ensures
        s@ == decimal(b@),
{
    let x = BigInt::from_slice(if b.negative { Sign::Minus } else { Sign::Plus }, &b.digits);
    x.to_string()
}

} // verus!
