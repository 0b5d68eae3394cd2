//! Integer quotient, remainders and shifts, and exact arithmetic on integers of any size
//! and fractions.
use vstd::prelude::*;

use crate::errors::{fail, outcome};
use vstd::arithmetic::power::pow;

use crate::bignum::{
    abs, big_add, big_copy, big_eq, big_from_isize, big_is_even, big_less, big_mul, big_pow, big_pow_big,
    big_ratio, big_sqrt, big_sub, big_to_i32, big_to_isize, isize_sqrt, reduced_den, reduced_num,
};
use crate::values::{vals, BigNumber, ErrorKind, SVal, StahlErr, StahlVal};

verus! {

broadcast use crate::values::group_vals;

/// The quotient of `x` by `d`, rounded toward zero.
pub open spec fn trunc_div(x: int, d: int) -> int {
    if x == 0 {
        0
    } else if x > 0 && d > 0 {
        x / d
    } else if x < 0 && d < 0 {
        (-x) / (-d)
    } else if x < 0 {
        -((-x) / d)
    } else {
        -(x / (-d))
    }
}

/// The remainder of `x` by `d`, which has the sign of `x`.
pub open spec fn trunc_rem(x: int, d: int) -> int {
    if x == 0 {
        0
    } else if x > 0 && d > 0 {
        x % d
    } else if x < 0 && d < 0 {
        -((-x) % (-d))
    } else if x < 0 {
        -((-x) % d)
    } else {
        x % (-d)
    }
}

/// The remainder of `x` by `d` rounded toward minus infinity: the number in `[0, d)` for a
/// positive `d`, in `(d, 0]` for a negative `d`, that differs from `x` by a multiple of `d`.
pub open spec fn floor_mod(x: int, d: int) -> int {
    if d > 0 {
        x % d
    } else if x % (-d) == 0 {
        0
    } else {
        x % (-d) + d
    }
}

/// The quotient of two machine integers fits in a machine integer, but for the minimum
/// divided by -1.
proof fn lemma_quotient_fits(x: int, d: int)
    requires
        d != 0,
        !(x == isize::MIN && d == -1),
        isize::MIN <= x <= isize::MAX,
        isize::MIN <= d <= isize::MAX,
    ensures
        isize::MIN <= trunc_div(x, d) <= isize::MAX,
{
    if x > 0 && d > 0 {
        assert(0 <= x / d <= x) by (nonlinear_arith)
            requires
                x > 0,
                d > 0,
        ;
    } else if x < 0 && d < 0 {
        if d == -1 {
            assert(x > isize::MIN);
            assert((-x) / 1 == -x);
        } else {
            assert(0 <= (-x) / (-d) <= (-x) / 2) by (nonlinear_arith)
                requires
                    -x > 0,
                    -d >= 2,
            ;
        }
    } else if x < 0 {
        assert(0 <= (-x) / d <= -x) by (nonlinear_arith)
            requires
                -x > 0,
                d > 0,
        ;
    } else if x > 0 {
        assert(0 <= x / (-d) <= x) by (nonlinear_arith)
            requires
                x > 0,
                -d > 0,
        ;
    }
}

/// The truncated division: `x` is the quotient times `d` plus the remainder, the remainder
/// is smaller than `d` in size and is zero or has the sign of `x`.
proof fn lemma_trunc_div_rem(x: int, d: int)
    requires
        d != 0,
    ensures
        x == d * trunc_div(x, d) + trunc_rem(x, d),
        -d < trunc_rem(x, d) < d || d < trunc_rem(x, d) < -d,
        trunc_rem(x, d) == 0 || (trunc_rem(x, d) > 0) == (x > 0),
{
    if x > 0 && d > 0 {
        vstd::arithmetic::div_mod::lemma_fundamental_div_mod(x, d);
        vstd::arithmetic::div_mod::lemma_mod_bound(x, d);
    } else if x < 0 && d < 0 {
        vstd::arithmetic::div_mod::lemma_fundamental_div_mod(-x, -d);
        vstd::arithmetic::div_mod::lemma_mod_bound(-x, -d);
        let q = (-x) / (-d);
        let r = (-x) % (-d);
        assert(x == d * q + (-r)) by (nonlinear_arith)
            requires
                -x == (-d) * q + r,
        ;
    } else if x < 0 {
        vstd::arithmetic::div_mod::lemma_fundamental_div_mod(-x, d);
        vstd::arithmetic::div_mod::lemma_mod_bound(-x, d);
        let q = (-x) / d;
        let r = (-x) % d;
        assert(x == d * (-q) + (-r)) by (nonlinear_arith)
            requires
                -x == d * q + r,
        ;
    } else if x > 0 {
        vstd::arithmetic::div_mod::lemma_fundamental_div_mod(x, -d);
        vstd::arithmetic::div_mod::lemma_mod_bound(x, -d);
        let q = x / (-d);
        let r = x % (-d);
        assert(x == d * (-q) + r) by (nonlinear_arith)
            requires
                x == (-d) * q + r,
        ;
    }
}

/// `modulo` gives the remainder with the sign of the divisor: `x` minus it is a multiple of
/// `d`, it is smaller than `d` in size, and it is zero or has the sign of `d`.
pub proof fn lemma_modulo_sign(x: int, d: int)
    requires
        d != 0,
    ensures
        exists|k: int| #[trigger] (k * d) == x - floor_mod(x, d),
        -d < floor_mod(x, d) < d || d < floor_mod(x, d) < -d,
        floor_mod(x, d) == 0 || (floor_mod(x, d) > 0) == (d > 0),
{
    let z = floor_mod(x, d);
    if d > 0 {
        vstd::arithmetic::div_mod::lemma_fundamental_div_mod(x, d);
        vstd::arithmetic::div_mod::lemma_mod_bound(x, d);
        let q = x / d;
        assert(q * d == x - z) by (nonlinear_arith)
            requires
                x == d * q + z,
        ;
    } else {
        vstd::arithmetic::div_mod::lemma_fundamental_div_mod(x, -d);
        vstd::arithmetic::div_mod::lemma_mod_bound(x, -d);
        let q = x / (-d);
        let e = x % (-d);
        if e == 0 {
            assert((-q) * d == x - z) by (nonlinear_arith)
                requires
                    x == (-d) * q + e,
                    e == 0,
                    z == 0,
            ;
        } else {
            assert((-(q + 1)) * d == x - z) by (nonlinear_arith)
                requires
                    x == (-d) * q + e,
                    z == e + d,
            ;
        }
    }
}

/// Two numbers on the same side of zero as `d`, smaller than `d` in size, that differ by a
/// multiple of `d`, are equal.
proof fn lemma_same_residue(y: int, z: int, d: int, k: int)
    requires
        d != 0,
        (k * d) == y - z,
        (0 <= y < d && 0 <= z < d) || (d < y <= 0 && d < z <= 0),
    ensures
        y == z,
{
    if k > 0 {
        if d > 0 {
            assert(k * d >= d) by (nonlinear_arith)
                requires
                    k >= 1,
                    d > 0,
            ;
        } else {
            assert(k * d <= d) by (nonlinear_arith)
                requires
                    k >= 1,
                    d < 0,
            ;
        }
    } else if k < 0 {
        if d > 0 {
            assert(k * d <= -d) by (nonlinear_arith)
                requires
                    k <= -1,
                    d > 0,
            ;
        } else {
            assert(k * d >= -d) by (nonlinear_arith)
                requires
                    k <= -1,
                    d < 0,
            ;
        }
    }
}

/// What `(x rem d + d) rem d` computes is the remainder rounded toward minus infinity.
proof fn lemma_floor_mod(x: int, d: int)
    requires
        d != 0,
    ensures
        trunc_rem(trunc_rem(x, d) + d, d) == floor_mod(x, d),
{
    let t = trunc_rem(x, d);
    lemma_trunc_div_rem(x, d);
    lemma_trunc_div_rem(t + d, d);
    let q1 = trunc_div(x, d);
    let q2 = trunc_div(t + d, d);
    let y = trunc_rem(t + d, d);
    let k = q1 + q2 - 1;
    assert(k * d == x - y) by (nonlinear_arith)
        requires
            x == d * q1 + t,
            t + d == d * q2 + y,
            k == q1 + q2 - 1,
    ;
    lemma_modulo_sign(x, d);
    let z = floor_mod(x, d);
    let k2 = choose|k2: int| #[trigger] (k2 * d) == x - z;
    assert((k2 - k) * d == y - z) by (nonlinear_arith)
        requires
            k * d == x - y,
            k2 * d == x - z,
    ;
    lemma_same_residue(y, z, d, k2 - k);
}

/// Whether a primitive on two integers gets two integers: the error kind otherwise.
pub open spec fn two_ints(a: Seq<SVal>) -> Result<(int, int), ErrorKind> {
    if a.len() != 2 {
        Err(ErrorKind::ArityMismatch)
    } else {
        match (a[0], a[1]) {
            (SVal::Int(l), SVal::Int(r)) => Ok((l, r)),
            _ => Err(ErrorKind::TypeMismatch),
        }
    }
}

/// Whether the quotient and the remainder of two integer arguments can be computed: the
/// divisor is not 0, and the quotient fits in a machine word.
pub open spec fn divisible(a: Seq<SVal>) -> bool {
    two_ints(a) matches Ok((l, r)) ==> r != 0 && !(l == isize::MIN && r == -1)
}

/// `quotient`: the quotient of two integers, rounded toward zero.
pub fn quotient(args: &[StahlVal]) -> (r: Result<StahlVal, StahlErr>)
    requires
        divisible(vals(args@)),
    ensures
        outcome(r) == match two_ints(vals(args@)) {
            Ok((l, d)) => Ok::<SVal, ErrorKind>(SVal::Int(trunc_div(l, d))),
            Err(k) => Err(k),
        },
{
    if args.len() != 2 {
        return fail(ErrorKind::ArityMismatch, "quotient requires 2 arguments");
    }
    match (&args[0], &args[1]) {
        (StahlVal::IntV(l), StahlVal::IntV(d)) => {
            proof {
                lemma_quotient_fits(*l as int, *d as int);
            }
            let q = l.checked_div(*d).unwrap();
            Ok(StahlVal::IntV(q))
        },
        _ => fail(ErrorKind::TypeMismatch, "quotient only supports integers"),
    }
}

/// `remainder`: the remainder of two integers, with the sign of the first.
pub fn remainder(args: &[StahlVal]) -> (r: Result<StahlVal, StahlErr>)
    requires
        divisible(vals(args@)),
    ensures
        outcome(r) == match two_ints(vals(args@)) {
            Ok((l, d)) => Ok::<SVal, ErrorKind>(SVal::Int(trunc_rem(l, d))),
            Err(k) => Err(k),
        },
{
    if args.len() != 2 {
        return fail(ErrorKind::ArityMismatch, "remainder requires 2 arguments");
    }
    match (&args[0], &args[1]) {
        (StahlVal::IntV(l), StahlVal::IntV(d)) => {
            let m = l.checked_rem(*d).unwrap();
            Ok(StahlVal::IntV(m))
        },
        _ => fail(ErrorKind::TypeMismatch, "remainder only supports integers"),
    }
}

/// Whether `modulo` can compute `(x rem d + d) rem d` without overflow.
pub open spec fn modulo_fits(a: Seq<SVal>) -> bool {
    two_ints(a) matches Ok((l, r)) ==> r != 0 && !(l == isize::MIN && r == -1) && isize::MIN
        <= trunc_rem(l, r) + r <= isize::MAX
}

/// `modulo`: the remainder of two integers, with the sign of the second.
pub fn modulo(args: &[StahlVal]) -> (r: Result<StahlVal, StahlErr>)
    requires
        modulo_fits(vals(args@)),
    ensures
        outcome(r) == match two_ints(vals(args@)) {
            Ok((l, d)) => Ok::<SVal, ErrorKind>(SVal::Int(floor_mod(l, d))),
            Err(k) => Err(k),
        },
{
    if args.len() != 2 {
        return fail(ErrorKind::ArityMismatch, "modulo requires 2 arguments");
    }
    match (&args[0], &args[1]) {
        (StahlVal::IntV(l), StahlVal::IntV(d)) => {
            proof {
                lemma_floor_mod(*l as int, *d as int);
            }
            let m = l.checked_rem(*d).unwrap();
            let s = m.checked_add(*d).unwrap();
            let out = s.checked_rem(*d).unwrap();
            Ok(StahlVal::IntV(out))
        },
        _ => fail(ErrorKind::TypeMismatch, "modulo only supports integers"),
    }
}


/// `n` shifted left by `m` bits when `m` is not negative (bits shifted past the word are
/// lost), else shifted right by `-m` bits, keeping the sign.
pub open spec fn shifted(n: isize, m: int) -> int {
    if m >= 0 {
        (n << (m as u32)) as int
    } else {
        (n >> ((-m) as u32)) as int
    }
}

/// Whether the shift distance of `arithmetic-shift` is less than the width of a word.
pub open spec fn shift_fits(a: Seq<SVal>) -> bool {
    two_ints(a) matches Ok((n, m)) ==> -(isize::BITS as int) < m < isize::BITS as int
}

/// `arithmetic-shift`: shifts an integer left by a number of bits, or right for a negative
/// number.
pub fn arithmetic_shift(args: &[StahlVal]) -> (r: Result<StahlVal, StahlErr>)
    requires
        shift_fits(vals(args@)),
    ensures
        outcome(r) == match two_ints(vals(args@)) {
            Ok((n, m)) => Ok::<SVal, ErrorKind>(SVal::Int(shifted(n as isize, m))),
            Err(k) => Err(k),
        },
{
    if args.len() != 2 {
        return fail(ErrorKind::ArityMismatch, "arithmetic-shift takes 2 arguments");
    }
    match (&args[0], &args[1]) {
        (StahlVal::IntV(n), StahlVal::IntV(m)) => {
            if *m >= 0 {
                Ok(StahlVal::IntV(*n << (*m as u32)))
            } else {
                Ok(StahlVal::IntV(*n >> ((-*m) as u32)))
            }
        },
        _ => fail(ErrorKind::TypeMismatch, "arithmetic-shift expected 2 integers"),
    }
}

} // verus!

verus! {

/// An exact number as a fraction `(numerator, denominator)`: integers over 1, fractions as
/// they are held; `None` for any other value, or a fraction over zero.
pub open spec fn exact_value(v: SVal) -> Option<(int, int)> {
    match v {
        SVal::Int(i) => Some((i, 1)),
        SVal::BigNum(i) => Some((i, 1)),
        SVal::Rational(n, d) => if d != 0 {
            Some((n, d))
        } else {
            None
        },
        SVal::BigRational(n, d) => if d != 0 {
            Some((n, d))
        } else {
            None
        },
        _ => None,
    }
}

/// The sum of two fractions.
pub open spec fn sum(p: (int, int), q: (int, int)) -> (int, int) {
    (p.0 * q.1 + q.0 * p.1, p.1 * q.1)
}

/// The product of two fractions.
pub open spec fn product(p: (int, int), q: (int, int)) -> (int, int) {
    (p.0 * q.0, p.1 * q.1)
}

pub open spec fn fits_isize(i: int) -> bool {
    isize::MIN <= i <= isize::MAX
}

pub open spec fn fits_i32(i: int) -> bool {
    i32::MIN <= i <= i32::MAX
}

/// An integer as a value: a machine integer when it fits, else a big integer.
pub open spec fn int_val(i: int) -> SVal {
    if fits_isize(i) {
        SVal::Int(i)
    } else {
        SVal::BigNum(i)
    }
}

/// A fraction as a value: in lowest terms with a positive denominator; an integer when the
/// denominator is 1, else a small fraction when both parts fit 32 bits, else a big fraction.
pub open spec fn normalized(p: (int, int)) -> SVal {
    let n = reduced_num(p.0, p.1);
    let d = reduced_den(p.0, p.1);
    if d == 1 {
        int_val(n)
    } else if fits_i32(n) && fits_i32(d) {
        SVal::Rational(n, d)
    } else {
        SVal::BigRational(n, d)
    }
}

proof fn lemma_pow_nonzero(b: int, e: nat)
    requires
        b != 0,
    ensures
        pow(b, e) != 0,
    decreases e,
{
    reveal(pow);
    if e > 0 {
        lemma_pow_nonzero(b, (e - 1) as nat);
        let p = pow(b, (e - 1) as nat);
        assert(b * p != 0) by (nonlinear_arith)
            requires
                b != 0,
                p != 0,
        ;
    }
}

/// An integer as a value.
pub(crate) fn int_of(b: BigNumber) -> (r: StahlVal)
    ensures
        r@ == int_val(b@),
{
    match big_to_isize(&b) {
        Some(i) => StahlVal::IntV(i),
        None => StahlVal::BigNum(b),
    }
}

/// The fraction `n / d` as a value.
pub(crate) fn from_fraction(n: &BigNumber, d: &BigNumber) -> (r: StahlVal)
    requires
        d@ != 0,
    ensures
        r@ == normalized((n@, d@)),
        exact_value(r@) is Some,
{
    let (rn, rd) = big_ratio(n, d);
    let one = match big_to_isize(&rd) {
        Some(x) => x == 1,
        None => false,
    };
    if one {
        int_of(rn)
    } else {
        match (big_to_i32(&rn), big_to_i32(&rd)) {
            (Some(p), Some(q)) => StahlVal::Rational(p, q),
            _ => StahlVal::BigRational(rn, rd),
        }
    }
}

/// The numerator and denominator of an exact number.
pub(crate) fn exact_parts(x: &StahlVal) -> (r: (BigNumber, BigNumber))
    requires
        exact_value(x@) is Some,
    ensures
        (r.0@, r.1@) == exact_value(x@)->0,
{
    match x {
        StahlVal::IntV(i) => (big_from_isize(*i), big_from_isize(1)),
        StahlVal::BigNum(b) => (big_copy(b), big_from_isize(1)),
        StahlVal::Rational(n, d) => (big_from_isize(*n as isize), big_from_isize(*d as isize)),
        StahlVal::BigRational(n, d) => (big_copy(n), big_copy(d)),
        _ => {
            proof {
                assert(false);
            }
            (big_from_isize(0), big_from_isize(1))
        },
    }
}

/// The sum of two exact numbers, in lowest terms.
fn sum_of(x: &StahlVal, y: &StahlVal) -> (r: StahlVal)
    requires
        exact_value(x@) is Some,
        exact_value(y@) is Some,
    ensures
        r@ == normalized(sum(exact_value(x@)->0, exact_value(y@)->0)),
        exact_value(r@) is Some,
{
    let (a, b) = exact_parts(x);
    let (c, d) = exact_parts(y);
    let ad = big_mul(&a, &d);
    let cb = big_mul(&c, &b);
    let n = big_add(&ad, &cb);
    let m = big_mul(&b, &d);
    assert(m@ != 0) by (nonlinear_arith)
        requires
            m@ == b@ * d@,
            b@ != 0,
            d@ != 0,
    ;
    from_fraction(&n, &m)
}

/// The product of two exact numbers, in lowest terms.
fn product_of(x: &StahlVal, y: &StahlVal) -> (r: StahlVal)
    requires
        exact_value(x@) is Some,
        exact_value(y@) is Some,
    ensures
        r@ == normalized(product(exact_value(x@)->0, exact_value(y@)->0)),
        exact_value(r@) is Some,
{
    let (a, b) = exact_parts(x);
    let (c, d) = exact_parts(y);
    let n = big_mul(&a, &c);
    let m = big_mul(&b, &d);
    assert(m@ != 0) by (nonlinear_arith)
        requires
            m@ == b@ * d@,
            b@ != 0,
            d@ != 0,
    ;
    from_fraction(&n, &m)
}

/// `+` on two exact numbers: their sum, in lowest terms.
pub fn add_two_exact(x: &StahlVal, y: &StahlVal) -> (r: Result<StahlVal, StahlErr>)
    requires
        exact_value(x@) is Some,
        exact_value(y@) is Some,
    ensures
        outcome(r) == Ok::<SVal, ErrorKind>(normalized(sum(exact_value(x@)->0, exact_value(y@)->0))),
{
    Ok(sum_of(x, y))
}

/// `*` on two exact numbers: their product, in lowest terms.
pub fn multiply_two_exact(x: &StahlVal, y: &StahlVal) -> (r: Result<StahlVal, StahlErr>)
    requires
        exact_value(x@) is Some,
        exact_value(y@) is Some,
    ensures
        outcome(r) == Ok::<SVal, ErrorKind>(normalized(product(exact_value(x@)->0, exact_value(y@)->0))),
{
    Ok(product_of(x, y))
}

/// `expt` on two machine integers: `l` to the power `r`, as a big integer when it does not
/// fit a word; for a negative `r` the fraction `1 / l^-r` in lowest terms, and an error for
/// zero to a negative power.
pub fn expt_exact(l: isize, r: isize) -> (v: Result<StahlVal, StahlErr>)
    ensures
        r >= 0 ==> outcome(v) == Ok::<SVal, ErrorKind>(int_val(pow(l as int, r as nat))),
        r < 0 && l == 0 ==> outcome(v) == Err::<SVal, ErrorKind>(ErrorKind::Generic),
        r < 0 && l != 0 ==> outcome(v) == Ok::<SVal, ErrorKind>(normalized((1, pow(l as int, (-r) as nat)))),
{
    let base = big_from_isize(l);
    if r >= 0 {
        let p = big_pow(&base, r as usize);
        return Ok(int_of(p));
    }
    if l == 0 {
        return fail(ErrorKind::Generic, "expt: 0 cannot be raised to a negative power");
    }
    let e: usize = if r == isize::MIN {
        (isize::MAX as usize) + 1
    } else {
        (-r) as usize
    };
    assert(e as nat == (-r) as nat);
    let p = big_pow(&base, e);
    proof {
        lemma_pow_nonzero(l as int, e as nat);
    }
    let one = big_from_isize(1);
    Ok(from_fraction(&one, &p))
}

/// The integer value of an exponent: a machine or a big integer.
pub open spec fn exponent_value(e: SVal) -> int {
    match e {
        SVal::Int(i) => i,
        SVal::BigNum(i) => i,
        _ => 0,
    }
}

/// The integer value of an integer argument, as a big integer.
fn integer_parts(e: &StahlVal) -> (r: BigNumber)
    requires
        e@ is Int || e@ is BigNum,
    ensures
        r@ == exponent_value(e@),
{
    match e {
        StahlVal::IntV(i) => big_from_isize(*i),
        StahlVal::BigNum(b) => big_copy(b),
        _ => {
            proof {
                assert(false);
            }
            big_from_isize(0)
        },
    }
}

/// `expt` on an exact base and an integer exponent `k`: for the base `n / d`, the fraction
/// `n^k / d^k` in lowest terms when `k >= 0`, and `d^-k / n^-k` when `k < 0`; an error for
/// zero to a negative power. A big exponent takes an integer base (a fraction to a big
/// power is computed in floating point by the caller), and past a `u64` only the bases
/// -1, 0 and 1 have a power that fits in memory.
pub fn expt_exact_number(base: &StahlVal, e: &StahlVal) -> (v: Result<StahlVal, StahlErr>)
    requires
        exact_value(base@) is Some,
        e@ is Int || (e@ is BigNum && (base@ is Int || base@ is BigNum)),
        abs(exponent_value(e@)) <= u64::MAX || -1 <= (exact_value(base@)->0).0 <= 1,
    ensures
        ({
            let (n, d) = exact_value(base@)->0;
            let k = exponent_value(e@);
            &&& k >= 0 ==> outcome(v) == Ok::<SVal, ErrorKind>(
                normalized((pow(n, k as nat), pow(d, k as nat))),
            )
            &&& k < 0 && n == 0 ==> outcome(v) == Err::<SVal, ErrorKind>(ErrorKind::Generic)
            &&& k < 0 && n != 0 ==> outcome(v) == Ok::<SVal, ErrorKind>(
                normalized((pow(d, (-k) as nat), pow(n, (-k) as nat))),
            )
        }),
{
    let (n, d) = exact_parts(base);
    let k = integer_parts(e);
    let zero = big_from_isize(0);
    let negative = big_less(&k, &zero);
    let m = if negative {
        big_sub(&zero, &k)
    } else {
        k
    };
    assert(m@ == abs(exponent_value(e@)));
    if negative && big_eq(&n, &zero) {
        return fail(ErrorKind::Generic, "expt: 0 cannot be raised to a negative power");
    }
    assert(-1 <= d@ <= 1 || m@ <= u64::MAX) by {
        if e@ is BigNum {
            assert(d@ == 1);
        }
    }
    let pn = big_pow_big(&n, &m);
    let pd = big_pow_big(&d, &m);
    proof {
        lemma_pow_nonzero(d@, m@ as nat);
    }
    if negative {
        proof {
            lemma_pow_nonzero(n@, m@ as nat);
        }
        Ok(from_fraction(&pd, &pn))
    } else {
        Ok(from_fraction(&pn, &pd))
    }
}

/// Whether `s` is the integer square root of `n`.
pub open spec fn is_int_sqrt(n: int, s: int) -> bool {
    0 <= s && s * s <= n < (s + 1) * (s + 1)
}

/// The value of a non-negative integer; `None` for any other value.
pub open spec fn nonneg_int(v: SVal) -> Option<int> {
    match v {
        SVal::Int(n) => if n >= 0 {
            Some(n)
        } else {
            None
        },
        SVal::BigNum(n) => if n >= 0 {
            Some(n)
        } else {
            None
        },
        _ => None,
    }
}

/// The integer square root of a non-negative `n`: the `s >= 0` with
/// `s * s <= n < (s + 1) * (s + 1)`.
pub open spec fn int_sqrt(n: int) -> int {
    choose|s: int| is_int_sqrt(n, s)
}

/// An integer has at most one integer square root.
pub proof fn lemma_int_sqrt_unique(n: int, s: int, t: int)
    requires
        is_int_sqrt(n, s),
        is_int_sqrt(n, t),
    ensures
        s == t,
{
    if s < t {
        assert((s + 1) * (s + 1) <= t * t) by (nonlinear_arith)
            requires
                0 <= s,
                s + 1 <= t,
        ;
    } else if t < s {
        assert((t + 1) * (t + 1) <= s * s) by (nonlinear_arith)
            requires
                0 <= t,
                t + 1 <= s,
        ;
    }
}

/// The list of the square root `s` of `n` and what is left, `n - s * s`.
pub open spec fn root_and_rest(n: int, s: int) -> SVal {
    SVal::List(seq![int_val(s), int_val(n - s * s)])
}

/// `exact-integer-sqrt`: for a non-negative integer `n`, the list of `s` and `n - s * s`,
/// where `s` is the integer square root of `n`; a type error for any other value.
pub fn exact_integer_sqrt(number: &StahlVal) -> (r: Result<StahlVal, StahlErr>)
    ensures
        match nonneg_int(number@) {
            Some(n) => outcome(r) == Ok::<SVal, ErrorKind>(root_and_rest(n, int_sqrt(n))),
            None => outcome(r) == Err::<SVal, ErrorKind>(ErrorKind::TypeMismatch),
        },
{
    match number {
        StahlVal::IntV(x) => {
            if *x < 0 {
                return fail(ErrorKind::TypeMismatch, "exact-integer-sqrt expects a non-negative integer");
            }
            let s = isize_sqrt(*x);
            let rem = *x - s * s;
            let out = vec![StahlVal::IntV(s), StahlVal::IntV(rem)];
            let res = StahlVal::ListV(out);
            assert(res@ == root_and_rest(*x as int, s as int)) by {
                assert(vals(out@) =~= seq![int_val(s as int), int_val(*x - s * s)]);
            }
            proof {
                assert(is_int_sqrt(*x as int, s as int));
                assert(is_int_sqrt(*x as int, int_sqrt(*x as int)));
                lemma_int_sqrt_unique(*x as int, s as int, int_sqrt(*x as int));
            }
            Ok(res)
        },
        StahlVal::BigNum(x) => {
            let zero = big_from_isize(0);
            if big_less(x, &zero) {
                return fail(ErrorKind::TypeMismatch, "exact-integer-sqrt expects a non-negative integer");
            }
            let s = big_sqrt(x);
            let ghost root = s@;
            let sq = big_mul(&s, &s);
            let rem = big_sub(x, &sq);
            let a = int_of(s);
            let b = int_of(rem);
            let out = vec![a, b];
            let res = StahlVal::ListV(out);
            assert(res@ == root_and_rest(x@, root)) by {
                assert(vals(out@) =~= seq![a@, b@]);
            }
            proof {
                assert(is_int_sqrt(x@, root));
                assert(is_int_sqrt(x@, int_sqrt(x@)));
                lemma_int_sqrt_unique(x@, root, int_sqrt(x@));
            }
            Ok(res)
        },
        _ => fail(ErrorKind::TypeMismatch, "exact-integer-sqrt expects a non-negative integer"),
    }
}

/// Whether no value is a floating-point number.
pub open spec fn no_float(a: Seq<SVal>) -> bool {
    forall|i: int| 0 <= i < a.len() ==> !(#[trigger] a[i] is Num)
}

/// Whether every value is an exact number.
pub open spec fn all_exact(a: Seq<SVal>) -> bool {
    forall|i: int| 0 <= i < a.len() ==> exact_value(#[trigger] a[i]) is Some
}

/// `+` on exact numbers, from the left: zero for none, the number itself for one, and each
/// further number added to the sum so far.
pub open spec fn sum_all(a: Seq<SVal>) -> SVal
    decreases a.len(),
{
    if a.len() == 0 {
        SVal::Int(0)
    } else if a.len() == 1 {
        a[0]
    } else {
        normalized(sum(exact_value(sum_all(a.drop_last()))->0, exact_value(a.last())->0))
    }
}

/// `*` on exact numbers, from the left: one for none, the number itself for one, and each
/// further number multiplied into the product so far.
pub open spec fn product_all(a: Seq<SVal>) -> SVal
    decreases a.len(),
{
    if a.len() == 0 {
        SVal::Int(1)
    } else if a.len() == 1 {
        a[0]
    } else {
        normalized(product(exact_value(product_all(a.drop_last()))->0, exact_value(a.last())->0))
    }
}

/// The negation of an exact number, in lowest terms.
pub open spec fn negated(v: SVal) -> SVal {
    let (n, d) = exact_value(v)->0;
    normalized((-n, d))
}

/// Whether every argument is an exact number.
fn all_exact_args(args: &[StahlVal]) -> (b: bool)
    ensures
        b == all_exact(vals(args@)),
{
    let ghost a = vals(args@);
    let mut i: usize = 0;
    while i < args.len()
        invariant
            i <= args.len(),
            a == vals(args@),
            forall|j: int| 0 <= j < i ==> exact_value(#[trigger] a[j]) is Some,
        decreases args.len() - i,
    {
        let exact = match &args[i] {
            StahlVal::IntV(_) | StahlVal::BigNum(_) => true,
            StahlVal::Rational(_, d) => *d != 0,
            StahlVal::BigRational(_, d) => {
                let zero = big_from_isize(0);
                !big_eq(d, &zero)
            },
            _ => false,
        };
        if !exact {
            assert(exact_value(a[i as int]) is None);
            return false;
        }
        i = i + 1;
    }
    true
}

/// The sum of the arguments from `from` on.
fn sum_from(args: &[StahlVal], from: usize) -> (r: StahlVal)
    requires
        all_exact(vals(args@)),
        from <= args.len(),
    ensures
        r@ == sum_all(vals(args@).skip(from as int)),
        exact_value(r@) is Some,
{
    let ghost a = vals(args@);
    if from == args.len() {
        assert(a.skip(from as int).len() == 0);
        return StahlVal::IntV(0);
    }
    let mut acc = args[from].clone();
    let mut i: usize = from + 1;
    assert(a.subrange(from as int, i as int) =~= seq![a[from as int]]);
    while i < args.len()
        invariant
            from < i <= args.len(),
            a == vals(args@),
            all_exact(a),
            acc@ == sum_all(a.subrange(from as int, i as int)),
            exact_value(acc@) is Some,
        decreases args.len() - i,
    {
        assert(exact_value(a[i as int]) is Some);
        let next = sum_of(&acc, &args[i]);
        proof {
            let t = a.subrange(from as int, i + 1);
            assert(t.drop_last() =~= a.subrange(from as int, i as int));
            assert(t.last() == a[i as int]);
        }
        acc = next;
        i = i + 1;
    }
    assert(a.subrange(from as int, args.len() as int) =~= a.skip(from as int));
    acc
}

/// `+`: the sum of the arguments, in lowest terms (zero for none); a type error when one of
/// them is not a number. Floating-point arguments are summed by the caller.
pub fn add_primitive(args: &[StahlVal]) -> (r: Result<StahlVal, StahlErr>)
    requires
        no_float(vals(args@)),
    ensures
        all_exact(vals(args@)) ==> outcome(r) == Ok::<SVal, ErrorKind>(sum_all(vals(args@))),
        !all_exact(vals(args@)) ==> outcome(r) == Err::<SVal, ErrorKind>(ErrorKind::TypeMismatch),
{
    if !all_exact_args(args) {
        return fail(ErrorKind::TypeMismatch, "+ expects numbers");
    }
    let r = sum_from(args, 0);
    assert(vals(args@).skip(0) =~= vals(args@));
    Ok(r)
}

/// The product of the arguments from `from` on.
fn product_from(args: &[StahlVal], from: usize) -> (r: StahlVal)
    requires
        all_exact(vals(args@)),
        from <= args.len(),
    ensures
        r@ == product_all(vals(args@).skip(from as int)),
        exact_value(r@) is Some,
{
    let ghost a = vals(args@);
    if from == args.len() {
        assert(a.skip(from as int).len() == 0);
        return StahlVal::IntV(1);
    }
    let mut acc = args[from].clone();
    let mut i: usize = from + 1;
    assert(a.subrange(from as int, i as int) =~= seq![a[from as int]]);
    while i < args.len()
        invariant
            from < i <= args.len(),
            a == vals(args@),
            all_exact(a),
            acc@ == product_all(a.subrange(from as int, i as int)),
            exact_value(acc@) is Some,
        decreases args.len() - i,
    {
        assert(exact_value(a[i as int]) is Some);
        let next = product_of(&acc, &args[i]);
        proof {
            let t = a.subrange(from as int, i + 1);
            assert(t.drop_last() =~= a.subrange(from as int, i as int));
            assert(t.last() == a[i as int]);
        }
        acc = next;
        i = i + 1;
    }
    assert(a.subrange(from as int, args.len() as int) =~= a.skip(from as int));
    acc
}

/// `*`: the product of the arguments, in lowest terms (one for none); a type error when one
/// of them is not a number. Floating-point arguments are multiplied by the caller.
pub fn multiply_primitive(args: &[StahlVal]) -> (r: Result<StahlVal, StahlErr>)
    requires
        no_float(vals(args@)),
    ensures
        all_exact(vals(args@)) ==> outcome(r) == Ok::<SVal, ErrorKind>(product_all(vals(args@))),
        !all_exact(vals(args@)) ==> outcome(r) == Err::<SVal, ErrorKind>(ErrorKind::TypeMismatch),
{
    if !all_exact_args(args) {
        return fail(ErrorKind::TypeMismatch, "* expects numbers");
    }
    let r = product_from(args, 0);
    assert(vals(args@).skip(0) =~= vals(args@));
    Ok(r)
}

/// Whether an exact number is zero.
pub open spec fn is_zero(v: SVal) -> bool {
    (exact_value(v)->0).0 == 0
}

/// The reciprocal of a non-zero exact number, in lowest terms.
pub open spec fn reciprocal(v: SVal) -> SVal {
    let (n, d) = exact_value(v)->0;
    normalized((d, n))
}

/// The reciprocal of an exact number, or an error for zero.
fn reciprocal_of(x: &StahlVal) -> (r: Result<StahlVal, StahlErr>)
    requires
        exact_value(x@) is Some,
    ensures
        is_zero(x@) ==> outcome(r) == Err::<SVal, ErrorKind>(ErrorKind::Generic),
        !is_zero(x@) ==> outcome(r) == Ok::<SVal, ErrorKind>(reciprocal(x@)),
        r matches Ok(v) ==> exact_value(v@) is Some,
{
    let (n, d) = exact_parts(x);
    let zero = big_from_isize(0);
    if big_eq(&n, &zero) {
        return fail(ErrorKind::Generic, "/: division by zero");
    }
    Ok(from_fraction(&d, &n))
}

/// `/`: the reciprocal of a single argument, or the first argument divided by the product of
/// the rest, in lowest terms; an arity error for no arguments, an error for a zero divisor,
/// and a type error when one of them is not a number. Floating-point arguments are divided
/// by the caller.
pub fn divide_primitive(args: &[StahlVal]) -> (r: Result<StahlVal, StahlErr>)
    requires
        no_float(vals(args@)),
    ensures
        !all_exact(vals(args@)) ==> outcome(r) == Err::<SVal, ErrorKind>(ErrorKind::TypeMismatch),
        all_exact(vals(args@)) && args@.len() == 0 ==> outcome(r) == Err::<SVal, ErrorKind>(
            ErrorKind::ArityMismatch,
        ),
        all_exact(vals(args@)) && args@.len() == 1 ==> outcome(r) == if is_zero(vals(args@)[0]) {
            Err::<SVal, ErrorKind>(ErrorKind::Generic)
        } else {
            Ok(reciprocal(vals(args@)[0]))
        },
        all_exact(vals(args@)) && args@.len() > 1 ==> outcome(r) == if is_zero(
            product_all(vals(args@).skip(1)),
        ) {
            Err::<SVal, ErrorKind>(ErrorKind::Generic)
        } else {
            Ok(
                normalized(
                    product(
                        exact_value(vals(args@)[0])->0,
                        exact_value(reciprocal(product_all(vals(args@).skip(1))))->0,
                    ),
                ),
            )
        },
{
    if !all_exact_args(args) {
        return fail(ErrorKind::TypeMismatch, "/ expects numbers");
    }
    if args.len() == 0 {
        return fail(ErrorKind::ArityMismatch, "/ requires at least one argument");
    }
    assert(exact_value(vals(args@)[0]) is Some);
    if args.len() == 1 {
        return reciprocal_of(&args[0]);
    }
    let d = product_from(args, 1);
    let inv = match reciprocal_of(&d) {
        Ok(v) => v,
        Err(e) => return Err(e),
    };
    Ok(product_of(&args[0], &inv))
}

/// The negation of an exact number, in lowest terms.
fn negate_exact(x: &StahlVal) -> (r: StahlVal)
    requires
        exact_value(x@) is Some,
    ensures
        r@ == negated(x@),
        exact_value(r@) is Some,
{
    let (n, d) = exact_parts(x);
    let zero = big_from_isize(0);
    let m = big_sub(&zero, &n);
    from_fraction(&m, &d)
}

/// `-`: the negation of a single argument, or the first argument less the sum of the rest,
/// in lowest terms; a type error for no arguments or when one of them is not a number.
/// Floating-point arguments are subtracted by the caller.
pub fn subtract_primitive(args: &[StahlVal]) -> (r: Result<StahlVal, StahlErr>)
    requires
        no_float(vals(args@)),
    ensures
        !all_exact(vals(args@)) || args@.len() == 0 ==> outcome(r) == Err::<SVal, ErrorKind>(
            ErrorKind::TypeMismatch,
        ),
        all_exact(vals(args@)) && args@.len() == 1 ==> outcome(r) == Ok::<SVal, ErrorKind>(
            negated(vals(args@)[0]),
        ),
        all_exact(vals(args@)) && args@.len() > 1 ==> outcome(r) == Ok::<SVal, ErrorKind>(
            normalized(
                sum(
                    exact_value(vals(args@)[0])->0,
                    exact_value(negated(sum_all(vals(args@).skip(1))))->0,
                ),
            ),
        ),
{
    if !all_exact_args(args) {
        return fail(ErrorKind::TypeMismatch, "- expects numbers");
    }
    if args.len() == 0 {
        return fail(ErrorKind::TypeMismatch, "- requires at least one argument");
    }
    assert(exact_value(vals(args@)[0]) is Some);
    if args.len() == 1 {
        return Ok(negate_exact(&args[0]));
    }
    let rest = sum_from(args, 1);
    let y = negate_exact(&rest);
    Ok(sum_of(&args[0], &y))
}

/// `number?` (and `complex?`): whether the value is a number, exact or floating-point.
pub fn numberp(value: &StahlVal) -> (b: bool)
    ensures
        b == (value@ is Int || value@ is BigNum || value@ is Rational || value@ is BigRational
            || value@ is Num),
{
    match value {
        StahlVal::IntV(_) | StahlVal::BigNum(_) | StahlVal::Rational(_, _)
        | StahlVal::BigRational(_, _) | StahlVal::NumV(_) => true,
        _ => false,
    }
}

/// `complex?`: every number is a complex number.
pub fn complexp(value: &StahlVal) -> (b: bool)
    ensures
        b == (value@ is Int || value@ is BigNum || value@ is Rational || value@ is BigRational
            || value@ is Num),
{
    numberp(value)
}

/// `real?`: whether the value is a real number; every number held here is.
pub fn realp(value: &StahlVal) -> (b: bool)
    ensures
        b == (value@ is Int || value@ is BigNum || value@ is Rational || value@ is BigRational
            || value@ is Num),
{
    numberp(value)
}

/// `exact-integer?`: whether the value is a machine or a big integer.
pub fn exact_integerp(value: &StahlVal) -> (b: bool)
    ensures
        b == (value@ is Int || value@ is BigNum),
{
    match value {
        StahlVal::IntV(_) | StahlVal::BigNum(_) => true,
        _ => false,
    }
}

/// `float?`: whether the value is a floating-point number.
pub fn floatp(value: &StahlVal) -> (b: bool)
    ensures
        b == value@ is Num,
{
    match value {
        StahlVal::NumV(_) => true,
        _ => false,
    }
}

/// `exact?`: whether the value is an exact number: an integer or a fraction.
pub fn exactp(value: &StahlVal) -> (b: bool)
    ensures
        b == (value@ is Int || value@ is BigNum || value@ is Rational || value@ is BigRational),
{
    match value {
        StahlVal::IntV(_) | StahlVal::BigNum(_) | StahlVal::Rational(_, _)
        | StahlVal::BigRational(_, _) => true,
        _ => false,
    }
}

/// `inexact?`: whether the value is a floating-point number.
pub fn inexactp(value: &StahlVal) -> (b: bool)
    ensures
        b == value@ is Num,
{
    floatp(value)
}

/// `exact` on anything but a floating-point number (whose conversion the caller makes): an
/// exact number unchanged, and an error for any other value.
pub fn exact(value: &StahlVal) -> (r: Result<StahlVal, StahlErr>)
    requires
        !(value@ is Num),
    ensures
        (value@ is Int || value@ is BigNum || value@ is Rational || value@ is BigRational) ==> outcome(r)
            == Ok::<SVal, ErrorKind>(value@),
        !(value@ is Int || value@ is BigNum || value@ is Rational || value@ is BigRational) ==> outcome(r)
            == Err::<SVal, ErrorKind>(ErrorKind::Generic),
{
    if exactp(value) {
        Ok(value.clone())
    } else {
        fail(ErrorKind::Generic, "unable to convert to exact number")
    }
}

/// Whether an integer argument is even; `None` for any other value.
fn integer_is_even(arg: &StahlVal) -> (r: Option<bool>)
    ensures
        (arg@ is Int || arg@ is BigNum) ==> r == Some(exponent_value(arg@) % 2 == 0),
        !(arg@ is Int || arg@ is BigNum) ==> r is None,
{
    match arg {
        StahlVal::IntV(n) => {
            let b = big_from_isize(*n);
            Some(big_is_even(&b))
        },
        StahlVal::BigNum(b) => Some(big_is_even(b)),
        _ => None,
    }
}

/// `even?` on anything but a floating-point number (whose test the caller makes): whether an
/// integer is even; a type error for any other value.
pub fn even(arg: &StahlVal) -> (r: Result<StahlVal, StahlErr>)
    requires
        !(arg@ is Num),
    ensures
        (arg@ is Int || arg@ is BigNum) ==> outcome(r) == Ok::<SVal, ErrorKind>(
            SVal::Bool(exponent_value(arg@) % 2 == 0),
        ),
        !(arg@ is Int || arg@ is BigNum) ==> outcome(r) == Err::<SVal, ErrorKind>(
            ErrorKind::TypeMismatch,
        ),
{
    match integer_is_even(arg) {
        Some(b) => Ok(StahlVal::BoolV(b)),
        None => fail(ErrorKind::TypeMismatch, "even? requires an integer"),
    }
}

/// `odd?` on anything but a floating-point number (whose test the caller makes): whether an
/// integer is odd; a type error for any other value.
pub fn odd(arg: &StahlVal) -> (r: Result<StahlVal, StahlErr>)
    requires
        !(arg@ is Num),
    ensures
        (arg@ is Int || arg@ is BigNum) ==> outcome(r) == Ok::<SVal, ErrorKind>(
            SVal::Bool(exponent_value(arg@) % 2 == 1),
        ),
        !(arg@ is Int || arg@ is BigNum) ==> outcome(r) == Err::<SVal, ErrorKind>(
            ErrorKind::TypeMismatch,
        ),
{
    match integer_is_even(arg) {
        Some(b) => Ok(StahlVal::BoolV(!b)),
        None => fail(ErrorKind::TypeMismatch, "odd? requires an integer"),
    }
}

/// Whether `n` is the square of an integer.
pub open spec fn is_square(n: int) -> bool {
    n >= 0 && int_sqrt(n) * int_sqrt(n) == n
}

/// The exact square root of a value, where there is one: a non-negative machine integer
/// that is a square, or a non-negative fraction whose parts are squares; `None` otherwise.
pub open spec fn exact_square_root(v: SVal) -> Option<SVal> {
    match v {
        SVal::Int(n) => if is_square(n) {
            Some(SVal::Int(int_sqrt(n)))
        } else {
            None
        },
        SVal::Rational(n, d) => if d > 0 && is_square(n) && is_square(d) {
            Some(normalized((int_sqrt(n), int_sqrt(d))))
        } else {
            None
        },
        _ => None,
    }
}

/// The integer square root of a square, or `None`.
fn square_root(x: isize) -> (r: Option<isize>)
    ensures
        is_square(x as int) ==> (r matches Some(s) && s as int == int_sqrt(x as int)),
        !is_square(x as int) ==> r is None,
{
    if x < 0 {
        return None;
    }
    let s = isize_sqrt(x);
    proof {
        assert(is_int_sqrt(x as int, s as int));
        assert(is_int_sqrt(x as int, int_sqrt(x as int)));
        lemma_int_sqrt_unique(x as int, s as int, int_sqrt(x as int));
    }
    if s * s == x {
        Some(s)
    } else {
        None
    }
}

/// `sqrt` where the answer is exact: the root of a square integer or of a fraction of
/// squares; `None` where the root takes floating point (or a complex number), which the
/// caller computes.
pub fn exact_sqrt(number: &StahlVal) -> (r: Option<StahlVal>)
    ensures
        match exact_square_root(number@) {
            Some(v) => r matches Some(x) && x@ == v,
            None => r is None,
        },
{
    match number {
        StahlVal::IntV(x) => match square_root(*x) {
            Some(s) => Some(StahlVal::IntV(s)),
            None => None,
        },
        StahlVal::Rational(n, d) => {
            if *d <= 0 {
                return None;
            }
            match (square_root(*n as isize), square_root(*d as isize)) {
                (Some(a), Some(b)) => {
                    let na = big_from_isize(a);
                    let nb = big_from_isize(b);
                    assert(b != 0) by {
                        let q = int_sqrt(*d as int);
                        assert(is_square(*d as int));
                        if b == 0 {
                            assert(q * q == 0) by (nonlinear_arith)
                                requires
                                    q == 0,
                            ;
                        }
                    }
                    Some(from_fraction(&na, &nb))
                },
                _ => None,
            }
        },
        _ => None,
    }
}

} // verus!
