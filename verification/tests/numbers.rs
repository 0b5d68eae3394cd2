use stahl_core::numbers::{arithmetic_shift, modulo, quotient, remainder};
use stahl_core::values::{ErrorKind, StahlVal};

fn i(x: isize) -> StahlVal {
    StahlVal::IntV(x)
}

#[test]
fn modulo_follows_the_divisor_sign() {
    assert_eq!(modulo(&[i(10), i(3)]).unwrap(), i(1));
    assert_eq!(modulo(&[i(-10), i(3)]).unwrap(), i(2));
    assert_eq!(modulo(&[i(10), i(-3)]).unwrap(), i(-2));
    assert_eq!(modulo(&[i(-10), i(-3)]).unwrap(), i(-1));
}

#[test]
fn remainder_follows_the_dividend_sign() {
    assert_eq!(remainder(&[i(10), i(3)]).unwrap(), i(1));
    assert_eq!(remainder(&[i(-10), i(3)]).unwrap(), i(-1));
    assert_eq!(remainder(&[i(10), i(-3)]).unwrap(), i(1));
    assert_eq!(remainder(&[i(-10), i(-3)]).unwrap(), i(-1));
}

#[test]
fn quotient_rounds_toward_zero() {
    assert_eq!(quotient(&[i(7), i(2)]).unwrap(), i(3));
    assert_eq!(quotient(&[i(-7), i(2)]).unwrap(), i(-3));
    assert_eq!(quotient(&[i(7)]).unwrap_err().kind, ErrorKind::ArityMismatch);
    assert_eq!(quotient(&[i(7), StahlVal::StringV("2".into())]).unwrap_err().kind, ErrorKind::TypeMismatch);
}

#[test]
fn shifts_both_ways() {
    assert_eq!(arithmetic_shift(&[i(1), i(10)]).unwrap(), i(1024));
    assert_eq!(arithmetic_shift(&[i(-8), i(-2)]).unwrap(), i(-2));
    assert_eq!(arithmetic_shift(&[i(1)]).unwrap_err().kind, ErrorKind::ArityMismatch);
}

use stahl_core::numbers::{add_two_exact, expt_exact, multiply_two_exact};
use stahl_core::printer::display_text;

#[test]
fn exact_sums_and_products() {
    let half = StahlVal::Rational(1, 2);
    let third = StahlVal::Rational(1, 3);
    assert_eq!(add_two_exact(&half, &third).unwrap(), StahlVal::Rational(5, 6));
    assert_eq!(add_two_exact(&half, &half).unwrap(), i(1));
    assert_eq!(multiply_two_exact(&half, &i(4)).unwrap(), i(2));
    assert_eq!(multiply_two_exact(&StahlVal::Rational(-2, 3), &StahlVal::Rational(3, 4)).unwrap(), StahlVal::Rational(-1, 2));
    assert_eq!(add_two_exact(&i(2), &i(3)).unwrap(), i(5));
}

#[test]
fn overflow_becomes_a_big_integer() {
    let big = add_two_exact(&i(isize::MAX), &i(1)).unwrap();
    assert!(matches!(big, StahlVal::BigNum(_)));
    assert_eq!(display_text(&big), "9223372036854775808");
    let back = add_two_exact(&big, &i(-1)).unwrap();
    assert_eq!(back, i(isize::MAX));
    let product = multiply_two_exact(&i(1 << 40), &i(1 << 40)).unwrap();
    assert_eq!(display_text(&product), "1208925819614629174706176");
}

#[test]
fn powers() {
    assert_eq!(expt_exact(2, 10).unwrap(), i(1024));
    assert_eq!(expt_exact(-3, 3).unwrap(), i(-27));
    assert_eq!(expt_exact(5, 0).unwrap(), i(1));
    assert_eq!(expt_exact(2, -3).unwrap(), StahlVal::Rational(1, 8));
    assert_eq!(expt_exact(-2, -1).unwrap(), StahlVal::Rational(-1, 2));
    assert_eq!(display_text(&expt_exact(2, 100).unwrap()), "1267650600228229401496703205376");
    assert_eq!(expt_exact(0, -1).unwrap_err().kind, ErrorKind::Generic);
    let tiny = expt_exact(10, -20).unwrap();
    assert!(matches!(tiny, StahlVal::BigRational(_, _)));
    assert_eq!(display_text(&tiny), "1/100000000000000000000");
}

#[test]
fn modulo_sign_on_many_inputs() {
    for n in -12isize..=12 {
        for m in [-5isize, -3, -1, 1, 2, 7] {
            let r = match modulo(&[i(n), i(m)]).unwrap() {
                StahlVal::IntV(r) => r,
                _ => panic!("expected an integer"),
            };
            assert_eq!((n - r) % m, 0);
            assert!(r.abs() < m.abs());
            assert!(r == 0 || (r > 0) == (m > 0));
        }
    }
}

use num::bigint::{BigInt, Sign};
use stahl_core::numbers::{add_primitive, exact_integer_sqrt, multiply_primitive, subtract_primitive};
use stahl_core::values::BigNumber;

fn big(text: &str) -> StahlVal {
    let (sign, digits) = text.parse::<BigInt>().unwrap().to_u32_digits();
    StahlVal::BigNum(BigNumber { negative: sign == Sign::Minus, digits })
}

fn pair(a: StahlVal, b: StahlVal) -> StahlVal {
    StahlVal::ListV(vec![a, b])
}

#[test]
fn test_integer_add() {
    let args = [i(10), i(2)];
    let got = add_primitive(&args).unwrap();
    let expected = i(12);
    assert_eq!(got, expected);
}

#[test]
fn test_integer_sub() {
    let args = [i(10), i(2)];
    let got = subtract_primitive(&args).unwrap();
    let expected = i(8);
    assert_eq!(got, expected);
}

#[test]
fn multiplication_test() {
    let args = [i(10), i(2)];
    let got = multiply_primitive(&args).unwrap();
    let expected = i(20);
    assert_eq!(got, expected);
}

#[test]
fn test_exact_integer_sqrt() {
    assert_eq!(exact_integer_sqrt(&i(0)).unwrap(), pair(i(0), i(0)));
    assert_eq!(exact_integer_sqrt(&i(1)).unwrap(), pair(i(1), i(0)));
    assert_eq!(exact_integer_sqrt(&i(2)).unwrap(), pair(i(1), i(1)));
    assert_eq!(exact_integer_sqrt(&i(2)).unwrap(), pair(i(1), i(1)));
    assert_eq!(exact_integer_sqrt(&i(3)).unwrap(), pair(i(1), i(2)));
    assert_eq!(exact_integer_sqrt(&i(4)).unwrap(), pair(i(2), i(0)));
    assert_eq!(exact_integer_sqrt(&i(5)).unwrap(), pair(i(2), i(1)));
    assert_eq!(exact_integer_sqrt(&i(6)).unwrap(), pair(i(2), i(2)));
    assert_eq!(exact_integer_sqrt(&i(7)).unwrap(), pair(i(2), i(3)));
}

#[test]
fn test_exact_integer_sqrt_fails_on_negative_or_noninteger() {
    assert!(exact_integer_sqrt(&i(-7)).is_err());
    assert!(exact_integer_sqrt(&StahlVal::Rational(-1, 2)).is_err());
    assert!(exact_integer_sqrt(&big("-10000000000000000000000000000000000001")).is_err());
    let (sn, dn) = "-10000000000000000000000000000000000001".parse::<BigInt>().unwrap().to_u32_digits();
    let big_fraction = StahlVal::BigRational(
        BigNumber { negative: sn == Sign::Minus, digits: dn },
        BigNumber { negative: false, digits: vec![2] },
    );
    assert!(exact_integer_sqrt(&big_fraction).is_err());
    assert!(exact_integer_sqrt(&StahlVal::NumV(1.0f64.to_bits())).is_err());
}

#[test]
fn sums_products_and_differences_from_the_docs() {
    assert_eq!(add_primitive(&[i(5), i(3)]).unwrap(), i(8));
    assert_eq!(add_primitive(&[i(10), i(3), i(2)]).unwrap(), i(15));
    assert_eq!(add_primitive(&[]).unwrap(), i(0));
    assert_eq!(multiply_primitive(&[i(5), i(3)]).unwrap(), i(15));
    assert_eq!(multiply_primitive(&[i(10), i(3), i(2)]).unwrap(), i(60));
    assert_eq!(multiply_primitive(&[]).unwrap(), i(1));
    assert_eq!(subtract_primitive(&[i(5), i(3)]).unwrap(), i(2));
    assert_eq!(subtract_primitive(&[i(10), i(3), i(2)]).unwrap(), i(5));
    assert_eq!(subtract_primitive(&[i(-5)]).unwrap(), i(5));
}

#[test]
fn folds_over_fractions_and_big_integers() {
    let half = StahlVal::Rational(1, 2);
    let third = StahlVal::Rational(1, 3);
    let sixth = StahlVal::Rational(1, 6);
    assert_eq!(add_primitive(&[half.clone(), third.clone(), sixth.clone()]).unwrap(), i(1));
    assert_eq!(multiply_primitive(&[i(6), half.clone(), third.clone()]).unwrap(), i(1));
    assert_eq!(subtract_primitive(&[half.clone(), third.clone()]).unwrap(), sixth);
    assert_eq!(subtract_primitive(&[half.clone()]).unwrap(), StahlVal::Rational(-1, 2));
    let sum = add_primitive(&[i(isize::MAX), i(isize::MAX), i(2)]).unwrap();
    assert_eq!(display_text(&sum), "18446744073709551616");
    assert_eq!(subtract_primitive(&[i(isize::MIN)]).unwrap(), big("9223372036854775808"));
    assert_eq!(add_primitive(&[i(1)]).unwrap(), i(1));
}

#[test]
fn non_numbers_are_refused() {
    let text = StahlVal::StringV("1".into());
    assert_eq!(add_primitive(&[i(1), text.clone()]).unwrap_err().kind, ErrorKind::TypeMismatch);
    assert_eq!(multiply_primitive(&[text.clone()]).unwrap_err().kind, ErrorKind::TypeMismatch);
    assert_eq!(subtract_primitive(&[]).unwrap_err().kind, ErrorKind::TypeMismatch);
    assert_eq!(subtract_primitive(&[text]).unwrap_err().kind, ErrorKind::TypeMismatch);
}

#[test]
fn square_roots_from_the_docs_and_of_big_integers() {
    assert_eq!(exact_integer_sqrt(&i(25)).unwrap(), pair(i(5), i(0)));
    assert_eq!(exact_integer_sqrt(&i(35)).unwrap(), pair(i(5), i(10)));
    let square = big("340282366920938463463374607431768211457");
    assert_eq!(exact_integer_sqrt(&square).unwrap(), pair(big("18446744073709551616"), i(1)));
}

use stahl_core::numbers::divide_primitive;

#[test]
fn division_test() {
    assert_eq!(
        display_text(&divide_primitive(&[i(10), i(2)]).unwrap()),
        display_text(&i(5))
    );
}

#[test]
fn dvision_by_integer_zero_returns_positive_infinity() {
    assert!(divide_primitive(&[i(1), i(0)]).is_err())
}

#[test]
fn division_on_single_integer_returns_reciprocal_rational() {
    assert_eq!(
        display_text(&divide_primitive(&[i(10)]).unwrap()),
        display_text(&StahlVal::Rational(1, 10))
    );
}

#[test]
fn division_on_single_rational_returns_reciprocal_rational() {
    assert_eq!(
        display_text(&divide_primitive(&[StahlVal::Rational(2, 5)]).unwrap()),
        display_text(&StahlVal::Rational(5, 2))
    );
}

#[test]
fn division_on_rational_with_numerator_one_returns_integer() {
    assert_eq!(
        display_text(&divide_primitive(&[StahlVal::Rational(1, 5)]).unwrap()),
        display_text(&i(5))
    );
}

#[test]
fn division_on_bignum_returns_bigrational() {
    let got = divide_primitive(&[big("18446744073709551616")]).unwrap();
    assert!(matches!(got, StahlVal::BigRational(_, _)));
    assert_eq!(display_text(&got), "1/18446744073709551616");
}

#[test]
fn division_from_the_docs_and_its_errors() {
    assert_eq!(divide_primitive(&[i(10), i(2)]).unwrap(), i(5));
    assert_eq!(divide_primitive(&[i(1), i(3)]).unwrap(), StahlVal::Rational(1, 3));
    assert_eq!(divide_primitive(&[i(12), i(2), i(3)]).unwrap(), i(2));
    assert_eq!(divide_primitive(&[i(-2)]).unwrap(), StahlVal::Rational(-1, 2));
    assert_eq!(divide_primitive(&[]).unwrap_err().kind, ErrorKind::ArityMismatch);
    assert_eq!(divide_primitive(&[i(0)]).unwrap_err().kind, ErrorKind::Generic);
    assert_eq!(divide_primitive(&[i(1), i(2), i(0)]).unwrap_err().kind, ErrorKind::Generic);
    let text = StahlVal::StringV("2".into());
    assert_eq!(divide_primitive(&[i(1), text]).unwrap_err().kind, ErrorKind::TypeMismatch);
}

use stahl_core::numbers::expt_exact_number;

#[test]
fn powers_of_fractions_stay_exact() {
    let half = StahlVal::Rational(1, 2);
    assert_eq!(expt_exact_number(&half, &i(2)).unwrap(), StahlVal::Rational(1, 4));
    assert_eq!(expt_exact_number(&half, &i(-1)).unwrap(), i(2));
    assert_eq!(expt_exact_number(&StahlVal::Rational(2, 3), &i(-2)).unwrap(), StahlVal::Rational(9, 4));
    assert_eq!(expt_exact_number(&StahlVal::Rational(-2, 3), &i(3)).unwrap(), StahlVal::Rational(-8, 27));
    assert_eq!(expt_exact_number(&half, &i(0)).unwrap(), i(1));
    let tiny = expt_exact_number(&half, &i(40)).unwrap();
    assert_eq!(display_text(&tiny), "1/1099511627776");
}

#[test]
fn powers_of_big_integers_and_big_exponents() {
    let b = big("18446744073709551616");
    assert_eq!(
        display_text(&expt_exact_number(&b, &i(2)).unwrap()),
        "340282366920938463463374607431768211456"
    );
    assert_eq!(display_text(&expt_exact_number(&b, &i(-1)).unwrap()), "1/18446744073709551616");
    let huge = big("1180591620717411303424");
    assert_eq!(expt_exact_number(&i(1), &huge).unwrap(), i(1));
    assert_eq!(expt_exact_number(&i(-1), &huge).unwrap(), i(1));
    assert_eq!(expt_exact_number(&i(-1), &big("1180591620717411303425")).unwrap(), i(-1));
    assert_eq!(expt_exact_number(&i(0), &huge).unwrap(), i(0));
    assert_eq!(expt_exact_number(&i(0), &big("-1180591620717411303424")).unwrap_err().kind, ErrorKind::Generic);
    assert_eq!(expt_exact_number(&i(3), &big("3")).unwrap(), i(27));
}

use stahl_core::numbers::{
    complexp, even, exact, exact_integerp, exact_sqrt, exactp, floatp, inexactp, numberp, odd, realp,
};

#[test]
fn number_predicates() {
    let float = StahlVal::NumV(1.5f64.to_bits());
    let text = StahlVal::StringV("1".into());
    for v in [i(1), big("18446744073709551616"), StahlVal::Rational(1, 2), float.clone()] {
        assert!(numberp(&v) && complexp(&v) && realp(&v));
    }
    assert!(!numberp(&text) && !complexp(&text) && !realp(&text));
    assert!(exactp(&i(1)) && exactp(&StahlVal::Rational(1, 2)) && !exactp(&float) && !exactp(&text));
    assert!(inexactp(&float) && floatp(&float) && !inexactp(&i(1)) && !floatp(&text));
    assert!(exact_integerp(&i(3)) && exact_integerp(&big("18446744073709551616")));
    assert!(!exact_integerp(&StahlVal::Rational(1, 2)) && !exact_integerp(&float));
}

#[test]
fn even_odd_and_exact() {
    assert_eq!(even(&i(4)).unwrap(), StahlVal::BoolV(true));
    assert_eq!(even(&i(-3)).unwrap(), StahlVal::BoolV(false));
    assert_eq!(odd(&i(-3)).unwrap(), StahlVal::BoolV(true));
    assert_eq!(odd(&i(0)).unwrap(), StahlVal::BoolV(false));
    assert_eq!(even(&big("18446744073709551616")).unwrap(), StahlVal::BoolV(true));
    assert_eq!(odd(&big("18446744073709551617")).unwrap(), StahlVal::BoolV(true));
    assert_eq!(even(&StahlVal::Rational(1, 2)).unwrap_err().kind, ErrorKind::TypeMismatch);
    assert_eq!(odd(&StahlVal::StringV("1".into())).unwrap_err().kind, ErrorKind::TypeMismatch);
    assert_eq!(exact(&StahlVal::Rational(1, 2)).unwrap(), StahlVal::Rational(1, 2));
    assert_eq!(exact(&i(7)).unwrap(), i(7));
    assert_eq!(exact(&StahlVal::StringV("1".into())).unwrap_err().kind, ErrorKind::Generic);
}

#[test]
fn exact_square_roots() {
    assert_eq!(exact_sqrt(&i(4)), Some(i(2)));
    assert_eq!(exact_sqrt(&i(0)), Some(i(0)));
    assert_eq!(exact_sqrt(&i(2)), None);
    assert_eq!(exact_sqrt(&i(-4)), None);
    assert_eq!(exact_sqrt(&StahlVal::Rational(4, 9)), Some(StahlVal::Rational(2, 3)));
    assert_eq!(exact_sqrt(&StahlVal::Rational(1, 2)), None);
    assert_eq!(exact_sqrt(&StahlVal::StringV("4".into())), None);
}
