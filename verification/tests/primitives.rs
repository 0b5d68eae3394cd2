use stahl_core::primitives::{gte_primitive, lte_primitive};
use stahl_core::conversions::{FromStahlVal, IntoStahlVal};
use stahl_core::values::StahlVal;

#[test]
fn from_char() {
    assert_eq!(StahlVal::from('c'), StahlVal::CharV('c'));
}

#[test]
fn from_stahlval_char() {
    assert_eq!(char::from_stahlval(&StahlVal::CharV('c')).unwrap(), 'c')
}

#[test]
fn into_stahlval_char() {
    assert_eq!('c'.into_stahlval().unwrap(), StahlVal::CharV('c'))
}

#[test]
fn from_stahlval_usize() {
    assert_eq!(usize::from_stahlval(&StahlVal::IntV(10)).unwrap(), 10)
}

#[test]
fn from_stahlval_i32() {
    assert_eq!(i32::from_stahlval(&StahlVal::IntV(32)).unwrap(), 32)
}

#[test]
fn into_stahlval_i32() {
    assert_eq!(32.into_stahlval().unwrap(), StahlVal::IntV(32))
}

#[test]
fn from_bool() {
    assert_eq!(StahlVal::from(true), StahlVal::BoolV(true));
}

#[test]
fn try_from_stahlval_string() {
    let expected = "foo".to_string();
    let input = StahlVal::StringV("foo".into());
    let res = String::try_from(input);
    assert_eq!(res.unwrap(), expected);
}

#[test]
fn try_from_stahlval_ref_string() {
    let expected = "foo".to_string();
    let input = StahlVal::StringV("foo".into());
    let res = String::try_from(&input);
    assert_eq!(res.unwrap(), expected);
}

#[test]
fn ordering_reads_backwards() {
    let args = vec![StahlVal::IntV(3), StahlVal::IntV(2), StahlVal::IntV(2)];
    let mut reversed = args.clone();
    reversed.reverse();
    assert_eq!(gte_primitive(&args).unwrap(), StahlVal::BoolV(true));
    assert_eq!(lte_primitive(&reversed).unwrap(), StahlVal::BoolV(true));
    let text = vec![StahlVal::StringV("b".into()), StahlVal::StringV("ab".into())];
    assert_eq!(gte_primitive(&text).unwrap(), StahlVal::BoolV(true));
    assert_eq!(lte_primitive(&text).unwrap(), StahlVal::BoolV(false));
    let floats = vec![StahlVal::NumV(2.0f64.to_bits()), StahlVal::NumV(1.0f64.to_bits())];
    assert!(stahl_core::primitives::float_pair_among(&floats));
    assert!(!stahl_core::primitives::float_pair_among(&text));
    let exact = vec![StahlVal::Rational(3, 2), StahlVal::IntV(1), StahlVal::Rational(-1, 2)];
    assert_eq!(gte_primitive(&exact).unwrap(), StahlVal::BoolV(true));
    assert_eq!(lte_primitive(&exact).unwrap(), StahlVal::BoolV(false));
}

#[test]
fn reserved_names_of_builtins() {
    assert_eq!(stahl_core::primitives::builtin_to_reserved("car"), "#%prim.car");
}
