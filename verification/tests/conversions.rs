use stahl_core::conversions::{FromStahlVal, IntoStahlVal};
use stahl_core::values::{ErrorKind, StahlVal};

#[test]
fn vec_into_list() {
    let input_vec = vec![1, 2];
    let expected = StahlVal::ListV(vec![StahlVal::IntV(1), StahlVal::IntV(2)]);
    assert_eq!(input_vec.into_stahlval().unwrap(), expected)
}

#[test]
fn vec_from_list() {
    let input_list = StahlVal::ListV(vec![StahlVal::IntV(1), StahlVal::IntV(2)]);
    let expected = vec![1, 2];
    let result = <Vec<i32>>::from_stahlval(&input_list).unwrap();
    assert_eq!(result, expected)
}

#[test]
fn vec_from_vector() {
    let input_vector = StahlVal::VectorV(vec![StahlVal::IntV(1), StahlVal::IntV(2)]);
    let expected = vec![1, 2];
    let result = <Vec<i32>>::from_stahlval(&input_vector).unwrap();
    assert_eq!(result, expected);
}

#[test]
fn vec_from_stahlval_error() {
    let input = StahlVal::IntV(2);
    assert!(<Vec<i32>>::from_stahlval(&input).is_err());
}

#[test]
fn vec_from_list_with_a_bad_element_is_a_conversion_error() {
    let input = StahlVal::ListV(vec![StahlVal::IntV(1), StahlVal::BoolV(true)]);
    let err = <Vec<i32>>::from_stahlval(&input).unwrap_err();
    assert_eq!(err.kind, ErrorKind::ConversionError);
}

#[test]
fn option_converts_false_to_none() {
    let none = <Option<i32>>::from_stahlval(&StahlVal::BoolV(false)).unwrap();
    assert_eq!(none, None);
    let some = <Option<i32>>::from_stahlval(&StahlVal::IntV(7)).unwrap();
    assert_eq!(some, Some(7));
    assert_eq!(None::<i32>.into_stahlval().unwrap(), StahlVal::BoolV(false));
}

#[test]
fn pair_converts_to_a_list_of_two() {
    let v = (1i32, 'x').into_stahlval().unwrap();
    assert_eq!(v, StahlVal::ListV(vec![StahlVal::IntV(1), StahlVal::CharV('x')]));
    let back = <(i32, char)>::from_stahlval(&v).unwrap();
    assert_eq!(back, (1, 'x'));
    let short = StahlVal::ListV(vec![StahlVal::IntV(1)]);
    assert_eq!(<(i32, char)>::from_stahlval(&short).unwrap_err().kind, ErrorKind::ConversionError);
}

#[test]
fn integers_cut_to_the_target_width() {
    assert_eq!(u8::from_stahlval(&StahlVal::IntV(300)).unwrap_err().kind, ErrorKind::ConversionError);
    assert_eq!(u8::from_stahlval(&StahlVal::IntV(255)).unwrap(), 255);
    assert_eq!(i8::from_stahlval(&StahlVal::IntV(300)).unwrap(), 44);
    assert_eq!(String::from_stahlval(&StahlVal::SymbolV("abc".to_string())).unwrap(), "abc");
}

#[test]
fn boxed_slice_from_list() {
    let input = StahlVal::ListV(vec![StahlVal::IntV(1), StahlVal::IntV(2)]);
    let result = <Box<[i32]>>::from_stahlval(&input).unwrap();
    assert_eq!(&*result, &[1, 2]);
    assert!(<Box<[i32]>>::from_stahlval(&StahlVal::IntV(1)).is_err());
}
