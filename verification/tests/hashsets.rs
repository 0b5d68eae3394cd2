use stahl_core::hashsets::{
    hashset_is_subset, hs_construct, list_to_hashset, stahl_hashset_contains,
    stahl_hashset_to_immutable_vector, stahl_hs_insert,
};
use stahl_core::values::{ErrorKind, StahlHashSet, StahlVal};

fn s(x: &str) -> StahlVal {
    StahlVal::StringV(x.to_string())
}

fn set_of(items: Vec<StahlVal>) -> StahlVal {
    StahlVal::HashSetV(StahlHashSet { elems: items })
}

#[test]
fn hs_construct_normal() {
    let args = [s("foo"), s("bar"), s("foo2"), s("bar2")];
    let res = hs_construct(&args);
    let expected = set_of(vec![s("foo"), s("bar"), s("foo2"), s("bar2")]);
    assert_eq!(res.unwrap(), expected);
}

#[test]
fn hs_construct_with_duplicates() {
    let args = [s("foo"), s("bar"), s("foo2"), s("bar2"), s("foo"), s("bar"), s("foo2"), s("bar2")];
    let res = hs_construct(&args);
    let expected = set_of(vec![s("foo"), s("bar"), s("foo2"), s("bar2")]);
    assert_eq!(res.unwrap(), expected);
}

#[test]
fn hs_insert_from_empty() {
    let mut args = [set_of(vec![]), s("foo")];
    let res = stahl_hs_insert(&mut args);
    let expected = set_of(vec![s("foo")]);
    assert_eq!(res.unwrap(), expected);
}

#[test]
fn hs_contains_true() {
    let args = [set_of(vec![s("foo")]), s("foo")];
    let res = stahl_hashset_contains(&args);
    let expected = StahlVal::BoolV(true);
    assert_eq!(res.unwrap(), expected);
}

#[test]
fn hs_contains_false() {
    let args = [set_of(vec![s("foo")]), s("bar")];
    let res = stahl_hashset_contains(&args);
    let expected = StahlVal::BoolV(false);
    assert_eq!(res.unwrap(), expected);
}

#[test]
fn hs_keys_to_vector_normal() {
    let args = [set_of(vec![s("foo"), s("bar"), s("baz")])];
    let res = stahl_hashset_to_immutable_vector(&args);
    let mut res_vec_string: Vec<String> = if let StahlVal::VectorV(v) = res.unwrap() {
        v.iter()
            .map(|x| if let StahlVal::StringV(t) = x { t.clone() } else { panic!("test failed") })
            .collect()
    } else {
        panic!("test failed")
    };
    let mut expected_vec_string = vec!["foo".to_string(), "bar".to_string(), "baz".to_string()];
    res_vec_string.sort();
    expected_vec_string.sort();
    assert_eq!(res_vec_string, expected_vec_string);
}

#[test]
fn hashset_rejects_a_float_element() {
    let err = hs_construct(&[StahlVal::NumV(1.5f64.to_bits())]).unwrap_err();
    assert_eq!(err.kind, ErrorKind::TypeMismatch);
}

#[test]
fn inserted_element_is_contained() {
    let set = hs_construct(&[StahlVal::IntV(1), StahlVal::IntV(2)]).unwrap();
    let bigger = stahl_hs_insert(&[set.clone(), StahlVal::IntV(3)]).unwrap();
    assert_eq!(stahl_hashset_contains(&[bigger.clone(), StahlVal::IntV(3)]).unwrap(), StahlVal::BoolV(true));
    assert_eq!(stahl_hashset_contains(&[set, StahlVal::IntV(3)]).unwrap(), StahlVal::BoolV(false));
}

#[test]
fn subset_and_list_conversion() {
    let small = StahlHashSet { elems: vec![StahlVal::IntV(10)] };
    let big = StahlHashSet { elems: vec![StahlVal::IntV(10), StahlVal::IntV(20)] };
    assert!(hashset_is_subset(&small, &big));
    assert!(!hashset_is_subset(&big, &small));
    let from_list = list_to_hashset(&vec![StahlVal::IntV(1), StahlVal::IntV(1), StahlVal::IntV(2)]);
    assert_eq!(from_list, set_of(vec![StahlVal::IntV(2), StahlVal::IntV(1)]));
}

#[test]
fn contains_wrong_arguments() {
    assert_eq!(stahl_hashset_contains(&[s("x"), s("x")]).unwrap_err().kind, ErrorKind::ConversionError);
    assert_eq!(stahl_hashset_contains(&[s("x")]).unwrap_err().kind, ErrorKind::ArityMismatch);
}
