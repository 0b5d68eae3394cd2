use stahl_core::hashmaps::{
    hash_insert, hash_remove, hm_construct, hm_union, stahl_hash_contains, stahl_hash_insert,
    stahl_hash_ref, stahl_hash_try_get, stahl_keys_to_vector, stahl_values_to_vector,
};
use stahl_core::values::{ErrorKind, StahlHashMap, StahlVal};

fn s(x: &str) -> StahlVal {
    StahlVal::StringV(x.to_string())
}

fn map_of(entries: Vec<(StahlVal, StahlVal)>) -> StahlVal {
    StahlVal::HashMapV(StahlHashMap { entries })
}

fn strings_of(v: StahlVal) -> Vec<String> {
    if let StahlVal::VectorV(v) = v {
        v.iter()
            .map(|x| if let StahlVal::StringV(t) = x { t.clone() } else { panic!("test failed") })
            .collect()
    } else {
        panic!("test failed")
    }
}

#[test]
fn hm_construct_normal() {
    let args = [s("foo"), s("bar"), s("foo2"), s("bar2")];
    let res = hm_construct(&args);
    let expected = map_of(vec![(s("foo"), s("bar")), (s("foo2"), s("bar2"))]);
    assert_eq!(res.unwrap(), expected);
}

#[test]
fn hm_construct_with_duplicates() {
    let args = [s("foo"), s("bar"), s("foo2"), s("bar2"), s("foo"), s("bar"), s("foo2"), s("bar2")];
    let res = hm_construct(&args);
    let expected = map_of(vec![(s("foo"), s("bar")), (s("foo2"), s("bar2"))]);
    assert_eq!(res.unwrap(), expected);
}

#[test]
fn hm_insert_from_empty() {
    let mut args = [map_of(vec![]), s("foo"), s("bar")];
    let res = stahl_hash_insert(&mut args);
    let expected = map_of(vec![(s("foo"), s("bar"))]);
    assert_eq!(res.unwrap(), expected);
}

#[test]
fn hm_get_found() {
    let args = [map_of(vec![(s("foo"), s("bar"))]), s("foo")];
    let res = stahl_hash_ref(&args);
    assert_eq!(res.unwrap(), s("bar"));
}

#[test]
fn hm_get_error() {
    let args = [map_of(vec![(s("foo"), s("bar"))]), s("garbage")];
    let res = stahl_hash_ref(&args);
    assert!(res.is_err());
}

#[test]
fn hm_try_get_found() {
    let args = [map_of(vec![(s("foo"), s("bar"))]), s("foo")];
    let res = stahl_hash_try_get(&args);
    assert_eq!(res.unwrap(), s("bar"));
}

#[test]
fn hm_try_get_error() {
    let args = [map_of(vec![(s("foo"), s("bar"))]), s("garbage")];
    let res = stahl_hash_contains(&args);
    assert_eq!(res.unwrap(), StahlVal::BoolV(false));
}

#[test]
fn hm_contains_true() {
    let args = [map_of(vec![(s("foo"), s("bar"))]), s("foo")];
    let res = stahl_hash_contains(&args);
    assert_eq!(res.unwrap(), StahlVal::BoolV(true));
}

#[test]
fn hm_contains_false() {
    let args = [map_of(vec![(s("foo"), s("bar"))]), s("bar")];
    let res = stahl_hash_contains(&args);
    assert_eq!(res.unwrap(), StahlVal::BoolV(false));
}

#[test]
fn hm_keys_to_vector_normal() {
    let args = vec![map_of(vec![(s("foo"), s("bar")), (s("bar"), s("baz")), (s("baz"), s("quux"))])];
    let res = stahl_keys_to_vector(&args);
    let mut got = strings_of(res.unwrap());
    let mut expected = vec!["foo".to_string(), "bar".to_string(), "baz".to_string()];
    got.sort();
    expected.sort();
    assert_eq!(got, expected);
}

#[test]
fn hm_values_to_vector_normal() {
    let args = vec![map_of(vec![(s("foo"), s("bar")), (s("bar"), s("baz")), (s("baz"), s("quux"))])];
    let res = stahl_values_to_vector(&args);
    let mut got = strings_of(res.unwrap());
    let mut expected = vec!["bar".to_string(), "baz".to_string(), "quux".to_string()];
    got.sort();
    expected.sort();
    assert_eq!(got, expected);
}

#[test]
fn reading_back_an_insert() {
    let m = map_of(vec![(s("a"), StahlVal::IntV(1))]);
    let m2 = hash_insert(&m, s("b"), StahlVal::IntV(2)).unwrap();
    let m3 = hash_insert(&m2, s("a"), StahlVal::IntV(10)).unwrap();
    assert_eq!(stahl_hash_ref(&[m3.clone(), s("a")]).unwrap(), StahlVal::IntV(10));
    assert_eq!(stahl_hash_ref(&[m3.clone(), s("b")]).unwrap(), StahlVal::IntV(2));
    let m4 = hash_remove(&m3, s("a")).unwrap();
    assert_eq!(stahl_hash_contains(&[m4, s("a")]).unwrap(), StahlVal::BoolV(false));
}

#[test]
fn map_errors() {
    assert_eq!(hm_construct(&[s("odd")]).unwrap_err().kind, ErrorKind::ArityMismatch);
    let m = map_of(vec![]);
    assert_eq!(
        hash_insert(&m, StahlVal::NumV(2.5f64.to_bits()), s("x")).unwrap_err().kind,
        ErrorKind::TypeMismatch
    );
    assert_eq!(stahl_hash_ref(&[m, s("missing")]).unwrap_err().kind, ErrorKind::Generic);
}

#[test]
fn union_prefers_the_left() {
    let l = map_of(vec![(s("k"), StahlVal::IntV(1))]);
    let r = map_of(vec![(s("k"), StahlVal::IntV(2)), (s("j"), StahlVal::IntV(3))]);
    let u = hm_union(&l, &r).unwrap();
    assert_eq!(stahl_hash_ref(&[u.clone(), s("k")]).unwrap(), StahlVal::IntV(1));
    assert_eq!(stahl_hash_ref(&[u, s("j")]).unwrap(), StahlVal::IntV(3));
}

#[test]
fn binding_twice_keeps_the_later_value() {
    let m = map_of(vec![(s("a"), StahlVal::IntV(1))]);
    let once = hash_insert(&m, s("b"), StahlVal::IntV(3)).unwrap();
    let twice = hash_insert(&hash_insert(&m, s("b"), StahlVal::IntV(2)).unwrap(), s("b"), StahlVal::IntV(3)).unwrap();
    assert_eq!(once, twice);
    let removed = hash_remove(&once, s("b")).unwrap();
    assert_eq!(removed, m);
}

#[test]
fn keyword_maps_keep_the_last_value() {
    let args = [s("k"), StahlVal::IntV(1), s("j"), StahlVal::IntV(2), s("k"), StahlVal::IntV(3)];
    let m = stahl_core::hashmaps::hm_construct_keywords(&args).unwrap();
    assert_eq!(stahl_hash_ref(&[m, s("k")]).unwrap(), StahlVal::IntV(3));
}
