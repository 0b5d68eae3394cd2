use stahl_core::hashmaps::{
    hash_contains, hash_length, hash_ref, hash_remove, hash_try_get, hm_construct, hm_empty, hm_union,
    hash_insert, keys_to_list,
};
use stahl_core::hashsets::{hashset_contains, hashset_is_subset, hashset_length, hs_construct, hs_insert};
use stahl_core::values::{StahlHashMap, StahlHashSet, StahlVal};

fn sym(x: &str) -> StahlVal {
    StahlVal::SymbolV(x.to_string())
}

fn i(x: isize) -> StahlVal {
    StahlVal::IntV(x)
}

fn as_map(v: StahlVal) -> StahlHashMap {
    match v {
        StahlVal::HashMapV(m) => m,
        _ => panic!("expected a map"),
    }
}

fn as_set(v: StahlVal) -> StahlHashSet {
    match v {
        StahlVal::HashSetV(s) => s,
        _ => panic!("expected a set"),
    }
}

#[test]
fn hash_documented_examples() {
    let ab = hm_construct(&[sym("a"), i(10), sym("b"), i(20)]).unwrap();
    let m = as_map(ab.clone());
    assert_eq!(hash_ref(&m, &sym("b")).unwrap(), i(20));
    assert_eq!(hash_try_get(&m, &sym("b")), i(20));
    assert_eq!(hash_try_get(&m, &sym("does-not-exist")), StahlVal::BoolV(false));
    assert_eq!(hash_length(&m), 2);
    assert_eq!(hash_contains(&m, &sym("a")).unwrap(), StahlVal::BoolV(true));
    assert_eq!(hash_contains(&m, &sym("not-there")).unwrap(), StahlVal::BoolV(false));
    let removed = hash_remove(&ab, sym("a")).unwrap();
    assert_eq!(removed, hm_construct(&[sym("b"), i(20)]).unwrap());
    let inserted = hash_insert(&ab, sym("c"), i(30)).unwrap();
    assert_eq!(inserted, hm_construct(&[sym("a"), i(10), sym("b"), i(20), sym("c"), i(30)]).unwrap());
    assert_eq!(keys_to_list(&as_map(hm_construct(&[sym("a"), sym("b")]).unwrap())).unwrap(), StahlVal::ListV(vec![sym("a")]));
    let one = as_map(hm_construct(&[sym("a"), i(10)]).unwrap());
    assert_eq!(hm_empty(&one).unwrap(), StahlVal::BoolV(false));
    assert_eq!(hm_empty(&as_map(hm_construct(&[]).unwrap())).unwrap(), StahlVal::BoolV(true));
    let u = hm_union(&hm_construct(&[sym("a"), i(10)]).unwrap(), &hm_construct(&[sym("b"), i(20)]).unwrap()).unwrap();
    assert_eq!(u, ab);
}

#[test]
fn hashset_documented_examples() {
    let s = hs_construct(&[i(10), i(20), i(30)]).unwrap();
    assert_eq!(hashset_length(&as_set(s.clone())), 3);
    let updated = hs_insert(&s, i(40)).unwrap();
    assert_eq!(s, hs_construct(&[i(10), i(20), i(30)]).unwrap());
    assert_eq!(updated, hs_construct(&[i(10), i(20), i(30), i(40)]).unwrap());
    let small = as_set(hs_construct(&[i(10), i(20)]).unwrap());
    assert_eq!(hashset_contains(&small, &i(10)).unwrap(), StahlVal::BoolV(true));
    assert_eq!(hashset_contains(&small, &StahlVal::StringV("foo".into())).unwrap(), StahlVal::BoolV(false));
    assert!(hashset_is_subset(&as_set(hs_construct(&[i(10)]).unwrap()), &small));
    assert!(!hashset_is_subset(&as_set(hs_construct(&[i(100)]).unwrap()), &as_set(hs_construct(&[i(30)]).unwrap())));
}
