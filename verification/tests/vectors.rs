use stahl_core::heap::Heap;
use stahl_core::values::{ErrorKind, StahlVal};
use stahl_core::vectors::{
    immutable_vector_append, immutable_vector_construct, immutable_vector_drop,
    immutable_vector_pop_back, immutable_vector_push_front, immutable_vector_set,
    immutable_vector_take, make_vector, mut_vec_length, VectorOperations,
};

fn s(x: &str) -> StahlVal {
    StahlVal::StringV(x.to_string())
}

fn num(x: f64) -> StahlVal {
    StahlVal::NumV(x.to_bits())
}

fn ints(xs: &[isize]) -> Vec<StahlVal> {
    xs.iter().map(|x| StahlVal::IntV(*x)).collect()
}

#[test]
fn vec_construct_test() {
    let args = [StahlVal::IntV(1), StahlVal::IntV(2), StahlVal::IntV(3)];
    let res = immutable_vector_construct(&args);
    let expected = StahlVal::VectorV(ints(&[1, 2, 3]));
    assert_eq!(res.unwrap(), expected);
}

#[test]
fn vec_append_test_good_inputs() {
    let args = vec![
        StahlVal::VectorV(ints(&[1, 2, 3])),
        StahlVal::VectorV(ints(&[1, 2, 3])),
        StahlVal::VectorV(ints(&[1, 2, 3])),
    ];
    let res = VectorOperations::vec_append(&args);
    let expected = StahlVal::VectorV(ints(&[1, 2, 3, 1, 2, 3, 1, 2, 3]));
    assert_eq!(res.unwrap(), expected);
}

#[test]
fn vec_append_test_bad_inputs() {
    let args = vec![
        StahlVal::VectorV(ints(&[1, 2, 3])),
        s("foo"),
        StahlVal::VectorV(ints(&[1, 2, 3])),
    ];
    let res = VectorOperations::vec_append(&args);
    assert!(res.is_err());
}

#[test]
fn vec_range_test_arity_too_few() {
    let args = vec![num(1.0)];
    let res = VectorOperations::vec_range(&args);
    assert!(res.is_err());
}

#[test]
fn vec_range_test_arity_too_many() {
    let args = vec![StahlVal::IntV(1), StahlVal::IntV(1), StahlVal::IntV(1)];
    let res = VectorOperations::vec_range(&args);
    assert!(res.is_err());
}

#[test]
fn vec_range_test_bad_input() {
    let args = vec![s("1"), num(1.0)];
    let res = VectorOperations::vec_range(&args);
    assert!(res.is_err());
}

#[test]
fn vec_range_test_normal() {
    let args = vec![StahlVal::IntV(0), StahlVal::IntV(4)];
    let res = VectorOperations::vec_range(&args);
    let expected = StahlVal::VectorV(ints(&[0, 1, 2, 3]));
    assert_eq!(res.unwrap(), expected);
}

#[test]
fn vec_push_arity_too_few() {
    let args = vec![s("foo")];
    let res = VectorOperations::vec_push(&args);
    assert!(res.is_err());
}

#[test]
fn vec_push_arity_too_many() {
    let args = vec![s("foo"), s("foo"), s("foo")];
    let res = VectorOperations::vec_push(&args);
    assert!(res.is_err());
}

#[test]
fn vec_push_test_good_input_pair() {
    let args = vec![s("baz"), s("bar")];
    let res = VectorOperations::vec_push(&args);
    let expected = StahlVal::VectorV(vec![s("bar"), s("baz")]);
    assert_eq!(res.unwrap(), expected);
}

#[test]
fn vec_push_test_good_input() {
    let args = vec![s("baz"), StahlVal::VectorV(vec![s("foo"), s("bar")])];
    let res = VectorOperations::vec_push(&args);
    let expected = StahlVal::VectorV(vec![s("foo"), s("bar"), s("baz")]);
    assert_eq!(res.unwrap(), expected);
}

#[test]
fn vec_cons_test_arity_too_few() {
    let args: Vec<StahlVal> = vec![];
    let res = VectorOperations::vec_cons(&args);
    assert!(res.is_err());
}

#[test]
fn vec_cons_test_arity_too_many() {
    let args = vec![s("foo"), s("foo"), s("foo")];
    let res = VectorOperations::vec_cons(&args);
    assert!(res.is_err());
}

#[test]
fn vec_cons_pair() {
    let args = vec![s("foo"), s("bar")];
    let res = VectorOperations::vec_cons(&args);
    let expected = StahlVal::VectorV(vec![s("foo"), s("bar")]);
    assert_eq!(res.unwrap(), expected);
}

#[test]
fn vec_cons_elem_vector() {
    let args = vec![s("foo"), StahlVal::VectorV(vec![s("bar"), s("baz")])];
    let res = VectorOperations::vec_cons(&args);
    let expected = StahlVal::VectorV(vec![s("foo"), s("bar"), s("baz")]);
    assert_eq!(res.unwrap(), expected);
}

#[test]
fn vec_car_arity_too_few() {
    let args: Vec<StahlVal> = vec![];
    let res = VectorOperations::vec_car(&args);
    assert!(res.is_err());
}

#[test]
fn vec_car_arity_too_many() {
    let args = vec![s("foo"), s("bar")];
    let res = VectorOperations::vec_car(&args);
    assert!(res.is_err());
}

#[test]
fn vec_car_bad_input() {
    let args = vec![s("foo")];
    let res = VectorOperations::vec_car(&args);
    assert!(res.is_err());
}

#[test]
fn vec_car_normal_input() {
    let args = vec![StahlVal::VectorV(vec![s("foo"), s("bar")])];
    let res = VectorOperations::vec_car(&args);
    assert_eq!(res.unwrap(), s("foo"));
}

#[test]
fn vec_cdr_arity_too_few() {
    let args: Vec<StahlVal> = vec![];
    let res = VectorOperations::vec_cdr(&args);
    assert!(res.is_err());
}

#[test]
fn vec_cdr_arity_too_many() {
    let args = vec![s("foo"), s("bar")];
    let res = VectorOperations::vec_cdr(&args);
    assert!(res.is_err());
}

#[test]
fn vec_cdr_bad_input() {
    let args = vec![num(1.0)];
    let res = VectorOperations::vec_cdr(&args);
    assert!(res.is_err());
}

#[test]
fn vec_cdr_normal_input() {
    let args = vec![StahlVal::VectorV(vec![s("foo"), s("bar")])];
    let res = VectorOperations::vec_cdr(&args);
    let expected = StahlVal::VectorV(vec![s("bar")]);
    assert_eq!(res.unwrap(), expected);
}

#[test]
fn vec_cdr_empty_list() {
    let args = vec![StahlVal::VectorV(vec![])];
    let res = VectorOperations::vec_cdr(&args);
    assert!(res.is_err());
}

#[test]
fn list_vec_arity() {
    let args: Vec<StahlVal> = vec![];
    let res = VectorOperations::list_vec_null(&args);
    assert!(res.is_err());
}

#[test]
fn list_vec_anything_but_null() {
    let args = vec![s("foo")];
    let res = VectorOperations::list_vec_null(&args);
    assert_eq!(res.unwrap(), StahlVal::BoolV(false));
}

#[test]
fn list_vec_non_empty_vec() {
    let args = vec![StahlVal::VectorV(vec![s("foo"), s("bar")])];
    let res = VectorOperations::list_vec_null(&args);
    assert_eq!(res.unwrap(), StahlVal::BoolV(false));
}

#[test]
fn list_vec_empty_vec() {
    let args = vec![StahlVal::VectorV(vec![])];
    let res = VectorOperations::list_vec_null(&args);
    assert_eq!(res.unwrap(), StahlVal::BoolV(true));
}

#[test]
fn car_error_kinds() {
    assert_eq!(VectorOperations::vec_car(&[]).unwrap_err().kind, ErrorKind::ArityMismatch);
    assert_eq!(VectorOperations::vec_car(&[s("x")]).unwrap_err().kind, ErrorKind::TypeMismatch);
    assert_eq!(
        VectorOperations::vec_car(&[StahlVal::VectorV(vec![])]).unwrap_err().kind,
        ErrorKind::ContractViolation
    );
}

#[test]
fn range_with_negative_start_is_empty() {
    let res = VectorOperations::vec_range(&[StahlVal::IntV(-2), StahlVal::IntV(3)]).unwrap();
    assert_eq!(res, StahlVal::VectorV(vec![]));
}

#[test]
fn immutable_vector_edits() {
    let v = StahlVal::VectorV(ints(&[1, 2, 3]));
    assert_eq!(immutable_vector_set(&v, 1, StahlVal::IntV(9)).unwrap(), StahlVal::VectorV(ints(&[1, 9, 3])));
    assert_eq!(immutable_vector_push_front(&v, StahlVal::IntV(0)).unwrap(), StahlVal::VectorV(ints(&[0, 1, 2, 3])));
    let popped = immutable_vector_pop_back(&v).unwrap();
    match popped {
        StahlVal::Pair(p) => {
            assert_eq!(p.car, StahlVal::IntV(3));
            assert_eq!(p.cdr, StahlVal::VectorV(ints(&[1, 2])));
        }
        _ => panic!("expected a pair"),
    }
    assert_eq!(immutable_vector_pop_back(&StahlVal::VectorV(vec![])).unwrap(), StahlVal::BoolV(false));
    assert_eq!(immutable_vector_take(&v, 2).unwrap(), StahlVal::VectorV(ints(&[1, 2])));
    assert_eq!(immutable_vector_drop(&v, 2).unwrap(), StahlVal::VectorV(ints(&[3])));
    let joined = immutable_vector_append(&[v.clone(), StahlVal::VectorV(ints(&[4]))]).unwrap();
    assert_eq!(joined, StahlVal::VectorV(ints(&[1, 2, 3, 4])));
}

#[test]
fn make_vector_fills_the_heap() {
    let mut heap = Heap::new();
    let v = make_vector(&mut heap, &[StahlVal::IntV(3), StahlVal::IntV(7)]).unwrap();
    match v {
        StahlVal::MutableVector(r) => {
            assert_eq!(mut_vec_length(&heap, r), StahlVal::IntV(3));
        }
        _ => panic!("expected a mutable vector"),
    }
}

#[test]
fn take_then_drop_rebuilds_the_vector() {
    let v = StahlVal::VectorV(ints(&[5, 6, 7, 8]));
    for n in 0..6 {
        let front = immutable_vector_take(&v, n).unwrap();
        let back = immutable_vector_drop(&v, n).unwrap();
        let joined = immutable_vector_append(&[front, back]).unwrap();
        assert_eq!(joined, v);
    }
}

#[test]
fn car_and_cdr_of_cons() {
    let v = StahlVal::VectorV(vec![s("b"), s("c")]);
    let c = VectorOperations::vec_cons(&[s("a"), v.clone()]).unwrap();
    assert_eq!(VectorOperations::vec_car(&[c.clone()]).unwrap(), s("a"));
    assert_eq!(VectorOperations::vec_cdr(&[c]).unwrap(), v);
}

#[test]
fn setting_at_the_length_is_out_of_bounds() {
    let v = StahlVal::VectorV(ints(&[1, 2]));
    assert_eq!(immutable_vector_set(&v, 2, StahlVal::IntV(0)).unwrap_err().kind, ErrorKind::Generic);
    let mut heap = Heap::new();
    let r = heap.allocate_vector(ints(&[1, 2]));
    assert_eq!(stahl_core::vectors::mut_vec_set(&mut heap, r, 2, StahlVal::IntV(0)).unwrap_err().kind, ErrorKind::Generic);
    assert_eq!(stahl_core::vectors::mut_vec_set(&mut heap, r, 1, StahlVal::IntV(9)).unwrap(), StahlVal::Void);
    assert_eq!(heap.vector_items(r), ints(&[1, 9]));
}

#[test]
fn bounds_of_a_copy() {
    let args = [StahlVal::IntV(1), StahlVal::IntV(3)];
    assert_eq!(stahl_core::vectors::bounds(&args, 0, 5).unwrap(), (1, 3));
    assert_eq!(stahl_core::vectors::bounds(&args, 0, 2).unwrap_err().kind, ErrorKind::ContractViolation);
}
