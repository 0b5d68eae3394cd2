use stahl_core::heap::{Heap, HeapAllocated, Roots};
use stahl_core::values::StahlVal;

#[test]
fn check_size_of_heap_allocated_value() {
    println!("{:?}", std::mem::size_of::<HeapAllocated<StahlVal>>());
}

#[test]
fn heap_allocated_reachability() {
    let mut cell = HeapAllocated::new(StahlVal::IntV(5));
    assert!(!cell.is_reachable());
    cell.mark_reachable();
    assert!(cell.is_reachable());
    cell.reset();
    assert!(!cell.is_reachable());
}

#[test]
fn heap_ref_reads_back_what_was_set() {
    let mut heap = Heap::new();
    let mut r = heap.allocate(StahlVal::IntV(1));
    assert_eq!(r.get(&heap), StahlVal::IntV(1));
    let prev = r.set(&mut heap, StahlVal::IntV(2));
    assert_eq!(prev, StahlVal::IntV(1));
    assert_eq!(r.get(&heap), StahlVal::IntV(2));
    let other = heap.allocate(StahlVal::IntV(2));
    assert!(r.ptr_eq(&r.clone()));
    assert!(!r.ptr_eq(&other));
}

#[test]
fn heap_vectors_push_and_pop() {
    let mut heap = Heap::new();
    let v = heap.allocate_vector(vec![StahlVal::IntV(1)]);
    heap.vector_push(v, StahlVal::IntV(2));
    assert_eq!(heap.vector_len(v), 2);
    assert_eq!(heap.vector_get(v, 1), StahlVal::IntV(2));
    assert_eq!(heap.vector_pop(v), Some(StahlVal::IntV(2)));
    assert_eq!(heap.vector_items(v), vec![StahlVal::IntV(1)]);
    heap.vector_clear(v);
    assert_eq!(heap.vector_len(v), 0);
}

#[test]
fn rooting_then_freeing_forgets_the_value() {
    let mut roots = Roots::new();
    let first = roots.root(StahlVal::IntV(1));
    let second = roots.root(StahlVal::IntV(2));
    assert!(first != second);
    roots.free(&first);
    roots.free(&second);
    roots.increment_generation();
    let third = roots.root(StahlVal::IntV(3));
    assert!(third != first);
}
