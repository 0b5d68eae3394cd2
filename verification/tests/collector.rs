use stahl_core::collector::mark_from_roots;
use stahl_core::heap::Heap;
use stahl_core::values::{Pair, StahlVal};

#[test]
fn marks_exactly_what_the_roots_reach() {
    let mut heap = Heap::new();
    // box 0 holds 1; box 1 holds a handle to box 0; box 2 is unreachable.
    let b0 = heap.allocate(StahlVal::IntV(1));
    let b1 = heap.allocate(StahlVal::HeapAllocated(b0));
    let _b2 = heap.allocate(StahlVal::IntV(3));
    // vector 0 holds a list with a handle to box 1; vector 1 refers to itself only.
    let v0 = heap.allocate_vector(vec![StahlVal::ListV(vec![StahlVal::HeapAllocated(b1)])]);
    let v1 = heap.allocate_vector(vec![]);
    heap.vector_push(v1, StahlVal::MutableVector(v1));
    let root = StahlVal::Pair(Box::new(Pair { car: StahlVal::IntV(0), cdr: StahlVal::MutableVector(v0) }));
    mark_from_roots(&mut heap, &[root]);
    let boxes: Vec<bool> = heap.values.iter().map(|c| c.reachable).collect();
    let vectors: Vec<bool> = heap.vectors.iter().map(|c| c.reachable).collect();
    assert_eq!(boxes, vec![true, true, false]);
    assert_eq!(vectors, vec![true, false]);
}

#[test]
fn cycles_and_stale_marks() {
    let mut heap = Heap::new();
    let v0 = heap.allocate_vector(vec![]);
    heap.vector_push(v0, StahlVal::MutableVector(v0));
    let b0 = heap.allocate(StahlVal::IntV(7));
    mark_from_roots(&mut heap, &[StahlVal::MutableVector(v0), StahlVal::HeapAllocated(b0)]);
    assert!(heap.vectors[0].reachable && heap.values[0].reachable);
    // Without roots every mark is cleared.
    mark_from_roots(&mut heap, &[]);
    assert!(!heap.vectors[0].reachable && !heap.values[0].reachable);
    assert_eq!(heap.vector_len(v0), 1);
}
