//! Heap cells: allocations with a reachability mark, handles to them, and a root table.
use vstd::prelude::*;

use crate::values::{clone_vals, lemma_vals_add, lemma_vals_push, lemma_vals_update, view_seq, SVal, StahlVal};

verus! {

broadcast use crate::values::group_vals;

/// The kinds of value that live in heap cells.
pub trait HeapAble {

}

impl HeapAble for StahlVal {

}

impl HeapAble for Vec<StahlVal> {

}

/// A heap allocation: a value and the mark that the collector sets on reachable cells.
#[derive(Clone, Debug)]
pub struct HeapAllocated<T> {
    pub reachable: bool,
    pub value: T,
}

impl<T> HeapAllocated<T> {
    /// A fresh, unmarked allocation of `value`.
    pub fn new(value: T) -> (r: Self)
        ensures
            r.value == value,
            !r.reachable,
    {
        HeapAllocated { reachable: false, value }
    }

    pub fn is_reachable(&self) -> (r: bool)
        ensures
            r == self.reachable,
    {
        self.reachable
    }

    pub fn mark_reachable(&mut self)
        ensures
            final(self).reachable,
            final(self).value == old(self).value,
    {
        self.reachable = true;
    }

    pub fn reset(&mut self)
        ensures
            !final(self).reachable,
            final(self).value == old(self).value,
    {
        self.reachable = false;
    }
}

/// A handle to a cell of a [`Heap`].
#[derive(Clone, Copy, Debug, PartialEq, Eq, Structural)]
pub struct HeapRef {
    pub index: usize,
}

/// The cells that handles refer to: boxes holding one value, and growable vectors.
#[derive(Debug)]
pub struct Heap {
    pub values: Vec<HeapAllocated<StahlVal>>,
    pub vectors: Vec<HeapAllocated<Vec<StahlVal>>>,
}

impl Heap {
    /// Whether `r` names a box of this heap.
    pub open spec fn has_value(&self, r: HeapRef) -> bool {
        r.index < self.values@.len()
    }

    /// Whether `r` names a vector of this heap.
    pub open spec fn has_vector(&self, r: HeapRef) -> bool {
        r.index < self.vectors@.len()
    }

    /// The content of the box `r`.
    pub open spec fn value_of(&self, r: HeapRef) -> SVal {
        self.values@[r.index as int].value@
    }

    /// The content of the vector `r`.
    pub open spec fn vector_of(&self, r: HeapRef) -> Seq<SVal> {
        self.vector_at(r.index as nat)
    }

    /// The content of the vector with number `n`.
    pub open spec fn vector_at(&self, n: nat) -> Seq<SVal> {
        view_seq(self.vectors@[n as int].value@)
    }

    /// Whether the two heaps agree on every vector but `r`, and have as many of each kind.
    pub open spec fn same_except_vector(&self, other: &Heap, r: HeapRef) -> bool {
        &&& self.values@ == other.values@
        &&& self.vectors@.len() == other.vectors@.len()
        &&& forall|i: int|
            0 <= i < self.vectors@.len() && i != r.index ==> #[trigger] self.vectors@[i]
                == other.vectors@[i]
    }

    /// Whether `self` is `old` with the vector `r` now holding `items`, and nothing else changed.
    pub open spec fn updates_vector(&self, old: &Heap, r: HeapRef, items: Seq<SVal>) -> bool {
        &&& old.has_vector(r)
        &&& self.same_except_vector(old, r)
        &&& self.vector_of(r) == items
        &&& self.vectors@[r.index as int].reachable == old.vectors@[r.index as int].reachable
    }

    /// Whether `self` is `old` with one more vector, holding `items`, at the end.
    pub open spec fn allocates_vector(&self, old: &Heap, items: Seq<SVal>) -> bool {
        &&& self.values@ == old.values@
        &&& self.vectors@.len() == old.vectors@.len() + 1
        &&& self.vectors@.subrange(0, old.vectors@.len() as int) == old.vectors@
        &&& self.vector_at(old.vectors@.len()) == items
        &&& !self.vectors@[old.vectors@.len() as int].reachable
    }

    /// Updating the same vector twice is one update.
    pub proof fn lemma_updates_trans(h2: &Heap, h1: &Heap, h0: &Heap, r: HeapRef, x1: Seq<SVal>, x2: Seq<SVal>)
        requires
            h1.updates_vector(h0, r, x1),
            h2.updates_vector(h1, r, x2),
        ensures
            h2.updates_vector(h0, r, x2),
    {
        assert forall|i: int| 0 <= i < h2.vectors@.len() && i != r.index implies #[trigger] h2.vectors@[i]
            == h0.vectors@[i] by {
            assert(h2.vectors@[i] == h1.vectors@[i]);
        }
    }

    /// An empty heap.
    pub fn new() -> (h: Heap)
        ensures
            h.values@.len() == 0,
            h.vectors@.len() == 0,
    {
        Heap { values: Vec::new(), vectors: Vec::new() }
    }

    /// Allocates a box holding `value`.
    pub fn allocate(&mut self, value: StahlVal) -> (r: HeapRef)
        ensures
            r.index == old(self).values@.len(),
            final(self).values@ == old(self).values@.push(HeapAllocated::new_spec(value)),
            final(self).vectors@ == old(self).vectors@,
    {
        let r = HeapRef { index: self.values.len() };
        self.values.push(HeapAllocated::new(value));
        r
    }

    /// Allocates a vector holding `items`.
    pub fn allocate_vector(&mut self, items: Vec<StahlVal>) -> (r: HeapRef)
        ensures
            r.index == old(self).vectors@.len(),
            final(self).vectors@ == old(self).vectors@.push(HeapAllocated::new_spec(items)),
            final(self).values@ == old(self).values@,
    {
        let r = HeapRef { index: self.vectors.len() };
        self.vectors.push(HeapAllocated::new(items));
        r
    }

    /// Allocates a vector holding `items`, and gives the value that refers to it.
    pub fn new_vector(&mut self, items: Vec<StahlVal>) -> (v: StahlVal)
        ensures
            final(self).allocates_vector(old(self), view_seq(items@)),
            v@ == SVal::MutVector(old(self).vectors@.len()),
    {
        let r = self.allocate_vector(items);
        assert(self.vectors@.subrange(0, old(self).vectors@.len() as int) =~= old(self).vectors@);
        StahlVal::MutableVector(r)
    }

    /// The number of elements of the vector `r`.
    pub fn vector_len(&self, r: HeapRef) -> (n: usize)
        requires
            self.has_vector(r),
        ensures
            n == self.vector_of(r).len(),
    {
        self.vectors[r.index].value.len()
    }

    /// A copy of the element `i` of the vector `r`.
    pub fn vector_get(&self, r: HeapRef, i: usize) -> (v: StahlVal)
        requires
            self.has_vector(r),
            i < self.vector_of(r).len(),
        ensures
            v@ == self.vector_of(r)[i as int],
    {
        self.vectors[r.index].value[i].clone()
    }

    /// A copy of the elements of the vector `r`.
    pub fn vector_items(&self, r: HeapRef) -> (v: Vec<StahlVal>)
        requires
            self.has_vector(r),
        ensures
            view_seq(v@) == self.vector_of(r),
    {
        clone_vals(&self.vectors[r.index].value)
    }

    /// Replaces the elements of the vector `r` by `items`, and gives back the elements it had.
    pub fn vector_replace(&mut self, r: HeapRef, items: Vec<StahlVal>) -> (old_items: Vec<StahlVal>)
        requires
            old(self).has_vector(r),
        ensures
            view_seq(old_items@) == old(self).vector_of(r),
            final(self).vector_of(r) == view_seq(items@),
            final(self).vectors@[r.index as int].reachable == old(self).vectors@[r.index as int].reachable,
            final(self).same_except_vector(old(self), r),
    {
        let i = r.index;
        let mut cell = HeapAllocated { reachable: false, value: Vec::new() };
        std::mem::swap(&mut cell, &mut self.vectors[i]);
        let old_items = cell.value;
        self.vectors.set(i, HeapAllocated { reachable: cell.reachable, value: items });
        old_items
    }
}

impl Heap {
    /// Pushes `value` at the back of the vector `r`.
    pub fn vector_push(&mut self, r: HeapRef, value: StahlVal)
        requires
            old(self).has_vector(r),
        ensures
            final(self).updates_vector(old(self), r, old(self).vector_of(r).push(value@)),
    {
        let mut items = self.vector_replace(r, Vec::new());
        proof {
            lemma_vals_push(items@, value);
        }
        items.push(value);
        let _ = self.vector_replace(r, items);
    }

    /// Stores `value` at position `i` of the vector `r`.
    pub fn vector_set(&mut self, r: HeapRef, i: usize, value: StahlVal)
        requires
            old(self).has_vector(r),
            i < old(self).vector_of(r).len(),
        ensures
            final(self).updates_vector(old(self), r, old(self).vector_of(r).update(i as int, value@)),
    {
        let mut items = self.vector_replace(r, Vec::new());
        proof {
            lemma_vals_update(items@, i as int, value);
        }
        items.set(i, value);
        let _ = self.vector_replace(r, items);
    }

    /// Removes the last element of the vector `r`, if any, and gives it back.
    pub fn vector_pop(&mut self, r: HeapRef) -> (last: Option<StahlVal>)
        requires
            old(self).has_vector(r),
        ensures
            old(self).vector_of(r).len() == 0 ==> last is None && final(self).updates_vector(
                old(self),
                r,
                old(self).vector_of(r),
            ),
            old(self).vector_of(r).len() > 0 ==> (last matches Some(v) && v@ == old(self).vector_of(
                r,
            ).last()) && final(self).updates_vector(old(self), r, old(self).vector_of(r).drop_last()),
    {
        let mut items = self.vector_replace(r, Vec::new());
        let ghost before = items@;
        let last = items.pop();
        proof {
            if before.len() > 0 {
                assert(before =~= items@.push(before.last()));
                lemma_vals_push(items@, before.last());
                assert(view_seq(before).drop_last() =~= view_seq(items@));
            }
        }
        let _ = self.vector_replace(r, items);
        last
    }

    /// Moves every element of the vector `other` to the back of the vector `r`, leaving
    /// `other` empty.
    pub fn vector_append(&mut self, r: HeapRef, other: HeapRef)
        requires
            old(self).has_vector(r),
            old(self).has_vector(other),
            r.index != other.index,
        ensures
            final(self).vector_of(r) == old(self).vector_of(r) + old(self).vector_of(other),
            final(self).vector_of(other) == Seq::<SVal>::empty(),
            final(self).values@ == old(self).values@,
            final(self).vectors@.len() == old(self).vectors@.len(),
            final(self).vectors@[r.index as int].reachable == old(self).vectors@[r.index as int].reachable,
            final(self).vectors@[other.index as int].reachable == old(self).vectors@[other.index as int].reachable,
            forall|i: int|
                0 <= i < old(self).vectors@.len() && i != r.index && i != other.index
                    ==> #[trigger] final(self).vectors@[i] == old(self).vectors@[i],
    {
        let mut moved = self.vector_replace(other, Vec::new());
        let mut items = self.vector_replace(r, Vec::new());
        proof {
            lemma_vals_add(items@, moved@);
        }
        items.append(&mut moved);
        let _ = self.vector_replace(r, items);
        assert(view_seq(Seq::<StahlVal>::empty()) =~= Seq::<SVal>::empty());
    }

    /// Empties the vector `r`.
    pub fn vector_clear(&mut self, r: HeapRef)
        requires
            old(self).has_vector(r),
        ensures
            final(self).updates_vector(old(self), r, Seq::empty()),
    {
        let _ = self.vector_replace(r, Vec::new());
        assert(view_seq(Seq::<StahlVal>::empty()) =~= Seq::<SVal>::empty());
    }
}

impl<T> HeapAllocated<T> {
    pub open spec fn new_spec(value: T) -> HeapAllocated<T> {
        HeapAllocated { reachable: false, value }
    }
}

impl HeapRef {
    /// A copy of the value in the box this handle names.
    pub fn get(&self, heap: &Heap) -> (v: StahlVal)
        requires
            heap.has_value(*self),
        ensures
            v@ == heap.value_of(*self),
    {
        heap.values[self.index].value.clone()
    }

    /// The number that identifies the cell of this handle.
    pub fn as_ptr_usize(&self) -> (n: usize)
        ensures
            n == self.index,
    {
        self.index
    }

    /// Stores `value` in the box this handle names, and gives back the value it replaces.
    pub fn set(&mut self, heap: &mut Heap, value: StahlVal) -> (prev: StahlVal)
        requires
            old(heap).has_value(*old(self)),
        ensures
            *final(self) == *old(self),
            prev@ == old(heap).value_of(*old(self)),
            final(heap).value_of(*old(self)) == value@,
            final(heap).values@.len() == old(heap).values@.len(),
            final(heap).vectors@ == old(heap).vectors@,
            forall|i: int|
                0 <= i < old(heap).values@.len() && i != old(self).index ==> #[trigger] final(heap).values@[i]
                    == old(heap).values@[i],
    {
        self.set_and_return(heap, value)
    }

    /// Stores `value` in the box this handle names, and gives back the value it replaces.
    pub fn set_and_return(&self, heap: &mut Heap, value: StahlVal) -> (prev: StahlVal)
        requires
            old(heap).has_value(*self),
        ensures
            prev@ == old(heap).value_of(*self),
            final(heap).value_of(*self) == value@,
            final(heap).values@[self.index as int].reachable == old(heap).values@[self.index as int].reachable,
            final(heap).values@.len() == old(heap).values@.len(),
            final(heap).vectors@ == old(heap).vectors@,
            forall|i: int|
                0 <= i < old(heap).values@.len() && i != self.index ==> #[trigger] final(heap).values@[i]
                    == old(heap).values@[i],
    {
        let i = self.index;
        let mut cell = HeapAllocated { reachable: false, value: StahlVal::Void };
        std::mem::swap(&mut cell, &mut heap.values[i]);
        let prev = cell.value;
        heap.values.set(i, HeapAllocated { reachable: cell.reachable, value });
        prev
    }

    /// Whether the two handles name the same cell.
    pub fn ptr_eq(&self, other: &Self) -> (r: bool)
        ensures
            r == (self.index == other.index),
    {
        self.index == other.index
    }
}


/// The receipt for a rooted value: the generation and the position it was rooted at.
#[derive(Debug, PartialEq, Eq, Structural)]
pub struct RootToken {
    pub generation: usize,
    pub offset: usize,
}

/// Values kept alive from outside the runtime, each under the token it was rooted with.
#[derive(Debug)]
pub struct Roots {
    pub generation: usize,
    pub offset: usize,
    pub roots: Vec<(usize, usize, StahlVal)>,
}

/// The rooted values by token, a later entry for a token overriding an earlier one.
pub open spec fn root_map(es: Seq<(usize, usize, StahlVal)>) -> Map<(usize, usize), SVal>
    decreases es.len(),
{
    if es.len() == 0 {
        Map::empty()
    } else {
        root_map(es.drop_last()).insert((es.last().0, es.last().1), es.last().2@)
    }
}

/// The entries of `es` without those of token `k`.
pub open spec fn without_token(es: Seq<(usize, usize, StahlVal)>, k: (usize, usize)) -> Seq<(usize, usize, StahlVal)>
    decreases es.len(),
{
    if es.len() == 0 {
        es
    } else if (es.last().0, es.last().1) == k {
        without_token(es.drop_last(), k)
    } else {
        without_token(es.drop_last(), k).push(es.last())
    }
}

/// Dropping the entries of a token removes the token from the rooted values.
proof fn lemma_without_token(es: Seq<(usize, usize, StahlVal)>, k: (usize, usize))
    ensures
        root_map(without_token(es, k)) == root_map(es).remove(k),
    decreases es.len(),
{
    if es.len() == 0 {
        assert(root_map(es).remove(k) =~= Map::empty());
    } else {
        lemma_without_token(es.drop_last(), k);
        let d = es.drop_last();
        let kl = (es.last().0, es.last().1);
        if kl == k {
            assert(root_map(d).insert(kl, es.last().2@).remove(k) =~= root_map(d).remove(k));
        } else {
            let w = without_token(d, k);
            assert(w.push(es.last()).drop_last() =~= w);
            assert(root_map(w.push(es.last())) == root_map(w).insert(kl, es.last().2@));
            assert(root_map(d).remove(k).insert(kl, es.last().2@) =~= root_map(d).insert(kl, es.last().2@).remove(k));
        }
    }
}

impl Roots {
    /// Whether every rooted token was handed out before the current position.
    pub open spec fn wf(&self) -> bool {
        forall|k: (usize, usize)| #[trigger] root_map(self.roots@).contains_key(k) ==> k.1 < self.offset
    }

    /// The rooted values by token.
    pub open spec fn rooted(&self) -> Map<(usize, usize), SVal> {
        root_map(self.roots@)
    }

    /// No rooted value, at generation 0 and position 0.
    pub fn new() -> (r: Roots)
        ensures
            r.rooted() == Map::<(usize, usize), SVal>::empty(),
            r.generation == 0,
            r.offset == 0,
            r.wf(),
    {
        let r = Roots { generation: 0, offset: 0, roots: Vec::new() };
        assert(r.rooted() =~= Map::<(usize, usize), SVal>::empty());
        r
    }

    /// Keeps `value` alive under a fresh token, and gives the token.
    pub fn root(&mut self, value: StahlVal) -> (token: RootToken)
        requires
            old(self).offset < usize::MAX,
        ensures
            token.generation == old(self).generation,
            token.offset == old(self).offset,
            final(self).generation == old(self).generation,
            final(self).offset == old(self).offset + 1,
            final(self).rooted() == old(self).rooted().insert((token.generation, token.offset), value@),
            old(self).wf() ==> final(self).wf(),
            old(self).wf() ==> !old(self).rooted().contains_key((token.generation, token.offset)),
    {
        let generation = self.generation;
        let offset = self.offset;
        self.offset = self.offset + 1;
        let ghost r0 = self.roots@;
        self.roots.push((generation, offset, value));
        assert(self.roots@.drop_last() =~= r0);
        proof {
            if old(self).wf() {
                assert forall|k: (usize, usize)| #[trigger] root_map(self.roots@).contains_key(k) implies k.1 < self.offset by {
                    if k != (generation, offset) {
                        assert(root_map(r0).contains_key(k));
                    }
                }
            }
        }
        RootToken { generation, offset }
    }

    /// Lets go of the value rooted under `token`.
    pub fn free(&mut self, token: &RootToken)
        ensures
            final(self).generation == old(self).generation,
            final(self).offset == old(self).offset,
            final(self).rooted() == old(self).rooted().remove((token.generation, token.offset)),
            old(self).wf() ==> final(self).wf(),
    {
        let ghost k = (token.generation, token.offset);
        let ghost es = self.roots@;
        let mut kept: Vec<(usize, usize, StahlVal)> = Vec::new();
        let mut old_roots: Vec<(usize, usize, StahlVal)> = Vec::new();
        std::mem::swap(&mut old_roots, &mut self.roots);
        let n = old_roots.len();
        let mut rev: Vec<(usize, usize, StahlVal)> = Vec::new();
        while old_roots.len() > 0
            invariant
                old_roots@.len() + rev@.len() == n,
                n == es.len(),
                old_roots@ == es.take(old_roots@.len() as int),
                forall|j: int| 0 <= j < rev@.len() ==> #[trigger] rev@[j] == es[n - 1 - j],
            decreases old_roots@.len(),
        {
            let e = old_roots.pop().unwrap();
            rev.push(e);
        }
        let mut i: usize = 0;
        assert(without_token(es.take(0), k) =~= kept@);
        while rev.len() > 0
            invariant
                rev@.len() + i == n,
                n == es.len(),
                forall|j: int| 0 <= j < rev@.len() ==> #[trigger] rev@[j] == es[n - 1 - j],
                kept@ == without_token(es.take(i as int), k),
                k == (token.generation, token.offset),
            decreases rev@.len(),
        {
            let e = rev.pop().unwrap();
            assert(e == es[i as int]);
            assert(es.take(i + 1).drop_last() =~= es.take(i as int));
            assert(es.take(i + 1).last() == es[i as int]);
            let ghost before = kept@;
            if !(e.0 == token.generation && e.1 == token.offset) {
                kept.push(e);
                assert(kept@ == before.push(es[i as int]));
            }
            i = i + 1;
        }
        assert(es.take(n as int) =~= es);
        self.roots = kept;
        proof {
            lemma_without_token(es, k);
        }
    }

    /// Moves on to the next generation.
    pub fn increment_generation(&mut self)
        requires
            old(self).generation < usize::MAX,
        ensures
            final(self).generation == old(self).generation + 1,
            final(self).offset == old(self).offset,
            final(self).rooted() == old(self).rooted(),
            old(self).wf() ==> final(self).wf(),
    {
        self.generation = self.generation + 1;
    }
}

impl StahlVal {
    /// Keeps a copy of this value alive in `roots`, and gives the token to let it go with.
    pub fn mark_rooted(&self, roots: &mut Roots) -> (token: RootToken)
        requires
            old(roots).offset < usize::MAX,
        ensures
            token.generation == old(roots).generation,
            token.offset == old(roots).offset,
            final(roots).offset == old(roots).offset + 1,
            final(roots).generation == old(roots).generation,
            final(roots).rooted() == old(roots).rooted().insert((token.generation, token.offset), self@),
            old(roots).wf() ==> final(roots).wf(),
    {
        roots.root(self.clone())
    }
}

/// A value rooted and then let go of is no longer rooted, and the others stay as they were.
pub proof fn lemma_root_then_free(m: Map<(usize, usize), SVal>, k: (usize, usize), v: SVal)
    requires
        !m.contains_key(k),
    ensures
        m.insert(k, v).remove(k) == m,
        m.insert(k, v)[k] == v,
{
    assert(m.insert(k, v).remove(k) =~= m);
}

/// Rooting a value in a well-formed table gives a token unlike that of any value still
/// rooted, and keeps every value rooted before.
pub proof fn lemma_fresh_token(r0: Roots, r1: Roots, token: RootToken, v: SVal, live: RootToken)
    requires
        r0.wf(),
        r0.rooted().contains_key((live.generation, live.offset)),
        r1.rooted() == r0.rooted().insert((token.generation, token.offset), v),
        !r0.rooted().contains_key((token.generation, token.offset)),
    ensures
        token != live,
        r1.rooted().contains_key((live.generation, live.offset)),
{
}

} // verus!
