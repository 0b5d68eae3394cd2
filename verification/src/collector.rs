//! The marking pass of the collector: which heap cells the roots reach.
use vstd::prelude::*;

use crate::heap::{Heap, HeapAllocated};
use crate::transducers::Reducer;
use crate::values::{lemma_vals_add, lemma_vals_push, vals, Pair, SReducer, SVal, StahlVal};

verus! {

/// A cell of a [`Heap`]: a box or a vector, by number.
pub enum HeapCell {
    Boxed(nat),
    Vector(nat),
}

/// A node of the graph the collector walks: a value, or a heap cell.
pub enum Node {
    Val(SVal),
    Cell(HeapCell),
}

/// Whether the cell is one of the heap's.
pub open spec fn cell_exists(h: Heap, c: HeapCell) -> bool {
    match c {
        HeapCell::Boxed(n) => n < h.values@.len(),
        HeapCell::Vector(n) => n < h.vectors@.len(),
    }
}

/// Whether the cell carries the reachability mark.
pub open spec fn cell_marked(h: Heap, c: HeapCell) -> bool {
    match c {
        HeapCell::Boxed(n) => h.values@[n as int].reachable,
        HeapCell::Vector(n) => h.vectors@[n as int].reachable,
    }
}

/// The values a cell holds: the value of a box, the elements of a vector.
pub open spec fn cell_contents(h: Heap, c: HeapCell) -> Seq<SVal> {
    match c {
        HeapCell::Boxed(n) => seq![h.values@[n as int].value@],
        HeapCell::Vector(n) => h.vector_at(n),
    }
}

/// The cell a value is a handle to, if it is one.
pub open spec fn refers_to(v: SVal) -> Option<HeapCell> {
    match v {
        SVal::MutVector(n) => Some(HeapCell::Vector(n)),
        SVal::Boxed(n) => Some(HeapCell::Boxed(n)),
        _ => None,
    }
}

/// The values a value holds directly: the elements of lists, vectors, sets and maps (each
/// map entry as a pair), the two halves of a pair or a stream, and the values a reducer
/// carries.
pub open spec fn children(v: SVal) -> Seq<SVal> {
    match v {
        SVal::List(s) => s,
        SVal::Vector(s) => s,
        SVal::HashMap(s) => s,
        SVal::HashSet(s) => s,
        SVal::Pair(a, b) => seq![*a, *b],
        SVal::Stream(a, b, _) => seq![*a, *b],
        SVal::Reducer(SReducer::ForEach(f)) => seq![*f],
        SVal::Reducer(SReducer::Generic(a, b)) => seq![*a, *b],
        _ => seq![],
    }
}

/// An edge of the graph: from a value to what it holds and to the cell it is a handle to,
/// and from a cell of the heap to the values in it.
pub open spec fn step(h: Heap, a: Node, b: Node) -> bool {
    match (a, b) {
        (Node::Val(v), Node::Val(w)) => children(v).contains(w),
        (Node::Val(v), Node::Cell(c)) => refers_to(v) == Some(c) && cell_exists(h, c),
        (Node::Cell(c), Node::Val(w)) => cell_exists(h, c) && cell_contents(h, c).contains(w),
        _ => false,
    }
}

/// Whether the `i`-th node of the path leads to the next.
pub open spec fn linked(h: Heap, p: Seq<Node>, i: int) -> bool {
    step(h, p[i], p[i + 1])
}

/// Whether `p` is a path of the graph from one of the roots.
pub open spec fn is_path(h: Heap, roots: Seq<SVal>, p: Seq<Node>) -> bool {
    &&& p.len() > 0
    &&& p[0] matches Node::Val(r) && roots.contains(r)
    &&& forall|i: int| 0 <= i < p.len() - 1 ==> #[trigger] linked(h, p, i)
}

/// Whether some path from the roots ends at `n`.
pub open spec fn reachable(h: Heap, roots: Seq<SVal>, n: Node) -> bool {
    exists|p: Seq<Node>| #[trigger] is_path(h, roots, p) && p.last() == n
}

/// A root is reachable.
proof fn lemma_root_reachable(h: Heap, roots: Seq<SVal>, r: SVal)
    requires
        roots.contains(r),
    ensures
        reachable(h, roots, Node::Val(r)),
{
    let p = seq![Node::Val(r)];
    assert(is_path(h, roots, p));
}

/// What a reachable node leads to is reachable.
proof fn lemma_step_reachable(h: Heap, roots: Seq<SVal>, a: Node, b: Node)
    requires
        reachable(h, roots, a),
        step(h, a, b),
    ensures
        reachable(h, roots, b),
{
    let p = choose|p: Seq<Node>| #[trigger] is_path(h, roots, p) && p.last() == a;
    let q = p.push(b);
    assert forall|i: int| 0 <= i < q.len() - 1 implies #[trigger] linked(h, q, i) by {
        if i < p.len() - 1 {
            assert(linked(h, p, i));
        }
    }
    assert(is_path(h, roots, q));
}

/// Whether a node is covered: a value among `done`, or a marked cell of the heap.
pub open spec fn covered(h: Heap, done: Set<SVal>, n: Node) -> bool {
    match n {
        Node::Val(v) => done.contains(v),
        Node::Cell(c) => cell_exists(h, c) && cell_marked(h, c),
    }
}

/// Whether the covered nodes hold the roots and are closed under the edges of `h0`, whose
/// cells are those of `h`.
pub open spec fn closed(h0: Heap, h: Heap, roots: Seq<SVal>, done: Set<SVal>) -> bool {
    &&& forall|r: SVal| roots.contains(r) ==> #[trigger] done.contains(r)
    &&& forall|a: Node, b: Node| covered(h, done, a) && #[trigger] step(h0, a, b) ==> #[trigger] covered(
        h,
        done,
        b,
    )
}

/// Every node of a path from the roots is covered by a closed set.
proof fn lemma_path_covered(h0: Heap, h: Heap, roots: Seq<SVal>, done: Set<SVal>, p: Seq<Node>, k: int)
    requires
        closed(h0, h, roots, done),
        is_path(h0, roots, p),
        0 <= k < p.len(),
    ensures
        covered(h, done, p[k]),
    decreases k,
{
    if k > 0 {
        lemma_path_covered(h0, h, roots, done, p, k - 1);
        assert(linked(h0, p, k - 1));
    } else {
        if let Node::Val(r) = p[0] {
            assert(done.contains(r));
        }
    }
}

/// A closed set of nodes holds every reachable node.
proof fn lemma_closed_reachable(h0: Heap, h: Heap, roots: Seq<SVal>, done: Set<SVal>, n: Node)
    requires
        closed(h0, h, roots, done),
        reachable(h0, roots, n),
    ensures
        covered(h, done, n),
{
    let p = choose|p: Seq<Node>| #[trigger] is_path(h0, roots, p) && p.last() == n;
    lemma_path_covered(h0, h, roots, done, p, p.len() - 1);
}

/// The number of allocations without the mark.
pub open spec fn unmarked<T>(s: Seq<HeapAllocated<T>>) -> nat
    decreases s.len(),
{
    if s.len() == 0 {
        0
    } else {
        unmarked(s.drop_last()) + if s.last().reachable {
            0nat
        } else {
            1nat
        }
    }
}

/// Marking an unmarked allocation leaves one fewer unmarked.
proof fn lemma_unmarked_update<T>(s: Seq<HeapAllocated<T>>, i: int, x: HeapAllocated<T>)
    requires
        0 <= i < s.len(),
        !s[i].reachable,
        x.reachable,
    ensures
        unmarked(s.update(i, x)) < unmarked(s),
    decreases s.len(),
{
    let t = s.update(i, x);
    if i < s.len() - 1 {
        assert(t.drop_last() =~= s.drop_last().update(i, x));
        lemma_unmarked_update(s.drop_last(), i, x);
    } else {
        assert(t.drop_last() =~= s.drop_last());
    }
}

/// The size of a value: one more than the sizes of what it holds.
pub open spec fn size(v: SVal) -> nat
    decreases v,
{
    match v {
        SVal::List(s) => 1 + sizes(s),
        SVal::Vector(s) => 1 + sizes(s),
        SVal::HashMap(s) => 1 + sizes(s),
        SVal::HashSet(s) => 1 + sizes(s),
        SVal::Pair(a, b) => 1 + size(*a) + size(*b),
        SVal::Stream(a, b, _) => 1 + size(*a) + size(*b),
        SVal::Reducer(SReducer::ForEach(f)) => 1 + size(*f),
        SVal::Reducer(SReducer::Generic(a, b)) => 1 + size(*a) + size(*b),
        _ => 1,
    }
}

/// The sum of the sizes of some values.
pub open spec fn sizes(s: Seq<SVal>) -> nat
    decreases s,
{
    if s.len() == 0 {
        0
    } else {
        sizes(s.subrange(0, s.len() - 1)) + size(s[s.len() - 1])
    }
}

proof fn lemma_sizes_add(a: Seq<SVal>, b: Seq<SVal>)
    ensures
        sizes(a + b) == sizes(a) + sizes(b),
    decreases b.len(),
{
    if b.len() > 0 {
        let c = a + b;
        assert(c.subrange(0, c.len() - 1) =~= a + b.subrange(0, b.len() - 1));
        lemma_sizes_add(a, b.subrange(0, b.len() - 1));
    } else {
        assert(a + b =~= a);
    }
}

proof fn lemma_sizes_one(a: SVal)
    ensures
        sizes(seq![a]) == size(a),
{
    let s = seq![a];
    assert(s.subrange(0, 0) =~= Seq::<SVal>::empty());
    assert(sizes(Seq::<SVal>::empty()) == 0);
    assert(s[0] == a);
}

proof fn lemma_sizes_two(a: SVal, b: SVal)
    ensures
        sizes(seq![a, b]) == size(a) + size(b),
{
    let s = seq![a, b];
    assert(s.subrange(0, 1) =~= seq![a]);
    lemma_sizes_one(a);
}

/// What a value holds is smaller than the value.
proof fn lemma_children_smaller(v: SVal)
    ensures
        sizes(children(v)) < size(v),
{
    match v {
        SVal::Pair(a, b) => {
            lemma_sizes_two(*a, *b);
        },
        SVal::Stream(a, b, _) => {
            lemma_sizes_two(*a, *b);
        },
        SVal::Reducer(SReducer::ForEach(f)) => {
            lemma_sizes_one(*f);
        },
        SVal::Reducer(SReducer::Generic(a, b)) => {
            lemma_sizes_two(*a, *b);
        },
        _ => {},
    }
}

/// Pushes a copy of each of `items` onto `out`.
fn push_copies(out: &mut Vec<StahlVal>, items: &[StahlVal])
    ensures
        vals(final(out)@) == vals(old(out)@) + vals(items@),
{
    let mut i: usize = 0;
    while i < items.len()
        invariant
            i <= items.len(),
            vals(out@) == vals(old(out)@) + vals(items@).subrange(0, i as int),
        decreases items.len() - i,
    {
        let c = items[i].clone();
        proof {
            lemma_vals_push(out@, c);
            assert(vals(items@).subrange(0, i + 1) =~= vals(items@).subrange(0, i as int).push(c@));
        }
        out.push(c);
        i = i + 1;
    }
    assert(vals(items@).subrange(0, items.len() as int) =~= vals(items@));
}

/// Pushes a copy of `v` onto `out`.
fn push_copy(out: &mut Vec<StahlVal>, v: &StahlVal)
    ensures
        vals(final(out)@) == vals(old(out)@).push(v@),
{
    let c = v.clone();
    proof {
        lemma_vals_push(out@, c);
    }
    out.push(c);
}

/// Pushes copies of the values `v` holds directly onto `out`.
fn push_children(out: &mut Vec<StahlVal>, v: &StahlVal)
    ensures
        vals(final(out)@) == vals(old(out)@) + children(v@),
{
    let ghost start = vals(out@);
    match v {
        StahlVal::ListV(l) => push_copies(out, l.as_slice()),
        StahlVal::VectorV(l) => push_copies(out, l.as_slice()),
        StahlVal::HashSetV(set) => push_copies(out, set.elems.as_slice()),
        StahlVal::HashMapV(m) => {
            let mut i: usize = 0;
            while i < m.entries.len()
                invariant
                    i <= m.entries.len(),
                    v@ == SVal::HashMap(crate::values::view_entries(m.entries@)),
                    vals(out@) == start + crate::values::view_entries(m.entries@).subrange(0, i as int),
                decreases m.entries.len() - i,
            {
                let e = StahlVal::Pair(
                    Box::new(Pair { car: m.entries[i].0.clone(), cdr: m.entries[i].1.clone() }),
                );
                proof {
                    lemma_vals_push(out@, e);
                    assert(crate::values::view_entries(m.entries@).subrange(0, i + 1)
                        =~= crate::values::view_entries(m.entries@).subrange(0, i as int).push(e@));
                }
                out.push(e);
                i = i + 1;
            }
            assert(crate::values::view_entries(m.entries@).subrange(0, m.entries.len() as int)
                =~= crate::values::view_entries(m.entries@));
        },
        StahlVal::Pair(p) => {
            push_copy(out, &p.car);
            push_copy(out, &p.cdr);
            assert(start.push(p.car@).push(p.cdr@) =~= start + children(v@));
        },
        StahlVal::StreamV(st) => {
            push_copy(out, &st.initial_value);
            push_copy(out, &st.stream_thunk);
            assert(start.push(st.initial_value@).push(st.stream_thunk@) =~= start + children(v@));
        },
        StahlVal::ReducerV(r) => match &**r {
            Reducer::ForEach(f) => {
                push_copy(out, f);
                assert(crate::values::view_reducer(**r) == SReducer::ForEach(Box::new(f@)));
                assert(children(v@) == seq![f@]);
                assert(start.push(f@) =~= start + children(v@));
            },
            Reducer::Generic(g) => {
                push_copy(out, &g.initial_value);
                push_copy(out, &g.function);
                assert(crate::values::view_reducer(**r) == SReducer::Generic(
                    Box::new(g.initial_value@),
                    Box::new(g.function@),
                ));
                assert(children(v@) == seq![g.initial_value@, g.function@]);
                assert(start.push(g.initial_value@).push(g.function@) =~= start + children(v@));
            },
            _ => {
                assert(start =~= start + children(v@));
            },
        },
        _ => {
            assert(start =~= start + children(v@));
        },
    }
}

/// Whether the two heaps have the same cells with the same contents.
pub open spec fn same_cells(h: Heap, h0: Heap) -> bool {
    &&& h.values@.len() == h0.values@.len()
    &&& h.vectors@.len() == h0.vectors@.len()
    &&& forall|i: int| 0 <= i < h.values@.len() ==> #[trigger] h.values@[i].value == h0.values@[i].value
    &&& forall|i: int| 0 <= i < h.vectors@.len() ==> #[trigger] h.vectors@[i].value == h0.vectors@[i].value
}

/// Clears the mark of every cell.
fn clear_marks(heap: &mut Heap)
    ensures
        same_cells(*final(heap), *old(heap)),
        forall|i: int| 0 <= i < final(heap).values@.len() ==> !(#[trigger] final(heap).values@[i]).reachable,
        forall|i: int| 0 <= i < final(heap).vectors@.len() ==> !(#[trigger] final(heap).vectors@[i]).reachable,
{
    let ghost h0 = *heap;
    let mut i: usize = 0;
    while i < heap.values.len()
        invariant
            i <= heap.values@.len(),
            same_cells(*heap, h0),
            heap.vectors@ == h0.vectors@,
            forall|j: int| 0 <= j < i ==> !(#[trigger] heap.values@[j]).reachable,
        decreases heap.values@.len() - i,
    {
        heap.values[i].reset();
        i = i + 1;
    }
    let mut k: usize = 0;
    while k < heap.vectors.len()
        invariant
            k <= heap.vectors@.len(),
            same_cells(*heap, h0),
            forall|j: int| 0 <= j < heap.values@.len() ==> !(#[trigger] heap.values@[j]).reachable,
            forall|j: int| 0 <= j < k ==> !(#[trigger] heap.vectors@[j]).reachable,
        decreases heap.vectors@.len() - k,
    {
        heap.vectors[k].reset();
        k = k + 1;
    }
}

/// A value waiting in the work list is the last one or stays after it is taken.
proof fn lemma_still_waiting(w: Seq<SVal>, extra: Seq<SVal>, x: SVal)
    requires
        w.len() > 0,
        w.contains(x),
    ensures
        x == w.last() || (w.drop_last() + extra).contains(x),
{
    let i = choose|i: int| 0 <= i < w.len() && w[i] == x;
    if i < w.len() - 1 {
        assert((w.drop_last() + extra)[i] == x);
    }
}

/// Every value of `extra` is in `w + extra`, and every value of `w` too.
proof fn lemma_in_appended(w: Seq<SVal>, extra: Seq<SVal>, x: SVal)
    ensures
        (w.contains(x) || extra.contains(x)) ==> (w + extra).contains(x),
{
    if w.contains(x) {
        let i = choose|i: int| 0 <= i < w.len() && w[i] == x;
        assert((w + extra)[i] == x);
    }
    if extra.contains(x) {
        let i = choose|i: int| 0 <= i < extra.len() && extra[i] == x;
        assert((w + extra)[w.len() + i] == x);
    }
}

/// The invariant of the marking loop over the heap `h`, whose cells are those of `h0`: what
/// waits and what is marked is reachable, and the values done, the marked cells and the
/// roots have everything they lead to done, marked or waiting.
pub open spec fn marking_inv(h0: Heap, h: Heap, roots: Seq<SVal>, work: Seq<SVal>, done: Set<SVal>) -> bool {
    &&& same_cells(h, h0)
    &&& forall|r: SVal| #[trigger] roots.contains(r) ==> done.contains(r) || work.contains(r)
    &&& forall|v: SVal, w: SVal|
        done.contains(v) && #[trigger] children(v).contains(w) ==> done.contains(w) || work.contains(w)
    &&& forall|v: SVal|
        #[trigger] done.contains(v) && refers_to(v) is Some && cell_exists(h0, refers_to(v)->0) ==> cell_marked(
            h,
            refers_to(v)->0,
        )
    &&& forall|c: HeapCell, w: SVal|
        cell_exists(h0, c) && cell_marked(h, c) && #[trigger] cell_contents(h0, c).contains(w) ==> done.contains(w)
            || work.contains(w)
    &&& forall|c: HeapCell| cell_exists(h0, c) && #[trigger] cell_marked(h, c) ==> reachable(h0, roots, Node::Cell(c))
    &&& forall|i: int| 0 <= i < work.len() ==> reachable(h0, roots, Node::Val(#[trigger] work[i]))
}

/// One turn of the marking loop keeps its invariant: `v`, the last value waiting, is done;
/// if it is a handle to a cell not yet marked, that cell is marked and what it holds waits
/// (`extra`); otherwise what `v` holds waits.
proof fn lemma_marking_step(
    h0: Heap,
    before: Heap,
    after: Heap,
    roots: Seq<SVal>,
    w0: Seq<SVal>,
    done: Set<SVal>,
    extra: Seq<SVal>,
)
    requires
        marking_inv(h0, before, roots, w0, done),
        w0.len() > 0,
        same_cells(after, h0),
        refers_to(w0.last()) is None ==> extra == children(w0.last()),
        refers_to(w0.last()) is Some ==> children(w0.last()).len() == 0,
        refers_to(w0.last()) is Some && cell_exists(h0, refers_to(w0.last())->0) ==> cell_marked(
            after,
            refers_to(w0.last())->0,
        ),
        forall|c: HeapCell| cell_exists(h0, c) && #[trigger] cell_marked(before, c) ==> cell_marked(after, c),
        forall|c: HeapCell|
            cell_exists(h0, c) && #[trigger] cell_marked(after, c) && !cell_marked(before, c) ==> refers_to(
                w0.last(),
            ) == Some(c) && extra == cell_contents(h0, c),
        refers_to(w0.last()) is Some && extra.len() > 0 ==> cell_exists(h0, refers_to(w0.last())->0)
            && !cell_marked(before, refers_to(w0.last())->0),
    ensures
        marking_inv(h0, after, roots, w0.drop_last() + extra, done.insert(w0.last())),
{
    let v = w0.last();
    let w1 = w0.drop_last() + extra;
    let d1 = done.insert(v);
    assert(reachable(h0, roots, Node::Val(w0[w0.len() - 1])));
    assert forall|x: SVal| done.contains(x) || w0.contains(x) implies d1.contains(x) || w1.contains(x) by {
        if !done.contains(x) {
            lemma_still_waiting(w0, extra, x);
        }
    }
    assert forall|r: SVal| #[trigger] roots.contains(r) implies d1.contains(r) || w1.contains(r) by {
        assert(done.contains(r) || w0.contains(r));
    }
    assert forall|v2: SVal, w: SVal| d1.contains(v2) && #[trigger] children(v2).contains(w) implies d1.contains(w)
        || w1.contains(w) by {
        if v2 == v {
            lemma_in_appended(w0.drop_last(), extra, w);
        } else {
            assert(done.contains(w) || w0.contains(w));
        }
    }
    assert forall|v2: SVal|
        #[trigger] d1.contains(v2) && refers_to(v2) is Some && cell_exists(h0, refers_to(v2)->0) implies cell_marked(
        after,
        refers_to(v2)->0,
    ) by {
        if v2 != v {
            assert(cell_marked(before, refers_to(v2)->0));
        }
    }
    assert forall|c: HeapCell| cell_exists(h0, c) && #[trigger] cell_marked(after, c) implies reachable(
        h0,
        roots,
        Node::Cell(c),
    ) by {
        if !cell_marked(before, c) {
            assert(step(h0, Node::Val(v), Node::Cell(c)));
            lemma_step_reachable(h0, roots, Node::Val(v), Node::Cell(c));
        }
    }
    assert forall|c: HeapCell, w: SVal|
        cell_exists(h0, c) && cell_marked(after, c) && #[trigger] cell_contents(h0, c).contains(w) implies d1.contains(w)
        || w1.contains(w) by {
        if cell_marked(before, c) {
            assert(done.contains(w) || w0.contains(w));
        } else {
            lemma_in_appended(w0.drop_last(), extra, w);
        }
    }
    assert forall|i: int| 0 <= i < w1.len() implies reachable(h0, roots, Node::Val(#[trigger] w1[i])) by {
        if i < w0.len() - 1 {
            assert(w1[i] == w0[i]);
        } else {
            let j = i - (w0.len() - 1);
            assert(w1[i] == extra[j]);
            if refers_to(v) is None {
                assert(children(v).contains(extra[j]));
                assert(step(h0, Node::Val(v), Node::Val(extra[j])));
                lemma_step_reachable(h0, roots, Node::Val(v), Node::Val(extra[j]));
            } else {
                let c = refers_to(v)->0;
                assert(step(h0, Node::Val(v), Node::Cell(c)));
                lemma_step_reachable(h0, roots, Node::Val(v), Node::Cell(c));
                assert(extra == cell_contents(h0, c)) by {
                    assert(cell_marked(after, c));
                }
                assert(cell_contents(h0, c).contains(extra[j]));
                assert(step(h0, Node::Cell(c), Node::Val(extra[j])));
                lemma_step_reachable(h0, roots, Node::Cell(c), Node::Val(extra[j]));
            }
        }
    }
}

/// When nothing waits, a cell is marked exactly when the roots reach it.
proof fn lemma_marking_done(h0: Heap, h: Heap, roots: Seq<SVal>, done: Set<SVal>, c: HeapCell)
    requires
        marking_inv(h0, h, roots, Seq::empty(), done),
        cell_exists(h0, c),
    ensures
        cell_marked(h, c) == reachable(h0, roots, Node::Cell(c)),
{
    let empty = Seq::<SVal>::empty();
    assert forall|r: SVal| roots.contains(r) implies #[trigger] done.contains(r) by {
        assert(done.contains(r) || empty.contains(r));
    }
    assert forall|a: Node, b: Node| covered(h, done, a) && #[trigger] step(h0, a, b) implies #[trigger] covered(
        h,
        done,
        b,
    ) by {
        match (a, b) {
            (Node::Val(v), Node::Val(w)) => {
                assert(done.contains(w) || empty.contains(w));
            },
            (Node::Val(v), Node::Cell(d)) => {
                assert(refers_to(v)->0 == d);
            },
            (Node::Cell(d), Node::Val(w)) => {
                assert(done.contains(w) || empty.contains(w));
            },
            _ => {},
        }
    }
    if reachable(h0, roots, Node::Cell(c)) {
        lemma_closed_reachable(h0, h, roots, done, Node::Cell(c));
    }
}

/// The marking pass: every cell of the heap ends marked exactly when the roots reach it,
/// through the values they hold and the cells those values are handles to; what the cells
/// hold is left as it was.
pub fn mark_from_roots(heap: &mut Heap, roots: &[StahlVal])
    ensures
        same_cells(*final(heap), *old(heap)),
        forall|i: int|
            0 <= i < final(heap).values@.len() ==> (#[trigger] final(heap).values@[i]).reachable == reachable(
                *old(heap),
                vals(roots@),
                Node::Cell(HeapCell::Boxed(i as nat)),
            ),
        forall|i: int|
            0 <= i < final(heap).vectors@.len() ==> (#[trigger] final(heap).vectors@[i]).reachable
                == reachable(*old(heap), vals(roots@), Node::Cell(HeapCell::Vector(i as nat))),
{
    let ghost h0 = *heap;
    let ghost rs = vals(roots@);
    clear_marks(heap);
    let mut work: Vec<StahlVal> = Vec::new();
    push_copies(&mut work, roots);
    let ghost mut done: Set<SVal> = Set::empty();
    proof {
        assert(vals(work@) =~= rs);
        assert forall|i: int| 0 <= i < vals(work@).len() implies reachable(
            h0,
            rs,
            Node::Val(#[trigger] vals(work@)[i]),
        ) by {
            lemma_root_reachable(h0, rs, rs[i]);
        }
        assert forall|c: HeapCell| cell_exists(h0, c) && #[trigger] cell_marked(*heap, c) implies reachable(
            h0,
            rs,
            Node::Cell(c),
        ) by {
            match c {
                HeapCell::Boxed(n) => assert(!heap.values@[n as int].reachable),
                HeapCell::Vector(n) => assert(!heap.vectors@[n as int].reachable),
            }
        }
    }
    while work.len() > 0
        invariant
            rs == vals(roots@),
            marking_inv(h0, *heap, rs, vals(work@), done),
        decreases unmarked(heap.values@) + unmarked(heap.vectors@), sizes(vals(work@)),
    {
        let ghost w0 = vals(work@);
        let ghost heap0 = *heap;
        let v = match work.pop() {
            Some(v) => v,
            None => {
                proof {
                    assert(false);
                }
                return;
            },
        };
        proof {
            assert(vals(work@) =~= w0.drop_last());
            assert(v@ == w0.last());
            assert(w0.drop_last() =~= w0.subrange(0, w0.len() - 1));
            assert(reachable(h0, rs, Node::Val(w0[w0.len() - 1])));
        }
        let ghost rest = vals(work@);
        let ghost mut extra: Seq<SVal> = Seq::empty();
        match &v {
            StahlVal::MutableVector(r) => {
                let idx = r.index;
                if idx < heap.vectors.len() && !heap.vectors[idx].reachable {
                    let ghost c = HeapCell::Vector(idx as nat);
                    heap.vectors[idx].mark_reachable();
                    proof {
                        lemma_unmarked_update(heap0.vectors@, idx as int, heap.vectors@[idx as int]);
                        assert(heap.vectors@ =~= heap0.vectors@.update(idx as int, heap.vectors@[idx as int]));
                        assert(step(h0, Node::Val(v@), Node::Cell(c)));
                        lemma_step_reachable(h0, rs, Node::Val(v@), Node::Cell(c));
                    }
                    push_copies(&mut work, heap.vectors[idx].value.as_slice());
                    proof {
                        extra = cell_contents(h0, c);
                        assert(vals(heap.vectors@[idx as int].value@) == extra);
                    }
                }
                proof {
                    assert(children(v@) =~= Seq::<SVal>::empty());
                }
            },
            StahlVal::HeapAllocated(r) => {
                let idx = r.index;
                if idx < heap.values.len() && !heap.values[idx].reachable {
                    let ghost c = HeapCell::Boxed(idx as nat);
                    heap.values[idx].mark_reachable();
                    proof {
                        lemma_unmarked_update(heap0.values@, idx as int, heap.values@[idx as int]);
                        assert(heap.values@ =~= heap0.values@.update(idx as int, heap.values@[idx as int]));
                        assert(step(h0, Node::Val(v@), Node::Cell(c)));
                        lemma_step_reachable(h0, rs, Node::Val(v@), Node::Cell(c));
                    }
                    push_copy(&mut work, &heap.values[idx].value);
                    proof {
                        extra = cell_contents(h0, c);
                        assert(rest.push(heap.values@[idx as int].value@) =~= rest + extra);
                    }
                }
                proof {
                    assert(children(v@) =~= Seq::<SVal>::empty());
                }
            },
            _ => {
                push_children(&mut work, &v);
                proof {
                    extra = children(v@);
                }
            },
        }
        proof {
            lemma_marking_step(h0, heap0, *heap, rs, w0, done, extra);
            assert(vals(work@) =~= rest + extra);
            done = done.insert(v@);
            if unmarked(heap.values@) + unmarked(heap.vectors@) == unmarked(heap0.values@) + unmarked(heap0.vectors@) {
                lemma_sizes_add(rest, extra);
                lemma_children_smaller(v@);
            }
        }
    }
    proof {
        assert(vals(work@) =~= Seq::<SVal>::empty());
        assert forall|i: int| 0 <= i < heap.values@.len() implies (#[trigger] heap.values@[i]).reachable
            == reachable(h0, rs, Node::Cell(HeapCell::Boxed(i as nat))) by {
            lemma_marking_done(h0, *heap, rs, done, HeapCell::Boxed(i as nat));
        }
        assert forall|i: int| 0 <= i < heap.vectors@.len() implies (#[trigger] heap.vectors@[i]).reachable
            == reachable(h0, rs, Node::Cell(HeapCell::Vector(i as nat))) by {
            lemma_marking_done(h0, *heap, rs, done, HeapCell::Vector(i as nat));
        }
    }
}

} // verus!
