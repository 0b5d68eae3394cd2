//! Deciding equality of values.
use vstd::prelude::*;

use crate::transducers::Reducer;
use crate::values::{
    covered, covers, equiv, has_equal_from, has_equal_in, reducer_equiv, seq_equiv, view_entries,
    view_headers, view_reducer, view_seq, Header, SReducer, SVal, Span, StahlVal,
};

verus! {

fn all_equal(x: &Vec<StahlVal>, y: &Vec<StahlVal>) -> (r: bool)
    ensures
        r == seq_equiv(view_seq(x@), view_seq(y@)),
    decreases x, 1nat, 0nat,
{
    if x.len() != y.len() {
        return false;
    }
    let ghost xs = view_seq(x@);
    let ghost ys = view_seq(y@);
    let mut i: usize = x.len();
    assert(xs.take(i as int) =~= xs);
    assert(ys.take(i as int) =~= ys);
    while i > 0
        invariant
            i <= x.len(),
            x.len() == y.len(),
            xs == view_seq(x@),
            ys == view_seq(y@),
            seq_equiv(xs, ys) == seq_equiv(xs.take(i as int), ys.take(i as int)),
        decreases i,
    {
        proof {
            assert(decreases_to!(x => x@[i - 1]));
            assert(xs.take(i as int).drop_last() =~= xs.take(i - 1));
            assert(ys.take(i as int).drop_last() =~= ys.take(i - 1));
        }
        if !equal(&x[i - 1], &y[i - 1]) {
            return false;
        }
        i = i - 1;
    }
    true
}

fn some_equal_right(a: &StahlVal, y: &Vec<StahlVal>) -> (r: bool)
    ensures
        r == has_equal_in(a@, view_seq(y@)),
    decreases a, 1nat, 0nat,
{
    let ghost ys = view_seq(y@);
    let mut j: usize = y.len();
    assert(ys.take(j as int) =~= ys);
    while j > 0
        invariant
            j <= y.len(),
            ys == view_seq(y@),
            has_equal_in(a@, ys) == has_equal_in(a@, ys.take(j as int)),
        decreases j,
    {
        proof {
            assert(ys.take(j as int).drop_last() =~= ys.take(j - 1));
        }
        if equal(a, &y[j - 1]) {
            return true;
        }
        j = j - 1;
    }
    false
}

fn some_equal_left(x: &Vec<StahlVal>, b: &StahlVal) -> (r: bool)
    ensures
        r == has_equal_from(view_seq(x@), b@),
    decreases x, 1nat, 0nat,
{
    let ghost xs = view_seq(x@);
    let mut i: usize = x.len();
    assert(xs.take(i as int) =~= xs);
    while i > 0
        invariant
            i <= x.len(),
            xs == view_seq(x@),
            has_equal_from(xs, b@) == has_equal_from(xs.take(i as int), b@),
        decreases i,
    {
        proof {
            assert(decreases_to!(x => x@[i - 1]));
            assert(xs.take(i as int).drop_last() =~= xs.take(i - 1));
        }
        if equal(&x[i - 1], b) {
            return true;
        }
        i = i - 1;
    }
    false
}

fn covers_all(x: &Vec<StahlVal>, y: &Vec<StahlVal>) -> (r: bool)
    ensures
        r == covers(view_seq(x@), view_seq(y@)),
    decreases x, 2nat, 0nat,
{
    let ghost xs = view_seq(x@);
    let ghost ys = view_seq(y@);
    let mut i: usize = x.len();
    assert(xs.take(i as int) =~= xs);
    while i > 0
        invariant
            i <= x.len(),
            xs == view_seq(x@),
            ys == view_seq(y@),
            covers(xs, ys) == covers(xs.take(i as int), ys),
        decreases i,
    {
        proof {
            assert(decreases_to!(x => x@[i - 1]));
            assert(xs.take(i as int).drop_last() =~= xs.take(i - 1));
        }
        if !some_equal_right(&x[i - 1], y) {
            return false;
        }
        i = i - 1;
    }
    true
}

fn covered_all(x: &Vec<StahlVal>, y: &Vec<StahlVal>) -> (r: bool)
    ensures
        r == covered(view_seq(x@), view_seq(y@)),
    decreases x, 3nat, 0nat,
{
    let ghost xs = view_seq(x@);
    let ghost ys = view_seq(y@);
    let mut j: usize = y.len();
    assert(ys.take(j as int) =~= ys);
    while j > 0
        invariant
            j <= y.len(),
            xs == view_seq(x@),
            ys == view_seq(y@),
            covered(xs, ys) == covered(xs, ys.take(j as int)),
        decreases j,
    {
        proof {
            assert(ys.take(j as int).drop_last() =~= ys.take(j - 1));
        }
        if !some_equal_left(x, &y[j - 1]) {
            return false;
        }
        j = j - 1;
    }
    true
}

fn bytes_equal(x: &Vec<u8>, y: &Vec<u8>) -> (r: bool)
    ensures
        r == (x@ == y@),
{
    if x.len() != y.len() {
        return false;
    }
    let mut i: usize = 0;
    while i < x.len()
        invariant
            i <= x.len(),
            x.len() == y.len(),
            x@.subrange(0, i as int) == y@.subrange(0, i as int),
        decreases x.len() - i,
    {
        if x[i] != y[i] {
            assert(x@[i as int] != y@[i as int]);
            return false;
        }
        assert(x@.subrange(0, i + 1) =~= x@.subrange(0, i as int).push(x@[i as int]));
        assert(y@.subrange(0, i + 1) =~= y@.subrange(0, i as int).push(y@[i as int]));
        i = i + 1;
    }
    assert(x@.subrange(0, x@.len() as int) =~= x@);
    assert(y@.subrange(0, y@.len() as int) =~= y@);
    true
}

fn headers_equal(x: &Vec<Header>, y: &Vec<Header>) -> (r: bool)
    ensures
        r == (view_headers(x@) == view_headers(y@)),
{
    if x.len() != y.len() {
        assert(view_headers(x@).len() != view_headers(y@).len());
        return false;
    }
    let mut i: usize = 0;
    while i < x.len()
        invariant
            i <= x.len(),
            x.len() == y.len(),
            view_headers(x@).take(i as int) == view_headers(y@).take(i as int),
        decreases x.len() - i,
    {
        if !(x[i].name == y[i].name && bytes_equal(&x[i].value, &y[i].value)) {
            assert(view_headers(x@)[i as int] != view_headers(y@)[i as int]);
            return false;
        }
        assert(view_headers(x@).take(i + 1) =~= view_headers(y@).take(i + 1)) by {
            assert(view_headers(x@)[i as int] == view_headers(y@)[i as int]);
        }
        i = i + 1;
    }
    assert(view_headers(x@) =~= view_headers(y@)) by {
        assert(view_headers(x@).take(i as int) =~= view_headers(x@));
        assert(view_headers(y@).take(i as int) =~= view_headers(y@));
    }
    true
}

fn span_equal(x: &Option<Span>, y: &Option<Span>) -> (r: bool)
    ensures
        r == (*x == *y),
{
    match (x, y) {
        (None, None) => true,
        (Some(a), Some(b)) => {
            a.start == b.start && a.end == b.end && match (a.source_id, b.source_id) {
                (None, None) => true,
                (Some(i), Some(j)) => i == j,
                _ => false,
            }
        },
        _ => false,
    }
}

/// The view of a map entry: the pair of its key and its value.
pub open spec fn entry_view(p: (StahlVal, StahlVal)) -> SVal {
    SVal::Pair(Box::new(p.0@), Box::new(p.1@))
}

fn entry_equal(p: &(StahlVal, StahlVal), q: &(StahlVal, StahlVal)) -> (r: bool)
    ensures
        r == equiv(entry_view(*p), entry_view(*q)),
    decreases p, 1nat, 0nat,
{
    equal(&p.0, &q.0) && equal(&p.1, &q.1)
}

fn some_entry_right(p: &(StahlVal, StahlVal), y: &Vec<(StahlVal, StahlVal)>) -> (r: bool)
    ensures
        r == has_equal_in(entry_view(*p), view_entries(y@)),
    decreases p, 2nat, 0nat,
{
    let ghost ys = view_entries(y@);
    let mut j: usize = y.len();
    assert(ys.take(j as int) =~= ys);
    while j > 0
        invariant
            j <= y.len(),
            ys == view_entries(y@),
            has_equal_in(entry_view(*p), ys) == has_equal_in(entry_view(*p), ys.take(j as int)),
        decreases j,
    {
        proof {
            assert(ys.take(j as int).drop_last() =~= ys.take(j - 1));
        }
        if entry_equal(p, &y[j - 1]) {
            return true;
        }
        j = j - 1;
    }
    false
}

fn some_entry_left(x: &Vec<(StahlVal, StahlVal)>, q: &(StahlVal, StahlVal)) -> (r: bool)
    ensures
        r == has_equal_from(view_entries(x@), entry_view(*q)),
    decreases x, 2nat, 0nat,
{
    let ghost xs = view_entries(x@);
    let mut i: usize = x.len();
    assert(xs.take(i as int) =~= xs);
    while i > 0
        invariant
            i <= x.len(),
            xs == view_entries(x@),
            has_equal_from(xs, entry_view(*q)) == has_equal_from(xs.take(i as int), entry_view(*q)),
        decreases i,
    {
        proof {
            assert(decreases_to!(x => x@[i - 1]));
            assert(xs.take(i as int).drop_last() =~= xs.take(i - 1));
        }
        if entry_equal(&x[i - 1], q) {
            return true;
        }
        i = i - 1;
    }
    false
}

fn covers_entries(x: &Vec<(StahlVal, StahlVal)>, y: &Vec<(StahlVal, StahlVal)>) -> (r: bool)
    ensures
        r == covers(view_entries(x@), view_entries(y@)),
    decreases x, 3nat, 0nat,
{
    let ghost xs = view_entries(x@);
    let ghost ys = view_entries(y@);
    let mut i: usize = x.len();
    assert(xs.take(i as int) =~= xs);
    while i > 0
        invariant
            i <= x.len(),
            xs == view_entries(x@),
            ys == view_entries(y@),
            covers(xs, ys) == covers(xs.take(i as int), ys),
        decreases i,
    {
        proof {
            assert(decreases_to!(x => x@[i - 1]));
            assert(xs.take(i as int).drop_last() =~= xs.take(i - 1));
        }
        if !some_entry_right(&x[i - 1], y) {
            return false;
        }
        i = i - 1;
    }
    true
}

fn covered_entries(x: &Vec<(StahlVal, StahlVal)>, y: &Vec<(StahlVal, StahlVal)>) -> (r: bool)
    ensures
        r == covered(view_entries(x@), view_entries(y@)),
    decreases x, 3nat, 0nat,
{
    let ghost xs = view_entries(x@);
    let ghost ys = view_entries(y@);
    let mut j: usize = y.len();
    assert(ys.take(j as int) =~= ys);
    while j > 0
        invariant
            j <= y.len(),
            xs == view_entries(x@),
            ys == view_entries(y@),
            covered(xs, ys) == covered(xs, ys.take(j as int)),
        decreases j,
    {
        proof {
            assert(ys.take(j as int).drop_last() =~= ys.take(j - 1));
        }
        if !some_entry_left(x, &y[j - 1]) {
            return false;
        }
        j = j - 1;
    }
    true
}

fn reducer_equal(r: &Reducer, q: &Reducer) -> (b: bool)
    ensures
        b == reducer_equiv(view_reducer(*r), view_reducer(*q)),
    decreases r, 1nat, 0nat,
{
    match (r, q) {
        (Reducer::Sum, Reducer::Sum) => true,
        (Reducer::Multiply, Reducer::Multiply) => true,
        (Reducer::Max, Reducer::Max) => true,
        (Reducer::Min, Reducer::Min) => true,
        (Reducer::Count, Reducer::Count) => true,
        (Reducer::Nth(n), Reducer::Nth(m)) => *n == *m,
        (Reducer::List, Reducer::List) => true,
        (Reducer::Vector, Reducer::Vector) => true,
        (Reducer::HashMap, Reducer::HashMap) => true,
        (Reducer::HashSet, Reducer::HashSet) => true,
        (Reducer::String, Reducer::String) => true,
        (Reducer::Last, Reducer::Last) => true,
        (Reducer::ForEach(f), Reducer::ForEach(g)) => equal(f, g),
        (Reducer::Generic(f), Reducer::Generic(g)) => equal(&f.initial_value, &g.initial_value)
            && equal(&f.function, &g.function),
        _ => false,
    }
}

/// Decides [`equiv`]: the equality of `equal?`.
pub fn equal(a: &StahlVal, b: &StahlVal) -> (r: bool)
    ensures
        r == equiv(a@, b@),
    decreases a, 0nat, 0nat,
{
    match (a, b) {
        (StahlVal::Void, StahlVal::Void) => true,
        (StahlVal::BoolV(x), StahlVal::BoolV(y)) => *x == *y,
        (StahlVal::IntV(x), StahlVal::IntV(y)) => *x == *y,
        (StahlVal::NumV(x), StahlVal::NumV(y)) => *x == *y,
        (StahlVal::CharV(x), StahlVal::CharV(y)) => *x == *y,
        (StahlVal::StringV(x), StahlVal::StringV(y)) => *x == *y,
        (StahlVal::SymbolV(x), StahlVal::SymbolV(y)) => *x == *y,
        (StahlVal::ListV(x), StahlVal::ListV(y)) => all_equal(x, y),
        (StahlVal::VectorV(x), StahlVal::VectorV(y)) => all_equal(x, y),
        (StahlVal::Pair(p), StahlVal::Pair(q)) => equal(&p.car, &q.car) && equal(&p.cdr, &q.cdr),
        (StahlVal::HashSetV(x), StahlVal::HashSetV(y)) => {
            let r = x.elems.len() == y.elems.len() && covers_all(&x.elems, &y.elems)
                && covered_all(&x.elems, &y.elems);
            assert(view_seq(x.elems@).len() == x.elems@.len());
            assert(view_seq(y.elems@).len() == y.elems@.len());
            r
        },
        (StahlVal::HashMapV(x), StahlVal::HashMapV(y)) => {
            let r = x.entries.len() == y.entries.len() && covers_entries(&x.entries, &y.entries)
                && covered_entries(&x.entries, &y.entries);
            assert(view_entries(x.entries@).len() == x.entries@.len());
            assert(view_entries(y.entries@).len() == y.entries@.len());
            assert(r == equiv(a@, b@));
            r
        },
        (StahlVal::ByteVector(x), StahlVal::ByteVector(y)) => bytes_equal(x, y),
        (StahlVal::MutableVector(x), StahlVal::MutableVector(y)) => x.index == y.index,
        (StahlVal::HeapAllocated(x), StahlVal::HeapAllocated(y)) => x.index == y.index,
        (StahlVal::ReducerV(x), StahlVal::ReducerV(y)) => reducer_equal(x, y),
        (StahlVal::StreamV(x), StahlVal::StreamV(y)) => equal(&x.initial_value, &y.initial_value) && equal(&x.stream_thunk, &y.stream_thunk)
                && x.empty_stream == y.empty_stream,
        (StahlVal::ErrorV(x), StahlVal::ErrorV(y)) => x.kind == y.kind && x.message == y.message && span_equal(&x.span, &y.span),
        (StahlVal::RequestV(x), StahlVal::RequestV(y)) => x.method == y.method && x.path == y.path
            && x.version == y.version && x.body_offset == y.body_offset && headers_equal(&x.headers, &y.headers),
        (StahlVal::ResponseV(x), StahlVal::ResponseV(y)) => x.version == y.version && x.code == y.code
            && x.reason == y.reason && x.body_offset == y.body_offset && headers_equal(&x.headers, &y.headers),
        (StahlVal::BigNum(x), StahlVal::BigNum(y)) => crate::bignum::big_eq(x, y),
        (StahlVal::Rational(n1, d1), StahlVal::Rational(n2, d2)) => *n1 == *n2 && *d1 == *d2,
        (StahlVal::BigRational(n1, d1), StahlVal::BigRational(n2, d2)) => crate::bignum::big_eq(n1, n2)
            && crate::bignum::big_eq(d1, d2),
        _ => {
            assert(!equiv(a@, b@));
            false
        },
    }
}

} // verus!

verus! {

/// `x` equals itself position by position.
proof fn lemma_seq_refl(x: Seq<SVal>)
    ensures
        seq_equiv(x, x),
    decreases x, 0nat,
{
    if x.len() > 0 {
        lemma_seq_refl(x.drop_last());
        lemma_equiv_refl(x.last());
    }
}

/// A value that equals itself has an equal element in any sequence that holds it.
proof fn lemma_in_when_held(a: SVal, ys: Seq<SVal>, k: int)
    requires
        0 <= k < ys.len(),
        ys[k] == a,
        equiv(a, a),
    ensures
        has_equal_in(a, ys),
    decreases ys.len(),
{
    if k < ys.len() - 1 {
        lemma_in_when_held(a, ys.drop_last(), k);
    }
}

proof fn lemma_from_when_held(xs: Seq<SVal>, b: SVal, k: int)
    requires
        0 <= k < xs.len(),
        xs[k] == b,
        equiv(b, b),
    ensures
        has_equal_from(xs, b),
    decreases xs.len(),
{
    if k < xs.len() - 1 {
        lemma_from_when_held(xs.drop_last(), b, k);
    }
}

/// The first `n` elements of `x` each have an equal element in `x`, and the other way round.
proof fn lemma_cover_prefix(x: Seq<SVal>, n: nat)
    requires
        n <= x.len(),
    ensures
        covers(x.take(n as int), x),
        covered(x, x.take(n as int)),
    decreases x, n,
{
    if n > 0 {
        lemma_cover_prefix(x, (n - 1) as nat);
        assert(x.take(n as int).drop_last() =~= x.take(n - 1));
        lemma_equiv_refl(x[n - 1]);
        lemma_in_when_held(x[n - 1], x, n - 1);
        lemma_from_when_held(x, x[n - 1], n - 1);
    }
}

proof fn lemma_reducer_refl(r: SReducer)
    ensures
        reducer_equiv(r, r),
    decreases r,
{
    match r {
        SReducer::ForEach(f) => lemma_equiv_refl(*f),
        SReducer::Generic(i, f) => {
            lemma_equiv_refl(*i);
            lemma_equiv_refl(*f);
        },
        _ => {},
    }
}

/// Every value is equal to itself.
pub proof fn lemma_equiv_refl(a: SVal)
    ensures
        equiv(a, a),
    decreases a,
{
    match a {
        SVal::List(x) => lemma_seq_refl(x),
        SVal::Vector(x) => lemma_seq_refl(x),
        SVal::Pair(x1, x2) => {
            lemma_equiv_refl(*x1);
            lemma_equiv_refl(*x2);
        },
        SVal::HashSet(x) => {
            lemma_cover_prefix(x, x.len());
            assert(x.take(x.len() as int) =~= x);
        },
        SVal::HashMap(x) => {
            lemma_cover_prefix(x, x.len());
            assert(x.take(x.len() as int) =~= x);
        },
        SVal::Reducer(r) => lemma_reducer_refl(r),
        SVal::Stream(x1, x2, _) => {
            lemma_equiv_refl(*x1);
            lemma_equiv_refl(*x2);
        },
        _ => {},
    }
}


proof fn lemma_seq_symm(x: Seq<SVal>, y: Seq<SVal>)
    requires
        seq_equiv(x, y),
    ensures
        seq_equiv(y, x),
    decreases x, 0nat, 0nat,
{
    if x.len() > 0 {
        lemma_seq_symm(x.drop_last(), y.drop_last());
        lemma_equiv_symm(x.last(), y.last());
    }
}

/// An element of `xs` equal to `b` gives an element of `xs` that `b` equals.
proof fn lemma_from_to_in(xs: Seq<SVal>, b: SVal)
    requires
        has_equal_from(xs, b),
    ensures
        has_equal_in(b, xs),
    decreases xs, 1nat, 0nat,
{
    if xs.len() > 0 {
        if has_equal_from(xs.drop_last(), b) {
            lemma_from_to_in(xs.drop_last(), b);
        } else {
            lemma_equiv_symm(xs.last(), b);
        }
    }
}

/// An element of `ys` that `a` equals gives an element of `ys` equal to `a`.
proof fn lemma_in_to_from(a: SVal, ys: Seq<SVal>)
    requires
        has_equal_in(a, ys),
    ensures
        has_equal_from(ys, a),
    decreases a, 1nat, ys.len(),
{
    if ys.len() > 0 {
        if has_equal_in(a, ys.drop_last()) {
            lemma_in_to_from(a, ys.drop_last());
        } else {
            lemma_equiv_symm(a, ys.last());
        }
    }
}

proof fn lemma_covers_to_covered(x: Seq<SVal>, y: Seq<SVal>)
    requires
        covers(x, y),
    ensures
        covered(y, x),
    decreases x, 2nat, 0nat,
{
    if x.len() > 0 {
        lemma_covers_to_covered(x.drop_last(), y);
        lemma_in_to_from(x.last(), y);
    }
}

proof fn lemma_covered_to_covers(x: Seq<SVal>, y: Seq<SVal>)
    requires
        covered(x, y),
    ensures
        covers(y, x),
    decreases x, 3nat, y.len(),
{
    if y.len() > 0 {
        lemma_covered_to_covers(x, y.drop_last());
        lemma_from_to_in(x, y.last());
    }
}

proof fn lemma_reducer_symm(r: SReducer, q: SReducer)
    requires
        reducer_equiv(r, q),
    ensures
        reducer_equiv(q, r),
    decreases r,
{
    match (r, q) {
        (SReducer::ForEach(f), SReducer::ForEach(g)) => lemma_equiv_symm(*f, *g),
        (SReducer::Generic(i, f), SReducer::Generic(j, g)) => {
            lemma_equiv_symm(*i, *j);
            lemma_equiv_symm(*f, *g);
        },
        _ => {},
    }
}

/// Equality of values is symmetric.
pub proof fn lemma_equiv_symm(a: SVal, b: SVal)
    requires
        equiv(a, b),
    ensures
        equiv(b, a),
    decreases a, 0nat, 0nat,
{
    match (a, b) {
        (SVal::List(x), SVal::List(y)) => lemma_seq_symm(x, y),
        (SVal::Vector(x), SVal::Vector(y)) => lemma_seq_symm(x, y),
        (SVal::Pair(x1, x2), SVal::Pair(y1, y2)) => {
            lemma_equiv_symm(*x1, *y1);
            lemma_equiv_symm(*x2, *y2);
        },
        (SVal::HashSet(x), SVal::HashSet(y)) => {
            lemma_covers_to_covered(x, y);
            lemma_covered_to_covers(x, y);
        },
        (SVal::HashMap(x), SVal::HashMap(y)) => {
            lemma_covers_to_covered(x, y);
            lemma_covered_to_covers(x, y);
        },
        (SVal::Reducer(r), SVal::Reducer(q)) => lemma_reducer_symm(r, q),
        (SVal::Stream(x1, x2, _), SVal::Stream(y1, y2, _)) => {
            lemma_equiv_symm(*x1, *y1);
            lemma_equiv_symm(*x2, *y2);
        },
        _ => {},
    }
}


impl PartialEq for StahlVal {
    /// `==` on values is `equal?`.
    fn eq(&self, other: &Self) -> (r: bool) {
        equal(self, other)
    }
}

impl vstd::std_specs::cmp::PartialEqSpecImpl for StahlVal {
    open spec fn obeys_eq_spec() -> bool {
        true
    }

    open spec fn eq_spec(&self, other: &Self) -> bool {
        equiv(self@, other@)
    }
}


proof fn lemma_seq_trans(x: Seq<SVal>, y: Seq<SVal>, z: Seq<SVal>)
    requires
        seq_equiv(x, y),
        seq_equiv(y, z),
    ensures
        seq_equiv(x, z),
    decreases x, 0nat, 0nat,
{
    if x.len() > 0 {
        lemma_seq_trans(x.drop_last(), y.drop_last(), z.drop_last());
        lemma_equiv_trans(x.last(), y.last(), z.last());
    }
}

/// A value equal to `b` has an equal element wherever `b` has one.
proof fn lemma_in_trans(a: SVal, b: SVal, zs: Seq<SVal>)
    requires
        equiv(a, b),
        has_equal_in(b, zs),
    ensures
        has_equal_in(a, zs),
    decreases a, 1nat, zs.len(),
{
    if zs.len() > 0 {
        if has_equal_in(b, zs.drop_last()) {
            lemma_in_trans(a, b, zs.drop_last());
        } else {
            lemma_equiv_trans(a, b, zs.last());
        }
    }
}

proof fn lemma_in_cover_trans(a: SVal, ys: Seq<SVal>, zs: Seq<SVal>)
    requires
        has_equal_in(a, ys),
        covers(ys, zs),
    ensures
        has_equal_in(a, zs),
    decreases a, 2nat, ys.len(),
{
    if ys.len() > 0 {
        if has_equal_in(a, ys.drop_last()) {
            lemma_in_cover_trans(a, ys.drop_last(), zs);
        } else {
            lemma_in_trans(a, ys.last(), zs);
        }
    }
}

proof fn lemma_covers_trans(x: Seq<SVal>, y: Seq<SVal>, z: Seq<SVal>)
    requires
        covers(x, y),
        covers(y, z),
    ensures
        covers(x, z),
    decreases x, 3nat, 0nat,
{
    if x.len() > 0 {
        lemma_covers_trans(x.drop_last(), y, z);
        lemma_in_cover_trans(x.last(), y, z);
    }
}

/// Some element of `xs` equals whatever a value that it equals equals.
proof fn lemma_from_trans(xs: Seq<SVal>, b: SVal, c: SVal)
    requires
        has_equal_from(xs, b),
        equiv(b, c),
    ensures
        has_equal_from(xs, c),
    decreases xs, 1nat, 0nat,
{
    if xs.len() > 0 {
        if has_equal_from(xs.drop_last(), b) {
            lemma_from_trans(xs.drop_last(), b, c);
        } else {
            lemma_equiv_trans(xs.last(), b, c);
        }
    }
}

proof fn lemma_from_covered_trans(xs: Seq<SVal>, ys: Seq<SVal>, c: SVal)
    requires
        covered(xs, ys),
        has_equal_from(ys, c),
    ensures
        has_equal_from(xs, c),
    decreases xs, 2nat, ys.len(),
{
    if ys.len() > 0 {
        if has_equal_from(ys.drop_last(), c) {
            lemma_from_covered_trans(xs, ys.drop_last(), c);
        } else {
            lemma_from_trans(xs, ys.last(), c);
        }
    }
}

proof fn lemma_covered_trans(x: Seq<SVal>, y: Seq<SVal>, z: Seq<SVal>)
    requires
        covered(x, y),
        covered(y, z),
    ensures
        covered(x, z),
    decreases x, 3nat, z.len(),
{
    if z.len() > 0 {
        lemma_covered_trans(x, y, z.drop_last());
        lemma_from_covered_trans(x, y, z.last());
    }
}

proof fn lemma_reducer_trans(r: SReducer, q: SReducer, p: SReducer)
    requires
        reducer_equiv(r, q),
        reducer_equiv(q, p),
    ensures
        reducer_equiv(r, p),
    decreases r,
{
    match (r, q, p) {
        (SReducer::ForEach(f), SReducer::ForEach(g), SReducer::ForEach(h)) => lemma_equiv_trans(
            *f,
            *g,
            *h,
        ),
        (SReducer::Generic(i, f), SReducer::Generic(j, g), SReducer::Generic(k, h)) => {
            lemma_equiv_trans(*i, *j, *k);
            lemma_equiv_trans(*f, *g, *h);
        },
        _ => {},
    }
}

/// Equality of values is transitive.
pub proof fn lemma_equiv_trans(a: SVal, b: SVal, c: SVal)
    requires
        equiv(a, b),
        equiv(b, c),
    ensures
        equiv(a, c),
    decreases a, 0nat, 0nat,
{
    match (a, b, c) {
        (SVal::List(x), SVal::List(y), SVal::List(z)) => lemma_seq_trans(x, y, z),
        (SVal::Vector(x), SVal::Vector(y), SVal::Vector(z)) => lemma_seq_trans(x, y, z),
        (SVal::Pair(x1, x2), SVal::Pair(y1, y2), SVal::Pair(z1, z2)) => {
            lemma_equiv_trans(*x1, *y1, *z1);
            lemma_equiv_trans(*x2, *y2, *z2);
        },
        (SVal::HashSet(x), SVal::HashSet(y), SVal::HashSet(z)) => {
            lemma_covers_trans(x, y, z);
            lemma_covered_trans(x, y, z);
        },
        (SVal::HashMap(x), SVal::HashMap(y), SVal::HashMap(z)) => {
            lemma_covers_trans(x, y, z);
            lemma_covered_trans(x, y, z);
        },
        (SVal::Reducer(r), SVal::Reducer(q), SVal::Reducer(p)) => lemma_reducer_trans(r, q, p),
        (SVal::Stream(x1, x2, _), SVal::Stream(y1, y2, _), SVal::Stream(z1, z2, _)) => {
            lemma_equiv_trans(*x1, *y1, *z1);
            lemma_equiv_trans(*x2, *y2, *z2);
        },
        _ => {},
    }
}

} // verus!
