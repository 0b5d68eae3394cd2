//! Vector primitives: immutable vectors, and mutable vectors that live in a [`Heap`].
use vstd::prelude::*;

use crate::errors::{fail, outcome};
use crate::heap::{Heap, HeapRef};
use crate::printer::push_char;
use crate::values::{
    copy_range, extend_vals, lemma_vals_push, lemma_vals_update, vals, ErrorKind, Pair, SVal,
    StahlErr, StahlVal,
};

verus! {

broadcast use crate::values::group_vals;

/// Whether every mutable vector among `args` names a vector of `heap`.
pub open spec fn handles_in(heap: &Heap, args: Seq<StahlVal>) -> bool {
    forall|i: int|
        0 <= i < args.len() ==> (#[trigger] args[i] matches StahlVal::MutableVector(r)
            ==> heap.has_vector(r))
}

/// `car` on vectors: the first element of the only argument, a non-empty vector.
pub open spec fn vec_car_result(a: Seq<SVal>) -> Result<SVal, ErrorKind> {
    if a.len() != 1 {
        Err(ErrorKind::ArityMismatch)
    } else {
        match a[0] {
            SVal::Vector(v) => if v.len() == 0 {
                Err(ErrorKind::ContractViolation)
            } else {
                Ok(v[0])
            },
            _ => Err(ErrorKind::TypeMismatch),
        }
    }
}

/// `cdr` on vectors: the only argument, a non-empty vector, without its first element.
pub open spec fn vec_cdr_result(a: Seq<SVal>) -> Result<SVal, ErrorKind> {
    if a.len() != 1 {
        Err(ErrorKind::ArityMismatch)
    } else {
        match a[0] {
            SVal::Vector(v) => if v.len() == 0 {
                Err(ErrorKind::ContractViolation)
            } else {
                Ok(SVal::Vector(v.drop_first()))
            },
            _ => Err(ErrorKind::TypeMismatch),
        }
    }
}

/// `cons` on vectors: the element in front of the vector, or a vector of both arguments when
/// the second is no vector.
pub open spec fn vec_cons_result(a: Seq<SVal>) -> Result<SVal, ErrorKind> {
    if a.len() != 2 {
        Err(ErrorKind::ArityMismatch)
    } else {
        match a[1] {
            SVal::Vector(v) => Ok(SVal::Vector(seq![a[0]] + v)),
            _ => Ok(SVal::Vector(seq![a[0], a[1]])),
        }
    }
}

/// `push` on vectors: the element at the back of the vector, or a vector of the second
/// argument then the first when the second is no vector.
pub open spec fn vec_push_result(a: Seq<SVal>) -> Result<SVal, ErrorKind> {
    if a.len() != 2 {
        Err(ErrorKind::ArityMismatch)
    } else {
        match a[1] {
            SVal::Vector(v) => Ok(SVal::Vector(v.push(a[0]))),
            _ => Ok(SVal::Vector(seq![a[1], a[0]])),
        }
    }
}

/// `null?`: whether the only argument is an empty list or an empty vector.
pub open spec fn list_vec_null_result(a: Seq<SVal>) -> Result<SVal, ErrorKind> {
    if a.len() != 1 {
        Err(ErrorKind::ArityMismatch)
    } else {
        match a[0] {
            SVal::List(l) => Ok(SVal::Bool(l.len() == 0)),
            SVal::Vector(v) => Ok(SVal::Bool(v.len() == 0)),
            _ => Ok(SVal::Bool(false)),
        }
    }
}

/// The integers `lo, lo + 1, .., hi - 1`.
pub open spec fn int_range(lo: int, hi: int) -> Seq<SVal>
    decreases hi - lo,
{
    if hi <= lo {
        Seq::empty()
    } else {
        int_range(lo, hi - 1).push(SVal::Int(hi - 1))
    }
}

/// `range`: the integers from the first argument up to the second, excluded.
///
/// The bounds are read as machine words, as the runtime does: two bounds of the same sign
/// give the integers between them, a negative lower bound with a non-negative upper bound
/// gives an empty vector.
pub open spec fn vec_range_result(a: Seq<SVal>) -> Result<SVal, ErrorKind> {
    if a.len() != 2 {
        Err(ErrorKind::ArityMismatch)
    } else {
        match (a[0], a[1]) {
            (SVal::Int(lo), SVal::Int(hi)) => if lo < 0 && hi >= 0 {
                Ok(SVal::Vector(Seq::empty()))
            } else {
                Ok(SVal::Vector(int_range(lo, hi)))
            },
            _ => Err(ErrorKind::TypeMismatch),
        }
    }
}

/// Whether `range` can build its vector: a non-negative lower bound with a negative upper
/// bound would ask for more elements than memory holds.
pub open spec fn vec_range_fits(a: Seq<SVal>) -> bool {
    a.len() == 2 ==> match (a[0], a[1]) {
        (SVal::Int(lo), SVal::Int(hi)) => !(lo >= 0 && hi < 0),
        _ => true,
    }
}

/// The concatenation of the contents of `a`, each a vector.
pub open spec fn concat_vectors(a: Seq<SVal>) -> Seq<SVal>
    decreases a.len(),
{
    if a.len() == 0 {
        Seq::empty()
    } else {
        concat_vectors(a.drop_last()) + match a.last() {
            SVal::Vector(v) => v,
            _ => Seq::empty(),
        }
    }
}

/// Whether every element of `a` is a vector.
pub open spec fn all_vectors(a: Seq<SVal>) -> bool {
    forall|i: int| 0 <= i < a.len() ==> #[trigger] a[i] is Vector
}

/// `append` on vectors: the concatenation of the arguments, which must all be vectors.
pub open spec fn vec_append_result(a: Seq<SVal>) -> Result<SVal, ErrorKind> {
    if all_vectors(a) {
        Ok(SVal::Vector(concat_vectors(a)))
    } else {
        Err(ErrorKind::TypeMismatch)
    }
}

pub open spec fn failed_at(items: Seq<Result<StahlVal, StahlErr>>, i: int) -> bool {
    0 <= i < items.len() && items[i] is Err
}

/// The index of the first error among `items`, if any.
pub open spec fn first_error(items: Seq<Result<StahlVal, StahlErr>>) -> Option<int> {
    if exists|i: int| #[trigger] failed_at(items, i) {
        Some(
            choose|i: int|
                #[trigger] failed_at(items, i) && forall|j: int|
                    0 <= j < i ==> !#[trigger] failed_at(items, j),
        )
    } else {
        None
    }
}

/// The views of the values of `items`, which are all `Ok`.
pub open spec fn ok_vals(items: Seq<Result<StahlVal, StahlErr>>) -> Seq<SVal> {
    Seq::new(
        items.len(),
        |i: int|
            match items[i] {
                Ok(v) => v@,
                Err(_) => SVal::Void,
            },
    )
}

/// The element at index `idx` of the mutable vector with contents `items`.
pub open spec fn mut_ref_result(items: Seq<SVal>, idx: SVal) -> Result<SVal, ErrorKind> {
    match idx {
        SVal::Int(i) => if i < 0 || i >= items.len() {
            Err(ErrorKind::Generic)
        } else {
            Ok(items[i])
        },
        _ => Err(ErrorKind::TypeMismatch),
    }
}

/// `mut-vector-ref`: the element of a mutable vector at an index.
pub open spec fn mut_vec_get_result(heap: &Heap, a: Seq<SVal>) -> Result<SVal, ErrorKind> {
    if a.len() != 2 {
        Err(ErrorKind::ArityMismatch)
    } else {
        match a[0] {
            SVal::MutVector(n) => mut_ref_result(heap.vector_at(n), a[1]),
            _ => Err(ErrorKind::TypeMismatch),
        }
    }
}

/// `vector-ref`: the element of a mutable or an immutable vector at an index.
pub open spec fn vec_ref_result(heap: &Heap, a: Seq<SVal>) -> Result<SVal, ErrorKind> {
    if a.len() != 2 {
        Err(ErrorKind::ArityMismatch)
    } else {
        match a[0] {
            SVal::MutVector(n) => mut_ref_result(heap.vector_at(n), a[1]),
            SVal::Vector(v) => match a[1] {
                SVal::Int(i) => if i < 0 {
                    Err(ErrorKind::TypeMismatch)
                } else if i < v.len() {
                    Ok(v[i])
                } else {
                    Err(ErrorKind::Generic)
                },
                _ => Err(ErrorKind::TypeMismatch),
            },
            _ => Err(ErrorKind::TypeMismatch),
        }
    }
}

/// What `vector-push!` returns: nothing, once the value is pushed onto a mutable vector.
pub open spec fn mut_vec_push_result(a: Seq<SVal>) -> Result<SVal, ErrorKind> {
    if a.len() != 2 {
        Err(ErrorKind::ArityMismatch)
    } else if a[0] is MutVector {
        Ok(SVal::Void)
    } else {
        Err(ErrorKind::TypeMismatch)
    }
}

/// What `vector-append!` returns: nothing, once the second mutable vector is moved onto
/// the first.
pub open spec fn mut_vec_append_result(a: Seq<SVal>) -> Result<SVal, ErrorKind> {
    if a.len() != 2 {
        Err(ErrorKind::ArityMismatch)
    } else if a[0] is MutVector && a[1] is MutVector {
        Ok(SVal::Void)
    } else {
        Err(ErrorKind::TypeMismatch)
    }
}

/// Whether `vector-append!` can run: appending a mutable vector to itself never returns.
pub open spec fn distinct_vectors(args: Seq<StahlVal>) -> bool {
    args.len() == 2 ==> match (args[0], args[1]) {
        (StahlVal::MutableVector(l), StahlVal::MutableVector(r)) => l.index != r.index,
        _ => true,
    }
}

/// `vector-ref` on an immutable vector gives the element at the index, counted from the
/// front: for `0 <= i < len(v)`, the `i`-th element of `v`. Index 0 gives what `car` gives,
/// index `i + 1` of `(cons x v)` gives index `i` of `v` and index 0 gives `x`, and the last
/// index of `(push x v)` gives `x`.
pub proof fn lemma_vec_ref_element(heap: &Heap, v: Seq<SVal>, i: int, x: SVal)
    requires
        0 <= i < v.len(),
    ensures
        vec_ref_result(heap, seq![SVal::Vector(v), SVal::Int(i)]) == Ok::<SVal, ErrorKind>(v[i]),
        vec_ref_result(heap, seq![SVal::Vector(v), SVal::Int(0)]) == vec_car_result(seq![SVal::Vector(v)]),
        vec_cons_result(seq![x, SVal::Vector(v)]) matches Ok(c) && vec_ref_result(
            heap,
            seq![c, SVal::Int(i + 1)],
        ) == vec_ref_result(heap, seq![SVal::Vector(v), SVal::Int(i)]) && vec_ref_result(
            heap,
            seq![c, SVal::Int(0)],
        ) == Ok::<SVal, ErrorKind>(x),
        vec_push_result(seq![x, SVal::Vector(v)]) matches Ok(p) && vec_ref_result(
            heap,
            seq![p, SVal::Int(v.len() as int)],
        ) == Ok::<SVal, ErrorKind>(x),
{
    let c = seq![x] + v;
    assert(c[i + 1] == v[i]);
    assert(c[0] == x);
    assert(v.push(x)[v.len() as int] == x);
}

/// `vector-ref` reads a mutable vector as it reads the immutable vector with the same
/// elements, at every index that is not negative.
pub proof fn lemma_vec_ref_mutable_agrees(heap: &Heap, n: nat, i: int)
    requires
        i >= 0,
    ensures
        vec_ref_result(heap, seq![SVal::MutVector(n), SVal::Int(i)]) == vec_ref_result(
            heap,
            seq![SVal::Vector(heap.vector_at(n)), SVal::Int(i)],
        ),
{
}

/// `null?` of a list is true exactly when the list has no elements; it agrees with `null?`
/// of the vector with the same elements; and a vector with an element put in front is never
/// empty.
pub proof fn lemma_null_exactly_empty(l: Seq<SVal>, x: SVal)
    ensures
        list_vec_null_result(seq![SVal::List(l)]) == Ok::<SVal, ErrorKind>(
            SVal::Bool(l =~= Seq::<SVal>::empty()),
        ),
        list_vec_null_result(seq![SVal::List(l)]) == list_vec_null_result(seq![SVal::Vector(l)]),
        list_vec_null_result(seq![SVal::List(Seq::empty())]) == Ok::<SVal, ErrorKind>(SVal::Bool(true)),
        list_vec_null_result(seq![SVal::List(seq![x])]) == Ok::<SVal, ErrorKind>(SVal::Bool(false)),
        vec_cons_result(seq![x, SVal::Vector(l)]) matches Ok(c) && list_vec_null_result(seq![c])
            == Ok::<SVal, ErrorKind>(SVal::Bool(false)),
{
    if l.len() == 0 {
        assert(l =~= Seq::<SVal>::empty());
    } else {
        assert(!(l =~= Seq::<SVal>::empty()));
    }
}

/// The integers from `lo` up to `hi`, excluded, are `hi - lo` in number, the `k`-th being
/// `lo + k`.
proof fn lemma_int_range(lo: int, hi: int)
    requires
        lo <= hi,
    ensures
        int_range(lo, hi).len() == hi - lo,
        forall|k: int| 0 <= k < hi - lo ==> #[trigger] int_range(lo, hi)[k] == SVal::Int(lo + k),
    decreases hi - lo,
{
    if lo < hi {
        lemma_int_range(lo, hi - 1);
    }
}

/// `range` from `lo` to `hi` (both not negative, or both negative) is the vector of the
/// `hi - lo` integers `lo, lo + 1, ..`: its `k`-th element, as `vector-ref` reads it, is
/// `lo + k`.
pub proof fn lemma_range_elements(heap: &Heap, lo: int, hi: int, k: int)
    requires
        lo <= hi,
        lo >= 0 || hi < 0,
        0 <= k < hi - lo,
    ensures
        vec_range_result(seq![SVal::Int(lo), SVal::Int(hi)]) matches Ok(SVal::Vector(s)) && s.len() == hi - lo
            && s[k] == SVal::Int(lo + k),
        vec_range_result(seq![SVal::Int(lo), SVal::Int(hi)]) matches Ok(r) && vec_ref_result(
            heap,
            seq![r, SVal::Int(k)],
        ) == Ok::<SVal, ErrorKind>(SVal::Int(lo + k)),
{
    lemma_int_range(lo, hi);
}

/// `car`, `cdr`, `cons`, `push` and `append` on vectors: `cons` puts the element in front,
/// which `car` reads back and `cdr` takes off again; `push` puts it at the back, after the
/// elements in order; `append` of two vectors holds the first one's elements, then the
/// second one's.
pub proof fn lemma_vector_pairs(x: SVal, v: Seq<SVal>, w: Seq<SVal>)
    ensures
        vec_cons_result(seq![x, SVal::Vector(v)]) matches Ok(c) && vec_car_result(seq![c]) == Ok::<
            SVal,
            ErrorKind,
        >(x) && vec_cdr_result(seq![c]) == Ok::<SVal, ErrorKind>(SVal::Vector(v)),
        vec_push_result(seq![x, SVal::Vector(v)]) matches Ok(SVal::Vector(p)) && p.len() == v.len() + 1
            && p.last() == x && p.subrange(0, v.len() as int) == v,
        vec_append_result(seq![SVal::Vector(v), SVal::Vector(w)]) matches Ok(SVal::Vector(a)) && a.len()
            == v.len() + w.len() && a.subrange(0, v.len() as int) == v && a.subrange(
            v.len() as int,
            a.len() as int,
        ) == w,
{
    let c = seq![x] + v;
    assert(c.drop_first() =~= v);
    let a2 = seq![SVal::Vector(v), SVal::Vector(w)];
    assert(a2.drop_last() =~= seq![SVal::Vector(v)]);
    assert(seq![SVal::Vector(v)].drop_last() =~= Seq::<SVal>::empty());
    assert(concat_vectors(Seq::<SVal>::empty()) =~= Seq::<SVal>::empty());
    assert(seq![SVal::Vector(v)].last() == SVal::Vector(v));
    assert(concat_vectors(seq![SVal::Vector(v)]) =~= Seq::<SVal>::empty() + v);
    assert(concat_vectors(seq![SVal::Vector(v)]) =~= v);
    assert(a2.last() == SVal::Vector(w));
    assert(concat_vectors(a2) =~= v + w);
    assert(all_vectors(a2));
    assert((v + w).subrange(0, v.len() as int) =~= v);
    assert((v + w).subrange(v.len() as int, (v + w).len() as int) =~= w);
    assert(v.push(x).subrange(0, v.len() as int) =~= v);
}

pub struct VectorOperations {}

impl VectorOperations {
    /// `car` on immutable vectors.
    pub fn vec_car(args: &[StahlVal]) -> (r: Result<StahlVal, StahlErr>)
        ensures
            outcome(r) == vec_car_result(vals(args@)),
    {
        if args.len() != 1 {
            return fail(ErrorKind::ArityMismatch, "car takes one argument");
        }
        assert(vals(args@)[0] == args@[0]@);
        match &args[0] {
            StahlVal::VectorV(v) => {
                if v.len() == 0 {
                    assert(vals(v@).len() == 0);
                    fail(ErrorKind::ContractViolation, "car expects a non empty list")
                } else {
                    assert(args@[0]@ == SVal::Vector(vals(v@)));
                    assert(vals(v@)[0] == v@[0]@);
                    let c = v[0].clone();
                    assert(c@ == v@[0]@);
                    assert(vals(args@).len() == 1);
                    assert(vec_car_result(vals(args@)) == Ok::<SVal, ErrorKind>(c@));
                    Ok(c)
                }
            },
            _ => {
                assert(!(args@[0]@ is Vector));
                fail(ErrorKind::TypeMismatch, "car takes a list")
            },
        }
    }

    /// `cdr` on immutable vectors.
    pub fn vec_cdr(args: &[StahlVal]) -> (r: Result<StahlVal, StahlErr>)
        ensures
            outcome(r) == vec_cdr_result(vals(args@)),
    {
        if args.len() != 1 {
            return fail(ErrorKind::ArityMismatch, "cdr takes one argument");
        }
        match &args[0] {
            StahlVal::VectorV(v) => {
                assert(vals(v@).len() == v@.len());
                if v.len() == 0 {
                    fail(ErrorKind::ContractViolation, "cdr expects a non empty list")
                } else {
                    let rest = copy_range(v, 1, v.len());
                    assert(vals(v@).subrange(1, v@.len() as int) =~= vals(v@).drop_first());
                    Ok(StahlVal::VectorV(rest))
                }
            },
            _ => fail(ErrorKind::TypeMismatch, "cdr takes a list"),
        }
    }

    /// `cons` on immutable vectors.
    pub fn vec_cons(args: &[StahlVal]) -> (r: Result<StahlVal, StahlErr>)
        ensures
            outcome(r) == vec_cons_result(vals(args@)),
    {
        if args.len() != 2 {
            return fail(ErrorKind::ArityMismatch, "cons takes two arguments");
        }
        let mut out: Vec<StahlVal> = Vec::new();
        let elem = args[0].clone();
        proof {
            lemma_vals_push(out@, elem);
        }
        out.push(elem);
        match &args[1] {
            StahlVal::VectorV(l) => {
                extend_vals(&mut out, l);
                assert(vals(out@) =~= seq![vals(args@)[0]] + vals(l@));
                Ok(StahlVal::VectorV(out))
            },
            _ => {
                let other = args[1].clone();
                proof {
                    lemma_vals_push(out@, other);
                }
                out.push(other);
                assert(vals(out@) =~= seq![vals(args@)[0], vals(args@)[1]]);
                Ok(StahlVal::VectorV(out))
            },
        }
    }

    /// `push` on immutable vectors.
    pub fn vec_push(args: &[StahlVal]) -> (r: Result<StahlVal, StahlErr>)
        ensures
            outcome(r) == vec_push_result(vals(args@)),
    {
        if args.len() != 2 {
            return fail(ErrorKind::ArityMismatch, "push takes two arguments");
        }
        match &args[1] {
            StahlVal::VectorV(l) => {
                let mut out = copy_range(l, 0, l.len());
                assert(vals(l@).subrange(0, l@.len() as int) =~= vals(l@));
                let elem = args[0].clone();
                proof {
                    lemma_vals_push(out@, elem);
                }
                out.push(elem);
                Ok(StahlVal::VectorV(out))
            },
            _ => {
                let mut out: Vec<StahlVal> = Vec::new();
                let first = args[1].clone();
                let second = args[0].clone();
                proof {
                    lemma_vals_push(out@, first);
                }
                out.push(first);
                proof {
                    lemma_vals_push(out@, second);
                }
                out.push(second);
                assert(vals(out@) =~= seq![vals(args@)[1], vals(args@)[0]]);
                Ok(StahlVal::VectorV(out))
            },
        }
    }

    /// `null?`.
    pub fn list_vec_null(args: &[StahlVal]) -> (r: Result<StahlVal, StahlErr>)
        ensures
            outcome(r) == list_vec_null_result(vals(args@)),
    {
        if args.len() == 1 {
            assert(vals(args@)[0] == args@[0]@);
            match &args[0] {
                StahlVal::ListV(l) => {
                    assert(vals(l@).len() == l@.len());
                    Ok(StahlVal::BoolV(l.len() == 0))
                },
                StahlVal::VectorV(v) => {
                    assert(vals(v@).len() == v@.len());
                    Ok(StahlVal::BoolV(v.len() == 0))
                },
                _ => Ok(StahlVal::BoolV(false)),
            }
        } else {
            fail(ErrorKind::ArityMismatch, "null? takes one argument")
        }
    }

    /// `range`: an immutable vector of consecutive integers.
    pub fn vec_range(args: &[StahlVal]) -> (r: Result<StahlVal, StahlErr>)
        requires
            vec_range_fits(vals(args@)),
        ensures
            outcome(r) == vec_range_result(vals(args@)),
    {
        if args.len() != 2 {
            return fail(ErrorKind::ArityMismatch, "range takes two arguments");
        }
        match (&args[0], &args[1]) {
            (StahlVal::IntV(lo), StahlVal::IntV(hi)) => {
                let lo = *lo;
                let hi = *hi;
                let mut out: Vec<StahlVal> = Vec::new();
                assert(vals(out@) =~= Seq::<SVal>::empty());
                if lo < 0 && hi >= 0 {
                    return Ok(StahlVal::VectorV(out));
                }
                let mut x: isize = lo;
                while x < hi
                    invariant
                        lo <= x,
                        x <= hi || x == lo,
                        vals(out@) == int_range(lo as int, x as int),
                    decreases hi - x,
                {
                    let item = StahlVal::IntV(x);
                    proof {
                        lemma_vals_push(out@, item);
                    }
                    out.push(item);
                    x = x + 1;
                }
                assert(vals(out@) == int_range(lo as int, hi as int));
                Ok(StahlVal::VectorV(out))
            },
            _ => fail(ErrorKind::TypeMismatch, "range expected number"),
        }
    }

    /// `mut-vector-ref`: reads an element of a mutable vector.
    pub fn mut_vec_get(heap: &Heap, args: &[StahlVal]) -> (r: Result<StahlVal, StahlErr>)
        requires
            handles_in(heap, args@),
        ensures
            outcome(r) == mut_vec_get_result(heap, vals(args@)),
    {
        if args.len() != 2 {
            return fail(ErrorKind::ArityMismatch, "mut-vector-ref takes two arguments");
        }
        assert(vals(args@)[0] == args@[0]@);
        assert(vals(args@)[1] == args@[1]@);
        match &args[0] {
            StahlVal::MutableVector(v) => {
                assert(args@[0] matches StahlVal::MutableVector(h) && heap.has_vector(h));
                match &args[1] {
                    StahlVal::IntV(i) => {
                        let i = *i;
                        if i < 0 {
                            return fail(ErrorKind::Generic, "mut-vector-ref expects a positive integer");
                        }
                        let n = heap.vector_len(*v);
                        if i as usize >= n {
                            return fail(ErrorKind::Generic, "index out of bounds");
                        }
                        Ok(heap.vector_get(*v, i as usize))
                    },
                    _ => fail(ErrorKind::TypeMismatch, "mut-vector-ref expects an integer"),
                }
            },
            _ => fail(ErrorKind::TypeMismatch, "mut-vector-ref expects a vector"),
        }
    }

    /// `vector-push!`: pushes a value onto a mutable vector.
    pub fn mut_vec_push(heap: &mut Heap, args: &[StahlVal]) -> (r: Result<StahlVal, StahlErr>)
        requires
            handles_in(old(heap), args@),
        ensures
            outcome(r) == mut_vec_push_result(vals(args@)),
            (args@.len() == 2 && args@[0] is MutableVector) ==> final(heap).updates_vector(
                old(heap),
                args@[0]->MutableVector_0,
                old(heap).vector_of(args@[0]->MutableVector_0).push(args@[1]@),
            ),
            !(args@.len() == 2 && args@[0] is MutableVector) ==> *final(heap) == *old(heap),
    {
        if args.len() != 2 {
            return fail(ErrorKind::ArityMismatch, "vector-push! takes two arguments");
        }
        assert(vals(args@)[0] == args@[0]@);
        match &args[0] {
            StahlVal::MutableVector(v) => {
                assert(heap.has_vector(*v));
                let value = args[1].clone();
                heap.vector_push(*v, value);
                Ok(StahlVal::Void)
            },
            _ => fail(ErrorKind::TypeMismatch, "vector-push! expects a vector"),
        }
    }

    /// `vector-append!`: moves the elements of the second mutable vector onto the first.
    pub fn mut_vec_append(heap: &mut Heap, args: &[StahlVal]) -> (r: Result<StahlVal, StahlErr>)
        requires
            handles_in(old(heap), args@),
            distinct_vectors(args@),
        ensures
            outcome(r) == mut_vec_append_result(vals(args@)),
            (args@.len() == 2 && args@[0] is MutableVector && args@[1] is MutableVector) ==> {
                let left = args@[0]->MutableVector_0;
                let right = args@[1]->MutableVector_0;
                &&& final(heap).vector_of(left) == old(heap).vector_of(left) + old(heap).vector_of(right)
                &&& final(heap).vector_of(right) == Seq::<SVal>::empty()
                &&& final(heap).values@ == old(heap).values@
                &&& final(heap).vectors@.len() == old(heap).vectors@.len()
                &&& forall|i: int|
                    0 <= i < old(heap).vectors@.len() && i != left.index && i != right.index
                        ==> #[trigger] final(heap).vectors@[i] == old(heap).vectors@[i]
            },
            !(args@.len() == 2 && args@[0] is MutableVector && args@[1] is MutableVector)
                ==> *final(heap) == *old(heap),
    {
        if args.len() != 2 {
            return fail(ErrorKind::ArityMismatch, "vector-append! takes two arguments");
        }
        assert(vals(args@)[0] == args@[0]@);
        assert(vals(args@)[1] == args@[1]@);
        match (&args[0], &args[1]) {
            (StahlVal::MutableVector(left), StahlVal::MutableVector(right)) => {
                assert(heap.has_vector(*left));
                assert(heap.has_vector(*right));
                heap.vector_append(*left, *right);
                Ok(StahlVal::Void)
            },
            (StahlVal::MutableVector(_), _) => fail(
                ErrorKind::TypeMismatch,
                "vector-append! expects a vector in the second position",
            ),
            _ => fail(
                ErrorKind::TypeMismatch,
                "vector-append! expects a vector in the first position",
            ),
        }
    }

    /// `vector-ref`: reads an element of a mutable or an immutable vector.
    pub fn vec_ref(heap: &Heap, args: &[StahlVal]) -> (r: Result<StahlVal, StahlErr>)
        requires
            handles_in(heap, args@),
        ensures
            outcome(r) == vec_ref_result(heap, vals(args@)),
    {
        if args.len() != 2 {
            return fail(ErrorKind::ArityMismatch, "vector-ref takes two arguments");
        }
        assert(vals(args@)[0] == args@[0]@);
        assert(vals(args@)[1] == args@[1]@);
        match &args[0] {
            StahlVal::MutableVector(_) => VectorOperations::mut_vec_get(heap, args),
            StahlVal::VectorV(vec) => {
                assert(vals(vec@).len() == vec@.len());
                match &args[1] {
                    StahlVal::IntV(i) => {
                        let i = *i;
                        if i < 0 {
                            return fail(ErrorKind::TypeMismatch, "vector-ref expected a positive integer");
                        }
                        if (i as usize) < vec.len() {
                            Ok(vec[i as usize].clone())
                        } else {
                            fail(ErrorKind::Generic, "Index out of bounds")
                        }
                    },
                    _ => fail(ErrorKind::TypeMismatch, "vector-ref expected a vector and a number"),
                }
            },
            _ => fail(ErrorKind::TypeMismatch, "vector-ref expected a vector and a number"),
        }
    }

    /// Builds an immutable vector from values that may have failed: the first failure is
    /// raised, else the vector of all values.
    pub fn vec_construct_iter(items: Vec<Result<StahlVal, StahlErr>>) -> (r: Result<
        StahlVal,
        StahlErr,
    >)
        ensures
            match first_error(items@) {
                Some(i) => r == items@[i],
                None => outcome(r) == Ok::<SVal, ErrorKind>(SVal::Vector(ok_vals(items@))),
            },
    {
        let ghost all = items@;
        let mut out: Vec<StahlVal> = Vec::new();
        let mut pending = items;
        let n = pending.len();
        let mut i: usize = 0;
        let mut rest: Vec<Result<StahlVal, StahlErr>> = Vec::new();
        // Walk the items front to back by moving them out of a reversed copy.
        let mut k: usize = n;
        while k > 0
            invariant
                k <= n,
                n == all.len(),
                all == items@,
                pending@ == all.subrange(0, k as int),
                rest@.len() == n - k,
                forall|j: int| 0 <= j < n - k ==> #[trigger] rest@[j] == all[n - 1 - j],
            decreases k,
        {
            let it = pending.pop().unwrap();
            rest.push(it);
            k = k - 1;
        }
        while i < n
            invariant
                i <= n,
                n == all.len(),
                all == items@,
                rest@.len() == n - i,
                forall|j: int| 0 <= j < n - i ==> #[trigger] rest@[j] == all[n - 1 - j],
                forall|j: int| 0 <= j < i ==> !#[trigger] failed_at(all, j),
                vals(out@) == ok_vals(all.subrange(0, i as int)),
            decreases n - i,
        {
            let it = rest.pop().unwrap();
            assert(it == all[i as int]);
            match it {
                Ok(v) => {
                    proof {
                        lemma_vals_push(out@, v);
                    }
                    out.push(v);
                    i = i + 1;
                    assert(vals(out@) =~= ok_vals(all.subrange(0, i as int)));
                },
                Err(e) => {
                    assert(first_error(all) == Some(i as int)) by {
                        assert(failed_at(all, i as int));
                        let c = choose|c: int|
                            #[trigger] failed_at(all, c) && forall|j: int|
                                0 <= j < c ==> !#[trigger] failed_at(all, j);
                        assert(failed_at(all, c));
                        if c < i {
                            assert(!failed_at(all, c));
                        }
                        if c > i {
                            assert(!failed_at(all, i as int));
                        }
                    }
                    let r: Result<StahlVal, StahlErr> = Err(e);
                    assert(r == all[i as int]);
                    return r;
                },
            }
        }
        assert(all.subrange(0, n as int) =~= all);
        assert(!exists|j: int| #[trigger] failed_at(all, j));
        Ok(StahlVal::VectorV(out))
    }

    /// Builds an immutable vector of `items`.
    pub fn vec_construct_iter_normal(items: Vec<StahlVal>) -> (r: Result<StahlVal, StahlErr>)
        ensures
            outcome(r) == Ok::<SVal, ErrorKind>(SVal::Vector(vals(items@))),
    {
        Ok(StahlVal::VectorV(items))
    }

    /// `append` on immutable vectors.
    pub fn vec_append(args: &[StahlVal]) -> (r: Result<StahlVal, StahlErr>)
        ensures
            outcome(r) == vec_append_result(vals(args@)),
    {
        let lists = match unwrap_list_of_lists(args) {
            Ok(ls) => ls,
            Err(e) => {
                return Err(e);
            },
        };
        let ghost a = vals(args@);
        let mut out: Vec<StahlVal> = Vec::new();
        let mut i: usize = 0;
        while i < lists.len()
            invariant
                i <= lists.len(),
                lists.len() == a.len(),
                all_vectors(a),
                forall|j: int| 0 <= j < a.len() ==> vals(#[trigger] lists@[j]@) == vector_items(a[j]),
                vals(out@) == concat_vectors(a.subrange(0, i as int)),
            decreases lists.len() - i,
        {
            assert(a.subrange(0, i + 1).drop_last() =~= a.subrange(0, i as int));
            assert(a[i as int] is Vector);
            extend_vals(&mut out, &lists[i]);
            i = i + 1;
        }
        assert(a.subrange(0, a.len() as int) =~= a);
        Ok(StahlVal::VectorV(out))
    }
}

/// The elements of an immutable vector argument, or a type error.
fn unwrap_single_list(exp: &StahlVal) -> (r: Result<Vec<StahlVal>, StahlErr>)
    ensures
        match exp@ {
            SVal::Vector(items) => r matches Ok(v) && vals(v@) == items,
            _ => r matches Err(e) && e.kind == ErrorKind::TypeMismatch,
        },
{
    match exp {
        StahlVal::VectorV(v) => {
            let c = copy_range(v, 0, v.len());
            assert(vals(v@).subrange(0, v@.len() as int) =~= vals(v@));
            Ok(c)
        },
        _ => Err(StahlErr::new(ErrorKind::TypeMismatch, String::from_str("expected a list"))),
    }
}

/// The elements of each argument, which must all be immutable vectors.
fn unwrap_list_of_lists(args: &[StahlVal]) -> (r: Result<Vec<Vec<StahlVal>>, StahlErr>)
    ensures
        all_vectors(vals(args@)) ==> (r matches Ok(ls) && ls@.len() == args@.len() && forall|j: int|
            0 <= j < args@.len() ==> vals(#[trigger] ls@[j]@) == vector_items(vals(args@)[j])),
        !all_vectors(vals(args@)) ==> (r matches Err(e) && e.kind == ErrorKind::TypeMismatch),
{
    let mut ls: Vec<Vec<StahlVal>> = Vec::new();
    let mut i: usize = 0;
    while i < args.len()
        invariant
            i <= args.len(),
            ls@.len() == i,
            forall|j: int| 0 <= j < i ==> (#[trigger] vals(args@)[j]) is Vector,
            forall|j: int| 0 <= j < i ==> vals(#[trigger] ls@[j]@) == vector_items(vals(args@)[j]),
        decreases args.len() - i,
    {
        assert(vals(args@)[i as int] == args@[i as int]@);
        match unwrap_single_list(&args[i]) {
            Ok(v) => {
                ls.push(v);
            },
            Err(e) => {
                assert(!(vals(args@)[i as int] is Vector));
                return Err(e);
            },
        }
        i = i + 1;
    }
    Ok(ls)
}

/// The start and end positions that the optional arguments `rest` pick in a vector of `n`
/// elements: the whole vector by default.
pub open spec fn bounds_result(rest: Seq<SVal>, n: nat) -> Result<(int, int), ErrorKind> {
    if rest.len() > 2 {
        Err(ErrorKind::ArityMismatch)
    } else if rest.len() >= 1 && !(rest[0] is Int) {
        Err(ErrorKind::ConversionError)
    } else if rest.len() == 2 && !(rest[1] is Int) {
        Err(ErrorKind::ConversionError)
    } else {
        let start = if rest.len() >= 1 {
            rest[0]->Int_0
        } else {
            0
        };
        let end = if rest.len() == 2 {
            rest[1]->Int_0
        } else {
            n as int
        };
        if start < 0 || end < 0 {
            Err(ErrorKind::ContractViolation)
        } else if end > n {
            Err(ErrorKind::ContractViolation)
        } else if start > end {
            Err(ErrorKind::ContractViolation)
        } else {
            Ok((start, end))
        }
    }
}

/// What a computation of bounds means: the positions, or the kind of the error.
pub open spec fn bounds_outcome(r: Result<(usize, usize), StahlErr>) -> Result<(int, int), ErrorKind> {
    match r {
        Ok((s, e)) => Ok((s as int, e as int)),
        Err(e) => Err(e.kind),
    }
}

/// Reads the optional start and end arguments `args[from..]` for a vector of `n` elements.
pub fn bounds(args: &[StahlVal], from: usize, n: usize) -> (r: Result<(usize, usize), StahlErr>)
    requires
        from <= args.len(),
    ensures
        bounds_outcome(r) == bounds_result(vals(args@).subrange(from as int, args@.len() as int), n as nat),
{
    let ghost rest = vals(args@).subrange(from as int, args@.len() as int);
    let count = args.len() - from;
    if count > 2 {
        return Err(StahlErr::new(ErrorKind::ArityMismatch, String::from_str("expects at most 2 bound arguments")));
    }
    let mut start: isize = 0;
    if count >= 1 {
        assert(rest[0] == args@[from as int]@);
        match &args[from] {
            StahlVal::IntV(x) => {
                start = *x;
            },
            _ => {
                return Err(StahlErr::new(ErrorKind::ConversionError, String::from_str("bounds must be integers")));
            },
        }
    }
    let mut end_given = false;
    let mut end_value: isize = 0;
    if count == 2 {
        assert(rest[1] == args@[from + 1]@);
        match &args[from + 1] {
            StahlVal::IntV(x) => {
                end_value = *x;
                end_given = true;
            },
            _ => {
                return Err(StahlErr::new(ErrorKind::ConversionError, String::from_str("bounds must be integers")));
            },
        }
    }
    if start < 0 || (end_given && end_value < 0) {
        return Err(StahlErr::new(ErrorKind::ContractViolation, String::from_str("start and end must be non-negative")));
    }
    let end: usize = if end_given {
        end_value as usize
    } else {
        n
    };
    if end > n {
        return Err(StahlErr::new(ErrorKind::ContractViolation, String::from_str("end bound is out of range")));
    }
    if start as usize > end {
        return Err(StahlErr::new(ErrorKind::ContractViolation, String::from_str("start bound cannot be greater than end bound")));
    }
    Ok((start as usize, end))
}

/// Reads the optional start and end arguments `rest` for the mutable vector `vector`.
fn bounds_mut(rest: &[StahlVal], vector: &Vec<StahlVal>) -> (r: Result<(usize, usize), StahlErr>)
    ensures
        bounds_outcome(r) == bounds_result(vals(rest@), vector@.len()),
{
    assert(vals(rest@).subrange(0, rest@.len() as int) =~= vals(rest@));
    bounds(rest, 0, vector.len())
}

/// The characters of `items`, if every item is a character.
pub open spec fn chars_of(items: Seq<SVal>) -> Option<Seq<char>>
    decreases items.len(),
{
    if items.len() == 0 {
        Some(Seq::empty())
    } else {
        match (chars_of(items.drop_last()), items.last()) {
            (Some(cs), SVal::Char(c)) => Some(cs.push(c)),
            _ => None,
        }
    }
}

/// The string of the characters at positions `start .. end` of `v`, or a type error when
/// one of them is no character.
fn collect_chars(v: &Vec<StahlVal>, start: usize, end: usize) -> (r: Result<StahlVal, StahlErr>)
    requires
        start <= end <= v.len(),
    ensures
        outcome(r) == match chars_of(vals(v@).subrange(start as int, end as int)) {
            Some(cs) => Ok::<SVal, ErrorKind>(SVal::Str(cs)),
            None => Err(ErrorKind::TypeMismatch),
        },
{
    let ghost items = vals(v@).subrange(start as int, end as int);
    let mut buf = String::new();
    let mut i: usize = start;
    while i < end
        invariant
            start <= i <= end,
            end <= v.len(),
            items == vals(v@).subrange(start as int, end as int),
            chars_of(items.subrange(0, i - start)) == Some(buf@),
        decreases end - i,
    {
        assert(items.subrange(0, i + 1 - start).drop_last() =~= items.subrange(0, i - start));
        assert(items.subrange(0, i + 1 - start).last() == v@[i as int]@);
        match &v[i] {
            StahlVal::CharV(c) => {
                push_char(&mut buf, *c);
            },
            _ => {
                proof {
                    lemma_chars_prefix(items, (i + 1 - start) as nat);
                }
                return fail(ErrorKind::TypeMismatch, "expected a succession of characters");
            },
        }
        i = i + 1;
    }
    assert(items.subrange(0, end - start) =~= items);
    Ok(StahlVal::StringV(buf))
}

/// A sequence whose prefix holds a non-character holds a non-character.
proof fn lemma_chars_prefix(items: Seq<SVal>, k: nat)
    requires
        k <= items.len(),
        chars_of(items.subrange(0, k as int)) is None,
    ensures
        chars_of(items) is None,
    decreases items.len() - k,
{
    if k < items.len() {
        assert(items.subrange(0, k + 1 as int).drop_last() =~= items.subrange(0, k as int));
        lemma_chars_prefix(items, k + 1);
    } else {
        assert(items.subrange(0, k as int) =~= items);
    }
}

/// `immutable-vector->list`: the elements between the bounds, as a list.
pub fn immutable_vector_to_list(vector: &Vec<StahlVal>, rest: &[StahlVal]) -> (r: Result<StahlVal, StahlErr>)
    ensures
        outcome(r) == match bounds_result(vals(rest@), vector@.len()) {
            Ok((s, e)) => Ok::<SVal, ErrorKind>(SVal::List(vals(vector@).subrange(s, e))),
            Err(k) => Err(k),
        },
{
    match bounds_mut(rest, vector) {
        Ok((start, end)) => Ok(StahlVal::ListV(copy_range(vector, start, end))),
        Err(e) => Err(e),
    }
}

/// `immutable-vector->string`: the characters between the bounds, as a string.
pub fn immutable_vector_to_string(vector: &Vec<StahlVal>, rest: &[StahlVal]) -> (r: Result<StahlVal, StahlErr>)
    ensures
        outcome(r) == match bounds_result(vals(rest@), vector@.len()) {
            Ok((s, e)) => match chars_of(vals(vector@).subrange(s, e)) {
                Some(cs) => Ok::<SVal, ErrorKind>(SVal::Str(cs)),
                None => Err(ErrorKind::TypeMismatch),
            },
            Err(k) => Err(k),
        },
{
    match bounds_mut(rest, vector) {
        Ok((start, end)) => collect_chars(vector, start, end),
        Err(e) => Err(e),
    }
}

/// `immutable-vector-copy`: the elements between the bounds, as a new immutable vector.
pub fn immutable_vector_copy(vector: &Vec<StahlVal>, rest: &[StahlVal]) -> (r: Result<StahlVal, StahlErr>)
    ensures
        outcome(r) == match bounds_result(vals(rest@), vector@.len()) {
            Ok((s, e)) => Ok::<SVal, ErrorKind>(SVal::Vector(vals(vector@).subrange(s, e))),
            Err(k) => Err(k),
        },
{
    match bounds_mut(rest, vector) {
        Ok((start, end)) => Ok(StahlVal::VectorV(copy_range(vector, start, end))),
        Err(e) => Err(e),
    }
}

/// `immutable-vector`: an immutable vector of the arguments.
pub fn immutable_vector_construct(args: &[StahlVal]) -> (r: Result<StahlVal, StahlErr>)
    ensures
        outcome(r) == Ok::<SVal, ErrorKind>(SVal::Vector(vals(args@))),
{
    Ok(StahlVal::VectorV(copy_slice(args)))
}

/// `vector-immutable`: an immutable vector of the arguments.
pub fn immutable_vector_construct_alternate(args: &[StahlVal]) -> (r: Result<StahlVal, StahlErr>)
    ensures
        outcome(r) == Ok::<SVal, ErrorKind>(SVal::Vector(vals(args@))),
{
    immutable_vector_construct(args)
}

/// Copies the values of a slice.
pub fn copy_slice(args: &[StahlVal]) -> (r: Vec<StahlVal>)
    ensures
        vals(r@) == vals(args@),
{
    let mut r: Vec<StahlVal> = Vec::new();
    let mut i: usize = 0;
    while i < args.len()
        invariant
            i <= args.len(),
            vals(r@) == vals(args@).subrange(0, i as int),
        decreases args.len() - i,
    {
        let c = args[i].clone();
        proof {
            lemma_vals_push(r@, c);
        }
        r.push(c);
        i = i + 1;
        assert(vals(r@) =~= vals(args@).subrange(0, i as int));
    }
    assert(vals(args@).subrange(0, args@.len() as int) =~= vals(args@));
    r
}


/// `immutable-vector-append`: the concatenation of the arguments, which must all be
/// immutable vectors.
pub fn immutable_vector_append(rest: &[StahlVal]) -> (r: Result<StahlVal, StahlErr>)
    ensures
        outcome(r) == if all_vectors(vals(rest@)) {
            Ok::<SVal, ErrorKind>(SVal::Vector(concat_vectors(vals(rest@))))
        } else {
            Err(ErrorKind::ConversionError)
        },
{
    match VectorOperations::vec_append(rest) {
        Ok(v) => Ok(v),
        Err(_) => fail(ErrorKind::ConversionError, "expected immutable vectors"),
    }
}

/// What `make-immutable-vector` builds: `len` copies of `fill` (default: nothing).
pub open spec fn make_immutable_vector_result(rest: Seq<SVal>) -> Result<SVal, ErrorKind> {
    if rest.len() > 2 {
        Err(ErrorKind::ArityMismatch)
    } else if rest.len() >= 1 && !(rest[0] is Int) {
        Err(ErrorKind::ContractViolation)
    } else {
        let len = if rest.len() >= 1 {
            rest[0]->Int_0
        } else {
            0
        };
        let fill = if rest.len() == 2 {
            rest[1]
        } else {
            SVal::Void
        };
        if len < 0 {
            Err(ErrorKind::ContractViolation)
        } else {
            Ok(SVal::Vector(Seq::new(len as nat, |i: int| fill)))
        }
    }
}

/// `make-immutable-vector`: an immutable vector of a length, filled with one value.
pub fn make_immutable_vector(rest: &[StahlVal]) -> (r: Result<StahlVal, StahlErr>)
    ensures
        outcome(r) == make_immutable_vector_result(vals(rest@)),
{
    if rest.len() > 2 {
        return fail(ErrorKind::ArityMismatch, "make-immutable-vector expects at most 2 arguments");
    }
    let mut len: isize = 0;
    if rest.len() >= 1 {
        assert(vals(rest@)[0] == rest@[0]@);
        match &rest[0] {
            StahlVal::IntV(n) => {
                len = *n;
            },
            _ => {
                return fail(ErrorKind::ContractViolation, "length should be an integer");
            },
        }
    }
    if len < 0 {
        return fail(ErrorKind::ContractViolation, "length should be non-negative");
    }
    let fill = if rest.len() == 2 {
        assert(vals(rest@)[1] == rest@[1]@);
        rest[1].clone()
    } else {
        StahlVal::Void
    };
    Ok(StahlVal::VectorV(repeat_value(&fill, len as usize)))
}

/// `n` copies of `fill`.
pub fn repeat_value(fill: &StahlVal, n: usize) -> (r: Vec<StahlVal>)
    ensures
        vals(r@) == Seq::new(n as nat, |i: int| fill@),
{
    let mut r: Vec<StahlVal> = Vec::new();
    let mut i: usize = 0;
    while i < n
        invariant
            i <= n,
            vals(r@) == Seq::new(i as nat, |j: int| fill@),
        decreases n - i,
    {
        let c = fill.clone();
        proof {
            lemma_vals_push(r@, c);
        }
        r.push(c);
        i = i + 1;
        assert(vals(r@) =~= Seq::new(i as nat, |j: int| fill@));
    }
    r
}

/// The contents of an immutable vector argument, for the functional updates below.
pub open spec fn vector_items(v: SVal) -> Seq<SVal> {
    match v {
        SVal::Vector(items) => items,
        _ => Seq::empty(),
    }
}

/// A vector with `value` at its back.
pub open spec fn push_back_result(vector: SVal, value: SVal) -> Result<SVal, ErrorKind> {
    match vector {
        SVal::Vector(items) => Ok(SVal::Vector(items.push(value))),
        _ => Err(ErrorKind::TypeMismatch),
    }
}

/// The pair of the last element of a vector and the rest, or false for an empty vector.
pub open spec fn pop_back_result(vector: SVal) -> Result<SVal, ErrorKind> {
    match vector {
        SVal::Vector(items) => if items.len() == 0 {
            Ok(SVal::Bool(false))
        } else {
            Ok(SVal::Pair(Box::new(items.last()), Box::new(SVal::Vector(items.drop_last()))))
        },
        _ => Err(ErrorKind::TypeMismatch),
    }
}

/// The first `count` elements of a vector, all of them when there are fewer.
pub open spec fn take_result(vector: SVal, count: nat) -> Result<SVal, ErrorKind> {
    match vector {
        SVal::Vector(items) => Ok(
            SVal::Vector(
                if count <= items.len() {
                    items.take(count as int)
                } else {
                    items
                },
            ),
        ),
        _ => Err(ErrorKind::TypeMismatch),
    }
}

/// A vector without its first `count` elements, empty when there are fewer.
pub open spec fn drop_result(vector: SVal, count: nat) -> Result<SVal, ErrorKind> {
    match vector {
        SVal::Vector(items) => Ok(
            SVal::Vector(
                if count <= items.len() {
                    items.skip(count as int)
                } else {
                    Seq::empty()
                },
            ),
        ),
        _ => Err(ErrorKind::TypeMismatch),
    }
}

/// `immutable-vector-push`: the vector with `value` at its back.
pub fn immutable_vector_push(vector: &StahlVal, value: StahlVal) -> (r: Result<StahlVal, StahlErr>)
    ensures
        outcome(r) == push_back_result(vector@, value@),
{
    match vector {
        StahlVal::VectorV(v) => {
            let mut items = copy_range(v, 0, v.len());
            assert(vals(v@).subrange(0, v@.len() as int) =~= vals(v@));
            proof {
                lemma_vals_push(items@, value);
            }
            items.push(value);
            Ok(StahlVal::VectorV(items))
        },
        _ => fail(ErrorKind::TypeMismatch, "immutable-vector-push expected a vector"),
    }
}

/// `vector-push-front`: the vector with `value` in front.
pub fn immutable_vector_push_front(vector: &StahlVal, value: StahlVal) -> (r: Result<StahlVal, StahlErr>)
    ensures
        outcome(r) == match vector@ {
            SVal::Vector(items) => Ok::<SVal, ErrorKind>(SVal::Vector(seq![value@] + items)),
            _ => Err(ErrorKind::TypeMismatch),
        },
{
    match vector {
        StahlVal::VectorV(v) => {
            let mut items: Vec<StahlVal> = Vec::new();
            let ghost x = value@;
            proof {
                lemma_vals_push(items@, value);
            }
            items.push(value);
            extend_vals(&mut items, v);
            assert(vals(items@) =~= seq![x] + vals(v@));
            Ok(StahlVal::VectorV(items))
        },
        _ => fail(ErrorKind::TypeMismatch, "vector-push-front expected an immutable vector"),
    }
}

/// `immutable-vector-set`: the vector with `value` at `index`.
pub fn immutable_vector_set(vector: &StahlVal, index: usize, value: StahlVal) -> (r: Result<StahlVal, StahlErr>)
    ensures
        outcome(r) == match vector@ {
            SVal::Vector(items) => if index >= items.len() {
                Err(ErrorKind::Generic)
            } else {
                Ok::<SVal, ErrorKind>(SVal::Vector(items.update(index as int, value@)))
            },
            _ => Err(ErrorKind::TypeMismatch),
        },
{
    match vector {
        StahlVal::VectorV(v) => {
            assert(vals(v@).len() == v@.len());
            if index >= v.len() {
                return fail(ErrorKind::Generic, "immutable-vector-set: index out of bounds");
            }
            let mut items = copy_range(v, 0, v.len());
            assert(vals(v@).subrange(0, v@.len() as int) =~= vals(v@));
            proof {
                lemma_vals_update(items@, index as int, value);
            }
            items.set(index, value);
            Ok(StahlVal::VectorV(items))
        },
        _ => fail(ErrorKind::TypeMismatch, "immutable-vector-set expected an immutable vector"),
    }
}

/// `immutable-vector-pop-back`: the pair of the last element and the rest, or false for an
/// empty vector.
pub fn immutable_vector_pop_back(vector: &StahlVal) -> (r: Result<StahlVal, StahlErr>)
    ensures
        outcome(r) == pop_back_result(vector@),
{
    match vector {
        StahlVal::VectorV(v) => {
            assert(vals(v@).len() == v@.len());
            if v.len() == 0 {
                return Ok(StahlVal::BoolV(false));
            }
            let n = v.len();
            let rest = copy_range(v, 0, n - 1);
            let back = v[n - 1].clone();
            assert(vals(v@).subrange(0, n - 1) =~= vals(v@).drop_last());
            assert(back@ == vals(v@).last());
            let cdr = StahlVal::VectorV(rest);
            assert(cdr@ == SVal::Vector(vals(v@).drop_last()));
            let p = StahlVal::Pair(Box::new(Pair { car: back, cdr }));
            assert(p@ == SVal::Pair(Box::new(back@), Box::new(cdr@)));
            Ok(p)
        },
        _ => fail(ErrorKind::TypeMismatch, "immutable-vector-pop-back expected an immutable vector"),
    }
}

/// `immutable-vector-take`: the first `count` elements (all of them when there are fewer).
pub fn immutable_vector_take(vector: &StahlVal, count: usize) -> (r: Result<StahlVal, StahlErr>)
    ensures
        outcome(r) == take_result(vector@, count as nat),
{
    match vector {
        StahlVal::VectorV(v) => {
            assert(vals(v@).len() == v@.len());
            let end = if count <= v.len() {
                count
            } else {
                v.len()
            };
            assert(vals(v@).subrange(0, v@.len() as int) =~= vals(v@));
            assert(vals(v@).subrange(0, end as int) =~= vals(v@).take(end as int));
            Ok(StahlVal::VectorV(copy_range(v, 0, end)))
        },
        _ => fail(ErrorKind::TypeMismatch, "immutable-vector-take expected an immutable vector"),
    }
}

/// `immutable-vector-drop`: all but the first `count` elements (none when there are fewer).
pub fn immutable_vector_drop(vector: &StahlVal, count: usize) -> (r: Result<StahlVal, StahlErr>)
    ensures
        outcome(r) == drop_result(vector@, count as nat),
{
    match vector {
        StahlVal::VectorV(v) => {
            assert(vals(v@).len() == v@.len());
            let start = if count <= v.len() {
                count
            } else {
                v.len()
            };
            assert(vals(v@).subrange(start as int, v@.len() as int) =~= if count <= v@.len() {
                vals(v@).skip(count as int)
            } else {
                Seq::empty()
            });
            Ok(StahlVal::VectorV(copy_range(v, start, v.len())))
        },
        _ => fail(ErrorKind::TypeMismatch, "immutable-vector-drop expected an immutable vector"),
    }
}

/// `immutable-vector-rest`: the vector without its first element (still empty when empty).
pub fn immutable_vector_rest(vector: &StahlVal) -> (r: Result<StahlVal, StahlErr>)
    ensures
        outcome(r) == match vector@ {
            SVal::Vector(items) => Ok::<SVal, ErrorKind>(
                SVal::Vector(
                    if items.len() == 0 {
                        items
                    } else {
                        items.drop_first()
                    },
                ),
            ),
            _ => Err(ErrorKind::TypeMismatch),
        },
{
    match vector {
        StahlVal::VectorV(v) => {
            assert(vals(v@).len() == v@.len());
            if v.len() == 0 {
                let empty: Vec<StahlVal> = Vec::new();
                assert(vals(empty@) =~= vals(v@));
                return Ok(StahlVal::VectorV(empty));
            }
            assert(vals(v@).subrange(1, v@.len() as int) =~= vals(v@).drop_first());
            Ok(StahlVal::VectorV(copy_range(v, 1, v.len())))
        },
        _ => fail(ErrorKind::TypeMismatch, "immutable-vector-rest expected an immutable vector"),
    }
}


/// `mutable-vector->clear`: empties a mutable vector.
pub fn mutable_vector_clear(heap: &mut Heap, vec: HeapRef)
    requires
        old(heap).has_vector(vec),
    ensures
        final(heap).updates_vector(old(heap), vec, Seq::empty()),
{
    heap.vector_clear(vec)
}

/// `mutable-vector->string`: the characters of a mutable vector, as a string.
pub fn mutable_vector_to_string(heap: &Heap, vec: HeapRef) -> (r: Result<StahlVal, StahlErr>)
    requires
        heap.has_vector(vec),
    ensures
        outcome(r) == match chars_of(heap.vector_of(vec)) {
            Some(cs) => Ok::<SVal, ErrorKind>(SVal::Str(cs)),
            None => Err(ErrorKind::TypeMismatch),
        },
{
    let items = heap.vector_items(vec);
    assert(vals(items@).subrange(0, items@.len() as int) =~= vals(items@));
    collect_chars(&items, 0, items.len())
}

/// `mutable-vector-pop!`: removes and gives the last element, or false when empty.
pub fn mutable_vector_pop(heap: &mut Heap, vec: HeapRef) -> (r: Result<StahlVal, StahlErr>)
    requires
        old(heap).has_vector(vec),
    ensures
        old(heap).vector_of(vec).len() == 0 ==> outcome(r) == Ok::<SVal, ErrorKind>(SVal::Bool(false))
            && final(heap).updates_vector(old(heap), vec, old(heap).vector_of(vec)),
        old(heap).vector_of(vec).len() > 0 ==> outcome(r) == Ok::<SVal, ErrorKind>(
            old(heap).vector_of(vec).last(),
        ) && final(heap).updates_vector(old(heap), vec, old(heap).vector_of(vec).drop_last()),
{
    match heap.vector_pop(vec) {
        Some(v) => Ok(v),
        None => Ok(StahlVal::BoolV(false)),
    }
}

/// `mutable-vector`: a new mutable vector of the arguments.
pub fn mut_vec_construct(heap: &mut Heap, args: &[StahlVal]) -> (r: Result<StahlVal, StahlErr>)
    ensures
        final(heap).allocates_vector(old(heap), vals(args@)),
        outcome(r) == Ok::<SVal, ErrorKind>(SVal::MutVector(old(heap).vectors@.len())),
{
    let items = copy_slice(args);
    Ok(heap.new_vector(items))
}

/// `vector`: a new mutable vector of the arguments.
pub fn mut_vec_construct_vec(heap: &mut Heap, args: &[StahlVal]) -> (r: Result<StahlVal, StahlErr>)
    ensures
        final(heap).allocates_vector(old(heap), vals(args@)),
        outcome(r) == Ok::<SVal, ErrorKind>(SVal::MutVector(old(heap).vectors@.len())),
{
    mut_vec_construct(heap, args)
}

/// The contents that `make-vector` gives its new vector, if the arguments are right: a
/// non-negative length, and optionally the value to fill it with (default: 0).
pub open spec fn make_vector_items(a: Seq<SVal>) -> Option<Seq<SVal>> {
    if (a.len() == 1 || a.len() == 2) && a[0] is Int && a[0]->Int_0 >= 0 {
        let fill = if a.len() == 2 {
            a[1]
        } else {
            SVal::Int(0)
        };
        Some(Seq::new(a[0]->Int_0 as nat, |i: int| fill))
    } else {
        None
    }
}

/// `make-vector`: a new mutable vector of a length, filled with one value.
pub fn make_vector(heap: &mut Heap, args: &[StahlVal]) -> (r: Result<StahlVal, StahlErr>)
    ensures
        match make_vector_items(vals(args@)) {
            Some(items) => final(heap).allocates_vector(old(heap), items) && outcome(r) == Ok::<
                SVal,
                ErrorKind,
            >(SVal::MutVector(old(heap).vectors@.len())),
            None => outcome(r) == Err::<SVal, ErrorKind>(ErrorKind::TypeMismatch) && *final(heap)
                == *old(heap),
        },
{
    if args.len() == 1 || args.len() == 2 {
        assert(vals(args@)[0] == args@[0]@);
        match &args[0] {
            StahlVal::IntV(n) => {
                if *n >= 0 {
                    let fill = if args.len() == 2 {
                        assert(vals(args@)[1] == args@[1]@);
                        args[1].clone()
                    } else {
                        StahlVal::IntV(0)
                    };
                    let items = repeat_value(&fill, *n as usize);
                    return Ok(heap.new_vector(items));
                }
            },
            _ => {},
        }
    }
    fail(ErrorKind::TypeMismatch, "make-vector expects a positive integer, and optionally a value to initialize the vector with")
}

/// The contents of a vector argument: an immutable vector's elements, or the elements of
/// the mutable vector it names.
pub open spec fn any_vector_items(heap: &Heap, v: SVal) -> Option<Seq<SVal>> {
    match v {
        SVal::Vector(items) => Some(items),
        SVal::MutVector(n) => Some(heap.vector_at(n)),
        _ => None,
    }
}

/// A copy of the contents of a vector argument.
fn items_of(heap: &Heap, v: &StahlVal) -> (r: Option<Vec<StahlVal>>)
    requires
        *v matches StahlVal::MutableVector(h) ==> heap.has_vector(h),
    ensures
        match any_vector_items(heap, v@) {
            Some(items) => r matches Some(c) && vals(c@) == items,
            None => r is None,
        },
{
    match v {
        StahlVal::VectorV(items) => {
            let c = copy_range(items, 0, items.len());
            assert(vals(items@).subrange(0, items@.len() as int) =~= vals(items@));
            Some(c)
        },
        StahlVal::MutableVector(h) => Some(heap.vector_items(*h)),
        _ => None,
    }
}

/// `vector->string`: the characters between the bounds of a mutable or immutable vector.
pub fn vector_to_string(heap: &Heap, vector: &StahlVal, rest: &[StahlVal]) -> (r: Result<StahlVal, StahlErr>)
    requires
        *vector matches StahlVal::MutableVector(h) ==> heap.has_vector(h),
    ensures
        outcome(r) == match any_vector_items(heap, vector@) {
            Some(items) => match bounds_result(vals(rest@), items.len()) {
                Ok((s, e)) => match chars_of(items.subrange(s, e)) {
                    Some(cs) => Ok::<SVal, ErrorKind>(SVal::Str(cs)),
                    None => Err(ErrorKind::TypeMismatch),
                },
                Err(k) => Err(k),
            },
            None => Err(ErrorKind::ConversionError),
        },
{
    match items_of(heap, vector) {
        Some(items) => immutable_vector_to_string(&items, rest),
        None => fail(ErrorKind::ConversionError, "vector->string expected a vector"),
    }
}

/// `vector-copy`: a copy of the elements between the bounds, of the same kind of vector as
/// the first argument (a new mutable vector for a mutable one).
pub fn vector_copy(heap: &mut Heap, args: &[StahlVal]) -> (r: Result<StahlVal, StahlErr>)
    requires
        args.len() >= 1,
        handles_in(old(heap), args@),
    ensures
        ({
            let rest = vals(args@).subrange(1, args@.len() as int);
            match args@[0]@ {
                SVal::Vector(items) => *final(heap) == *old(heap) && outcome(r) == match bounds_result(rest, items.len()) {
                    Ok((s, e)) => Ok::<SVal, ErrorKind>(SVal::Vector(items.subrange(s, e))),
                    Err(k) => Err(k),
                },
                SVal::MutVector(n) => match bounds_result(rest, old(heap).vector_at(n).len()) {
                    Ok((s, e)) => final(heap).allocates_vector(old(heap), old(heap).vector_at(n).subrange(s, e))
                        && outcome(r) == Ok::<SVal, ErrorKind>(SVal::MutVector(old(heap).vectors@.len())),
                    Err(k) => *final(heap) == *old(heap) && outcome(r) == Err::<SVal, ErrorKind>(k),
                },
                _ => *final(heap) == *old(heap) && outcome(r) == Err::<SVal, ErrorKind>(ErrorKind::TypeMismatch),
            }
        }),
{
    match &args[0] {
        StahlVal::VectorV(v) => {
            let b = bounds(args, 1, v.len());
            assert(vals(v@).len() == v@.len());
            match b {
                Ok((start, end)) => Ok(StahlVal::VectorV(copy_range(v, start, end))),
                Err(e) => Err(e),
            }
        },
        StahlVal::MutableVector(h) => {
            assert(args@[0] matches StahlVal::MutableVector(g) && heap.has_vector(g));
            let items = heap.vector_items(*h);
            match bounds(args, 1, items.len()) {
                Ok((start, end)) => {
                    let copy = copy_range(&items, start, end);
                    Ok(heap.new_vector(copy))
                },
                Err(e) => Err(e),
            }
        },
        _ => fail(ErrorKind::TypeMismatch, "vector-copy expected a vector"),
    }
}

/// The concatenation of the contents of vector arguments, if they all are vectors.
pub open spec fn concat_any_vectors(heap: &Heap, a: Seq<SVal>) -> Option<Seq<SVal>>
    decreases a.len(),
{
    if a.len() == 0 {
        Some(Seq::empty())
    } else {
        match (concat_any_vectors(heap, a.drop_last()), any_vector_items(heap, a.last())) {
            (Some(front), Some(back)) => Some(front + back),
            _ => None,
        }
    }
}

proof fn lemma_concat_any_prefix(heap: &Heap, a: Seq<SVal>, k: nat)
    requires
        k <= a.len(),
        concat_any_vectors(heap, a.subrange(0, k as int)) is None,
    ensures
        concat_any_vectors(heap, a) is None,
    decreases a.len() - k,
{
    if k < a.len() {
        assert(a.subrange(0, k + 1 as int).drop_last() =~= a.subrange(0, k as int));
        lemma_concat_any_prefix(heap, a, k + 1);
    } else {
        assert(a.subrange(0, k as int) =~= a);
    }
}

/// `vector-append`: a new mutable vector of the elements of all the arguments, which must be
/// vectors of either kind.
pub fn vector_append(heap: &mut Heap, args: &[StahlVal]) -> (r: Result<StahlVal, StahlErr>)
    requires
        handles_in(old(heap), args@),
    ensures
        match concat_any_vectors(old(heap), vals(args@)) {
            Some(items) => final(heap).allocates_vector(old(heap), items) && outcome(r) == Ok::<
                SVal,
                ErrorKind,
            >(SVal::MutVector(old(heap).vectors@.len())),
            None => *final(heap) == *old(heap) && outcome(r) == Err::<SVal, ErrorKind>(
                ErrorKind::TypeMismatch,
            ),
        },
{
    let ghost a = vals(args@);
    let mut out: Vec<StahlVal> = Vec::new();
    let mut i: usize = 0;
    while i < args.len()
        invariant
            i <= args.len(),
            a == vals(args@),
            handles_in(heap, args@),
            concat_any_vectors(heap, a.subrange(0, i as int)) == Some(vals(out@)),
        decreases args.len() - i,
    {
        assert(a.subrange(0, i + 1).drop_last() =~= a.subrange(0, i as int));
        assert(a.subrange(0, i + 1).last() == args@[i as int]@);
        assert(args@[i as int] matches StahlVal::MutableVector(h) ==> heap.has_vector(h));
        match items_of(heap, &args[i]) {
            Some(items) => {
                extend_vals(&mut out, &items);
            },
            None => {
                proof {
                    lemma_concat_any_prefix(heap, a, (i + 1) as nat);
                }
                return fail(ErrorKind::TypeMismatch, "vector-append expects only vectors");
            },
        }
        i = i + 1;
    }
    assert(a.subrange(0, args@.len() as int) =~= a);
    Ok(heap.new_vector(out))
}

/// `vector-push`: a new immutable vector with `value` at the back, or, for a mutable vector,
/// `value` pushed onto it.
pub fn vector_push(heap: &mut Heap, vector: &StahlVal, value: StahlVal) -> (r: Result<StahlVal, StahlErr>)
    requires
        *vector matches StahlVal::MutableVector(h) ==> old(heap).has_vector(h),
    ensures
        match *vector {
            StahlVal::VectorV(v) => *final(heap) == *old(heap) && outcome(r) == Ok::<SVal, ErrorKind>(
                SVal::Vector(vals(v@).push(value@)),
            ),
            StahlVal::MutableVector(h) => final(heap).updates_vector(
                old(heap),
                h,
                old(heap).vector_of(h).push(value@),
            ) && outcome(r) == Ok::<SVal, ErrorKind>(SVal::Void),
            _ => *final(heap) == *old(heap) && outcome(r) == Err::<SVal, ErrorKind>(
                ErrorKind::TypeMismatch,
            ),
        },
{
    match vector {
        StahlVal::VectorV(_) => immutable_vector_push(vector, value),
        StahlVal::MutableVector(h) => {
            heap.vector_push(*h, value);
            Ok(StahlVal::Void)
        },
        _ => fail(ErrorKind::TypeMismatch, "vector-push expected either a mutable or immutable vector"),
    }
}

/// `dest` with `src` written over it from position `at` on, as far as `dest` reaches.
pub open spec fn copy_into(dest: Seq<SVal>, at: int, src: Seq<SVal>) -> Seq<SVal> {
    Seq::new(
        dest.len(),
        |i: int|
            if at <= i && i - at < src.len() {
                src[i - at]
            } else {
                dest[i]
            },
    )
}

/// What `vector-copy!` does to its destination, or the kind of the error it raises.
pub open spec fn mut_vector_copy_result(
    dest: Seq<SVal>,
    at: int,
    src: Option<Seq<SVal>>,
    rest: Seq<SVal>,
) -> Result<Seq<SVal>, ErrorKind> {
    match src {
        None => Err(ErrorKind::ConversionError),
        Some(items) => match bounds_result(rest, items.len()) {
            Err(k) => Err(k),
            Ok((s, e)) => if at > dest.len() {
                Err(ErrorKind::Generic)
            } else {
                Ok(copy_into(dest, at, items.subrange(s, e)))
            },
        },
    }
}

/// `vector-copy!`: copies the elements between the bounds of `src` into the mutable vector
/// `dest`, from `dest_start` on. Elements that would fall past the end of `dest` are dropped;
/// `src` may be `dest` itself, in which case the elements are read before any is written.
pub fn mut_vector_copy(
    heap: &mut Heap,
    dest: HeapRef,
    dest_start: usize,
    src: &StahlVal,
    rest: &[StahlVal],
) -> (r: Result<StahlVal, StahlErr>)
    requires
        old(heap).has_vector(dest),
        *src matches StahlVal::MutableVector(h) ==> old(heap).has_vector(h),
    ensures
        match mut_vector_copy_result(
            old(heap).vector_of(dest),
            dest_start as int,
            any_vector_items(old(heap), src@),
            vals(rest@),
        ) {
            Ok(items) => final(heap).updates_vector(old(heap), dest, items) && outcome(r) == Ok::<
                SVal,
                ErrorKind,
            >(SVal::Void),
            Err(k) => *final(heap) == *old(heap) && outcome(r) == Err::<SVal, ErrorKind>(k),
        },
{
    let source = match items_of(heap, src) {
        Some(items) => items,
        None => {
            return fail(ErrorKind::ConversionError, "vector-copy! expected a vector to copy from");
        },
    };
    let (start, end) = match bounds_mut(rest, &source) {
        Ok(b) => b,
        Err(e) => {
            return Err(e);
        },
    };
    let n = heap.vector_len(dest);
    if dest_start > n {
        return fail(ErrorKind::Generic, "vector-copy!: dest-start must be within the range of the destination vector");
    }
    let ghost h0 = *heap;
    let ghost d0 = heap.vector_of(dest);
    let ghost part = vals(source@).subrange(start as int, end as int);
    let mut k: usize = 0;
    proof {
        assert(copy_into(d0, dest_start as int, part.subrange(0, 0)) =~= d0);
        assert(heap.same_except_vector(&h0, dest));
    }
    while k < end - start && dest_start + k < n
        invariant
            start <= end <= source@.len(),
            dest_start <= n,
            n == d0.len(),
            k <= end - start,
            dest_start + k <= n,
            part == vals(source@).subrange(start as int, end as int),
            d0 == h0.vector_of(dest),
            h0.has_vector(dest),
            heap.updates_vector(&h0, dest, copy_into(d0, dest_start as int, part.subrange(0, k as int))),
        decreases end - start - k,
    {
        let x = source[start + k].clone();
        let ghost h1 = *heap;
        let ghost before = copy_into(d0, dest_start as int, part.subrange(0, k as int));
        heap.vector_set(dest, dest_start + k, x);
        proof {
            assert(before.update(dest_start + k, x@) =~= copy_into(d0, dest_start as int, part.subrange(0, k + 1)));
            Heap::lemma_updates_trans(heap, &h1, &h0, dest, before, before.update(dest_start + k, x@));
        }
        k = k + 1;
    }
    assert(copy_into(d0, dest_start as int, part.subrange(0, k as int)) =~= copy_into(d0, dest_start as int, part));
    Ok(StahlVal::Void)
}

/// `vector-fill!`: stores `element` at every position between the bounds of a mutable vector.
pub fn vector_fill(heap: &mut Heap, vec: HeapRef, element: StahlVal, rest: &[StahlVal]) -> (r: Result<StahlVal, StahlErr>)
    requires
        old(heap).has_vector(vec),
    ensures
        match bounds_result(vals(rest@), old(heap).vector_of(vec).len()) {
            Ok((s, e)) => final(heap).updates_vector(
                old(heap),
                vec,
                Seq::new(
                    old(heap).vector_of(vec).len(),
                    |i: int|
                        if s <= i < e {
                            element@
                        } else {
                            old(heap).vector_of(vec)[i]
                        },
                ),
            ) && outcome(r) == Ok::<SVal, ErrorKind>(SVal::Void),
            Err(k) => *final(heap) == *old(heap) && outcome(r) == Err::<SVal, ErrorKind>(k),
        },
{
    let n = heap.vector_len(vec);
    let (start, end) = match bounds(rest, 0, n) {
        Ok(b) => b,
        Err(e) => {
            assert(vals(rest@).subrange(0, rest@.len() as int) =~= vals(rest@));
            return Err(e);
        },
    };
    assert(vals(rest@).subrange(0, rest@.len() as int) =~= vals(rest@));
    let ghost h0 = *heap;
    let ghost d0 = heap.vector_of(vec);
    let ghost x = element@;
    let mut i: usize = start;
    proof {
        assert(Seq::new(d0.len(), |j: int| if start <= j < start { x } else { d0[j] }) =~= d0);
    }
    while i < end
        invariant
            start <= i <= end,
            end <= n,
            n == d0.len(),
            d0 == h0.vector_of(vec),
            h0.has_vector(vec),
            x == element@,
            heap.updates_vector(&h0, vec, Seq::new(d0.len(), |j: int| if start <= j < i { x } else { d0[j] })),
        decreases end - i,
    {
        let c = element.clone();
        let ghost h1 = *heap;
        let ghost before = Seq::new(d0.len(), |j: int| if start <= j < i { x } else { d0[j] });
        heap.vector_set(vec, i, c);
        proof {
            assert(before.update(i as int, x) =~= Seq::new(d0.len(), |j: int| if start <= j < i + 1 { x } else { d0[j] }));
            Heap::lemma_updates_trans(heap, &h1, &h0, vec, before, before.update(i as int, x));
        }
        i = i + 1;
    }
    assert(Seq::new(d0.len(), |j: int| if start <= j < i { x } else { d0[j] }) =~= Seq::new(
        old(heap).vector_of(vec).len(),
        |j: int|
            if start <= j < end {
                element@
            } else {
                old(heap).vector_of(vec)[j]
            },
    ));
    Ok(StahlVal::Void)
}

/// `mutable-vector->list`: the elements between the bounds of a mutable vector, as a list.
pub fn mut_vec_to_list(heap: &Heap, vec: HeapRef, rest: &[StahlVal]) -> (r: Result<StahlVal, StahlErr>)
    requires
        heap.has_vector(vec),
    ensures
        outcome(r) == match bounds_result(vals(rest@), heap.vector_of(vec).len()) {
            Ok((s, e)) => Ok::<SVal, ErrorKind>(SVal::List(heap.vector_of(vec).subrange(s, e))),
            Err(k) => Err(k),
        },
{
    let items = heap.vector_items(vec);
    immutable_vector_to_list(&items, rest)
}

/// `mut-vec-len`: the number of elements of a mutable vector.
pub fn mut_vec_length(heap: &Heap, vec: HeapRef) -> (r: StahlVal)
    requires
        heap.has_vector(vec),
        heap.vector_of(vec).len() <= isize::MAX,
    ensures
        r@ == SVal::Int(heap.vector_of(vec).len() as int),
{
    StahlVal::IntV(heap.vector_len(vec) as isize)
}

/// `vector-set!`: stores `value` at position `i` of a mutable vector.
pub fn mut_vec_set(heap: &mut Heap, vec: HeapRef, i: usize, value: StahlVal) -> (r: Result<StahlVal, StahlErr>)
    requires
        old(heap).has_vector(vec),
    ensures
        i >= old(heap).vector_of(vec).len() ==> *final(heap) == *old(heap) && outcome(r) == Err::<
            SVal,
            ErrorKind,
        >(ErrorKind::Generic),
        i < old(heap).vector_of(vec).len() ==> final(heap).updates_vector(
            old(heap),
            vec,
            old(heap).vector_of(vec).update(i as int, value@),
        ) && outcome(r) == Ok::<SVal, ErrorKind>(SVal::Void),
{
    if i >= heap.vector_len(vec) {
        return fail(ErrorKind::Generic, "index out of bounds");
    }
    heap.vector_set(vec, i, value);
    Ok(StahlVal::Void)
}

/// `vector-length`: the number of elements of a mutable or an immutable vector.
pub fn vec_length(heap: &Heap, v: &StahlVal) -> (r: Result<StahlVal, StahlErr>)
    requires
        *v matches StahlVal::MutableVector(h) ==> heap.has_vector(h),
        any_vector_items(heap, v@) matches Some(items) ==> items.len() <= isize::MAX,
    ensures
        outcome(r) == match any_vector_items(heap, v@) {
            Some(items) => Ok::<SVal, ErrorKind>(SVal::Int(items.len() as int)),
            None => Err(ErrorKind::ConversionError),
        },
{
    match v {
        StahlVal::VectorV(items) => {
            assert(vals(items@).len() == items@.len());
            Ok(StahlVal::IntV(items.len() as isize))
        },
        StahlVal::MutableVector(h) => Ok(StahlVal::IntV(heap.vector_len(*h) as isize)),
        _ => fail(ErrorKind::ConversionError, "vector-length expected a vector"),
    }
}

/// `car` of what `cons` builds is the element put in front; `cdr` of it is the vector it was
/// put in front of.
pub proof fn lemma_car_cdr_of_cons(x: SVal, v: SVal)
    ensures
        vec_cons_result(seq![x, v]) matches Ok(c) && vec_car_result(seq![c]) == Ok::<
            SVal,
            ErrorKind,
        >(x) && (v is Vector ==> vec_cdr_result(seq![c]) == Ok::<SVal, ErrorKind>(v)),
{
    match v {
        SVal::Vector(items) => {
            assert((seq![x] + items).drop_first() =~= items);
        },
        _ => {
            assert(seq![x, v][0] == x);
        },
    }
}

/// Taking the back off a vector with a value pushed onto it gives the value and the vector.
pub proof fn lemma_pop_back_of_push(items: Seq<SVal>, x: SVal)
    ensures
        push_back_result(SVal::Vector(items), x) matches Ok(w) && pop_back_result(w) == Ok::<
            SVal,
            ErrorKind,
        >(SVal::Pair(Box::new(x), Box::new(SVal::Vector(items)))),
{
    assert(items.push(x).drop_last() =~= items);
}

/// The first `count` elements of a vector followed by the rest are the vector.
pub proof fn lemma_take_then_drop(items: Seq<SVal>, count: nat)
    ensures
        take_result(SVal::Vector(items), count) matches Ok(SVal::Vector(front))
            && drop_result(SVal::Vector(items), count) matches Ok(SVal::Vector(back)) && front
            + back == items,
{
    if count <= items.len() {
        assert(items.take(count as int) + items.skip(count as int) =~= items);
    } else {
        assert(items + Seq::<SVal>::empty() =~= items);
    }
}

} // verus!
