//! Immutable hash sets. A set is viewed as the sequence of its elements in insertion order;
//! elements are compared with `equal?`, and a well-formed set holds no two equal elements.
use vstd::prelude::*;

use crate::equality::{equal, lemma_equiv_refl, lemma_equiv_symm, lemma_equiv_trans};
use crate::errors::{fail, outcome};
use crate::hashmaps::{hashable, is_hashable};
use crate::heap::Heap;
use crate::values::{
    copy_range, equiv, lemma_vals_push, vals, ErrorKind, SVal, StahlErr, StahlHashSet, StahlVal,
};

verus! {

broadcast use crate::values::group_vals;

/// Whether the set holds no two equal elements.
pub open spec fn set_wf(es: Seq<SVal>) -> bool {
    forall|i: int, j: int|
        0 <= i < es.len() && 0 <= j < es.len() && i != j ==> !equiv(#[trigger] es[i], #[trigger] es[j])
}

/// The position of the last element equal to `x`.
pub open spec fn find_elem(es: Seq<SVal>, x: SVal) -> Option<int>
    decreases es.len(),
{
    if es.len() == 0 {
        None
    } else if equiv(x, es.last()) {
        Some(es.len() - 1)
    } else {
        find_elem(es.drop_last(), x)
    }
}

/// The set with `x` added, unless it holds an equal element already.
pub open spec fn set_insert(es: Seq<SVal>, x: SVal) -> Seq<SVal> {
    if find_elem(es, x) is Some {
        es
    } else {
        es.push(x)
    }
}

/// The set of the elements of `a`, added from the front.
pub open spec fn set_of(a: Seq<SVal>) -> Seq<SVal>
    decreases a.len(),
{
    if a.len() == 0 {
        Seq::empty()
    } else {
        set_insert(set_of(a.drop_last()), a.last())
    }
}

/// Whether each element of `l` has an equal element in `r`.
pub open spec fn set_subset(l: Seq<SVal>, r: Seq<SVal>) -> bool {
    forall|i: int| 0 <= i < l.len() ==> #[trigger] find_elem(r, l[i]) is Some
}

/// What the found position means: the last element equal to `x`.
pub proof fn lemma_find_elem(es: Seq<SVal>, x: SVal)
    ensures
        match find_elem(es, x) {
            Some(i) => 0 <= i < es.len() && equiv(x, es[i]) && forall|j: int|
                i < j < es.len() ==> !equiv(x, #[trigger] es[j]),
            None => forall|j: int| 0 <= j < es.len() ==> !equiv(x, #[trigger] es[j]),
        },
    decreases es.len(),
{
    if es.len() > 0 {
        let d = es.drop_last();
        lemma_find_elem(d, x);
        assert forall|j: int| 0 <= j < d.len() implies #[trigger] es[j] == d[j] by {}
    }
}

/// Adding an element keeps the elements of a well-formed set distinct.
pub proof fn lemma_set_insert_wf(es: Seq<SVal>, x: SVal)
    requires
        set_wf(es),
    ensures
        set_wf(set_insert(es, x)),
{
    lemma_find_elem(es, x);
    let m = set_insert(es, x);
    if find_elem(es, x) is None {
        assert forall|a: int, b: int|
            0 <= a < m.len() && 0 <= b < m.len() && a != b implies !equiv(#[trigger] m[a], #[trigger] m[b]) by {
            if a == es.len() {
                assert(!equiv(x, es[b]));
            } else if b == es.len() {
                if equiv(es[a], x) {
                    lemma_equiv_symm(es[a], x);
                }
            }
        }
    }
}

/// A set holds every element just added to it.
pub proof fn lemma_contains_after_insert(es: Seq<SVal>, x: SVal)
    ensures
        find_elem(set_insert(es, x), x) is Some,
{
    lemma_equiv_refl(x);
    if find_elem(es, x) is None {
        assert(set_insert(es, x).last() == x);
    }
}

/// After adding `x`, a set holds an element equal to `y` exactly when it held one before
/// or `y` equals `x`: the old members and the new value, nothing else.
pub proof fn lemma_member_after_insert(es: Seq<SVal>, x: SVal, y: SVal)
    ensures
        find_elem(set_insert(es, x), y) is Some <==> (find_elem(es, y) is Some || equiv(y, x)),
{
    let m = set_insert(es, x);
    lemma_find_elem(es, y);
    lemma_find_elem(m, y);
    lemma_find_elem(es, x);
    match find_elem(es, x) {
        Some(i) => {
            if equiv(y, x) {
                lemma_equiv_trans(y, x, es[i]);
            }
        },
        None => {
            if let Some(i) = find_elem(es, y) {
                assert(m[i] == es[i]);
            }
            if equiv(y, x) {
                assert(m[es.len() as int] == x);
            }
            if let Some(i) = find_elem(m, y) {
                if i < es.len() {
                    assert(m[i] == es[i]);
                }
            }
        },
    }
}

/// Adding an element a second time changes nothing.
pub proof fn lemma_set_insert_idempotent(es: Seq<SVal>, x: SVal)
    ensures
        set_insert(set_insert(es, x), x) == set_insert(es, x),
{
    lemma_contains_after_insert(es, x);
}

/// A set built from elements holds no two equal elements.
pub proof fn lemma_set_of_wf(a: Seq<SVal>)
    ensures
        set_wf(set_of(a)),
    decreases a.len(),
{
    if a.len() > 0 {
        lemma_set_of_wf(a.drop_last());
        lemma_set_insert_wf(set_of(a.drop_last()), a.last());
    }
}

/// The position of the last element of `es` equal to `x`.
fn find_member(es: &Vec<StahlVal>, x: &StahlVal) -> (r: Option<usize>)
    ensures
        match r {
            Some(j) => find_elem(vals(es@), x@) == Some(j as int) && j < es@.len(),
            None => find_elem(vals(es@), x@) is None,
        },
{
    proof {
        lemma_find_elem(vals(es@), x@);
    }
    let ghost m = vals(es@);
    let mut j: usize = es.len();
    assert(m.take(j as int) =~= m);
    while j > 0
        invariant
            j <= es.len(),
            m == vals(es@),
            find_elem(m, x@) == find_elem(m.take(j as int), x@),
        decreases j,
    {
        assert(m.take(j as int).drop_last() =~= m.take(j - 1));
        if equal(x, &es[j - 1]) {
            return Some(j - 1);
        }
        j = j - 1;
    }
    None
}

/// Adds `x` to the elements `es` unless an equal one is there.
fn insert_member(es: &mut Vec<StahlVal>, x: StahlVal)
    ensures
        vals(final(es)@) == set_insert(vals(old(es)@), x@),
{
    if find_member(es, &x).is_none() {
        proof {
            lemma_vals_push(es@, x);
        }
        es.push(x);
    }
}

/// `hashset`: the set of the arguments, which must all be hashable.
pub fn hs_construct(args: &[StahlVal]) -> (r: Result<StahlVal, StahlErr>)
    ensures
        outcome(r) == if forall|i: int| 0 <= i < args@.len() ==> hashable(#[trigger] vals(args@)[i]) {
            Ok::<SVal, ErrorKind>(SVal::HashSet(set_of(vals(args@))))
        } else {
            Err(ErrorKind::TypeMismatch)
        },
{
    let ghost a = vals(args@);
    let mut es: Vec<StahlVal> = Vec::new();
    let mut i: usize = 0;
    assert(vals(es@) =~= set_of(a.take(0)));
    while i < args.len()
        invariant
            i <= args.len(),
            a == vals(args@),
            forall|j: int| 0 <= j < i ==> hashable(#[trigger] a[j]),
            vals(es@) == set_of(a.take(i as int)),
        decreases args.len() - i,
    {
        assert(a.take(i + 1).drop_last() =~= a.take(i as int));
        if !is_hashable(&args[i]) {
            assert(!hashable(a[i as int]));
            return fail(ErrorKind::TypeMismatch, "hash key not hashable!");
        }
        insert_member(&mut es, args[i].clone());
        i = i + 1;
    }
    assert(a.take(args@.len() as int) =~= a);
    Ok(StahlVal::HashSetV(StahlHashSet { elems: es }))
}

/// `hashset-length`: the number of elements.
pub fn hashset_length(hashset: &StahlHashSet) -> (n: usize)
    ensures
        n == hashset@.len(),
{
    hashset.elems.len()
}

/// `hashset-insert`: the set with `value` added.
pub fn hs_insert(hashset: &StahlVal, value: StahlVal) -> (r: Result<StahlVal, StahlErr>)
    ensures
        outcome(r) == if !hashable(value@) {
            Err(ErrorKind::TypeMismatch)
        } else {
            match hashset@ {
                SVal::HashSet(es) => Ok::<SVal, ErrorKind>(SVal::HashSet(set_insert(es, value@))),
                _ => Err(ErrorKind::TypeMismatch),
            }
        },
{
    if !is_hashable(&value) {
        return fail(ErrorKind::TypeMismatch, "hash key not hashable!");
    }
    match hashset {
        StahlVal::HashSetV(s) => {
            let mut es = copy_range(&s.elems, 0, s.elems.len());
            assert(vals(s.elems@).subrange(0, s.elems@.len() as int) =~= vals(s.elems@));
            insert_member(&mut es, value);
            Ok(StahlVal::HashSetV(StahlHashSet { elems: es }))
        },
        _ => fail(ErrorKind::TypeMismatch, "set insert takes a set"),
    }
}

/// `hashset-contains?`: whether some element equals `key`.
pub fn hashset_contains(hashset: &StahlHashSet, key: &StahlVal) -> (r: Result<StahlVal, StahlErr>)
    ensures
        outcome(r) == if !hashable(key@) {
            Err(ErrorKind::TypeMismatch)
        } else {
            Ok::<SVal, ErrorKind>(SVal::Bool(find_elem(hashset@, key@) is Some))
        },
{
    if !is_hashable(key) {
        return fail(ErrorKind::TypeMismatch, "hash key not hashable!");
    }
    Ok(StahlVal::BoolV(find_member(&hashset.elems, key).is_some()))
}

/// `hashset-subset?`: whether each element of `left` has an equal element in `right`.
pub fn hashset_is_subset(left: &StahlHashSet, right: &StahlHashSet) -> (b: bool)
    ensures
        b == set_subset(left@, right@),
{
    let ghost l = left@;
    let mut i: usize = 0;
    while i < left.elems.len()
        invariant
            i <= left.elems.len(),
            l == left@,
            forall|j: int| 0 <= j < i ==> #[trigger] find_elem(right@, l[j]) is Some,
        decreases left.elems.len() - i,
    {
        if find_member(&right.elems, &left.elems[i]).is_none() {
            assert(find_elem(right@, l[i as int]) is None);
            return false;
        }
        i = i + 1;
    }
    true
}

/// `hashset->list`: the elements, as a list, in insertion order.
pub fn hashset_to_list(hashset: &StahlHashSet) -> (r: StahlVal)
    ensures
        r@ == SVal::List(hashset@),
{
    let items = copy_range(&hashset.elems, 0, hashset.elems.len());
    assert(vals(hashset.elems@).subrange(0, hashset.elems@.len() as int) =~= vals(hashset.elems@));
    StahlVal::ListV(items)
}

/// `hashset->immutable-vector`: the elements, as an immutable vector, in insertion order.
pub fn hashset_to_immutable_vector(hashset: &StahlHashSet) -> (r: StahlVal)
    ensures
        r@ == SVal::Vector(hashset@),
{
    let items = copy_range(&hashset.elems, 0, hashset.elems.len());
    assert(vals(hashset.elems@).subrange(0, hashset.elems@.len() as int) =~= vals(hashset.elems@));
    StahlVal::VectorV(items)
}

/// `hashset->vector`: a new mutable vector of the elements of the only argument, a set.
pub fn hashset_to_mutable_vector(heap: &mut Heap, args: &[StahlVal]) -> (r: Result<StahlVal, StahlErr>)
    ensures
        args@.len() != 1 ==> *final(heap) == *old(heap) && outcome(r) == Err::<SVal, ErrorKind>(ErrorKind::ArityMismatch),
        args@.len() == 1 ==> match args@[0]@ {
            SVal::HashSet(es) => final(heap).allocates_vector(old(heap), es) && outcome(r) == Ok::<
                SVal,
                ErrorKind,
            >(SVal::MutVector(old(heap).vectors@.len())),
            _ => *final(heap) == *old(heap) && outcome(r) == Err::<SVal, ErrorKind>(ErrorKind::TypeMismatch),
        },
{
    if args.len() != 1 {
        return fail(ErrorKind::ArityMismatch, "hashset->vector takes 1 argument");
    }
    match &args[0] {
        StahlVal::HashSetV(s) => {
            let items = copy_range(&s.elems, 0, s.elems.len());
            assert(vals(s.elems@).subrange(0, s.elems@.len() as int) =~= vals(s.elems@));
            Ok(heap.new_vector(items))
        },
        _ => fail(ErrorKind::TypeMismatch, "hashset->vector takes a hashset"),
    }
}

/// `hashset-clear`: an empty set.
pub fn hashset_clear(hashset: &StahlVal) -> (r: Result<StahlVal, StahlErr>)
    ensures
        outcome(r) == match hashset@ {
            SVal::HashSet(_) => Ok::<SVal, ErrorKind>(SVal::HashSet(Seq::empty())),
            _ => Err(ErrorKind::TypeMismatch),
        },
{
    match hashset {
        StahlVal::HashSetV(_) => {
            let es: Vec<StahlVal> = Vec::new();
            assert(vals(es@) =~= Seq::<SVal>::empty());
            Ok(StahlVal::HashSetV(StahlHashSet { elems: es }))
        },
        _ => fail(ErrorKind::TypeMismatch, "hashset-clear takes a hashset"),
    }
}

/// `list->hashset`: the set of the elements of a list.
pub fn list_to_hashset(l: &Vec<StahlVal>) -> (r: StahlVal)
    ensures
        r@ == SVal::HashSet(set_of(vals(l@))),
{
    let ghost a = vals(l@);
    let mut es: Vec<StahlVal> = Vec::new();
    let mut i: usize = 0;
    assert(vals(es@) =~= set_of(a.take(0)));
    while i < l.len()
        invariant
            i <= l.len(),
            a == vals(l@),
            vals(es@) == set_of(a.take(i as int)),
        decreases l.len() - i,
    {
        assert(a.take(i + 1).drop_last() =~= a.take(i as int));
        insert_member(&mut es, l[i].clone());
        i = i + 1;
    }
    assert(a.take(l@.len() as int) =~= a);
    StahlVal::HashSetV(StahlHashSet { elems: es })
}

/// What the argument conversion of a native function gives: an arity error for the wrong
/// number of arguments, a conversion error for a first argument that is no set.
pub open spec fn set_args(a: Seq<SVal>, n: nat) -> Result<Seq<SVal>, ErrorKind> {
    if a.len() != n {
        Err(ErrorKind::ArityMismatch)
    } else {
        match a[0] {
            SVal::HashSet(es) => Ok(es),
            _ => Err(ErrorKind::ConversionError),
        }
    }
}

/// `hashset-insert` called with its arguments in a slice: set, value.
pub fn stahl_hs_insert(args: &[StahlVal]) -> (r: Result<StahlVal, StahlErr>)
    ensures
        outcome(r) == if args@.len() != 2 {
            Err(ErrorKind::ArityMismatch)
        } else if !hashable(args@[1]@) {
            Err(ErrorKind::TypeMismatch)
        } else {
            match args@[0]@ {
                SVal::HashSet(es) => Ok::<SVal, ErrorKind>(SVal::HashSet(set_insert(es, args@[1]@))),
                _ => Err(ErrorKind::TypeMismatch),
            }
        },
{
    if args.len() != 2 {
        return fail(ErrorKind::ArityMismatch, "hashset-insert takes 2 arguments");
    }
    hs_insert(&args[0], args[1].clone())
}

/// `hashset-contains?` called with its arguments in a slice: set, key.
pub fn stahl_hashset_contains(args: &[StahlVal]) -> (r: Result<StahlVal, StahlErr>)
    ensures
        outcome(r) == match set_args(vals(args@), 2) {
            Err(k) => Err(k),
            Ok(es) => if !hashable(args@[1]@) {
                Err(ErrorKind::TypeMismatch)
            } else {
                Ok::<SVal, ErrorKind>(SVal::Bool(find_elem(es, args@[1]@) is Some))
            },
        },
{
    if args.len() != 2 {
        return fail(ErrorKind::ArityMismatch, "hashset-contains? takes 2 arguments");
    }
    match &args[0] {
        StahlVal::HashSetV(s) => hashset_contains(s, &args[1]),
        _ => fail(ErrorKind::ConversionError, "Cannot convert stahl value to stahl hashset"),
    }
}

/// `hashset->immutable-vector` called with its argument in a slice.
pub fn stahl_hashset_to_immutable_vector(args: &[StahlVal]) -> (r: Result<StahlVal, StahlErr>)
    ensures
        outcome(r) == match set_args(vals(args@), 1) {
            Err(k) => Err(k),
            Ok(es) => Ok::<SVal, ErrorKind>(SVal::Vector(es)),
        },
{
    if args.len() != 1 {
        return fail(ErrorKind::ArityMismatch, "hashset->immutable-vector takes 1 argument");
    }
    match &args[0] {
        StahlVal::HashSetV(s) => Ok(hashset_to_immutable_vector(s)),
        _ => fail(ErrorKind::ConversionError, "Cannot convert stahl value to stahl hashset"),
    }
}

} // verus!
