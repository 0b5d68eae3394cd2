//! Immutable hash maps: construction, functional update, lookup and union.
//!
//! A map is viewed as the sequence of its entries, each the pair of a key and its value.
//! Keys are compared with `equal?`; a well-formed map holds no two equal keys.
use vstd::prelude::*;

use crate::equality::{equal, lemma_equiv_refl, lemma_equiv_symm, lemma_equiv_trans};
use crate::errors::{fail, outcome};
use crate::values::{
    equiv, vals, view_entries, ErrorKind, SVal, StahlErr, StahlHashMap, StahlVal,
};
use crate::vectors::VectorOperations;

verus! {

broadcast use crate::values::group_vals;

/// The key of an entry.
pub open spec fn entry_key(e: SVal) -> SVal {
    match e {
        SVal::Pair(k, _) => *k,
        _ => SVal::Void,
    }
}

/// The value of an entry.
pub open spec fn entry_value(e: SVal) -> SVal {
    match e {
        SVal::Pair(_, v) => *v,
        _ => SVal::Void,
    }
}

/// The entry of `k` and `v`.
pub open spec fn entry(k: SVal, v: SVal) -> SVal {
    SVal::Pair(Box::new(k), Box::new(v))
}

/// Whether the map holds no two equal keys.
pub open spec fn map_wf(es: Seq<SVal>) -> bool {
    forall|i: int, j: int|
        0 <= i < es.len() && 0 <= j < es.len() && i != j ==> !equiv(
            #[trigger] entry_key(es[i]),
            #[trigger] entry_key(es[j]),
        )
}

/// The position of the last entry whose key equals `k`.
pub open spec fn find_key(es: Seq<SVal>, k: SVal) -> Option<int>
    decreases es.len(),
{
    if es.len() == 0 {
        None
    } else if equiv(k, entry_key(es.last())) {
        Some(es.len() - 1)
    } else {
        find_key(es.drop_last(), k)
    }
}

/// The value that the map gives `k`.
pub open spec fn map_get(es: Seq<SVal>, k: SVal) -> Option<SVal> {
    match find_key(es, k) {
        Some(i) => Some(entry_value(es[i])),
        None => None,
    }
}

/// The map with `k` bound to `v`: the entry of an equal key is replaced in place, else the
/// entry is added at the end.
pub open spec fn map_insert(es: Seq<SVal>, k: SVal, v: SVal) -> Seq<SVal> {
    match find_key(es, k) {
        Some(i) => es.update(i, entry(k, v)),
        None => es.push(entry(k, v)),
    }
}

/// The map without the entry of `k`.
pub open spec fn map_remove(es: Seq<SVal>, k: SVal) -> Seq<SVal> {
    match find_key(es, k) {
        Some(i) => es.remove(i),
        None => es,
    }
}

/// The union of two maps: the entries of `l`, then those of `r` whose key `l` lacks.
pub open spec fn map_union(l: Seq<SVal>, r: Seq<SVal>) -> Seq<SVal>
    decreases r.len(),
{
    if r.len() == 0 {
        l
    } else {
        let acc = map_union(l, r.drop_last());
        if find_key(acc, entry_key(r.last())) is Some {
            acc
        } else {
            acc.push(r.last())
        }
    }
}

/// The keys of the entries, in order.
pub open spec fn map_keys(es: Seq<SVal>) -> Seq<SVal> {
    Seq::new(es.len(), |i: int| entry_key(es[i]))
}

/// The values of the entries, in order.
pub open spec fn map_values(es: Seq<SVal>) -> Seq<SVal> {
    Seq::new(es.len(), |i: int| entry_value(es[i]))
}

/// Whether a value can be a key: floating-point numbers, mutable cells, reducers, streams,
/// error objects and parsed HTTP messages cannot.
pub open spec fn hashable(v: SVal) -> bool {
    !(v is Num || v is MutVector || v is Boxed || v is Reducer || v is Stream || v is Error
        || v is Request || v is Response)
}

/// What the found position means: the last entry whose key equals `k`.
pub proof fn lemma_find_key(es: Seq<SVal>, k: SVal)
    ensures
        match find_key(es, k) {
            Some(i) => 0 <= i < es.len() && equiv(k, entry_key(es[i])) && forall|j: int|
                i < j < es.len() ==> !equiv(k, #[trigger] entry_key(es[j])),
            None => forall|j: int| 0 <= j < es.len() ==> !equiv(k, #[trigger] entry_key(es[j])),
        },
    decreases es.len(),
{
    if es.len() > 0 {
        let d = es.drop_last();
        lemma_find_key(d, k);
        assert forall|j: int| 0 <= j < d.len() implies entry_key(#[trigger] es[j]) == entry_key(d[j]) by {}
        if !equiv(k, entry_key(es.last())) {
            match find_key(d, k) {
                Some(i) => {
                    assert forall|j: int| i < j < es.len() implies !equiv(k, #[trigger] entry_key(es[j])) by {
                        if j < d.len() {
                            assert(entry_key(es[j]) == entry_key(d[j]));
                        }
                    }
                },
                None => {
                    assert forall|j: int| 0 <= j < es.len() implies !equiv(k, #[trigger] entry_key(es[j])) by {
                        if j < d.len() {
                            assert(entry_key(es[j]) == entry_key(d[j]));
                        }
                    }
                },
            }
        }
    }
}

/// A key found at some position is found there by every equal key.
proof fn lemma_find_unique(es: Seq<SVal>, k: SVal, i: int)
    requires
        map_wf(es),
        0 <= i < es.len(),
        equiv(k, entry_key(es[i])),
    ensures
        find_key(es, k) == Some(i),
{
    lemma_find_key(es, k);
    match find_key(es, k) {
        Some(j) => {
            if j != i {
                lemma_equiv_symm(k, entry_key(es[j]));
                lemma_equiv_trans(entry_key(es[j]), k, entry_key(es[i]));
                assert(!equiv(entry_key(es[j]), entry_key(es[i])));
            }
        },
        None => {
            assert(!equiv(k, entry_key(es[i])));
        },
    }
}

/// Binding a key keeps the keys of a well-formed map distinct.
pub proof fn lemma_insert_wf(es: Seq<SVal>, k: SVal, v: SVal)
    requires
        map_wf(es),
    ensures
        map_wf(map_insert(es, k, v)),
{
    lemma_find_key(es, k);
    let m = map_insert(es, k, v);
    match find_key(es, k) {
        Some(i) => {
            assert forall|a: int, b: int|
                0 <= a < m.len() && 0 <= b < m.len() && a != b implies !equiv(
                #[trigger] entry_key(m[a]),
                #[trigger] entry_key(m[b]),
            ) by {
                if a == i {
                    if equiv(k, entry_key(es[b])) {
                        lemma_equiv_symm(k, entry_key(es[i]));
                        lemma_equiv_trans(entry_key(es[i]), k, entry_key(es[b]));
                        assert(!equiv(entry_key(es[i]), entry_key(es[b])));
                    }
                } else if b == i {
                    if equiv(entry_key(es[a]), k) {
                        lemma_equiv_trans(entry_key(es[a]), k, entry_key(es[i]));
                        assert(!equiv(entry_key(es[a]), entry_key(es[i])));
                    }
                }
            }
        },
        None => {
            assert forall|a: int, b: int|
                0 <= a < m.len() && 0 <= b < m.len() && a != b implies !equiv(
                #[trigger] entry_key(m[a]),
                #[trigger] entry_key(m[b]),
            ) by {
                if a == es.len() {
                    assert(!equiv(k, entry_key(es[b])));
                } else if b == es.len() {
                    if equiv(entry_key(es[a]), k) {
                        lemma_equiv_symm(entry_key(es[a]), k);
                    }
                }
            }
        },
    }
}

/// A key that was just bound gives its value.
pub proof fn lemma_get_after_insert(es: Seq<SVal>, k: SVal, v: SVal)
    ensures
        map_get(map_insert(es, k, v), k) == Some(v),
{
    lemma_find_key(es, k);
    lemma_equiv_refl(k);
    let m = map_insert(es, k, v);
    lemma_find_key(m, k);
    match find_key(es, k) {
        Some(i) => {
            match find_key(m, k) {
                Some(j) => {
                    if j != i {
                        assert(!equiv(k, entry_key(m[i])));
                    }
                },
                None => {
                    assert(!equiv(k, entry_key(m[i])));
                },
            }
        },
        None => {
            match find_key(m, k) {
                Some(j) => {
                    if j != es.len() {
                        assert(!equiv(k, entry_key(m[es.len() as int])));
                    }
                },
                None => {
                    assert(!equiv(k, entry_key(m[es.len() as int])));
                },
            }
        },
    }
}

/// Binding a key leaves what a well-formed map gives every other key.
pub proof fn lemma_get_other_after_insert(es: Seq<SVal>, k: SVal, v: SVal, k2: SVal)
    requires
        map_wf(es),
        !equiv(k2, k),
    ensures
        map_get(map_insert(es, k, v), k2) == map_get(es, k2),
{
    lemma_insert_wf(es, k, v);
    let m = map_insert(es, k, v);
    lemma_find_key(es, k);
    lemma_find_key(es, k2);
    lemma_find_key(m, k2);
    match find_key(m, k2) {
        Some(j) => {
            if j < es.len() && (find_key(es, k) != Some(j)) {
                assert(m[j] == es[j]);
                lemma_find_unique(es, k2, j);
            } else {
                assert(entry_key(m[j]) == k);
            }
        },
        None => {
            match find_key(es, k2) {
                Some(j) => {
                    if find_key(es, k) == Some(j) {
                        lemma_equiv_symm(k, entry_key(es[j]));
                        lemma_equiv_trans(k2, entry_key(es[j]), k);
                    } else {
                        assert(m[j] == es[j]);
                    }
                },
                None => {},
            }
        },
    }
}

/// A removed key is gone from a well-formed map.
pub proof fn lemma_get_after_remove(es: Seq<SVal>, k: SVal)
    requires
        map_wf(es),
    ensures
        map_get(map_remove(es, k), k) is None,
{
    lemma_find_key(es, k);
    let m = map_remove(es, k);
    lemma_find_key(m, k);
    match find_key(es, k) {
        Some(i) => {
            match find_key(m, k) {
                Some(j) => {
                    let jj = if j < i {
                        j
                    } else {
                        j + 1
                    };
                    assert(m[j] == es[jj]);
                    lemma_equiv_symm(k, entry_key(es[i]));
                    lemma_equiv_trans(entry_key(es[i]), k, entry_key(es[jj]));
                },
                None => {},
            }
        },
        None => {},
    }
}


/// Removing a key that was just bound, where the map had no equal key, gives back the map.
pub proof fn lemma_remove_undoes_insert(es: Seq<SVal>, k: SVal, v: SVal)
    requires
        find_key(es, k) is None,
    ensures
        map_remove(map_insert(es, k, v), k) == es,
{
    lemma_equiv_refl(k);
    let m = map_insert(es, k, v);
    assert(m == es.push(entry(k, v)));
    assert(entry_key(m.last()) == k);
    assert(find_key(m, k) == Some(es.len() as int));
    assert(m.remove(es.len() as int) =~= es);
}

/// Binding a key twice is binding it once to the later value.
pub proof fn lemma_insert_twice(es: Seq<SVal>, k: SVal, v1: SVal, v2: SVal)
    ensures
        map_insert(map_insert(es, k, v1), k, v2) == map_insert(es, k, v2),
{
    lemma_equiv_refl(k);
    lemma_find_key(es, k);
    let m = map_insert(es, k, v1);
    lemma_find_key(m, k);
    match find_key(es, k) {
        Some(i) => {
            assert(entry_key(m[i]) == k);
            match find_key(m, k) {
                Some(j) => {
                    if j != i {
                        if j < i {
                            assert(!equiv(k, entry_key(m[i])));
                        } else {
                            assert(m[j] == es[j]);
                        }
                    }
                },
                None => {
                    assert(!equiv(k, entry_key(m[i])));
                },
            }
            assert(m.update(i, entry(k, v2)) =~= es.update(i, entry(k, v2)));
        },
        None => {
            let n = es.len() as int;
            assert(entry_key(m[n]) == k);
            match find_key(m, k) {
                Some(j) => {
                    if j != n {
                        assert(!equiv(k, entry_key(m[n])));
                    }
                },
                None => {
                    assert(!equiv(k, entry_key(m[n])));
                },
            }
            assert(m.update(n, entry(k, v2)) =~= es.push(entry(k, v2)));
        },
    }
}

/// The union holds the entries of `l` first, then entries of `r`.
proof fn lemma_union_entries(l: Seq<SVal>, r: Seq<SVal>)
    ensures
        map_union(l, r).len() >= l.len(),
        forall|i: int| 0 <= i < l.len() ==> #[trigger] map_union(l, r)[i] == l[i],
        forall|i: int|
            l.len() <= i < map_union(l, r).len() ==> exists|j: int|
                0 <= j < r.len() && #[trigger] map_union(l, r)[i] == r[j],
    decreases r.len(),
{
    if r.len() > 0 {
        let d = r.drop_last();
        lemma_union_entries(l, d);
        let acc = map_union(l, d);
        assert forall|i: int|
            l.len() <= i < map_union(l, r).len() implies exists|j: int|
                0 <= j < r.len() && #[trigger] map_union(l, r)[i] == r[j] by {
            if i < acc.len() {
                let j = choose|j: int| 0 <= j < d.len() && acc[i] == d[j];
                assert(r[j] == d[j]);
            } else {
                assert(map_union(l, r)[i] == r[r.len() - 1]);
            }
        }
    }
}

/// Looking a key up in a map with one more entry at the end.
proof fn lemma_get_push(es: Seq<SVal>, e: SVal, k: SVal)
    ensures
        map_get(es.push(e), k) == if equiv(k, entry_key(e)) {
            Some(entry_value(e))
        } else {
            map_get(es, k)
        },
{
    assert(es.push(e).drop_last() =~= es);
    assert(es.push(e).last() == e);
    lemma_find_key(es, k);
    if let Some(i) = find_key(es, k) {
        assert(es.push(e)[i] == es[i]);
    }
}

/// A key of the union of two maps gives what the left map gives it, or else what the right
/// map gives it.
pub proof fn lemma_get_union(l: Seq<SVal>, r: Seq<SVal>, k: SVal)
    requires
        map_wf(l),
        map_wf(r),
    ensures
        map_get(map_union(l, r), k) == match map_get(l, k) {
            Some(v) => Some(v),
            None => map_get(r, k),
        },
    decreases r.len(),
{
    if r.len() == 0 {
        assert(map_get(r, k) is None);
    } else {
        let d = r.drop_last();
        let e = r.last();
        let ke = entry_key(e);
        assert(map_wf(d)) by {
            assert forall|i: int, j: int|
                0 <= i < d.len() && 0 <= j < d.len() && i != j implies !equiv(
                #[trigger] entry_key(d[i]),
                #[trigger] entry_key(d[j]),
            ) by {
                assert(d[i] == r[i] && d[j] == r[j]);
            }
        }
        lemma_get_union(l, d, k);
        let acc = map_union(l, d);
        lemma_union_entries(l, d);
        lemma_get_push(d, e, k);
        assert(r == d.push(e));
        lemma_find_key(acc, ke);
        lemma_find_key(l, k);
        if find_key(acc, ke) is Some {
            assert(map_union(l, r) == acc);
            if map_get(l, k) is None && equiv(k, ke) {
                let i = find_key(acc, ke)->Some_0;
                if i < l.len() {
                    assert(acc[i] == l[i]);
                    lemma_equiv_trans(k, ke, entry_key(acc[i]));
                    assert(false);
                } else {
                    let j = choose|j: int| 0 <= j < d.len() && acc[i] == d[j];
                    assert(r[j] == d[j]);
                    lemma_equiv_symm(ke, entry_key(acc[i]));
                    assert(!equiv(entry_key(r[j]), entry_key(r[r.len() - 1])));
                    assert(false);
                }
            }
        } else {
            assert(map_union(l, r) == acc.push(e));
            lemma_get_push(acc, e, k);
            if equiv(k, ke) && map_get(l, k) is Some {
                let i = find_key(l, k)->Some_0;
                assert(acc[i] == l[i]);
                lemma_equiv_symm(k, ke);
                lemma_equiv_trans(ke, k, entry_key(l[i]));
                assert(false);
            }
        }
    }
}

/// Whether `v` can be a key.
pub fn is_hashable(v: &StahlVal) -> (r: bool)
    ensures
        r == hashable(v@),
{
    match v {
        StahlVal::NumV(_) | StahlVal::MutableVector(_) | StahlVal::HeapAllocated(_)
        | StahlVal::ReducerV(_) | StahlVal::StreamV(_) | StahlVal::ErrorV(_)
        | StahlVal::RequestV(_) | StahlVal::ResponseV(_) => false,
        _ => true,
    }
}

/// The position of the last entry of `es` whose key equals `k`.
pub(crate) fn find_entry(es: &Vec<(StahlVal, StahlVal)>, k: &StahlVal) -> (r: Option<usize>)
    ensures
        match r {
            Some(j) => find_key(view_entries(es@), k@) == Some(j as int) && j < es@.len(),
            None => find_key(view_entries(es@), k@) is None,
        },
{
    proof {
        lemma_find_key(view_entries(es@), k@);
    }
    let ghost m = view_entries(es@);
    let mut j: usize = es.len();
    assert(m.take(j as int) =~= m);
    while j > 0
        invariant
            j <= es.len(),
            m == view_entries(es@),
            find_key(m, k@) == find_key(m.take(j as int), k@),
        decreases j,
    {
        assert(m.take(j as int).drop_last() =~= m.take(j - 1));
        assert(entry_key(m.take(j as int).last()) == es@[j - 1].0@);
        if equal(k, &es[j - 1].0) {
            return Some(j - 1);
        }
        j = j - 1;
    }
    None
}

/// Binds `k` to `v` in the entries `es`.
pub(crate) fn insert_entry(es: &mut Vec<(StahlVal, StahlVal)>, k: StahlVal, v: StahlVal)
    ensures
        view_entries(final(es)@) == map_insert(view_entries(old(es)@), k@, v@),
{
    let ghost m = view_entries(es@);
    let ghost e = entry(k@, v@);
    match find_entry(es, &k) {
        Some(i) => {
            es.set(i, (k, v));
            assert(view_entries(es@) =~= m.update(i as int, e));
        },
        None => {
            es.push((k, v));
            assert(view_entries(es@) =~= m.push(e));
        },
    }
}

/// Copies the entries of a map.
fn copy_entries(es: &Vec<(StahlVal, StahlVal)>) -> (r: Vec<(StahlVal, StahlVal)>)
    ensures
        view_entries(r@) == view_entries(es@),
{
    crate::values::clone_entries(es)
}

/// What building a map from key and value arguments gives, pair by pair from the front,
/// for the first `n` pairs.
pub open spec fn construct_pairs(a: Seq<SVal>, n: nat) -> Result<Seq<SVal>, ErrorKind>
    decreases n,
{
    if n == 0 {
        Ok(Seq::empty())
    } else {
        match construct_pairs(a, (n - 1) as nat) {
            Err(k) => Err(k),
            Ok(m) => if hashable(a[2 * n - 2]) {
                Ok(map_insert(m, a[2 * n - 2], a[2 * n - 1]))
            } else {
                Err(ErrorKind::TypeMismatch)
            },
        }
    }
}

/// `hash`: a map of each key argument to the argument after it. A later binding of an equal
/// key wins; a key without a value is an arity error, an unhashable key a type error.
pub open spec fn hm_construct_result(a: Seq<SVal>) -> Result<SVal, ErrorKind> {
    match construct_pairs(a, a.len() / 2) {
        Err(k) => Err(k),
        Ok(m) => if a.len() % 2 == 1 {
            Err(ErrorKind::ArityMismatch)
        } else {
            Ok(SVal::HashMap(m))
        },
    }
}

fn construct_map(args: &[StahlVal], missing_value: &str) -> (r: Result<StahlVal, StahlErr>)
    ensures
        outcome(r) == hm_construct_result(vals(args@)),
{
    let ghost a = vals(args@);
    let mut es: Vec<(StahlVal, StahlVal)> = Vec::new();
    let mut i: usize = 0;
    let pairs = args.len() / 2;
    assert(view_entries(es@) =~= Seq::<SVal>::empty());
    while i < pairs
        invariant
            i <= pairs,
            pairs == args.len() / 2,
            a == vals(args@),
            construct_pairs(a, i as nat) == Ok::<Seq<SVal>, ErrorKind>(view_entries(es@)),
        decreases pairs - i,
    {
        let key = args[2 * i].clone();
        let value = args[2 * i + 1].clone();
        if !is_hashable(&key) {
            proof {
                lemma_construct_error_stays(a, (i + 1) as nat, (args.len() / 2) as nat);
            }
            return fail(ErrorKind::TypeMismatch, "hash key not hashable!");
        }
        insert_entry(&mut es, key, value);
        i = i + 1;
    }
    if args.len() % 2 == 1 {
        return fail(ErrorKind::ArityMismatch, missing_value);
    }
    Ok(StahlVal::HashMapV(StahlHashMap { entries: es }))
}

/// Once building fails, it stays failed.
proof fn lemma_construct_error_stays(a: Seq<SVal>, n: nat, m: nat)
    requires
        n <= m,
        construct_pairs(a, n) is Err,
    ensures
        construct_pairs(a, m) == construct_pairs(a, n),
    decreases m - n,
{
    if n < m {
        lemma_construct_error_stays(a, n, (m - 1) as nat);
    }
}

/// Building a map gives a map without two equal keys.
pub proof fn lemma_construct_wf(a: Seq<SVal>, n: nat)
    ensures
        construct_pairs(a, n) matches Ok(m) ==> map_wf(m),
    decreases n,
{
    if n > 0 {
        lemma_construct_wf(a, (n - 1) as nat);
        if let Ok(m) = construct_pairs(a, (n - 1) as nat) {
            lemma_insert_wf(m, a[2 * n - 2], a[2 * n - 1]);
        }
    }
}

/// The value given after the last key among the first `n` keys of `a` (keys and values in
/// turn) that equals `k`.
pub open spec fn last_value(a: Seq<SVal>, n: nat, k: SVal) -> Option<SVal>
    decreases n,
{
    if n == 0 {
        None
    } else if equiv(k, a[2 * n - 2]) {
        Some(a[2 * n - 1])
    } else {
        last_value(a, (n - 1) as nat, k)
    }
}

/// Equal keys are found at the same position.
proof fn lemma_find_equal_keys(es: Seq<SVal>, k1: SVal, k2: SVal)
    requires
        equiv(k1, k2),
    ensures
        find_key(es, k1) == find_key(es, k2),
    decreases es.len(),
{
    if es.len() > 0 {
        lemma_find_equal_keys(es.drop_last(), k1, k2);
        let kl = entry_key(es.last());
        lemma_equiv_symm(k1, k2);
        if equiv(k1, kl) {
            lemma_equiv_trans(k2, k1, kl);
        }
        if equiv(k2, kl) {
            lemma_equiv_trans(k1, k2, kl);
        }
    }
}

/// A map built from keys and values gives each key the value after its last occurrence:
/// a repeated key keeps its last value.
pub proof fn lemma_construct_last_wins(a: Seq<SVal>, n: nat, k: SVal)
    ensures
        construct_pairs(a, n) matches Ok(m) ==> map_get(m, k) == last_value(a, n, k),
    decreases n,
{
    if n > 0 {
        lemma_construct_last_wins(a, (n - 1) as nat, k);
        lemma_construct_wf(a, (n - 1) as nat);
        if let Ok(m) = construct_pairs(a, (n - 1) as nat) {
            let key = a[2 * n - 2];
            let v = a[2 * n - 1];
            if equiv(k, key) {
                lemma_get_after_insert(m, key, v);
                lemma_find_equal_keys(map_insert(m, key, v), k, key);
            } else {
                lemma_get_other_after_insert(m, key, v, k);
            }
        }
    }
}

/// Whether `k` equals one of the first `n` keys of `a` (keys and values in turn).
pub open spec fn key_given(a: Seq<SVal>, n: nat, k: SVal) -> bool {
    exists|j: int| 0 <= j < n && #[trigger] equiv(k, a[2 * j])
}

/// A key has a last value exactly when it equals one of the keys given.
proof fn lemma_last_value_given(a: Seq<SVal>, n: nat, k: SVal)
    ensures
        last_value(a, n, k) is Some <==> key_given(a, n, k),
    decreases n,
{
    if n > 0 {
        lemma_last_value_given(a, (n - 1) as nat, k);
        if equiv(k, a[2 * n - 2]) {
            assert(equiv(k, a[2 * (n - 1)]));
        } else {
            if key_given(a, n, k) {
                let j = choose|j: int| 0 <= j < n && #[trigger] equiv(k, a[2 * j]);
                assert(j != n - 1);
                assert(key_given(a, (n - 1) as nat, k));
            }
            if key_given(a, (n - 1) as nat, k) {
                let j = choose|j: int| 0 <= j < n - 1 && #[trigger] equiv(k, a[2 * j]);
                assert(key_given(a, n, k));
            }
        }
    }
}

/// A map built from keys and values given in turn holds exactly the distinct keys given:
/// no two of its keys are equal, a key is in it exactly when it equals one of the keys
/// given, each key is bound to the value after its last occurrence, and each of its keys
/// is one of the keys given.
pub proof fn lemma_construct_keys(a: Seq<SVal>, n: nat)
    ensures
        construct_pairs(a, n) matches Ok(m) ==> {
            &&& map_wf(m)
            &&& forall|k: SVal| #[trigger] map_get(m, k) == last_value(a, n, k)
            &&& forall|k: SVal| #[trigger] map_get(m, k) is Some <==> key_given(a, n, k)
            &&& forall|i: int| 0 <= i < m.len() ==> key_given(a, n, #[trigger] entry_key(m[i]))
        },
{
    if let Ok(m) = construct_pairs(a, n) {
        lemma_construct_wf(a, n);
        assert forall|k: SVal| #[trigger] map_get(m, k) == last_value(a, n, k) by {
            lemma_construct_last_wins(a, n, k);
        }
        assert forall|k: SVal| #[trigger] map_get(m, k) is Some <==> key_given(a, n, k) by {
            lemma_construct_last_wins(a, n, k);
            lemma_last_value_given(a, n, k);
        }
        assert forall|i: int| 0 <= i < m.len() implies key_given(a, n, #[trigger] entry_key(m[i])) by {
            let k = entry_key(m[i]);
            lemma_equiv_refl(k);
            lemma_find_unique(m, k, i);
            lemma_construct_last_wins(a, n, k);
            lemma_last_value_given(a, n, k);
        }
    }
}

/// `hash`: builds a map from keys and values given in turn.
pub fn hm_construct(args: &[StahlVal]) -> (r: Result<StahlVal, StahlErr>)
    ensures
        outcome(r) == hm_construct_result(vals(args@)),
{
    construct_map(args, "hash map must have a value for every key!")
}

/// `%keyword-hash`: builds a map from keyword arguments and their values.
pub fn hm_construct_keywords(args: &[StahlVal]) -> (r: Result<StahlVal, StahlErr>)
    ensures
        outcome(r) == hm_construct_result(vals(args@)),
{
    construct_map(args, "Missing keyword argument!")
}

/// `hash-insert`: the map with `key` bound to `value`.
pub fn hash_insert(map: &StahlVal, key: StahlVal, value: StahlVal) -> (r: Result<StahlVal, StahlErr>)
    ensures
        outcome(r) == if !hashable(key@) {
            Err(ErrorKind::TypeMismatch)
        } else {
            match map@ {
                SVal::HashMap(es) => Ok::<SVal, ErrorKind>(SVal::HashMap(map_insert(es, key@, value@))),
                _ => Err(ErrorKind::TypeMismatch),
            }
        },
{
    if !is_hashable(&key) {
        return fail(ErrorKind::TypeMismatch, "hash key not hashable");
    }
    match map {
        StahlVal::HashMapV(m) => {
            let mut es = copy_entries(&m.entries);
            insert_entry(&mut es, key, value);
            Ok(StahlVal::HashMapV(StahlHashMap { entries: es }))
        },
        _ => fail(ErrorKind::TypeMismatch, "hash-insert expects a hash map"),
    }
}

/// `hash-remove`: the map without the entry of `key`.
pub fn hash_remove(map: &StahlVal, key: StahlVal) -> (r: Result<StahlVal, StahlErr>)
    ensures
        outcome(r) == if !hashable(key@) {
            Err(ErrorKind::TypeMismatch)
        } else {
            match map@ {
                SVal::HashMap(es) => Ok::<SVal, ErrorKind>(SVal::HashMap(map_remove(es, key@))),
                _ => Err(ErrorKind::TypeMismatch),
            }
        },
{
    if !is_hashable(&key) {
        return fail(ErrorKind::TypeMismatch, "hash key not hashable");
    }
    match map {
        StahlVal::HashMapV(m) => {
            let mut es = copy_entries(&m.entries);
            let ghost before = view_entries(es@);
            match find_entry(&es, &key) {
                Some(i) => {
                    let _ = es.remove(i);
                    assert(view_entries(es@) =~= before.remove(i as int));
                },
                None => {},
            }
            Ok(StahlVal::HashMapV(StahlHashMap { entries: es }))
        },
        _ => fail(ErrorKind::TypeMismatch, "hash-insert expects a hash map"),
    }
}

/// `hash-ref`: the value bound to `key`; an error when there is none.
pub fn hash_ref(map: &StahlHashMap, key: &StahlVal) -> (r: Result<StahlVal, StahlErr>)
    ensures
        outcome(r) == if !hashable(key@) {
            Err(ErrorKind::TypeMismatch)
        } else {
            match map_get(map@, key@) {
                Some(v) => Ok::<SVal, ErrorKind>(v),
                None => Err(ErrorKind::Generic),
            }
        },
{
    if !is_hashable(key) {
        return fail(ErrorKind::TypeMismatch, "key not hashable");
    }
    match find_entry(&map.entries, key) {
        Some(i) => Ok(map.entries[i].1.clone()),
        None => fail(ErrorKind::Generic, "key not found in hash map"),
    }
}

/// `hash-try-get`: the value bound to `key`, or false.
pub fn hash_try_get(map: &StahlHashMap, key: &StahlVal) -> (r: StahlVal)
    ensures
        r@ == match map_get(map@, key@) {
            Some(v) => v,
            None => SVal::Bool(false),
        },
{
    match find_entry(&map.entries, key) {
        Some(i) => map.entries[i].1.clone(),
        None => StahlVal::BoolV(false),
    }
}

/// `hash-length`: the number of entries.
pub fn hash_length(map: &StahlHashMap) -> (n: usize)
    ensures
        n == map@.len(),
{
    map.entries.len()
}

/// `hash-contains?`: whether some key equals `key`.
pub fn hash_contains(map: &StahlHashMap, key: &StahlVal) -> (r: Result<StahlVal, StahlErr>)
    ensures
        outcome(r) == if !hashable(key@) {
            Err(ErrorKind::TypeMismatch)
        } else {
            Ok::<SVal, ErrorKind>(SVal::Bool(find_key(map@, key@) is Some))
        },
{
    if !is_hashable(key) {
        return fail(ErrorKind::TypeMismatch, "hash key not hashable!");
    }
    Ok(StahlVal::BoolV(find_entry(&map.entries, key).is_some()))
}

/// The keys of the entries, in order.
fn keys_of(map: &StahlHashMap) -> (r: Vec<StahlVal>)
    ensures
        vals(r@) == map_keys(map@),
{
    let mut r: Vec<StahlVal> = Vec::new();
    let mut i: usize = 0;
    while i < map.entries.len()
        invariant
            i <= map.entries.len(),
            vals(r@) == map_keys(map@).subrange(0, i as int),
        decreases map.entries.len() - i,
    {
        let k = map.entries[i].0.clone();
        proof {
            crate::values::lemma_vals_push(r@, k);
        }
        r.push(k);
        i = i + 1;
        assert(vals(r@) =~= map_keys(map@).subrange(0, i as int));
    }
    assert(map_keys(map@).subrange(0, i as int) =~= map_keys(map@));
    r
}

/// The values of the entries, in order.
fn values_of(map: &StahlHashMap) -> (r: Vec<StahlVal>)
    ensures
        vals(r@) == map_values(map@),
{
    let mut r: Vec<StahlVal> = Vec::new();
    let mut i: usize = 0;
    while i < map.entries.len()
        invariant
            i <= map.entries.len(),
            vals(r@) == map_values(map@).subrange(0, i as int),
        decreases map.entries.len() - i,
    {
        let v = map.entries[i].1.clone();
        proof {
            crate::values::lemma_vals_push(r@, v);
        }
        r.push(v);
        i = i + 1;
        assert(vals(r@) =~= map_values(map@).subrange(0, i as int));
    }
    assert(map_values(map@).subrange(0, i as int) =~= map_values(map@));
    r
}

/// `hash-keys->list`: the keys, as a list, in the order of the entries.
pub fn keys_to_list(map: &StahlHashMap) -> (r: Result<StahlVal, StahlErr>)
    ensures
        outcome(r) == Ok::<SVal, ErrorKind>(SVal::List(map_keys(map@))),
{
    Ok(StahlVal::ListV(keys_of(map)))
}

/// `hash-values->list`: the values, as a list, in the order of the entries.
pub fn values_to_list(map: &StahlHashMap) -> (r: Result<StahlVal, StahlErr>)
    ensures
        outcome(r) == Ok::<SVal, ErrorKind>(SVal::List(map_values(map@))),
{
    Ok(StahlVal::ListV(values_of(map)))
}

/// `hash-keys->vector`: the keys, as an immutable vector, in the order of the entries.
pub fn keys_to_vector(map: &StahlHashMap) -> (r: Result<StahlVal, StahlErr>)
    ensures
        outcome(r) == Ok::<SVal, ErrorKind>(SVal::Vector(map_keys(map@))),
{
    VectorOperations::vec_construct_iter_normal(keys_of(map))
}

/// `hash-values->vector`: the values, as an immutable vector, in the order of the entries.
pub fn values_to_vector(map: &StahlHashMap) -> (r: Result<StahlVal, StahlErr>)
    ensures
        outcome(r) == Ok::<SVal, ErrorKind>(SVal::Vector(map_values(map@))),
{
    VectorOperations::vec_construct_iter_normal(values_of(map))
}

/// `hash-clear`: an empty map.
pub fn clear(map: &StahlVal) -> (r: Result<StahlVal, StahlErr>)
    ensures
        outcome(r) == match map@ {
            SVal::HashMap(_) => Ok::<SVal, ErrorKind>(SVal::HashMap(Seq::empty())),
            _ => Err(ErrorKind::TypeMismatch),
        },
{
    match map {
        StahlVal::HashMapV(_) => {
            let es: Vec<(StahlVal, StahlVal)> = Vec::new();
            assert(view_entries(es@) =~= Seq::<SVal>::empty());
            Ok(StahlVal::HashMapV(StahlHashMap { entries: es }))
        },
        _ => fail(ErrorKind::TypeMismatch, "hash-clear expected a hashmap"),
    }
}

/// `hash-empty?`: whether the map has no entry.
pub fn hm_empty(map: &StahlHashMap) -> (r: Result<StahlVal, StahlErr>)
    ensures
        outcome(r) == Ok::<SVal, ErrorKind>(SVal::Bool(map@.len() == 0)),
{
    Ok(StahlVal::BoolV(map.entries.len() == 0))
}

/// `hash-union`: the entries of the left map, then those of the right map whose key the
/// left map lacks.
pub fn hm_union(hml: &StahlVal, hmr: &StahlVal) -> (r: Result<StahlVal, StahlErr>)
    ensures
        outcome(r) == match (hml@, hmr@) {
            (SVal::HashMap(l), SVal::HashMap(rr)) => Ok::<SVal, ErrorKind>(SVal::HashMap(map_union(l, rr))),
            _ => Err(ErrorKind::TypeMismatch),
        },
{
    match (hml, hmr) {
        (StahlVal::HashMapV(l), StahlVal::HashMapV(rm)) => {
            let mut es = copy_entries(&l.entries);
            let ghost lv = view_entries(l.entries@);
            let ghost rv = view_entries(rm.entries@);
            let mut i: usize = 0;
            while i < rm.entries.len()
                invariant
                    i <= rm.entries.len(),
                    rv == view_entries(rm.entries@),
                    view_entries(es@) == map_union(lv, rv.subrange(0, i as int)),
                decreases rm.entries.len() - i,
            {
                assert(rv.subrange(0, i + 1).drop_last() =~= rv.subrange(0, i as int));
                assert(rv.subrange(0, i + 1).last() == rv[i as int]);
                let ghost before = view_entries(es@);
                if find_entry(&es, &rm.entries[i].0).is_none() {
                    let k = rm.entries[i].0.clone();
                    let v = rm.entries[i].1.clone();
                    es.push((k, v));
                    assert(view_entries(es@) =~= before.push(rv[i as int]));
                }
                i = i + 1;
            }
            assert(rv.subrange(0, rv.len() as int) =~= rv);
            Ok(StahlVal::HashMapV(StahlHashMap { entries: es }))
        },
        _ => fail(ErrorKind::TypeMismatch, "hash-union expects two hash maps"),
    }
}


/// What the argument conversion of a native function gives: a type error for the wrong
/// number of arguments, a conversion error for a first argument that is no map.
pub open spec fn map_args(a: Seq<SVal>, n: nat) -> Result<Seq<SVal>, ErrorKind> {
    if a.len() != n {
        Err(ErrorKind::ArityMismatch)
    } else {
        match a[0] {
            SVal::HashMap(es) => Ok(es),
            _ => Err(ErrorKind::ConversionError),
        }
    }
}

/// `hash-insert` called with its arguments in a slice: map, key, value.
pub fn stahl_hash_insert(args: &[StahlVal]) -> (r: Result<StahlVal, StahlErr>)
    ensures
        outcome(r) == if args@.len() != 3 {
            Err(ErrorKind::ArityMismatch)
        } else if !hashable(args@[1]@) {
            Err(ErrorKind::TypeMismatch)
        } else {
            match args@[0]@ {
                SVal::HashMap(es) => Ok::<SVal, ErrorKind>(SVal::HashMap(map_insert(es, args@[1]@, args@[2]@))),
                _ => Err(ErrorKind::TypeMismatch),
            }
        },
{
    if args.len() != 3 {
        return fail(ErrorKind::ArityMismatch, "hash-insert takes 3 arguments");
    }
    hash_insert(&args[0], args[1].clone(), args[2].clone())
}

/// `hash-ref` called with its arguments in a slice: map, key.
pub fn stahl_hash_ref(args: &[StahlVal]) -> (r: Result<StahlVal, StahlErr>)
    ensures
        outcome(r) == match map_args(vals(args@), 2) {
            Err(k) => Err(k),
            Ok(es) => if !hashable(args@[1]@) {
                Err(ErrorKind::TypeMismatch)
            } else {
                match map_get(es, args@[1]@) {
                    Some(v) => Ok::<SVal, ErrorKind>(v),
                    None => Err(ErrorKind::Generic),
                }
            },
        },
{
    if args.len() != 2 {
        return fail(ErrorKind::ArityMismatch, "hash-ref takes 2 arguments");
    }
    match &args[0] {
        StahlVal::HashMapV(m) => hash_ref(m, &args[1]),
        _ => fail(ErrorKind::ConversionError, "Cannot convert stahl value to hashmap"),
    }
}

/// `hash-try-get` called with its arguments in a slice: map, key.
pub fn stahl_hash_try_get(args: &[StahlVal]) -> (r: Result<StahlVal, StahlErr>)
    ensures
        outcome(r) == match map_args(vals(args@), 2) {
            Err(k) => Err(k),
            Ok(es) => Ok::<SVal, ErrorKind>(
                match map_get(es, args@[1]@) {
                    Some(v) => v,
                    None => SVal::Bool(false),
                },
            ),
        },
{
    if args.len() != 2 {
        return fail(ErrorKind::ArityMismatch, "hash-try-get takes 2 arguments");
    }
    match &args[0] {
        StahlVal::HashMapV(m) => Ok(hash_try_get(m, &args[1])),
        _ => fail(ErrorKind::ConversionError, "Cannot convert stahl value to hashmap"),
    }
}

/// `hash-contains?` called with its arguments in a slice: map, key.
pub fn stahl_hash_contains(args: &[StahlVal]) -> (r: Result<StahlVal, StahlErr>)
    ensures
        outcome(r) == match map_args(vals(args@), 2) {
            Err(k) => Err(k),
            Ok(es) => if !hashable(args@[1]@) {
                Err(ErrorKind::TypeMismatch)
            } else {
                Ok::<SVal, ErrorKind>(SVal::Bool(find_key(es, args@[1]@) is Some))
            },
        },
{
    if args.len() != 2 {
        return fail(ErrorKind::ArityMismatch, "hash-contains? takes 2 arguments");
    }
    match &args[0] {
        StahlVal::HashMapV(m) => hash_contains(m, &args[1]),
        _ => fail(ErrorKind::ConversionError, "Cannot convert stahl value to hashmap"),
    }
}

/// `hash-keys->vector` called with its argument in a slice.
pub fn stahl_keys_to_vector(args: &[StahlVal]) -> (r: Result<StahlVal, StahlErr>)
    ensures
        outcome(r) == match map_args(vals(args@), 1) {
            Err(k) => Err(k),
            Ok(es) => Ok::<SVal, ErrorKind>(SVal::Vector(map_keys(es))),
        },
{
    if args.len() != 1 {
        return fail(ErrorKind::ArityMismatch, "hash-keys->vector takes 1 argument");
    }
    match &args[0] {
        StahlVal::HashMapV(m) => keys_to_vector(m),
        _ => fail(ErrorKind::ConversionError, "Cannot convert stahl value to hashmap"),
    }
}

/// `hash-values->vector` called with its argument in a slice.
pub fn stahl_values_to_vector(args: &[StahlVal]) -> (r: Result<StahlVal, StahlErr>)
    ensures
        outcome(r) == match map_args(vals(args@), 1) {
            Err(k) => Err(k),
            Ok(es) => Ok::<SVal, ErrorKind>(SVal::Vector(map_values(es))),
        },
{
    if args.len() != 1 {
        return fail(ErrorKind::ArityMismatch, "hash-values->vector takes 1 argument");
    }
    match &args[0] {
        StahlVal::HashMapV(m) => values_to_vector(m),
        _ => fail(ErrorKind::ConversionError, "Cannot convert stahl value to hashmap"),
    }
}

} // verus!
