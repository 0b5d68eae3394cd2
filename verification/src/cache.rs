//! A memoization table: the value computed for a function and its arguments.
use vstd::prelude::*;

use crate::hashmaps::{
    find_entry, insert_entry, lemma_get_after_insert, lemma_get_other_after_insert, lemma_insert_wf,
    map_get, map_insert, map_wf,
};
use crate::values::{equiv, view_entries, vals, Pair, SVal, StahlVal};

verus! {

broadcast use crate::values::group_vals;

/// The key under which a call is stored: the function paired with the list of its arguments.
pub open spec fn call_key(function: SVal, arguments: Seq<SVal>) -> SVal {
    SVal::Pair(Box::new(function), Box::new(SVal::List(arguments)))
}

/// Results of calls, keyed by the function and its arguments (compared with `equal?`).
/// It has no capacity limit and never evicts.
#[derive(Debug)]
pub struct MemoizationTable {
    table: Vec<(StahlVal, StahlVal)>,
}

impl View for MemoizationTable {
    type V = Seq<SVal>;

    /// The entries, each the pair of a call key and its value.
    closed spec fn view(&self) -> Seq<SVal> {
        view_entries(self.table@)
    }
}

/// The entries after recording each `(key, value)` of `calls` in turn.
pub open spec fn insert_all(es: Seq<SVal>, calls: Seq<(SVal, SVal)>) -> Seq<SVal>
    decreases calls.len(),
{
    if calls.len() == 0 {
        es
    } else {
        map_insert(insert_all(es, calls.drop_last()), calls.last().0, calls.last().1)
    }
}

/// Recording calls keeps the keys of the entries distinct.
proof fn lemma_insert_all_wf(es: Seq<SVal>, calls: Seq<(SVal, SVal)>)
    requires
        map_wf(es),
    ensures
        map_wf(insert_all(es, calls)),
    decreases calls.len(),
{
    if calls.len() > 0 {
        lemma_insert_all_wf(es, calls.drop_last());
        lemma_insert_wf(insert_all(es, calls.drop_last()), calls.last().0, calls.last().1);
    }
}

/// Recording calls whose keys all differ from `k` leaves what `k` gives unchanged.
pub proof fn lemma_other_calls_keep(es: Seq<SVal>, calls: Seq<(SVal, SVal)>, k: SVal)
    requires
        map_wf(es),
        forall|i: int| 0 <= i < calls.len() ==> !equiv(k, #[trigger] calls[i].0),
    ensures
        map_get(insert_all(es, calls), k) == map_get(es, k),
    decreases calls.len(),
{
    if calls.len() > 0 {
        let d = calls.drop_last();
        assert forall|i: int| 0 <= i < d.len() implies !equiv(k, #[trigger] d[i].0) by {
            assert(d[i] == calls[i]);
        }
        lemma_other_calls_keep(es, d, k);
        lemma_insert_all_wf(es, d);
        assert(!equiv(k, calls[calls.len() - 1].0));
        lemma_get_other_after_insert(insert_all(es, d), calls.last().0, calls.last().1, k);
    }
}

/// A memoization table gives for a call the value last recorded for it: after recording
/// `value` under `key` and then any calls whose keys differ from `key`, the table gives
/// `value` for `key`; and a table built from calls none of which has key `k` gives nothing
/// for `k`.
pub proof fn lemma_memo_last_recorded(
    es: Seq<SVal>,
    key: SVal,
    value: SVal,
    later: Seq<(SVal, SVal)>,
    k: SVal,
    calls: Seq<(SVal, SVal)>,
)
    requires
        map_wf(es),
        forall|i: int| 0 <= i < later.len() ==> !equiv(key, #[trigger] later[i].0),
        forall|i: int| 0 <= i < calls.len() ==> !equiv(k, #[trigger] calls[i].0),
    ensures
        map_get(insert_all(map_insert(es, key, value), later), key) == Some(value),
        map_get(insert_all(Seq::<SVal>::empty(), calls), k) is None,
{
    lemma_insert_wf(es, key, value);
    lemma_get_after_insert(es, key, value);
    lemma_other_calls_keep(map_insert(es, key, value), later, key);
    lemma_other_calls_keep(Seq::<SVal>::empty(), calls, k);
}

fn key_value(function: StahlVal, arguments: Vec<StahlVal>) -> (k: StahlVal)
    ensures
        k@ == call_key(function@, vals(arguments@)),
{
    let args = StahlVal::ListV(arguments);
    assert(args@ == SVal::List(vals(arguments@)));
    let k = StahlVal::Pair(Box::new(Pair { car: function, cdr: args }));
    assert(k@ == SVal::Pair(Box::new(function@), Box::new(args@)));
    k
}

impl MemoizationTable {
    /// No two entries have equal keys.
    #[verifier::type_invariant]
    spec fn inv(&self) -> bool {
        map_wf(self@)
    }

    /// An empty table.
    pub fn new() -> (t: Self)
        ensures
            t@ == Seq::<SVal>::empty(),
    {
        let t = MemoizationTable { table: Vec::new() };
        assert(t@ =~= Seq::<SVal>::empty());
        t
    }

    /// Records `value` as the result of `function` on `arguments`: that call then gives
    /// `value`, and every call with other arguments or another function gives what it gave.
    pub fn insert(&mut self, function: StahlVal, arguments: Vec<StahlVal>, value: StahlVal)
        ensures
            final(self)@ == crate::hashmaps::map_insert(
                old(self)@,
                call_key(function@, vals(arguments@)),
                value@,
            ),
            map_get(final(self)@, call_key(function@, vals(arguments@))) == Some(value@),
            forall|k: SVal|
                !crate::values::equiv(k, call_key(function@, vals(arguments@))) ==> #[trigger] map_get(
                    final(self)@,
                    k,
                ) == map_get(old(self)@, k),
    {
        proof {
            use_type_invariant(&*self);
        }
        let ghost before = self@;
        let k = key_value(function, arguments);
        proof {
            crate::hashmaps::lemma_insert_wf(before, k@, value@);
            crate::hashmaps::lemma_get_after_insert(before, k@, value@);
            assert forall|k2: SVal| !crate::values::equiv(k2, k@) implies #[trigger] map_get(
                crate::hashmaps::map_insert(before, k@, value@),
                k2,
            ) == map_get(before, k2) by {
                crate::hashmaps::lemma_get_other_after_insert(before, k@, value@, k2);
            }
        }
        let mut entries: Vec<(StahlVal, StahlVal)> = Vec::new();
        std::mem::swap(&mut entries, &mut self.table);
        assert(view_entries(entries@) == before);
        insert_entry(&mut entries, k, value);
        self.table = entries;
    }

    /// The result recorded for `function` on `arguments`, if any.
    pub fn get(&self, function: StahlVal, arguments: Vec<StahlVal>) -> (r: Option<StahlVal>)
        ensures
            match map_get(self@, call_key(function@, vals(arguments@))) {
                Some(v) => r matches Some(x) && x@ == v,
                None => r is None,
            },
    {
        let k = key_value(function, arguments);
        match find_entry(&self.table, &k) {
            Some(i) => Some(self.table[i].1.clone()),
            None => None,
        }
    }
}

} // verus!
