//! Transducers (chains of sequence operations) and reducers (ways to collect a sequence).
use vstd::prelude::*;

use crate::errors::{fail, outcome};
use crate::values::{vals, ErrorKind, SReducer, SVal, StahlErr, StahlVal};

verus! {

broadcast use crate::values::group_vals;

/// One operation of a transducer, with its argument.
#[derive(Debug)]
pub enum Transducers {
    Mapping(StahlVal),
    Filter(StahlVal),
    Take(StahlVal),
    Drop(StahlVal),
    FlatMap(StahlVal),
    Flatten,
    Window(StahlVal),
    TakeWhile(StahlVal),
    DropWhile(StahlVal),
    Extend(StahlVal),
    Cycle,
    Enumerating,
    Zipping(StahlVal),
    Interleaving(StahlVal),
}

/// A chain of operations, applied in order.
#[derive(Debug)]
pub struct Transducer {
    pub ops: Vec<Transducers>,
}

impl Transducer {
    /// The empty chain.
    pub fn new() -> (t: Self)
        ensures
            t.ops@ == Seq::<Transducers>::empty(),
    {
        Transducer { ops: Vec::new() }
    }

    /// Moves the operations of `other` to the end of this chain.
    pub fn append(&mut self, other: Self)
        ensures
            final(self).ops@ == old(self).ops@ + other.ops@,
    {
        let mut other = other;
        self.ops.append(&mut other.ops);
    }

    /// Adds `t` to the end of this chain.
    pub fn push(&mut self, t: Transducers)
        ensures
            final(self).ops@ == old(self).ops@.push(t),
    {
        self.ops.push(t);
    }
}

impl Default for Transducer {
    fn default() -> (t: Self)
        ensures
            t.ops@ == Seq::<Transducers>::empty(),
    {
        Transducer::new()
    }
}

/// A reducer that folds with a function from an initial value.
#[derive(Debug)]
pub struct ReducerFunc {
    pub initial_value: StahlVal,
    pub function: StahlVal,
}

impl ReducerFunc {
    fn new(initial_value: StahlVal, function: StahlVal) -> (r: Self)
        ensures
            r.initial_value@ == initial_value@,
            r.function@ == function@,
    {
        ReducerFunc { initial_value, function }
    }
}

/// How a sequence is collected.
#[derive(Debug)]
pub enum Reducer {
    Sum,
    Multiply,
    Max,
    Min,
    Count,
    Nth(usize),
    List,
    Vector,
    HashMap,
    HashSet,
    String,
    Last,
    ForEach(StahlVal),
    Generic(ReducerFunc),
}

/// A reducer that takes no argument, or an arity error.
pub open spec fn nullary_result(a: Seq<SVal>, r: SReducer) -> Result<SVal, ErrorKind> {
    if a.len() != 0 {
        Err(ErrorKind::ArityMismatch)
    } else {
        Ok(SVal::Reducer(r))
    }
}

fn nullary(args: &[StahlVal], r: Reducer) -> (v: Result<StahlVal, StahlErr>)
    ensures
        outcome(v) == nullary_result(vals(args@), crate::values::view_reducer(r)),
{
    if args.len() != 0 {
        return fail(ErrorKind::ArityMismatch, "the reducer takes no arguments");
    }
    Ok(StahlVal::ReducerV(Box::new(r)))
}

/// `into-sum`.
pub fn into_sum(args: &[StahlVal]) -> (v: Result<StahlVal, StahlErr>)
    ensures
        outcome(v) == nullary_result(vals(args@), SReducer::Sum),
{
    nullary(args, Reducer::Sum)
}

/// `into-product`.
pub fn into_multiply(args: &[StahlVal]) -> (v: Result<StahlVal, StahlErr>)
    ensures
        outcome(v) == nullary_result(vals(args@), SReducer::Multiply),
{
    nullary(args, Reducer::Multiply)
}

/// `into-max`.
pub fn into_max(args: &[StahlVal]) -> (v: Result<StahlVal, StahlErr>)
    ensures
        outcome(v) == nullary_result(vals(args@), SReducer::Max),
{
    nullary(args, Reducer::Max)
}

/// `into-min`.
pub fn into_min(args: &[StahlVal]) -> (v: Result<StahlVal, StahlErr>)
    ensures
        outcome(v) == nullary_result(vals(args@), SReducer::Min),
{
    nullary(args, Reducer::Min)
}

/// `into-count`.
pub fn into_count(args: &[StahlVal]) -> (v: Result<StahlVal, StahlErr>)
    ensures
        outcome(v) == nullary_result(vals(args@), SReducer::Count),
{
    nullary(args, Reducer::Count)
}

/// `into-list`.
pub fn into_list(args: &[StahlVal]) -> (v: Result<StahlVal, StahlErr>)
    ensures
        outcome(v) == nullary_result(vals(args@), SReducer::List),
{
    nullary(args, Reducer::List)
}

/// `into-vector`.
pub fn into_vector(args: &[StahlVal]) -> (v: Result<StahlVal, StahlErr>)
    ensures
        outcome(v) == nullary_result(vals(args@), SReducer::Vector),
{
    nullary(args, Reducer::Vector)
}

/// `into-hashmap`.
pub fn into_hashmap(args: &[StahlVal]) -> (v: Result<StahlVal, StahlErr>)
    ensures
        outcome(v) == nullary_result(vals(args@), SReducer::HashMap),
{
    nullary(args, Reducer::HashMap)
}

/// `into-hashset`.
pub fn into_hashset(args: &[StahlVal]) -> (v: Result<StahlVal, StahlErr>)
    ensures
        outcome(v) == nullary_result(vals(args@), SReducer::HashSet),
{
    nullary(args, Reducer::HashSet)
}

/// `into-string`.
pub fn into_string(args: &[StahlVal]) -> (v: Result<StahlVal, StahlErr>)
    ensures
        outcome(v) == nullary_result(vals(args@), SReducer::String),
{
    nullary(args, Reducer::String)
}

/// `into-last`.
pub fn into_last(args: &[StahlVal]) -> (v: Result<StahlVal, StahlErr>)
    ensures
        outcome(v) == nullary_result(vals(args@), SReducer::Last),
{
    nullary(args, Reducer::Last)
}

/// `for-each`: a reducer that calls the only argument on each element.
pub fn for_each(args: &[StahlVal]) -> (v: Result<StahlVal, StahlErr>)
    ensures
        outcome(v) == if args@.len() != 1 {
            Err(ErrorKind::ArityMismatch)
        } else {
            Ok::<SVal, ErrorKind>(SVal::Reducer(SReducer::ForEach(Box::new(args@[0]@))))
        },
{
    if args.len() != 1 {
        return fail(ErrorKind::ArityMismatch, "for-each takes one argument");
    }
    let function = args[0].clone();
    let r = Reducer::ForEach(function);
    assert(crate::values::view_reducer(r) == SReducer::ForEach(Box::new(args@[0]@)));
    Ok(StahlVal::ReducerV(Box::new(r)))
}

/// `reducer`: a reducer that folds with the first argument, starting from the second.
pub fn generic(args: &[StahlVal]) -> (v: Result<StahlVal, StahlErr>)
    ensures
        outcome(v) == if args@.len() != 2 {
            Err(ErrorKind::ArityMismatch)
        } else {
            Ok::<SVal, ErrorKind>(
                SVal::Reducer(SReducer::Generic(Box::new(args@[1]@), Box::new(args@[0]@))),
            )
        },
{
    if args.len() != 2 {
        return fail(ErrorKind::ArityMismatch, "reducer takes two arguments");
    }
    let function = args[0].clone();
    let initial_value = args[1].clone();
    let r = Reducer::Generic(ReducerFunc::new(initial_value, function));
    assert(crate::values::view_reducer(r) == SReducer::Generic(Box::new(args@[1]@), Box::new(args@[0]@)));
    Ok(StahlVal::ReducerV(Box::new(r)))
}

/// `nth`: a reducer that gives the element at a non-negative index.
pub fn nth(args: &[StahlVal]) -> (v: Result<StahlVal, StahlErr>)
    ensures
        outcome(v) == if args@.len() != 1 {
            Err(ErrorKind::ArityMismatch)
        } else {
            match args@[0]@ {
                SVal::Int(n) => if n < 0 {
                    Err(ErrorKind::TypeMismatch)
                } else {
                    Ok::<SVal, ErrorKind>(SVal::Reducer(SReducer::Nth(n as nat)))
                },
                _ => Err(ErrorKind::TypeMismatch),
            }
        },
{
    if args.len() != 1 {
        return fail(ErrorKind::ArityMismatch, "nth takes one argument");
    }
    match &args[0] {
        StahlVal::IntV(n) => {
            if *n < 0 {
                return fail(ErrorKind::TypeMismatch, "nth expected a (postive) integer");
            }
            let r = Reducer::Nth(*n as usize);
            assert(crate::values::view_reducer(r) == SReducer::Nth(*n as nat));
            Ok(StahlVal::ReducerV(Box::new(r)))
        },
        _ => fail(ErrorKind::TypeMismatch, "nth expected a (postive) integer"),
    }
}

} // verus!
