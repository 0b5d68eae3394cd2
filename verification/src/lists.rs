//! Immutable pairs.
use vstd::prelude::*;

use crate::values::{Pair, SVal, StahlVal};

verus! {

impl Pair {
    /// The pair of `car` and `cdr`.
    pub fn cons(car: StahlVal, cdr: StahlVal) -> (p: Pair)
        ensures
            p.car@ == car@,
            p.cdr@ == cdr@,
    {
        Pair { car, cdr }
    }

    /// The first component.
    pub fn car(&self) -> (v: StahlVal)
        ensures
            v@ == self.car@,
    {
        self.car.clone()
    }

    /// The second component.
    pub fn cdr(&self) -> (v: StahlVal)
        ensures
            v@ == self.cdr@,
    {
        self.cdr.clone()
    }
}

impl Clone for Pair {
    fn clone(&self) -> (p: Self)
        ensures
            p.car@ == self.car@,
            p.cdr@ == self.cdr@,
    {
        Pair { car: self.car.clone(), cdr: self.cdr.clone() }
    }
}

impl From<Pair> for StahlVal {
    fn from(pair: Pair) -> (v: StahlVal) {
        StahlVal::Pair(Box::new(pair))
    }
}

impl vstd::std_specs::convert::FromSpecImpl<Pair> for StahlVal {
    open spec fn obeys_from_spec() -> bool {
        true
    }

    open spec fn from_spec(pair: Pair) -> StahlVal {
        StahlVal::Pair(Box::new(pair))
    }
}

} // verus!
