//! Lazy streams: a first value and a thunk that produces the rest.
use vstd::prelude::*;

use crate::values::{SVal, StahlVal};

verus! {

/// A stream cell: its first value and the thunk for the rest, or the empty stream.
#[derive(Debug)]
pub struct LazyStream {
    pub initial_value: StahlVal,
    pub stream_thunk: StahlVal,
    pub empty_stream: bool,
}

impl LazyStream {
    /// A stream whose first value is `initial_value` and whose rest `stream_thunk` gives.
    pub fn new(initial_value: StahlVal, stream_thunk: StahlVal) -> (s: Self)
        ensures
            s.initial_value@ == initial_value@,
            s.stream_thunk@ == stream_thunk@,
            !s.empty_stream,
    {
        LazyStream { initial_value, stream_thunk, empty_stream: false }
    }

    /// The empty stream.
    pub fn new_empty_stream() -> (s: Self)
        ensures
            s.initial_value@ == SVal::Void,
            s.stream_thunk@ == SVal::Void,
            s.empty_stream,
    {
        LazyStream { initial_value: StahlVal::Void, stream_thunk: StahlVal::Void, empty_stream: true }
    }

    /// `stream-first`: the first value.
    pub fn stream_first(&self) -> (v: StahlVal)
        ensures
            v@ == self.initial_value@,
    {
        self.initial_value.clone()
    }

    /// The thunk that gives the rest of the stream.
    pub fn stream_thunk(&self) -> (v: StahlVal)
        ensures
            v@ == self.stream_thunk@,
    {
        self.stream_thunk.clone()
    }

    /// `stream-empty?`: whether this is the empty stream.
    pub fn empty_stream(&self) -> (v: StahlVal)
        ensures
            v@ == SVal::Bool(self.empty_stream),
    {
        StahlVal::BoolV(self.empty_stream)
    }
}

impl Clone for LazyStream {
    fn clone(&self) -> (s: Self)
        ensures
            s.initial_value@ == self.initial_value@,
            s.stream_thunk@ == self.stream_thunk@,
            s.empty_stream == self.empty_stream,
    {
        LazyStream {
            initial_value: self.initial_value.clone(),
            stream_thunk: self.stream_thunk.clone(),
            empty_stream: self.empty_stream,
        }
    }
}

} // verus!
