//! The value model and the built-in primitives of the Stahl Scheme dialect.
//!
//! Every operation on values is stated over the mathematical view [`values::SVal`]
//! of a runtime value [`values::StahlVal`].
use vstd::prelude::*;

pub mod heap;
pub mod lazy_stream;
pub mod transducers;
pub mod equality;
pub mod values;
pub mod errors;
pub mod vectors;
pub mod hashmaps;
pub mod hashsets;
pub mod lists;
pub mod cache;
pub mod conversions;
pub mod numbers;
pub mod primitives;
pub mod printer;
pub mod symbols;
pub mod http;
pub mod json;
pub mod refs;
pub mod tokens;
pub mod sources;
pub mod bignum;
pub mod registry;
pub mod collector;

verus! {

} // verus!
