//! Line-oriented literal search: numbers the lines of a text, matches each
//! against a query under a case-sensitivity policy, and returns the matching
//! lines in input order, whatever order a pool of workers found them in.
use vstd::prelude::*;

pub mod config;
pub mod engine;
pub mod matcher;
pub mod pipeline;
pub mod source;

verus! {

} // verus!
