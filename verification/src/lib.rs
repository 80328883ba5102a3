//! The reference-resolution layer of a package-management command line:
//! parsing a raw, possibly partial installable string into candidate
//! structured references, rendering a batch of resolver matches into
//! minimally verbose completion strings, and disambiguating such a batch
//! into one concrete target — directly, by prompting, or by failing with an
//! enumerated, reproducible error.

pub mod channels;
pub mod cli;
pub mod complete;
pub mod installables;
pub mod model;
pub mod parse;
pub mod resolve;
pub mod text;

use vstd::prelude::*;

verus! {

/// Returns the length of a vector.
pub fn vec_len<T>(x: Vec<T>) -> (r: usize)
    ensures
        r == x@.len(),
{
    x.len()
}

/// Returns whether a vector holds at least one element.
pub fn vec_not_empty<T>(x: Vec<T>) -> (r: bool)
    ensures
        r == (x@.len() > 0),
{
    !x.is_empty()
}

} // verus!
