//! The two bridges between `String` text and the `Vec<char>` form the
//! scanner and the renderer work on.

use vstd::prelude::*;

verus! {

/// Relies on str::chars (std): iterating a string slice yields exactly its
/// characters, in order; collecting them into a vector keeps that order.
#[verifier::external_body]
pub(crate) fn chars_of(s: &str) -> (r: Vec<char>)
    ensures
        r@ == s@,
{
    s.chars().collect()
}

/// Relies on String's FromIterator (std): collecting characters yields the
/// string whose characters are exactly those collected, in order.
#[verifier::external_body]
pub(crate) fn string_from_chars(v: &Vec<char>) -> (r: String)
    ensures
        r@ == v@,
{
    v.iter().collect()
}

} // verus!
