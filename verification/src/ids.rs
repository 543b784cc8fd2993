//! Generation of collision-resistant short identifiers for child paths.

use vstd::prelude::*;

use crate::node::slash_free;

verus! {

/// Relies on nanoid::format with the url-safe alphabet: the result is
/// `length` characters drawn from `A-Za-z0-9_-`, so it never contains `/`.
/// The characters are random: nothing else is assumed of them.
#[verifier::external_body]
pub(crate) fn generate_id(length: usize) -> (r: String)
    ensures
        r@.len() == length as nat,
        slash_free(r@),
{
    nanoid::format(nanoid::rngs::default, &nanoid::alphabet::SAFE, length)
}

} // verus!
