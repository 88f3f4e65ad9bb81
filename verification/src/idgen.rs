//! Fresh rule identifiers. Ids are random, so nothing relates two calls:
//! only the length is promised.

use vstd::prelude::*;

verus! {

/// Relies on nanoid::format with the default URL-safe alphabet and the
/// crate's default secure generator: it returns 21 characters drawn from
/// `A-Za-z0-9_-`; the draw is random, so no more is stated.
#[verifier::external_body]
pub fn new_id() -> (r: String)
    ensures
        r@.len() == 21,
{
    nanoid::format(nanoid::rngs::default, &nanoid::alphabet::SAFE, 21)
}

} // verus!
