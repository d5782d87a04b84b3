//! Trusted boundary: randomness for the spawn policy, and a string copy
//! whose contract `vstd` does not provide.

use vstd::prelude::*;
use rand::Rng;

verus! {

/// Relies on rand's `Rng::gen_range`, which returns a value of the half-open
/// range `lo..hi` and panics only when the range is empty.  Nothing more is
/// assumed of the outcome: callers must hold for every value in the range.
#[verifier::external_body]
pub(crate) fn rand_in_range(lo: i64, hi: i64) -> (r: i64)
    requires
        lo < hi,
    ensures
        lo <= r < hi,
{
    rand::thread_rng().gen_range(lo..hi)
}

/// Relies on `String::clone`, which copies the character data unchanged.
#[verifier::external_body]
pub(crate) fn clone_string(s: &String) -> (r: String)
    ensures
        r@ == s@,
{
    s.clone()
}

} // verus!
