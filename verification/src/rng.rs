//! The library's only source of randomness, drawn from the thread-local
//! generator so that every parallel render task owns its own state.

use vstd::prelude::*;
use rand::Rng;

verus! {

/// Relies on rand::Rng::gen_range (on rand::thread_rng): returns a uniformly
/// drawn value of the half-open range, and panics only on an empty range,
/// which the requires rules out.
#[verifier::external_body]
pub(crate) fn rand_range(lo: i64, hi: i64) -> (r: i64)
    requires
        lo < hi,
    ensures
        lo <= r < hi,
{
    rand::thread_rng().gen_range(lo..hi)
}

} // verus!
