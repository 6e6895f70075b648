use vstd::prelude::*;

use rand::Rng;

verus! {

/// Relies on `rand::thread_rng` together with `rand::Rng::gen_range`: a draw
/// from a non-empty inclusive integer range returns a value inside that range
/// (`gen_range` panics only on an empty range, which the precondition rules
/// out). Nothing more is promised: the draw depends on the generator's state.
#[verifier::external_body]
pub(crate) fn rand_in_range(lo: i64, hi: i64) -> (r: i64)
    requires
        lo <= hi,
    ensures
        lo <= r <= hi,
{
    rand::thread_rng().gen_range(lo..=hi)
}

} // verus!
