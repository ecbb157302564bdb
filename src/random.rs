use vstd::prelude::*;

verus! {

/// Relies on `rand::Rng::gen_range` over `rand::thread_rng()`: for a non-empty
/// half-open range it returns a value inside it, and panics on an empty one.
#[verifier::external_body]
pub(crate) fn random_between(low: i64, high: i64) -> (r: i64)
    requires
        low < high,
    ensures
        low <= r < high,
{
    rand::Rng::gen_range(&mut rand::thread_rng(), low..high)
}

} // verus!
