use vstd::prelude::*;

verus! {

/// Relies on `rand::random_range` over `0..=255`: any `u8` may come back.
#[verifier::external_body]
pub(crate) fn random_channel() -> (r: u8) {
    rand::random_range(0..=255u8)
}

/// Relies on `rand::random_range` over the half-open range `lo..hi`, which
/// yields a value inside that range and panics only when it is empty.
#[verifier::external_body]
pub(crate) fn random_below(lo: i32, hi: i32) -> (r: i32)
    requires
        lo < hi,
    ensures
        lo <= r < hi,
{
    rand::random_range(lo..hi)
}

} // verus!
