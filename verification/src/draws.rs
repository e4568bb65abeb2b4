//! The process-global pseudorandom source, reached through trusted wrappers.
//! Every draw the coordinator makes goes through one of these.

use vstd::prelude::*;

verus! {

/// Relies on `rand::random_range` over `lo..=hi`: a draw from the inclusive
/// range using the thread-local generator, which panics only when the range
/// is empty.
#[verifier::external_body]
pub(crate) fn draw_in_range(lo: u64, hi: u64) -> (r: u64)
    requires
        lo <= hi,
    ensures
        lo <= r <= hi,
{
    rand::random_range(lo..=hi)
}

/// Relies on `rand::random::<bool>`: a coin flip from the thread-local
/// generator. Nothing is promised of the outcome.
#[verifier::external_body]
pub(crate) fn draw_bool() -> (r: bool) {
    rand::random::<bool>()
}

/// Relies on `uuid::Uuid::new_v4`: a freshly drawn random identifier,
/// handed out as its 128-bit value. Nothing is promised of the outcome.
#[verifier::external_body]
pub(crate) fn draw_game_id() -> (r: u128) {
    uuid::Uuid::new_v4().as_u128()
}

} // verus!
