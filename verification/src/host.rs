//! The two places where the engine touches the host: entropy for weight
//! initialisation, dropout and sample draws, and the wall clock for the
//! per-epoch time history.

use vstd::prelude::*;

verus! {

/// Relies on rand::random: a uniformly distributed `u32`. Nothing is
/// assumed of the result; callers reduce it into the range they need.
#[verifier::external_body]
pub(crate) fn rand_u32() -> u32 {
    rand::random::<u32>()
}

/// Relies on std::time::SystemTime::now, SystemTime::duration_since and
/// Duration::as_secs: the wall clock, read as whole seconds since the Unix
/// epoch, or zero if the clock sits before the epoch. Nothing is assumed of
/// the result.
#[verifier::external_body]
pub(crate) fn now_secs() -> u64 {
    match std::time::SystemTime::now().duration_since(std::time::UNIX_EPOCH) {
        Ok(d) => d.as_secs(),
        Err(_) => 0,
    }
}

/// A uniformly distributed index below `n`.
pub(crate) fn rand_below(n: usize) -> (r: usize)
    requires
        1 <= n <= 0xFFFF_FFFF,
    ensures
        r < n,
{
    (rand_u32() as usize) % n
}

/// A fixed-point scalar drawn uniformly from `[-1, 1]`.
pub(crate) fn rand_weight() -> (r: i64)
    ensures
        -crate::fx::FX_ONE <= r <= crate::fx::FX_ONE,
{
    let span: u32 = 0x200_0001;
    let x = rand_u32() % span;
    (x as i64) - crate::fx::FX_ONE
}

} // verus!
