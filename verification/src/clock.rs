//! A seed from the system clock, for games that ask for none.

use vstd::prelude::*;

verus! {

/// The time since the Unix epoch, in whole nanoseconds and in whole seconds.
///
/// Trusted: reads the clock with `std::time::SystemTime::now` and measures it
/// from `std::time::UNIX_EPOCH`; a clock set before the epoch reads as zero.
/// Nothing is claimed of the two numbers.
#[verifier::external_body]
fn time_since_epoch() -> (t: (u128, u64)) {
    let now = std::time::SystemTime::now()
        .duration_since(std::time::UNIX_EPOCH)
        .unwrap_or_default();
    (now.as_nanos(), now.as_secs())
}

/// The low 64 bits of `nanos`, mixed with `secs` turned by half its width.
pub open spec fn mixed(nanos: u128, secs: u64) -> u64 {
    ((nanos & 0xffff_ffff_ffff_ffff) as u64) ^ ((secs << 32) | (secs >> 32))
}

/// Mixes a clock reading into one 64-bit seed.
pub fn mix(nanos: u128, secs: u64) -> (seed: u64)
    ensures
        seed == mixed(nanos, secs),
{
    let low: u128 = nanos & 0xffff_ffff_ffff_ffff;
    assert(low <= 0xffff_ffff_ffff_ffff) by (bit_vector)
        requires
            low == nanos & 0xffff_ffff_ffff_ffff,
    ;
    (low as u64) ^ ((secs << 32) | (secs >> 32))
}

/// A seed that differs from one run to the next.
pub fn seed_from_time() -> u64 {
    let (nanos, secs) = time_since_epoch();
    mix(nanos, secs)
}

} // verus!
