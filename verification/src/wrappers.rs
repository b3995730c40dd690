//! The few places where the library reaches outside itself: fresh random
//! identifiers and the current wall-clock time. Every function here only
//! produces a value whose meaning no caller may rely on beyond freshness
//! by chance or the passage of time, so none of them carries a contract;
//! all logic that consumes these values takes them as plain arguments and
//! is verified for every possible value.

use vstd::prelude::*;

verus! {

/// Relies on `uuid::Uuid::new_v4`: draws a random version-4 UUID and
/// hands back its 128 bits. The result is random, so nothing is promised
/// about it.
#[verifier::external_body]
pub fn fresh_id_bits() -> u128 {
    uuid::Uuid::new_v4().as_u128()
}

/// Relies on `rand::random`: draws 128 random bits from the thread-local
/// generator. The result is random, so nothing is promised about it.
#[verifier::external_body]
pub fn fresh_token_bits() -> u128 {
    rand::random::<u128>()
}

/// Relies on `chrono::Utc::now` and `DateTime::timestamp`: seconds since
/// the Unix epoch. The result depends on the clock, so nothing is
/// promised about it. `Utc::now` itself panics on a machine whose clock
/// reads before the Unix epoch; `clock_seconds` additionally maps any
/// negative reading to zero.
#[verifier::external_body]
pub fn current_timestamp() -> i64 {
    chrono::Utc::now().timestamp()
}

/// Turns a raw clock reading into the unsigned seconds value the rest of
/// the library works with; readings before the epoch count as zero.
pub fn clock_seconds(raw: i64) -> (r: u64)
    ensures
        raw >= 0 ==> r == raw,
        raw < 0 ==> r == 0,
{
    if raw >= 0 {
        raw as u64
    } else {
        0
    }
}

} // verus!
