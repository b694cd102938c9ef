//! Moments and the time between them, in nanoseconds of a monotonic clock, and
//! looking things up.

use vstd::prelude::*;

verus! {

/// The time between two moments; none where the later one comes first.
pub open spec fn elapsed(now: u64, then: u64) -> int {
    if now >= then {
        now - then
    } else {
        0
    }
}

/// The time between two moments.
pub fn elapsed_nanos(now: u64, then: u64) -> (nanos: u64)
    ensures
        nanos == elapsed(now, then),
{
    if now >= then {
        now - then
    } else {
        0
    }
}

/// Whether at least `seconds` seconds passed between two moments.
pub open spec fn has_passed(now: u64, then: u64, seconds: u64) -> bool {
    elapsed(now, then) >= seconds * 1_000_000_000
}

/// Whether at least `seconds` seconds passed between two moments.
pub fn passed(now: u64, then: u64, seconds: u64) -> (yes: bool)
    ensures
        yes == has_passed(now, then, seconds),
{
    let wait: u128 = seconds as u128 * 1_000_000_000;
    elapsed_nanos(now, then) as u128 >= wait
}

/// What a map holds under a key, if anything.
pub open spec fn lookup<K, V>(map: Map<K, V>, key: K) -> Option<V> {
    if map.contains_key(key) {
        Some(map[key])
    } else {
        None
    }
}

/// A number of seconds has passed once that many times a thousand million
/// nanoseconds have, and not a nanosecond earlier; and what has passed stays so.
pub proof fn law_seconds_pass(now: u64, then: u64, seconds: u64, later: u64)
    ensures
        has_passed(now, then, seconds) <==> seconds == 0 || now >= then + seconds * 1_000_000_000,
        now <= later && has_passed(now, then, seconds) ==> has_passed(later, then, seconds),
        now >= then ==> then + elapsed(now, then) == now,
        now < then ==> elapsed(now, then) == 0,
{
}

} // verus!
