//! The node's clock (`embassy_time`), taken as plain tick counts.
use vstd::prelude::*;

verus! {

/// The number of clock ticks in `ms` milliseconds, as
/// `embassy_time::Duration::from_millis(ms).as_ticks()` computes it (it
/// depends on the tick rate the crate is configured with).
pub uninterp spec fn ticks_for_millis(ms: u64) -> u64;

/// `embassy_time::Instant::now()`, as ticks since boot. Nothing is promised
/// of the value: it is read from the running clock.
#[verifier::external_body]
pub fn now_ticks() -> (t: u64) {
    embassy_time::Instant::now().as_ticks()
}

/// Clock ticks per second: what one second converts to.
pub open spec fn ticks_per_second() -> int {
    ticks_for_millis(1000) as int
}

/// `embassy_time::Duration::from_millis(ms)`, as ticks. The conversion
/// multiplies `ms` by the tick rate before dividing, so `ms` is kept small
/// enough that the product fits in 64 bits at every supported tick rate.
/// It rounds `ms` times the tick rate, over 1000, up; one second is exactly
/// the tick rate, so the result is `ms * ticks_for_millis(1000) / 1000`
/// rounded up.
#[verifier::external_body]
pub fn duration_ticks(ms: u64) -> (t: u64)
    requires
        ms <= 10_000,
    ensures
        t == ticks_for_millis(ms),
        t == (ms * ticks_for_millis(1000) + 999) / 1000,
{
    embassy_time::Duration::from_millis(ms).as_ticks()
}

/// A whole number of seconds converts to that many times the tick rate.
pub proof fn lemma_whole_seconds(ms: u64)
    requires
        ms % 1000 == 0,
    ensures
        (ms * ticks_for_millis(1000) + 999) / 1000 == (ms / 1000) * ticks_per_second(),
{
    let k = ms / 1000;
    let t = ticks_for_millis(1000) as int;
    assert(ms == 1000 * k);
    assert(ms * ticks_for_millis(1000) + 999 == 1000 * (k * t) + 999) by (nonlinear_arith)
        requires
            ms == 1000 * k,
            t == ticks_for_millis(1000),
    ;
    assert((1000 * (k * t) + 999) / 1000 == k * t) by (nonlinear_arith)
        requires
            k >= 0,
            t >= 0,
    ;
}

} // verus!
