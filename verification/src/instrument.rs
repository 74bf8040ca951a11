//! The instrumentation wrapper: time a call, classify its outcome, fold one
//! sample into the registry, and hand the call's own result back unchanged.
//!
//! The wall clock is outside the logic: the contracts fix everything about a
//! recorded sample except the measured duration, which may be any value.

use vstd::prelude::*;

use crate::outcome::Outcome;
use crate::outcome::classify_result;
use crate::outcome::classify_verdict;
use crate::outcome::outcome_of_result;
use crate::outcome::outcome_of_verdict;
use crate::registry::Registry;
use crate::registry::record_spec;

verus! {

#[verifier::external_type_specification]
#[verifier::external_body]
pub struct ExInstant(std::time::Instant);

/// Relies on std::time::Instant::now: an opaque reading of the monotonic
/// clock. Nothing is assumed about the value.
#[verifier::external_body]
fn clock_now() -> std::time::Instant {
    std::time::Instant::now()
}

/// Relies on std::time::Instant::elapsed: the time since `start`, as an
/// opaque duration. Nothing is assumed about the value.
#[verifier::external_body]
fn clock_elapsed(start: &std::time::Instant) -> std::time::Duration {
    start.elapsed()
}

/// Relies on std::time::Duration::as_millis: the duration in whole
/// milliseconds. Nothing is assumed about the value.
#[verifier::external_body]
fn duration_millis(d: &std::time::Duration) -> u128 {
    d.as_millis()
}

/// Clamp a millisecond reading to the range a counter can hold.
fn millis_to_u64(ms: u128) -> (r: u64)
    ensures
        r as nat == if ms <= u64::MAX { ms as nat } else { u64::MAX as nat },
{
    if ms <= u64::MAX as u128 {
        ms as u64
    } else {
        u64::MAX
    }
}

/// Measure how many milliseconds have passed since `start`.
fn elapsed_ms(start: &std::time::Instant) -> u64 {
    let d = clock_elapsed(start);
    millis_to_u64(duration_millis(&d))
}

/// Wrap one call of a result-returning `handler`: time it, classify the
/// returned value under the default policy, fold exactly one sample into
/// `reg`, and return the handler's value unchanged. Only the measured
/// duration is left open.
pub fn instrument<T, E, F: FnOnce() -> Result<T, E>>(
    reg: &mut Registry,
    name: &str,
    handler: F,
) -> (r: Result<T, E>)
    requires
        old(reg).inv(),
        call_requires(handler, ()),
    ensures
        final(reg).inv(),
        call_ensures(handler, (), r),
        exists|d: nat|
            final(reg)@ == #[trigger] record_spec(old(reg)@, name@, outcome_of_result(r), d),
{
    let start = clock_now();
    let r = handler();
    let ms = elapsed_ms(&start);
    let o = classify_result(&r);
    reg.record(name, o, ms);
    r
}

/// Wrap one call of a `handler` whose return value is not result-like and
/// comes with no predicate: the call counts as a success, as under the
/// default policy nothing marks it as failed.
pub fn instrument_plain<R, F: FnOnce() -> R>(reg: &mut Registry, name: &str, handler: F) -> (r: R)
    requires
        old(reg).inv(),
        call_requires(handler, ()),
    ensures
        final(reg).inv(),
        call_ensures(handler, (), r),
        exists|d: nat|
            final(reg)@ == #[trigger] record_spec(old(reg)@, name@, Outcome::Success, d),
{
    let start = clock_now();
    let r = handler();
    let ms = elapsed_ms(&start);
    reg.record(name, Outcome::Success, ms);
    r
}

/// Wrap one call of `handler` and classify its return value with the
/// user-supplied predicate `ok_if`: a verdict of `true` records a success,
/// `false` an error, and the value itself is returned unchanged. The
/// predicate must be callable on every value, so a failing predicate is ruled
/// out rather than defaulted.
pub fn instrument_ok_if<R, F: FnOnce() -> R, P: Fn(&R) -> bool>(
    reg: &mut Registry,
    name: &str,
    handler: F,
    ok_if: P,
) -> (r: R)
    requires
        old(reg).inv(),
        call_requires(handler, ()),
        forall|v: R| call_requires(ok_if, (&v,)),
    ensures
        final(reg).inv(),
        call_ensures(handler, (), r),
        exists|d: nat, ok: bool|
            call_ensures(ok_if, (&r,), ok) && final(reg)@ == #[trigger] record_spec(
                old(reg)@,
                name@,
                outcome_of_verdict(ok),
                d,
            ),
{
    let start = clock_now();
    let r = handler();
    let ok = ok_if(&r);
    let ms = elapsed_ms(&start);
    let o = classify_verdict(ok);
    reg.record(name, o, ms);
    r
}

} // verus!
