//! The demo route handlers' decision logic.
//!
//! Random draws come from the rand crate behind trusted wrappers; everything
//! decided from a draw is verified for every value the draw could take.
//! Sleeping and serving stay outside the library.

use vstd::prelude::*;

use crate::registry::Registry;
use crate::render::render_spec;

verus! {

#[verifier::external_type_specification]
#[verifier::external_body]
pub struct ExThreadRng(rand::rngs::ThreadRng);

/// Relies on rand::thread_rng: a handle to the thread-local generator.
/// Nothing is assumed about the values it will produce.
#[verifier::external_body]
fn fresh_rng() -> rand::rngs::ThreadRng {
    rand::thread_rng()
}

/// Relies on rand::Rng::gen_range: a sample within the given range, which
/// must be nonempty lest the call panic. Nothing else is assumed of the value.
#[verifier::external_body]
fn sample_range_u8(rng: &mut rand::rngs::ThreadRng, lo: u8, hi: u8) -> (r: u8)
    requires
        lo < hi,
    ensures
        lo <= r < hi,
{
    rand::Rng::gen_range(rng, lo..hi)
}

/// Relies on rand::random: one random byte; any value may come back.
#[verifier::external_body]
fn random_byte() -> u8 {
    rand::random::<u8>()
}

/// The greeting the index route returns. This route never errors.
pub fn get_index() -> (r: &'static str)
    ensures
        r@ == "Hello, World!"@,
{
    "Hello, World!"
}

/// How long the slow route delays, in seconds: drawn from the range 3..10.
pub fn post_slow_seconds() -> (s: u8)
    ensures
        3 <= s < 10,
{
    let mut rng = fresh_rng();
    sample_range_u8(&mut rng, 3, 10)
}

/// The slow route's return value once its delay has passed: it always
/// succeeds.
pub fn post_slow_result() -> (r: Result<(), ()>)
    ensures
        r is Ok,
{
    Ok(())
}

/// Whether a drawn byte makes the random-error route fail: bytes above 172
/// do, all others succeed.
pub open spec fn random_error_decision(b: u8) -> Result<(), ()> {
    if b > 172 {
        Err(())
    } else {
        Ok(())
    }
}

/// The random-error route's verdict for the drawn byte `b`.
pub fn random_error_result(b: u8) -> (r: Result<(), ()>)
    ensures
        r == random_error_decision(b),
{
    if b > 172 {
        Err(())
    } else {
        Ok(())
    }
}

/// The random-error route: draws one byte and fails exactly when the byte is
/// above 172. Which byte comes back is up to the generator.
pub fn post_random_error() -> (r: Result<(), ()>)
    ensures
        exists|b: u8| r == #[trigger] random_error_decision(b),
{
    let b = random_byte();
    let r = random_error_result(b);
    proof {
        assert(r == random_error_decision(b));
    }
    r
}

/// A response modelled as its status code and body text.
pub struct Reply {
    pub status: u16,
    pub body: &'static str,
}

/// Is a status code in the success range?
pub open spec fn status_in_success_range(status: u16) -> bool {
    200 <= status < 300
}

/// The route that returns a status-bearing value rather than a result; its
/// outcome is classified by the `is_success` predicate.
pub fn route_that_returns_into_response() -> (r: Reply)
    ensures
        r.status == 200,
        r.body@ == "Hello, World!"@,
{
    Reply { status: 200, body: "Hello, World!" }
}

/// Determine whether the response was a success or not.
pub fn is_success(response: &Reply) -> (ok: bool)
    ensures
        ok == status_in_success_range(response.status),
{
    response.status >= 200 && response.status < 300
}

/// Serialize the metrics into text for a scraper, with a status code.
/// Rendering the registry cannot fail, so the status is always 200.
pub fn get_metrics(reg: &Registry) -> (r: (u16, String))
    requires
        reg.inv(),
    ensures
        r.0 == 200,
        r.1@ == render_spec(reg@),
{
    (200, reg.render())
}

} // verus!
