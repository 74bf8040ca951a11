//! Classification of one call's return value as a success or an error.

use vstd::prelude::*;

verus! {

/// The label attached to one instrumented call: did the call succeed?
#[derive(Clone, Copy, PartialEq, Eq, Structural, Debug)]
pub enum Outcome {
    Success,
    Error,
}

/// Default policy: a result-like value counts as a success exactly when it
/// carries the success variant.
pub open spec fn outcome_of_result<T, E>(r: Result<T, E>) -> Outcome {
    if r is Ok {
        Outcome::Success
    } else {
        Outcome::Error
    }
}

/// Override policy: a predicate verdict of `true` counts as a success.
pub open spec fn outcome_of_verdict(ok: bool) -> Outcome {
    if ok {
        Outcome::Success
    } else {
        Outcome::Error
    }
}

/// Classify a result-like return value without consuming it.
pub fn classify_result<T, E>(r: &Result<T, E>) -> (o: Outcome)
    ensures
        o == outcome_of_result::<T, E>(*r),
{
    match r {
        Ok(_) => Outcome::Success,
        Err(_) => Outcome::Error,
    }
}

/// Classify from the verdict a user-supplied predicate returned.
pub fn classify_verdict(ok: bool) -> (o: Outcome)
    ensures
        o == outcome_of_verdict(ok),
{
    if ok {
        Outcome::Success
    } else {
        Outcome::Error
    }
}

} // verus!
