//! Small argument-selection helpers.

use vstd::prelude::*;

verus! {

/// Picks the value present among two mutually exclusive alternatives:
/// nothing when both are absent, the present one when exactly one is, and
/// `err` when both are given.
pub fn choice_1_or_err<T, E>(first: Option<T>, second: Option<T>, err: E) -> (r: Result<
    Option<T>,
    E,
>)
    ensures
        first is None && second is None ==> r == Ok::<Option<T>, E>(None),
        first is Some && second is None ==> r == Ok::<Option<T>, E>(first),
        first is None && second is Some ==> r == Ok::<Option<T>, E>(second),
        first is Some && second is Some ==> r == Err::<Option<T>, E>(err),
{
    match (first, second) {
        (None, None) => Ok(None),
        (None, Some(e)) => Ok(Some(e)),
        (Some(e), None) => Ok(Some(e)),
        (Some(_), Some(_)) => Err(err),
    }
}

} // verus!
