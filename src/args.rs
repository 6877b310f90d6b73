//! Validation of numeric arguments crossing from scripts into native code.
//! A bad argument fails only the call that received it.

use vstd::prelude::*;
use crate::runtime::RuntimeError;

verus! {

/// Checks that integer argument `n` lies within `min..=max`.
pub fn checkinteger_range(n: i64, min: i64, max: i64) -> (r: Result<i64, RuntimeError>)
    ensures
        min <= n <= max ==> r == Ok::<i64, RuntimeError>(n),
        !(min <= n <= max) ==> r == Err::<i64, RuntimeError>(RuntimeError::OutOfRange),
{
    if n < min || n > max {
        Err(RuntimeError::OutOfRange)
    } else {
        Ok(n)
    }
}

/// An optional integer argument: `def` when it is absent, else the
/// argument, which must lie within `min..=max`.
pub fn optinteger_range(v: Option<i64>, def: i64, min: i64, max: i64) -> (r: Result<
    i64,
    RuntimeError,
>)
    ensures
        v is None ==> r == Ok::<i64, RuntimeError>(def),
        v matches Some(n) ==> (min <= n <= max ==> r == Ok::<i64, RuntimeError>(n)) && (!(min
            <= n <= max) ==> r == Err::<i64, RuntimeError>(RuntimeError::OutOfRange)),
{
    match v {
        None => Ok(def),
        Some(n) => checkinteger_range(n, min, max),
    }
}

} // verus!
