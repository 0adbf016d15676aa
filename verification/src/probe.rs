//! The capability probe: interpreting the outcome of the external
//! keyboard-state helper.

use vstd::prelude::*;

verus! {

/// Interprets the helper's outcome, given as its exit code, or nothing
/// where the helper could not be launched or was killed before it
/// exited.  The caps-lock indicator counts as lit exactly when the
/// helper exited with status `0`; every failure yields `false`.
pub fn capslock_status(exit_code: Option<i32>) -> (r: bool)
    ensures
        r == (exit_code == Some(0i32)),
{
    match exit_code {
        Some(c) => c == 0,
        None => false,
    }
}

} // verus!
