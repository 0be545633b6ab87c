//! The uniform cancellation outcome: the shutdown signal fired while an
//! operation was pending.
use vstd::prelude::*;

verus! {

/// The cancellation outcome: the shutdown signal won the race.
#[derive(Debug, Clone, Copy, PartialEq, Eq, Structural)]
pub struct ShutdownError;

impl ShutdownError {
    /// The cancellation outcome as the error of a result.
    pub fn new<T>() -> (r: Result<T, ShutdownError>)
        ensures
            r == Err::<T, ShutdownError>(ShutdownError),
    {
        Err(ShutdownError)
    }

    /// The diagnostic for the cancellation.
    pub fn message(&self) -> (r: &'static str)
        ensures
            r@ == "Interupted by a shutdown signal"@,
    {
        "Interupted by a shutdown signal"
    }
}

} // verus!
