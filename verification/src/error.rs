//! The ways a call can be refused.

use vstd::prelude::*;

verus! {

/// Why the engine refused a call. A refused call changes nothing.
#[derive(Clone, Copy, Debug, PartialEq, Eq, Structural)]
pub enum NetworkError {
    /// The shapes of the operands do not fit the operation.
    ShapeMismatch,
    /// The training set does not pair every input with a target.
    InvalidConfiguration,
    /// A backward pass was asked for without a forward pass before it.
    StaleState,
}

/// The call that returned `r` was refused, and `error` says why.
pub open spec fn refused<T>(r: Result<T, NetworkError>, error: NetworkError) -> bool {
    r == Err::<T, NetworkError>(error)
}

} // verus!
