//! What can go wrong at the boundary.

use vstd::prelude::*;

verus! {

/// Why an operation refused its input.
#[derive(Debug, Clone, Copy, PartialEq, Eq, Structural)]
pub enum BoundaryError {
    /// The input was absent, had no terminating NUL, or was not UTF-8.
    InvalidInput,
}

} // verus!
