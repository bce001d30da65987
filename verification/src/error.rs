//! What can go wrong when a constraint system is read or closed.

use vstd::prelude::*;

verus! {

/// The failures of indexed access and of finalization. Building a system and
/// appending to it never fail.
#[derive(Clone, Copy, Debug, PartialEq, Eq, Structural)]
pub enum ArithmetizationError {
    /// The requested constraint or gate index is not below the number of
    /// constraints.
    IndexOutOfRange,
    /// The field has no evaluation domain large enough for the constraints.
    DomainConstructionError,
    /// Finalization was attempted on a system without constraints.
    EmptySystemError,
}

} // verus!
