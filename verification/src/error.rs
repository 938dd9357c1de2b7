//! Structural violations in a rulebook draft or in an answer set.

use vstd::prelude::*;

verus! {

/// What can be wrong with the structure of a rulebook draft, or with an
/// answer that refers to a rulebook.
#[derive(Clone, Copy, Debug, PartialEq, Eq, Structural)]
pub enum ValidationError {
    /// A class name, a subclass code or a question id occurs twice within
    /// its scope.
    DuplicateName,
    /// A class declares no subclass.
    EmptyClass,
    /// An answer names a class that the rulebook does not have.
    UnknownClass,
    /// An answer names a question that its class does not have.
    UnknownQuestion,
}

} // verus!
