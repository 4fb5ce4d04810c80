use vstd::prelude::*;

verus! {

/// The ways in which an operation on the intermediate representation fails.
#[derive(Debug, Clone, Copy, PartialEq, Eq, Structural)]
pub enum IrError {
    /// Operands or branches have incompatible bit widths.
    WidthMismatch,
    /// A division or remainder by a zero-valued operand.
    DivisionByZero,
    /// A value that cannot be constructed: an invalid width, an invalid
    /// sub-register, a duplicate `Tid`.
    ConstructionError,
    /// A `Tid` that is absent from the scope where it was looked up.
    LookupError,
}

} // verus!
