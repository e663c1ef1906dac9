use vstd::prelude::*;

verus! {

/// A fault raised by the machine while executing one instruction.
///
/// A fault is terminal and diagnosable: the machine records the reason and
/// stops, leaving the program counter and the registers exactly as they were
/// before the failing instruction.
#[derive(Debug, Clone, Copy, PartialEq, Eq, Structural)]
pub enum InterpretError {
    /// The program counter points past the last instruction.
    OutOfBounds,
    /// A jump names a label that no instruction in the program defines.
    UndefinedLabel,
    /// A division instruction met a zero divisor.
    DivisionByZero,
    /// An operand resolved to a register index that is negative or not
    /// representable as an index.
    InvalidRegisterIndex,
    /// An arithmetic result does not fit in a register.
    Overflow,
}

} // verus!
