use vstd::prelude::*;

verus! {

/// Errors raised while executing, undoing or reading instructions.
///
/// - `DivideByZero`: the right operand of a division is zero.
/// - `StackUnderflow`: the stack holds too few values for the instruction.
/// - `NoInstructions`: nothing is queued to execute, or nothing is recorded to undo.
/// - `ArithmeticOverflow`: the result of an arithmetic instruction does not fit in `i32`.
/// - `InvalidCommand`: instruction text that cannot be read.
#[derive(Clone, Copy, Debug, PartialEq, Eq, Structural)]
pub enum RuntimeError {
    DivideByZero,
    StackUnderflow,
    NoInstructions,
    ArithmeticOverflow,
    InvalidCommand,
}

} // verus!
