//! The closed set of instructions that a compiled program is made of.

use vstd::prelude::*;

verus! {

/// One instruction of a compiled program.
#[derive(Clone, Copy, PartialEq, Eq, Structural, Debug)]
pub enum Token {
    /// `+`: add one to the cell under the pointer.
    Increment,
    /// `-`: take one from the cell under the pointer.
    Decrement,
    /// `<`: move the pointer one cell to the left.
    ShiftLeft,
    /// `>`: move the pointer one cell to the right.
    ShiftRight,
    /// `^`: move the pointer to the index held in the cell under it.
    ShiftToValue,
    /// `_`: move the pointer back to cell 0.
    ResetPointer,
    /// `#`: push the cell under the pointer onto the stack.
    Push,
    /// `$`: pop the stack into the cell under the pointer.
    Pop,
    /// `?0`: ask the console for a number.
    InputNumeric,
    /// `?a`: ask the console for text.
    InputText,
    /// `&0`: print the cell under the pointer as a decimal number.
    OutputNumeric,
    /// `&a`: print the cell under the pointer as a character.
    OutputText,
    /// `{`: jump past the matching `}` when the cell under the pointer is 0.
    JumpIfZero,
    /// `}`: landing point of `{`.
    JumpIfZeroMarker,
    /// `:`: jump back to just after the matching `=`.
    JumpBack,
    /// `=`: landing point of `:`.
    JumpBackMarker,
    /// End of the program: execution halts here.
    EndOfProgram,
}

impl Token {
    /// Whether executing this token suspends the engine until the console
    /// entry is submitted.
    pub open spec fn requests_input(self) -> bool {
        self == Token::InputNumeric || self == Token::InputText
    }

    /// Whether executing this token suspends the engine until the console
    /// entry is submitted.
    #[verifier::when_used_as_spec(requests_input)]
    pub fn is_input_request(self) -> (b: bool)
        ensures
            b == self.requests_input(),
    {
        match self {
            Token::InputNumeric => true,
            Token::InputText => true,
            _ => false,
        }
    }
}

} // verus!
