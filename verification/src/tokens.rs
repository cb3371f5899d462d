//! The instruction set and the alphabets of its two textual notations.

use vstd::prelude::*;

verus! {

/// A base symbol of the surface notation.  Every instruction is written as
/// an ordered pair of these three symbols, which covers all nine
/// instructions.
#[derive(Clone, Copy, Debug, PartialEq, Eq, Structural)]
pub enum Token {
    Meow,
    Mrrp,
    Mrowp,
}

/// One instruction of the tape machine.  `Other` is the catch-all no-op
/// that every unrecognized glyph decodes to.
#[derive(Clone, Copy, Debug, PartialEq, Eq, Structural)]
pub enum TranspileToken {
    Next,
    Previous,
    Increment,
    Decrement,
    Output,
    Input,
    LoopStart,
    LoopEnd,
    Other,
}

/// A failure while reading surface-notation text.
#[derive(Clone, Copy, Debug, PartialEq, Eq, Structural)]
pub enum TranscodeError {
    /// A whitespace-separated token was not one of the three symbol names.
    MalformedSurfaceToken,
    /// The text ended after the first symbol of a pair (odd token count).
    TruncatedSurfaceStream,
}

/// A failure while executing a program.
#[derive(Clone, Copy, Debug, PartialEq, Eq, Structural)]
pub enum RunError {
    /// An `Input` instruction ran with no byte left in the input source.
    InputExhausted,
    /// A `LoopEnd` instruction ran on a nonzero cell with no open loop.
    UnmatchedLoopEnd,
}

} // verus!
