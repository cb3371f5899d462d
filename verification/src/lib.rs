//! A toolchain for a minimalist tape-machine language.
//!
//! The instruction set has eight meaningful operations plus a catch-all
//! no-op.  Programs can be written in two textual notations:
//!
//! * *glyph notation*: one character per instruction (`> < + - . , [ ]`);
//!   every other character decodes to the no-op.
//! * *surface notation*: two whitespace-separated symbol names per
//!   instruction, drawn from a three-name alphabet.
//!
//! The crate translates text between the two notations and executes
//! programs against a 65536-cell wraparound byte tape, with all input and
//! output passed in and returned as plain byte vectors.

pub mod codec;
pub mod interpreter;
pub mod tokens;
pub mod transpiler;
