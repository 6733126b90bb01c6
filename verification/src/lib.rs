//! The compiler and the execution engine of a small language of sixteen
//! tokens, which works on a tape of 512 cells and a stack.
//!
//! - `token`: the tokens.
//! - `text`: characters, decimal numbers and lines.
//! - `lexer`: from source text to a program.
//! - `machine`: the engine as a mathematical state machine, and what holds
//!   of it.
//! - `keys`: from key codes to characters.
//! - `lang`: the engine itself, specified against `machine`.

pub mod keys;
pub mod lang;
pub mod lexer;
pub mod machine;
pub mod text;
pub mod token;
