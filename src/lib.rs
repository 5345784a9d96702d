//! A scripting language for visual novels: a line parser that turns script text into
//! commands, a parser for the inline markup of dialogue text, and an engine that steps
//! through a command sequence with a cursor and jumps to labels.
use vstd::prelude::*;

pub mod chars;
pub mod command;
pub mod error;
pub mod novel;
pub mod parser;
pub mod script;
pub mod text;

verus! {

} // verus!
