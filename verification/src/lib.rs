//! The core of a small breakpoint debugger, written without I/O, with a few
//! verified exercises beside it.
//!
//! The debugger controls a traced process through an interface that moves
//! whole machine words and whole register sets. Nothing here touches a
//! process: each operation is a state machine that hands out one request at
//! a time and is told what came of it, so that every decision of the
//! protocol is made, and proved, in this library.
//!
//! - `word`: the arithmetic of patching one byte inside a machine word.
//! - `breakpoints`: the table of original instruction bytes.
//! - `status`, `protocol`: what the engine and the tracing layer tell each
//!   other.
//! - `inferior`: launch, breakpoint installation, resume with step-over,
//!   wait and kill.
//! - `backtrace`: the walk along the saved frame pointers.
//! - `debugger`: the commands of the user and what follows from each.
//! - `model`: a model of the traced process, and the laws that hold of the
//!   engine when it is served by it.
//! - `warmup`, `hangman`: exercises on vectors and the rules of a word game.

pub mod backtrace;
pub mod breakpoints;
pub mod debugger;
pub mod hangman;
pub mod inferior;
pub mod model;
pub mod protocol;
pub mod status;
pub mod warmup;
pub mod word;
