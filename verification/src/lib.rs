//! A verified core for a line-oriented command interpreter.
//!
//! A line of text is split into a pipeline of commands at the pipe character,
//! and an executor decides, one action at a time, what the interpreter has to
//! do with it: which programs to spawn and how their standard streams are
//! wired, which built-in commands to perform, when to wait, and what to
//! report. The decisions are proved against a mathematical model; performing
//! the actions is left to the caller.
//!
//! - [`parser`] cuts a line into segments and tokens.
//! - [`builtin`] tells the built-in commands from the programs to spawn.
//! - [`executor`] is the state machine that hands out the actions.
//! - [`status`] words the report on the last process of a pipeline.
//! - [`run`] states what holds of every run that a line can have.
//! - [`config`] holds the prompt and the version.

pub mod builtin;
pub mod config;
pub mod executor;
pub mod parser;
pub mod run;
pub mod status;
