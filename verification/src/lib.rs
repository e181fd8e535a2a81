//! A verified core for an interactive shell prompt: parsing an input line
//! into a pipeline of stages, recognising the built-in directives, and the
//! step-by-step decisions that drive pipeline execution.

pub mod cwd;
pub mod parse;
pub mod pipeline;
pub mod prompt;
