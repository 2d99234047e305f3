//! Bare `aster`: how a chat starts, runs and ends.

pub mod args;
pub mod goal;
pub mod history;
pub mod laws;
pub mod prompt;
pub mod prompt_laws;
pub mod run;
