//! The commands that show and change what a machine is set up with.

pub mod dotenv;
pub mod env;
pub mod key;
pub mod laws;
