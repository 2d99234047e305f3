//! The tools of the agent: their definitions and their dispatch.

pub mod approval;
pub mod command;
pub mod command_laws;
pub mod defs;
pub mod files;
pub mod flow;
pub mod laws;
pub mod lookup;
pub mod memory;
pub mod offer;
pub mod offer_laws;
pub mod plan;
pub mod plan_laws;
pub mod schema;
