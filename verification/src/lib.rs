//! A verified core for the Aster agent harness.

pub mod catalog;
pub mod chat;
pub mod cli;
pub mod client;
pub mod config;
pub mod jev;
pub mod json;
pub mod json_text;
pub mod login;
pub mod message;
pub mod plan;
pub mod plan_laws;
pub mod provider;
pub mod provider_laws;
pub mod rounds;
pub mod settings;
pub mod setup;
pub mod steering;
pub mod swarm;
pub mod text;
pub mod tools;
pub mod turn;
