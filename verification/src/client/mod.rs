//! The chat client: what it sends, and what it makes of what comes back.

pub mod config;
pub mod errors;
pub mod images;
pub mod laws;
pub mod models;
pub mod partials;
pub mod passes;
pub mod reasoning;
pub mod reply_laws;
pub mod request;
pub mod sse;
pub mod stream;
pub mod stream_laws;
pub mod usage;
