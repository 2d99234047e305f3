//! Sign-ins with a ChatGPT subscription.

pub mod codex;
pub mod laws;
pub mod logins;
