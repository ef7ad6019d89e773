//! Clients of the providers' streaming endpoints.

pub mod anthropic;
pub mod chat_completions;
pub mod session;
