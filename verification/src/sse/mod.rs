//! Server-sent events of the providers, mapped into response events.

pub mod anthropic;
pub mod anthropic_events;
pub mod anthropic_laws;
pub mod chat_completions;
pub mod chat_completions_events;
pub mod chat_completions_laws;
