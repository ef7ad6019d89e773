//! Provider streaming and plugin-script lifecycle logic.

pub mod anthropic_auth;
pub mod anthropic_types;
pub mod common;
pub mod endpoint;
pub mod error;
pub mod headers;
pub mod json;
pub mod plugin_script;
pub mod sse;
pub mod text;
pub mod view_laws;
