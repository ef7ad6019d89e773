//! Attribution of shell commands to the scripts of first-party plugins, and
//! the lifecycle events of their executions.

pub mod execution;
pub mod execution_laws;
pub mod file_name;
pub mod path;
pub mod path_laws;
pub mod resolve;
pub mod resolve_laws;
pub mod script_token;
pub mod script_token_laws;
pub mod windows_command;
pub mod windows_command_laws;
