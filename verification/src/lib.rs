//! Keeps YAML spec files and the code they describe in step.
//!
//! A spec declares, by glob patterns, which files it governs. The library
//! tells which of those files changed since they were last reconciled, asks
//! for a diff limited to them, and folds in the specs that the spec itself
//! governs and the system spec above it.
//!
//! The library does no I/O. Its operations (the tools in `mcp_tools`, and
//! the commands of the command line in `cache_cli`, `hook_validate`, `init`,
//! `schema_bump` and `validate_cmd`) are functions of their arguments and of
//! what their caller observed of the outside world (`env`); the hash store
//! (`cache`) is held as the table it stands for.

pub mod cache;
pub mod cache_cli;
pub mod cli;
pub mod env;
pub mod guarantees;
pub mod hashing;
pub mod hook_validate;
pub mod init;
pub mod json;
pub mod mcp;
pub mod mcp_tools;
pub mod paths;
pub mod resolver;
pub mod schema;
pub mod schema_bump;
pub mod text;
pub mod validate_cmd;
pub mod validator;
pub mod yaml;
