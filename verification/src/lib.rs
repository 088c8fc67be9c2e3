//! Utility layer of a Model Context Protocol (MCP) client.
//!
//! The crate covers four concerns:
//! - building a sanitized process environment for a launched MCP server
//!   from a platform allowlist, caller-supplied extra names and overrides;
//! - assembling validated HTTP default headers from static configuration
//!   and environment-indirected secrets, dropping malformed entries without
//!   failing the whole assembly;
//! - bridging a tool-call result between two structurally compatible
//!   protocol schemas through a JSON-shaped intermediate tree, normalizing
//!   a missing or null content list to an empty list;
//! - settling a deadline-bounded invocation: mapping the outcome of racing
//!   an operation against a timer to a uniform labeled error.
//!
//! Ambient state (the real process environment, the async runtime, the
//! filesystem) is kept outside: every function here takes it as a plain
//! value, so each contract speaks about all possible readings of it.

pub mod bridge;
pub mod env_vars;
pub mod headers;
pub mod home;
pub mod invoke;
pub mod text;
