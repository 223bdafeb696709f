//! The MCP client for Figma: the library's one write path into Figma.
//!
//! The backend is `figma-console-mcp`, spawned locally and spoken to over
//! stdio JSON-RPC. This module holds what the client decides — the
//! runtime shim and the bundle handed to `figma_execute`, the Figma token
//! rules, the request frames and how replies are read — while the process,
//! its pipes and the file system stay with the caller.

pub mod auth;
pub mod bundle;
pub mod client;
pub mod error;
pub mod transport;

pub use bundle::{bundle_plugin_js, CRATE_NAME, RUNTIME_SHIM_JS, TOOL_FIGMA_EXECUTE};
