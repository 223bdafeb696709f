//! Errors of the Figma MCP client.

use vstd::prelude::*;

verus! {

/// Why an MCP operation failed.
#[derive(Debug)]
pub enum McpError {
    /// An I/O failure (its message).
    Io(String),
    /// A JSON encoding or decoding failure (its message).
    Json(String),
    /// The auth file could not be decoded (the decoder's message).
    TomlDe(String),
    /// The auth file could not be encoded (the encoder's message).
    TomlSer(String),
    /// The server answered with a JSON-RPC error object.
    Rpc { code: i64, message: String },
    /// A well-formed reply that is not shaped as expected.
    Protocol(String),
    /// The server process failed to start or went away.
    Subprocess(String),
    /// No usable Figma token.
    Auth(String),
    /// No reply within this many milliseconds.
    Timeout(u64),
    /// The server does not offer a tool the client needs.
    ToolUnavailable(String),
    /// A tool call ran and reported failure.
    ToolError(String),
}

} // verus!
