//! The stdio JSON-RPC framing of MCP.
//!
//! Each message is one line of JSON on the server's stdin or stdout.
//! Requests carry an `id`; the reply with that `id` holds either a
//! `result` or an `error`. Lines without an `id` (notifications, banners)
//! are not replies. Running the process and matching replies to waiting
//! requests is the caller's part.

use vstd::prelude::*;
use crate::figma::error::McpError;
use crate::json::{get, i64_of, int_text, json_quoted, push_int, push_json_string, str_of, take_member, Json};
use crate::text::{push_str, to_owned};

verus! {

/// How long a request waits for its reply, in seconds.
pub const DEFAULT_TIMEOUT_SECS: u64 = 120;

/// What a reply line settles for its request.
#[derive(Debug)]
pub enum RpcOutcome {
    /// The request's result.
    Reply(Json),
    /// The request failed.
    Failed(McpError),
}

/// A request line: `{"id":…,"jsonrpc":"2.0","method":…,"params":…}` and
/// a newline, with the parameters given as JSON text.
pub open spec fn request_text(id: i64, method: Seq<char>, params: Seq<char>) -> Seq<char> {
    "{\"id\":"@ + int_text(id as int) + ",\"jsonrpc\":\"2.0\",\"method\":"@ + json_quoted(method)
        + ",\"params\":"@ + params + "}\n"@
}

/// A notification line: no `id`, no reply expected.
pub open spec fn notification_text(method: Seq<char>, params: Seq<char>) -> Seq<char> {
    "{\"jsonrpc\":\"2.0\",\"method\":"@ + json_quoted(method) + ",\"params\":"@ + params + "}\n"@
}

/// The line that sends a request.
pub fn request_line(id: i64, method: &str, params: &str) -> (r: String)
    ensures
        r@ == request_text(id, method@, params@),
{
    let mut s = to_owned("{\"id\":");
    push_int(&mut s, id);
    push_str(&mut s, ",\"jsonrpc\":\"2.0\",\"method\":");
    push_json_string(&mut s, method);
    push_str(&mut s, ",\"params\":");
    push_str(&mut s, params);
    push_str(&mut s, "}\n");
    s
}

/// The line that sends a notification.
pub fn notification_line(method: &str, params: &str) -> (r: String)
    ensures
        r@ == notification_text(method@, params@),
{
    let mut s = to_owned("{\"jsonrpc\":\"2.0\",\"method\":");
    push_json_string(&mut s, method);
    push_str(&mut s, ",\"params\":");
    push_str(&mut s, params);
    push_str(&mut s, "}\n");
    s
}

/// What an error object's members say: its code (-32000 when there is no
/// integer code) and its message (`(no message)` when there is none).
pub open spec fn rpc_error_of(err: Json) -> (int, Seq<char>) {
    (
        match i64_of(get(err, "code"@)) {
            Some(c) => c,
            None => -32000,
        },
        match str_of(get(err, "message"@)) {
            Some(m) => m,
            None => "(no message)"@,
        },
    )
}

/// Reads one decoded line from the server. Lines without an integer `id`
/// are not replies (`None`). A reply is the request's error when it has an
/// `error` member, else its result, else a protocol error quoting the
/// line (`line_text` is the line's JSON text).
pub fn classify_reply(v: Json, line_text: &str) -> (r: Option<(i64, RpcOutcome)>)
    ensures
        match i64_of(get(v, "id"@)) {
            None => r is None,
            Some(id) => r matches Some((n, o)) && n == id && match get(v, "error"@) {
                Some(err) => o matches RpcOutcome::Failed(McpError::Rpc { code, message }) && code
                    == rpc_error_of(err).0 && message@ == rpc_error_of(err).1,
                None => match get(v, "result"@) {
                    Some(res) => o == RpcOutcome::Reply(res),
                    None => o matches RpcOutcome::Failed(McpError::Protocol(m)) && m@
                        == "response missing both result and error: "@ + line_text@,
                },
            },
        },
{
    let id = match v.get("id") {
        Some(i) => match i.as_i64() {
            Some(n) => n,
            None => {
                return None;
            },
        },
        None => {
            return None;
        },
    };
    if let Some(err) = v.get("error") {
        let code = match err.get("code") {
            Some(c) => match c.as_i64() {
                Some(n) => n,
                None => -32000,
            },
            None => -32000,
        };
        let message = match err.get_str("message") {
            Some(m) => to_owned(m.as_str()),
            None => to_owned("(no message)"),
        };
        return Some((id, RpcOutcome::Failed(McpError::Rpc { code, message })));
    }
    let ghost v0 = v;
    match v {
        Json::Object(entries) => match take_member(entries, "result") {
            Some(res) => Some((id, RpcOutcome::Reply(res))),
            None => {
                let mut m = to_owned("response missing both result and error: ");
                push_str(&mut m, line_text);
                Some((id, RpcOutcome::Failed(McpError::Protocol(m))))
            },
        },
        _ => {
            proof {
                assert(get(v0, "id"@) is None);
            }
            None
        },
    }
}

} // verus!
