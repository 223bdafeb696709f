//! The MCP operations the library needs: `initialize`, `tools/list` and
//! `tools/call`, and how their results are read.

use vstd::prelude::*;
use crate::figma::error::McpError;
use crate::json::{get, json_quoted, push_json_string, Json};
use crate::text::{push_str, str_eq, to_owned};

verus! {

/// The MCP protocol revision declared on `initialize`.
pub const MCP_PROTOCOL_VERSION: &'static str = "2025-03-26";

/// The client name declared on `initialize`.
pub const CLIENT_NAME: &'static str = "codedesign";

/// What `tools/list` says of one tool.
#[derive(Debug)]
pub struct ToolInfo {
    pub name: String,
    pub description: Option<String>,
    /// The tool's input schema, kept as given.
    pub input_schema: Option<Json>,
}

/// How the figma-console-mcp server is started.
#[derive(Debug)]
pub struct ConsoleBridgeConfig {
    /// The program that runs the server.
    pub program: String,
    /// Its arguments.
    pub args: Vec<String>,
    /// The Figma token to hand the server; when none, the usual
    /// resolution applies.
    pub figma_token: Option<String>,
}

impl Default for ConsoleBridgeConfig {
    /// `npx --yes figma-console-mcp@latest`, with the token resolved as
    /// usual.
    fn default() -> (c: ConsoleBridgeConfig)
        ensures
            c.program@ == "npx"@,
            c.args@.len() == 2,
            c.args@[0]@ == "--yes"@,
            c.args@[1]@ == "figma-console-mcp@latest"@,
            c.figma_token is None,
    {
        ConsoleBridgeConfig {
            program: to_owned("npx"),
            args: vec![to_owned("--yes"), to_owned("figma-console-mcp@latest")],
            figma_token: None,
        }
    }
}

// ── specification ──────────────────────────────────────────────────────────

/// The `initialize` parameters, as JSON text.
pub open spec fn initialize_params_text(client_version: Seq<char>) -> Seq<char> {
    "{\"protocolVersion\": "@ + json_quoted(MCP_PROTOCOL_VERSION@)
        + ", \"capabilities\": {\"tools\": {}}, \"clientInfo\": {\"name\": "@ + json_quoted(
        CLIENT_NAME@,
    ) + ", \"version\": "@ + json_quoted(client_version) + "}}"@
}

/// The text of a content block that is a text block.
pub open spec fn block_text(c: Json) -> Option<Seq<char>> {
    match get(c, "type"@) {
        Some(Json::Str(t)) if t@ == "text"@ => match get(c, "text"@) {
            Some(Json::Str(s)) => Some(s@),
            _ => None,
        },
        _ => None,
    }
}

/// The text blocks of a content list joined with newlines (a block added
/// to an empty text starts it without a newline).
pub open spec fn joined_text(blocks: Seq<Json>) -> Seq<char>
    decreases blocks.len(),
{
    if blocks.len() == 0 {
        seq![]
    } else {
        let prev = joined_text(blocks.drop_last());
        match block_text(blocks.last()) {
            Some(t) => if prev.len() == 0 {
                t
            } else {
                prev + "\n"@ + t
            },
            None => prev,
        }
    }
}

/// The concatenated text of a tool result's `content` list; none when
/// there is no such list or its text is empty.
pub open spec fn text_content(result: Json) -> Option<Seq<char>> {
    match get(result, "content"@) {
        Some(Json::Array(cs)) => if joined_text(cs@).len() == 0 {
            None
        } else {
            Some(joined_text(cs@))
        },
        _ => None,
    }
}

/// A tool result flags the tool's own failure.
pub open spec fn flags_error(result: Json) -> bool {
    get(result, "isError"@) == Some(Json::Bool(true))
}

/// The position of the first tool with this name.
pub open spec fn tool_named(tools: Seq<ToolInfo>, name: Seq<char>, k: int) -> bool {
    &&& 0 <= k < tools.len()
    &&& tools[k].name@ == name
    &&& forall|j: int| 0 <= j < k ==> tools[j].name@ != name
}

// ── implementation ─────────────────────────────────────────────────────────

/// The `initialize` parameters, as JSON text.
pub fn initialize_params(client_version: &str) -> (r: String)
    ensures
        r@ == initialize_params_text(client_version@),
{
    let mut s = to_owned("{\"protocolVersion\": ");
    push_json_string(&mut s, MCP_PROTOCOL_VERSION);
    push_str(&mut s, ", \"capabilities\": {\"tools\": {}}, \"clientInfo\": {\"name\": ");
    push_json_string(&mut s, CLIENT_NAME);
    push_str(&mut s, ", \"version\": ");
    push_json_string(&mut s, client_version);
    push_str(&mut s, "}}");
    s
}

fn text_of_block(c: &Json) -> (r: Option<&String>)
    ensures
        match block_text(*c) {
            Some(t) => r matches Some(s) && s@ == t,
            None => r is None,
        },
{
    match c.get_str("type") {
        Some(t) => {
            if str_eq(t.as_str(), "text") {
                c.get_str("text")
            } else {
                None
            }
        },
        None => None,
    }
}

/// The concatenated text of a tool result's `content` list: its text
/// blocks joined with newlines, other blocks ignored; none when there is
/// no such list or no text in it.
pub fn extract_text_content(tool_result: &Json) -> (r: Option<String>)
    ensures
        match text_content(*tool_result) {
            Some(t) => r matches Some(s) && s@ == t,
            None => r is None,
        },
{
    let content = match tool_result.get("content") {
        Some(Json::Array(cs)) => cs,
        _ => {
            return None;
        },
    };
    let mut buf = String::new();
    let mut i: usize = 0;
    while i < content.len()
        invariant
            i <= content@.len(),
            buf@ == joined_text(content@.subrange(0, i as int)),
        decreases content.len() - i,
    {
        let ghost pre = content@.subrange(0, i + 1);
        assert(pre.drop_last() =~= content@.subrange(0, i as int));
        assert(pre.last() == content@[i as int]);
        if let Some(t) = text_of_block(&content[i]) {
            if !buf.as_str().is_empty() {
                push_str(&mut buf, "\n");
            }
            push_str(&mut buf, t.as_str());
        }
        i = i + 1;
    }
    assert(content@.subrange(0, content@.len() as int) =~= content@);
    if buf.as_str().is_empty() {
        None
    } else {
        Some(buf)
    }
}

/// Whether a tool result says that the tool itself failed
/// (`isError: true`).
pub fn tool_failed(result: &Json) -> (b: bool)
    ensures
        b == flags_error(*result),
{
    match result.get("isError") {
        Some(v) => match v.as_bool() {
            Some(b) => b,
            None => false,
        },
        None => false,
    }
}

/// What a `tools/call` answers: when the result flags the tool's failure,
/// a tool error carrying its text (or, without text, the result's JSON
/// text `result_text`); otherwise the flattened text of its `content`
/// array as a JSON string, or the result itself when it holds no text
/// (structured output).
pub fn call_outcome(result: Json, result_text: &str) -> (r: Result<Json, McpError>)
    ensures
        !flags_error(result) ==> match text_content(result) {
            Some(t) => r matches Ok(Json::Str(s)) && s@ == t,
            None => r == Ok::<Json, McpError>(result),
        },
        flags_error(result) ==> (r matches Err(McpError::ToolError(m)) && m@ == match text_content(result) {
            Some(t) => t,
            None => result_text@,
        }),
{
    let text = extract_text_content(&result);
    if tool_failed(&result) {
        let msg = match text {
            Some(t) => t,
            None => to_owned(result_text),
        };
        return Err(McpError::ToolError(msg));
    }
    match text {
        Some(t) => Ok(Json::Str(t)),
        None => Ok(result),
    }
}

/// The `tools` list of a `tools/list` result.
pub fn listed_tools(result: &Json) -> (r: Result<&Vec<Json>, McpError>)
    ensures
        match get(*result, "tools"@) {
            Some(Json::Array(ts)) => r matches Ok(v) && *v == ts,
            _ => r matches Err(McpError::Protocol(m)) && m@ == "tools/list missing `tools` array"@,
        },
{
    match result.get("tools") {
        Some(Json::Array(ts)) => Ok(ts),
        _ => Err(McpError::Protocol(to_owned("tools/list missing `tools` array"))),
    }
}

/// The first tool with this name, or `ToolUnavailable`.
#[verifier::loop_isolation(false)]
pub fn require_tool(tools: Vec<ToolInfo>, name: &str) -> (r: Result<ToolInfo, McpError>)
    ensures
        match r {
            Ok(t) => exists|k: int| #[trigger] tool_named(tools@, name@, k) && t == tools@[k],
            Err(e) => (forall|k: int| 0 <= k < tools@.len() ==> tools@[k].name@ != name@) && (e matches McpError::ToolUnavailable(n) && n@ == name@),
        },
{
    let mut tools = tools;
    let ghost all = tools@;
    let mut i: usize = 0;
    while i < tools.len()
        invariant
            i <= tools@.len(),
            tools@ == all,
            forall|j: int| 0 <= j < i ==> all[j].name@ != name@,
        decreases tools.len() - i,
    {
        if str_eq(tools[i].name.as_str(), name) {
            let t = tools.remove(i);
            assert(tool_named(all, name@, i as int) && t == all[i as int]);
            return Ok(t);
        }
        i = i + 1;
    }
    Err(McpError::ToolUnavailable(to_owned(name)))
}

} // verus!
