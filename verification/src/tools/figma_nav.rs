//! Figma navigation tools: the schemas of `open_figma_node` and
//! `figma.selection` (which run through the MCP client) and the deeplink
//! formatter that `open_figma_node` answers with.

use vstd::prelude::*;
use crate::text::{chars_of, push_str, string_from_chars, to_owned};

verus! {

/// The JSON text of the `open_figma_node` tool schema.
pub const OPEN_FIGMA_NODE_SCHEMA: &'static str = r#"{
  "type": "function",
  "function": {
    "name": "open_figma_node",
    "description": "Emit a deeplink that opens the given node in the current Figma file. Use at the end of a report so the user can jump there in Desktop.",
    "parameters": {
      "type": "object",
      "required": ["fileKey", "nodeId"],
      "properties": {
        "fileKey": {"type": "string"},
        "nodeId":  {"type": "string", "description": "Figma node id (e.g. `1:234` or `I12:34`)"},
        "label":   {"type": "string", "description": "optional short label shown next to the link"}
      },
      "additionalProperties": false
    }
  }
}"#;

/// The JSON text of the read-only `figma.selection` tool schema.
pub const FIGMA_SELECTION_SCHEMA: &'static str = r#"{
  "type": "function",
  "function": {
    "name": "figma.selection",
    "description": "Read the user's current Figma selection. Returns an array of nodeIds. No write. Use to scope `refine` or `critique` to the selection.",
    "parameters": {
      "type": "object",
      "properties": {},
      "additionalProperties": false
    }
  }
}"#;

/// The `open_figma_node` tool schema, as JSON text.
pub fn open_figma_node_schema() -> (r: String)
    ensures
        r@ == OPEN_FIGMA_NODE_SCHEMA@,
{
    to_owned(OPEN_FIGMA_NODE_SCHEMA)
}

/// The `figma.selection` tool schema, as JSON text.
pub fn figma_selection_schema() -> (r: String)
    ensures
        r@ == FIGMA_SELECTION_SCHEMA@,
{
    to_owned(FIGMA_SELECTION_SCHEMA)
}

/// A node id as the URL writes it: each `:` becomes `-`.
pub open spec fn url_node_id(node_id: Seq<char>) -> Seq<char> {
    node_id.map_values(|c: char| if c == ':' { '-' } else { c })
}

/// The deeplink that opens a node of a Figma file.
pub open spec fn deeplink(file_key: Seq<char>, node_id: Seq<char>) -> Seq<char> {
    "https://www.figma.com/design/"@ + file_key + "/?node-id="@ + url_node_id(node_id)
}

/// Formats a Figma node deeplink:
/// `https://www.figma.com/design/<fileKey>/?node-id=<nodeId>` with the
/// node id's `:` written as `-` (`1:234` becomes `1-234`).
pub fn format_figma_deeplink(file_key: &str, node_id: &str) -> (r: String)
    ensures
        r@ == deeplink(file_key@, node_id@),
{
    let v = chars_of(node_id);
    let mut w: Vec<char> = Vec::new();
    let mut i: usize = 0;
    while i < v.len()
        invariant
            i <= v@.len(),
            v@ == node_id@,
            w@ == v@.subrange(0, i as int).map_values(|c: char| if c == ':' { '-' } else { c }),
        decreases v.len() - i,
    {
        let c = v[i];
        w.push(if c == ':' { '-' } else { c });
        assert(w@ =~= v@.subrange(0, i + 1).map_values(|c: char| if c == ':' { '-' } else { c }));
        i = i + 1;
    }
    assert(v@.subrange(0, v@.len() as int) =~= v@);
    let mut r = to_owned("https://www.figma.com/design/");
    push_str(&mut r, file_key);
    push_str(&mut r, "/?node-id=");
    let u = string_from_chars(&w);
    push_str(&mut r, u.as_str());
    r
}

} // verus!
