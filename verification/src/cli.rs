//! What the command-line front end decides: argument parsing for each
//! command, provider resolution from the environment, the Plan and Critic
//! requests and how their replies are read, the `plan_emit` tool schema,
//! and the small text helpers of the front end. Running commands, reading
//! files and talking to the network are the caller's part.

use vstd::prelude::*;
use vstd::string::StringSliceAdditionalSpecFns;
use vstd::utf8::{decode_utf8, encode_utf8, is_char_boundary};
use crate::ds::design_system::{join_path, path_join, CaseEntry, DesignSystem};
use crate::json::{get, json_quoted, push_json_string, Json};
use crate::text::{
    chars_of, dec, keyed, lower, push_dec, push_str, str_eq, str_starts_with, starts_with,
    string_from_range, to_ascii_lowercase, to_owned, trim, trim_start_char, trim_start_char_at,
    trim_string, views,
};

verus! {

pub const DEFAULT_BASE: &'static str = "https://api.deepseek.com";

pub const DEFAULT_MODEL: &'static str = "deepseek-chat";

// ── text helpers ───────────────────────────────────────────────────────────

/// `s` cut to its first `max` bytes with a note of its full length, when
/// it is longer than that.
pub open spec fn truncated(s: Seq<char>, max: nat) -> Seq<char> {
    let b = encode_utf8(s);
    if b.len() <= max {
        s
    } else {
        decode_utf8(b.subrange(0, max as int)) + "\n... [truncated, "@ + dec(b.len()) + " bytes total]"@
    }
}

/// Cuts `s` to its first `max` bytes, with a note of its full length;
/// shorter texts come back unchanged. A cut must fall on a character
/// boundary.
pub fn truncate(s: &str, max: usize) -> (r: String)
    requires
        s.spec_bytes().len() <= max || is_char_boundary(s.spec_bytes(), max as int),
    ensures
        r@ == truncated(s@, max as nat),
{
    let n = s.as_bytes().len();
    if n <= max {
        return to_owned(s);
    }
    let (head, _) = s.split_at(max);
    proof {
        vstd::utf8::encode_utf8_decode_utf8(head@);
    }
    let mut r = to_owned(head);
    push_str(&mut r, "\n... [truncated, ");
    push_dec(&mut r, n as u64);
    push_str(&mut r, " bytes total]");
    r
}

/// The value of the decimal digits `d`.
pub open spec fn digits_value(d: Seq<char>) -> nat
    decreases d.len(),
{
    if d.len() == 0 {
        0
    } else {
        digits_value(d.drop_last()) * 10 + ((d.last() as nat) - ('0' as nat)) as nat
    }
}

pub open spec fn all_digits(d: Seq<char>) -> bool {
    forall|i: int| 0 <= i < d.len() ==> '0' <= #[trigger] d[i] && d[i] <= '9'
}

/// An unsigned integer as `str::parse` reads it: an optional `+`, then
/// one or more decimal digits, at most `max`.
pub open spec fn parsed_unsigned(s: Seq<char>, max: nat) -> Option<nat> {
    let d = if s.len() > 0 && s[0] == '+' {
        s.drop_first()
    } else {
        s
    };
    if d.len() == 0 || !all_digits(d) || digits_value(d) > max {
        None
    } else {
        Some(digits_value(d))
    }
}

/// Reads an unsigned integer no larger than `max` the way `str::parse`
/// does for an unsigned type.
#[verifier::loop_isolation(false)]
pub fn parse_unsigned(s: &str, max: u64) -> (r: Option<u64>)
    ensures
        match parsed_unsigned(s@, max as nat) {
            Some(n) => r == Some(n as u64),
            None => r is None,
        },
{
    let v = chars_of(s);
    let start: usize = if v.len() > 0 && v[0] == '+' {
        1
    } else {
        0
    };
    let ghost d = if s@.len() > 0 && s@[0] == '+' {
        s@.drop_first()
    } else {
        s@
    };
    assert(d =~= v@.subrange(start as int, v@.len() as int));
    if start == v.len() {
        return None;
    }
    let mut value: u64 = 0;
    let mut i: usize = start;
    while i < v.len()
        invariant
            start <= i <= v@.len(),
            d == v@.subrange(start as int, v@.len() as int),
            all_digits(v@.subrange(start as int, i as int)),
            value == digits_value(v@.subrange(start as int, i as int)),
            value <= max,
        decreases v.len() - i,
    {
        let c = v[i];
        let ghost pre = v@.subrange(start as int, i + 1);
        assert(pre.drop_last() =~= v@.subrange(start as int, i as int));
        if !('0' <= c && c <= '9') {
            assert(!all_digits(d)) by {
                assert(d[i - start] == c);
            }
            return None;
        }
        let digit = (c as u32 - '0' as u32) as u64;
        let next: u128 = value as u128 * 10 + digit as u128;
        if next > max as u128 {
            proof {
                assert(digits_value(pre) == value * 10 + digit);
                assert(d.subrange(0, (i + 1 - start) as int) =~= pre);
                lemma_digits_prefix_grows(d, (i + 1 - start) as nat);
            }
            return None;
        }
        value = next as u64;
        assert(all_digits(pre));
        i = i + 1;
    }
    assert(v@.subrange(start as int, v@.len() as int) =~= d);
    Some(value)
}

proof fn lemma_digits_prefix_grows(d: Seq<char>, n: nat)
    requires
        n <= d.len(),
        all_digits(d.subrange(0, n as int)),
    ensures
        all_digits(d) ==> digits_value(d) >= digits_value(d.subrange(0, n as int)),
    decreases d.len() - n,
{
    if n < d.len() && all_digits(d) {
        let m = (n + 1) as int;
        assert(d.subrange(0, m).drop_last() =~= d.subrange(0, n as int));
        assert(all_digits(d.subrange(0, m)));
        lemma_digits_prefix_grows(d, (n + 1) as nat);
    }
    if n == d.len() {
        assert(d.subrange(0, n as int) =~= d);
    }
}


/// The text before the first `.` (all of it when there is none).
pub open spec fn before_first_dot(t: Seq<char>) -> Seq<char>
    decreases t.len(),
{
    if t.len() == 0 {
        t
    } else if t[0] == '.' {
        seq![]
    } else {
        seq![t[0]] + before_first_dot(t.drop_first())
    }
}

/// The major version in a Node.js version text such as `v20.11.0` or
/// `18.0.0`: leading `v`s dropped, the part before the first `.` read as
/// a `u32`.
pub open spec fn node_major(s: Seq<char>) -> Option<nat> {
    parsed_unsigned(before_first_dot(trim_start_char(s, 'v')), 0xffff_ffff)
}

/// The major version of a Node.js version text (`v20.11.0` → 20).
pub fn parse_node_major(s: &str) -> (r: Option<u32>)
    ensures
        match node_major(s@) {
            Some(n) => r == Some(n as u32),
            None => r is None,
        },
{
    let v = chars_of(s);
    let lo = trim_start_char_at(&v, 0, 'v');
    assert(v@.subrange(0, v@.len() as int) =~= s@);
    let ghost t = v@.subrange(lo as int, v@.len() as int);
    let mut hi: usize = lo;
    while hi < v.len() && v[hi] != '.'
        invariant
            lo <= hi <= v@.len(),
            t == v@.subrange(lo as int, v@.len() as int),
            before_first_dot(t) == v@.subrange(lo as int, hi as int) + before_first_dot(
                v@.subrange(hi as int, v@.len() as int),
            ),
        decreases v.len() - hi,
    {
        let ghost rest = v@.subrange(hi as int, v@.len() as int);
        assert(rest.drop_first() =~= v@.subrange(hi + 1, v@.len() as int));
        assert(v@.subrange(lo as int, hi + 1) =~= v@.subrange(lo as int, hi as int) + seq![v@[hi as int]]);
        hi = hi + 1;
    }
    proof {
        let rest = v@.subrange(hi as int, v@.len() as int);
        if hi < v.len() {
            assert(rest[0] == '.');
        }
        assert(before_first_dot(rest) =~= Seq::<char>::empty());
    }
    let head = string_from_range(&v, lo, hi);
    match parse_unsigned(head.as_str(), 0xffff_ffff) {
        Some(n) => Some(n as u32),
        None => None,
    }
}

/// What a Node.js version means for running the MCP bridge.
#[derive(Debug, Clone, Copy, PartialEq, Eq, Structural)]
pub enum NodeCheck {
    /// Major version 18 or later.
    Supported(u32),
    /// An older major version.
    TooOld(u32),
    /// No major version could be read.
    Unparsable,
}

/// Judges a Node.js version text: version 18 or later is needed.
pub fn classify_node(version: &str) -> (r: NodeCheck)
    ensures
        match node_major(version@) {
            Some(n) => if n >= 18 {
                r == NodeCheck::Supported(n as u32)
            } else {
                r == NodeCheck::TooOld(n as u32)
            },
            None => r == NodeCheck::Unparsable,
        },
{
    match parse_node_major(version) {
        Some(m) => if m >= 18 {
            NodeCheck::Supported(m)
        } else {
            NodeCheck::TooOld(m)
        },
        None => NodeCheck::Unparsable,
    }
}

/// A yes/no answer is yes when, trimmed and lower-cased, it is `y` or
/// `yes`.
pub fn answer_is_yes(answer: &str) -> (b: bool)
    ensures
        b == (lower(trim(answer@)) == "y"@ || lower(trim(answer@)) == "yes"@),
{
    let t = trim_string(answer);
    let l = to_ascii_lowercase(t.as_str());
    str_eq(l.as_str(), "y") || str_eq(l.as_str(), "yes")
}

/// How the Figma token part of `doctor` ended.
#[derive(Debug, Clone, Copy, PartialEq, Eq, Structural)]
pub enum PatStep {
    /// A token was already configured.
    Resolved,
    /// None was configured and the user declined to save one.
    Declined,
    /// The user agreed but entered nothing.
    NoTokenEntered,
    /// The entered token was saved.
    Saved,
    /// The entered token could not be saved.
    SaveFailed,
}

/// Whether the Node.js check fails: no runnable `node` (`None`), or one
/// older than 18. An unreadable version only warns.
pub open spec fn node_fails(node: Option<NodeCheck>) -> bool {
    match node {
        None => true,
        Some(NodeCheck::TooOld(_)) => true,
        _ => false,
    }
}

/// Whether the token check fails.
pub open spec fn pat_fails(pat: PatStep) -> bool {
    !(pat == PatStep::Resolved || pat == PatStep::Saved)
}

/// The number of failed `doctor` checks, from the Node.js check (`None`
/// when `node --version` could not be run) and the token check. A missing
/// provider key only warns. `doctor` succeeds when this is zero.
pub fn doctor_failures(node: Option<NodeCheck>, pat: PatStep) -> (n: u32)
    ensures
        n == (if node_fails(node) { 1int } else { 0int }) + (if pat_fails(pat) { 1int } else { 0int }),
        n == 0 <==> (!node_fails(node) && (pat == PatStep::Resolved || pat == PatStep::Saved)),
{
    let mut n: u32 = 0;
    match node {
        None => {
            n = n + 1;
        },
        Some(NodeCheck::TooOld(_)) => {
            n = n + 1;
        },
        _ => {},
    }
    match pat {
        PatStep::Resolved | PatStep::Saved => {},
        _ => {
            n = n + 1;
        },
    }
    n
}

// ── provider ───────────────────────────────────────────────────────────────

/// The chat provider the Plan, Critic and summarizer requests go to.
#[derive(Debug)]
pub struct Provider {
    pub key: String,
    pub base: String,
    pub model: String,
    /// The key came from the deprecated `DEEPSEEK_API_KEY` variable.
    pub deprecated_key: bool,
}

/// The value the environment gives a variable, empty or not.
pub open spec fn env_var(env: Seq<(String, String)>, name: Seq<char>) -> Option<Seq<char>> {
    match keyed(env, name) {
        Some(v) => Some(v@),
        None => None,
    }
}

/// The provider key: `CODEDESIGN_DEEPSEEK_API_KEY`, else the deprecated
/// `DEEPSEEK_API_KEY` (flagged), empty values counting as unset.
pub open spec fn provider_key(env: Seq<(String, String)>) -> Option<(Seq<char>, bool)> {
    match env_var(env, "CODEDESIGN_DEEPSEEK_API_KEY"@) {
        Some(k) if k.len() > 0 => Some((k, false)),
        _ => match env_var(env, "DEEPSEEK_API_KEY"@) {
            Some(k) if k.len() > 0 => Some((k, true)),
            _ => None,
        },
    }
}

/// A setting from the first of two variables that is set (even empty),
/// else the default.
pub open spec fn setting(env: Seq<(String, String)>, first: Seq<char>, second: Seq<char>, default: Seq<char>) -> Seq<char> {
    match env_var(env, first) {
        Some(v) => v,
        None => match env_var(env, second) {
            Some(v) => v,
            None => default,
        },
    }
}

fn env_lookup(env: &Vec<(String, String)>, name: &str) -> (r: Option<String>)
    ensures
        match env_var(env@, name@) {
            Some(v) => r matches Some(s) && s@ == v,
            None => r is None,
        },
{
    match crate::text::find_keyed(env, name) {
        Some(v) => Some(v.clone()),
        None => None,
    }
}

/// The provider key from the environment (`env` holds its variables as
/// name/value pairs), and whether it came from the deprecated variable.
pub fn resolve_provider_key(env: &Vec<(String, String)>) -> (r: Option<(String, bool)>)
    ensures
        match provider_key(env@) {
            Some((k, d)) => r matches Some((s, b)) && s@ == k && b == d,
            None => r is None,
        },
{
    if let Some(k) = env_lookup(env, "CODEDESIGN_DEEPSEEK_API_KEY") {
        if !k.as_str().is_empty() {
            return Some((k, false));
        }
    }
    if let Some(k) = env_lookup(env, "DEEPSEEK_API_KEY") {
        if !k.as_str().is_empty() {
            return Some((k, true));
        }
    }
    None
}

fn setting_of(env: &Vec<(String, String)>, first: &str, second: &str, default: &str) -> (r: String)
    ensures
        r@ == setting(env@, first@, second@, default@),
{
    match env_lookup(env, first) {
        Some(v) => v,
        None => match env_lookup(env, second) {
            Some(v) => v,
            None => to_owned(default),
        },
    }
}

/// The provider from the environment: none without a key; the base URL
/// from `CODEDESIGN_DEEPSEEK_BASE_URL`, else `DEEPSEEK_BASE_URL`, else
/// the default; the model likewise from `..._MODEL`.
pub fn resolve_provider(env: &Vec<(String, String)>) -> (r: Option<Provider>)
    ensures
        match provider_key(env@) {
            None => r is None,
            Some((k, d)) => r matches Some(p) && p.key@ == k && p.deprecated_key == d && p.base@
                == setting(env@, "CODEDESIGN_DEEPSEEK_BASE_URL"@, "DEEPSEEK_BASE_URL"@, DEFAULT_BASE@)
                && p.model@ == setting(
                env@,
                "CODEDESIGN_DEEPSEEK_MODEL"@,
                "DEEPSEEK_MODEL"@,
                DEFAULT_MODEL@,
            ),
        },
{
    let (key, deprecated_key) = match resolve_provider_key(env) {
        Some(kd) => kd,
        None => {
            return None;
        },
    };
    let base = setting_of(env, "CODEDESIGN_DEEPSEEK_BASE_URL", "DEEPSEEK_BASE_URL", DEFAULT_BASE);
    let model = setting_of(env, "CODEDESIGN_DEEPSEEK_MODEL", "DEEPSEEK_MODEL", DEFAULT_MODEL);
    Some(Provider { key, base, model, deprecated_key })
}

/// The design-system directory named by `CODEDESIGN_DS_DIR`, when it is set
/// and non-empty; it is loaded whether or not it exists.
pub open spec fn explicit_ds_dir(env: Seq<(String, String)>) -> Option<Seq<char>> {
    match env_var(env, "CODEDESIGN_DS_DIR"@) {
        Some(d) if d.len() > 0 => Some(d),
        _ => None,
    }
}

/// The user's default design system, `$HOME/.codedesign/design-systems/default`.
pub open spec fn user_ds_dir(env: Seq<(String, String)>) -> Option<Seq<char>> {
    match env_var(env, "HOME"@) {
        Some(h) => Some(
            path_join(path_join(path_join(h, ".codedesign"@), "design-systems"@), "default"@),
        ),
        None => None,
    }
}

/// Where to look for skill `name`, in order: under `CODEDESIGN_SKILLS_DIR`
/// when it is set, then under `$HOME/.codedesign/skills`.
pub open spec fn skill_dirs_for(env: Seq<(String, String)>, name: Seq<char>) -> Seq<Seq<char>> {
    (match env_var(env, "CODEDESIGN_SKILLS_DIR"@) {
        Some(b) => seq![path_join(b, name)],
        None => seq![],
    }) + (match env_var(env, "HOME"@) {
        Some(h) => seq![path_join(path_join(path_join(h, ".codedesign"@), "skills"@), name)],
        None => seq![],
    })
}

/// `CODEDESIGN_DS_DIR`, when set and non-empty.
pub fn ds_dir_from_env(env: &Vec<(String, String)>) -> (r: Option<String>)
    ensures
        match explicit_ds_dir(env@) {
            Some(d) => r matches Some(s) && s@ == d,
            None => r is None,
        },
{
    match env_lookup(env, "CODEDESIGN_DS_DIR") {
        Some(d) => if d.as_str().is_empty() {
            None
        } else {
            Some(d)
        },
        None => None,
    }
}

/// The user's default design-system directory, when `HOME` is set; the
/// caller loads it if it exists, else the bundled design system.
pub fn user_ds_dir_from_env(env: &Vec<(String, String)>) -> (r: Option<String>)
    ensures
        match user_ds_dir(env@) {
            Some(d) => r matches Some(s) && s@ == d,
            None => r is None,
        },
{
    match env_lookup(env, "HOME") {
        Some(h) => {
            let a = join_path(h.as_str(), ".codedesign");
            let b = join_path(a.as_str(), "design-systems");
            Some(join_path(b.as_str(), "default"))
        },
        None => None,
    }
}

/// The directories to look in for skill `name`, in order; the caller
/// takes the first that holds a `SKILL.md`.
pub fn skill_dirs(env: &Vec<(String, String)>, name: &str) -> (r: Vec<String>)
    ensures
        views(r@) == skill_dirs_for(env@, name@),
{
    let mut r: Vec<String> = Vec::new();
    if let Some(b) = env_lookup(env, "CODEDESIGN_SKILLS_DIR") {
        r.push(join_path(b.as_str(), name));
    }
    let ghost first = views(r@);
    if let Some(h) = env_lookup(env, "HOME") {
        let a = join_path(h.as_str(), ".codedesign");
        let b = join_path(a.as_str(), "skills");
        r.push(join_path(b.as_str(), name));
    }
    assert(views(r@) =~= skill_dirs_for(env@, name@));
    r
}

/// Case images are attached to the Plan request unless
/// `CODEDESIGN_NO_CASES` is `1`.
pub fn cases_enabled(env: &Vec<(String, String)>) -> (b: bool)
    ensures
        b == !(env_var(env@, "CODEDESIGN_NO_CASES"@) == Some("1"@)),
{
    match env_lookup(env, "CODEDESIGN_NO_CASES") {
        Some(v) => {
            let r = !str_eq(v.as_str(), "1");
            r
        },
        None => true,
    }
}


// ── the Plan and Critic requests ───────────────────────────────────────────

/// The output contract appended to the Planner's system prompt.
pub const PLAN_CONTRACT_FOOTER: &'static str = r#"
Your sole output channel is the `plan_emit` tool. Call it exactly once per turn. Do NOT answer in prose.

SCHEMA CONTRACT (ENFORCED)
- Top-level keys: planId, dsRef, projectId, intent, stepKind, frames, rationale.
- Frames MUST have: localId, name, page, size {w,h}, layout {mode, padding, gap?}, children[].
- Children are one of:
    * {"type":"text", "styleRef":"typo.xxx", "fillRef":"color.xxx", "content":"..."}
    * {"type":"instance", "componentRef":"<DS component>", "props":{...}}
    * {"type":"frame", ...}  (nested)
- fillRef / styleRef / componentRef MUST be dot-path refs that RESOLVE in the DS binding block above.
- padding / gap MUST be dot-path refs like space.md.
- NEVER emit raw hex, px, or font names.

HARD RULES
- dsRef  = "default@1.0.0"
- projectId = "codedesign-session"
- intent = "create_screens" unless explicitly impossible.
- stepKind = "skeleton" for initial plans.
- 1-6 frames per plan. Typical sizes: 375x812 (mobile) or 1440x900 (desktop).
"#;

/// The `plan_emit` schema up to the component enum.
pub const PLAN_TOOL_HEAD: &'static str = r#"{"type": "function", "function": {"name": "plan_emit", "description": "Emit a DesignPlan IR. Refs only, no raw values.", "parameters": {"type": "object", "required": ["planId", "dsRef", "projectId", "intent", "stepKind", "frames"], "properties": {"planId": {"type": "string"}, "dsRef": {"type": "string"}, "projectId": {"type": "string"}, "intent": {"type": "string", "enum": ["create_screens","refine_selection","restyle","add_state","extract_ds"]}, "stepKind": {"type": "string", "enum": ["pages","skeleton","content","states","annotations"]}, "frames": {"type": "array", "minItems": 1, "items": {"type": "object", "required": ["localId", "name", "page", "size", "layout", "children"], "properties": {"localId": {"type": "string"}, "name": {"type": "string"}, "page": {"type": "string"}, "size": {"type": "object", "required": ["w", "h"], "properties": {"w": {"type": "number"}, "h": {"type": "number"}}}, "layout": {"type": "object", "required": ["mode", "padding"], "properties": {"mode": {"type": "string", "enum": ["VERTICAL", "HORIZONTAL", "NONE"]}, "padding": {"type": "string", "pattern": "^space\\."}, "gap": {"type": "string", "pattern": "^space\\."}}}, "fillRef": {"type": "string", "pattern": "^color\\."}, "children": {"type": "array", "items": {"oneOf": [{"type": "object", "required": ["type", "styleRef", "fillRef", "content"], "properties": {"type": {"const": "text"}, "styleRef": {"type": "string", "pattern": "^typo\\."}, "fillRef": {"type": "string", "pattern": "^color\\."}, "content": {"type": "string"}}, "additionalProperties": false}, {"type": "object", "required": ["type", "componentRef"], "properties": {"type": {"const": "instance"}, "componentRef": {"type": "string", "enum": "#;

/// The `plan_emit` schema after the component enum.
pub const PLAN_TOOL_TAIL: &'static str = r#"}, "props": {"type": "object"}}, "additionalProperties": false}, {"type": "object", "required": ["type", "localId", "name", "page", "size", "layout", "children"], "properties": {"type": {"const": "frame"}, "localId": {"type": "string"}, "name": {"type": "string"}, "page": {"type": "string"}, "size": {"type": "object", "required": ["w","h"], "properties": {"w": {"type":"number"}, "h":{"type":"number"}}}, "layout": {"type": "object", "required": ["mode", "padding"], "properties": {"mode": {"type": "string", "enum": ["VERTICAL", "HORIZONTAL", "NONE"]}, "padding": {"type": "string", "pattern": "^space\\."}, "gap": {"type": "string", "pattern": "^space\\."}}}, "fillRef": {"type": "string", "pattern": "^color\\."}, "children": {"type": "array"}}, "additionalProperties": false}]}}}, "additionalProperties": false}}, "components_to_create": {"type": "array"}, "tokens_to_create": {"type": "array"}, "craft_asserts": {"type": "array", "items": {"type": "string"}}, "quality_gates": {"type": "array", "items": {"type": "string"}}, "dependsOn": {"type": "array", "items": {"type": "string"}}, "rationale": {"type": "string"}}, "additionalProperties": false}}}"#;

/// A JSON array of strings.
pub open spec fn json_string_array(items: Seq<Seq<char>>) -> Seq<char> {
    "["@ + crate::text::join(", "@, items.map_values(|t: Seq<char>| json_quoted(t))) + "]"@
}

/// The `plan_emit` tool schema: a DesignPlan whose instance children may
/// only name the design system's components.
pub open spec fn plan_emit_tool_text(ds: DesignSystem) -> Seq<char> {
    PLAN_TOOL_HEAD@ + json_string_array(crate::text::keys_of(ds.components.items@)) + PLAN_TOOL_TAIL@
}

/// The Planner's system prompt: the role prompt, then the output contract.
pub open spec fn planner_system_text(role_system: Seq<char>) -> Seq<char> {
    role_system + "\n\n# Planner output contract\n"@ + trim(PLAN_CONTRACT_FOOTER@)
}

/// A chat request with one tool: the model, the system and user messages
/// (the user content given as JSON text), the tool, and automatic tool
/// choice.
pub open spec fn tool_request_text(model: Seq<char>, system: Seq<char>, user_content: Seq<char>, tool: Seq<char>) -> Seq<char> {
    "{\"model\": "@ + json_quoted(model) + ", \"messages\": [{\"role\": \"system\", \"content\": "@
        + json_quoted(system) + "}, {\"role\": \"user\", \"content\": "@ + user_content
        + "}], \"tools\": ["@ + tool + "], \"tool_choice\": \"auto\"}"@
}

/// The parts that show one case image: its caption, then the image.
pub open spec fn case_parts(c: CaseEntry, data_url: Seq<char>) -> Seq<char> {
    ", {\"type\": \"text\", \"text\": "@ + json_quoted(
        "Case: "@ + c.title@ + " ("@ + c.id@ + ") — "@ + c.note@,
    ) + "}, {\"type\": \"image_url\", \"image_url\": {\"url\": "@ + json_quoted(data_url) + "}}"@
}

pub open spec fn all_case_parts(cases: Seq<(CaseEntry, String)>) -> Seq<char>
    decreases cases.len(),
{
    if cases.len() == 0 {
        seq![]
    } else {
        all_case_parts(cases.drop_last()) + case_parts(cases.last().0, cases.last().1@)
    }
}

/// The Plan request's user content, as JSON text: the PRD alone, or, when
/// case images are attached, a list of parts (the PRD with a calibration
/// note, then each case's caption and image).
pub open spec fn plan_user_text(prd: Seq<char>, attach: bool, cases: Seq<(CaseEntry, String)>) -> Seq<char> {
    if !attach {
        json_quoted(prd)
    } else {
        "[{\"type\": \"text\", \"text\": "@ + json_quoted(
            prd + "\n\nReference cases follow — use as calibration only, do not copy."@,
        ) + "}"@ + all_case_parts(cases) + "]"@
    }
}

/// The Critic request's user message: the plan and the readback, each cut
/// to 24000 bytes.
pub open spec fn critic_user_text(plan: Seq<char>, readback: Seq<char>) -> Seq<char> {
    "# DesignPlan (IR)\n```json\n"@ + truncated(plan, 24000) + "\n```\n\n# Figma readback\n```json\n"@
        + truncated(readback, 24000) + "\n```\n\nEmit one `critic_emit` tool call. No prose."@
}

/// The arguments of the first tool call of the first choice of a reply.
pub open spec fn tool_call_args(reply: Json) -> Option<Seq<char>> {
    match get(reply, "choices"@) {
        Some(Json::Array(cs)) if cs@.len() > 0 => match get(cs@[0], "message"@) {
            Some(m) => match get(m, "tool_calls"@) {
                Some(Json::Array(ts)) if ts@.len() > 0 => match get(ts@[0], "function"@) {
                    Some(f) => match get(f, "arguments"@) {
                        Some(Json::Str(a)) => Some(a@),
                        _ => None,
                    },
                    None => None,
                },
                _ => None,
            },
            None => None,
        },
        _ => None,
    }
}

fn push_string_array(s: &mut String, items: &Vec<String>)
    ensures
        final(s)@ == old(s)@ + json_string_array(views(items@)),
{
    let ghost start = s@;
    push_str(s, "[");
    let ghost open = s@;
    let ghost quoted = views(items@).map_values(|t: Seq<char>| json_quoted(t));
    let mut i: usize = 0;
    while i < items.len()
        invariant
            i <= items@.len(),
            quoted == views(items@).map_values(|t: Seq<char>| json_quoted(t)),
            s@ == open + crate::text::join(", "@, quoted.subrange(0, i as int)),
        decreases items.len() - i,
    {
        let ghost pre = quoted.subrange(0, i + 1);
        assert(pre.drop_last() =~= quoted.subrange(0, i as int));
        assert(pre.last() == json_quoted(items@[i as int]@));
        if i > 0 {
            push_str(s, ", ");
        }
        push_json_string(s, items[i].as_str());
        proof {
            if i == 0 {
                assert(quoted.subrange(0, i as int).len() == 0);
            }
        }
        assert(s@ =~= open + crate::text::join(", "@, pre));
        i = i + 1;
    }
    assert(quoted.subrange(0, quoted.len() as int) =~= quoted);
    push_str(s, "]");
    assert(s@ =~= start + json_string_array(views(items@)));
}

/// The `plan_emit` tool schema as JSON text; its component enum lists the
/// design system's components.
pub fn plan_emit_tool(ds: &DesignSystem) -> (r: String)
    ensures
        r@ == plan_emit_tool_text(*ds),
{
    let names = ds.component_names();
    let mut s = to_owned(PLAN_TOOL_HEAD);
    push_string_array(&mut s, &names);
    push_str(&mut s, PLAN_TOOL_TAIL);
    s
}

/// The Planner's system prompt from the role prompt.
pub fn planner_system(role_system: &str) -> (r: String)
    ensures
        r@ == planner_system_text(role_system@),
{
    let mut s = to_owned(role_system);
    push_str(&mut s, "\n\n# Planner output contract\n");
    let footer = trim_string(PLAN_CONTRACT_FOOTER);
    push_str(&mut s, footer.as_str());
    s
}

/// A chat request with one tool, as JSON text.
pub fn tool_request(model: &str, system: &str, user_content: &str, tool: &str) -> (r: String)
    ensures
        r@ == tool_request_text(model@, system@, user_content@, tool@),
{
    let mut s = to_owned("{\"model\": ");
    push_json_string(&mut s, model);
    push_str(&mut s, ", \"messages\": [{\"role\": \"system\", \"content\": ");
    push_json_string(&mut s, system);
    push_str(&mut s, "}, {\"role\": \"user\", \"content\": ");
    push_str(&mut s, user_content);
    push_str(&mut s, "}], \"tools\": [");
    push_str(&mut s, tool);
    push_str(&mut s, "], \"tool_choice\": \"auto\"}");
    s
}

/// The Plan request's user content, as JSON text. `attach` says whether
/// case images were to be attached; `cases` holds each that could be
/// read, with its image as a data URL.
pub fn plan_user_content(prd: &str, attach: bool, cases: &Vec<(CaseEntry, String)>) -> (r: String)
    ensures
        r@ == plan_user_text(prd@, attach, cases@),
{
    if !attach {
        return crate::json::json_string(prd);
    }
    let mut s = to_owned("[{\"type\": \"text\", \"text\": ");
    let mut first = to_owned(prd);
    push_str(&mut first, "\n\nReference cases follow — use as calibration only, do not copy.");
    push_json_string(&mut s, first.as_str());
    push_str(&mut s, "}");
    let ghost start = s@;
    let mut i: usize = 0;
    while i < cases.len()
        invariant
            i <= cases@.len(),
            s@ == start + all_case_parts(cases@.subrange(0, i as int)),
        decreases cases.len() - i,
    {
        let ghost pre = cases@.subrange(0, i + 1);
        assert(pre.drop_last() =~= cases@.subrange(0, i as int));
        let c = &cases[i].0;
        let mut caption = to_owned("Case: ");
        push_str(&mut caption, c.title.as_str());
        push_str(&mut caption, " (");
        push_str(&mut caption, c.id.as_str());
        push_str(&mut caption, ") — ");
        push_str(&mut caption, c.note.as_str());
        push_str(&mut s, ", {\"type\": \"text\", \"text\": ");
        push_json_string(&mut s, caption.as_str());
        push_str(&mut s, "}, {\"type\": \"image_url\", \"image_url\": {\"url\": ");
        push_json_string(&mut s, cases[i].1.as_str());
        push_str(&mut s, "}}");
        assert(s@ =~= start + all_case_parts(pre));
        i = i + 1;
    }
    assert(cases@.subrange(0, cases@.len() as int) =~= cases@);
    push_str(&mut s, "]");
    s
}

/// The Critic request's user message. Cutting each text to 24000 bytes
/// must fall on a character boundary.
pub fn critic_user_message(plan: &str, readback: &str) -> (r: String)
    requires
        plan.spec_bytes().len() <= 24000 || is_char_boundary(plan.spec_bytes(), 24000),
        readback.spec_bytes().len() <= 24000 || is_char_boundary(readback.spec_bytes(), 24000),
    ensures
        r@ == critic_user_text(plan@, readback@),
{
    let mut s = to_owned("# DesignPlan (IR)\n```json\n");
    let p = truncate(plan, 24000);
    push_str(&mut s, p.as_str());
    push_str(&mut s, "\n```\n\n# Figma readback\n```json\n");
    let b = truncate(readback, 24000);
    push_str(&mut s, b.as_str());
    push_str(&mut s, "\n```\n\nEmit one `critic_emit` tool call. No prose.");
    s
}

/// The arguments of the first tool call of a chat reply.
pub fn tool_call_arguments(reply: &Json) -> (r: Option<String>)
    ensures
        match tool_call_args(*reply) {
            Some(a) => r matches Some(s) && s@ == a,
            None => r is None,
        },
{
    let cs = match reply.get("choices") {
        Some(Json::Array(cs)) => cs,
        _ => {
            return None;
        },
    };
    if cs.len() == 0 {
        return None;
    }
    let m = match cs[0].get("message") {
        Some(m) => m,
        None => {
            return None;
        },
    };
    let ts = match m.get("tool_calls") {
        Some(Json::Array(ts)) => ts,
        _ => {
            return None;
        },
    };
    if ts.len() == 0 {
        return None;
    }
    match ts[0].get("function") {
        Some(f) => match f.get_str("arguments") {
            Some(a) => Some(to_owned(a.as_str())),
            None => None,
        },
        None => None,
    }
}

} // verus!
