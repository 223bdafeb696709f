//! The session summarizer: compresses a long main session into a compact
//! `SessionSummary` in a separate chat-completion request, so that the
//! main session's budget never carries the summarizing traffic.
//!
//! This module owns the data contract (the summary and its injection
//! text), the summarizer prompt, the request it sends and how the reply is
//! read. Sending the request is the caller's part.

use vstd::prelude::*;
use crate::json::{get, Json};
use crate::text::{
    dec, push_dec, push_str, str_ends_with, string_from_range, chars_of, to_owned,
    trim_end_char, trim_end_char_at, ends_with,
};

verus! {

pub const CRATE_NAME: &'static str = "cd-summarizer";

/// Compact record of a finished main session, injected into the resumed
/// session as a system message.
#[derive(Debug)]
pub struct SessionSummary {
    /// Stable facts that must survive compression: platform, tone, brand
    /// refs, user constraints, DS identity.
    pub facts: Vec<String>,
    /// Decisions made during the session (direction picked, DS adopted,
    /// skills invoked, gates overridden).
    pub decisions: Vec<String>,
    /// Unresolved user asks or explicit deferrals.
    pub open_questions: Vec<String>,
    /// One-line digests of noteworthy tool results.
    pub tool_results_digest: Vec<String>,
    /// Last known Plan id, if any.
    pub last_plan_id: Option<String>,
}

/// Why a summary could not be had.
#[derive(Debug)]
pub enum SummaryError {
    /// The reply's content is not a valid summary object (the decoder's
    /// message).
    InvalidJson(String),
    /// The request failed.
    Http(String),
    /// The reply held no message content (the reply's text).
    NoContent(String),
}

/// Provider settings for the summarizer's own request.
#[derive(Debug)]
pub struct SummarizerConfig {
    pub api_key: String,
    pub base_url: String,
    pub model: String,
    pub timeout_secs: u64,
}

/// The summarizer's system prompt.
pub const SUMMARIZER_SYSTEM_PROMPT: &'static str = "\
You are the CodeDesign session summarizer. You are running in an ISOLATED \
session whose token budget does NOT touch the main session.

Read the transcript below and return a JSON object with EXACTLY these fields:
{
  \"facts\":            [string, ...],  // stable facts: platform, brand, constraints, DS ref
  \"decisions\":        [string, ...],  // direction picked, skills activated, gates overridden
  \"openQuestions\":    [string, ...],  // user asks not yet answered
  \"toolResultsDigest\":[string, ...],  // one-line digests of noteworthy tool results
  \"lastPlanId\":       string | null
}

RULES:
- Output JSON only, no markdown, no commentary.
- Preserve every explicit user ask and stated constraint as a fact OR decision.
- Keep it compact: each entry ≤ 120 chars.
- Never invent facts not present in the transcript.";

// ── specification ──────────────────────────────────────────────────────────

/// `- item` lines.
pub open spec fn item_lines(items: Seq<String>) -> Seq<char>
    decreases items.len(),
{
    if items.len() == 0 {
        seq![]
    } else {
        item_lines(items.drop_last()) + "- "@ + items.last()@ + "\n"@
    }
}

/// A titled section, present only when it has items.
pub open spec fn section(title: Seq<char>, items: Seq<String>) -> Seq<char> {
    if items.len() == 0 {
        seq![]
    } else {
        "\n"@ + title + ":\n"@ + item_lines(items)
    }
}

/// The text spliced into the resumed session.
pub open spec fn injection_text(s: SessionSummary) -> Seq<char> {
    "=== PRIOR SESSION SUMMARY ===\n"@ + section("Facts"@, s.facts@) + section(
        "Decisions"@,
        s.decisions@,
    ) + section("Open questions"@, s.open_questions@) + section(
        "Tool results digest"@,
        s.tool_results_digest@,
    ) + match s.last_plan_id {
        Some(p) => "\nLastPlanId: "@ + p@ + "\n"@,
        None => seq![],
    }
}

/// `[i|role] content` lines, numbered from zero.
pub open spec fn transcript_text(msgs: Seq<(String, String)>) -> Seq<char>
    decreases msgs.len(),
{
    if msgs.len() == 0 {
        seq![]
    } else {
        let i = (msgs.len() - 1) as nat;
        transcript_text(msgs.drop_last()) + "["@ + dec(i) + "|"@ + msgs.last().0@ + "] "@
            + msgs.last().1@ + "\n"@
    }
}

/// The chat-completions endpoint under a provider base URL: trailing
/// slashes dropped, and `/v1` added unless the base already ends in it.
pub open spec fn completions_url(base: Seq<char>) -> Seq<char> {
    let b = trim_end_char(base, '/');
    if ends_with(b, "/v1"@) {
        b + "/chat/completions"@
    } else {
        b + "/v1/chat/completions"@
    }
}

/// The message content of the first choice of a chat-completion reply.
pub open spec fn reply_content(reply: Json) -> Option<Seq<char>> {
    match get(reply, "choices"@) {
        Some(Json::Array(cs)) => if cs@.len() > 0 {
            match get(cs@[0], "message"@) {
                Some(m) => match get(m, "content"@) {
                    Some(Json::Str(s)) => Some(s@),
                    _ => None,
                },
                None => None,
            }
        } else {
            None
        },
        _ => None,
    }
}

/// `j` is the JSON string `v`.
pub open spec fn str_is(j: Json, v: Seq<char>) -> bool {
    j matches Json::Str(s) && s@ == v
}

/// A member named `k` holding the string `v`.
pub open spec fn pair_is(m: (String, Json), k: Seq<char>, v: Seq<char>) -> bool {
    m.0@ == k && str_is(m.1, v)
}

/// A chat message: exactly `role`, then `content`, both strings.
pub open spec fn message_is(j: Json, role: Seq<char>, content: Seq<char>) -> bool {
    &&& j matches Json::Object(es)
    &&& es@.len() == 2
    &&& pair_is(es@[0], "role"@, role)
    &&& pair_is(es@[1], "content"@, content)
}

/// The summarizer's chat-completion request, member for member: exactly
/// `model`, then `messages` (the summarizer prompt as the system message,
/// then the transcript as the user message), then `response_format`
/// holding exactly `type: json_object`.
pub open spec fn request_shape(j: Json, model: Seq<char>, transcript: Seq<char>) -> bool {
    &&& j matches Json::Object(es)
    &&& es@.len() == 3
    &&& pair_is(es@[0], "model"@, model)
    &&& es@[1].0@ == "messages"@
    &&& es@[1].1 matches Json::Array(ms)
    &&& ms@.len() == 2
    &&& message_is(ms@[0], "system"@, SUMMARIZER_SYSTEM_PROMPT@)
    &&& message_is(ms@[1], "user"@, transcript)
    &&& es@[2].0@ == "response_format"@
    &&& es@[2].1 matches Json::Object(fs)
    &&& fs@.len() == 1
    &&& pair_is(fs@[0], "type"@, "json_object"@)
}

// ── implementation ─────────────────────────────────────────────────────────

fn push_section(s: &mut String, title: &str, items: &Vec<String>)
    ensures
        final(s)@ == old(s)@ + section(title@, items@),
{
    if items.len() == 0 {
        assert(old(s)@ + section(title@, items@) =~= old(s)@);
        return;
    }
    push_str(s, "\n");
    push_str(s, title);
    push_str(s, ":\n");
    let ghost start = s@;
    let mut i: usize = 0;
    while i < items.len()
        invariant
            i <= items@.len(),
            s@ == start + item_lines(items@.subrange(0, i as int)),
        decreases items.len() - i,
    {
        let ghost pre = items@.subrange(0, i + 1);
        assert(pre.drop_last() =~= items@.subrange(0, i as int));
        push_str(s, "- ");
        push_str(s, items[i].as_str());
        push_str(s, "\n");
        assert(s@ =~= start + item_lines(pre));
        i = i + 1;
    }
    assert(items@.subrange(0, items@.len() as int) =~= items@);
}

impl SessionSummary {
    /// Renders the summary as the content spliced into the resumed
    /// session: a header, then each non-empty section (facts, decisions,
    /// open questions, tool digests) as bullet lines, then the last plan
    /// id when there is one.
    pub fn to_injection_text(&self) -> (r: String)
        ensures
            r@ == injection_text(*self),
    {
        let mut out = to_owned("=== PRIOR SESSION SUMMARY ===\n");
        push_section(&mut out, "Facts", &self.facts);
        push_section(&mut out, "Decisions", &self.decisions);
        push_section(&mut out, "Open questions", &self.open_questions);
        push_section(&mut out, "Tool results digest", &self.tool_results_digest);
        let ghost before = out@;
        if let Some(p) = &self.last_plan_id {
            push_str(&mut out, "\nLastPlanId: ");
            push_str(&mut out, p.as_str());
            push_str(&mut out, "\n");
        }
        proof {
            let tail = match &self.last_plan_id {
                Some(p) => "\nLastPlanId: "@ + p@ + "\n"@,
                None => Seq::<char>::empty(),
            };
            assert(out@ =~= before + tail);
        }
        out
    }
}

impl SummarizerConfig {
    /// Settings with the default timeout of 120 seconds.
    pub fn new(api_key: String, base_url: String, model: String) -> (c: SummarizerConfig)
        ensures
            c.api_key == api_key,
            c.base_url == base_url,
            c.model == model,
            c.timeout_secs == 120,
    {
        SummarizerConfig { api_key, base_url, model, timeout_secs: 120 }
    }
}

/// Flattens `(role, content)` messages into the one-line-per-turn text
/// the summarizer reads: `[i|role] content`, numbered from zero, in order.
pub fn flatten_transcript(msgs: &Vec<(String, String)>) -> (r: String)
    ensures
        r@ == transcript_text(msgs@),
{
    let mut out = String::new();
    let mut i: usize = 0;
    while i < msgs.len()
        invariant
            i <= msgs@.len(),
            out@ == transcript_text(msgs@.subrange(0, i as int)),
        decreases msgs.len() - i,
    {
        let ghost pre = msgs@.subrange(0, i + 1);
        assert(pre.drop_last() =~= msgs@.subrange(0, i as int));
        push_str(&mut out, "[");
        push_dec(&mut out, i as u64);
        push_str(&mut out, "|");
        push_str(&mut out, msgs[i].0.as_str());
        push_str(&mut out, "] ");
        push_str(&mut out, msgs[i].1.as_str());
        push_str(&mut out, "\n");
        assert(out@ =~= transcript_text(pre));
        i = i + 1;
    }
    assert(msgs@.subrange(0, msgs@.len() as int) =~= msgs@);
    out
}

/// The chat-completions endpoint under a provider base URL.
pub fn chat_completions_url(base_url: &str) -> (r: String)
    ensures
        r@ == completions_url(base_url@),
{
    let v = chars_of(base_url);
    let hi = trim_end_char_at(&v, v.len(), '/');
    assert(v@.subrange(0, v@.len() as int) =~= base_url@);
    let mut b = string_from_range(&v, 0, hi);
    if str_ends_with(b.as_str(), "/v1") {
        push_str(&mut b, "/chat/completions");
    } else {
        push_str(&mut b, "/v1/chat/completions");
    }
    b
}

fn text(s: &str) -> (j: Json)
    ensures
        j matches Json::Str(t) && t@ == s@,
{
    Json::Str(to_owned(s))
}

fn member(k: &str, v: Json) -> (m: (String, Json))
    ensures
        m.0@ == k@,
        m.1 == v,
{
    (to_owned(k), v)
}

/// The summarizer's request: the model, the summarizer prompt as the
/// system message, the transcript as the user message, and a JSON-object
/// response format.
pub fn summary_request(cfg: &SummarizerConfig, transcript: &str) -> (j: Json)
    ensures
        request_shape(j, cfg.model@, transcript@),
{
    let system = Json::Object(
        vec![member("role", text("system")), member("content", text(SUMMARIZER_SYSTEM_PROMPT))],
    );
    let user = Json::Object(vec![member("role", text("user")), member("content", text(transcript))]);
    let format = Json::Object(vec![member("type", text("json_object"))]);
    let j = Json::Object(
        vec![
            member("model", Json::Str(to_owned(cfg.model.as_str()))),
            member("messages", Json::Array(vec![system, user])),
            member("response_format", format),
        ],
    );
    j
}

/// The message content of the first choice of a chat-completion reply.
pub fn extract_reply_content(reply: &Json) -> (r: Option<String>)
    ensures
        match reply_content(*reply) {
            Some(c) => r matches Some(s) && s@ == c,
            None => r is None,
        },
{
    match reply.get("choices") {
        Some(Json::Array(cs)) => {
            if cs.len() == 0 {
                return None;
            }
            match cs[0].get("message") {
                Some(m) => match m.get_str("content") {
                    Some(s) => Some(to_owned(s.as_str())),
                    None => None,
                },
                None => None,
            }
        },
        _ => None,
    }
}

} // verus!
