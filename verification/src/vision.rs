//! `image_understand`: the vision-model client used as a tool by the
//! Planner, Critic and Extractor roles.
//!
//! The only supported shape is an OpenAI-compatible `chat/completions`
//! request with one multimodal user message. An image is passed either as
//! an http(s) URL or as a local file, sent inline as a base64 `data:` URL.
//! This module decides everything about the request and the reply;
//! reading files and sending the request are the caller's part.

use vstd::prelude::*;
use crate::json::{json_quoted, push_json_string, Json};
use crate::summarizer::{extract_reply_content, reply_content};
use crate::text::{
    chars_of, keyed, lower, push_str, str_eq, string_from_range, to_ascii_lowercase, to_owned,
    trim_end_char, trim_end_char_at,
};

verus! {

/// Why an image could not be understood.
#[derive(Debug)]
pub enum VlError {
    /// Reading the image failed (the reader's message).
    Io(String),
    /// The request failed.
    Http(String),
    /// The reply could not be decoded.
    Decode(String),
    /// The reply held no content.
    Empty,
    /// The image's file has no recognised extension.
    UnknownMime(String),
}

/// Provider settings for the vision model.
#[derive(Debug)]
pub struct VlConfig {
    pub api_key: String,
    pub base_url: String,
    pub model: String,
    pub timeout_secs: u64,
}

/// The vision-model client.
#[derive(Debug)]
pub struct VlClient {
    pub cfg: VlConfig,
}

/// How an image is referenced in a request.
#[derive(Debug, Clone, Copy)]
pub enum ImageRef<'a> {
    /// A file on disk, sent inline.
    LocalPath(&'a str),
    /// An http(s) URL, sent as is.
    Url(&'a str),
}

// ── the `base64` crate ─────────────────────────────────────────────────────

/// The standard base64 alphabet: the character of each six-bit value.
pub open spec fn base64_alphabet() -> Seq<char> {
    "ABCDEFGHIJKLMNOPQRSTUVWXYZabcdefghijklmnopqrstuvwxyz0123456789+/"@
}

/// Bytes in padded standard base64: every three bytes give four
/// characters, six bits each, high bits first; a last group of one or two
/// bytes gives two or three characters (its missing bits zero), then `=`
/// up to four.
pub open spec fn base64_standard(b: Seq<u8>) -> Seq<char>
    decreases b.len(),
{
    let a = base64_alphabet();
    let x = b[0] as int;
    let y = b[1] as int;
    let z = b[2] as int;
    if b.len() == 0 {
        seq![]
    } else if b.len() == 1 {
        seq![a[x / 4], a[(x % 4) * 16], '=', '=']
    } else if b.len() == 2 {
        seq![a[x / 4], a[(x % 4) * 16 + y / 16], a[(y % 16) * 4], '=']
    } else {
        seq![a[x / 4], a[(x % 4) * 16 + y / 16], a[(y % 16) * 4 + z / 64], a[z % 64]]
            + base64_standard(b.subrange(3, b.len() as int))
    }
}

/// Four characters for every started group of three bytes.
proof fn lemma_base64_len(b: Seq<u8>)
    ensures
        base64_standard(b).len() == 4 * ((b.len() + 2) / 3),
    decreases b.len(),
{
    if b.len() >= 3 {
        lemma_base64_len(b.subrange(3, b.len() as int));
    }
}

/// Encodes bytes with `base64::engine::general_purpose::STANDARD`
/// (`Engine::encode`): padded base64 over the standard alphabet, as
/// `base64_standard` states it. The bound keeps the length computation,
/// which panics on overflow, in range.
#[verifier::external_body]
pub(crate) fn base64_encode(bytes: &Vec<u8>) -> (r: String)
    requires
        bytes@.len() <= usize::MAX / 2,
    ensures
        r@ == base64_standard(bytes@),
{
    base64::Engine::encode(&base64::engine::general_purpose::STANDARD, bytes)
}

// ── specification ──────────────────────────────────────────────────────────

/// The value of the first of `keys` that the environment sets to a
/// non-empty text.
pub open spec fn first_env(env: Seq<(String, String)>, keys: Seq<Seq<char>>) -> Option<Seq<char>>
    decreases keys.len(),
{
    if keys.len() == 0 {
        None
    } else {
        match keyed(env, keys[0]) {
            Some(v) if v@.len() > 0 => Some(v@),
            _ => first_env(env, keys.drop_first()),
        }
    }
}

/// The position of the last `c` in `s`, or -1.
pub open spec fn last_index(s: Seq<char>, c: char) -> int
    decreases s.len(),
{
    if s.len() == 0 {
        -1
    } else if s.last() == c {
        s.len() - 1
    } else {
        last_index(s.drop_last(), c)
    }
}

/// The file name of a path, as `Path::file_name` gives it: the last
/// component, trailing `/` and `.` components skipped; none when the path
/// ends in `..` or has no such component.
pub open spec fn file_name(p: Seq<char>) -> Option<Seq<char>>
    decreases p.len(),
{
    let t = trim_end_char(p, '/');
    if t.len() == 0 {
        None
    } else {
        let k = last_index(t, '/');
        let seg = t.subrange(k + 1, t.len() as int);
        if seg == "."@ {
            if k < 0 {
                None
            } else {
                proof {
                    lemma_trim_end_shorter(p, '/');
                    lemma_last_index_range(t, '/');
                    reveal_strlit(".");
                    assert(seg.len() == 1);
                }
                file_name(t.subrange(0, k + 1))
            }
        } else if seg == ".."@ {
            None
        } else {
            Some(seg)
        }
    }
}

/// The extension of a file name: what follows its last `.`, unless that
/// `.` is its first character.
pub open spec fn extension_of(name: Seq<char>) -> Option<Seq<char>> {
    let k = last_index(name, '.');
    if k <= 0 {
        None
    } else {
        Some(name.subrange(k + 1, name.len() as int))
    }
}

/// The MIME type a lower-cased extension names.
pub open spec fn mime_of_extension(ext: Seq<char>) -> Option<Seq<char>> {
    if ext == "png"@ {
        Some("image/png"@)
    } else if ext == "jpg"@ || ext == "jpeg"@ {
        Some("image/jpeg"@)
    } else if ext == "webp"@ {
        Some("image/webp"@)
    } else if ext == "gif"@ {
        Some("image/gif"@)
    } else {
        None
    }
}

/// The MIME type of an image path, by its extension (any case).
pub open spec fn mime_of_path(p: Seq<char>) -> Option<Seq<char>> {
    match file_name(p) {
        Some(n) => match extension_of(n) {
            Some(e) => mime_of_extension(lower(e)),
            None => None,
        },
        None => None,
    }
}

/// An inline `data:` URL holding bytes encoded as base64.
pub open spec fn data_url(mime: Seq<char>, bytes: Seq<u8>) -> Seq<char> {
    "data:"@ + mime + ";base64,"@ + base64_standard(bytes)
}

/// The vision request: the model, and one user message holding the
/// prompt text and the image URL.
pub open spec fn vision_request_text(model: Seq<char>, prompt: Seq<char>, image_url: Seq<char>) -> Seq<char> {
    "{\"model\": "@ + json_quoted(model)
        + ", \"messages\": [{\"role\": \"user\", \"content\": [{\"type\": \"text\", \"text\": "@
        + json_quoted(prompt)
        + "}, {\"type\": \"image_url\", \"image_url\": {\"url\": "@ + json_quoted(image_url)
        + "}}]}]}"@
}

// ── implementation ─────────────────────────────────────────────────────────

fn lookup_env(env: &Vec<(String, String)>, keys: &Vec<&str>) -> (r: Option<String>)
    ensures
        match first_env(env@, keys@.map_values(|k: &str| k@)) {
            Some(v) => r matches Some(s) && s@ == v,
            None => r is None,
        },
{
    let ghost ks = keys@.map_values(|k: &str| k@);
    let mut i: usize = 0;
    assert(ks.skip(0) =~= ks);
    while i < keys.len()
        invariant
            i <= keys@.len(),
            ks == keys@.map_values(|k: &str| k@),
            first_env(env@, ks) == first_env(env@, ks.skip(i as int)),
        decreases keys.len() - i,
    {
        let ghost rest = ks.skip(i as int);
        assert(rest[0] == keys@[i as int]@);
        assert(rest.drop_first() =~= ks.skip(i + 1));
        match crate::text::find_keyed(env, keys[i]) {
            Some(v) => {
                if !v.as_str().is_empty() {
                    return Some(v.clone());
                }
            },
            None => {},
        }
        i = i + 1;
    }
    None
}

impl VlConfig {
    /// Settings from the environment (`env` holds its variables as
    /// name/value pairs): the key from `CODEDESIGN_VL_API_KEY`, else
    /// `CODEDESIGN_DEEPSEEK_API_KEY` (none without a key); the base URL
    /// from `CODEDESIGN_VL_BASE_URL`, else `CODEDESIGN_DEEPSEEK_BASE_URL`,
    /// else `https://api.deepseek.com`; the model from
    /// `CODEDESIGN_VL_MODEL`, else `deepseek-vl2`; a 120 s timeout. Empty
    /// values count as unset.
    pub fn from_env(env: &Vec<(String, String)>) -> (r: Option<VlConfig>)
        ensures
            match first_env(env@, seq!["CODEDESIGN_VL_API_KEY"@, "CODEDESIGN_DEEPSEEK_API_KEY"@]) {
                None => r is None,
                Some(key) => r matches Some(c) && c.api_key@ == key && c.base_url@ == (
                match first_env(env@, seq!["CODEDESIGN_VL_BASE_URL"@, "CODEDESIGN_DEEPSEEK_BASE_URL"@]) {
                    Some(b) => b,
                    None => "https://api.deepseek.com"@,
                }) && c.model@ == (match first_env(env@, seq!["CODEDESIGN_VL_MODEL"@]) {
                    Some(m) => m,
                    None => "deepseek-vl2"@,
                }) && c.timeout_secs == 120,
            },
    {
        let key_names = vec!["CODEDESIGN_VL_API_KEY", "CODEDESIGN_DEEPSEEK_API_KEY"];
        assert(key_names@.map_values(|k: &str| k@) =~= seq!["CODEDESIGN_VL_API_KEY"@, "CODEDESIGN_DEEPSEEK_API_KEY"@]);
        let api_key = match lookup_env(env, &key_names) {
            Some(k) => k,
            None => {
                return None;
            },
        };
        let base_names = vec!["CODEDESIGN_VL_BASE_URL", "CODEDESIGN_DEEPSEEK_BASE_URL"];
        assert(base_names@.map_values(|k: &str| k@) =~= seq!["CODEDESIGN_VL_BASE_URL"@, "CODEDESIGN_DEEPSEEK_BASE_URL"@]);
        let base_url = match lookup_env(env, &base_names) {
            Some(b) => b,
            None => to_owned("https://api.deepseek.com"),
        };
        let model_names = vec!["CODEDESIGN_VL_MODEL"];
        assert(model_names@.map_values(|k: &str| k@) =~= seq!["CODEDESIGN_VL_MODEL"@]);
        let model = match lookup_env(env, &model_names) {
            Some(m) => m,
            None => to_owned("deepseek-vl2"),
        };
        Some(VlConfig { api_key, base_url, model, timeout_secs: 120 })
    }
}

fn last_index_in(v: &Vec<char>, hi: usize, c: char) -> (r: Option<usize>)
    requires
        hi <= v.len(),
    ensures
        match r {
            Some(k) => k < hi && k as int == last_index(v@.subrange(0, hi as int), c),
            None => last_index(v@.subrange(0, hi as int), c) == -1,
        },
    decreases hi,
{
    if hi == 0 {
        return None;
    }
    assert(v@.subrange(0, hi as int).drop_last() =~= v@.subrange(0, hi - 1));
    if v[hi - 1] == c {
        Some(hi - 1)
    } else {
        last_index_in(v, hi - 1, c)
    }
}

pub proof fn lemma_trim_end_shorter(s: Seq<char>, c: char)
    ensures
        trim_end_char(s, c).len() <= s.len(),
    decreases s.len(),
{
    if s.len() > 0 && s.last() == c {
        lemma_trim_end_shorter(s.drop_last(), c);
    }
}

pub proof fn lemma_last_index_range(s: Seq<char>, c: char)
    ensures
        -1 <= last_index(s, c) < s.len(),
        last_index(s, c) >= 0 ==> s[last_index(s, c)] == c,
    decreases s.len(),
{
    if s.len() > 0 && s.last() != c {
        lemma_last_index_range(s.drop_last(), c);
    }
}

/// The file name of a path, by the rules of `Path::file_name`.
fn file_name_of(v: &Vec<char>, hi: usize) -> (r: Option<(usize, usize)>)
    requires
        hi <= v.len(),
    ensures
        match file_name(v@.subrange(0, hi as int)) {
            Some(n) => r matches Some((a, b)) && a <= b <= v.len() && v@.subrange(a as int, b as int) == n,
            None => r is None,
        },
    decreases hi,
{
    let t_end = trim_end_char_at(v, hi, '/');
    proof {
        assert(v@.subrange(0, hi as int).subrange(0, t_end as int) =~= v@.subrange(0, t_end as int));
    }
    let ghost p = v@.subrange(0, hi as int);
    let ghost t = v@.subrange(0, t_end as int);
    if t_end == 0 {
        return None;
    }
    let k = last_index_in(v, t_end, '/');
    let start = match k {
        Some(k) => k + 1,
        None => 0,
    };
    proof {
        lemma_last_index_range(t, '/');
        assert(t.subrange(last_index(t, '/') + 1, t.len() as int) =~= v@.subrange(start as int, t_end as int));
        reveal_strlit(".");
        reveal_strlit("..");
    }
    let seg_len = t_end - start;
    if seg_len == 1 && v[start] == '.' {
        assert(v@.subrange(start as int, t_end as int) =~= "."@);
        match k {
            None => None,
            Some(k) => {
                assert(t.subrange(0, k + 1) =~= v@.subrange(0, k + 1));
                file_name_of(v, k + 1)
            },
        }
    } else if seg_len == 2 && v[start] == '.' && v[start + 1] == '.' {
        assert(v@.subrange(start as int, t_end as int) =~= ".."@);
        None
    } else {
        proof {
            if v@.subrange(start as int, t_end as int) == "."@ {
                assert(v@.subrange(start as int, t_end as int)[0] == '.');
            }
            if v@.subrange(start as int, t_end as int) == ".."@ {
                assert(v@.subrange(start as int, t_end as int)[0] == '.');
                assert(v@.subrange(start as int, t_end as int)[1] == '.');
            }
        }
        Some((start, t_end))
    }
}

/// The MIME type of an image path, by its extension in any case: png,
/// jpg/jpeg, webp or gif.
pub fn mime_for(path: &str) -> (r: Option<&'static str>)
    ensures
        match mime_of_path(path@) {
            Some(m) => r matches Some(s) && s@ == m,
            None => r is None,
        },
{
    let v = chars_of(path);
    assert(v@.subrange(0, v@.len() as int) =~= path@);
    let (a, b) = match file_name_of(&v, v.len()) {
        Some(ab) => ab,
        None => {
            return None;
        },
    };
    let name = string_from_range(&v, a, b);
    let nv = chars_of(name.as_str());
    assert(nv@.subrange(0, nv@.len() as int) =~= nv@);
    let dot = match last_index_in(&nv, nv.len(), '.') {
        Some(d) => d,
        None => {
            return None;
        },
    };
    if dot == 0 {
        return None;
    }
    let ext = string_from_range(&nv, dot + 1, nv.len());
    let e = to_ascii_lowercase(ext.as_str());
    let es = e.as_str();
    if str_eq(es, "png") {
        Some("image/png")
    } else if str_eq(es, "jpg") || str_eq(es, "jpeg") {
        Some("image/jpeg")
    } else if str_eq(es, "webp") {
        Some("image/webp")
    } else if str_eq(es, "gif") {
        Some("image/gif")
    } else {
        None
    }
}

/// An inline `data:` URL for an image's bytes: `data:<mime>;base64,<…>`.
pub fn image_data_url(mime: &str, bytes: &Vec<u8>) -> (r: String)
    requires
        bytes@.len() <= usize::MAX / 2,
    ensures
        r@ == data_url(mime@, bytes@),
        r@.len() == 13 + mime@.len() + 4 * ((bytes@.len() + 2) / 3),
{
    proof {
        reveal_strlit("data:");
        reveal_strlit(";base64,");
        lemma_base64_len(bytes@);
    }
    let mut r = to_owned("data:");
    push_str(&mut r, mime);
    push_str(&mut r, ";base64,");
    let b = base64_encode(bytes);
    push_str(&mut r, b.as_str());
    r
}

impl<'a> ImageRef<'a> {
    /// The URL to send as is, for a remote image; none for a local file,
    /// which is sent inline.
    pub fn remote_url(&self) -> (r: Option<&'a str>)
        ensures
            match *self {
                ImageRef::Url(u) => r == Some(u),
                ImageRef::LocalPath(_) => r is None,
            },
    {
        match self {
            ImageRef::Url(u) => Some(u),
            ImageRef::LocalPath(_) => None,
        }
    }
}

impl VlClient {
    pub fn new(cfg: VlConfig) -> (c: VlClient)
        ensures
            c.cfg == cfg,
    {
        VlClient { cfg }
    }

    /// The endpoint: the base URL less its trailing slashes, then
    /// `/v1/chat/completions`.
    pub fn endpoint(&self) -> (r: String)
        ensures
            r@ == trim_end_char(self.cfg.base_url@, '/') + "/v1/chat/completions"@,
    {
        let v = chars_of(self.cfg.base_url.as_str());
        let hi = trim_end_char_at(&v, v.len(), '/');
        assert(v@.subrange(0, v@.len() as int) =~= self.cfg.base_url@);
        let mut r = string_from_range(&v, 0, hi);
        push_str(&mut r, "/v1/chat/completions");
        r
    }

    /// The request body, as JSON text.
    pub fn request_body(&self, prompt: &str, image_url: &str) -> (r: String)
        ensures
            r@ == vision_request_text(self.cfg.model@, prompt@, image_url@),
    {
        let mut r = to_owned("{\"model\": ");
        push_json_string(&mut r, self.cfg.model.as_str());
        push_str(
            &mut r,
            ", \"messages\": [{\"role\": \"user\", \"content\": [{\"type\": \"text\", \"text\": ",
        );
        push_json_string(&mut r, prompt);
        push_str(&mut r, "}, {\"type\": \"image_url\", \"image_url\": {\"url\": ");
        push_json_string(&mut r, image_url);
        push_str(&mut r, "}}]}]}");
        r
    }

    /// The model's answer in a reply: the first choice's message content,
    /// or `Empty` when there is none.
    pub fn read_reply(reply: &Json) -> (r: Result<String, VlError>)
        ensures
            match reply_content(*reply) {
                Some(c) => r matches Ok(s) && s@ == c,
                None => r matches Err(VlError::Empty),
            },
    {
        match extract_reply_content(reply) {
            Some(s) => Ok(s),
            None => Err(VlError::Empty),
        }
    }
}

} // verus!
