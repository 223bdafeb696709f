//! `prd_parse`: a keyword- and pattern-based PRD → Brief skeleton.
//!
//! The Interpreter role stays the source of truth; this seeds the other
//! roles' structured view quickly and needs no model.

use vstd::prelude::*;
use vstd::string::StringSliceAdditionalSpecFns;
use crate::patterns::{regex_capture_group, regex_captures};
use crate::text::{
    contains_string, has_sub, lower, lower_chars, pieces, split_trimmed, to_owned, trimmed_nonempty,
    vec_contains, chars_of, views,
};

verus! {

#[derive(Debug)]
pub struct PrdParseResult {
    pub platform: Option<String>,
    pub screens: Vec<String>,
    pub users: Vec<String>,
    pub success_signals: Vec<String>,
    pub raw_length: usize,
}

/// The JSON text of the `prd_parse` tool schema.
pub const PRD_PARSE_SCHEMA: &'static str = r#"{
  "type": "function",
  "function": {
    "name": "prd_parse",
    "description": "Heuristic PRD → Brief skeleton. Returns best-guess platform/screens/users/success_signals. Use as a seed; confirm with the user before handing to the Planner.",
    "parameters": {
      "type": "object",
      "required": ["prd"],
      "properties": {
        "prd": {"type": "string"}
      },
      "additionalProperties": false
    }
  }
}"#;

/// The `prd_parse` tool schema, as JSON text.
pub fn prd_parse_schema() -> (r: String)
    ensures
        r@ == PRD_PARSE_SCHEMA@,
{
    to_owned(PRD_PARSE_SCHEMA)
}

/// The pattern that finds user lists (`users: a, b` or `用户：甲、乙`).
pub const USERS_PATTERN: &'static str = r"(?i)(users?|用户)\s*[:：]\s*([^\n]{1,200})";

/// The pattern that finds success signals (`goal: …`, `KPI：…`).
pub const SUCCESS_PATTERN: &'static str = r"(?i)(success|goal|目标|成功指标|kpi)\s*[:：]\s*([^\n]{1,300})";

// ── specification ──────────────────────────────────────────────────────────

/// Platform keywords, most specific first, with the platform each names.
pub open spec fn platform_keywords() -> Seq<(Seq<char>, Seq<char>)> {
    seq![
        ("ios"@, "mobile-ios"@),
        ("android"@, "mobile-android"@),
        ("mobile"@, "mobile"@),
        ("desktop"@, "desktop"@),
        ("web"@, "web"@),
        ("小程序"@, "miniapp"@),
        ("手机"@, "mobile"@),
        ("移动端"@, "mobile"@),
        ("桌面"@, "desktop"@),
        ("网页"@, "web"@),
    ]
}

/// Screen keywords with the screen each names.
pub open spec fn screen_keywords() -> Seq<(Seq<char>, Seq<char>)> {
    seq![
        ("登录"@, "login"@),
        ("注册"@, "signup"@),
        ("首页"@, "home"@),
        ("设置"@, "settings"@),
        ("个人中心"@, "profile"@),
        ("详情"@, "detail"@),
        ("列表"@, "list"@),
        ("搜索"@, "search"@),
        ("结算"@, "checkout"@),
        ("支付"@, "payment"@),
        ("login"@, "login"@),
        ("signup"@, "signup"@),
        ("home"@, "home"@),
        ("dashboard"@, "dashboard"@),
        ("settings"@, "settings"@),
        ("profile"@, "profile"@),
        ("checkout"@, "checkout"@),
    ]
}

/// The platform of the first keyword, from position `k` on, that the
/// lower-cased text holds.
pub open spec fn platform_from(low: Seq<char>, k: nat) -> Option<Seq<char>>
    decreases platform_keywords().len() - k,
{
    if k >= platform_keywords().len() {
        None
    } else if has_sub(low, platform_keywords()[k as int].0) {
        Some(platform_keywords()[k as int].1)
    } else {
        platform_from(low, k + 1)
    }
}

/// The screens the first `n` keywords name, each once, in keyword order.
pub open spec fn screens_upto(low: Seq<char>, n: nat) -> Seq<Seq<char>>
    decreases n,
{
    if n == 0 || n > screen_keywords().len() {
        seq![]
    } else {
        let prev = screens_upto(low, (n - 1) as nat);
        let (kw, name) = screen_keywords()[n - 1];
        if has_sub(low, kw) && !prev.contains(name) {
            prev.push(name)
        } else {
            prev
        }
    }
}

/// The trimmed, non-empty pieces of every capture, in order.
pub open spec fn listed(caps: Seq<Seq<char>>, seps: Seq<char>) -> Seq<Seq<char>>
    decreases caps.len(),
{
    if caps.len() == 0 {
        seq![]
    } else {
        listed(caps.drop_last(), seps) + trimmed_nonempty(pieces(caps.last(), seps))
    }
}

pub open spec fn user_separators() -> Seq<char> {
    seq![',', '、', '/', ';']
}

pub open spec fn signal_separators() -> Seq<char> {
    seq![',', '、', ';']
}

// ── implementation ─────────────────────────────────────────────────────────

fn detect_platform(low: &Vec<char>) -> (r: Option<String>)
    ensures
        match platform_from(low@, 0) {
            Some(p) => r matches Some(s) && s@ == p,
            None => r is None,
        },
{
    let kws: Vec<(&str, &str)> = vec![
        ("ios", "mobile-ios"),
        ("android", "mobile-android"),
        ("mobile", "mobile"),
        ("desktop", "desktop"),
        ("web", "web"),
        ("小程序", "miniapp"),
        ("手机", "mobile"),
        ("移动端", "mobile"),
        ("桌面", "desktop"),
        ("网页", "web"),
    ];
    assert(kws@.map_values(|p: (&str, &str)| (p.0@, p.1@)) =~= platform_keywords());
    let mut i: usize = 0;
    while i < kws.len()
        invariant
            i <= kws@.len(),
            kws@.map_values(|p: (&str, &str)| (p.0@, p.1@)) == platform_keywords(),
            platform_from(low@, 0) == platform_from(low@, i as nat),
        decreases kws.len() - i,
    {
        assert(kws@.map_values(|p: (&str, &str)| (p.0@, p.1@))[i as int] == (kws@[i as int].0@, kws@[i as int].1@));
        let kw = chars_of(kws[i].0);
        if vec_contains(low, &kw) {
            return Some(to_owned(kws[i].1));
        }
        i = i + 1;
    }
    None
}

fn detect_screens(low: &Vec<char>) -> (r: Vec<String>)
    ensures
        views(r@) == screens_upto(low@, screen_keywords().len()),
{
    let kws: Vec<(&str, &str)> = vec![
        ("登录", "login"),
        ("注册", "signup"),
        ("首页", "home"),
        ("设置", "settings"),
        ("个人中心", "profile"),
        ("详情", "detail"),
        ("列表", "list"),
        ("搜索", "search"),
        ("结算", "checkout"),
        ("支付", "payment"),
        ("login", "login"),
        ("signup", "signup"),
        ("home", "home"),
        ("dashboard", "dashboard"),
        ("settings", "settings"),
        ("profile", "profile"),
        ("checkout", "checkout"),
    ];
    assert(kws@.map_values(|p: (&str, &str)| (p.0@, p.1@)) =~= screen_keywords());
    let mut out: Vec<String> = Vec::new();
    let mut i: usize = 0;
    while i < kws.len()
        invariant
            i <= kws@.len(),
            kws@.map_values(|p: (&str, &str)| (p.0@, p.1@)) == screen_keywords(),
            views(out@) == screens_upto(low@, i as nat),
        decreases kws.len() - i,
    {
        assert(kws@.map_values(|p: (&str, &str)| (p.0@, p.1@))[i as int] == (kws@[i as int].0@, kws@[i as int].1@));
        let kw = chars_of(kws[i].0);
        if vec_contains(low, &kw) && !contains_string(&out, kws[i].1) {
            let ghost o = out@;
            out.push(to_owned(kws[i].1));
            assert(views(out@) =~= views(o).push(kws[i as int].1@));
        }
        i = i + 1;
    }
    out
}

fn detect_listed(s: &str, pattern: &str, seps: Vec<char>) -> (r: Vec<String>)
    ensures
        views(r@) == listed(regex_captures(pattern@, s@, 2), seps@),
{
    let caps = regex_capture_group(pattern, s, 2);
    let ghost cs = regex_captures(pattern@, s@, 2);
    let mut out: Vec<String> = Vec::new();
    let mut i: usize = 0;
    while i < caps.len()
        invariant
            i <= caps@.len(),
            caps@.len() == cs.len(),
            forall|k: int| 0 <= k < caps@.len() ==> #[trigger] caps@[k]@ == cs[k],
            views(out@) == listed(cs.subrange(0, i as int), seps@),
        decreases caps.len() - i,
    {
        assert(cs.subrange(0, i + 1).drop_last() =~= cs.subrange(0, i as int));
        assert(cs.subrange(0, i + 1).last() == caps@[i as int]@);
        let parts = split_trimmed(caps[i].as_str(), &seps);
        let mut k: usize = 0;
        let ghost o = views(out@);
        while k < parts.len()
            invariant
                k <= parts@.len(),
                views(out@) == o + views(parts@).subrange(0, k as int),
            decreases parts.len() - k,
        {
            let ghost before = out@;
            out.push(to_owned(parts[k].as_str()));
            assert(views(out@) =~= views(before).push(parts@[k as int]@));
            assert(views(parts@).subrange(0, k + 1) =~= views(parts@).subrange(0, k as int).push(
                parts@[k as int]@,
            ));
            k = k + 1;
        }
        assert(views(parts@).subrange(0, parts@.len() as int) =~= views(parts@));
        i = i + 1;
    }
    assert(cs.subrange(0, cs.len() as int) =~= cs);
    out
}

/// The skeleton of a PRD: the platform of the first platform keyword the
/// (lower-cased) text holds; the screens whose keywords it holds, each
/// once; the users and success signals listed after `users:` / `goal:`
/// style labels, split at separators and trimmed; and the text's length in
/// bytes.
pub fn handle_prd_parse(prd: &str) -> (r: PrdParseResult)
    ensures
        match platform_from(lower(prd@), 0) {
            Some(p) => r.platform matches Some(s) && s@ == p,
            None => r.platform is None,
        },
        views(r.screens@) == screens_upto(lower(prd@), screen_keywords().len()),
        views(r.users@) == listed(regex_captures(USERS_PATTERN@, prd@, 2), user_separators()),
        views(r.success_signals@) == listed(
            regex_captures(SUCCESS_PATTERN@, prd@, 2),
            signal_separators(),
        ),
        r.raw_length == prd.spec_bytes().len() as usize,
{
    let low = lower_chars(prd);
    let platform = detect_platform(&low);
    let screens = detect_screens(&low);
    let users = detect_listed(prd, USERS_PATTERN, vec![',', '、', '/', ';']);
    let success_signals = detect_listed(prd, SUCCESS_PATTERN, vec![',', '、', ';']);
    PrdParseResult { platform, screens, users, success_signals, raw_length: prd.len() }
}

// ── the screens a PRD names ────────────────────────────────────────────────

proof fn lemma_screens_upto(low: Seq<char>, n: nat)
    requires
        n <= screen_keywords().len(),
    ensures
        screens_upto(low, n).no_duplicates(),
        forall|i: int|
            0 <= i < n && has_sub(low, (#[trigger] screen_keywords()[i]).0) ==> screens_upto(low, n).contains(
                screen_keywords()[i].1,
            ),
        forall|x: Seq<char>|
            #[trigger] screens_upto(low, n).contains(x) ==> exists|i: int|
                0 <= i < n && has_sub(low, (#[trigger] screen_keywords()[i]).0) && screen_keywords()[i].1 == x,
    decreases n,
{
    if n > 0 {
        let m = (n - 1) as nat;
        lemma_screens_upto(low, m);
        let prev = screens_upto(low, m);
        let (word, name) = screen_keywords()[m as int];
        let cur = screens_upto(low, n);
        if has_sub(low, word) && !prev.contains(name) {
            assert(cur == prev.push(name));
            assert forall|a: int, b: int| 0 <= a < cur.len() && 0 <= b < cur.len() && a != b implies cur[a]
                != cur[b] by {
                if a == cur.len() - 1 {
                    assert(prev[b] == cur[b]);
                } else if b == cur.len() - 1 {
                    assert(prev[a] == cur[a]);
                } else {
                    assert(prev[a] == cur[a] && prev[b] == cur[b]);
                }
            }
            assert forall|i: int|
                0 <= i < n && has_sub(low, (#[trigger] screen_keywords()[i]).0) implies cur.contains(
                    screen_keywords()[i].1,
                ) by {
                if i == m {
                    assert(cur[cur.len() - 1] == name);
                } else {
                    let k = choose|k: int| 0 <= k < prev.len() && prev[k] == screen_keywords()[i].1;
                    assert(cur[k] == prev[k]);
                }
            }
            assert forall|x: Seq<char>| #[trigger] cur.contains(x) implies exists|i: int|
                0 <= i < n && has_sub(low, (#[trigger] screen_keywords()[i]).0) && screen_keywords()[i].1 == x by {
                let k = choose|k: int| 0 <= k < cur.len() && cur[k] == x;
                if k == cur.len() - 1 {
                    assert(screen_keywords()[m as int].1 == x);
                } else {
                    assert(prev[k] == x);
                    assert(prev.contains(x));
                }
            }
        } else {
            assert(cur == prev);
            assert forall|i: int|
                0 <= i < n && has_sub(low, (#[trigger] screen_keywords()[i]).0) implies cur.contains(
                    screen_keywords()[i].1,
                ) by {
                if i == m {
                    assert(prev.contains(name));
                }
            }
        }
    }
}

/// The screens that `prd_parse` reports for a (lower-cased) text are each
/// named once, and they are exactly the names of the screen keywords that
/// the text holds.
pub proof fn law_screens_named_once(low: Seq<char>)
    ensures
        screens_upto(low, screen_keywords().len()).no_duplicates(),
        forall|i: int|
            0 <= i < screen_keywords().len() && has_sub(low, (#[trigger] screen_keywords()[i]).0)
                ==> screens_upto(low, screen_keywords().len()).contains(screen_keywords()[i].1),
        forall|x: Seq<char>|
            #[trigger] screens_upto(low, screen_keywords().len()).contains(x) ==> exists|i: int|
                0 <= i < screen_keywords().len() && has_sub(low, (#[trigger] screen_keywords()[i]).0)
                    && screen_keywords()[i].1 == x,
{
    lemma_screens_upto(low, screen_keywords().len());
}

} // verus!
