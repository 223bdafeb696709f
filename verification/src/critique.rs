//! Deterministic anti-slop lint over a Figma readback document.
//!
//! The readback is walked recursively and every rule is applied to the
//! well-known keys of each node. Findings come out in a stable order:
//! traversal order × rule order within a node. No rule calls a model.

use vstd::prelude::*;
use crate::json::{array_of, channel, channel_of, get, get_str, is_below_zero, member, str_of, Decimal, Json};
use crate::patterns::{regex_accepts, regex_finds, regex_is_match};
use crate::rules::AntiSlopRules;
use crate::text::{
    chars_of, dec, eq_ignore_ascii_case, has_sub, hex2, lower, push_char, push_dec, push_hex2,
    push_str, str_contains, str_eq, string_from_range, to_owned, trim, trim_bounds,
};

verus! {

/// Name of the component this module stands for.
pub const CRATE_NAME: &'static str = "cd-critique";

#[derive(Debug, Clone, Copy, PartialEq, Eq, Structural)]
pub enum Severity {
    Error,
    Warn,
    Info,
}

#[derive(Debug)]
pub struct Finding {
    pub severity: Severity,
    pub id: String,
    pub message: String,
    pub fix: String,
    /// Short JSON-path breadcrumb into the readback, e.g.
    /// `"pages[0].children[2].fills[0].color"`.
    pub path: String,
    /// Offending substring / rendered value, trimmed to 120 characters.
    pub snippet: String,
}

/// A finding's contents as texts.
pub struct FindingView {
    pub severity: Severity,
    pub id: Seq<char>,
    pub message: Seq<char>,
    pub fix: Seq<char>,
    pub path: Seq<char>,
    pub snippet: Seq<char>,
}

impl View for Finding {
    type V = FindingView;

    open spec fn view(&self) -> FindingView {
        FindingView {
            severity: self.severity,
            id: self.id@,
            message: self.message@,
            fix: self.fix@,
            path: self.path@,
            snippet: self.snippet@,
        }
    }
}

/// The views of a list of findings.
pub open spec fn views(fs: Seq<Finding>) -> Seq<FindingView> {
    fs.map_values(|f: Finding| f@)
}

// ── specification ──────────────────────────────────────────────────────────

/// The text trimmed, cut to 117 characters plus `...` when longer than 120.
pub open spec fn snippet_of(s: Seq<char>) -> Seq<char> {
    let t = trim(s);
    if t.len() <= 120 {
        t
    } else {
        t.subrange(0, 117) + "..."@
    }
}

pub open spec fn child_path(base: Seq<char>, key: Seq<char>) -> Seq<char> {
    if base.len() == 0 {
        key
    } else {
        base + "."@ + key
    }
}

pub open spec fn index_path(base: Seq<char>, i: nat) -> Seq<char> {
    base + "["@ + dec(i) + "]"@
}

pub open spec fn finding(
    severity: Severity,
    id: Seq<char>,
    message: Seq<char>,
    fix: Seq<char>,
    path: Seq<char>,
    snippet: Seq<char>,
) -> FindingView {
    FindingView { severity, id, message, fix, path, snippet }
}

/// One `SLOP-EMOJI-001` finding per banned emoji contained in functional
/// text, in rule order.
pub open spec fn text_emoji_after(
    acc: Seq<FindingView>,
    text: Seq<char>,
    path: Seq<char>,
    emos: Seq<String>,
) -> Seq<FindingView>
    decreases emos.len(),
{
    if emos.len() == 0 {
        acc
    } else {
        let prev = text_emoji_after(acc, text, path, emos.drop_last());
        let e = emos.last()@;
        if has_sub(text, e) {
            prev.push(
                finding(
                    Severity::Error,
                    "SLOP-EMOJI-001"@,
                    "emoji `"@ + e + "` used in functional text"@,
                    "remove the emoji; rely on icon tokens + text"@,
                    path,
                    snippet_of(text),
                ),
            )
        } else {
            prev
        }
    }
}

/// Some pattern of the list compiles and matches the text.
pub open spec fn any_pattern_finds(pats: Seq<String>, text: Seq<char>) -> bool {
    exists|i: int| 0 <= i < pats.len() && regex_accepts(pats[i]@) && regex_finds(pats[i]@, text)
}

/// All findings for a node's `characters`.
pub open spec fn text_after(
    acc: Seq<FindingView>,
    text: Seq<char>,
    path: Seq<char>,
    rules: AntiSlopRules,
) -> Seq<FindingView> {
    let a = text_emoji_after(acc, text, path, rules.banned_emoji@);
    let b = if any_pattern_finds(rules.placeholder_regex@, text) {
        a.push(
            finding(
                Severity::Error,
                "SLOP-PLACEHOLDER-001"@,
                "placeholder / lorem / feature-numbering detected"@,
                "replace with domain-specific copy written in the DS voice"@,
                path,
                snippet_of(text),
            ),
        )
    } else {
        a
    };
    if any_pattern_finds(rules.fabricated_metric_regex@, text) {
        b.push(
            finding(
                Severity::Warn,
                "SLOP-METRIC-001"@,
                "fabricated metric / bold claim detected"@,
                "remove the claim or cite a source in the readback"@,
                path,
                snippet_of(text),
            ),
        )
    } else {
        b
    }
}

/// One `SLOP-EMOJI-002` finding per banned emoji contained in a node name.
pub open spec fn name_after(
    acc: Seq<FindingView>,
    name: Seq<char>,
    path: Seq<char>,
    emos: Seq<String>,
) -> Seq<FindingView>
    decreases emos.len(),
{
    if emos.len() == 0 {
        acc
    } else {
        let prev = name_after(acc, name, path, emos.drop_last());
        let e = emos.last()@;
        if has_sub(name, e) {
            prev.push(
                finding(
                    Severity::Warn,
                    "SLOP-EMOJI-002"@,
                    "emoji `"@ + e + "` in node name"@,
                    "rename the node with a semantic label"@,
                    path,
                    snippet_of(name),
                ),
            )
        } else {
            prev
        }
    }
}

/// A banned display font, compared without regard to ASCII case.
pub open spec fn font_banned(family: Seq<char>, banned: Seq<String>) -> bool {
    exists|i: int| 0 <= i < banned.len() && lower(banned[i]@) == lower(family)
}

pub open spec fn font_after(
    acc: Seq<FindingView>,
    family: Seq<char>,
    path: Seq<char>,
    banned: Seq<String>,
) -> Seq<FindingView> {
    if font_banned(family, banned) {
        acc.push(
            finding(
                Severity::Warn,
                "SLOP-FONT-001"@,
                "generic/system font `"@ + family + "` used for display"@,
                "use a DS-declared display font (e.g. Inter Display)"@,
                path,
                family,
            ),
        )
    } else {
        acc
    }
}

/// The number inside a JSON number.
pub open spec fn number_of(j: Option<Json>) -> Option<Decimal> {
    match j {
        Some(Json::Number(d)) => Some(d),
        _ => None,
    }
}

/// The RGB channels of a solid fill that the colour rule inspects: the fill
/// is an object of `type` `"SOLID"` whose `color` object has numeric `r`,
/// `g`, `b`, none of them below zero.
pub open spec fn solid_rgb(fill: Json) -> Option<(Decimal, Decimal, Decimal)> {
    if !(fill is Object) || get_str(fill, "type"@) != Some("SOLID"@) {
        None
    } else {
        match get(fill, "color"@) {
            Some(color) => if !(color is Object) {
                None
            } else {
                match (
                    number_of(get(color, "r"@)),
                    number_of(get(color, "g"@)),
                    number_of(get(color, "b"@)),
                ) {
                    (Some(r), Some(g), Some(b)) => if is_below_zero(r) || is_below_zero(g)
                        || is_below_zero(b) {
                        None
                    } else {
                        Some((r, g, b))
                    },
                    _ => None,
                }
            },
            None => None,
        }
    }
}

/// `#rrggbb` of three channels.
pub open spec fn hex_color(r: Decimal, g: Decimal, b: Decimal) -> Seq<char> {
    seq!['#'] + hex2(channel(r)) + hex2(channel(g)) + hex2(channel(b))
}

pub open spec fn hex_banned(hex: Seq<char>, banned: Seq<String>) -> bool {
    exists|i: int| 0 <= i < banned.len() && lower(banned[i]@) == lower(hex)
}

/// One `SLOP-HEX-001` finding per solid fill whose colour is banned.
pub open spec fn fills_list_after(
    acc: Seq<FindingView>,
    fills: Seq<Json>,
    path: Seq<char>,
    banned: Seq<String>,
) -> Seq<FindingView>
    decreases fills.len(),
{
    if fills.len() == 0 {
        acc
    } else {
        let prev = fills_list_after(acc, fills.drop_last(), path, banned);
        match solid_rgb(fills.last()) {
            Some((r, g, b)) => {
                let hex = hex_color(r, g, b);
                if hex_banned(hex, banned) {
                    prev.push(
                        finding(
                            Severity::Error,
                            "SLOP-HEX-001"@,
                            "banned AI-purple hex `"@ + hex + "` in fill"@,
                            "bind to a DS colour token (brand.primary / state.*)"@,
                            path + "["@ + dec((fills.len() - 1) as nat) + "].color"@,
                            hex,
                        ),
                    )
                } else {
                    prev
                }
            },
            None => prev,
        }
    }
}

pub open spec fn fills_after(
    acc: Seq<FindingView>,
    fills: Json,
    path: Seq<char>,
    banned: Seq<String>,
) -> Seq<FindingView> {
    match fills {
        Json::Array(v) => fills_list_after(acc, v@, path, banned),
        _ => acc,
    }
}

/// The keys a node's own rules inspect; traversal does not descend into
/// them.
pub open spec fn inspected_key(k: Seq<char>) -> bool {
    k == "characters"@ || k == "fills"@ || k == "fontName"@ || k == "name"@
}

/// Findings of the rules that look at one node's own keys.
pub open spec fn own_after(acc: Seq<FindingView>, v: Json, path: Seq<char>, rules: AntiSlopRules) -> Seq<
    FindingView,
> {
    let a = match get_str(v, "characters"@) {
        Some(t) => text_after(acc, t, child_path(path, "characters"@), rules),
        None => acc,
    };
    let b = match get_str(v, "name"@) {
        Some(n) => name_after(a, n, child_path(path, "name"@), rules.banned_emoji@),
        None => a,
    };
    let c = match get(v, "fills"@) {
        Some(f) => fills_after(b, f, child_path(path, "fills"@), rules.banned_hex@),
        None => b,
    };
    match get(v, "fontName"@) {
        Some(Json::Object(fe)) => match str_of(member(fe@, "family"@)) {
            Some(fam) => font_after(
                c,
                fam,
                child_path(path, "fontName.family"@),
                rules.banned_display_fonts@,
            ),
            None => c,
        },
        _ => c,
    }
}

/// Findings for a value and everything below it.
pub open spec fn walk_after(acc: Seq<FindingView>, v: Json, path: Seq<char>, rules: AntiSlopRules) -> Seq<
    FindingView,
>
    decreases v,
{
    match v {
        Json::Object(entries) => members_after(own_after(acc, v, path, rules), entries@, path, rules),
        Json::Array(items) => items_after(acc, items@, path, rules),
        _ => acc,
    }
}

/// Findings below the members of an object, in member order, skipping the
/// inspected keys.
pub open spec fn members_after(
    acc: Seq<FindingView>,
    entries: Seq<(String, Json)>,
    path: Seq<char>,
    rules: AntiSlopRules,
) -> Seq<FindingView>
    decreases entries,
{
    if entries.len() == 0 {
        acc
    } else {
        let prev = members_after(acc, entries.drop_last(), path, rules);
        let k = entries.last().0@;
        if inspected_key(k) {
            prev
        } else {
            walk_after(prev, entries.last().1, child_path(path, k), rules)
        }
    }
}

/// Findings below the items of an array, in order.
pub open spec fn items_after(
    acc: Seq<FindingView>,
    items: Seq<Json>,
    path: Seq<char>,
    rules: AntiSlopRules,
) -> Seq<FindingView>
    decreases items,
{
    if items.len() == 0 {
        acc
    } else {
        walk_after(
            items_after(acc, items.drop_last(), path, rules),
            items.last(),
            index_path(path, (items.len() - 1) as nat),
            rules,
        )
    }
}

/// Everything the lint reports for a readback.
pub open spec fn lint_findings(readback: Json, rules: AntiSlopRules) -> Seq<FindingView> {
    walk_after(seq![], readback, seq![], rules)
}

// ── executable lint ────────────────────────────────────────────────────────

fn push_finding(out: &mut Vec<Finding>, f: Finding)
    ensures
        views(final(out)@) == views(old(out)@).push(f@),
{
    let ghost before = out@;
    out.push(f);
    assert(views(out@) =~= views(before).push(f@));
}

fn new_finding(
    severity: Severity,
    id: &str,
    message: String,
    fix: &str,
    path: &str,
    snippet: String,
) -> (f: Finding)
    ensures
        f@ == finding(severity, id@, message@, fix@, path@, snippet@),
{
    Finding {
        severity,
        id: to_owned(id),
        message,
        fix: to_owned(fix),
        path: to_owned(path),
        snippet,
    }
}

/// `head` + `x` + `tail`.
fn sandwich(head: &str, x: &str, tail: &str) -> (r: String)
    ensures
        r@ == head@ + x@ + tail@,
{
    let mut r = String::new();
    push_str(&mut r, head);
    push_str(&mut r, x);
    push_str(&mut r, tail);
    assert(r@ =~= head@ + x@ + tail@);
    r
}

/// Trimmed text, cut to 120 characters (117 plus `...`).
pub fn snippet(s: &str) -> (r: String)
    ensures
        r@ == snippet_of(s@),
{
    let v = chars_of(s);
    let (lo, hi) = trim_bounds(&v);
    if hi - lo <= 120 {
        string_from_range(&v, lo, hi)
    } else {
        let mut r = string_from_range(&v, lo, lo + 117);
        push_str(&mut r, "...");
        assert(v@.subrange(lo as int, hi as int).subrange(0, 117) =~= v@.subrange(
            lo as int,
            lo + 117,
        ));
        r
    }
}

pub fn child_path_of(base: &str, key: &str) -> (r: String)
    ensures
        r@ == child_path(base@, key@),
{
    if base.is_empty() {
        to_owned(key)
    } else {
        let mut r = String::new();
        push_str(&mut r, base);
        push_str(&mut r, ".");
        push_str(&mut r, key);
        r
    }
}

pub fn index_path_of(base: &str, i: usize) -> (r: String)
    ensures
        r@ == index_path(base@, i as nat),
{
    let mut r = String::new();
    push_str(&mut r, base);
    push_str(&mut r, "[");
    push_dec(&mut r, i as u64);
    push_str(&mut r, "]");
    r
}

/// Some pattern of the list compiles and matches the text.
fn any_pattern_matches(pats: &Vec<String>, text: &str) -> (b: bool)
    ensures
        b == any_pattern_finds(pats@, text@),
{
    let mut i: usize = 0;
    while i < pats.len()
        invariant
            i <= pats@.len(),
            forall|j: int|
                0 <= j < i ==> !(regex_accepts(pats@[j]@) && regex_finds(pats@[j]@, text@)),
        decreases pats.len() - i,
    {
        if regex_is_match(pats[i].as_str(), text) {
            return true;
        }
        i = i + 1;
    }
    false
}

fn check_text_emoji(text: &str, path: &str, emos: &Vec<String>, out: &mut Vec<Finding>)
    ensures
        views(final(out)@) == text_emoji_after(views(old(out)@), text@, path@, emos@),
{
    let ghost start = views(out@);
    let mut i: usize = 0;
    while i < emos.len()
        invariant
            i <= emos@.len(),
            views(out@) == text_emoji_after(start, text@, path@, emos@.subrange(0, i as int)),
        decreases emos.len() - i,
    {
        let e = emos[i].as_str();
        let ghost pre = emos@.subrange(0, i + 1);
        assert(pre.drop_last() =~= emos@.subrange(0, i as int));
        if str_contains(text, e) {
            let f = new_finding(
                Severity::Error,
                "SLOP-EMOJI-001",
                sandwich("emoji `", e, "` used in functional text"),
                "remove the emoji; rely on icon tokens + text",
                path,
                snippet(text),
            );
            push_finding(out, f);
        }
        i = i + 1;
    }
    assert(emos@.subrange(0, emos@.len() as int) =~= emos@);
}

fn check_text(text: &str, path: &str, rules: &AntiSlopRules, out: &mut Vec<Finding>)
    ensures
        views(final(out)@) == text_after(views(old(out)@), text@, path@, *rules),
{
    check_text_emoji(text, path, &rules.banned_emoji, out);
    if any_pattern_matches(&rules.placeholder_regex, text) {
        let f = new_finding(
            Severity::Error,
            "SLOP-PLACEHOLDER-001",
            to_owned("placeholder / lorem / feature-numbering detected"),
            "replace with domain-specific copy written in the DS voice",
            path,
            snippet(text),
        );
        push_finding(out, f);
    }
    if any_pattern_matches(&rules.fabricated_metric_regex, text) {
        let f = new_finding(
            Severity::Warn,
            "SLOP-METRIC-001",
            to_owned("fabricated metric / bold claim detected"),
            "remove the claim or cite a source in the readback",
            path,
            snippet(text),
        );
        push_finding(out, f);
    }
}

fn check_name_emoji(name: &str, path: &str, emos: &Vec<String>, out: &mut Vec<Finding>)
    ensures
        views(final(out)@) == name_after(views(old(out)@), name@, path@, emos@),
{
    let ghost start = views(out@);
    let mut i: usize = 0;
    while i < emos.len()
        invariant
            i <= emos@.len(),
            views(out@) == name_after(start, name@, path@, emos@.subrange(0, i as int)),
        decreases emos.len() - i,
    {
        let e = emos[i].as_str();
        let ghost pre = emos@.subrange(0, i + 1);
        assert(pre.drop_last() =~= emos@.subrange(0, i as int));
        if str_contains(name, e) {
            let f = new_finding(
                Severity::Warn,
                "SLOP-EMOJI-002",
                sandwich("emoji `", e, "` in node name"),
                "rename the node with a semantic label",
                path,
                snippet(name),
            );
            push_finding(out, f);
        }
        i = i + 1;
    }
    assert(emos@.subrange(0, emos@.len() as int) =~= emos@);
}

fn check_font(family: &str, path: &str, banned: &Vec<String>, out: &mut Vec<Finding>)
    ensures
        views(final(out)@) == font_after(views(old(out)@), family@, path@, banned@),
{
    let mut i: usize = 0;
    while i < banned.len()
        invariant
            i <= banned@.len(),
            out@ == old(out)@,
            forall|j: int| 0 <= j < i ==> lower(banned@[j]@) != lower(family@),
        decreases banned.len() - i,
    {
        if eq_ignore_ascii_case(family, banned[i].as_str()) {
            let f = new_finding(
                Severity::Warn,
                "SLOP-FONT-001",
                sandwich("generic/system font `", family, "` used for display"),
                "use a DS-declared display font (e.g. Inter Display)",
                path,
                to_owned(family),
            );
            push_finding(out, f);
            return;
        }
        i = i + 1;
    }
}

fn number_member(obj: &Json, key: &str) -> (r: Option<Decimal>)
    ensures
        r == number_of(get(*obj, key@)),
{
    match obj.get(key) {
        Some(Json::Number(d)) => Some(*d),
        _ => None,
    }
}

fn solid_channels(fill: &Json) -> (r: Option<(Decimal, Decimal, Decimal)>)
    ensures
        r == solid_rgb(*fill),
{
    match fill {
        Json::Object(_) => {},
        _ => {
            return None;
        },
    }
    match fill.get_str("type") {
        Some(t) => {
            if !str_eq(t.as_str(), "SOLID") {
                return None;
            }
        },
        None => {
            return None;
        },
    }
    let color = match fill.get("color") {
        Some(c) => c,
        None => {
            return None;
        },
    };
    match color {
        Json::Object(_) => {},
        _ => {
            return None;
        },
    }
    let r = number_member(color, "r");
    let g = number_member(color, "g");
    let b = number_member(color, "b");
    match (r, g, b) {
        (Some(r), Some(g), Some(b)) => {
            if (r.negative && r.digits > 0) || (g.negative && g.digits > 0) || (b.negative
                && b.digits > 0) {
                None
            } else {
                Some((r, g, b))
            }
        },
        _ => None,
    }
}

fn hex_of(r: &Decimal, g: &Decimal, b: &Decimal) -> (s: String)
    ensures
        s@ == hex_color(*r, *g, *b),
{
    let mut s = String::new();
    push_char(&mut s, '#');
    push_hex2(&mut s, channel_of(r));
    push_hex2(&mut s, channel_of(g));
    push_hex2(&mut s, channel_of(b));
    assert(s@ =~= hex_color(*r, *g, *b));
    s
}

fn is_banned_hex(hex: &str, banned: &Vec<String>) -> (b: bool)
    ensures
        b == hex_banned(hex@, banned@),
{
    let mut i: usize = 0;
    while i < banned.len()
        invariant
            i <= banned@.len(),
            forall|j: int| 0 <= j < i ==> lower(banned@[j]@) != lower(hex@),
        decreases banned.len() - i,
    {
        if eq_ignore_ascii_case(banned[i].as_str(), hex) {
            return true;
        }
        i = i + 1;
    }
    false
}

fn check_fills(fills: &Json, path: &str, banned: &Vec<String>, out: &mut Vec<Finding>)
    ensures
        views(final(out)@) == fills_after(views(old(out)@), *fills, path@, banned@),
{
    let arr = match fills {
        Json::Array(a) => a,
        _ => {
            return;
        },
    };
    let ghost start = views(out@);
    let mut i: usize = 0;
    while i < arr.len()
        invariant
            i <= arr@.len(),
            views(out@) == fills_list_after(start, arr@.subrange(0, i as int), path@, banned@),
        decreases arr.len() - i,
    {
        let ghost pre = arr@.subrange(0, i + 1);
        assert(pre.drop_last() =~= arr@.subrange(0, i as int));
        assert(pre.last() == arr@[i as int]);
        match solid_channels(&arr[i]) {
            Some((r, g, b)) => {
                let hex = hex_of(&r, &g, &b);
                if is_banned_hex(hex.as_str(), banned) {
                    let mut p = String::new();
                    push_str(&mut p, path);
                    push_str(&mut p, "[");
                    push_dec(&mut p, i as u64);
                    push_str(&mut p, "].color");
                    let msg = sandwich("banned AI-purple hex `", hex.as_str(), "` in fill");
                    let snip = to_owned(hex.as_str());
                    let f = new_finding(
                        Severity::Error,
                        "SLOP-HEX-001",
                        msg,
                        "bind to a DS colour token (brand.primary / state.*)",
                        p.as_str(),
                        snip,
                    );
                    push_finding(out, f);
                }
            },
            None => {},
        }
        i = i + 1;
    }
    assert(arr@.subrange(0, arr@.len() as int) =~= arr@);
}

fn is_inspected_key(k: &str) -> (b: bool)
    ensures
        b == inspected_key(k@),
{
    str_eq(k, "characters") || str_eq(k, "fills") || str_eq(k, "fontName") || str_eq(k, "name")
}

fn check_own(v: &Json, path: &str, rules: &AntiSlopRules, out: &mut Vec<Finding>)
    ensures
        views(final(out)@) == own_after(views(old(out)@), *v, path@, *rules),
{
    match v.get_str("characters") {
        Some(t) => {
            let p = child_path_of(path, "characters");
            check_text(t.as_str(), p.as_str(), rules, out);
        },
        None => {},
    }
    match v.get_str("name") {
        Some(n) => {
            let p = child_path_of(path, "name");
            check_name_emoji(n.as_str(), p.as_str(), &rules.banned_emoji, out);
        },
        None => {},
    }
    match v.get("fills") {
        Some(f) => {
            let p = child_path_of(path, "fills");
            check_fills(f, p.as_str(), &rules.banned_hex, out);
        },
        None => {},
    }
    match v.get("fontName") {
        Some(font) => match font {
            Json::Object(_) => match font.get_str("family") {
                Some(fam) => {
                    let p = child_path_of(path, "fontName.family");
                    check_font(fam.as_str(), p.as_str(), &rules.banned_display_fonts, out);
                },
                None => {},
            },
            _ => {},
        },
        None => {},
    }
}

#[verifier::loop_isolation(false)]
fn walk(v: &Json, path: &str, rules: &AntiSlopRules, out: &mut Vec<Finding>)
    ensures
        views(final(out)@) == walk_after(views(old(out)@), *v, path@, *rules),
    decreases v,
{
    match v {
        Json::Object(entries) => {
            check_own(v, path, rules, out);
            let ghost start = views(out@);
            let mut i: usize = 0;
            while i < entries.len()
                invariant
                    i <= entries@.len(),
                    views(out@) == members_after(start, entries@.subrange(0, i as int), path@, *rules),
                decreases entries.len() - i,
            {
                let ghost pre = entries@.subrange(0, i + 1);
                assert(pre.drop_last() =~= entries@.subrange(0, i as int));
                assert(pre.last() == entries@[i as int]);
                let k = entries[i].0.as_str();
                if !is_inspected_key(k) {
                    let p = child_path_of(path, k);
                    proof {
                        assert(decreases_to!(*v => *entries));
                        assert(decreases_to!(entries => entries@));
                        assert(decreases_to!(entries@ => entries@[i as int]));
                        assert(decreases_to!(entries@[i as int] => entries@[i as int].1));
                    }
                    walk(&entries[i].1, p.as_str(), rules, out);
                }
                i = i + 1;
            }
            assert(entries@.subrange(0, entries@.len() as int) =~= entries@);
        },
        Json::Array(items) => {
            let ghost start = views(out@);
            let mut i: usize = 0;
            while i < items.len()
                invariant
                    i <= items@.len(),
                    views(out@) == items_after(start, items@.subrange(0, i as int), path@, *rules),
                decreases items.len() - i,
            {
                let ghost pre = items@.subrange(0, i + 1);
                assert(pre.drop_last() =~= items@.subrange(0, i as int));
                assert(pre.last() == items@[i as int]);
                let p = index_path_of(path, i);
                proof {
                    assert(decreases_to!(*v => *items));
                    assert(decreases_to!(items => items@));
                    assert(decreases_to!(items@ => items@[i as int]));
                }
                walk(&items[i], p.as_str(), rules, out);
                i = i + 1;
            }
            assert(items@.subrange(0, items@.len() as int) =~= items@);
        },
        _ => {},
    }
}

/// Run every rule over `readback` and return findings in stable order:
/// traversal order × rule order within a node. Re-running the lint on the
/// same input always produces the same findings.
pub fn lint(readback: &Json, rules: &AntiSlopRules) -> (r: Vec<Finding>)
    ensures
        views(r@) == lint_findings(*readback, *rules),
{
    let mut out: Vec<Finding> = Vec::new();
    assert(views(out@) =~= Seq::<FindingView>::empty());
    proof {
        reveal_strlit("");
        assert(""@ =~= Seq::<char>::empty());
    }
    walk(readback, "", rules, &mut out);
    out
}

// ── findings are only ever added ───────────────────────────────────────────

/// `r` holds `acc` as its first findings.
pub open spec fn grows(acc: Seq<FindingView>, r: Seq<FindingView>) -> bool {
    acc.len() <= r.len() && forall|k: int| 0 <= k < acc.len() ==> r[k] == acc[k]
}

proof fn lemma_text_emoji_grows(acc: Seq<FindingView>, text: Seq<char>, path: Seq<char>, emos: Seq<String>)
    ensures
        grows(acc, text_emoji_after(acc, text, path, emos)),
    decreases emos.len(),
{
    if emos.len() > 0 {
        lemma_text_emoji_grows(acc, text, path, emos.drop_last());
    }
}

proof fn lemma_name_grows(acc: Seq<FindingView>, name: Seq<char>, path: Seq<char>, emos: Seq<String>)
    ensures
        grows(acc, name_after(acc, name, path, emos)),
    decreases emos.len(),
{
    if emos.len() > 0 {
        lemma_name_grows(acc, name, path, emos.drop_last());
    }
}

proof fn lemma_fills_list_grows(acc: Seq<FindingView>, fills: Seq<Json>, path: Seq<char>, banned: Seq<String>)
    ensures
        grows(acc, fills_list_after(acc, fills, path, banned)),
    decreases fills.len(),
{
    if fills.len() > 0 {
        lemma_fills_list_grows(acc, fills.drop_last(), path, banned);
    }
}

proof fn lemma_own_grows(acc: Seq<FindingView>, v: Json, path: Seq<char>, rules: AntiSlopRules)
    ensures
        grows(acc, own_after(acc, v, path, rules)),
{
    let a = match get_str(v, "characters"@) {
        Some(t) => text_after(acc, t, child_path(path, "characters"@), rules),
        None => acc,
    };
    if let Some(t) = get_str(v, "characters"@) {
        lemma_text_emoji_grows(acc, t, child_path(path, "characters"@), rules.banned_emoji@);
    }
    let b = match get_str(v, "name"@) {
        Some(nm) => name_after(a, nm, child_path(path, "name"@), rules.banned_emoji@),
        None => a,
    };
    if let Some(n) = get_str(v, "name"@) {
        lemma_name_grows(a, n, child_path(path, "name"@), rules.banned_emoji@);
    }
    if let Some(Json::Array(f)) = get(v, "fills"@) {
        lemma_fills_list_grows(b, f@, child_path(path, "fills"@), rules.banned_hex@);
    }
}

proof fn lemma_walk_grows(acc: Seq<FindingView>, v: Json, path: Seq<char>, rules: AntiSlopRules)
    ensures
        grows(acc, walk_after(acc, v, path, rules)),
    decreases v,
{
    match v {
        Json::Object(entries) => {
            lemma_own_grows(acc, v, path, rules);
            lemma_members_grows(own_after(acc, v, path, rules), entries@, path, rules);
        },
        Json::Array(items) => {
            lemma_items_grows(acc, items@, path, rules);
        },
        _ => {},
    }
}

proof fn lemma_members_grows(
    acc: Seq<FindingView>,
    entries: Seq<(String, Json)>,
    path: Seq<char>,
    rules: AntiSlopRules,
)
    ensures
        grows(acc, members_after(acc, entries, path, rules)),
    decreases entries,
{
    if entries.len() > 0 {
        lemma_members_grows(acc, entries.drop_last(), path, rules);
        let k = entries.last().0@;
        if !inspected_key(k) {
            let prev = members_after(acc, entries.drop_last(), path, rules);
            assert(entries.last() == entries[entries.len() - 1]);
            lemma_walk_grows(prev, entries.last().1, child_path(path, k), rules);
        }
    }
}

proof fn lemma_items_grows(acc: Seq<FindingView>, items: Seq<Json>, path: Seq<char>, rules: AntiSlopRules)
    ensures
        grows(acc, items_after(acc, items, path, rules)),
    decreases items,
{
    if items.len() > 0 {
        lemma_items_grows(acc, items.drop_last(), path, rules);
        assert(items.last() == items[items.len() - 1]);
        lemma_walk_grows(
            items_after(acc, items.drop_last(), path, rules),
            items.last(),
            index_path(path, (items.len() - 1) as nat),
            rules,
        );
    }
}

/// The name check reports the `i`-th banned emoji when the name holds it.
proof fn lemma_name_reports(acc: Seq<FindingView>, name: Seq<char>, path: Seq<char>, emos: Seq<String>, i: int)
    requires
        0 <= i < emos.len(),
        has_sub(name, emos[i]@),
    ensures
        exists|k: int|
            0 <= k < name_after(acc, name, path, emos).len() && (#[trigger] name_after(acc, name, path, emos)[k])
                == finding(
                Severity::Warn,
                "SLOP-EMOJI-002"@,
                "emoji `"@ + emos[i]@ + "` in node name"@,
                "rename the node with a semantic label"@,
                path,
                snippet_of(name),
            ),
    decreases emos.len(),
{
    let prev = name_after(acc, name, path, emos.drop_last());
    let r = name_after(acc, name, path, emos);
    if i == emos.len() - 1 {
        assert(emos.last() == emos[i]);
        assert(r[r.len() - 1] == r.last());
    } else {
        assert(emos.drop_last()[i] == emos[i]);
        lemma_name_reports(acc, name, path, emos.drop_last(), i);
        let k = choose|k: int|
            0 <= k < prev.len() && (#[trigger] prev[k]) == finding(
                Severity::Warn,
                "SLOP-EMOJI-002"@,
                "emoji `"@ + emos[i]@ + "` in node name"@,
                "rename the node with a semantic label"@,
                path,
                snippet_of(name),
            );
        assert(r[k] == prev[k]);
    }
}

/// Every banned emoji in a node's name is reported: for an object node
/// whose `name` holds the banned emoji `e`, the lint of that node (and so
/// of any readback it sits in) holds an `SLOP-EMOJI-002` warning for `e`
/// at the node's `name` path.
pub proof fn law_name_emoji_reported(acc: Seq<FindingView>, v: Json, path: Seq<char>, rules: AntiSlopRules, i: int)
    requires
        v is Object,
        0 <= i < rules.banned_emoji@.len(),
        get_str(v, "name"@) matches Some(n) && has_sub(n, rules.banned_emoji@[i]@),
    ensures
        exists|k: int|
            0 <= k < walk_after(acc, v, path, rules).len() && (#[trigger] walk_after(acc, v, path, rules)[k]).id
                == "SLOP-EMOJI-002"@ && walk_after(acc, v, path, rules)[k].severity == Severity::Warn
                && walk_after(acc, v, path, rules)[k].path == child_path(path, "name"@)
                && walk_after(acc, v, path, rules)[k].message == "emoji `"@ + rules.banned_emoji@[i]@
                + "` in node name"@,
{
    let n = get_str(v, "name"@)->Some_0;
    let a = match get_str(v, "characters"@) {
        Some(t) => text_after(acc, t, child_path(path, "characters"@), rules),
        None => acc,
    };
    let b = name_after(a, n, child_path(path, "name"@), rules.banned_emoji@);
    lemma_name_reports(a, n, child_path(path, "name"@), rules.banned_emoji@, i);
    let f = finding(
        Severity::Warn,
        "SLOP-EMOJI-002"@,
        "emoji `"@ + rules.banned_emoji@[i]@ + "` in node name"@,
        "rename the node with a semantic label"@,
        child_path(path, "name"@),
        snippet_of(n),
    );
    let k = choose|k: int| 0 <= k < b.len() && (#[trigger] b[k]) == f;
    let c = match get(v, "fills"@) {
        Some(fl) => fills_after(b, fl, child_path(path, "fills"@), rules.banned_hex@),
        None => b,
    };
    if let Some(Json::Array(fl)) = get(v, "fills"@) {
        lemma_fills_list_grows(b, fl@, child_path(path, "fills"@), rules.banned_hex@);
    }
    let own = own_after(acc, v, path, rules);
    assert(grows(c, own));
    assert(own[k] == f);
    if let Json::Object(entries) = v {
        lemma_members_grows(own, entries@, path, rules);
    }
    let w = walk_after(acc, v, path, rules);
    assert(w[k] == f);
}

/// The text check reports the `i`-th banned emoji when the text holds it.
proof fn lemma_text_emoji_reports(acc: Seq<FindingView>, text: Seq<char>, path: Seq<char>, emos: Seq<String>, i: int)
    requires
        0 <= i < emos.len(),
        has_sub(text, emos[i]@),
    ensures
        exists|k: int|
            0 <= k < text_emoji_after(acc, text, path, emos).len() && (#[trigger] text_emoji_after(
                acc,
                text,
                path,
                emos,
            )[k]) == finding(
                Severity::Error,
                "SLOP-EMOJI-001"@,
                "emoji `"@ + emos[i]@ + "` used in functional text"@,
                "remove the emoji; rely on icon tokens + text"@,
                path,
                snippet_of(text),
            ),
    decreases emos.len(),
{
    let prev = text_emoji_after(acc, text, path, emos.drop_last());
    let r = text_emoji_after(acc, text, path, emos);
    if i == emos.len() - 1 {
        assert(emos.last() == emos[i]);
        assert(r[r.len() - 1] == r.last());
    } else {
        assert(emos.drop_last()[i] == emos[i]);
        lemma_text_emoji_reports(acc, text, path, emos.drop_last(), i);
        let k = choose|k: int|
            0 <= k < prev.len() && (#[trigger] prev[k]) == finding(
                Severity::Error,
                "SLOP-EMOJI-001"@,
                "emoji `"@ + emos[i]@ + "` used in functional text"@,
                "remove the emoji; rely on icon tokens + text"@,
                path,
                snippet_of(text),
            );
        assert(r[k] == prev[k]);
    }
}

/// Every banned emoji in a node's functional text is reported: for an
/// object node whose `characters` hold the banned emoji `e`, the lint of
/// that node holds an `SLOP-EMOJI-001` error for `e` at the node's
/// `characters` path.
pub proof fn law_text_emoji_reported(acc: Seq<FindingView>, v: Json, path: Seq<char>, rules: AntiSlopRules, i: int)
    requires
        v is Object,
        0 <= i < rules.banned_emoji@.len(),
        get_str(v, "characters"@) matches Some(t) && has_sub(t, rules.banned_emoji@[i]@),
    ensures
        exists|k: int|
            0 <= k < walk_after(acc, v, path, rules).len() && (#[trigger] walk_after(acc, v, path, rules)[k]).id
                == "SLOP-EMOJI-001"@ && walk_after(acc, v, path, rules)[k].severity == Severity::Error
                && walk_after(acc, v, path, rules)[k].path == child_path(path, "characters"@)
                && walk_after(acc, v, path, rules)[k].message == "emoji `"@ + rules.banned_emoji@[i]@
                + "` used in functional text"@,
{
    let t = get_str(v, "characters"@)->Some_0;
    let cp = child_path(path, "characters"@);
    let e = text_emoji_after(acc, t, cp, rules.banned_emoji@);
    lemma_text_emoji_reports(acc, t, cp, rules.banned_emoji@, i);
    let f = finding(
        Severity::Error,
        "SLOP-EMOJI-001"@,
        "emoji `"@ + rules.banned_emoji@[i]@ + "` used in functional text"@,
        "remove the emoji; rely on icon tokens + text"@,
        cp,
        snippet_of(t),
    );
    let k = choose|k: int| 0 <= k < e.len() && (#[trigger] e[k]) == f;
    let a = text_after(acc, t, cp, rules);
    assert(grows(e, a));
    let b = match get_str(v, "name"@) {
        Some(nm) => name_after(a, nm, child_path(path, "name"@), rules.banned_emoji@),
        None => a,
    };
    if let Some(nm) = get_str(v, "name"@) {
        lemma_name_grows(a, nm, child_path(path, "name"@), rules.banned_emoji@);
    }
    if let Some(Json::Array(fl)) = get(v, "fills"@) {
        lemma_fills_list_grows(b, fl@, child_path(path, "fills"@), rules.banned_hex@);
    }
    let own = own_after(acc, v, path, rules);
    assert(own[k] == f);
    if let Json::Object(entries) = v {
        lemma_members_grows(own, entries@, path, rules);
    }
    let w = walk_after(acc, v, path, rules);
    assert(w[k] == f);
}

/// A banned display font is reported: for an object node whose
/// `fontName.family` equals, ignoring ASCII case, a banned font, the lint
/// of that node holds an `SLOP-FONT-001` warning naming the family at the
/// node's `fontName.family` path.
pub proof fn law_banned_font_reported(acc: Seq<FindingView>, v: Json, path: Seq<char>, rules: AntiSlopRules, i: int)
    requires
        v is Object,
        0 <= i < rules.banned_display_fonts@.len(),
        get(v, "fontName"@) matches Some(Json::Object(fe)) && str_of(member(fe@, "family"@)) matches Some(fam)
            && lower(rules.banned_display_fonts@[i]@) == lower(fam),
    ensures
        exists|k: int|
            0 <= k < walk_after(acc, v, path, rules).len() && (#[trigger] walk_after(acc, v, path, rules)[k]).id
                == "SLOP-FONT-001"@ && walk_after(acc, v, path, rules)[k].severity == Severity::Warn
                && walk_after(acc, v, path, rules)[k].path == child_path(path, "fontName.family"@)
                && walk_after(acc, v, path, rules)[k].snippet == str_of(
                member(get(v, "fontName"@)->Some_0->Object_0@, "family"@),
            )->Some_0,
{
    let own = own_after(acc, v, path, rules);
    let k = own.len() - 1;
    assert(own[k] == own.last());
    if let Json::Object(entries) = v {
        lemma_members_grows(own, entries@, path, rules);
    }
    let w = walk_after(acc, v, path, rules);
    assert(w[k] == own[k]);
}

} // verus!
