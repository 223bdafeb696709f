//! Skills: a `SKILL.md` file whose frontmatter declares what a skill
//! needs from the design system and how it augments the tools of a role,
//! and whose body is guidance injected into the role's system prompt.
//!
//! ```text
//! ---
//! [cd]
//! name = "onboarding"
//! product_kind = "screens"
//! [cd.requires]
//! tokens = ["color.brand.primary"]
//! [cd.tool_augmentation]
//! plan_emit = "Each step frame carries a skip affordance."
//! ---
//!
//! Body: free-form guidance.
//! ```
//!
//! Everything between the two `---` fences is TOML, which the caller
//! decodes; everything after is the body.

use vstd::prelude::*;
use crate::ds::design_system::DesignSystem;
use crate::ds::tokens::{token_at, TokensModel};
use crate::json::Json;
use crate::sorted_keys::{keys_ascending, sorted_entries, sorted_from};
use crate::text::{
    chars_of, contains_string, find_first, first_at, has_sub, push_str, starts_with,
    str_starts_with, string_from_range, to_owned, trim, trim_end_char, trim_end_char_at,
    trim_start_char, trim_start_char_at, trim_string, views,
};

verus! {

pub const CRATE_NAME: &'static str = "cd-skill";

/// Why a skill could not be read or used.
#[derive(Debug)]
pub enum SkillError {
    /// `SKILL.md` does not start with a `---` line.
    MissingOpenFence,
    /// The frontmatter has no closing `---` line.
    MissingCloseFence,
    /// The design system lacks something the skill requires.
    Unmet(String),
}

/// A skill error, with its text as characters.
pub enum SkillFault {
    MissingOpenFence,
    MissingCloseFence,
    Unmet(Seq<char>),
}

impl View for SkillError {
    type V = SkillFault;

    open spec fn view(&self) -> SkillFault {
        match *self {
            SkillError::MissingOpenFence => SkillFault::MissingOpenFence,
            SkillError::MissingCloseFence => SkillFault::MissingCloseFence,
            SkillError::Unmet(m) => SkillFault::Unmet(m@),
        }
    }
}

/// What a skill needs from the design system.
#[derive(Debug, Clone)]
pub struct SkillRequires {
    pub ds_patterns: Vec<String>,
    pub craft: Vec<String>,
    pub tokens: Vec<String>,
}

/// The `[cd]` table of the frontmatter.
#[derive(Debug, Clone)]
pub struct SkillFrontCd {
    pub name: String,
    pub version: String,
    /// One of screens, component, ds-extract, audit, refine.
    pub product_kind: String,
    /// One of mobile, desktop, responsive.
    pub platform: String,
    pub requires: SkillRequires,
    /// Per-tool prompt augmentations, keyed by tool name (e.g.
    /// `plan_emit`); a loaded skill holds them by ascending tool name. Each is added to the prompt of a role
    /// whose tool surface holds that tool.
    pub tool_augmentation: Vec<(String, String)>,
}

/// The frontmatter of a skill.
#[derive(Debug, Clone)]
pub struct SkillFront {
    pub cd: SkillFrontCd,
}

/// A loaded skill, ready to contribute to prompts.
#[derive(Debug, Clone)]
pub struct Skill {
    pub front: SkillFront,
    pub body: String,
    pub root: String,
}

impl Default for SkillRequires {
    fn default() -> (r: SkillRequires)
        ensures
            r.ds_patterns@.len() == 0,
            r.craft@.len() == 0,
            r.tokens@.len() == 0,
    {
        SkillRequires { ds_patterns: Vec::new(), craft: Vec::new(), tokens: Vec::new() }
    }
}

impl Default for SkillFrontCd {
    fn default() -> (r: SkillFrontCd)
        ensures
            r.name@.len() == 0,
            r.version@.len() == 0,
            r.product_kind@.len() == 0,
            r.platform@.len() == 0,
            r.requires.ds_patterns@.len() == 0,
            r.requires.craft@.len() == 0,
            r.requires.tokens@.len() == 0,
            r.tool_augmentation@.len() == 0,
    {
        SkillFrontCd {
            name: String::new(),
            version: String::new(),
            product_kind: String::new(),
            platform: String::new(),
            requires: SkillRequires::default(),
            tool_augmentation: Vec::new(),
        }
    }
}

// ── specification ──────────────────────────────────────────────────────────

/// The frontmatter and body of a `SKILL.md` text: the file opens with a
/// `---` line; the frontmatter runs to the first newline followed by
/// `---`; the body follows those four characters, without its leading
/// newlines.
pub open spec fn frontmatter(md: Seq<char>) -> Result<(Seq<char>, Seq<char>), SkillFault> {
    if !starts_with(md, "---\n"@) {
        Err(SkillFault::MissingOpenFence)
    } else {
        let rest = md.subrange(4, md.len() as int);
        if !has_sub(rest, "\n---"@) {
            Err(SkillFault::MissingCloseFence)
        } else {
            let end = choose|i: int| first_at(rest, "\n---"@, i);
            Ok(
                (
                    rest.subrange(0, end),
                    trim_start_char(rest.subrange(end + 4, rest.len() as int), '\n'),
                ),
            )
        }
    }
}

/// Some key of the patterns object starts with `needle` less its trailing
/// `*`s.
pub open spec fn pattern_present(patterns: Json, needle: Seq<char>) -> bool {
    match patterns {
        Json::Object(es) => exists|i: int|
            0 <= i < es@.len() && starts_with(
                #[trigger] es@[i].0@,
                trim_end_char(needle, '*'),
            ),
        _ => false,
    }
}

/// The first required token that the tokens do not define.
pub open spec fn first_unknown_token(refs: Seq<String>, t: TokensModel) -> Option<Seq<char>>
    decreases refs.len(),
{
    if refs.len() == 0 {
        None
    } else if token_at(t, refs[0]@) is None {
        Some(refs[0]@)
    } else {
        first_unknown_token(refs.drop_first(), t)
    }
}

/// The first required craft rule that the design system does not require.
pub open spec fn first_unrequired(rules: Seq<String>, required: Seq<String>) -> Option<Seq<char>>
    decreases rules.len(),
{
    if rules.len() == 0 {
        None
    } else if !views(required).contains(rules[0]@) {
        Some(rules[0]@)
    } else {
        first_unrequired(rules.drop_first(), required)
    }
}

/// The first required pattern with no match among the DS patterns.
pub open spec fn first_absent_pattern(pats: Seq<String>, patterns: Json) -> Option<Seq<char>>
    decreases pats.len(),
{
    if pats.len() == 0 {
        None
    } else if !pattern_present(patterns, pats[0]@) {
        Some(pats[0]@)
    } else {
        first_absent_pattern(pats.drop_first(), patterns)
    }
}

/// Why a skill's requirements fail against a design system, checking
/// tokens, then craft rules, then patterns; `None` when all are met.
pub open spec fn requirements_fault(s: Skill, ds: DesignSystem) -> Option<Seq<char>> {
    let req = s.front.cd.requires;
    match first_unknown_token(req.tokens@, ds.tokens@) {
        Some(t) => Some("token `"@ + t + "` not in DS"@),
        None => match first_unrequired(req.craft@, ds.constraints.craft.requires@) {
            Some(r) => Some("craft rule `"@ + r + "` not required by DS constraints"@),
            None => match first_absent_pattern(req.ds_patterns@, ds.patterns) {
                Some(p) => Some("DS patterns missing match for `"@ + p + "`"@),
                None => None,
            },
        },
    }
}

/// The augmentation blocks for the tools that are active.
pub open spec fn augmentation_lines(augs: Seq<(String, String)>, active: Seq<String>) -> Seq<char>
    decreases augs.len(),
{
    if augs.len() == 0 {
        seq![]
    } else {
        let (tool, aug) = augs.last();
        augmentation_lines(augs.drop_last(), active) + if views(active).contains(tool@) {
            "\n## tool augmentation: "@ + tool@ + "\n"@ + aug@ + "\n"@
        } else {
            seq![]
        }
    }
}

/// A skill's prompt fragment for a role with these tools: a heading with
/// the skill's name and kind, the body (when there is one), and the
/// augmentation of each active tool.
pub open spec fn fragment_text(s: Skill, active: Seq<String>) -> Seq<char> {
    "\n# Active skill: "@ + s.front.cd.name@ + " ("@ + s.front.cd.product_kind@ + ")\n"@ + (if s.body@.len()
        > 0 {
        s.body@ + "\n"@
    } else {
        seq![]
    }) + augmentation_lines(s.front.cd.tool_augmentation@, active)
}

// ── implementation ─────────────────────────────────────────────────────────

/// Splits a `SKILL.md` text into its frontmatter and its body.
pub fn split_frontmatter(md: &str) -> (r: Result<(String, String), SkillError>)
    ensures
        match frontmatter(md@) {
            Ok((f, b)) => r matches Ok((front, body)) && front@ == f && body@ == b,
            Err(e) => r matches Err(err) && err@ == e,
        },
{
    if !str_starts_with(md, "---\n") {
        return Err(SkillError::MissingOpenFence);
    }
    proof {
        reveal_strlit("---\n");
    }
    let v = chars_of(md);
    let rest = string_from_range(&v, 4, v.len());
    let rv = chars_of(rest.as_str());
    let fence = chars_of("\n---");
    proof {
        reveal_strlit("\n---");
    }
    match find_first(&rv, &fence) {
        None => Err(SkillError::MissingCloseFence),
        Some(end) => {
            proof {
                let e = choose|i: int| first_at(rv@, "\n---"@, i);
                assert(first_at(rv@, "\n---"@, end as int));
                assert(e == end);
            }
            let front = string_from_range(&rv, 0, end);
            let start = trim_start_char_at(&rv, end + 4, '\n');
            let body = string_from_range(&rv, start, rv.len());
            Ok((front, body))
        },
    }
}

/// Whether some key of the patterns object starts with `needle` (less its
/// trailing `*`s).
#[verifier::loop_isolation(false)]
pub fn pattern_present_in(patterns: &Json, needle: &str) -> (b: bool)
    ensures
        b == pattern_present(*patterns, needle@),
{
    let nv = chars_of(needle);
    let hi = trim_end_char_at(&nv, nv.len(), '*');
    assert(nv@.subrange(0, nv@.len() as int) =~= needle@);
    let prefix = string_from_range(&nv, 0, hi);
    match patterns {
        Json::Object(es) => {
            let mut i: usize = 0;
            while i < es.len()
                invariant
                    i <= es@.len(),
                    prefix@ == trim_end_char(needle@, '*'),
                    forall|k: int| 0 <= k < i ==> !starts_with(#[trigger] es@[k].0@, prefix@),
                decreases es.len() - i,
            {
                if str_starts_with(es[i].0.as_str(), prefix.as_str()) {
                    assert(starts_with(es@[i as int].0@, trim_end_char(needle@, '*')));
                    return true;
                }
                i = i + 1;
            }
            false
        },
        _ => false,
    }
}

fn check_tokens(refs: &Vec<String>, ds: &DesignSystem) -> (r: Option<String>)
    ensures
        match first_unknown_token(refs@, ds.tokens@) {
            Some(t) => r matches Some(m) && m@ == "token `"@ + t + "` not in DS"@,
            None => r is None,
        },
{
    let mut i: usize = 0;
    assert(refs@.skip(0) =~= refs@);
    while i < refs.len()
        invariant
            i <= refs@.len(),
            first_unknown_token(refs@, ds.tokens@) == first_unknown_token(refs@.skip(i as int), ds.tokens@),
        decreases refs.len() - i,
    {
        let ghost rest = refs@.skip(i as int);
        assert(rest[0] == refs@[i as int]);
        if !ds.knows_ref(refs[i].as_str()) {
            let mut m = to_owned("token `");
            push_str(&mut m, refs[i].as_str());
            push_str(&mut m, "` not in DS");
            return Some(m);
        }
        assert(rest.drop_first() =~= refs@.skip(i + 1));
        i = i + 1;
    }
    None
}

fn check_craft(rules: &Vec<String>, required: &Vec<String>) -> (r: Option<String>)
    ensures
        match first_unrequired(rules@, required@) {
            Some(c) => r matches Some(m) && m@ == "craft rule `"@ + c + "` not required by DS constraints"@,
            None => r is None,
        },
{
    let mut i: usize = 0;
    assert(rules@.skip(0) =~= rules@);
    while i < rules.len()
        invariant
            i <= rules@.len(),
            first_unrequired(rules@, required@) == first_unrequired(rules@.skip(i as int), required@),
        decreases rules.len() - i,
    {
        let ghost rest = rules@.skip(i as int);
        assert(rest[0] == rules@[i as int]);
        if !contains_string(required, rules[i].as_str()) {
            let mut m = to_owned("craft rule `");
            push_str(&mut m, rules[i].as_str());
            push_str(&mut m, "` not required by DS constraints");
            return Some(m);
        }
        assert(rest.drop_first() =~= rules@.skip(i + 1));
        i = i + 1;
    }
    None
}

fn check_patterns_present(pats: &Vec<String>, patterns: &Json) -> (r: Option<String>)
    ensures
        match first_absent_pattern(pats@, *patterns) {
            Some(p) => r matches Some(m) && m@ == "DS patterns missing match for `"@ + p + "`"@,
            None => r is None,
        },
{
    let mut i: usize = 0;
    assert(pats@.skip(0) =~= pats@);
    while i < pats.len()
        invariant
            i <= pats@.len(),
            first_absent_pattern(pats@, *patterns) == first_absent_pattern(pats@.skip(i as int), *patterns),
        decreases pats.len() - i,
    {
        let ghost rest = pats@.skip(i as int);
        assert(rest[0] == pats@[i as int]);
        if !pattern_present_in(patterns, pats[i].as_str()) {
            let mut m = to_owned("DS patterns missing match for `");
            push_str(&mut m, pats[i].as_str());
            push_str(&mut m, "`");
            return Some(m);
        }
        assert(rest.drop_first() =~= pats@.skip(i + 1));
        i = i + 1;
    }
    None
}

impl Skill {
    /// A skill from its decoded frontmatter, the body as it follows the
    /// frontmatter (kept trimmed), and the directory it was read from. The
    /// tool augmentations are kept by ascending tool name, each once (a
    /// repeated name keeps its last text).
    pub fn from_parts(front: SkillFront, body: &str, root: String) -> (s: Skill)
        ensures
            s.front.cd.name == front.cd.name,
            s.front.cd.version == front.cd.version,
            s.front.cd.product_kind == front.cd.product_kind,
            s.front.cd.platform == front.cd.platform,
            s.front.cd.requires == front.cd.requires,
            s.front.cd.tool_augmentation@ == sorted_from(front.cd.tool_augmentation@),
            keys_ascending(s.front.cd.tool_augmentation@),
            s.body@ == trim(body@),
            s.root == root,
    {
        let mut front = front;
        front.cd.tool_augmentation = sorted_entries(front.cd.tool_augmentation);
        Skill { front, body: trim_string(body), root }
    }

    /// Checks every requirement against a design system: each token ref
    /// must resolve, each craft rule must be one the DS requires, and each
    /// pattern must match a DS pattern key. The first unmet one is
    /// reported.
    pub fn check_requirements(&self, ds: &DesignSystem) -> (r: Result<(), SkillError>)
        ensures
            match requirements_fault(*self, *ds) {
                None => r is Ok,
                Some(m) => r matches Err(e) && e@ == SkillFault::Unmet(m),
            },
    {
        let req = &self.front.cd.requires;
        if let Some(m) = check_tokens(&req.tokens, ds) {
            return Err(SkillError::Unmet(m));
        }
        if let Some(m) = check_craft(&req.craft, &ds.constraints.craft.requires) {
            return Err(SkillError::Unmet(m));
        }
        if let Some(m) = check_patterns_present(&req.ds_patterns, &ds.patterns) {
            return Err(SkillError::Unmet(m));
        }
        Ok(())
    }

    /// The prompt fragment for a role whose tool surface is
    /// `active_tools`: the skill's heading and body, then the augmentation
    /// of each tool the role has.
    pub fn prompt_fragment(&self, active_tools: &Vec<String>) -> (r: String)
        ensures
            r@ == fragment_text(*self, active_tools@),
    {
        let mut out = to_owned("\n# Active skill: ");
        push_str(&mut out, self.front.cd.name.as_str());
        push_str(&mut out, " (");
        push_str(&mut out, self.front.cd.product_kind.as_str());
        push_str(&mut out, ")\n");
        if !self.body.as_str().is_empty() {
            push_str(&mut out, self.body.as_str());
            push_str(&mut out, "\n");
        }
        let ghost head = out@;
        let augs = &self.front.cd.tool_augmentation;
        let mut i: usize = 0;
        while i < augs.len()
            invariant
                i <= augs@.len(),
                out@ == head + augmentation_lines(augs@.subrange(0, i as int), active_tools@),
            decreases augs.len() - i,
        {
            let ghost pre = augs@.subrange(0, i + 1);
            assert(pre.drop_last() =~= augs@.subrange(0, i as int));
            assert(pre.last() == augs@[i as int]);
            let tool = augs[i].0.as_str();
            if contains_string(active_tools, tool) {
                push_str(&mut out, "\n## tool augmentation: ");
                push_str(&mut out, tool);
                push_str(&mut out, "\n");
                push_str(&mut out, augs[i].1.as_str());
                push_str(&mut out, "\n");
            }
            assert(out@ =~= head + augmentation_lines(pre, active_tools@));
            i = i + 1;
        }
        assert(augs@.subrange(0, augs@.len() as int) =~= augs@);
        out
    }
}

} // verus!
