//! Role prompts for the agent.
//!
//! Five roles make up the pipeline. Each has a system prompt (role
//! identity, the design-system binding, craft rules and the role's hard
//! rules) and a visible tool surface (tool names only).
//!
//! Tool-surface guards:
//!   - no shell tool (`bash` and its kin) is ever visible to any role;
//!   - `edit` is visible only to the Extractor, and only when the caller
//!     passes a non-empty path whitelist.

use vstd::prelude::*;
use crate::craft::{bundled_rule, bundled_views, direction_summaries, rule_text};
use crate::ds::design_system::{CaseEntry, DesignSystem};
use crate::ds::prompt::{plan_binding, plan_binding_text};
use crate::rubric::RUBRIC_MD;
use crate::skill::{fragment_text, Skill};
use crate::text::{join, push_joined, push_str, str_eq, to_owned, trim, trim_string, views};

verus! {

pub const CRATE_NAME: &'static str = "cd-prompts";

/// The five roles of the pipeline.
#[derive(Debug, Clone, Copy, PartialEq, Eq, Structural)]
pub enum Role {
    Interpreter,
    Planner,
    Critic,
    Fixer,
    Extractor,
}

/// A fully composed prompt ready to send to the provider.
#[derive(Debug)]
pub struct RolePrompt {
    pub role: Role,
    /// System prompt contents (identity, DS, craft and hard rules).
    pub system: String,
    /// Tools visible to the model, by name. Never a shell tool.
    pub tools: Vec<String>,
    /// True iff this role may call `ask_user_question`.
    pub allow_ask_user: bool,
}

/// What the caller forwards when building a prompt.
#[derive(Debug)]
pub struct PromptOptions {
    /// Path prefixes the `edit` tool may write to. An empty whitelist
    /// withholds the `edit` tool entirely.
    pub edit_whitelist: Vec<String>,
    /// Include the visual-direction picker block (first turn only).
    pub include_vdp: bool,
    /// The direction the user chose, which pins the later roles to it.
    pub chosen_direction: Option<String>,
    /// Skills whose requirements the DS meets; each adds its prompt
    /// fragment after the other blocks.
    pub skills: Vec<Skill>,
}

impl Default for PromptOptions {
    fn default() -> (r: PromptOptions)
        ensures
            r.edit_whitelist@.len() == 0,
            !r.include_vdp,
            r.chosen_direction is None,
            r.skills@.len() == 0,
    {
        PromptOptions {
            edit_whitelist: Vec::new(),
            include_vdp: false,
            chosen_direction: None,
            skills: Vec::new(),
        }
    }
}

/// Tool names that no role ever sees, whatever the tool crate offers.
pub const FORBIDDEN_TOOLS: [&'static str; 4] = ["bash", "PowerShell", "shell", "run_command"];

pub const INTERPRETER_IDENTITY: &'static str = "\
You are the Interpreter role of CodeDesign. You translate a fuzzy PRD
into a structured Brief (users, jobs, screens, constraints, success
signals). You DO NOT produce designs. You clarify by asking one tight
multi-question form, not a back-and-forth stream.
";

pub const PLANNER_IDENTITY: &'static str = "\
You are the Planner role of CodeDesign. You emit a DesignPlan IR via
the `plan_emit` tool. You do NOT answer in prose. Refs only — never
raw hex, px, or font names. Every ref must resolve in the DS binding
block below. You produce the smallest plan that covers the Brief.
";

pub const CRITIC_IDENTITY: &'static str = "\
You are the Critic role of CodeDesign. Given a DesignPlan + Figma
readback JSON, you score the result against the DS enforcement rules
and craft requires. You emit a list of findings, each with
{severity, id, message, fix, path}. You do NOT rewrite the plan —
the Fixer does that. Deterministic rules (anti-slop) have already
run; focus on judgement calls.
";

pub const FIXER_IDENTITY: &'static str = "\
You are the Fixer role of CodeDesign. Given a DesignPlan and a list
of Critic findings, you emit a patched DesignPlan via `plan_emit`.
You change ONLY what the findings require. You do not invent new
screens or features.
";

pub const EXTRACTOR_IDENTITY: &'static str = "\
You are the Extractor role of CodeDesign. Given screenshots or a
Figma scene, you produce a DesignSystem draft (tokens + components +
constraints) that future roles can bind against. You are conservative:
unfamiliar patterns go into `patterns.json`, not components.
";

pub const TURN1_RULE: &'static str = "\
- Emit exactly ONE prose line acknowledging the user intent.
- Then call `ask_user_question` ONCE with a structured multi-question form.
- Do NOT read/write files. Do NOT call any other tool. Do NOT think out loud.
- If the PRD is already unambiguous, still ask at least one confirming question
  (target platform OR success signal) before handing off to the Planner.
";

// ── specification ──────────────────────────────────────────────────────────

pub open spec fn role_name(r: Role) -> Seq<char> {
    match r {
        Role::Interpreter => "interpreter"@,
        Role::Planner => "planner"@,
        Role::Critic => "critic"@,
        Role::Fixer => "fixer"@,
        Role::Extractor => "extractor"@,
    }
}

pub open spec fn identity_text(r: Role) -> Seq<char> {
    match r {
        Role::Interpreter => INTERPRETER_IDENTITY@,
        Role::Planner => PLANNER_IDENTITY@,
        Role::Critic => CRITIC_IDENTITY@,
        Role::Fixer => FIXER_IDENTITY@,
        Role::Extractor => EXTRACTOR_IDENTITY@,
    }
}

/// The forbidden tool names.
pub open spec fn forbidden() -> Seq<Seq<char>> {
    seq!["bash"@, "PowerShell"@, "shell"@, "run_command"@]
}

/// The tools a role is given before the guards apply.
pub open spec fn base_tools(r: Role) -> Seq<Seq<char>> {
    match r {
        Role::Interpreter => seq!["ask_user_question"@],
        Role::Planner => seq!["plan_emit"@, "image_understand"@],
        Role::Critic => seq!["critic_emit"@, "image_understand"@],
        Role::Fixer => seq!["plan_emit"@],
        Role::Extractor => seq!["ds_emit"@, "image_understand"@],
    }
}

/// The role's tools with `edit` added when the whitelist allows it.
pub open spec fn offered_tools(r: Role, whitelist_given: bool) -> Seq<Seq<char>> {
    if whitelist_given && r == Role::Extractor {
        base_tools(r).push("edit"@)
    } else {
        base_tools(r)
    }
}

/// The tool surface: the offered tools less every forbidden one.
pub open spec fn tool_list(r: Role, whitelist_given: bool) -> Seq<Seq<char>> {
    offered_tools(r, whitelist_given).filter(|t: Seq<char>| !forbidden().contains(t))
}

/// Craft rules go to the roles that design or judge.
pub open spec fn sees_craft(r: Role) -> bool {
    r == Role::Planner || r == Role::Critic || r == Role::Fixer
}

/// `# craft: name` and its text, for each required rule that has one.
pub open spec fn craft_blocks(reqs: Seq<String>) -> Seq<char>
    decreases reqs.len(),
{
    if reqs.len() == 0 {
        seq![]
    } else {
        let r = reqs.last();
        craft_blocks(reqs.drop_last()) + match bundled_rule(r@) {
            Some(t) => "\n# craft: "@ + r@ + "\n"@ + trim(t) + "\n"@,
            None => seq![],
        }
    }
}

/// One line of the case library.
pub open spec fn case_line(c: CaseEntry) -> Seq<char> {
    "- "@ + c.title@ + " ("@ + c.id@ + ")"@ + (if c.tags@.len() == 0 {
        seq![]
    } else {
        " ["@ + join(","@, views(c.tags@)) + "]"@
    }) + (if c.note@.len() == 0 {
        seq![]
    } else {
        " — "@ + c.note@
    }) + "\n"@
}

pub open spec fn case_lines(cases: Seq<CaseEntry>) -> Seq<char>
    decreases cases.len(),
{
    if cases.len() == 0 {
        seq![]
    } else {
        case_lines(cases.drop_last()) + case_line(cases.last())
    }
}

/// `- [id] one line` for the first `n` bundled directions.
pub open spec fn picker_lines(n: nat) -> Seq<char>
    decreases n,
{
    if n == 0 || n > bundled_views().len() {
        seq![]
    } else {
        let d = bundled_views()[n - 1];
        picker_lines((n - 1) as nat) + "- ["@ + d.id + "] "@ + d.one_line + "\n"@
    }
}

/// The skills' fragments, in order, for a role with these tools.
pub open spec fn skill_blocks(skills: Seq<Skill>, tools: Seq<String>) -> Seq<char>
    decreases skills.len(),
{
    if skills.len() == 0 {
        seq![]
    } else {
        skill_blocks(skills.drop_last(), tools) + fragment_text(skills.last(), tools)
    }
}

/// The system prompt of a role, up to the skill fragments.
pub open spec fn system_head(r: Role, ds: DesignSystem, opts: PromptOptions) -> Seq<char> {
    identity_text(r) + "\n\n"@ + plan_binding_text(ds) + "\n"@ + (if sees_craft(r) {
        craft_blocks(ds.constraints.craft.requires@)
    } else {
        seq![]
    }) + (if r == Role::Critic {
        "\n\n# 5-Dimensional Critique Rubric\n"@ + RUBRIC_MD@
    } else {
        seq![]
    }) + (if (r == Role::Planner || r == Role::Critic) && ds.cases.cases@.len() > 0 {
        "\n# Case library (DS-curated references)\n"@ + case_lines(ds.cases.cases@)
            + "Use these as calibrators for what \"good\" looks like in this DS; do not copy them literally.\n"@
    } else {
        seq![]
    }) + (if r == Role::Interpreter {
        "\n# Turn-1 hard rule\n"@ + TURN1_RULE@ + if opts.include_vdp {
            "\n\n# Visual Direction Picker (present these five options to the user)\n"@
                + picker_lines(bundled_views().len())
        } else {
            seq![]
        }
    } else {
        seq![]
    }) + match opts.chosen_direction {
        Some(dir) => if sees_craft(r) {
            "\n# Visual direction (locked)\nid: "@ + dir@
                + "\nFollow this direction's posture, palette, typography, and rules.\n"@
        } else {
            seq![]
        },
        None => seq![],
    }
}

// ── implementation ─────────────────────────────────────────────────────────

impl Role {
    /// The role's name, lower case.
    pub fn name(self) -> (s: &'static str)
        ensures
            s@ == role_name(self),
    {
        match self {
            Role::Interpreter => "interpreter",
            Role::Planner => "planner",
            Role::Critic => "critic",
            Role::Fixer => "fixer",
            Role::Extractor => "extractor",
        }
    }
}

/// The identity preamble of a role.
pub fn role_identity(role: Role) -> (s: &'static str)
    ensures
        s@ == identity_text(role),
{
    match role {
        Role::Interpreter => INTERPRETER_IDENTITY,
        Role::Planner => PLANNER_IDENTITY,
        Role::Critic => CRITIC_IDENTITY,
        Role::Fixer => FIXER_IDENTITY,
        Role::Extractor => EXTRACTOR_IDENTITY,
    }
}

fn is_forbidden(t: &str) -> (b: bool)
    ensures
        b == forbidden().contains(t@),
{
    let mut i: usize = 0;
    while i < 4
        invariant
            i <= 4,
            forall|k: int| 0 <= k < i ==> forbidden()[k] != t@,
        decreases 4 - i,
    {
        if str_eq(FORBIDDEN_TOOLS[i], t) {
            assert(forbidden()[i as int] == t@);
            return true;
        }
        i = i + 1;
    }
    assert forall|k: int| 0 <= k < forbidden().len() implies forbidden()[k] != t@ by {}
    false
}

/// The tools a role may see, and whether it may ask the user.
pub fn tool_surface(role: Role, opts: &PromptOptions) -> (r: (Vec<String>, bool))
    ensures
        views(r.0@) == tool_list(role, opts.edit_whitelist@.len() > 0),
        r.1 == tool_list(role, opts.edit_whitelist@.len() > 0).contains("ask_user_question"@),
{
    let mut offered: Vec<&'static str> = match role {
        Role::Interpreter => vec!["ask_user_question"],
        Role::Planner => vec!["plan_emit", "image_understand"],
        Role::Critic => vec!["critic_emit", "image_understand"],
        Role::Fixer => vec!["plan_emit"],
        Role::Extractor => vec!["ds_emit", "image_understand"],
    };
    if opts.edit_whitelist.len() > 0 && role == Role::Extractor {
        offered.push("edit");
    }
    let ghost want_offered = offered_tools(role, opts.edit_whitelist@.len() > 0);
    assert(offered@.map_values(|t: &str| t@) =~= want_offered);
    let mut tools: Vec<String> = Vec::new();
    let mut ask = false;
    let mut i: usize = 0;
    while i < offered.len()
        invariant
            i <= offered@.len(),
            offered@.map_values(|t: &str| t@) == want_offered,
            views(tools@) == want_offered.subrange(0, i as int).filter(
                |t: Seq<char>| !forbidden().contains(t),
            ),
            ask == views(tools@).contains("ask_user_question"@),
        decreases offered.len() - i,
    {
        let t = offered[i];
        assert(want_offered[i as int] == t@);
        proof {
            assert(want_offered.subrange(0, i + 1) =~= want_offered.subrange(0, i as int).push(t@));
            want_offered.subrange(0, i as int).lemma_filter_push(
                t@,
                |t: Seq<char>| !forbidden().contains(t),
            );
        }
        if !is_forbidden(t) {
            let ghost before = tools@;
            tools.push(to_owned(t));
            assert(views(tools@) =~= views(before).push(t@));
            if str_eq(t, "ask_user_question") {
                ask = true;
            }
            proof {
                assert(views(tools@).last() == t@);
                if views(before).contains("ask_user_question"@) {
                    let k = choose|k: int|
                        0 <= k < views(before).len() && views(before)[k] == "ask_user_question"@;
                    assert(views(tools@)[k] == "ask_user_question"@);
                }
                if views(tools@).contains("ask_user_question"@) && t@ != "ask_user_question"@ {
                    let k = choose|k: int|
                        0 <= k < views(tools@).len() && views(tools@)[k] == "ask_user_question"@;
                    assert(views(before)[k] == "ask_user_question"@);
                }
            }
        }
        i = i + 1;
    }
    assert(want_offered.subrange(0, want_offered.len() as int) =~= want_offered);
    (tools, ask)
}

fn push_craft_blocks(s: &mut String, reqs: &Vec<String>)
    ensures
        final(s)@ == old(s)@ + craft_blocks(reqs@),
{
    let ghost start = s@;
    let mut i: usize = 0;
    while i < reqs.len()
        invariant
            i <= reqs@.len(),
            s@ == start + craft_blocks(reqs@.subrange(0, i as int)),
        decreases reqs.len() - i,
    {
        let ghost pre = reqs@.subrange(0, i + 1);
        assert(pre.drop_last() =~= reqs@.subrange(0, i as int));
        assert(pre.last() == reqs@[i as int]);
        let r = reqs[i].as_str();
        if let Some(txt) = rule_text(r, None) {
            push_str(s, "\n# craft: ");
            push_str(s, r);
            push_str(s, "\n");
            let t = trim_string(txt.as_str());
            push_str(s, t.as_str());
            push_str(s, "\n");
        }
        assert(s@ =~= start + craft_blocks(pre));
        i = i + 1;
    }
    assert(reqs@.subrange(0, reqs@.len() as int) =~= reqs@);
}

fn push_case_lines(s: &mut String, cases: &Vec<CaseEntry>)
    ensures
        final(s)@ == old(s)@ + case_lines(cases@),
{
    let ghost start = s@;
    let mut i: usize = 0;
    while i < cases.len()
        invariant
            i <= cases@.len(),
            s@ == start + case_lines(cases@.subrange(0, i as int)),
        decreases cases.len() - i,
    {
        let ghost pre = cases@.subrange(0, i + 1);
        assert(pre.drop_last() =~= cases@.subrange(0, i as int));
        assert(pre.last() == cases@[i as int]);
        let c = &cases[i];
        let ghost before = s@;
        push_str(s, "- ");
        push_str(s, c.title.as_str());
        push_str(s, " (");
        push_str(s, c.id.as_str());
        push_str(s, ")");
        if c.tags.len() > 0 {
            push_str(s, " [");
            push_joined(s, &c.tags, ",");
            push_str(s, "]");
        }
        if !c.note.as_str().is_empty() {
            push_str(s, " — ");
            push_str(s, c.note.as_str());
        }
        push_str(s, "\n");
        assert(s@ =~= before + case_line(*c));
        assert(s@ =~= start + case_lines(pre));
        i = i + 1;
    }
    assert(cases@.subrange(0, cases@.len() as int) =~= cases@);
}

fn push_picker(s: &mut String)
    ensures
        final(s)@ == old(s)@ + picker_lines(bundled_views().len()),
{
    let ghost start = s@;
    let sums = direction_summaries();
    let mut i: usize = 0;
    while i < sums.len()
        invariant
            i <= sums@.len(),
            sums@.len() == bundled_views().len(),
            forall|k: int|
                0 <= k < sums@.len() ==> (#[trigger] sums@[k]).0@ == bundled_views()[k].id
                    && sums@[k].1@ == bundled_views()[k].one_line,
            s@ == start + picker_lines(i as nat),
        decreases sums.len() - i,
    {
        push_str(s, "- [");
        push_str(s, sums[i].0.as_str());
        push_str(s, "] ");
        push_str(s, sums[i].1.as_str());
        push_str(s, "\n");
        assert(s@ =~= start + picker_lines((i + 1) as nat));
        i = i + 1;
    }
}

fn push_skill_blocks(s: &mut String, skills: &Vec<Skill>, tools: &Vec<String>)
    ensures
        final(s)@ == old(s)@ + skill_blocks(skills@, tools@),
{
    let ghost start = s@;
    let mut i: usize = 0;
    while i < skills.len()
        invariant
            i <= skills@.len(),
            s@ == start + skill_blocks(skills@.subrange(0, i as int), tools@),
        decreases skills.len() - i,
    {
        let ghost pre = skills@.subrange(0, i + 1);
        assert(pre.drop_last() =~= skills@.subrange(0, i as int));
        assert(pre.last() == skills@[i as int]);
        let f = skills[i].prompt_fragment(tools);
        push_str(s, f.as_str());
        assert(s@ =~= start + skill_blocks(pre, tools@));
        i = i + 1;
    }
    assert(skills@.subrange(0, skills@.len() as int) =~= skills@);
}

/// Builds the prompt of a role bound to a loaded design system: its
/// identity, the DS binding, the craft rules (Planner, Critic, Fixer),
/// the rubric (Critic), the case library (Planner, Critic), the first-turn
/// rule and direction picker (Interpreter), the locked direction (Planner,
/// Critic, Fixer), then each skill's fragment for the role's tools.
#[verifier::rlimit(40)]
#[verifier::spinoff_prover]
pub fn build(role: Role, ds: &DesignSystem, opts: &PromptOptions) -> (p: RolePrompt)
    ensures
        p.role == role,
        views(p.tools@) == tool_list(role, opts.edit_whitelist@.len() > 0),
        p.allow_ask_user == tool_list(role, opts.edit_whitelist@.len() > 0).contains(
            "ask_user_question"@,
        ),
        p.system@ == system_head(role, *ds, *opts) + skill_blocks(opts.skills@, p.tools@),
{
    let mut system = String::new();
    push_str(&mut system, role_identity(role));
    push_str(&mut system, "\n\n");
    let binding = plan_binding(ds);
    push_str(&mut system, binding.as_str());
    push_str(&mut system, "\n");
    let ghost g1 = system@;
    if role == Role::Planner || role == Role::Critic || role == Role::Fixer {
        push_craft_blocks(&mut system, &ds.constraints.craft.requires);
    }
    let ghost g2 = system@;
    if role == Role::Critic {
        push_str(&mut system, "\n\n# 5-Dimensional Critique Rubric\n");
        push_str(&mut system, RUBRIC_MD);
    }
    let ghost g3 = system@;
    if (role == Role::Planner || role == Role::Critic) && ds.cases.cases.len() > 0 {
        push_str(&mut system, "\n# Case library (DS-curated references)\n");
        push_case_lines(&mut system, &ds.cases.cases);
        push_str(
            &mut system,
            "Use these as calibrators for what \"good\" looks like in this DS; do not copy them literally.\n",
        );
    }
    let ghost g4 = system@;
    if role == Role::Interpreter {
        push_str(&mut system, "\n# Turn-1 hard rule\n");
        push_str(&mut system, TURN1_RULE);
        if opts.include_vdp {
            push_str(
                &mut system,
                "\n\n# Visual Direction Picker (present these five options to the user)\n",
            );
            push_picker(&mut system);
        }
    }
    let ghost g5 = system@;
    if let Some(dir) = &opts.chosen_direction {
        if role == Role::Planner || role == Role::Critic || role == Role::Fixer {
            push_str(&mut system, "\n# Visual direction (locked)\nid: ");
            push_str(&mut system, dir.as_str());
            push_str(
                &mut system,
                "\nFollow this direction's posture, palette, typography, and rules.\n",
            );
        }
    }
    let ghost g6 = system@;
    proof {
        assert(g6 =~= system_head(role, *ds, *opts));
    }
    let (tools, allow_ask_user) = tool_surface(role, opts);
    push_skill_blocks(&mut system, &opts.skills, &tools);
    RolePrompt { role, system, tools, allow_ask_user }
}


// ── laws ───────────────────────────────────────────────────────────────────

proof fn lemma_literals_distinct()
    ensures
        forbidden().len() == 4,
        forall|i: int| 0 <= i < 4 ==> forbidden()[i] != "ask_user_question"@,
        forall|i: int| 0 <= i < 4 ==> forbidden()[i] != "plan_emit"@,
        forall|i: int| 0 <= i < 4 ==> forbidden()[i] != "critic_emit"@,
        forall|i: int| 0 <= i < 4 ==> forbidden()[i] != "image_understand"@,
        forall|i: int| 0 <= i < 4 ==> forbidden()[i] != "ds_emit"@,
        forall|i: int| 0 <= i < 4 ==> forbidden()[i] != "edit"@,
        "ask_user_question"@ != "plan_emit"@,
        "ask_user_question"@ != "critic_emit"@,
        "ask_user_question"@ != "image_understand"@,
        "ask_user_question"@ != "ds_emit"@,
        "ask_user_question"@ != "edit"@,
        "edit"@ != "plan_emit"@,
        "edit"@ != "critic_emit"@,
        "edit"@ != "image_understand"@,
        "edit"@ != "ds_emit"@,
{
    reveal_strlit("bash");
    reveal_strlit("PowerShell");
    reveal_strlit("shell");
    reveal_strlit("run_command");
    reveal_strlit("ask_user_question");
    reveal_strlit("plan_emit");
    reveal_strlit("critic_emit");
    reveal_strlit("image_understand");
    reveal_strlit("ds_emit");
    reveal_strlit("edit");
    assert("ask_user_question"@.len() != "plan_emit"@.len());
    assert("ask_user_question"@.len() != "critic_emit"@.len());
    assert("ask_user_question"@.len() != "image_understand"@.len());
    assert("ask_user_question"@.len() != "ds_emit"@.len());
    assert("ask_user_question"@.len() != "edit"@.len());
    assert("edit"@.len() != "plan_emit"@.len());
    assert("edit"@.len() != "critic_emit"@.len());
    assert("edit"@.len() != "image_understand"@.len());
    assert("edit"@.len() != "ds_emit"@.len());
    assert forall|i: int| 0 <= i < 4 implies forbidden()[i] != "ask_user_question"@
        && forbidden()[i] != "plan_emit"@ && forbidden()[i] != "critic_emit"@ && forbidden()[i]
        != "image_understand"@ && forbidden()[i] != "ds_emit"@ && forbidden()[i] != "edit"@ by {
        assert(forbidden()[i][0] == 'b' || forbidden()[i][0] == 'P' || forbidden()[i][0] == 's'
            || forbidden()[i][0] == 'r');
    }
}

/// None of the offered tools is forbidden, so the guard keeps them all.
proof fn lemma_tool_list_is_offered(r: Role, w: bool)
    ensures
        tool_list(r, w) == offered_tools(r, w),
{
    lemma_literals_distinct();
    let o = offered_tools(r, w);
    assert forall|i: int| 0 <= i < o.len() implies !forbidden().contains(#[trigger] o[i]) by {
        if forbidden().contains(o[i]) {
            let k = choose|k: int| 0 <= k < forbidden().len() && forbidden()[k] == o[i];
            assert(forbidden()[k] == o[i]);
        }
    }
    o.lemma_filter_len(|t: Seq<char>| !forbidden().contains(t));
    reveal_with_fuel(Seq::filter, 4);
    assert(o.filter(|t: Seq<char>| !forbidden().contains(t)) =~= o);
}

/// No role's tool surface ever holds a shell tool (`bash`, `PowerShell`,
/// `shell`, `run_command`), whatever the options.
pub proof fn law_no_role_sees_a_shell(r: Role, edit_whitelist_given: bool)
    ensures
        forall|i: int|
            0 <= i < tool_list(r, edit_whitelist_given).len() ==> !forbidden().contains(
                #[trigger] tool_list(r, edit_whitelist_given)[i],
            ),
{
    let o = offered_tools(r, edit_whitelist_given);
    assert forall|i: int| 0 <= i < tool_list(r, edit_whitelist_given).len() implies !forbidden().contains(
        #[trigger] tool_list(r, edit_whitelist_given)[i],
    ) by {
        o.lemma_filter_pred(|t: Seq<char>| !forbidden().contains(t), i);
    }
}

/// The `edit` tool is visible exactly to the Extractor, and only when the
/// caller passed a non-empty whitelist.
pub proof fn law_edit_needs_whitelist(r: Role, edit_whitelist_given: bool)
    ensures
        tool_list(r, edit_whitelist_given).contains("edit"@) <==> (r == Role::Extractor
            && edit_whitelist_given),
{
    lemma_tool_list_is_offered(r, edit_whitelist_given);
    lemma_literals_distinct();
    let t = tool_list(r, edit_whitelist_given);
    if r == Role::Extractor && edit_whitelist_given {
        assert(t[2] == "edit"@);
    }
}

/// Only the Interpreter may ask the user a question.
pub proof fn law_only_interpreter_asks(r: Role, edit_whitelist_given: bool)
    ensures
        tool_list(r, edit_whitelist_given).contains("ask_user_question"@) <==> r
            == Role::Interpreter,
{
    lemma_tool_list_is_offered(r, edit_whitelist_given);
    lemma_literals_distinct();
    let t = tool_list(r, edit_whitelist_given);
    if r == Role::Interpreter {
        assert(t[0] == "ask_user_question"@);
    }
}

} // verus!
