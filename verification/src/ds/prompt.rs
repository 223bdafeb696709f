//! Prompt snippets for a loaded [`DesignSystem`].
//!
//! These produce the terse, structured system-prompt fragments that the
//! Plan and Critique roles splice into their prompts. The format is
//! deterministic and stable: role prompts may rely on its exact shape.

use vstd::prelude::*;
use crate::ds::components::ComponentSpec;
use crate::ds::constraints::enforcement_name;
use crate::ds::design_system::DesignSystem;
use crate::ds::tokens::{refs_of, token_at, token_text, TokensModel};
use crate::json::{decimal_text, push_decimal};
use crate::text::{
    bool_text, dec, join, push_bool, push_dec, push_joined, push_str, trim, trim_string, views,
};

verus! {

// ── specification ──────────────────────────────────────────────────────────

/// The value a ref shows: the token's text, or nothing when the ref does
/// not resolve.
#[verifier::opaque]
pub open spec fn shown_value(t: TokensModel, r: Seq<char>) -> Seq<char> {
    match token_at(t, r) {
        Some(v) => token_text(v),
        None => seq![],
    }
}

/// `- ref = value` for each ref; a ref that does not resolve shows an
/// empty value.
pub open spec fn token_lines(t: TokensModel, refs: Seq<Seq<char>>) -> Seq<char>
    decreases refs.len(),
{
    if refs.len() == 0 {
        seq![]
    } else {
        let r = refs.last();
        token_lines(t, refs.drop_last()) + "- "@ + r + " = "@ + shown_value(t, r) + "\n"@
    }
}

/// `axis:[v1,v2]` for one variant axis.
pub open spec fn axis_text(axis: (String, Vec<String>)) -> Seq<char> {
    axis.0@ + ":["@ + join(","@, views(axis.1@)) + "]"@
}

/// The variant axes of a component, space separated.
pub open spec fn variants_text(spec: ComponentSpec) -> Seq<char> {
    join(" "@, spec.variants@.map_values(|a: (String, Vec<String>)| axis_text(a)))
}

/// `- name { variants }` for each component.
pub open spec fn component_lines(items: Seq<(String, ComponentSpec)>) -> Seq<char>
    decreases items.len(),
{
    if items.len() == 0 {
        seq![]
    } else {
        component_lines(items.drop_last()) + "- "@ + items.last().0@ + " { "@ + variants_text(
            items.last().1,
        ) + " }\n"@
    }
}

/// `- item` for each item.
pub open spec fn bullet_lines(items: Seq<String>) -> Seq<char>
    decreases items.len(),
{
    if items.len() == 0 {
        seq![]
    } else {
        bullet_lines(items.drop_last()) + "- "@ + items.last()@ + "\n"@
    }
}

/// The Plan role's binding block: DS meta, every token ref with its value,
/// the components with their variants, the craft requirements (when there
/// are any) and the voice guide.
pub open spec fn plan_binding_text(ds: DesignSystem) -> Seq<char> {
    let reqs = ds.constraints.craft.requires@;
    "# DS meta\nname: "@ + ds.meta.name@ + "\nversion: "@ + ds.meta.version@ + "\nenforcement: "@
        + enforcement_name(ds.constraints.enforcement) + "\n\n"@
        + "# Tokens (refs — use these, do not invent)\n"@ + token_lines(ds.tokens@, refs_of(ds.tokens@))
        + "\n"@ + "# Components (use these, do not invent)\n"@ + component_lines(
        ds.components.items@,
    ) + "\n"@ + (if reqs.len() > 0 {
        "# Craft requires\n"@ + bullet_lines(reqs) + "\n"@
    } else {
        seq![]
    }) + "# Voice\n"@ + trim(ds.voice@) + "\n"@
}

/// `label n` and a newline, when there is a limit.
pub open spec fn limit_line(label: Seq<char>, n: Option<u32>) -> Seq<char> {
    match n {
        Some(n) => label + dec(n as nat) + "\n"@,
        None => seq![],
    }
}

/// The Critic role's binding block: the enforcement rules, without the
/// token inventory.
pub open spec fn critic_binding_text(ds: DesignSystem) -> Seq<char> {
    let c = ds.constraints;
    "# DS critique rules\nenforcement: "@ + enforcement_name(c.enforcement) + "\na11y.contrastMin: "@
        + decimal_text(c.a11y.contrast_min) + "\na11y.largeContrastMin: "@ + decimal_text(
        c.a11y.large_contrast_min,
    ) + "\na11y.requireFocusRing: "@ + bool_text(c.a11y.require_focus_ring) + "\nspacing.base: "@
        + dec(c.spacing.base as nat) + "\nspacing.disallowOddPx: "@ + bool_text(
        c.spacing.disallow_odd_px,
    ) + "\n"@ + limit_line("typography.maxSizesPerFrame: "@, c.typography.max_sizes_per_frame)
        + limit_line("typography.maxWeightsPerFrame: "@, c.typography.max_weights_per_frame)
        + limit_line("color.maxHuesPerFrame: "@, c.color.max_hues_per_frame) + (
    if c.color.brand_color_for_interactive_only {
        "color.brandColorForInteractiveOnly: true\n"@
    } else {
        seq![]
    })
}

// ── building the text ──────────────────────────────────────────────────────

fn shown(ds: &DesignSystem, r: &str) -> (v: String)
    ensures
        v@ == shown_value(ds.tokens@, r@),
{
    proof {
        reveal(shown_value);
    }
    match ds.value_for_ref(r) {
        Ok(v) => v,
        Err(_) => String::new(),
    }
}

fn push_token_lines(s: &mut String, ds: &DesignSystem, refs: &Vec<String>)
    ensures
        final(s)@ == old(s)@ + token_lines(ds.tokens@, views(refs@)),
{
    let ghost start = s@;
    let mut i: usize = 0;
    while i < refs.len()
        invariant
            i <= refs@.len(),
            s@ == start + token_lines(ds.tokens@, views(refs@.subrange(0, i as int))),
        decreases refs.len() - i,
    {
        let ghost pre = views(refs@.subrange(0, i + 1));
        assert(pre.drop_last() =~= views(refs@.subrange(0, i as int)));
        assert(pre.last() == refs@[i as int]@);
        let r = refs[i].as_str();
        let v = shown(ds, r);
        push_str(s, "- ");
        push_str(s, r);
        push_str(s, " = ");
        push_str(s, v.as_str());
        push_str(s, "\n");
        assert(s@ =~= start + token_lines(ds.tokens@, pre));
        i = i + 1;
    }
    assert(refs@.subrange(0, refs@.len() as int) =~= refs@);
}

fn push_variants(s: &mut String, spec: &ComponentSpec)
    ensures
        final(s)@ == old(s)@ + variants_text(*spec),
{
    let mut parts: Vec<String> = Vec::new();
    let mut i: usize = 0;
    while i < spec.variants.len()
        invariant
            i <= spec.variants@.len(),
            views(parts@) == spec.variants@.subrange(0, i as int).map_values(
                |a: (String, Vec<String>)| axis_text(a),
            ),
        decreases spec.variants.len() - i,
    {
        let axis = &spec.variants[i];
        let mut p = String::new();
        push_str(&mut p, axis.0.as_str());
        push_str(&mut p, ":[");
        push_joined(&mut p, &axis.1, ",");
        push_str(&mut p, "]");
        assert(p@ =~= axis_text(spec.variants@[i as int]));
        let ghost before = parts@;
        parts.push(p);
        assert(views(parts@) =~= views(before).push(p@));
        assert(spec.variants@.subrange(0, i + 1).map_values(|a: (String, Vec<String>)| axis_text(a))
            =~= spec.variants@.subrange(0, i as int).map_values(
            |a: (String, Vec<String>)| axis_text(a),
        ).push(axis_text(spec.variants@[i as int])));
        i = i + 1;
    }
    assert(spec.variants@.subrange(0, spec.variants@.len() as int) =~= spec.variants@);
    push_joined(s, &parts, " ");
}

fn push_component_lines(s: &mut String, items: &Vec<(String, ComponentSpec)>)
    ensures
        final(s)@ == old(s)@ + component_lines(items@),
{
    let ghost start = s@;
    let mut i: usize = 0;
    while i < items.len()
        invariant
            i <= items@.len(),
            s@ == start + component_lines(items@.subrange(0, i as int)),
        decreases items.len() - i,
    {
        let ghost pre = items@.subrange(0, i + 1);
        assert(pre.drop_last() =~= items@.subrange(0, i as int));
        push_str(s, "- ");
        push_str(s, items[i].0.as_str());
        push_str(s, " { ");
        push_variants(s, &items[i].1);
        push_str(s, " }\n");
        assert(s@ =~= start + component_lines(pre));
        i = i + 1;
    }
    assert(items@.subrange(0, items@.len() as int) =~= items@);
}

fn push_bullet_lines(s: &mut String, items: &Vec<String>)
    ensures
        final(s)@ == old(s)@ + bullet_lines(items@),
{
    let ghost start = s@;
    let mut i: usize = 0;
    while i < items.len()
        invariant
            i <= items@.len(),
            s@ == start + bullet_lines(items@.subrange(0, i as int)),
        decreases items.len() - i,
    {
        let ghost pre = items@.subrange(0, i + 1);
        assert(pre.drop_last() =~= items@.subrange(0, i as int));
        push_str(s, "- ");
        push_str(s, items[i].as_str());
        push_str(s, "\n");
        assert(s@ =~= start + bullet_lines(pre));
        i = i + 1;
    }
    assert(items@.subrange(0, items@.len() as int) =~= items@);
}

fn push_limit_line(s: &mut String, label: &str, n: Option<u32>)
    ensures
        final(s)@ == old(s)@ + limit_line(label@, n),
{
    match n {
        Some(n) => {
            push_str(s, label);
            push_dec(s, n as u64);
            push_str(s, "\n");
        },
        None => {
            assert(old(s)@ + limit_line(label@, n) =~= old(s)@);
        },
    }
}

/// The full DS-binding block handed to the Plan role. Sections, in order:
/// `# DS meta` (name, version, enforcement), `# Tokens` (every ref with
/// its value), `# Components` (names with their variants), `# Craft
/// requires` (only when there are any) and `# Voice` (the voice guide,
/// trimmed).
pub fn plan_binding(ds: &DesignSystem) -> (r: String)
    ensures
        r@ == plan_binding_text(*ds),
{
    let mut s = String::new();
    push_str(&mut s, "# DS meta\nname: ");
    push_str(&mut s, ds.meta.name.as_str());
    push_str(&mut s, "\nversion: ");
    push_str(&mut s, ds.meta.version.as_str());
    push_str(&mut s, "\nenforcement: ");
    push_str(&mut s, ds.constraints.enforcement.name());
    push_str(&mut s, "\n\n");
    let ghost meta = s@;
    push_str(&mut s, "# Tokens (refs — use these, do not invent)\n");
    let refs = ds.tokens.all_refs();
    push_token_lines(&mut s, ds, &refs);
    push_str(&mut s, "\n");
    let ghost tokens = s@;
    push_str(&mut s, "# Components (use these, do not invent)\n");
    push_component_lines(&mut s, &ds.components.items);
    push_str(&mut s, "\n");
    let ghost components = s@;
    if ds.constraints.craft.requires.len() > 0 {
        push_str(&mut s, "# Craft requires\n");
        push_bullet_lines(&mut s, &ds.constraints.craft.requires);
        push_str(&mut s, "\n");
    }
    let ghost craft = s@;
    push_str(&mut s, "# Voice\n");
    let voice = trim_string(ds.voice.as_str());
    push_str(&mut s, voice.as_str());
    push_str(&mut s, "\n");
    proof {
        let reqs = ds.constraints.craft.requires@;
        let craft_text = if reqs.len() > 0 {
            "# Craft requires\n"@ + bullet_lines(reqs) + "\n"@
        } else {
            Seq::<char>::empty()
        };
        assert(craft =~= components + craft_text);
        assert(s@ =~= plan_binding_text(*ds));
    }
    s
}

/// The compact snippet for the Critic role: the enforcement rules rather
/// than the full token inventory (the Critic works from a readback).
pub fn critic_binding(ds: &DesignSystem) -> (r: String)
    ensures
        r@ == critic_binding_text(*ds),
{
    let c = &ds.constraints;
    let mut s = String::new();
    push_str(&mut s, "# DS critique rules\nenforcement: ");
    push_str(&mut s, c.enforcement.name());
    push_str(&mut s, "\na11y.contrastMin: ");
    push_decimal(&mut s, &c.a11y.contrast_min);
    push_str(&mut s, "\na11y.largeContrastMin: ");
    push_decimal(&mut s, &c.a11y.large_contrast_min);
    push_str(&mut s, "\na11y.requireFocusRing: ");
    push_bool(&mut s, c.a11y.require_focus_ring);
    push_str(&mut s, "\nspacing.base: ");
    push_dec(&mut s, c.spacing.base as u64);
    push_str(&mut s, "\nspacing.disallowOddPx: ");
    push_bool(&mut s, c.spacing.disallow_odd_px);
    push_str(&mut s, "\n");
    push_limit_line(&mut s, "typography.maxSizesPerFrame: ", c.typography.max_sizes_per_frame);
    push_limit_line(&mut s, "typography.maxWeightsPerFrame: ", c.typography.max_weights_per_frame);
    push_limit_line(&mut s, "color.maxHuesPerFrame: ", c.color.max_hues_per_frame);
    let ghost before = s@;
    if c.color.brand_color_for_interactive_only {
        push_str(&mut s, "color.brandColorForInteractiveOnly: true\n");
    }
    proof {
        let tail = if c.color.brand_color_for_interactive_only {
            "color.brandColorForInteractiveOnly: true\n"@
        } else {
            Seq::<char>::empty()
        };
        assert(s@ =~= before + tail);
        assert(s@ =~= critic_binding_text(*ds));
    }
    s
}

} // verus!
