//! Craft rules and visual directions.
//!
//! Craft rules are markdown texts compiled into the library; a project may
//! shadow one with a same-named file of its own, which the caller reads
//! and hands in. Visual directions are the presets of the direction picker
//! shown on the first turn.

use vstd::prelude::*;
use crate::json::Json;
use crate::text::{copy_string, keyed, keys_of, str_eq, to_owned};

verus! {

pub const CRATE_NAME: &'static str = "cd-craft";

// ── craft rule texts ───────────────────────────────────────────────────────

pub const ACCESSIBILITY_BASELINE: &'static str = "# Accessibility baseline

- Body text meets a contrast ratio of at least 4.5:1; large text (24px, or
  18.66px bold) at least 3:1.
- Every interactive element has a visible focus ring; never remove the
  outline without a replacement.
- Hit targets are at least 44x44px on touch platforms.
- Colour is never the only carrier of meaning: pair it with text or an icon.
- Every input has a visible label; placeholder text is not a label.
";

pub const ANIMATION_DISCIPLINE: &'static str = "# Animation discipline

- Motion explains a change of state; it never decorates.
- Durations stay between 120ms and 300ms; longer only for full-screen
  transitions.
- Ease out on enter, ease in on exit; no bounce on functional UI.
- Respect reduced-motion settings: every animation has a static fallback.
";

pub const ANTI_AI_SLOP: &'static str = "# Anti AI slop

- No purple-to-indigo gradients or default indigo brand colours.
- No emoji in functional roles (buttons, headings, list bullets).
- No generic display fonts chosen by default.
- No placeholder copy: no lorem ipsum, no \"Feature One / Two / Three\".
- No fabricated metrics (\"10x faster\", \"99% of teams\") unless the brief
  supplies the number.
- Every screen states one job; cut sections that exist only to fill space.
";

pub const COLOR: &'static str = "# Color

- Use the DS colour refs only; never raw hex in a plan.
- One brand colour, reserved for primary actions and selection.
- Neutrals carry the layout; limit each frame to a small set of hues.
- Status colours (success, warning, danger) are used for status only.
";

pub const FORM_VALIDATION: &'static str = "# Form validation

- Validate on blur, not on every keystroke; re-validate on submit.
- Errors sit next to the field they describe and say how to fix it.
- Never clear what the user typed because of an error.
- Disable submit only while a request is in flight, never as validation.
";

pub const LAWS_OF_UX: &'static str = "# Laws of UX

- Hick: fewer choices per screen make faster decisions.
- Fitts: primary actions are large and close to where the hand already is.
- Jakob: follow the platform's conventions before inventing new ones.
- Miller: group related items; keep visible groups small.
- Tesler: move complexity into the system, not onto the user.
";

pub const RTL_AND_BIDI: &'static str = "# RTL and bidi

- Lay out with start/end, not left/right.
- Mirror directional icons (back, forward, progress) in RTL locales.
- Do not mirror logos, media controls or numbers.
- Leave room for text expansion of at least 30%.
";

pub const SPACING: &'static str = "# Spacing

- All spacing is a multiple of the DS base grid.
- Related items sit closer together than unrelated ones.
- Use the DS space refs; never invent intermediate values.
- Keep consistent padding inside repeated components.
";

pub const STATE_COVERAGE: &'static str = "# State coverage

- Every data view has loading, empty, error and populated states.
- Every interactive control has default, hover, pressed, focused and
  disabled states.
- Empty states explain what belongs here and offer the first action.
";

pub const TYPOGRAPHY: &'static str = "# Typography

- Use the DS typography refs only.
- Body text line height is 1.4 to 1.6 times its size.
- Limit line length to about 45 to 75 characters.
- Limit each frame to a small number of sizes and weights.
";

pub const TYPOGRAPHY_HIERARCHY: &'static str = "# Typography hierarchy

- One clear title per screen; the eye lands there first.
- Each level differs from the next by size or weight, not by colour alone.
- Secondary text is smaller or lighter, never both plus a new colour.
- Do not use more than three levels in one frame.
";

pub const TYPOGRAPHY_HIERARCHY_EDITORIAL: &'static str = "# Typography hierarchy (editorial)

- Display type may be large and expressive; body type stays quiet.
- Pair one display face with one text face; no third family.
- Use generous leading on long-form text and tighter leading on display.
- Let white space, not rules and boxes, separate sections.
";

/// The names of the bundled craft rules, in order.
pub open spec fn rule_names() -> Seq<Seq<char>> {
    seq![
        "accessibility-baseline"@,
        "animation-discipline"@,
        "anti-ai-slop"@,
        "color"@,
        "form-validation"@,
        "laws-of-ux"@,
        "rtl-and-bidi"@,
        "spacing"@,
        "state-coverage"@,
        "typography"@,
        "typography-hierarchy"@,
        "typography-hierarchy-editorial"@,
    ]
}

/// The texts of the bundled craft rules, in the order of their names.
pub open spec fn rule_texts() -> Seq<Seq<char>> {
    seq![
        ACCESSIBILITY_BASELINE@,
        ANIMATION_DISCIPLINE@,
        ANTI_AI_SLOP@,
        COLOR@,
        FORM_VALIDATION@,
        LAWS_OF_UX@,
        RTL_AND_BIDI@,
        SPACING@,
        STATE_COVERAGE@,
        TYPOGRAPHY@,
        TYPOGRAPHY_HIERARCHY@,
        TYPOGRAPHY_HIERARCHY_EDITORIAL@,
    ]
}

/// The bundled text of the first rule, from position `k` on, with this
/// name.
pub open spec fn rule_from(k: nat, name: Seq<char>) -> Option<Seq<char>>
    decreases rule_names().len() - k,
{
    if k >= rule_names().len() {
        None
    } else if rule_names()[k as int] == name {
        Some(rule_texts()[k as int])
    } else {
        rule_from(k + 1, name)
    }
}

/// The bundled text of the rule with this name.
pub open spec fn bundled_rule(name: Seq<char>) -> Option<Seq<char>> {
    rule_from(0, name)
}

/// Markdown rule files bundled into the library, keyed by file stem (e.g.
/// `"accessibility-baseline"`), in key order.
pub fn bundled_rules() -> (r: Vec<(&'static str, &'static str)>)
    ensures
        r@.len() == rule_names().len(),
        forall|i: int|
            0 <= i < r@.len() ==> (#[trigger] r@[i]).0@ == rule_names()[i] && r@[i].1@
                == rule_texts()[i],
{
    let r = vec![
        ("accessibility-baseline", ACCESSIBILITY_BASELINE),
        ("animation-discipline", ANIMATION_DISCIPLINE),
        ("anti-ai-slop", ANTI_AI_SLOP),
        ("color", COLOR),
        ("form-validation", FORM_VALIDATION),
        ("laws-of-ux", LAWS_OF_UX),
        ("rtl-and-bidi", RTL_AND_BIDI),
        ("spacing", SPACING),
        ("state-coverage", STATE_COVERAGE),
        ("typography", TYPOGRAPHY),
        ("typography-hierarchy", TYPOGRAPHY_HIERARCHY),
        ("typography-hierarchy-editorial", TYPOGRAPHY_HIERARCHY_EDITORIAL),
    ];
    r
}

/// The text of a required rule: the project's own copy when the caller
/// found one (`override_text`), else the bundled rule of that name.
pub fn rule_text(name: &str, override_text: Option<String>) -> (r: Option<String>)
    ensures
        match override_text {
            Some(t) => r == Some(t),
            None => match bundled_rule(name@) {
                Some(b) => r matches Some(s) && s@ == b,
                None => r is None,
            },
        },
{
    if let Some(t) = override_text {
        return Some(t);
    }
    let rules = bundled_rules();
    let mut i: usize = 0;
    while i < rules.len()
        invariant
            i <= rules@.len(),
            rules@.len() == rule_names().len(),
            forall|k: int|
                0 <= k < rules@.len() ==> (#[trigger] rules@[k]).0@ == rule_names()[k] && rules@[k].1@
                    == rule_texts()[k],
            rule_from(0, name@) == rule_from(i as nat, name@),
            override_text is None,
        decreases rules.len() - i,
    {
        if str_eq(rules[i].0, name) {
            return Some(to_owned(rules[i].1));
        }
        i = i + 1;
    }
    None
}


// ── visual directions ──────────────────────────────────────────────────────

/// One visual-direction preset.
#[derive(Debug)]
pub struct Direction {
    pub id: String,
    pub name: String,
    pub one_line: String,
    pub posture: Json,
    pub palette: Json,
    pub typography: Json,
    pub spacing_base: Option<u32>,
    pub rules: Vec<String>,
}

/// A direction lookup that found nothing.
#[derive(Debug)]
pub enum DirectionError {
    NotFound(String),
}

/// A direction's contents as texts.
pub struct DirectionView {
    pub id: Seq<char>,
    pub name: Seq<char>,
    pub one_line: Seq<char>,
    pub posture: Seq<(Seq<char>, Seq<char>)>,
    pub palette: Seq<(Seq<char>, Seq<char>)>,
    pub typography: Seq<(Seq<char>, Seq<char>)>,
    pub spacing_base: Option<u32>,
    pub rules: Seq<Seq<char>>,
}

/// `j` is an object whose members are exactly these keys with these string
/// values, in order.
pub open spec fn holds_strings(j: Json, kv: Seq<(Seq<char>, Seq<char>)>) -> bool {
    match j {
        Json::Object(es) => {
            &&& es@.len() == kv.len()
            &&& forall|i: int|
                0 <= i < kv.len() ==> (#[trigger] es@[i]).0@ == kv[i].0 && (es@[i].1 matches Json::Str(
                    s,
                ) && s@ == kv[i].1)
        },
        _ => false,
    }
}

/// A direction holds the texts of a view.
pub open spec fn shows(d: Direction, v: DirectionView) -> bool {
    &&& d.id@ == v.id
    &&& d.name@ == v.name
    &&& d.one_line@ == v.one_line
    &&& holds_strings(d.posture, v.posture)
    &&& holds_strings(d.palette, v.palette)
    &&& holds_strings(d.typography, v.typography)
    &&& d.spacing_base == v.spacing_base
    &&& d.rules@.len() == v.rules.len()
    &&& forall|i: int| 0 <= i < v.rules.len() ==> #[trigger] d.rules@[i]@ == v.rules[i]
}

/// The bundled directions, in id order.
pub open spec fn bundled_views() -> Seq<DirectionView> {
    seq![
        DirectionView {
            id: "brutalist"@,
            name: "Brutalist"@,
            one_line: "Raw grid, heavy type, hard edges: the structure is the decoration."@,
            posture: seq![("density"@, "dense"@), ("edges"@, "hard"@), ("contrast"@, "high"@)],
            palette: seq![
                ("bg"@, "oklch(0.98 0 0)"@),
                ("ink"@, "oklch(0.15 0 0)"@),
                ("accent"@, "oklch(0.63 0.24 29)"@),
            ],
            typography: seq![("display"@, "Archivo Black"@), ("body"@, "IBM Plex Mono"@)],
            spacing_base: Some(8u32),
            rules: seq![
                "No rounded corners."@,
                "Borders are 2px solid ink."@,
                "One accent colour, for the primary action only."@,
            ],
        },
        DirectionView {
            id: "neutral-modern"@,
            name: "Neutral Modern"@,
            one_line: "Quiet neutrals, clear hierarchy and one confident accent."@,
            posture: seq![("density"@, "balanced"@), ("edges"@, "soft"@), ("contrast"@, "medium"@)],
            palette: seq![
                ("bg"@, "oklch(0.99 0 0)"@),
                ("ink"@, "oklch(0.22 0.01 260)"@),
                ("accent"@, "oklch(0.55 0.15 250)"@),
            ],
            typography: seq![("display"@, "Inter Tight"@), ("body"@, "Inter"@)],
            spacing_base: Some(4u32),
            rules: seq![
                "Radius 8px on controls, 12px on cards."@,
                "Hierarchy comes from size and weight, not colour."@,
            ],
        },
        DirectionView {
            id: "soft-playful"@,
            name: "Soft Playful"@,
            one_line: "Rounded shapes, warm pastels and friendly, light motion."@,
            posture: seq![("density"@, "airy"@), ("edges"@, "round"@), ("contrast"@, "low"@)],
            palette: seq![
                ("bg"@, "oklch(0.97 0.02 80)"@),
                ("ink"@, "oklch(0.3 0.03 280)"@),
                ("accent"@, "oklch(0.75 0.12 350)"@),
            ],
            typography: seq![("display"@, "Nunito"@), ("body"@, "Nunito Sans"@)],
            spacing_base: Some(8u32),
            rules: seq![
                "Radius 16px or more on every surface."@,
                "Illustrations may carry colour; controls stay calm."@,
            ],
        },
        DirectionView {
            id: "tech-utility"@,
            name: "Tech Utility"@,
            one_line: "Dense data, monospace details, function before form."@,
            posture: seq![("density"@, "dense"@), ("edges"@, "crisp"@), ("contrast"@, "high"@)],
            palette: seq![
                ("bg"@, "oklch(0.18 0.01 250)"@),
                ("ink"@, "oklch(0.92 0.01 250)"@),
                ("accent"@, "oklch(0.78 0.15 160)"@),
            ],
            typography: seq![("display"@, "JetBrains Mono"@), ("body"@, "Inter"@)],
            spacing_base: Some(4u32),
            rules: seq![
                "Tables over cards for lists of records."@,
                "Numbers are right-aligned with tabular figures."@,
            ],
        },
        DirectionView {
            id: "warm-editorial"@,
            name: "Warm Editorial"@,
            one_line: "Serif headlines, generous margins and paper-warm neutrals."@,
            posture: seq![("density"@, "airy"@), ("edges"@, "soft"@), ("contrast"@, "medium"@)],
            palette: seq![
                ("bg"@, "oklch(0.97 0.01 85)"@),
                ("ink"@, "oklch(0.25 0.02 50)"@),
                ("accent"@, "oklch(0.55 0.13 40)"@),
            ],
            typography: seq![("display"@, "Fraunces"@), ("body"@, "Source Serif 4"@)],
            spacing_base: Some(8u32),
            rules: seq![
                "Long-form text at 18px or larger."@,
                "White space, not rules and boxes, separates sections."@,
            ],
        },
    ]
}

fn string_object(kv: Vec<(&str, &str)>) -> (j: Json)
    ensures
        holds_strings(j, kv@.map_values(|p: (&str, &str)| (p.0@, p.1@))),
{
    let mut es: Vec<(String, Json)> = Vec::new();
    let mut i: usize = 0;
    while i < kv.len()
        invariant
            i <= kv@.len(),
            es@.len() == i,
            forall|k: int|
                0 <= k < i ==> (#[trigger] es@[k]).0@ == kv@[k].0@ && (es@[k].1 matches Json::Str(s)
                    && s@ == kv@[k].1@),
        decreases kv.len() - i,
    {
        es.push((to_owned(kv[i].0), Json::Str(to_owned(kv[i].1))));
        i = i + 1;
    }
    Json::Object(es)
}

fn strings_of(v: Vec<&str>) -> (r: Vec<String>)
    ensures
        r@.len() == v@.len(),
        forall|i: int| 0 <= i < v@.len() ==> #[trigger] r@[i]@ == v@[i]@,
{
    let mut r: Vec<String> = Vec::new();
    let mut i: usize = 0;
    while i < v.len()
        invariant
            i <= v@.len(),
            r@.len() == i,
            forall|k: int| 0 <= k < i ==> #[trigger] r@[k]@ == v@[k]@,
        decreases v.len() - i,
    {
        r.push(to_owned(v[i]));
        i = i + 1;
    }
    r
}

fn make_direction(
    id: &str,
    name: &str,
    one_line: &str,
    posture: Vec<(&str, &str)>,
    palette: Vec<(&str, &str)>,
    typography: Vec<(&str, &str)>,
    spacing_base: Option<u32>,
    rules: Vec<&str>,
) -> (d: Direction)
    ensures
        shows(
            d,
            DirectionView {
                id: id@,
                name: name@,
                one_line: one_line@,
                posture: posture@.map_values(|p: (&str, &str)| (p.0@, p.1@)),
                palette: palette@.map_values(|p: (&str, &str)| (p.0@, p.1@)),
                typography: typography@.map_values(|p: (&str, &str)| (p.0@, p.1@)),
                spacing_base,
                rules: rules@.map_values(|s: &str| s@),
            },
        ),
{
    Direction {
        id: to_owned(id),
        name: to_owned(name),
        one_line: to_owned(one_line),
        posture: string_object(posture),
        palette: string_object(palette),
        typography: string_object(typography),
        spacing_base,
        rules: strings_of(rules),
    }
}

/// All bundled directions, in id order.
pub fn bundled_directions() -> (r: Vec<Direction>)
    ensures
        r@.len() == bundled_views().len(),
        forall|i: int| 0 <= i < r@.len() ==> shows(#[trigger] r@[i], bundled_views()[i]),
{
    let mut r: Vec<Direction> = Vec::new();
    r.push(
        make_direction(
            "brutalist",
            "Brutalist",
            "Raw grid, heavy type, hard edges: the structure is the decoration.",
            vec![("density", "dense"), ("edges", "hard"), ("contrast", "high")],
            vec![("bg", "oklch(0.98 0 0)"), ("ink", "oklch(0.15 0 0)"), ("accent", "oklch(0.63 0.24 29)")],
            vec![("display", "Archivo Black"), ("body", "IBM Plex Mono")],
            Some(8),
            vec![
                "No rounded corners.",
                "Borders are 2px solid ink.",
                "One accent colour, for the primary action only.",
            ],
        ),
    );
    r.push(
        make_direction(
            "neutral-modern",
            "Neutral Modern",
            "Quiet neutrals, clear hierarchy and one confident accent.",
            vec![("density", "balanced"), ("edges", "soft"), ("contrast", "medium")],
            vec![
                ("bg", "oklch(0.99 0 0)"),
                ("ink", "oklch(0.22 0.01 260)"),
                ("accent", "oklch(0.55 0.15 250)"),
            ],
            vec![("display", "Inter Tight"), ("body", "Inter")],
            Some(4),
            vec!["Radius 8px on controls, 12px on cards.", "Hierarchy comes from size and weight, not colour."],
        ),
    );
    r.push(
        make_direction(
            "soft-playful",
            "Soft Playful",
            "Rounded shapes, warm pastels and friendly, light motion.",
            vec![("density", "airy"), ("edges", "round"), ("contrast", "low")],
            vec![
                ("bg", "oklch(0.97 0.02 80)"),
                ("ink", "oklch(0.3 0.03 280)"),
                ("accent", "oklch(0.75 0.12 350)"),
            ],
            vec![("display", "Nunito"), ("body", "Nunito Sans")],
            Some(8),
            vec!["Radius 16px or more on every surface.", "Illustrations may carry colour; controls stay calm."],
        ),
    );
    r.push(
        make_direction(
            "tech-utility",
            "Tech Utility",
            "Dense data, monospace details, function before form.",
            vec![("density", "dense"), ("edges", "crisp"), ("contrast", "high")],
            vec![
                ("bg", "oklch(0.18 0.01 250)"),
                ("ink", "oklch(0.92 0.01 250)"),
                ("accent", "oklch(0.78 0.15 160)"),
            ],
            vec![("display", "JetBrains Mono"), ("body", "Inter")],
            Some(4),
            vec!["Tables over cards for lists of records.", "Numbers are right-aligned with tabular figures."],
        ),
    );
    r.push(
        make_direction(
            "warm-editorial",
            "Warm Editorial",
            "Serif headlines, generous margins and paper-warm neutrals.",
            vec![("density", "airy"), ("edges", "soft"), ("contrast", "medium")],
            vec![
                ("bg", "oklch(0.97 0.01 85)"),
                ("ink", "oklch(0.25 0.02 50)"),
                ("accent", "oklch(0.55 0.13 40)"),
            ],
            vec![("display", "Fraunces"), ("body", "Source Serif 4")],
            Some(8),
            vec!["Long-form text at 18px or larger.", "White space, not rules and boxes, separates sections."],
        ),
    );
    assert(r@.len() == bundled_views().len());
    r
}


/// The position of the first bundled direction, from `k` on, with this id.
pub open spec fn direction_from(k: nat, id: Seq<char>) -> Option<int>
    decreases bundled_views().len() - k,
{
    if k >= bundled_views().len() {
        None
    } else if bundled_views()[k as int].id == id {
        Some(k as int)
    } else {
        direction_from(k + 1, id)
    }
}

/// One-line summary of each direction, for the direction picker presented
/// to the user on the first turn: `(id, one line)`, in order.
pub fn direction_summaries() -> (r: Vec<(String, String)>)
    ensures
        r@.len() == bundled_views().len(),
        forall|i: int|
            0 <= i < r@.len() ==> (#[trigger] r@[i]).0@ == bundled_views()[i].id && r@[i].1@
                == bundled_views()[i].one_line,
{
    let dirs = bundled_directions();
    let mut r: Vec<(String, String)> = Vec::new();
    let mut i: usize = 0;
    while i < dirs.len()
        invariant
            i <= dirs@.len(),
            dirs@.len() == bundled_views().len(),
            forall|k: int| 0 <= k < dirs@.len() ==> shows(#[trigger] dirs@[k], bundled_views()[k]),
            r@.len() == i,
            forall|k: int|
                0 <= k < i ==> (#[trigger] r@[k]).0@ == bundled_views()[k].id && r@[k].1@
                    == bundled_views()[k].one_line,
        decreases dirs.len() - i,
    {
        assert(shows(dirs@[i as int], bundled_views()[i as int]));
        r.push((copy_string(&dirs[i].id), copy_string(&dirs[i].one_line)));
        i = i + 1;
    }
    r
}

/// The bundled direction with this id.
pub fn direction(id: &str) -> (r: Result<Direction, DirectionError>)
    ensures
        match direction_from(0, id@) {
            Some(k) => r matches Ok(d) && shows(d, bundled_views()[k]),
            None => r matches Err(DirectionError::NotFound(s)) && s@ == id@,
        },
{
    let mut dirs = bundled_directions();
    let mut i: usize = 0;
    while i < dirs.len()
        invariant
            i <= dirs@.len(),
            dirs@.len() == bundled_views().len(),
            forall|k: int| 0 <= k < dirs@.len() ==> shows(#[trigger] dirs@[k], bundled_views()[k]),
            direction_from(0, id@) == direction_from(i as nat, id@),
        decreases dirs.len() - i,
    {
        assert(shows(dirs@[i as int], bundled_views()[i as int]));
        if str_eq(dirs[i].id.as_str(), id) {
            let d = dirs.remove(i);
            return Ok(d);
        }
        i = i + 1;
    }
    Err(DirectionError::NotFound(to_owned(id)))
}

} // verus!
