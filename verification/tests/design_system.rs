use codedesign::ds::components::{ComponentSpec, Components, SlotKind};
use codedesign::ds::constraints::{
    A11y, AllowExtension, Color, Constraints, Craft, Enforcement, Spacing, Typography,
};
use codedesign::ds::design_system::{join_path, CaseEntry, CaseIndex, DesignSystem, BUNDLED_ROOT};
use codedesign::ds::error::DsError;
use codedesign::ds::prompt::{critic_binding, plan_binding};
use codedesign::ds::tokens::{TokenValue, Tokens};
use codedesign::json::{Decimal, Json};
use codedesign::sorted_keys::{insert_keyed, sorted_entries, str_less};
use codedesign::prompts::{build, tool_surface, PromptOptions, Role, FORBIDDEN_TOOLS};
use codedesign::skill::{split_frontmatter, Skill, SkillError, SkillFront, SkillFrontCd, SkillRequires};
use codedesign::tools::ds_query::{handle_ds_query, ScoreBasis};
use codedesign::tools::ds_validate::handle_ds_validate;
use serde_json::Value;

// ── helpers ────────────────────────────────────────────────────────────────

fn number(n: &serde_json::Number) -> Decimal {
    if let Some(u) = n.as_u64() {
        return Decimal { negative: false, digits: u, exponent: 0, integer: true };
    }
    if let Some(i) = n.as_i64() {
        return Decimal { negative: true, digits: i.unsigned_abs(), exponent: 0, integer: true };
    }
    let f = n.as_f64().unwrap();
    let text = format!("{}", f.abs());
    let (whole, frac) = match text.split_once('.') {
        Some((w, f)) => (w.to_string(), f.to_string()),
        None => (text.clone(), String::new()),
    };
    let digits: u64 = format!("{}{}", whole, frac).parse().unwrap();
    Decimal { negative: f < 0.0, digits, exponent: -(frac.len() as i32), integer: false }
}

fn to_json(v: &Value) -> Json {
    match v {
        Value::Null => Json::Null,
        Value::Bool(b) => Json::Bool(*b),
        Value::Number(n) => Json::Number(number(n)),
        Value::String(s) => Json::Str(s.clone()),
        Value::Array(a) => Json::Array(a.iter().map(to_json).collect()),
        Value::Object(o) => Json::Object(o.iter().map(|(k, v)| (k.clone(), to_json(v))).collect()),
    }
}

fn j(text: &str) -> Json {
    to_json(&serde_json::from_str::<Value>(text).unwrap())
}

fn s(x: &str) -> String {
    x.to_string()
}

const TOKENS: &str = r#"{
  "version": "1.0.0",
  "color": {
    "bg.base": {"value": "oklch(99% 0.003 250)"},
    "bg.subtle": {"value": "oklch(97% 0.005 250)"},
    "fg.default": {"value": "oklch(22% 0.02 250)"},
    "fg.muted": {"value": "oklch(50% 0.02 250)"},
    "brand.primary": {"value": "oklch(55% 0.15 250)"},
    "border.default": {"value": "oklch(90% 0.01 250)"}
  },
  "space": {
    "base": 4,
    "xs": {"value": 4},
    "sm": {"value": 8},
    "md": {"value": 12},
    "lg": {"value": 16},
    "xl": {"value": 24}
  },
  "radius": {"sm": {"value": 4}, "md": {"value": 8}},
  "shadow": {"sm": {"value": "0 1px 2px rgba(0,0,0,0.06)"}},
  "typo": {
    "title.lg": {"family": "Inter", "weight": 600, "size": 28, "lineHeight": 36},
    "body.md": {"family": "Inter", "weight": 400, "size": 15, "lineHeight": 22.5}
  }
}"#;

fn components() -> Components {
    Components {
        version: s("1.0.0"),
        items: vec![
            (
                s("button.primary"),
                ComponentSpec {
                    variants: vec![(s("size"), vec![s("sm"), s("md"), s("lg")])],
                    slots: vec![(s("label"), SlotKind::from_literal("text"))],
                    tokens: vec![(s("bg"), s("brand.primary")), (s("fg"), s("bg.base"))],
                },
            ),
            (
                s("input.text"),
                ComponentSpec {
                    variants: vec![],
                    slots: vec![
                        (s("helper"), SlotKind::from_literal("text?")),
                        (s("label"), SlotKind::from_literal("text")),
                    ],
                    tokens: vec![(s("border"), s("border.default"))],
                },
            ),
        ],
    }
}

fn constraints() -> Constraints {
    Constraints {
        version: s("1.0.0"),
        enforcement: Enforcement::Balanced,
        allow_extension: AllowExtension { tokens: false, components: false, patterns: true },
        craft: Craft { requires: vec![s("anti-ai-slop"), s("accessibility-baseline")], overrides: vec![] },
        a11y: A11y {
            contrast_min: Decimal { negative: false, digits: 45, exponent: -1, integer: false },
            large_contrast_min: Decimal { negative: false, digits: 3, exponent: 0, integer: false },
            require_focus_ring: true,
        },
        typography: Typography { max_sizes_per_frame: Some(4), max_weights_per_frame: Some(3) },
        spacing: Spacing { base: 4, disallow_odd_px: true },
        color: Color { max_hues_per_frame: Some(3), brand_color_for_interactive_only: true },
    }
}

fn default_ds() -> DesignSystem {
    DesignSystem::from_pieces(
        s("default"),
        s(BUNDLED_ROOT),
        Tokens::parse(&j(TOKENS)).unwrap(),
        components(),
        j(r#"{"auth.login": {"description": "login form"}, "list.feed": {}}"#),
        constraints(),
        s("语气：中性、克制、直接。"),
        s("# Default design system\n\n## Philosophy\nQuiet, legible, honest."),
        CaseIndex { version: s("1"), cases: vec![] },
    )
}

fn skill(name: &str, kind: &str, requires: SkillRequires, aug: Vec<(String, String)>, body: &str) -> Skill {
    Skill::from_parts(
        SkillFront {
            cd: SkillFrontCd {
                name: s(name),
                version: s("1.0.0"),
                product_kind: s(kind),
                platform: s("mobile"),
                requires,
                tool_augmentation: aug,
            },
        },
        body,
        s("/skills/x"),
    )
}

// ── tokens ─────────────────────────────────────────────────────────────────

#[test]
fn parses_default_tokens() {
    let t = Tokens::parse(&j(TOKENS)).unwrap();
    assert_eq!(t.space_base, 4);
    assert!(t.color.iter().any(|(k, _)| k == "bg.base"));
    assert!(t.space.iter().any(|(k, _)| k == "md"));
    assert!(t.typo.iter().any(|(k, _)| k == "title.lg"));
}

#[test]
fn get_by_ref() {
    let t = Tokens::parse(&j(TOKENS)).unwrap();
    let c = t.get("color.brand.primary").unwrap();
    match c {
        TokenValue::Color(s) => assert!(s.starts_with("oklch(")),
        _ => panic!("wrong variant"),
    }
    assert!(t.get("color.does.not.exist").is_none());
    assert!(t.get("bogus.section").is_none());
}

#[test]
fn all_refs_contains_expected() {
    let t = Tokens::parse(&j(TOKENS)).unwrap();
    let refs = t.all_refs();
    assert!(refs.iter().any(|r| r == "color.bg.base"));
    assert!(refs.iter().any(|r| r == "typo.title.lg"));
}

#[test]
fn tokens_parse_errors() {
    assert!(matches!(Tokens::parse(&j("[]")), Err(DsError::Malformed { .. })));
    match Tokens::parse(&j(r#"{"color": {"x": {}}}"#)) {
        Err(DsError::Malformed { piece, detail }) => {
            assert_eq!(piece, "tokens.json");
            assert_eq!(detail, "color.x is missing `value`");
        }
        other => panic!("unexpected {:?}", other),
    }
    let t = Tokens::parse(&j("{}")).unwrap();
    assert_eq!(t.version, "0.0.0");
    assert_eq!(t.space_base, 4);
    assert!(t.all_refs().is_empty());
}

#[test]
fn token_display_forms() {
    let t = Tokens::parse(&j(TOKENS)).unwrap();
    assert_eq!(t.get("space.md").unwrap().display(), "12");
    assert_eq!(t.get("typo.body.md").unwrap().display(), "Inter/400 15px/22.5");
}

// ── components / constraints ───────────────────────────────────────────────

#[test]
fn components_lookup() {
    let c = components();
    let btn = c.get("button.primary").unwrap();
    assert!(btn.variants.iter().any(|(k, _)| k == "size"));
    assert!(btn.tokens.iter().any(|(k, v)| k == "bg" && v == "brand.primary"));
    let input = c.get("input.text").unwrap();
    assert!(input.slots.iter().any(|(k, v)| k == "helper" && v.optional && v.kind == "text"));
    assert!(input.slots.iter().any(|(k, v)| k == "label" && !v.optional));
    assert!(c.get("nope").is_none());
    assert_eq!(c.names(), vec![s("button.primary"), s("input.text")]);
}

#[test]
fn enforcement_names() {
    assert_eq!(Enforcement::Strict.name(), "Strict");
    assert_eq!(Enforcement::Balanced.name(), "Balanced");
    assert_eq!(Enforcement::Lenient.name(), "Lenient");
}

// ── design system ──────────────────────────────────────────────────────────

#[test]
fn loads_default_ds() {
    let ds = default_ds();
    assert_eq!(ds.meta.name, "default");
    assert_eq!(ds.meta.version, "1.0.0");
    assert!(ds.knows_ref("color.brand.primary"));
    assert!(ds.component_names().iter().any(|n| n == "button.primary"));
    assert!(ds.voice.contains("中性"));
    assert!(ds.design_md.contains("Philosophy"));
    assert_eq!(ds.cases.cases.len(), 0);
}

#[test]
fn value_for_ref_errors_on_unknown() {
    let ds = default_ds();
    assert!(ds.value_for_ref("color.nonexistent").is_err());
    let v = ds.value_for_ref("space.md").unwrap();
    assert_eq!(v, "12");
}

#[test]
fn bundled_default_loads() {
    let ds = default_ds();
    assert_eq!(ds.meta.name, "default");
    assert!(ds.knows_ref("color.brand.primary"));
    assert!(ds.component_names().iter().any(|n| n == "button.primary"));
    assert!(ds.case_image_candidates().is_empty());
}

#[test]
fn case_candidates_join_paths() {
    let mut ds = default_ds();
    ds.meta.root = s("/ds/acme");
    ds.cases = CaseIndex {
        version: s("1"),
        cases: vec![
            CaseEntry { id: s("a"), title: s("A"), tags: vec![], image: s("ok.png"), note: s("") },
            CaseEntry { id: s("c"), title: s("C"), tags: vec![], image: s(""), note: s("") },
        ],
    };
    let c = ds.case_image_candidates();
    assert_eq!(c.len(), 1);
    assert_eq!(c[0].0.id, "a");
    assert_eq!(c[0].1, "/ds/acme/cases/ok.png");
    assert_eq!(join_path("/a/", "b"), "/a/b");
}

#[test]
fn plan_binding_contains_expected_sections() {
    let ds = default_ds();
    let p = plan_binding(&ds);
    assert!(p.contains("# DS meta"));
    assert!(p.contains("# Tokens"));
    assert!(p.contains("color.bg.base"));
    assert!(p.contains("# Components"));
    assert!(p.contains("button.primary"));
    assert!(p.contains("# Craft requires"));
    assert!(p.contains("anti-ai-slop"));
    assert!(p.contains("# Voice"));
}

#[test]
fn critic_binding_reports_limits() {
    let ds = default_ds();
    let c = critic_binding(&ds);
    assert!(c.contains("contrastMin: 4.5"));
    assert!(c.contains("spacing.disallowOddPx: true"));
}

// ── prompts ────────────────────────────────────────────────────────────────

const ROLES: [Role; 5] = [Role::Interpreter, Role::Planner, Role::Critic, Role::Fixer, Role::Extractor];

#[test]
fn no_role_exposes_bash() {
    let ds = default_ds();
    for r in ROLES {
        let p = build(r, &ds, &PromptOptions::default());
        for forbidden in FORBIDDEN_TOOLS {
            assert!(!p.tools.iter().any(|t| t == forbidden), "role {r:?} exposed forbidden tool {forbidden}");
        }
    }
}

#[test]
fn interpreter_has_turn1_and_ask() {
    let ds = default_ds();
    let p = build(Role::Interpreter, &ds, &PromptOptions { include_vdp: true, ..Default::default() });
    assert!(p.system.contains("Turn-1 hard rule"));
    assert!(p.system.contains("Visual Direction Picker"));
    assert!(p.tools.iter().any(|t| t == "ask_user_question"));
    assert!(p.allow_ask_user);
}

#[test]
fn planner_has_plan_emit_not_ask() {
    let ds = default_ds();
    let p = build(Role::Planner, &ds, &PromptOptions::default());
    assert!(p.tools.iter().any(|t| t == "plan_emit"));
    assert!(!p.allow_ask_user);
}

#[test]
fn edit_tool_requires_whitelist() {
    let ds = default_ds();
    let p_off = build(Role::Extractor, &ds, &PromptOptions::default());
    assert!(p_off.tools.iter().all(|t| t != "edit"));
    let p_on = build(
        Role::Extractor,
        &ds,
        &PromptOptions { edit_whitelist: vec!["./out/".into()], ..Default::default() },
    );
    assert!(p_on.tools.iter().any(|t| t == "edit"));
}

#[test]
fn planner_sees_ds_binding() {
    let ds = default_ds();
    let p = build(Role::Planner, &ds, &PromptOptions::default());
    assert!(p.system.contains("color.brand.primary"));
    assert!(p.system.contains("button.primary"));
}

#[test]
fn chosen_direction_pins_downstream() {
    let ds = default_ds();
    let p = build(
        Role::Planner,
        &ds,
        &PromptOptions { chosen_direction: Some("tech-utility".into()), ..Default::default() },
    );
    assert!(p.system.contains("tech-utility"));
    assert!(p.system.contains("Visual direction (locked)"));
}

#[test]
fn craft_rules_embedded_for_planner() {
    let ds = default_ds();
    let p = build(Role::Planner, &ds, &PromptOptions::default());
    assert!(p.system.contains("craft: anti-ai-slop"));
}

#[test]
fn active_skill_augments_planner_plan_emit() {
    let ds = default_ds();
    let sk = skill(
        "screens",
        "screens",
        SkillRequires::default(),
        vec![(s("plan_emit"), s("Every screen lists its states."))],
        "Screens body.",
    );
    let p = build(Role::Planner, &ds, &PromptOptions { skills: vec![sk], ..Default::default() });
    assert!(p.system.contains("Active skill: screens"));
    assert!(p.system.contains("tool augmentation: plan_emit"));
}

#[test]
fn skill_augmentation_hidden_when_tool_absent() {
    let ds = default_ds();
    let sk = skill(
        "audit",
        "audit",
        SkillRequires::default(),
        vec![(s("critic_emit"), s("Score against the audit checklist."))],
        "Audit body.",
    );
    let p = build(Role::Planner, &ds, &PromptOptions { skills: vec![sk], ..Default::default() });
    assert!(!p.system.contains("tool augmentation: critic_emit"));
}

#[test]
fn only_interpreter_may_ask() {
    let opts = PromptOptions::default();
    for r in ROLES {
        let (tools, ask) = tool_surface(r, &opts);
        assert_eq!(ask, r == Role::Interpreter);
        assert_eq!(tools.iter().any(|t| t == "ask_user_question"), r == Role::Interpreter);
    }
}

// ── skills ─────────────────────────────────────────────────────────────────

#[test]
fn missing_fence_errors() {
    assert!(matches!(split_frontmatter("no frontmatter here"), Err(SkillError::MissingOpenFence)));
    assert!(matches!(split_frontmatter("---\n[cd]\nname = \"x\"\n"), Err(SkillError::MissingCloseFence)));
}

#[test]
fn frontmatter_and_body_split() {
    let (front, body) = split_frontmatter("---\n[cd]\nname = \"screens\"\n---\n\nSome body text.").unwrap();
    assert_eq!(front, "[cd]\nname = \"screens\"");
    assert_eq!(body, "Some body text.");
}

#[test]
fn requirements_satisfied_against_bundled_ds() {
    let ds = default_ds();
    let req = SkillRequires { ds_patterns: vec![], craft: vec![s("anti-ai-slop")], tokens: vec![s("color.brand.primary")] };
    let sk = skill("ok", "audit", req, vec![], "");
    sk.check_requirements(&ds).expect("bundled DS satisfies");
}

#[test]
fn requirement_unmet_surfaces_error() {
    let ds = default_ds();
    let req = SkillRequires { ds_patterns: vec![], craft: vec![], tokens: vec![s("color.nonexistent")] };
    let sk = skill("bad", "audit", req, vec![], "");
    assert!(matches!(sk.check_requirements(&ds), Err(SkillError::Unmet(_))));
    let req2 = SkillRequires { ds_patterns: vec![s("auth.*")], craft: vec![], tokens: vec![] };
    assert!(skill("p", "screens", req2, vec![], "").check_requirements(&ds).is_ok());
    let req3 = SkillRequires { ds_patterns: vec![s("checkout.*")], craft: vec![], tokens: vec![] };
    assert!(matches!(skill("q", "screens", req3, vec![], "").check_requirements(&ds), Err(SkillError::Unmet(_))));
}

#[test]
fn prompt_fragment_includes_tool_augmentation() {
    let sk = skill(
        "onb",
        "screens",
        SkillRequires::default(),
        vec![(s("plan_emit"), s("Onboarding rule: always include skip."))],
        "body",
    );
    let f = sk.prompt_fragment(&vec!["plan_emit".to_string()]);
    assert!(f.contains("Active skill: onb"));
    assert!(f.contains("Onboarding rule"));
    let f2 = sk.prompt_fragment(&vec!["critic_emit".to_string()]);
    assert!(!f2.contains("Onboarding rule"), "augmentation hides when tool inactive");
}

// ── ds.query / ds.validate ─────────────────────────────────────────────────

#[test]
fn exact_token_ref_scores_highest() {
    let r = handle_ds_query(&default_ds(), "color.brand.primary", 5, "any");
    assert!(r.hits.iter().any(|h| h.reference == "color.brand.primary" && h.basis == ScoreBasis::Exact));
    assert_eq!(r.hits[0].reference, "color.brand.primary");
}

#[test]
fn component_kind_filter_works() {
    let r = handle_ds_query(&default_ds(), "button", 5, "component");
    assert!(!r.hits.is_empty());
    assert!(r.hits.iter().all(|h| h.kind == "component"));
}

#[test]
fn limit_respected() {
    let r = handle_ds_query(&default_ds(), "color", 2, "any");
    assert!(r.hits.len() <= 2);
}

#[test]
fn empty_query_no_hits() {
    let r = handle_ds_query(&default_ds(), "nonexistentthing", 8, "any");
    assert!(r.hits.is_empty());
}

#[test]
fn clean_fragment_is_ok() {
    let frag = j(r#"{"fillRef": "color.brand.primary", "styleRef": "typo.body.md",
        "padding": "space.md", "componentRef": "button.primary"}"#);
    let r = handle_ds_validate(&default_ds(), &frag);
    assert!(r.ok, "{:?}", r.findings);
}

#[test]
fn unresolved_fill_detected() {
    let r = handle_ds_validate(&default_ds(), &j(r#"{"fillRef": "color.nonexistent"}"#));
    assert!(!r.ok);
    assert!(r.findings.iter().any(|f| f.code == "DSV-UNRESOLVED"));
}

#[test]
fn prefix_enforced() {
    let r = handle_ds_validate(&default_ds(), &j(r#"{"padding": "md"}"#));
    assert!(r.findings.iter().any(|f| f.code == "DSV-PREFIX-003"));
}

#[test]
fn unknown_component_detected() {
    let r = handle_ds_validate(&default_ds(), &j(r#"{"componentRef": "button.fancy"}"#));
    assert!(r.findings.iter().any(|f| f.code == "DSV-UNKNOWN-COMPONENT"));
}

#[test]
fn nested_path_reported() {
    let r = handle_ds_validate(&default_ds(), &j(r#"{"frames": [{"fillRef": "nope"}]}"#));
    assert!(r.findings[0].path.contains("frames[0].fillRef"));
}

// ── laws on concrete values ────────────────────────────────────────────────

#[test]
fn every_listed_ref_resolves_and_no_other() {
    let ds = default_ds();
    for r in ds.tokens.all_refs() {
        assert!(ds.tokens.get(&r).is_some(), "{r}");
        assert!(ds.knows_ref(&r));
        assert!(ds.value_for_ref(&r).is_ok());
    }
    for r in ["color", "color.", "colour.bg.base", "space.nope", ".md", "typo.title"] {
        assert!(ds.tokens.get(r).is_none(), "{r}");
        assert!(!ds.knows_ref(r));
        assert!(matches!(ds.value_for_ref(r), Err(DsError::UnknownRef(x)) if x == r));
    }
}

fn ratio_below(a: ScoreBasis, b: ScoreBasis) -> bool {
    let kind = |x: ScoreBasis| match x {
        ScoreBasis::Exact => 2,
        ScoreBasis::Substring { .. } => 1,
        ScoreBasis::Overlap { .. } => 0,
    };
    if kind(a) != kind(b) {
        return kind(a) < kind(b);
    }
    match (a, b) {
        (
            ScoreBasis::Substring { query_bytes: q1, candidate_bytes: c1 },
            ScoreBasis::Substring { query_bytes: q2, candidate_bytes: c2 },
        ) => (q1 as u128) * (c2 as u128) < (q2 as u128) * (c1 as u128),
        (ScoreBasis::Overlap { hits: h1, words: n1 }, ScoreBasis::Overlap { hits: h2, words: n2 }) => {
            (h1 as u128) * (n2 as u128) < (h2 as u128) * (n1 as u128)
        }
        _ => false,
    }
}

#[test]
fn query_hits_come_ranked_and_capped() {
    let ds = default_ds();
    for (q, limit) in [("primary", 10usize), ("bg", 10), ("md", 3), ("brand primary", 10), ("text", 1)] {
        let r = handle_ds_query(&ds, q, limit, "any");
        assert!(r.hits.len() <= limit);
        for w in r.hits.windows(2) {
            assert!(!ratio_below(w[0].basis, w[1].basis), "{q}: {:?} before {:?}", w[0].basis, w[1].basis);
        }
    }
    let r = handle_ds_query(&ds, "md", 10, "token");
    assert_eq!(r.hits[0].reference, "space.md");
    assert!(matches!(r.hits[0].basis, ScoreBasis::Substring { query_bytes: 2, candidate_bytes: 8 }));
}

// ── keyed entries in key order ─────────────────────────────────────────────

#[test]
fn text_order_is_lexicographic() {
    assert!(str_less("a", "b"));
    assert!(str_less("ab", "abc"));
    assert!(!str_less("abc", "ab"));
    assert!(!str_less("same", "same"));
    assert!(str_less("", "x"));
    assert!(str_less("Z", "a"));
    assert!(str_less("bg.base", "bg.muted"));
}

#[test]
fn insert_keyed_orders_and_replaces() {
    let mut v: Vec<(String, u32)> = Vec::new();
    insert_keyed(&mut v, s("m"), 1);
    insert_keyed(&mut v, s("a"), 2);
    insert_keyed(&mut v, s("z"), 3);
    insert_keyed(&mut v, s("m"), 4);
    assert_eq!(v, vec![(s("a"), 2), (s("m"), 4), (s("z"), 3)]);
}

#[test]
fn sorted_entries_later_value_wins() {
    let v = sorted_entries(vec![(s("b"), 1), (s("a"), 2), (s("b"), 3)]);
    assert_eq!(v, vec![(s("a"), 2), (s("b"), 3)]);
    assert!(sorted_entries(Vec::<(String, u8)>::new()).is_empty());
}

#[test]
fn tokens_sections_come_out_sorted_and_distinct() {
    let entry = |v: &str| Json::Object(vec![(s("value"), Json::Str(s(v)))]);
    let doc = Json::Object(vec![(
        s("color"),
        Json::Object(vec![
            (s("text.primary"), entry("oklch(0.2 0 0)")),
            (s("bg.base"), entry("oklch(0.99 0 0)")),
            (s("text.primary"), entry("oklch(0.1 0 0)")),
        ]),
    )]);
    let t = Tokens::parse(&doc).unwrap();
    assert_eq!(t.all_refs(), vec![s("color.bg.base"), s("color.text.primary")]);
    assert!(matches!(t.get("color.text.primary"), Some(TokenValue::Color(c)) if c == "oklch(0.1 0 0)"));
}

#[test]
fn components_from_entries_sorts_names() {
    let spec = |axis: &str| {
        ComponentSpec::new(
            vec![(s(axis), vec![s("sm")]), (s("size"), vec![s("md")])],
            vec![],
            vec![(s("fg"), s("color.text.primary")), (s("bg"), s("color.bg.base"))],
        )
    };
    let c = Components::from_entries(
        s("1"),
        vec![(s("input.text"), spec("tone")), (s("button.primary"), spec("density"))],
    );
    assert_eq!(c.names(), vec![s("button.primary"), s("input.text")]);
    let b = c.get("button.primary").unwrap();
    assert_eq!(b.variants[0].0, "density");
    assert_eq!(b.tokens[0].0, "bg");
    assert_eq!(b.tokens[1].0, "fg");
}

#[test]
fn skill_augmentations_follow_tool_names() {
    let sk = skill(
        "two",
        "screens",
        SkillRequires::default(),
        vec![(s("plan_emit"), s("P")), (s("critic_emit"), s("C"))],
        "",
    );
    let f = sk.prompt_fragment(&vec![s("plan_emit"), s("critic_emit")]);
    assert_eq!(
        f,
        "\n# Active skill: two (screens)\n\n## tool augmentation: critic_emit\nC\n\n## tool augmentation: plan_emit\nP\n"
    );
}
