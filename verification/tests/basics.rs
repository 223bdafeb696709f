use codedesign::brief::{Brief, ClarifyAnswer, ClarifyAsk, Platform};
use codedesign::canvas::{compile, js_string, sanitize_id};
use codedesign::cli::{
    answer_is_yes, classify_node, parse_node_major, parse_unsigned, resolve_provider,
    resolve_provider_key, truncate, NodeCheck,
};
use codedesign::craft::{bundled_directions, bundled_rules, direction, direction_summaries, rule_text};
use codedesign::json::{Decimal, Json};
use codedesign::plan::{DesignPlan, Frame, Intent, Layout, LayoutMode, Node, Size, StepKind};
use codedesign::rubric::{
    critic_emit_schema, validate_report, Band, CritiqueReport, CritiqueScores, Dimension,
    DimensionScore, RubricError, RubricFinding, RUBRIC_MD,
};
use codedesign::state::{Phase, Session};
use codedesign::summarizer::{flatten_transcript, SessionSummary, SummarizerConfig};

fn s(x: &str) -> String {
    x.to_string()
}

fn whole(n: u64) -> Decimal {
    Decimal { negative: false, digits: n, exponent: 0, integer: true }
}

// ── crate names ────────────────────────────────────────────────────────────

#[test]
fn lib_crate_name_matches() {
    assert_eq!(codedesign::brief::CRATE_NAME, "cd-brief");
    assert_eq!(codedesign::canvas::CRATE_NAME, "cd-canvas");
    assert_eq!(codedesign::craft::CRATE_NAME, "cd-craft");
    assert_eq!(codedesign::critique::CRATE_NAME, "cd-critique");
    assert_eq!(codedesign::ds::CRATE_NAME, "cd-ds");
    assert_eq!(codedesign::figma::CRATE_NAME, "cd-figma-mcp");
    assert_eq!(codedesign::plan::CRATE_NAME, "cd-plan");
    assert_eq!(codedesign::prompts::CRATE_NAME, "cd-prompts");
    assert_eq!(codedesign::skill::CRATE_NAME, "cd-skill");
    assert_eq!(codedesign::summarizer::CRATE_NAME, "cd-summarizer");
    assert_eq!(codedesign::tools::CRATE_NAME, "cd-tools");
}

// ── brief and session ──────────────────────────────────────────────────────

#[test]
fn plan_ready_requires_intent_platform_screens() {
    let mut b = Brief::default();
    assert!(!b.is_plan_ready());
    b.intent = "signup flow".into();
    assert!(!b.is_plan_ready());
    b.platform = Some(Platform::Mobile);
    assert!(!b.is_plan_ready());
    b.screens.push("welcome".into());
    assert!(b.is_plan_ready());
}

#[test]
fn blank_intent_is_not_plan_ready() {
    let mut b = Brief::default();
    b.intent = "   ".into();
    b.platform = Some(Platform::Desktop);
    b.screens.push("home".into());
    assert!(!b.is_plan_ready());
}

fn sample_brief() -> Brief {
    let mut b = Brief::default();
    b.intent = "signup".into();
    b.platform = Some(Platform::Mobile);
    b.screens = vec!["welcome".into()];
    b
}

fn empty_object() -> Json {
    Json::Object(Vec::new())
}

#[test]
fn full_happy_path() {
    let mut sess = Session::new(s("sess-1"), s("design a signup"));
    assert_eq!(sess.phase, Phase::Intake);

    sess.interpret(sample_brief()).unwrap();
    assert_eq!(sess.phase, Phase::Interpret);

    sess.clarify_ask(vec![ClarifyAsk {
        id: "direction".into(),
        prompt: "pick a direction".into(),
        options: vec!["neutral-modern".into(), "tech-utility".into()],
        allow_multiple: false,
    }])
    .unwrap();
    assert_eq!(sess.phase, Phase::Clarify);

    sess.clarify_answer(vec![ClarifyAnswer { id: "direction".into(), values: vec!["tech-utility".into()] }])
        .unwrap();
    assert_eq!(sess.direction.as_deref(), Some("tech-utility"));

    let dir = sess.direction.clone();
    sess.ds_bind(s("default@1.0.0"), dir).unwrap();
    assert_eq!(sess.phase, Phase::DsBound);

    sess.plan(Json::Object(vec![(s("frames"), Json::Array(Vec::new()))])).unwrap();
    assert_eq!(sess.phase, Phase::Planned);

    sess.execute(Json::Object(vec![(s("nodes"), Json::Array(Vec::new()))])).unwrap();
    assert_eq!(sess.phase, Phase::Executed);

    sess.critique(Json::Array(Vec::new())).unwrap();
    assert_eq!(sess.phase, Phase::Critiqued);
}

#[test]
fn answers_merge_platform_and_screens() {
    let mut sess = Session::new(s("sess-5"), s("x"));
    let mut b = Brief::default();
    b.intent = "signup".into();
    sess.interpret(b).unwrap();
    sess.clarify_ask(Vec::new()).unwrap();
    sess.clarify_answer(vec![
        ClarifyAnswer { id: "platform".into(), values: vec!["mobile".into()] },
        ClarifyAnswer { id: "screens".into(), values: vec!["welcome".into(), "signup".into()] },
        ClarifyAnswer { id: "direction".into(), values: vec!["warm-editorial".into()] },
    ])
    .unwrap();
    let b = sess.brief.as_ref().unwrap();
    assert_eq!(b.platform, Some(Platform::Mobile));
    assert_eq!(b.screens, vec!["welcome".to_string(), "signup".to_string()]);
    assert_eq!(b.direction.as_deref(), Some("warm-editorial"));
    assert_eq!(b.intent, "signup");
    assert_eq!(sess.answers.len(), 3);
    assert!(b.is_plan_ready());

    let mut other = Session::new(s("sess-6"), s("y"));
    other.interpret(sample_brief()).unwrap();
    other.clarify_ask(Vec::new()).unwrap();
    other.clarify_answer(vec![
        ClarifyAnswer { id: "platform".into(), values: vec!["watch".into()] },
        ClarifyAnswer { id: "screens".into(), values: Vec::new() },
    ])
    .unwrap();
    let b = other.brief.as_ref().unwrap();
    assert_eq!(b.platform, Some(Platform::Mobile));
    assert_eq!(b.screens, vec!["welcome".to_string()]);
    assert!(other.direction.is_none());
}

#[test]
fn rejects_skipped_transitions() {
    let mut sess = Session::new(s("sess-2"), s("x"));
    assert!(sess.plan(empty_object()).is_err());
    assert_eq!(sess.phase, Phase::Intake);
}

#[test]
fn ds_bind_from_interpret_without_clarify() {
    let mut sess = Session::new(s("sess-4"), s("x"));
    sess.interpret(sample_brief()).unwrap();
    sess.ds_bind(s("default@1.0.0"), None).unwrap();
    assert_eq!(sess.phase, Phase::DsBound);
}

#[test]
fn critiqued_session_refuses_more_work() {
    let mut sess = Session::new(s("sess-5"), s("x"));
    sess.interpret(sample_brief()).unwrap();
    sess.ds_bind(s("default@1.0.0"), None).unwrap();
    sess.plan(empty_object()).unwrap();
    sess.execute(empty_object()).unwrap();
    sess.critique(empty_object()).unwrap();
    assert!(sess.interpret(sample_brief()).is_err());
    assert!(sess.critique(empty_object()).is_err());
    assert_eq!(sess.phase, Phase::Critiqued);
}

// ── canvas ─────────────────────────────────────────────────────────────────

#[test]
fn js_string_escapes_quotes_and_newlines() {
    assert_eq!(js_string("it's\n<ok>"), "'it\\'s\\n\\x3cok>'");
}

#[test]
fn js_string_escapes_controls_and_separators() {
    assert_eq!(js_string("a\\b\t\u{1}\u{2028}"), "'a\\\\b\\t\\x01\\u2028'");
}

#[test]
fn sanitize_id_handles_dots_and_leading_digit() {
    assert_eq!(sanitize_id("f1"), "f1");
    assert_eq!(sanitize_id("frame.a-b"), "frame_a_b");
    assert_eq!(sanitize_id("1x"), "_1x");
    assert_eq!(sanitize_id(""), "_");
}

fn text(style: &str, fill: &str, content: &str) -> Node {
    Node::Text { style_ref: s(style), fill_ref: s(fill), content: s(content) }
}

fn frame(id: &str, name: &str, children: Vec<Node>) -> Frame {
    Frame {
        local_id: s(id),
        name: s(name),
        page: s("Onboarding"),
        size: Size { w: whole(375), h: whole(812) },
        layout: Layout { mode: LayoutMode::Vertical, padding: s("space.lg"), gap: Some(s("space.md")) },
        fill_ref: Some(s("color.bg.base")),
        children,
    }
}

fn minimal_plan() -> DesignPlan {
    DesignPlan {
        plan_id: s("plan_s02_minimal"),
        ds_ref: s("default@1.0.0"),
        project_id: s("codedesign-session"),
        intent: Intent::CreateScreens,
        step_kind: StepKind::Skeleton,
        frames: vec![
            frame(
                "welcome",
                "Welcome",
                vec![
                    text("typo.title.lg", "color.fg.default", "欢迎"),
                    text("typo.body.md", "color.fg.muted", "开始配置你的第一个项目"),
                    Node::Instance { component_ref: s("button.primary"), props: s("{\"label\":\"开始\"}") },
                ],
            ),
            frame("profile", "Profile", vec![text("typo.body.md", "color.fg.default", "你的资料")]),
            frame("done", "Done", vec![text("typo.title.lg", "color.fg.default", "完成")]),
        ],
        components_to_create: Vec::new(),
        tokens_to_create: Vec::new(),
        craft_asserts: Vec::new(),
        quality_gates: Vec::new(),
        depends_on: Vec::new(),
        rationale: s(""),
    }
}

#[test]
fn compile_is_deterministic() {
    let plan = minimal_plan();
    let a = compile(&plan).expect("compile ok");
    let b = compile(&plan).expect("compile ok");
    assert_eq!(a, b);
}

#[test]
fn compile_emits_plan_header_and_frames() {
    let js = compile(&minimal_plan()).expect("compile ok");
    assert!(js.contains("planId: plan_s02_minimal"));
    assert!(js.contains("dsRef:  default@1.0.0"));
    assert!(js.contains("__cdPreloadFonts"));
    assert!(js.contains("__cdEmitResult"));
    assert_eq!(js.matches("figma.createFrame()").count(), 3);
    assert_eq!(js.matches("try {").count(), 3);
    assert_eq!(js.matches("} catch (e) {").count(), 3);
}

#[test]
fn compile_binds_refs_not_raw_values() {
    let js = compile(&minimal_plan()).expect("compile ok");
    assert!(js.contains("__cdBindFill"));
    assert!(js.contains("'color.bg.base'"));
    assert!(js.contains("'typo.title.lg'"));
    assert!(js.contains("'button.primary'"));
    assert!(!js.contains('#'));
}

#[test]
fn compile_creates_children_in_order() {
    let js = compile(&minimal_plan()).expect("compile ok");
    let pos_title = js.find("'欢迎'").expect("title text");
    let pos_sub = js.find("'开始配置你的第一个项目'").expect("sub text");
    let pos_btn = js.find("\"label\":\"开始\"").expect("button label");
    assert!(pos_title < pos_sub && pos_sub < pos_btn);
}

#[test]
fn compile_writes_sizes_and_layout() {
    let js = compile(&minimal_plan()).expect("compile ok");
    assert!(js.contains("    f_welcome.resizeWithoutConstraints(375, 812);\n"));
    assert!(js.contains("    f_welcome.layoutMode = 'VERTICAL';\n"));
    assert!(js.contains("    await __cdBindGap(f_welcome, 'space.md');\n"));
    assert!(js.contains("    const t_welcome_0 = figma.createText();\n"));
}

// ── command-line helpers ───────────────────────────────────────────────────

#[test]
fn parse_node_major_handles_v_prefix() {
    assert_eq!(parse_node_major("v20.11.0"), Some(20));
    assert_eq!(parse_node_major("18.0.0"), Some(18));
    assert_eq!(parse_node_major("not a version"), None);
}

#[test]
fn parse_node_major_edge_cases() {
    assert_eq!(parse_node_major("vv16"), Some(16));
    assert_eq!(parse_node_major("+22.1"), Some(22));
    assert_eq!(parse_node_major("4294967296.0"), None);
    assert_eq!(parse_node_major(".1"), None);
    assert_eq!(parse_node_major(""), None);
}

#[test]
fn unsigned_parse_matches_std() {
    assert_eq!(parse_unsigned("8", 20), Some(8));
    assert_eq!(parse_unsigned("+3", 20), Some(3));
    assert_eq!(parse_unsigned("21", 20), None);
    assert_eq!(parse_unsigned("+", 20), None);
    assert_eq!(parse_unsigned("-1", 20), None);
    assert_eq!(parse_unsigned("18446744073709551615", u64::MAX), Some(u64::MAX));
    assert_eq!(parse_unsigned("18446744073709551616", u64::MAX), None);
}

#[test]
fn node_check_needs_18() {
    assert_eq!(classify_node("v20.1.0"), NodeCheck::Supported(20));
    assert_eq!(classify_node("v16.0.0"), NodeCheck::TooOld(16));
    assert_eq!(classify_node("garbage"), NodeCheck::Unparsable);
}

#[test]
fn yes_answers() {
    assert!(answer_is_yes(" Y\n"));
    assert!(answer_is_yes("yes"));
    assert!(!answer_is_yes("no"));
    assert!(!answer_is_yes(""));
}

#[test]
fn truncate_short_string_unchanged() {
    assert_eq!(truncate("hello", 100), "hello");
}

#[test]
fn truncate_long_string_cut() {
    let big = "a".repeat(3000);
    let t = truncate(&big, 100);
    assert!(t.starts_with(&"a".repeat(100)));
    assert!(t.contains("truncated"));
    assert_eq!(t, format!("{}\n... [truncated, 3000 bytes total]", "a".repeat(100)));
}

#[test]
fn truncate_counts_bytes() {
    assert_eq!(truncate("日本語", 3), "日\n... [truncated, 9 bytes total]");
    assert_eq!(truncate("日本語", 9), "日本語");
}

fn env(pairs: &[(&str, &str)]) -> Vec<(String, String)> {
    pairs.iter().map(|(k, v)| (s(k), s(v))).collect()
}

#[test]
fn provider_key_prefers_new_name() {
    let e = env(&[("DEEPSEEK_API_KEY", "old"), ("CODEDESIGN_DEEPSEEK_API_KEY", "new")]);
    assert_eq!(resolve_provider_key(&e), Some((s("new"), false)));
    let e = env(&[("DEEPSEEK_API_KEY", "old"), ("CODEDESIGN_DEEPSEEK_API_KEY", "")]);
    assert_eq!(resolve_provider_key(&e), Some((s("old"), true)));
    assert_eq!(resolve_provider_key(&env(&[])), None);
}

#[test]
fn provider_settings_and_defaults() {
    let e = env(&[("CODEDESIGN_DEEPSEEK_API_KEY", "k"), ("DEEPSEEK_MODEL", "m2")]);
    let p = resolve_provider(&e).unwrap();
    assert_eq!(p.key, "k");
    assert_eq!(p.base, "https://api.deepseek.com");
    assert_eq!(p.model, "m2");
    assert!(resolve_provider(&env(&[("DEEPSEEK_MODEL", "m2")])).is_none());
}

// ── craft ──────────────────────────────────────────────────────────────────

#[test]
fn bundled_rules_complete() {
    let r = bundled_rules();
    for key in [
        "accessibility-baseline",
        "animation-discipline",
        "anti-ai-slop",
        "form-validation",
        "laws-of-ux",
        "rtl-and-bidi",
        "typography-hierarchy",
        "typography-hierarchy-editorial",
    ] {
        let hit = r.iter().find(|(k, _)| *k == key);
        assert!(hit.is_some(), "missing rule file: {key}");
        assert!(!hit.unwrap().1.trim().is_empty());
    }
}

#[test]
fn rule_text_fallback_to_bundled() {
    let t = rule_text("anti-ai-slop", None).unwrap();
    assert!(!t.is_empty());
    assert_eq!(rule_text("color", Some(s("local"))), Some(s("local")));
    assert_eq!(rule_text("no-such-rule", None), None);
}

#[test]
fn bundled_directions_has_five() {
    let d = bundled_directions();
    assert_eq!(d.len(), 5);
    assert!(d.iter().any(|x| x.id == "neutral-modern"));
}

#[test]
fn direction_summaries_ordered() {
    let sums = direction_summaries();
    assert_eq!(sums.len(), 5);
    assert!(sums.iter().all(|(_, l)| !l.is_empty()));
    let ids: Vec<&str> = sums.iter().map(|(i, _)| i.as_str()).collect();
    assert_eq!(ids, vec!["brutalist", "neutral-modern", "soft-playful", "tech-utility", "warm-editorial"]);
}

#[test]
fn direction_lookup_found_and_missing() {
    assert!(direction("tech-utility").is_ok());
    assert!(direction("nope").is_err());
    assert_eq!(direction("tech-utility").unwrap().spacing_base, Some(4));
}

// ── rubric ─────────────────────────────────────────────────────────────────

fn score(score: u8, band: Band, w5: Option<&str>, w7: Option<&str>) -> DimensionScore {
    DimensionScore { score, band, why_not_5: w5.map(s), why_not_7: w7.map(s) }
}

fn good_report() -> CritiqueReport {
    CritiqueReport {
        plan_id: s("p-1"),
        scores: CritiqueScores {
            philosophy: score(5, Band::Acceptable, None, None),
            hierarchy: score(
                7,
                Band::Good,
                Some("clear primary-CTA vs. secondary link hierarchy"),
                Some("could still tighten label-field pairing"),
            ),
            craft: score(6, Band::Acceptable, Some("consistent 8pt grid, no orphan alignments"), None),
            functionality: score(4, Band::NeedsWork, None, None),
            innovation: score(5, Band::Acceptable, None, None),
        },
        total_score: 4,
        worst_dimension: Dimension::Functionality,
        findings: vec![RubricFinding {
            dimension: Dimension::Functionality,
            severity: s("P1"),
            node_id: s("1:2"),
            evidence: s("error state has no retry affordance"),
            fix_ops: Vec::new(),
        }],
    }
}

#[test]
fn valid_report_passes() {
    let r = validate_report(good_report()).unwrap();
    assert_eq!(r.total_score, 4);
    assert_eq!(r.worst_dimension, Dimension::Functionality);
}

#[test]
fn innovation_cap_enforced() {
    let mut r = good_report();
    r.scores.innovation = score(9, Band::Exemplary, Some("x"), Some("y"));
    assert!(matches!(validate_report(r), Err(RubricError::InnovationCap(9))));
}

#[test]
fn score_6_requires_why_not_5() {
    let mut r = good_report();
    r.scores.craft = score(6, Band::Acceptable, None, None);
    assert!(matches!(validate_report(r), Err(RubricError::MissingWhyNot5(_, 6))));
}

#[test]
fn score_8_requires_why_not_7() {
    let mut r = good_report();
    r.scores.hierarchy = score(8, Band::Good, Some("x"), None);
    assert!(matches!(validate_report(r), Err(RubricError::MissingWhyNot7(_, 8))));
}

#[test]
fn total_must_equal_worst() {
    let mut r = good_report();
    r.total_score = 7;
    assert!(matches!(validate_report(r), Err(RubricError::TotalScoreMismatch { claimed: 7, actual: 4 })));
}

#[test]
fn worst_dim_must_match() {
    let mut r = good_report();
    r.worst_dimension = Dimension::Craft;
    assert!(matches!(validate_report(r), Err(RubricError::WorstDimensionMismatch { .. })));
}

#[test]
fn band_must_match_score() {
    let mut r = good_report();
    r.scores.philosophy = score(5, Band::Good, None, None);
    assert!(matches!(validate_report(r), Err(RubricError::BandMismatch { .. })));
}

#[test]
fn vacuous_adjective_rejected() {
    let mut r = good_report();
    r.findings = vec![RubricFinding {
        dimension: Dimension::Craft,
        severity: s("P2"),
        node_id: s(""),
        evidence: s("overall looks good, feels clean"),
        fix_ops: Vec::new(),
    }];
    assert!(matches!(validate_report(r), Err(RubricError::VacuousEvidence(_))));
}

#[test]
fn empty_evidence_rejected() {
    let mut r = good_report();
    r.findings = vec![RubricFinding {
        dimension: Dimension::Craft,
        severity: s("P2"),
        node_id: s(""),
        evidence: s("   "),
        fix_ops: Vec::new(),
    }];
    assert!(matches!(validate_report(r), Err(RubricError::EmptyEvidence)));
}

#[test]
fn out_of_range_score_rejected() {
    let mut r = good_report();
    r.scores.craft = score(0, Band::Broken, None, None);
    assert!(matches!(validate_report(r), Err(RubricError::OutOfRange(0, "craft"))));
}

#[test]
fn band_from_score_bands() {
    assert_eq!(Band::from_score(0), None);
    assert_eq!(Band::from_score(2), Some(Band::Broken));
    assert_eq!(Band::from_score(4), Some(Band::NeedsWork));
    assert_eq!(Band::from_score(6), Some(Band::Acceptable));
    assert_eq!(Band::from_score(8), Some(Band::Good));
    assert_eq!(Band::from_score(10), Some(Band::Exemplary));
    assert_eq!(Band::from_score(11), None);
}

#[test]
fn scores_iterate_in_dimension_order() {
    let r = good_report();
    let dims: Vec<&str> = r.scores.iter().iter().map(|(d, _)| d.as_str()).collect();
    assert_eq!(dims, vec!["philosophy", "hierarchy", "craft", "functionality", "innovation"]);
    assert_eq!(r.scores.by_dimension(Dimension::Functionality).score, 4);
}

#[test]
fn schema_compiles_as_valid_json() {
    let v: serde_json::Value = serde_json::from_str(&critic_emit_schema()).unwrap();
    assert_eq!(v["function"]["name"], "critic_emit");
    assert_eq!(v["function"]["parameters"]["properties"]["scores"]["properties"]["innovation"]["properties"]["score"]["maximum"], 8);
}

#[test]
fn rubric_md_embedded() {
    assert!(RUBRIC_MD.contains("Philosophy consistency"));
    assert!(RUBRIC_MD.contains("worst-of-5"));
}

// ── summarizer ─────────────────────────────────────────────────────────────

#[test]
fn injection_text_includes_sections() {
    let sum = SessionSummary {
        facts: vec!["brand=acme".into()],
        decisions: vec![],
        open_questions: vec!["confirm tone?".into()],
        tool_results_digest: vec![],
        last_plan_id: None,
    };
    let t = sum.to_injection_text();
    assert!(t.contains("Facts:"));
    assert!(t.contains("brand=acme"));
    assert!(t.contains("Open questions:"));
    assert!(!t.contains("Decisions:"));
}

#[test]
fn injection_text_exact_shape() {
    let sum = SessionSummary {
        facts: vec![],
        decisions: vec!["direction=neutral-modern".into()],
        open_questions: vec![],
        tool_results_digest: vec![],
        last_plan_id: Some("p_abc".into()),
    };
    assert_eq!(
        sum.to_injection_text(),
        "=== PRIOR SESSION SUMMARY ===\n\nDecisions:\n- direction=neutral-modern\n\nLastPlanId: p_abc\n"
    );
}

#[test]
fn flatten_transcript_preserves_order() {
    let out = flatten_transcript(&vec![
        (s("user"), s("hi")),
        (s("assistant"), s("hello")),
        (s("tool"), s("{\"ok\":true}")),
    ]);
    let lines: Vec<&str> = out.lines().collect();
    assert_eq!(lines.len(), 3);
    assert!(lines[0].starts_with("[0|user]"));
    assert!(lines[2].starts_with("[2|tool]"));
    assert_eq!(lines[1], "[1|assistant] hello");
}

#[test]
fn summarizer_defaults_and_endpoint() {
    let c = SummarizerConfig::new(s("k"), s("https://api.example.com/v1/"), s("m"));
    assert_eq!(c.timeout_secs, 120);
    assert_eq!(codedesign::summarizer::chat_completions_url(&c.base_url), "https://api.example.com/v1/chat/completions");
    assert_eq!(codedesign::summarizer::chat_completions_url("https://h.io"), "https://h.io/v1/chat/completions");
}

#[test]
fn summarizer_request_shape() {
    let c = SummarizerConfig::new(s("k"), s("b"), s("model-x"));
    let j = codedesign::summarizer::summary_request(&c, "[0|user] hi\n");
    assert_eq!(j.get_str("model").map(|m| m.as_str()), Some("model-x"));
    match j.get("messages") {
        Some(Json::Array(ms)) => {
            assert_eq!(ms.len(), 2);
            assert_eq!(ms[1].get_str("content").map(|m| m.as_str()), Some("[0|user] hi\n"));
        }
        _ => panic!("messages missing"),
    }
}
