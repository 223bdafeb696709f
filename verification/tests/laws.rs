use codedesign::canvas::{js_string, sanitize_id};
use codedesign::cli::{doctor_failures, ds_dir_from_env, skill_dirs, user_ds_dir_from_env, NodeCheck, PatStep};
use codedesign::cli_args::{parse_critique_args, parse_design_args, parse_ds_query_args, parse_file_args};
use codedesign::design_flow::{design_step, start_flow, DesignAction, DesignEvent, DesignPhase};
use codedesign::rules::{bundled_raw, AntiSlopRules, RulesError};

fn run(dry_run: bool, no_critique: bool, events: &[DesignEvent]) -> Vec<DesignAction> {
    let mut flow = start_flow(dry_run, no_critique);
    let mut out = Vec::new();
    for e in events {
        let (next, a) = design_step(flow, *e);
        flow = next;
        out.push(a);
    }
    out
}

#[test]
fn dry_run_writes_without_figma() {
    let actions = run(
        true,
        false,
        &[DesignEvent::Begin, DesignEvent::PlanReturned, DesignEvent::PlanDecoded, DesignEvent::Compiled, DesignEvent::Written],
    );
    assert_eq!(
        actions,
        vec![
            DesignAction::RequestPlan,
            DesignAction::DecodePlan,
            DesignAction::CompilePlan,
            DesignAction::WriteBundle,
            DesignAction::Finish { shutdown: false, success: true },
        ]
    );
}

#[test]
fn live_run_pushes_reviews_and_shuts_down() {
    let actions = run(
        false,
        false,
        &[
            DesignEvent::Begin,
            DesignEvent::BridgeReady,
            DesignEvent::PlanReturned,
            DesignEvent::PlanDecoded,
            DesignEvent::Compiled,
            DesignEvent::FigmaAnswered { readback: true },
            DesignEvent::Reviewed,
        ],
    );
    assert_eq!(actions[0], DesignAction::StartBridge);
    assert_eq!(actions[4], DesignAction::RunInFigma);
    assert_eq!(actions[5], DesignAction::Review { critique: true });
    assert_eq!(actions[6], DesignAction::Finish { shutdown: true, success: true });
}

#[test]
fn failures_after_the_bridge_shut_it_down() {
    let a = run(false, true, &[DesignEvent::Begin, DesignEvent::BridgeReady, DesignEvent::PlanFailed]);
    assert_eq!(a[2], DesignAction::Finish { shutdown: true, success: false });
    let b = run(false, true, &[DesignEvent::Begin, DesignEvent::BridgeFailed]);
    assert_eq!(b[1], DesignAction::Finish { shutdown: false, success: false });
    let c = run(
        false,
        true,
        &[
            DesignEvent::Begin,
            DesignEvent::BridgeReady,
            DesignEvent::PlanReturned,
            DesignEvent::PlanDecoded,
            DesignEvent::Compiled,
            DesignEvent::FigmaAnswered { readback: true },
        ],
    );
    assert_eq!(c[5], DesignAction::Review { critique: false });
    let d = run(
        false,
        false,
        &[DesignEvent::Begin, DesignEvent::BridgeReady, DesignEvent::PlanReturned, DesignEvent::PlanRejected],
    );
    assert_eq!(d[3], DesignAction::Finish { shutdown: true, success: false });
}

#[test]
fn finished_runs_ignore_everything() {
    let mut flow = start_flow(true, false);
    for e in [DesignEvent::Begin, DesignEvent::PlanFailed] {
        flow = design_step(flow, e).0;
    }
    assert_eq!(flow.phase, DesignPhase::Done);
    assert!(!flow.bridge_live);
    let (same, a) = design_step(flow, DesignEvent::Written);
    assert_eq!(same, flow);
    assert_eq!(a, DesignAction::Ignore);
    let (_, out_of_order) = design_step(start_flow(false, false), DesignEvent::Compiled);
    assert_eq!(out_of_order, DesignAction::Ignore);
}

#[test]
fn doctor_counts_failed_checks() {
    assert_eq!(doctor_failures(Some(NodeCheck::Supported(20)), PatStep::Resolved), 0);
    assert_eq!(doctor_failures(Some(NodeCheck::Unparsable), PatStep::Saved), 0);
    assert_eq!(doctor_failures(Some(NodeCheck::TooOld(16)), PatStep::Resolved), 1);
    assert_eq!(doctor_failures(None, PatStep::Declined), 2);
    assert_eq!(doctor_failures(Some(NodeCheck::Supported(18)), PatStep::SaveFailed), 1);
    assert_eq!(doctor_failures(Some(NodeCheck::Supported(18)), PatStep::NoTokenEntered), 1);
}

#[test]
fn escaped_literals_stay_on_one_line() {
    let s = js_string("a\nb\rc</script>\u{2028}\u{2029}'q'");
    let inner = &s[1..s.len() - 1];
    assert!(!inner.contains('\n') && !inner.contains('\r') && !inner.contains('<'));
    assert!(!inner.contains('\u{2028}') && !inner.contains('\u{2029}'));
    let bytes: Vec<char> = inner.chars().collect();
    for (i, c) in bytes.iter().enumerate() {
        if *c == '\'' {
            assert!(i > 0 && bytes[i - 1] == '\\');
        }
    }
}

#[test]
fn sanitized_ids_are_identifiers() {
    for raw in ["", "9lives", "frame.a-b", "日本", "ok_1"] {
        let id = sanitize_id(raw);
        assert!(!id.is_empty());
        assert!(id.chars().all(|c| c.is_ascii_alphanumeric() || c == '_'));
        assert!(!id.chars().next().unwrap().is_ascii_digit());
    }
    assert_eq!(sanitize_id(""), "_");
    assert_eq!(sanitize_id("日本"), "__");
}

#[test]
fn json_strings_read_back() {
    for s in ["", "plain", "quote\" back\\slash", "ctl\u{1}\u{1f}\n\t\r\u{8}\u{c}", "中文 🚀", "</script>"] {
        let lit = codedesign::json::json_string(s);
        let back: String = serde_json::from_str(&lit).unwrap();
        assert_eq!(back, s);
    }
}

fn js_read_back(lit: &str) -> String {
    let chars: Vec<char> = lit.chars().collect();
    assert_eq!(chars[0], '\'');
    assert_eq!(chars[chars.len() - 1], '\'');
    let body = &chars[1..chars.len() - 1];
    let mut out = String::new();
    let mut i = 0;
    while i < body.len() {
        if body[i] == '\\' {
            match body[i + 1] {
                'n' => {
                    out.push('\n');
                    i += 2;
                }
                'r' => {
                    out.push('\r');
                    i += 2;
                }
                't' => {
                    out.push('\t');
                    i += 2;
                }
                'x' => {
                    let h: String = body[i + 2..i + 4].iter().collect();
                    out.push(char::from_u32(u32::from_str_radix(&h, 16).unwrap()).unwrap());
                    i += 4;
                }
                'u' => {
                    let h: String = body[i + 2..i + 6].iter().collect();
                    out.push(char::from_u32(u32::from_str_radix(&h, 16).unwrap()).unwrap());
                    i += 6;
                }
                c => {
                    out.push(c);
                    i += 2;
                }
            }
        } else {
            out.push(body[i]);
            i += 1;
        }
    }
    out
}

#[test]
fn js_literals_read_back() {
    for s in ["", "it's", "a\nb\r\tc", "<b>\u{2028}\u{2029}", "\u{1}\u{1f}", "中文 \\ end"] {
        assert_eq!(js_read_back(&js_string(s)), s);
    }
}

// ── command-line arguments ─────────────────────────────────────────────────

fn args(a: &[&str]) -> Vec<String> {
    a.iter().map(|s| s.to_string()).collect()
}

#[test]
fn design_args_read_flags_and_prd() {
    let d = parse_design_args(&args(&["make a login", "--dry-run", "-o", "x.js", "--skill", "a", "--skill", "b"])).unwrap();
    assert_eq!(d.prd, "make a login");
    assert!(d.dry_run && !d.no_critique);
    assert_eq!(d.out_path.as_deref(), Some("x.js"));
    assert_eq!(d.skills, vec!["a".to_string(), "b".to_string()]);
    assert_eq!(parse_design_args(&args(&["--out"])).unwrap_err(), "--out requires a path");
    assert_eq!(parse_design_args(&args(&["p", "--skill"])).unwrap_err(), "--skill requires a skill name");
    assert_eq!(parse_design_args(&args(&["p", "q"])).unwrap_err(), "unexpected arg: q");
    assert_eq!(parse_design_args(&args(&["p", "--bogus"])).unwrap_err(), "unexpected arg: --bogus");
    assert_eq!(
        parse_design_args(&args(&["--no-critique"])).unwrap_err(),
        "usage: codedesign design \"<PRD>\" [--dry-run [--out <file.js>]]"
    );
}

#[test]
fn critique_and_file_args() {
    let c = parse_critique_args(&args(&["plan.json", "--skill", "audit", "rb.json"])).unwrap();
    assert_eq!(c.plan_path, "plan.json");
    assert_eq!(c.readback_path, "rb.json");
    assert_eq!(c.skills, vec!["audit".to_string()]);
    assert!(parse_critique_args(&args(&["plan.json"])).is_err());
    let f = parse_file_args(&args(&["t.txt", "--out", "s.json"]), "usage: x").unwrap();
    assert_eq!(f.input, "t.txt");
    assert_eq!(f.out_path.as_deref(), Some("s.json"));
    assert_eq!(parse_file_args(&args(&[]), "usage: x").unwrap_err(), "usage: x");
}

#[test]
fn ds_query_args_defaults() {
    let q = parse_ds_query_args(&args(&["button"])).unwrap();
    assert_eq!((q.query.as_str(), q.limit, q.kind.as_str()), ("button", 8, "any"));
    let q2 = parse_ds_query_args(&args(&["--limit", "3", "color", "--kind", "token"])).unwrap();
    assert_eq!((q2.query.as_str(), q2.limit, q2.kind.as_str()), ("color", 3, "token"));
    let q3 = parse_ds_query_args(&args(&["x", "--limit", "lots"])).unwrap();
    assert_eq!(q3.limit, 8);
    assert_eq!(parse_ds_query_args(&args(&["x", "--kind"])).unwrap_err(), "--kind requires a value");
}

#[test]
fn bad_rule_pattern_is_reported() {
    let mut raw = bundled_raw();
    raw.placeholder_regex.push("(unclosed".to_string());
    match AntiSlopRules::from_raw(raw) {
        Err(RulesError::BadRegex { pattern, .. }) => assert_eq!(pattern, "(unclosed"),
        other => panic!("unexpected {:?}", other.map(|r| r.version)),
    }
}

#[test]
fn design_system_and_skill_locations() {
    let env = vec![
        ("HOME".to_string(), "/home/me".to_string()),
        ("CODEDESIGN_SKILLS_DIR".to_string(), "/opt/skills".to_string()),
        ("CODEDESIGN_DS_DIR".to_string(), "".to_string()),
    ];
    assert_eq!(ds_dir_from_env(&env), None);
    assert_eq!(user_ds_dir_from_env(&env).as_deref(), Some("/home/me/.codedesign/design-systems/default"));
    assert_eq!(
        skill_dirs(&env, "screens"),
        vec!["/opt/skills/screens".to_string(), "/home/me/.codedesign/skills/screens".to_string()]
    );
    let env2 = vec![("CODEDESIGN_DS_DIR".to_string(), "/ds/acme".to_string())];
    assert_eq!(ds_dir_from_env(&env2).as_deref(), Some("/ds/acme"));
    assert_eq!(user_ds_dir_from_env(&env2), None);
    assert!(skill_dirs(&env2, "x").is_empty());
}
