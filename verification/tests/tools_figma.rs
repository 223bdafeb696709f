use codedesign::critique::{child_path_of, index_path_of, lint, snippet, Finding};
use codedesign::figma::auth::{
    auth_file_path, load_figma_token, validate_pat, with_token, AuthFile, FigmaAuth,
};
use codedesign::figma::bundle::{bundle_plugin_js, RUNTIME_SHIM_JS};
use codedesign::figma::client::{
    call_outcome, extract_text_content, initialize_params, require_tool, tool_failed, ToolInfo,
};
use codedesign::figma::error::McpError;
use codedesign::figma::transport::{classify_reply, notification_line, request_line, RpcOutcome};
use codedesign::json::{Decimal, Json};
use codedesign::rules::AntiSlopRules;
use codedesign::tools::catalog::all_schemas;
use codedesign::tools::ds_query::ds_query_schema;
use codedesign::tools::figma_nav::{figma_selection_schema, format_figma_deeplink, open_figma_node_schema};
use codedesign::tools::prd_parse::handle_prd_parse;
use codedesign::tools::todo::{handle_todo, todo_schema, TodoList, TodoStatus, TodoStore};
use codedesign::vision::{image_data_url, mime_for, ImageRef, VlClient, VlConfig, VlError};
use serde_json::Value;

// ── helpers ────────────────────────────────────────────────────────────────

fn number(n: &serde_json::Number) -> Decimal {
    if let Some(u) = n.as_u64() {
        return Decimal { negative: false, digits: u, exponent: 0, integer: true };
    }
    if let Some(i) = n.as_i64() {
        return Decimal { negative: true, digits: i.unsigned_abs(), exponent: 0, integer: true };
    }
    let f = n.as_f64().unwrap();
    let text = format!("{}", f.abs());
    let (whole, frac) = match text.split_once('.') {
        Some((w, f)) => (w.to_string(), f.to_string()),
        None => (text.clone(), String::new()),
    };
    let digits: u64 = format!("{}{}", whole, frac).parse().unwrap();
    Decimal { negative: f < 0.0, digits, exponent: -(frac.len() as i32), integer: false }
}

fn to_json(v: &Value) -> Json {
    match v {
        Value::Null => Json::Null,
        Value::Bool(b) => Json::Bool(*b),
        Value::Number(n) => Json::Number(number(n)),
        Value::String(s) => Json::Str(s.clone()),
        Value::Array(a) => Json::Array(a.iter().map(to_json).collect()),
        Value::Object(o) => Json::Object(o.iter().map(|(k, v)| (k.clone(), to_json(v))).collect()),
    }
}

fn j(text: &str) -> Json {
    to_json(&serde_json::from_str::<Value>(text).unwrap())
}

fn parse(text: &str) -> Value {
    serde_json::from_str(text).unwrap()
}

fn rules() -> AntiSlopRules {
    AntiSlopRules::bundled().unwrap()
}

fn whole(f: &[Finding]) -> Vec<(codedesign::critique::Severity, String, String, String, String, String)> {
    f.iter()
        .map(|x| (x.severity, x.id.clone(), x.message.clone(), x.fix.clone(), x.path.clone(), x.snippet.clone()))
        .collect()
}

fn add(list: TodoList, args: &str) -> TodoList {
    handle_todo(list, &j(args)).unwrap().0
}

// ── figma auth ─────────────────────────────────────────────────────────────

#[test]
fn validate_pat_accepts_figd_prefix() {
    assert!(validate_pat("figd_abc123").is_ok());
    assert!(validate_pat("figpat_v1_abc").is_ok());
}

#[test]
fn validate_pat_rejects_bad_input() {
    assert!(validate_pat("").is_err());
    assert!(validate_pat("sk-proj-deadbeef").is_err());
}

#[test]
fn validate_pat_trims_and_needs_prefix() {
    assert!(validate_pat("  figd_padded  ").is_ok());
    assert!(validate_pat("   ").is_err());
    assert!(validate_pat("0123456789abcdefghij").is_err());
    assert!(matches!(validate_pat("x"), Err(McpError::Auth(_))));
}

#[test]
fn auth_file_lives_under_home() {
    assert_eq!(auth_file_path(Some("/home/me")).unwrap(), "/home/me/.codedesign/auth.toml");
    assert!(matches!(auth_file_path(None), Err(McpError::Auth(_))));
}

#[test]
fn token_sources_in_order() {
    let env = vec![
        ("FIGMA_ACCESS_TOKEN".to_string(), "figd_fallback".to_string()),
        ("CODEDESIGN_FIGMA_TOKEN".to_string(), "figd_primary".to_string()),
    ];
    assert_eq!(load_figma_token(&env, None).unwrap(), "figd_primary");
    let env2 = vec![("FIGMA_ACCESS_TOKEN".to_string(), "figd_fallback".to_string())];
    assert_eq!(load_figma_token(&env2, None).unwrap(), "figd_fallback");
    let home = vec![("HOME".to_string(), "/home/me".to_string())];
    assert_eq!(
        load_figma_token(&home, Some(Ok(Some("figd_from_file".to_string())))).unwrap(),
        "figd_from_file"
    );
    assert!(matches!(load_figma_token(&home, Some(Ok(None))), Err(McpError::Auth(m)) if m.ends_with("/home/me/.codedesign/auth.toml")));
    assert!(matches!(load_figma_token(&home, None), Err(McpError::Auth(_))));
    let none: Vec<(String, String)> = vec![];
    assert!(matches!(load_figma_token(&none, None), Err(McpError::Auth(_))));
    assert!(matches!(load_figma_token(&home, Some(Ok(Some("bad".to_string())))), Err(McpError::Auth(_))));
}

#[test]
fn with_token_keeps_the_token() {
    let af = with_token(None, "figd_x");
    assert_eq!(af.figma.access_token.as_deref(), Some("figd_x"));
}

#[test]
fn with_token_keeps_other_entries() {
    let existing = AuthFile {
        figma: FigmaAuth {
            access_token: Some("figd_old".to_string()),
            others: vec![("team".to_string(), Json::Str("acme".to_string()))],
        },
        others: vec![("openai".to_string(), Json::Object(vec![("model".to_string(), Json::Str("gpt".to_string()))]))],
    };
    let af = with_token(Some(existing), "figd_new");
    assert_eq!(af.figma.access_token.as_deref(), Some("figd_new"));
    assert_eq!(af.figma.others.len(), 1);
    assert_eq!(af.figma.others[0].0, "team");
    assert!(matches!(&af.figma.others[0].1, Json::Str(s) if s == "acme"));
    assert_eq!(af.others.len(), 1);
    assert_eq!(af.others[0].0, "openai");
    assert!(matches!(&af.others[0].1, Json::Object(m) if m.len() == 1 && m[0].0 == "model"));
}

// ── figma client / transport ───────────────────────────────────────────────

#[test]
fn extract_text_content_concatenates_blocks() {
    let v = j(r#"{"content": [
        {"type": "text", "text": "one"},
        {"type": "image", "data": "..."},
        {"type": "text", "text": "two"}
    ]}"#);
    assert_eq!(extract_text_content(&v).as_deref(), Some("one\ntwo"));
}

#[test]
fn extract_text_content_none_when_empty() {
    assert!(extract_text_content(&j(r#"{"content": []}"#)).is_none());
    assert!(extract_text_content(&j("{}")).is_none());
}

#[test]
fn tool_error_flag_and_outcome() {
    let bad = j(r#"{"isError": true, "content": [{"type":"text","text":"boom"}]}"#);
    assert!(tool_failed(&bad));
    assert!(matches!(call_outcome(bad, "boom"), Err(McpError::ToolError(m)) if m == "boom"));
    let good = j(r#"{"content": []}"#);
    assert!(!tool_failed(&good));
    assert!(matches!(call_outcome(good, ""), Ok(Json::Object(_))));
    let text = j(r#"{"content": [{"type":"text","text":"a"},{"type":"text","text":"b"}]}"#);
    assert!(matches!(call_outcome(text, ""), Ok(Json::Str(t)) if t == "a\nb"));
}

#[test]
fn require_tool_finds_or_refuses() {
    let tools = vec![ToolInfo { name: "figma_execute".to_string(), description: None, input_schema: None }];
    assert_eq!(require_tool(tools, "figma_execute").unwrap().name, "figma_execute");
    let none: Vec<ToolInfo> = vec![];
    assert!(matches!(require_tool(none, "figma_execute"), Err(McpError::ToolUnavailable(n)) if n == "figma_execute"));
}

#[test]
fn initialize_params_are_json() {
    let v = parse(&initialize_params("0.1.0"));
    assert_eq!(v["protocolVersion"], "2025-03-26");
    assert_eq!(v["clientInfo"]["name"], "codedesign");
    assert_eq!(v["clientInfo"]["version"], "0.1.0");
}

#[test]
fn request_and_notification_lines() {
    assert_eq!(
        request_line(7, "tools/list", "{}"),
        "{\"id\":7,\"jsonrpc\":\"2.0\",\"method\":\"tools/list\",\"params\":{}}\n"
    );
    assert_eq!(
        notification_line("notifications/initialized", "{}"),
        "{\"jsonrpc\":\"2.0\",\"method\":\"notifications/initialized\",\"params\":{}}\n"
    );
}

#[test]
fn classify_reply_cases() {
    assert!(classify_reply(j(r#"{"method":"log"}"#), "").is_none());
    match classify_reply(j(r#"{"id":3,"result":{"ok":true}}"#), "") {
        Some((3, RpcOutcome::Reply(_))) => {}
        other => panic!("unexpected {:?}", other),
    }
    match classify_reply(j(r#"{"id":4,"error":{"code":-32601,"message":"nope"}}"#), "") {
        Some((4, RpcOutcome::Failed(McpError::Rpc { code, message }))) => {
            assert_eq!(code, -32601);
            assert_eq!(message, "nope");
        }
        other => panic!("unexpected {:?}", other),
    }
    match classify_reply(j(r#"{"id":5}"#), "{\"id\":5}") {
        Some((5, RpcOutcome::Failed(McpError::Protocol(_)))) => {}
        other => panic!("unexpected {:?}", other),
    }
}

#[test]
fn bundle_prefixes_shim() {
    let js = bundle_plugin_js("main();");
    assert!(js.starts_with(RUNTIME_SHIM_JS));
    assert!(js.ends_with("main();"));
}

// ── tool schemas ───────────────────────────────────────────────────────────

#[test]
fn deeplink_encodes_node_id() {
    let u = format_figma_deeplink("ABC123", "1:234");
    assert!(u.contains("node-id=1-234"));
    assert!(u.starts_with("https://www.figma.com/design/ABC123/"));
}

#[test]
fn open_schema_requires_file_and_node() {
    let s = parse(&open_figma_node_schema());
    assert_eq!(s["function"]["parameters"]["required"], parse(r#"["fileKey","nodeId"]"#));
}

#[test]
fn selection_schema_has_no_required() {
    let s = parse(&figma_selection_schema());
    assert_eq!(s["function"]["parameters"]["properties"], parse("{}"));
}

#[test]
fn schema_has_required_query_field() {
    let s = parse(&ds_query_schema());
    let params = &s["function"]["parameters"];
    assert_eq!(params["required"], parse(r#"["query"]"#));
}

#[test]
fn schema_enum_covers_ops() {
    let s = parse(&todo_schema());
    let ops = s["function"]["parameters"]["properties"]["op"]["enum"].clone();
    assert_eq!(ops, parse(r#"["list","add","update","remove","clear"]"#));
}

#[test]
fn all_schemas_are_functions() {
    let s = all_schemas();
    assert_eq!(s.len(), 6);
    for text in s {
        let schema = parse(&text);
        assert_eq!(schema["type"], "function");
        assert!(schema["function"]["name"].is_string());
        assert!(schema["function"]["parameters"].is_object());
    }
}

// ── prd_parse ──────────────────────────────────────────────────────────────

#[test]
fn detects_platform_chinese() {
    let r = handle_prd_parse("这是一个移动端应用");
    assert_eq!(r.platform.as_deref(), Some("mobile"));
}

#[test]
fn detects_login_screen() {
    let r = handle_prd_parse("需要一个登录页和首页");
    assert!(r.screens.contains(&"login".into()));
    assert!(r.screens.contains(&"home".into()));
}

#[test]
fn parses_users_list() {
    let r = handle_prd_parse("用户: 张三, 李四\n其他内容");
    assert_eq!(r.users, vec!["张三".to_string(), "李四".to_string()]);
}

#[test]
fn parses_success_signals() {
    let r = handle_prd_parse("goal: DAU > 1000, retention > 40%");
    assert_eq!(r.success_signals.len(), 2);
}

#[test]
fn raw_length_tracked() {
    let r = handle_prd_parse("abc");
    assert_eq!(r.raw_length, 3);
}

#[test]
fn prd_parse_counts_bytes_and_defaults() {
    let r = handle_prd_parse("网页");
    assert_eq!(r.raw_length, 6);
    assert_eq!(r.platform.as_deref(), Some("web"));
    let none = handle_prd_parse("nothing here");
    assert!(none.platform.is_none());
    assert!(none.screens.is_empty());
    assert!(none.users.is_empty());
}

// ── todo ───────────────────────────────────────────────────────────────────

#[test]
fn add_list_update_remove_roundtrip() {
    let l = add(TodoList::default(), r#"{"op":"add","id":"a","content":"one"}"#);
    let l = add(l, r#"{"op":"add","id":"b","content":"two","status":"in_progress"}"#);
    assert_eq!(l.items.len(), 2);
    let l = add(l, r#"{"op":"update","id":"b","status":"completed"}"#);
    assert_eq!(l.items[1].status, TodoStatus::Completed);
    let l = add(l, r#"{"op":"remove","id":"a"}"#);
    assert_eq!(l.items.len(), 1);
}

#[test]
fn duplicate_add_rejected() {
    let l = add(TodoList::default(), r#"{"op":"add","id":"x","content":"t"}"#);
    let r = handle_todo(l, &j(r#"{"op":"add","id":"x","content":"t"}"#));
    assert!(r.is_err());
}

#[test]
fn in_progress_invariant_enforced() {
    let l = add(TodoList::default(), r#"{"op":"add","id":"a","content":"x","status":"in_progress"}"#);
    let err = handle_todo(l, &j(r#"{"op":"add","id":"b","content":"y","status":"in_progress"}"#)).unwrap_err();
    assert!(err.contains("invariant"));
}

#[test]
fn todo_clear_and_bad_ops() {
    let l = add(TodoList::default(), r#"{"op":"add","id":"a","content":"x"}"#);
    let (l, _) = handle_todo(l, &j(r#"{"op":"clear"}"#)).unwrap();
    assert!(l.items.is_empty());
    assert!(handle_todo(TodoList::default(), &j(r#"{"op":"fly"}"#)).is_err());
    assert!(handle_todo(TodoList::default(), &j(r#"{"op":"remove","id":"zz"}"#)).is_err());
    assert!(handle_todo(TodoList::default(), &j(r#"{"id":"a"}"#)).is_err());
}

#[test]
fn todo_store_path() {
    let store = TodoStore::new("/tmp/todos".to_string());
    assert_eq!(store.path_for("sess1"), "/tmp/todos/sess1.todo.json");
}

// ── critique lint ──────────────────────────────────────────────────────────

#[test]
fn bundled_loads() {
    let r = rules();
    assert_eq!(r.banned_hex.len(), 7);
    assert_eq!(r.banned_emoji.len(), 17);
    assert!(!r.placeholder_regex.is_empty());
    assert!(r.banned_hex.iter().all(|h| h == &h.to_ascii_lowercase()));
}

#[test]
fn clean_readback_no_findings() {
    let rb = j(r#"{
        "type": "FRAME",
        "name": "signup",
        "children": [{
            "type": "TEXT",
            "name": "title",
            "characters": "创建账号开始使用",
            "fills": [{"type": "SOLID", "color": {"r": 0.2, "g": 0.2, "b": 0.2}}],
            "fontName": {"family": "Inter", "style": "Regular"}
        }]
    }"#);
    assert!(lint(&rb, &rules()).is_empty());
}

#[test]
fn detects_banned_hex() {
    let rb = j(r#"{"type": "FRAME",
        "fills": [{"type": "SOLID", "color": {"r": 0.388, "g": 0.4, "b": 0.945}}]}"#);
    let findings = lint(&rb, &rules());
    assert!(findings.iter().any(|f| f.id == "SLOP-HEX-001"));
}

#[test]
fn does_not_flag_legal_hex() {
    let rb = j(r#"{"type": "FRAME",
        "fills": [{"type": "SOLID", "color": {"r": 0.2, "g": 0.4, "b": 0.6}}]}"#);
    assert!(lint(&rb, &rules()).iter().all(|f| f.id != "SLOP-HEX-001"));
}

#[test]
fn detects_banned_emoji_in_text() {
    let rb = j(r#"{"type": "TEXT", "characters": "开始你的旅程 🚀"}"#);
    let f = lint(&rb, &rules());
    assert!(f.iter().any(|x| x.id == "SLOP-EMOJI-001"));
}

#[test]
fn does_not_flag_allowed_emoji() {
    let rb = j(r#"{"type": "TEXT", "characters": "下一步 →"}"#);
    let f = lint(&rb, &rules());
    assert!(f.iter().all(|x| !x.id.starts_with("SLOP-EMOJI")));
}

#[test]
fn detects_lorem_placeholder() {
    let rb = j(r#"{"type": "TEXT", "characters": "Lorem ipsum dolor sit amet"}"#);
    let f = lint(&rb, &rules());
    assert!(f.iter().any(|x| x.id == "SLOP-PLACEHOLDER-001"));
}

#[test]
fn detects_feature_numbering() {
    let rb = j(r#"{"type": "TEXT", "characters": "Feature One — fast sync"}"#);
    let f = lint(&rb, &rules());
    assert!(f.iter().any(|x| x.id == "SLOP-PLACEHOLDER-001"));
}

#[test]
fn detects_fabricated_metric() {
    let rb = j(r#"{"type": "TEXT", "characters": "10x faster than the competition"}"#);
    let f = lint(&rb, &rules());
    assert!(f.iter().any(|x| x.id == "SLOP-METRIC-001"));
}

#[test]
fn detects_generic_display_font() {
    let rb = j(r#"{"type": "TEXT", "characters": "Hi",
        "fontName": {"family": "Helvetica Neue", "style": "Bold"}}"#);
    let f = lint(&rb, &rules());
    assert!(f.iter().any(|x| x.id == "SLOP-FONT-001"));
}

#[test]
fn deterministic_order() {
    let rb = j(r#"{"children": [
        {"type": "TEXT", "characters": "🚀 Lorem ipsum"},
        {"type": "TEXT", "characters": "10x more"}
    ]}"#);
    let a = lint(&rb, &rules());
    let b = lint(&rb, &rules());
    assert_eq!(whole(&a), whole(&b));
    assert!(a.len() >= 3);
}

#[test]
fn lint_paths_point_into_readback() {
    let rb = j(r#"{"children": [{"type": "TEXT", "characters": "Lorem ipsum"}]}"#);
    let f = lint(&rb, &rules());
    assert_eq!(f.len(), 1);
    assert_eq!(f[0].path, "children[0].characters");
    assert_eq!(child_path_of("", "fills"), "fills");
    assert_eq!(child_path_of("a", "b"), "a.b");
    assert_eq!(index_path_of("fills", 2), "fills[2]");
}

#[test]
fn snippet_caps_at_120_chars() {
    let long: String = std::iter::repeat('字').take(200).collect();
    assert_eq!(snippet(&long).chars().count(), 120);
    assert_eq!(snippet("short"), "short");
}

// ── vision ─────────────────────────────────────────────────────────────────

#[test]
fn mime_lookup() {
    assert_eq!(mime_for("x.png"), Some("image/png"));
    assert_eq!(mime_for("x.JPG"), Some("image/jpeg"));
    assert_eq!(mime_for("x.bmp"), None);
}

#[test]
fn data_url_encodes_base64() {
    let url = image_data_url("image/png", &b"\x89PNG\r\n\x1a\n".to_vec());
    assert_eq!(url, "data:image/png;base64,iVBORw0KGgo=");
}

#[test]
fn config_from_env_reads_deepseek_fallback() {
    let env = vec![("CODEDESIGN_DEEPSEEK_API_KEY".to_string(), "sk-test-brief".to_string())];
    let c = VlConfig::from_env(&env).expect("config");
    assert_eq!(c.api_key, "sk-test-brief");
    assert_eq!(c.model, "deepseek-vl2");
    let none: Vec<(String, String)> = vec![];
    assert!(VlConfig::from_env(&none).is_none());
}

#[test]
fn vision_request_and_reply() {
    let env = vec![("CODEDESIGN_VL_API_KEY".to_string(), "k".to_string())];
    let client = VlClient::new(VlConfig::from_env(&env).unwrap());
    assert_eq!(client.endpoint(), "https://api.deepseek.com/v1/chat/completions");
    let body = parse(&client.request_body("describe", "https://x/y.png"));
    assert_eq!(body["model"], "deepseek-vl2");
    assert_eq!(body["messages"][0]["content"][1]["image_url"]["url"], "https://x/y.png");
    let reply = j(r#"{"choices":[{"message":{"content":"a cat"}}]}"#);
    assert_eq!(VlClient::read_reply(&reply).unwrap(), "a cat");
    assert!(matches!(VlClient::read_reply(&j(r#"{"choices":[]}"#)), Err(VlError::Empty)));
    assert_eq!(ImageRef::Url("https://a/b.png").remote_url(), Some("https://a/b.png"));
    assert_eq!(ImageRef::LocalPath("a.png").remote_url(), None);
}
