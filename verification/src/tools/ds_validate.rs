//! `ds.validate`: a pre-submit compliance check on a DesignPlan fragment.
//!
//! Given any JSON value holding `fillRef` / `styleRef` / `componentRef` /
//! `padding` / `gap` strings, every ref must follow its section prefix
//! and resolve in the design system.

use vstd::prelude::*;
use crate::critique::{child_path, child_path_of, index_path, index_path_of};
use crate::ds::design_system::DesignSystem;
use crate::ds::tokens::token_at;
use crate::json::Json;
use crate::text::{contains_string, keys_of, push_str, starts_with, str_eq, str_starts_with, to_owned};

verus! {

#[derive(Debug)]
pub struct DsValidateFinding {
    pub code: &'static str,
    pub path: String,
    pub message: String,
}

#[derive(Debug)]
pub struct DsValidateReport {
    pub ok: bool,
    pub findings: Vec<DsValidateFinding>,
}

/// A finding as texts: code, path, message.
pub type FindingText = (Seq<char>, Seq<char>, Seq<char>);

pub open spec fn finding_text(f: DsValidateFinding) -> FindingText {
    (f.code@, f.path@, f.message@)
}

pub open spec fn finding_texts(fs: Seq<DsValidateFinding>) -> Seq<FindingText> {
    fs.map_values(|f: DsValidateFinding| finding_text(f))
}

/// The JSON text of the `ds.validate` tool schema.
pub const DS_VALIDATE_SCHEMA: &'static str = r#"{
  "type": "function",
  "function": {
    "name": "ds.validate",
    "description": "Validate refs in a DesignPlan (or fragment) against the active DesignSystem. Returns every unresolved ref with a JSON path. Call this before plan_emit's final submission.",
    "parameters": {
      "type": "object",
      "required": ["fragment"],
      "properties": {
        "fragment": {"type": "object", "description": "any JSON containing fillRef/styleRef/componentRef/padding/gap strings"}
      },
      "additionalProperties": false
    }
  }
}"#;

/// The `ds.validate` tool schema, as JSON text.
pub fn ds_validate_schema() -> (r: String)
    ensures
        r@ == DS_VALIDATE_SCHEMA@,
{
    to_owned(DS_VALIDATE_SCHEMA)
}

// ── specification ──────────────────────────────────────────────────────────

/// A ref that must start with `prefix` and resolve in the tokens.
pub open spec fn token_ref_issue(
    ds: DesignSystem,
    label: Seq<char>,
    val: Seq<char>,
    prefix: Seq<char>,
    prefix_code: Seq<char>,
) -> Option<(Seq<char>, Seq<char>)> {
    if !starts_with(val, prefix) {
        Some((prefix_code, label + " `"@ + val + "` must start with `"@ + prefix + "`"@))
    } else if token_at(ds.tokens@, val) is None {
        Some(("DSV-UNRESOLVED"@, label + " `"@ + val + "` does not resolve in DS"@))
    } else {
        None
    }
}

/// What is wrong with the string `val` under the key `key`, if anything:
/// a code and a message.
pub open spec fn ref_issue(ds: DesignSystem, key: Seq<char>, val: Seq<char>) -> Option<(Seq<char>, Seq<char>)> {
    if key == "fillRef"@ {
        token_ref_issue(ds, key, val, "color."@, "DSV-PREFIX-001"@)
    } else if key == "styleRef"@ {
        token_ref_issue(ds, key, val, "typo."@, "DSV-PREFIX-002"@)
    } else if key == "padding"@ || key == "gap"@ {
        token_ref_issue(ds, key, val, "space."@, "DSV-PREFIX-003"@)
    } else if key == "componentRef"@ {
        if keys_of(ds.components.items@).contains(val) {
            None
        } else {
            Some(("DSV-UNKNOWN-COMPONENT"@, "componentRef `"@ + val + "` is not a DS component"@))
        }
    } else {
        None
    }
}

/// The findings of a value, after those already found, in document order.
pub open spec fn validate_walk(acc: Seq<FindingText>, ds: DesignSystem, v: Json, path: Seq<char>) -> Seq<FindingText>
    decreases v,
{
    match v {
        Json::Object(entries) => validate_members(acc, ds, entries@, path),
        Json::Array(items) => validate_items(acc, ds, items@, path),
        _ => acc,
    }
}

pub open spec fn validate_members(
    acc: Seq<FindingText>,
    ds: DesignSystem,
    entries: Seq<(String, Json)>,
    path: Seq<char>,
) -> Seq<FindingText>
    decreases entries,
{
    if entries.len() == 0 {
        acc
    } else {
        let prev = validate_members(acc, ds, entries.drop_last(), path);
        let k = entries.last().0@;
        let p = child_path(path, k);
        match entries.last().1 {
            Json::Str(s) => match ref_issue(ds, k, s@) {
                Some((code, msg)) => prev.push((code, p, msg)),
                None => prev,
            },
            _ => validate_walk(prev, ds, entries.last().1, p),
        }
    }
}

pub open spec fn validate_items(
    acc: Seq<FindingText>,
    ds: DesignSystem,
    items: Seq<Json>,
    path: Seq<char>,
) -> Seq<FindingText>
    decreases items,
{
    if items.len() == 0 {
        acc
    } else {
        validate_walk(
            validate_items(acc, ds, items.drop_last(), path),
            ds,
            items.last(),
            index_path(path, (items.len() - 1) as nat),
        )
    }
}

// ── implementation ─────────────────────────────────────────────────────────

fn token_ref_check(
    ds: &DesignSystem,
    label: &str,
    val: &str,
    prefix: &str,
    prefix_code: &'static str,
) -> (r: Option<(&'static str, String)>)
    ensures
        match token_ref_issue(*ds, label@, val@, prefix@, prefix_code@) {
            Some((c, m)) => r matches Some((code, msg)) && code@ == c && msg@ == m,
            None => r is None,
        },
{
    if !str_starts_with(val, prefix) {
        let mut m = to_owned(label);
        push_str(&mut m, " `");
        push_str(&mut m, val);
        push_str(&mut m, "` must start with `");
        push_str(&mut m, prefix);
        push_str(&mut m, "`");
        Some((prefix_code, m))
    } else if !ds.knows_ref(val) {
        let mut m = to_owned(label);
        push_str(&mut m, " `");
        push_str(&mut m, val);
        push_str(&mut m, "` does not resolve in DS");
        Some(("DSV-UNRESOLVED", m))
    } else {
        None
    }
}

fn check_ref(ds: &DesignSystem, key: &str, val: &str) -> (r: Option<(&'static str, String)>)
    ensures
        match ref_issue(*ds, key@, val@) {
            Some((c, m)) => r matches Some((code, msg)) && code@ == c && msg@ == m,
            None => r is None,
        },
{
    if str_eq(key, "fillRef") {
        token_ref_check(ds, key, val, "color.", "DSV-PREFIX-001")
    } else if str_eq(key, "styleRef") {
        token_ref_check(ds, key, val, "typo.", "DSV-PREFIX-002")
    } else if str_eq(key, "padding") || str_eq(key, "gap") {
        token_ref_check(ds, key, val, "space.", "DSV-PREFIX-003")
    } else if str_eq(key, "componentRef") {
        let names = ds.component_names();
        proof {
            assert(crate::text::views(names@) == keys_of(ds.components.items@));
        }
        if contains_string(&names, val) {
            None
        } else {
            let mut m = to_owned("componentRef `");
            push_str(&mut m, val);
            push_str(&mut m, "` is not a DS component");
            Some(("DSV-UNKNOWN-COMPONENT", m))
        }
    } else {
        None
    }
}

#[verifier::loop_isolation(false)]
fn walk(ds: &DesignSystem, v: &Json, path: &str, out: &mut Vec<DsValidateFinding>)
    ensures
        finding_texts(final(out)@) == validate_walk(finding_texts(old(out)@), *ds, *v, path@),
    decreases v,
{
    match v {
        Json::Object(entries) => {
            let ghost start = finding_texts(out@);
            let mut i: usize = 0;
            while i < entries.len()
                invariant
                    i <= entries@.len(),
                    finding_texts(out@) == validate_members(start, *ds, entries@.subrange(0, i as int), path@),
                decreases entries.len() - i,
            {
                let ghost pre = entries@.subrange(0, i + 1);
                assert(pre.drop_last() =~= entries@.subrange(0, i as int));
                assert(pre.last() == entries@[i as int]);
                let k = entries[i].0.as_str();
                let p = child_path_of(path, k);
                match &entries[i].1 {
                    Json::Str(s) => {
                        match check_ref(ds, k, s.as_str()) {
                            Some((code, message)) => {
                                let ghost before = out@;
                                out.push(DsValidateFinding { code, path: p, message });
                                assert(finding_texts(out@) =~= finding_texts(before).push(
                                    finding_text(out@.last()),
                                ));
                            },
                            None => {},
                        }
                    },
                    child => {
                        proof {
                            assert(decreases_to!(*v => *entries));
                            assert(decreases_to!(entries => entries@));
                            assert(decreases_to!(entries@ => entries@[i as int]));
                            assert(decreases_to!(entries@[i as int] => entries@[i as int].1));
                        }
                        walk(ds, child, p.as_str(), out);
                    },
                }
                i = i + 1;
            }
            assert(entries@.subrange(0, entries@.len() as int) =~= entries@);
        },
        Json::Array(items) => {
            let ghost start = finding_texts(out@);
            let mut i: usize = 0;
            while i < items.len()
                invariant
                    i <= items@.len(),
                    finding_texts(out@) == validate_items(start, *ds, items@.subrange(0, i as int), path@),
                decreases items.len() - i,
            {
                let ghost pre = items@.subrange(0, i + 1);
                assert(pre.drop_last() =~= items@.subrange(0, i as int));
                assert(pre.last() == items@[i as int]);
                let p = index_path_of(path, i);
                proof {
                    assert(decreases_to!(*v => *items));
                    assert(decreases_to!(items => items@));
                    assert(decreases_to!(items@ => items@[i as int]));
                }
                walk(ds, &items[i], p.as_str(), out);
                i = i + 1;
            }
            assert(items@.subrange(0, items@.len() as int) =~= items@);
        },
        _ => {},
    }
}

/// Checks every ref of a fragment against the design system. The report
/// is ok exactly when there is no finding; findings come in document
/// order, each with the JSON path of its ref.
pub fn handle_ds_validate(ds: &DesignSystem, fragment: &Json) -> (r: DsValidateReport)
    ensures
        finding_texts(r.findings@) == validate_walk(seq![], *ds, *fragment, seq![]),
        r.ok == (r.findings@.len() == 0),
{
    let mut out: Vec<DsValidateFinding> = Vec::new();
    proof {
        reveal_strlit("");
        assert(finding_texts(out@) =~= Seq::<FindingText>::empty());
    }
    walk(ds, fragment, "", &mut out);
    assert(""@ =~= Seq::<char>::empty());
    DsValidateReport { ok: out.len() == 0, findings: out }
}

} // verus!
