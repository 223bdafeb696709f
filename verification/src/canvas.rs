//! DesignPlan IR → Figma Plugin API JavaScript compiler.
//!
//! The compiler is a pure function of the plan: no timestamps, no
//! randomness, no map iteration. Ref strings are emitted verbatim (the
//! in-plugin runtime resolves them); each top-level frame is wrapped in
//! `try/catch` so one failing frame does not abort the others. Every text
//! embedded in a JS string literal goes through [`js_string`].

use vstd::prelude::*;
use crate::json::{decimal_text, hex_value, push_decimal};
use crate::plan::{DesignPlan, Frame, Layout, LayoutMode, Node};
use crate::text::{
    chars_of, dec, has_sub, hex2, hex_char, occurs_at, push_char, push_chars, push_dec, push_hex2, push_str,
};

verus! {

/// Name of the component this module stands for.
pub const CRATE_NAME: &'static str = "cd-canvas";

/// Compilation failure (writing into a `String` cannot fail, so this is
/// never produced).
#[derive(Debug)]
pub enum CanvasError {
    Fmt,
}

// ── string literal escaping ────────────────────────────────────────────────

/// The escape sequence a character becomes inside a single-quoted JS
/// string literal.
pub open spec fn js_escape_char(c: char) -> Seq<char> {
    if c == '\\' {
        seq!['\\', '\\']
    } else if c == '\'' {
        seq!['\\', '\'']
    } else if c == '\n' {
        seq!['\\', 'n']
    } else if c == '\r' {
        seq!['\\', 'r']
    } else if c == '\t' {
        seq!['\\', 't']
    } else if c == '<' {
        seq!['\\', 'x', '3', 'c']
    } else if c == '\u{2028}' {
        seq!['\\', 'u', '2', '0', '2', '8']
    } else if c == '\u{2029}' {
        seq!['\\', 'u', '2', '0', '2', '9']
    } else if (c as u32) < 0x20 {
        seq!['\\', 'x'] + hex2(c as nat)
    } else {
        seq![c]
    }
}

/// Every character escaped, in order.
pub open spec fn js_escape(s: Seq<char>) -> Seq<char>
    decreases s.len(),
{
    if s.len() == 0 {
        seq![]
    } else {
        js_escape(s.drop_last()) + js_escape_char(s.last())
    }
}

/// `p` followed by a JS single-quoted string literal holding `s`.
pub open spec fn js_literal_after(p: Seq<char>, s: Seq<char>) -> Seq<char> {
    p + seq!['\''] + js_escape(s) + seq!['\'']
}

/// A JS single-quoted string literal holding `s`.
pub open spec fn js_literal(s: Seq<char>) -> Seq<char> {
    js_literal_after(seq![], s)
}

/// ASCII letters and digits are kept in identifiers; everything else
/// becomes `_`.
pub open spec fn ident_char(c: char) -> char {
    if ('a' <= c && c <= 'z') || ('A' <= c && c <= 'Z') || ('0' <= c && c <= '9') {
        c
    } else {
        '_'
    }
}

/// A localId turned into a JS identifier fragment: non-alphanumeric
/// characters become `_`, an empty id becomes `_`, and a leading digit gets
/// a `_` prefix.
pub open spec fn sanitized(raw: Seq<char>) -> Seq<char> {
    let m = raw.map_values(|c: char| ident_char(c));
    if raw.len() == 0 {
        seq!['_']
    } else if '0' <= m[0] && m[0] <= '9' {
        seq!['_'] + m
    } else {
        m
    }
}

// ── emitted text ───────────────────────────────────────────────────────────
//
// Each `*_after(p, ..)` function is the text `p` followed by what the
// compiler emits for one part of the plan.

pub open spec fn mode_name(m: LayoutMode) -> Seq<char> {
    match m {
        LayoutMode::Vertical => "VERTICAL"@,
        LayoutMode::Horizontal => "HORIZONTAL"@,
        LayoutMode::Absent => "NONE"@,
    }
}

/// `p` + `head` + `id` + `mid` + literal(`arg`) + `tail`: one binding line.
pub open spec fn binding_after(
    p: Seq<char>,
    head: Seq<char>,
    id: Seq<char>,
    mid: Seq<char>,
    arg: Seq<char>,
    tail: Seq<char>,
) -> Seq<char> {
    js_literal_after(p + head + id + mid, arg) + tail
}

/// Layout lines of a frame whose identifier fragment is `fid`.
pub open spec fn layout_after(p: Seq<char>, fid: Seq<char>, layout: Layout) -> Seq<char> {
    let a = binding_after(p, "    f_"@, fid, ".layoutMode = "@, mode_name(layout.mode), ";\n"@);
    let b = binding_after(
        a,
        "    await __cdBindPadding(f_"@,
        fid,
        ", "@,
        layout.padding@,
        ");\n"@,
    );
    match layout.gap {
        Some(g) => binding_after(b, "    await __cdBindGap(f_"@, fid, ", "@, g@, ");\n"@),
        None => b,
    }
}

/// Optional fill binding of a frame.
pub open spec fn fill_after(p: Seq<char>, fid: Seq<char>, fill: Option<String>) -> Seq<char> {
    match fill {
        Some(f) => binding_after(p, "    await __cdBindFill(f_"@, fid, ", "@, f@, ");\n"@),
        None => p,
    }
}

/// Creation, naming, sizing, layout and fill of a frame.
pub open spec fn frame_setup_after(p: Seq<char>, fid: Seq<char>, frame: Frame) -> Seq<char> {
    let a = p + "    const f_"@ + fid + " = figma.createFrame();\n"@;
    let b = binding_after(a, "    f_"@, fid, ".name = "@, frame.name@, ";\n"@);
    let c = b + "    f_"@ + fid + ".resizeWithoutConstraints("@ + decimal_text(frame.size.w)
        + ", "@ + decimal_text(frame.size.h) + ");\n"@;
    fill_after(layout_after(c, fid, frame.layout), fid, frame.fill_ref)
}

/// The identifier fragment of the `idx`-th child of frame `parent`.
pub open spec fn child_id(parent: Seq<char>, idx: nat) -> Seq<char> {
    parent + "_"@ + dec(idx)
}

/// Code for one child node, appended to frame `parent`.
pub open spec fn child_after(p: Seq<char>, parent: Seq<char>, idx: nat, node: Node) -> Seq<char>
    decreases node,
{
    let cid = child_id(parent, idx);
    match node {
        Node::Text { style_ref, fill_ref, content } => {
            let a = p + "    const t_"@ + cid + " = figma.createText();\n"@;
            let b = binding_after(
                a,
                "    await __cdBindTextStyle(t_"@,
                cid,
                ", "@,
                style_ref@,
                ");\n"@,
            );
            let c = binding_after(b, "    t_"@, cid, ".characters = "@, content@, ";\n"@);
            let d = binding_after(c, "    await __cdBindFill(t_"@, cid, ", "@, fill_ref@, ");\n"@);
            d + "    f_"@ + parent + ".appendChild(t_"@ + cid + ");\n"@
                + "    createdNodeIds.push(t_"@ + cid + ".id);\n"@
        },
        Node::Instance { component_ref, props } => {
            let a = binding_after(
                p,
                "    const i_"@,
                cid,
                " = await __cdCreateInstance("@,
                component_ref@,
                ");\n"@,
            );
            a + "    await __cdApplyProps(i_"@ + cid + ", "@ + props@ + ");\n"@ + "    f_"@
                + parent + ".appendChild(i_"@ + cid + ");\n"@ + "    createdNodeIds.push(i_"@
                + cid + ".id);\n"@
        },
        Node::Frame(inner) => {
            let ifid = sanitized(inner.local_id@);
            children_after(frame_setup_after(p, ifid, *inner), ifid, inner.children@) + "    f_"@
                + parent + ".appendChild(f_"@ + ifid + ");\n"@ + "    createdNodeIds.push(f_"@
                + ifid + ".id);\n"@
        },
    }
}

/// Code for a list of children of frame `parent`, in order.
pub open spec fn children_after(p: Seq<char>, parent: Seq<char>, kids: Seq<Node>) -> Seq<char>
    decreases kids,
{
    if kids.len() == 0 {
        p
    } else {
        child_after(
            children_after(p, parent, kids.drop_last()),
            parent,
            (kids.len() - 1) as nat,
            kids.last(),
        )
    }
}

/// The block for one top-level frame.
pub open spec fn frame_after(p: Seq<char>, frame: Frame) -> Seq<char> {
    let fid = sanitized(frame.local_id@);
    let a = p + "\n"@ + "  // frame: "@ + frame.local_id@ + " ("@ + frame.name@ + ")\n"@
        + "  try {\n"@;
    let b = binding_after(
        frame_setup_after(a, fid, frame),
        "    await __cdPlacePage(f_"@,
        fid,
        ", "@,
        frame.page@,
        ");\n"@,
    );
    let c = b + "    createdNodeIds.push(f_"@ + fid + ".id);\n"@;
    let d = children_after(c, fid, frame.children@) + "  } catch (e) {\n"@;
    js_literal_after(d + "    errors.push({ frame: "@, frame.local_id@)
        + ", message: String(e && e.message || e) });\n"@ + "  }\n"@
}

/// The blocks for a list of top-level frames, in order.
pub open spec fn frames_after(p: Seq<char>, frames: Seq<Frame>) -> Seq<char>
    decreases frames.len(),
{
    if frames.len() == 0 {
        p
    } else {
        frame_after(frames_after(p, frames.drop_last()), frames.last())
    }
}

/// The whole script for a plan.
pub open spec fn script_text(plan: DesignPlan) -> Seq<char> {
    let a = "// cd-canvas generated — do not edit by hand\n"@ + "// planId: "@ + plan.plan_id@
        + "\n"@ + "// dsRef:  "@ + plan.ds_ref@ + "\n"@ + "(async () => {\n"@
        + "  const __cdPlanId = "@;
    let b = js_literal_after(a, plan.plan_id@) + ";\n"@ + "  const __cdDsRef  = "@;
    let c = js_literal_after(b, plan.ds_ref@) + ";\n"@ + "  const createdNodeIds = [];\n"@
        + "  const errors = [];\n"@ + "\n"@ + "  await __cdPreloadFonts(__cdDsRef);\n"@;
    frames_after(c, plan.frames@) + "\n"@
        + "  __cdEmitResult({ planId: __cdPlanId, createdNodeIds, errors });\n"@ + "})();\n"@
}

// ── executable compiler ────────────────────────────────────────────────────

/// Appends the escape sequence of `c`.
fn push_js_escape_char(out: &mut String, c: char)
    ensures
        final(out)@ == old(out)@ + js_escape_char(c),
{
    if c == '\\' {
        push_char(out, '\\');
        push_char(out, '\\');
    } else if c == '\'' {
        push_char(out, '\\');
        push_char(out, '\'');
    } else if c == '\n' {
        push_char(out, '\\');
        push_char(out, 'n');
    } else if c == '\r' {
        push_char(out, '\\');
        push_char(out, 'r');
    } else if c == '\t' {
        push_char(out, '\\');
        push_char(out, 't');
    } else if c == '<' {
        push_char(out, '\\');
        push_char(out, 'x');
        push_char(out, '3');
        push_char(out, 'c');
    } else if c == '\u{2028}' {
        push_char(out, '\\');
        push_char(out, 'u');
        push_char(out, '2');
        push_char(out, '0');
        push_char(out, '2');
        push_char(out, '8');
    } else if c == '\u{2029}' {
        push_char(out, '\\');
        push_char(out, 'u');
        push_char(out, '2');
        push_char(out, '0');
        push_char(out, '2');
        push_char(out, '9');
    } else if (c as u32) < 0x20 {
        push_char(out, '\\');
        push_char(out, 'x');
        push_hex2(out, c as u8);
    } else {
        push_char(out, c);
    }
    assert(final(out)@ =~= old(out)@ + js_escape_char(c));
}

/// Appends a JS single-quoted string literal holding `s`.
fn push_js_string(out: &mut String, s: &str)
    ensures
        final(out)@ == js_literal_after(old(out)@, s@),
{
    let v = chars_of(s);
    push_char(out, '\'');
    let ghost start = out@;
    let mut i: usize = 0;
    while i < v.len()
        invariant
            i <= v.len(),
            v@ == s@,
            out@ == start + js_escape(v@.subrange(0, i as int)),
        decreases v.len() - i,
    {
        push_js_escape_char(out, v[i]);
        assert(v@.subrange(0, i + 1).drop_last() =~= v@.subrange(0, i as int));
        i = i + 1;
        assert(out@ =~= start + js_escape(v@.subrange(0, i as int)));
    }
    assert(v@.subrange(0, v@.len() as int) =~= v@);
    push_char(out, '\'');
}

/// Emit a JS single-quoted string literal with full escaping.
pub fn js_string(s: &str) -> (r: String)
    ensures
        r@ == js_literal(s@),
{
    let mut out = String::new();
    push_js_string(&mut out, s);
    out
}

fn is_ascii_alnum(c: char) -> (b: bool)
    ensures
        b == (('a' <= c && c <= 'z') || ('A' <= c && c <= 'Z') || ('0' <= c && c <= '9')),
{
    ('a' <= c && c <= 'z') || ('A' <= c && c <= 'Z') || ('0' <= c && c <= '9')
}

/// Sanitize a DesignPlan localId for use as a JS identifier fragment.
/// Non-alphanumeric characters become `_`. A leading digit gets a `_`
/// prefix.
pub fn sanitize_id(raw: &str) -> (r: String)
    ensures
        r@ == sanitized(raw@),
{
    let v = chars_of(raw);
    if v.len() == 0 {
        let mut r = String::new();
        push_char(&mut r, '_');
        assert(r@ =~= sanitized(raw@));
        return r;
    }
    let mut m: Vec<char> = Vec::new();
    let mut i: usize = 0;
    while i < v.len()
        invariant
            i <= v.len(),
            m@ == v@.subrange(0, i as int).map_values(|c: char| ident_char(c)),
        decreases v.len() - i,
    {
        let c = v[i];
        let d = if is_ascii_alnum(c) {
            c
        } else {
            '_'
        };
        m.push(d);
        i = i + 1;
        assert(m@ =~= v@.subrange(0, i as int).map_values(|c: char| ident_char(c)));
    }
    assert(v@.subrange(0, v@.len() as int) =~= v@);
    let mut r = String::new();
    if '0' <= m[0] && m[0] <= '9' {
        push_char(&mut r, '_');
    }
    push_chars(&mut r, &m);
    assert(r@ =~= sanitized(raw@));
    r
}

fn mode_str(m: LayoutMode) -> (r: &'static str)
    ensures
        r@ == mode_name(m),
{
    match m {
        LayoutMode::Vertical => "VERTICAL",
        LayoutMode::Horizontal => "HORIZONTAL",
        LayoutMode::Absent => "NONE",
    }
}

fn push_binding(out: &mut String, head: &str, id: &str, mid: &str, arg: &str, tail: &str)
    ensures
        final(out)@ == binding_after(old(out)@, head@, id@, mid@, arg@, tail@),
{
    push_str(out, head);
    push_str(out, id);
    push_str(out, mid);
    push_js_string(out, arg);
    push_str(out, tail);
}

fn push_line3(out: &mut String, head: &str, id: &str, tail: &str)
    ensures
        final(out)@ == old(out)@ + head@ + id@ + tail@,
{
    push_str(out, head);
    push_str(out, id);
    push_str(out, tail);
}

fn emit_layout(out: &mut String, fid: &str, layout: &Layout)
    ensures
        final(out)@ == layout_after(old(out)@, fid@, *layout),
{
    push_binding(out, "    f_", fid, ".layoutMode = ", mode_str(layout.mode), ";\n");
    push_binding(out, "    await __cdBindPadding(f_", fid, ", ", layout.padding.as_str(), ");\n");
    match &layout.gap {
        Some(g) => {
            push_binding(out, "    await __cdBindGap(f_", fid, ", ", g.as_str(), ");\n");
        },
        None => {},
    }
}

fn emit_fill(out: &mut String, fid: &str, fill: &Option<String>)
    ensures
        final(out)@ == fill_after(old(out)@, fid@, *fill),
{
    match fill {
        Some(f) => {
            push_binding(out, "    await __cdBindFill(f_", fid, ", ", f.as_str(), ");\n");
        },
        None => {},
    }
}

fn emit_frame_setup(out: &mut String, fid: &str, frame: &Frame)
    ensures
        final(out)@ == frame_setup_after(old(out)@, fid@, *frame),
{
    push_line3(out, "    const f_", fid, " = figma.createFrame();\n");
    push_binding(out, "    f_", fid, ".name = ", frame.name.as_str(), ";\n");
    push_line3(out, "    f_", fid, ".resizeWithoutConstraints(");
    push_decimal(out, &frame.size.w);
    push_str(out, ", ");
    push_decimal(out, &frame.size.h);
    push_str(out, ");\n");
    emit_layout(out, fid, &frame.layout);
    emit_fill(out, fid, &frame.fill_ref);
}

fn child_ident(parent: &str, idx: usize) -> (r: String)
    ensures
        r@ == child_id(parent@, idx as nat),
{
    let mut r = String::new();
    push_str(&mut r, parent);
    push_char(&mut r, '_');
    push_dec(&mut r, idx as u64);
    proof {
        reveal_strlit("_");
    }
    assert(r@ =~= child_id(parent@, idx as nat));
    r
}

fn compile_child(out: &mut String, parent_fid: &str, idx: usize, node: &Node)
    ensures
        final(out)@ == child_after(old(out)@, parent_fid@, idx as nat, *node),
    decreases node,
{
    let cid = child_ident(parent_fid, idx);
    let c = cid.as_str();
    match node {
        Node::Text { style_ref, fill_ref, content } => {
            push_line3(out, "    const t_", c, " = figma.createText();\n");
            push_binding(out, "    await __cdBindTextStyle(t_", c, ", ", style_ref.as_str(), ");\n");
            push_binding(out, "    t_", c, ".characters = ", content.as_str(), ";\n");
            push_binding(out, "    await __cdBindFill(t_", c, ", ", fill_ref.as_str(), ");\n");
            push_line3(out, "    f_", parent_fid, ".appendChild(t_");
            push_str(out, c);
            push_str(out, ");\n");
            push_line3(out, "    createdNodeIds.push(t_", c, ".id);\n");
        },
        Node::Instance { component_ref, props } => {
            push_binding(
                out,
                "    const i_",
                c,
                " = await __cdCreateInstance(",
                component_ref.as_str(),
                ");\n",
            );
            push_line3(out, "    await __cdApplyProps(i_", c, ", ");
            push_str(out, props.as_str());
            push_str(out, ");\n");
            push_line3(out, "    f_", parent_fid, ".appendChild(i_");
            push_str(out, c);
            push_str(out, ");\n");
            push_line3(out, "    createdNodeIds.push(i_", c, ".id);\n");
        },
        Node::Frame(inner) => {
            let ifid_s = sanitize_id(inner.local_id.as_str());
            let ifid = ifid_s.as_str();
            emit_frame_setup(out, ifid, inner);
            compile_children(out, ifid, &inner.children);
            push_line3(out, "    f_", parent_fid, ".appendChild(f_");
            push_str(out, ifid);
            push_str(out, ");\n");
            push_line3(out, "    createdNodeIds.push(f_", ifid, ".id);\n");
        },
    }
}

fn compile_children(out: &mut String, fid: &str, kids: &Vec<Node>)
    ensures
        final(out)@ == children_after(old(out)@, fid@, kids@),
    decreases kids,
{
    let ghost start = out@;
    let mut i: usize = 0;
    while i < kids.len()
        invariant
            i <= kids@.len(),
            out@ == children_after(start, fid@, kids@.subrange(0, i as int)),
        decreases kids.len() - i,
    {
        proof {
            assert(decreases_to!(kids => kids@));
            assert(decreases_to!(kids@ => kids@[i as int]));
        }
        compile_child(out, fid, i, &kids[i]);
        let ghost pre = kids@.subrange(0, i + 1);
        assert(pre.drop_last() =~= kids@.subrange(0, i as int));
        assert(pre.last() == kids@[i as int]);
        i = i + 1;
    }
    assert(kids@.subrange(0, kids@.len() as int) =~= kids@);
}

fn compile_frame(out: &mut String, frame: &Frame)
    ensures
        final(out)@ == frame_after(old(out)@, *frame),
{
    let fid_s = sanitize_id(frame.local_id.as_str());
    let fid = fid_s.as_str();
    push_str(out, "\n");
    push_str(out, "  // frame: ");
    push_str(out, frame.local_id.as_str());
    push_str(out, " (");
    push_str(out, frame.name.as_str());
    push_str(out, ")\n");
    push_str(out, "  try {\n");
    emit_frame_setup(out, fid, frame);
    push_binding(out, "    await __cdPlacePage(f_", fid, ", ", frame.page.as_str(), ");\n");
    push_line3(out, "    createdNodeIds.push(f_", fid, ".id);\n");
    compile_children(out, fid, &frame.children);
    push_str(out, "  } catch (e) {\n");
    push_str(out, "    errors.push({ frame: ");
    push_js_string(out, frame.local_id.as_str());
    push_str(out, ", message: String(e && e.message || e) });\n");
    push_str(out, "  }\n");
}

/// Compile a DesignPlan into a self-contained Plugin API JS script.
///
/// The script, when executed inside Figma, pre-loads the fonts the DS
/// needs, creates each frame with its AutoLayout settings, appends text,
/// instance and nested-frame children binding every ref by name, and
/// finally reports `{ planId, createdNodeIds, errors }` through
/// `__cdEmitResult`. Compilation always succeeds.
pub fn compile(plan: &DesignPlan) -> (r: Result<String, CanvasError>)
    ensures
        r matches Ok(s) && s@ == script_text(*plan),
{
    let mut out = String::new();
    push_str(&mut out, "// cd-canvas generated — do not edit by hand\n");
    push_str(&mut out, "// planId: ");
    push_str(&mut out, plan.plan_id.as_str());
    push_str(&mut out, "\n");
    push_str(&mut out, "// dsRef:  ");
    push_str(&mut out, plan.ds_ref.as_str());
    push_str(&mut out, "\n");
    push_str(&mut out, "(async () => {\n");
    push_str(&mut out, "  const __cdPlanId = ");
    push_js_string(&mut out, plan.plan_id.as_str());
    push_str(&mut out, ";\n");
    push_str(&mut out, "  const __cdDsRef  = ");
    push_js_string(&mut out, plan.ds_ref.as_str());
    push_str(&mut out, ";\n");
    push_str(&mut out, "  const createdNodeIds = [];\n");
    push_str(&mut out, "  const errors = [];\n");
    push_str(&mut out, "\n");
    push_str(&mut out, "  await __cdPreloadFonts(__cdDsRef);\n");
    let ghost head = out@;
    let mut i: usize = 0;
    while i < plan.frames.len()
        invariant
            i <= plan.frames@.len(),
            out@ == frames_after(head, plan.frames@.subrange(0, i as int)),
        decreases plan.frames.len() - i,
    {
        compile_frame(&mut out, &plan.frames[i]);
        let ghost pre = plan.frames@.subrange(0, i + 1);
        assert(pre.drop_last() =~= plan.frames@.subrange(0, i as int));
        i = i + 1;
    }
    assert(plan.frames@.subrange(0, plan.frames@.len() as int) =~= plan.frames@);
    push_str(&mut out, "\n");
    push_str(&mut out, "  __cdEmitResult({ planId: __cdPlanId, createdNodeIds, errors });\n");
    push_str(&mut out, "})();\n");
    assert(Seq::<char>::empty() + "// cd-canvas generated — do not edit by hand\n"@
        =~= "// cd-canvas generated — do not edit by hand\n"@);
    Ok(out)
}


// ── what escaping guarantees ───────────────────────────────────────────────

/// A character that may not stand raw inside an embedded JS string: line
/// terminators and `<`.
pub open spec fn unsafe_in_script(c: char) -> bool {
    c == '\n' || c == '\r' || c == '<' || c == '\u{2028}' || c == '\u{2029}'
}

proof fn lemma_escape_char_safe(c: char)
    ensures
        forall|k: int| 0 <= k < js_escape_char(c).len() ==> !unsafe_in_script(#[trigger] js_escape_char(c)[k]),
        forall|k: int| 0 <= k < js_escape_char(c).len() && #[trigger] js_escape_char(c)[k] == '\'' ==> k > 0
            && js_escape_char(c)[k - 1] == '\\',
{
    if (c as u32) < 0x20 && c != '\n' && c != '\r' && c != '\t' {
        let b = c as nat;
        assert(b / 16 < 2);
        assert(b % 16 < 16);
        let h = hex2(b);
        assert(h[0] == hex_char(b / 16) && h[1] == hex_char(b % 16));
        assert forall|d: nat| d < 16 implies !unsafe_in_script(#[trigger] hex_char(d)) && hex_char(d) != '\'' by {
            if d < 10 {
                assert((48 + d) as char as int == 48 + d);
            } else {
                assert((87 + d) as char as int == 87 + d);
            }
        }
    }
}

/// What `js_string` embeds holds no line terminator and no `<`, and each
/// single quote in it is escaped by a backslash, so the literal ends only
/// at its closing quote.
pub proof fn law_escaped_text_is_script_safe(s: Seq<char>)
    ensures
        forall|i: int| 0 <= i < js_escape(s).len() ==> !unsafe_in_script(#[trigger] js_escape(s)[i]),
        forall|i: int| 0 <= i < js_escape(s).len() && #[trigger] js_escape(s)[i] == '\'' ==> i > 0
            && js_escape(s)[i - 1] == '\\',
    decreases s.len(),
{
    if s.len() > 0 {
        law_escaped_text_is_script_safe(s.drop_last());
        lemma_escape_char_safe(s.last());
        let p = js_escape(s.drop_last());
        let q = js_escape_char(s.last());
        assert(js_escape(s) == p + q);
        assert forall|i: int| 0 <= i < js_escape(s).len() implies !unsafe_in_script(#[trigger] js_escape(s)[i]) by {
            if i >= p.len() {
                assert(js_escape(s)[i] == q[i - p.len()]);
            } else {
                assert(js_escape(s)[i] == p[i]);
            }
        }
        assert forall|i: int| 0 <= i < js_escape(s).len() && #[trigger] js_escape(s)[i] == '\'' implies i > 0
            && js_escape(s)[i - 1] == '\\' by {
            if i >= p.len() {
                assert(js_escape(s)[i] == q[i - p.len()]);
                assert(js_escape(s)[i - 1] == q[i - p.len() - 1]);
            } else {
                assert(js_escape(s)[i] == p[i]);
                assert(js_escape(s)[i - 1] == p[i - 1]);
            }
        }
    }
}

/// `sanitize_id` always gives a usable identifier fragment: non-empty,
/// ASCII letters, digits and `_` only, not starting with a digit.
pub proof fn law_sanitized_is_identifier(raw: Seq<char>)
    ensures
        sanitized(raw).len() > 0,
        forall|i: int| 0 <= i < sanitized(raw).len() ==> ({
            let c = #[trigger] sanitized(raw)[i];
            ('a' <= c && c <= 'z') || ('A' <= c && c <= 'Z') || ('0' <= c && c <= '9') || c == '_'
        }),
        !('0' <= sanitized(raw)[0] && sanitized(raw)[0] <= '9'),
{
    let m = raw.map_values(|c: char| ident_char(c));
    assert(forall|i: int| 0 <= i < m.len() ==> m[i] == ident_char(raw[i]));
    if raw.len() > 0 && '0' <= m[0] && m[0] <= '9' {
        assert(forall|i: int| 1 <= i < sanitized(raw).len() ==> sanitized(raw)[i] == m[i - 1]);
    }
}


// ── reading an embedded literal back ───────────────────────────────────────

/// The character a one-letter JS escape (`\\`, `\'`, `\n`, `\r`, `\t`)
/// stands for.
pub open spec fn js_simple_unescape(e: char) -> Option<char> {
    if e == '\\' {
        Some('\\')
    } else if e == '\'' {
        Some('\'')
    } else if e == 'n' {
        Some('\n')
    } else if e == 'r' {
        Some('\r')
    } else if e == 't' {
        Some('\t')
    } else {
        None
    }
}

/// The code of a `\xHH` escape starting at `t[0]` (the backslash).
pub open spec fn js_hex_escape(t: Seq<char>) -> Option<nat> {
    if t.len() >= 4 && t[1] == 'x' && hex_value(t[2]) is Some && hex_value(t[3]) is Some {
        Some(hex_value(t[2])->0 * 16 + hex_value(t[3])->0)
    } else {
        None
    }
}

/// The code of a `\uHHHH` escape starting at `t[0]` (the backslash).
pub open spec fn js_unicode_escape(t: Seq<char>) -> Option<nat> {
    if t.len() >= 6 && t[1] == 'u' && hex_value(t[2]) is Some && hex_value(t[3]) is Some
        && hex_value(t[4]) is Some && hex_value(t[5]) is Some {
        Some(
            hex_value(t[2])->0 * 4096 + hex_value(t[3])->0 * 256 + hex_value(t[4])->0 * 16 + hex_value(
                t[5],
            )->0,
        )
    } else {
        None
    }
}

/// How a JS engine reads the text between the quotes of a single-quoted
/// literal, for the escapes `js_escape` writes; `None` for a raw quote, a
/// raw line terminator, or an escape it does not write.
pub open spec fn js_unescape(t: Seq<char>) -> Option<Seq<char>>
    decreases t.len(),
{
    if t.len() == 0 {
        Some(seq![])
    } else if t[0] == '\\' {
        if t.len() < 2 {
            None
        } else if js_simple_unescape(t[1]) is Some {
            match js_unescape(t.subrange(2, t.len() as int)) {
                Some(r) => Some(seq![js_simple_unescape(t[1])->0] + r),
                None => None,
            }
        } else if js_hex_escape(t) is Some {
            match js_unescape(t.subrange(4, t.len() as int)) {
                Some(r) => Some(seq![js_hex_escape(t)->0 as char] + r),
                None => None,
            }
        } else if js_unicode_escape(t) is Some && js_unicode_escape(t)->0 < 0xD800 {
            match js_unescape(t.subrange(6, t.len() as int)) {
                Some(r) => Some(seq![js_unicode_escape(t)->0 as char] + r),
                None => None,
            }
        } else {
            None
        }
    } else if t[0] == '\'' || t[0] == '\n' || t[0] == '\r' || t[0] == '\u{2028}' || t[0] == '\u{2029}' {
        None
    } else {
        match js_unescape(t.subrange(1, t.len() as int)) {
            Some(r) => Some(seq![t[0]] + r),
            None => None,
        }
    }
}

proof fn lemma_js_escape_front(s: Seq<char>)
    requires
        s.len() > 0,
    ensures
        js_escape(s) == js_escape_char(s[0]) + js_escape(s.drop_first()),
    decreases s.len(),
{
    if s.len() == 1 {
        assert(s.drop_last() =~= Seq::<char>::empty());
        assert(s.drop_first() =~= Seq::<char>::empty());
        assert(js_escape(s.drop_last()) =~= Seq::<char>::empty());
        assert(js_escape(s.drop_first()) =~= Seq::<char>::empty());
        assert(js_escape(s) =~= js_escape_char(s[0]) + js_escape(s.drop_first()));
    } else {
        let init = s.drop_last();
        lemma_js_escape_front(init);
        assert(init[0] == s[0]);
        assert(init.drop_first() =~= s.drop_first().drop_last());
        assert(s.drop_first().last() == s.last());
        assert(js_escape(s) =~= js_escape_char(s[0]) + js_escape(s.drop_first()));
    }
}

proof fn lemma_js_hex_digit(d: nat)
    requires
        d < 16,
    ensures
        hex_value(hex_char(d)) == Some(d),
{
    if d < 10 {
        assert((48 + d) as char as nat == 48 + d);
    } else {
        assert((87 + d) as char as nat == 87 + d);
    }
}

proof fn lemma_js_unescape_one(c: char, rest: Seq<char>)
    ensures
        js_unescape(js_escape_char(c) + rest) == match js_unescape(rest) {
            Some(r) => Some(seq![c] + r),
            None => None::<Seq<char>>,
        },
{
    let e = js_escape_char(c);
    let t = e + rest;
    if c == '\\' || c == '\'' || c == '\n' || c == '\r' || c == '\t' {
        assert(t[0] == '\\');
        assert(t.subrange(2, t.len() as int) =~= rest);
    } else if c == '<' {
        assert(t[0] == '\\' && t[1] == 'x' && t[2] == '3' && t[3] == 'c');
        assert(hex_value('3') == Some(3nat));
        assert(hex_value('c') == Some(12nat));
        assert(js_hex_escape(t) == Some(60nat));
        assert(t.subrange(4, t.len() as int) =~= rest);
    } else if c == '\u{2028}' || c == '\u{2029}' {
        assert(t[0] == '\\' && t[1] == 'u' && t[2] == '2' && t[3] == '0' && t[4] == '2');
        assert(hex_value('2') == Some(2nat) && hex_value('0') == Some(0nat));
        assert(hex_value('8') == Some(8nat) && hex_value('9') == Some(9nat));
        assert(js_hex_escape(t) is None);
        assert(t.subrange(6, t.len() as int) =~= rest);
    } else if (c as u32) < 0x20 {
        let b = c as nat;
        lemma_js_hex_digit(b / 16);
        lemma_js_hex_digit(b % 16);
        assert(t[0] == '\\' && t[1] == 'x');
        assert(t[2] == hex_char(b / 16) && t[3] == hex_char(b % 16));
        assert(js_simple_unescape(t[1]) is None);
        assert(js_hex_escape(t) == Some(b)) by (nonlinear_arith)
            requires
                hex_value(t[2]) == Some(b / 16),
                hex_value(t[3]) == Some(b % 16),
                t.len() >= 4,
                t[1] == 'x',
        ;
        assert(b as char == c);
        assert(t.subrange(4, t.len() as int) =~= rest);
    } else {
        assert(t[0] == c);
        assert(t.subrange(1, t.len() as int) =~= rest);
    }
}

/// What `js_string` embeds reads back, through a JS engine's decoding of
/// escapes, as exactly the string it was given.
pub proof fn law_embedded_text_reads_back(s: Seq<char>)
    ensures
        js_unescape(js_escape(s)) == Some(s),
    decreases s.len(),
{
    if s.len() > 0 {
        lemma_js_escape_front(s);
        law_embedded_text_reads_back(s.drop_first());
        lemma_js_unescape_one(s[0], js_escape(s.drop_first()));
        assert(seq![s[0]] + s.drop_first() =~= s);
    }
}

/// `needle` occurs in `pre + needle + post`.
proof fn lemma_occurs_between(pre: Seq<char>, needle: Seq<char>, post: Seq<char>)
    ensures
        has_sub(pre + needle + post, needle),
{
    let h = pre + needle + post;
    assert(h.subrange(pre.len() as int, (pre.len() + needle.len()) as int) =~= needle);
    assert(occurs_at(h, needle, pre.len() as int));
}

/// A text node's code binds the node's own variable to its refs, each to
/// the slot it names: the text style to `style_ref` and the fill to
/// `fill_ref`, each passed by name as a string literal.
pub proof fn law_text_binds_its_refs(
    p: Seq<char>,
    parent: Seq<char>,
    idx: nat,
    style_ref: String,
    fill_ref: String,
    content: String,
)
    ensures
        has_sub(
            child_after(p, parent, idx, Node::Text { style_ref, fill_ref, content }),
            "    await __cdBindTextStyle(t_"@ + child_id(parent, idx) + ", "@ + js_literal(style_ref@) + ");\n"@,
        ),
        has_sub(
            child_after(p, parent, idx, Node::Text { style_ref, fill_ref, content }),
            "    await __cdBindFill(t_"@ + child_id(parent, idx) + ", "@ + js_literal(fill_ref@) + ");\n"@,
        ),
{
    let cid = child_id(parent, idx);
    let whole = child_after(p, parent, idx, Node::Text { style_ref, fill_ref, content });
    let a = p + "    const t_"@ + cid + " = figma.createText();\n"@;
    let style_line = "    await __cdBindTextStyle(t_"@ + cid + ", "@ + js_literal(style_ref@) + ");\n"@;
    let b = binding_after(a, "    await __cdBindTextStyle(t_"@, cid, ", "@, style_ref@, ");\n"@);
    assert(b =~= a + style_line);
    let c = binding_after(b, "    t_"@, cid, ".characters = "@, content@, ";\n"@);
    let fill_line = "    await __cdBindFill(t_"@ + cid + ", "@ + js_literal(fill_ref@) + ");\n"@;
    let filled = binding_after(c, "    await __cdBindFill(t_"@, cid, ", "@, fill_ref@, ");\n"@);
    assert(filled =~= c + fill_line);
    let rest = "    f_"@ + parent + ".appendChild(t_"@ + cid + ");\n"@ + "    createdNodeIds.push(t_"@ + cid
        + ".id);\n"@;
    assert(whole =~= filled + rest);
    let after_style = c.subrange(b.len() as int, c.len() as int) + fill_line + rest;
    assert(whole =~= a + style_line + after_style);
    lemma_occurs_between(a, style_line, after_style);
    lemma_occurs_between(c, fill_line, rest);
}

/// An instance node's code creates the instance from its own component
/// ref, passed by name as a string literal, on the node's own variable.
pub proof fn law_instance_uses_its_component(p: Seq<char>, parent: Seq<char>, idx: nat, component_ref: String, props: String)
    ensures
        has_sub(
            child_after(p, parent, idx, Node::Instance { component_ref, props }),
            "    const i_"@ + child_id(parent, idx) + " = await __cdCreateInstance("@ + js_literal(component_ref@)
                + ");\n"@,
        ),
{
    let cid = child_id(parent, idx);
    let line = "    const i_"@ + cid + " = await __cdCreateInstance("@ + js_literal(component_ref@) + ");\n"@;
    let created = binding_after(p, "    const i_"@, cid, " = await __cdCreateInstance("@, component_ref@, ");\n"@);
    assert(created =~= p + line);
    let rest = "    await __cdApplyProps(i_"@ + cid + ", "@ + props@ + ");\n"@ + "    f_"@ + parent + ".appendChild(i_"@
        + cid + ");\n"@ + "    createdNodeIds.push(i_"@ + cid + ".id);\n"@;
    assert(child_after(p, parent, idx, Node::Instance { component_ref, props }) =~= p + line + rest);
    lemma_occurs_between(p, line, rest);
}

} // verus!
