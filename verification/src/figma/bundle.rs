//! The Plugin-JS bundle handed to `figma_execute`: the runtime shim, then
//! the compiled product script.

use vstd::prelude::*;
use crate::text::{push_str, to_owned};

verus! {

pub const CRATE_NAME: &'static str = "cd-figma-mcp";

/// Name of the figma-console-mcp tool that runs arbitrary Plugin API JS.
pub const TOOL_FIGMA_EXECUTE: &'static str = "figma_execute";

/// The runtime that compiled product scripts call into. It resolves the
/// default design system's refs into concrete Figma primitives, places
/// frames on pages, creates component instances and reports the result.
pub const RUNTIME_SHIM_JS: &'static str = r#"// codedesign runtime shim: resolves design-system refs inside Figma.
const __cdTokens = {
  color: {
    'bg.base': { r: 0.99, g: 0.99, b: 0.99 },
    'bg.subtle': { r: 0.96, g: 0.96, b: 0.97 },
    'fg.default': { r: 0.11, g: 0.11, b: 0.13 },
    'fg.muted': { r: 0.42, g: 0.43, b: 0.47 },
    'brand.primary': { r: 0.13, g: 0.39, b: 0.85 },
    'border.default': { r: 0.86, g: 0.87, b: 0.89 },
  },
  space: { xs: 4, sm: 8, md: 12, lg: 16, xl: 24, xxl: 32 },
  typo: {
    'title.lg': { family: 'Inter', style: 'Bold', size: 28, lineHeight: 34 },
    'title.md': { family: 'Inter', style: 'Semi Bold', size: 20, lineHeight: 26 },
    'body.md': { family: 'Inter', style: 'Regular', size: 16, lineHeight: 24 },
    'body.sm': { family: 'Inter', style: 'Regular', size: 14, lineHeight: 20 },
    'label.md': { family: 'Inter', style: 'Medium', size: 14, lineHeight: 20 },
  },
};

function __cdLookup(section, ref) {
  const key = String(ref).startsWith(section + '.') ? String(ref).slice(section.length + 1) : String(ref);
  const table = __cdTokens[section] || {};
  if (!(key in table)) throw new Error('unknown ' + section + ' ref: ' + ref);
  return table[key];
}

async function __cdPreloadFonts(dsRef) {
  const seen = new Set();
  for (const spec of Object.values(__cdTokens.typo)) {
    const id = spec.family + '/' + spec.style;
    if (seen.has(id)) continue;
    seen.add(id);
    await figma.loadFontAsync({ family: spec.family, style: spec.style });
  }
}

async function __cdBindFill(node, ref) {
  node.fills = [{ type: 'SOLID', color: __cdLookup('color', ref) }];
}

async function __cdBindPadding(node, ref) {
  const v = __cdLookup('space', ref);
  node.paddingTop = v; node.paddingRight = v; node.paddingBottom = v; node.paddingLeft = v;
}

async function __cdBindGap(node, ref) {
  node.itemSpacing = __cdLookup('space', ref);
}

async function __cdBindTextStyle(node, ref) {
  const t = __cdLookup('typo', ref);
  node.fontName = { family: t.family, style: t.style };
  node.fontSize = t.size;
  node.lineHeight = { value: t.lineHeight, unit: 'PIXELS' };
}

async function __cdPlacePage(node, pageName) {
  let page = figma.root.children.find((p) => p.name === pageName);
  if (!page) { page = figma.createPage(); page.name = pageName; }
  page.appendChild(node);
}

async function __cdCreateInstance(ref) {
  const comp = figma.root.findOne((n) => n.type === 'COMPONENT' && n.name === ref);
  if (comp) return comp.createInstance();
  const stub = figma.createFrame();
  stub.name = ref;
  return stub;
}

async function __cdApplyProps(inst, props) {
  if (!props || typeof inst.setProperties !== 'function') return;
  try { inst.setProperties(props); } catch (e) { /* props the component does not define */ }
}

function __cdEmitResult(result) {
  return result;
}"#;

/// The bundle for `figma_execute`: the runtime shim, a newline, then the
/// compiled product script.
pub open spec fn bundle_text(product_js: Seq<char>) -> Seq<char> {
    RUNTIME_SHIM_JS@ + "\n"@ + product_js
}

/// Wraps a compiled product script with the runtime shim; the only way to
/// produce what `figma_execute` runs.
pub fn bundle_plugin_js(product_js: &str) -> (r: String)
    ensures
        r@ == bundle_text(product_js@),
{
    let mut s = to_owned(RUNTIME_SHIM_JS);
    push_str(&mut s, "\n");
    push_str(&mut s, product_js);
    s
}

} // verus!
