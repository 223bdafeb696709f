//! CodeDesign — a terminal design agent's core: briefs and the session
//! state machine, the DesignPlan compiler, the design-system model, the
//! anti-slop lint and critique rubric, prompt assembly and the design
//! tools.

use vstd::prelude::*;

pub mod text;
pub mod json;
pub mod sorted_keys;
pub mod brief;
pub mod state;
pub mod plan;
pub mod canvas;
pub mod patterns;
pub mod rules;
pub mod critique;
pub mod rubric;
pub mod ds;
pub mod craft;
pub mod skill;
pub mod prompts;
pub mod summarizer;
pub mod tools;
pub mod vision;
pub mod cli;
pub mod cli_args;
pub mod design_flow;
pub mod figma;

verus! {

} // verus!
