//! DesignPlan IR — the structure the Planner emits and the compiler and
//! validators consume. Every value-bearing leaf is a `*Ref` string (a token
//! or component reference), never a raw hex / px / font name.

use vstd::prelude::*;
use crate::json::{Decimal, Json};

verus! {

/// Name of the component this module stands for.
pub const CRATE_NAME: &'static str = "cd-plan";

/// Top-level DesignPlan IR.
#[derive(Debug)]
pub struct DesignPlan {
    pub plan_id: String,
    pub ds_ref: String,
    pub project_id: String,
    pub intent: Intent,
    pub step_kind: StepKind,
    pub frames: Vec<Frame>,
    pub components_to_create: Vec<Json>,
    pub tokens_to_create: Vec<Json>,
    pub craft_asserts: Vec<String>,
    pub quality_gates: Vec<String>,
    pub depends_on: Vec<String>,
    pub rationale: String,
}

#[derive(Debug, Clone, Copy, PartialEq, Eq, Structural)]
pub enum Intent {
    CreateScreens,
    RefineSelection,
    Restyle,
    AddState,
    ExtractDs,
}

#[derive(Debug, Clone, Copy, PartialEq, Eq, Structural)]
pub enum StepKind {
    Pages,
    Skeleton,
    Content,
    States,
    Annotations,
}

/// A frame: a top-level screen or a nested auto-layout container.
#[derive(Debug)]
pub struct Frame {
    pub local_id: String,
    pub name: String,
    pub page: String,
    pub size: Size,
    pub layout: Layout,
    pub fill_ref: Option<String>,
    pub children: Vec<Node>,
}

/// Frame size in px, as the numbers were written.
#[derive(Debug, Clone, Copy, PartialEq, Eq)]
pub struct Size {
    pub w: Decimal,
    pub h: Decimal,
}

#[derive(Debug)]
pub struct Layout {
    pub mode: LayoutMode,
    pub padding: String,
    pub gap: Option<String>,
}

#[derive(Debug, Clone, Copy, PartialEq, Eq, Structural)]
pub enum LayoutMode {
    Vertical,
    Horizontal,
    /// No auto-layout (`NONE`).
    Absent,
}

/// A child of a frame.
#[derive(Debug)]
pub enum Node {
    Text { style_ref: String, fill_ref: String, content: String },
    /// A component instance. `props` is the instance's property object as
    /// compact JSON text.
    Instance { component_ref: String, props: String },
    Frame(Box<Frame>),
}

} // verus!
