//! The Brief — what the Interpreter extracts from a PRD and the Turn-1
//! answers; it feeds the Planner.

use vstd::prelude::*;
use crate::text::{all_ws, is_blank, trim};

verus! {

/// Name of the component this module stands for.
pub const CRATE_NAME: &'static str = "cd-brief";

/// Target platform.
#[derive(Debug, Clone, Copy, PartialEq, Eq, Structural)]
pub enum Platform {
    Mobile,
    Desktop,
    Responsive,
}

/// A single question the Interpreter needs answered in Turn-1.
#[derive(Debug)]
pub struct ClarifyAsk {
    pub id: String,
    pub prompt: String,
    pub options: Vec<String>,
    /// True iff this ask may be multi-select.
    pub allow_multiple: bool,
}

/// The user's answer to a [`ClarifyAsk`].
#[derive(Debug)]
pub struct ClarifyAnswer {
    pub id: String,
    pub values: Vec<String>,
}

/// Interpreter output — the structured brief the Planner binds against.
#[derive(Debug)]
pub struct Brief {
    /// One-line restatement of what the user wants.
    pub intent: String,
    /// Target platform (narrows Planner frame sizes).
    pub platform: Option<Platform>,
    /// Primary users / audience, in short phrases.
    pub users: Vec<String>,
    /// Jobs-to-be-done / user goals.
    pub jobs: Vec<String>,
    /// Screens the Planner should produce (short labels, not IDs).
    pub screens: Vec<String>,
    /// Hard constraints (e.g. "must fit on 375 wide", "offline-first").
    pub constraints: Vec<String>,
    /// Success signals — what 'good' looks like from the user's side.
    pub success_signals: Vec<String>,
    /// Chosen visual direction id from the visual-direction picker.
    pub direction: Option<String>,
    /// Free-form notes captured by the Interpreter.
    pub notes: Option<String>,
}

/// The Brief has enough signal for the Planner: a non-blank intent, a
/// platform and at least one screen.
pub open spec fn plan_ready(b: Brief) -> bool {
    &&& trim(b.intent@).len() > 0
    &&& b.platform is Some
    &&& b.screens@.len() > 0
}

impl Default for Brief {
    fn default() -> (b: Self)
        ensures
            b.intent@.len() == 0,
            b.platform is None,
            b.users@.len() == 0,
            b.jobs@.len() == 0,
            b.screens@.len() == 0,
            b.constraints@.len() == 0,
            b.success_signals@.len() == 0,
            b.direction is None,
            b.notes is None,
    {
        Brief {
            intent: String::new(),
            platform: None,
            users: Vec::new(),
            jobs: Vec::new(),
            screens: Vec::new(),
            constraints: Vec::new(),
            success_signals: Vec::new(),
            direction: None,
            notes: None,
        }
    }
}

impl Brief {
    /// True iff the Brief has enough signal for the Planner to proceed.
    pub fn is_plan_ready(&self) -> (r: bool)
        ensures
            r == plan_ready(*self),
            r == (!all_ws(self.intent@) && self.platform is Some && self.screens@.len() > 0),
    {
        !is_blank(self.intent.as_str()) && self.platform.is_some() && !self.screens.is_empty()
    }
}

} // verus!
