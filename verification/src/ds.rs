//! The design-system model: tokens, components, constraints, the assembled
//! design system and the prompt bindings built from it.

pub mod error;
pub mod tokens;
pub mod components;
pub mod constraints;
pub mod design_system;
pub mod prompt;

pub use design_system::{CaseEntry, CaseIndex, DesignSystem, DsMeta, CRATE_NAME};
