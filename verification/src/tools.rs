//! The design-specific tools: each submodule owns one tool's schema and its
//! handler. The handlers are pure; persisting todo lists and talking to
//! Figma are the caller's part.

pub mod catalog;
pub mod ds_query;
pub mod ds_validate;
pub mod figma_nav;
pub mod prd_parse;
pub mod todo;

pub use catalog::{all_schemas, CRATE_NAME};
