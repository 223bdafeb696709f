//! The tool catalog: every tool schema in one place.

use vstd::prelude::*;
use crate::tools::ds_query::{ds_query_schema, DS_QUERY_SCHEMA};
use crate::tools::ds_validate::{ds_validate_schema, DS_VALIDATE_SCHEMA};
use crate::tools::figma_nav::{
    figma_selection_schema, open_figma_node_schema, FIGMA_SELECTION_SCHEMA, OPEN_FIGMA_NODE_SCHEMA,
};
use crate::tools::prd_parse::{prd_parse_schema, PRD_PARSE_SCHEMA};
use crate::tools::todo::{todo_schema, TODO_SCHEMA};

verus! {

pub const CRATE_NAME: &'static str = "cd-tools";

/// The schemas of the catalog, in order.
pub open spec fn catalog() -> Seq<Seq<char>> {
    seq![
        TODO_SCHEMA@,
        DS_QUERY_SCHEMA@,
        DS_VALIDATE_SCHEMA@,
        PRD_PARSE_SCHEMA@,
        OPEN_FIGMA_NODE_SCHEMA@,
        FIGMA_SELECTION_SCHEMA@,
    ]
}

/// Every tool schema, as JSON text: todo, ds.query, ds.validate,
/// prd_parse, open_figma_node, figma.selection.
pub fn all_schemas() -> (r: Vec<String>)
    ensures
        r@.len() == catalog().len(),
        forall|i: int| 0 <= i < r@.len() ==> #[trigger] r@[i]@ == catalog()[i],
{
    vec![
        todo_schema(),
        ds_query_schema(),
        ds_validate_schema(),
        prd_parse_schema(),
        open_figma_node_schema(),
        figma_selection_schema(),
    ]
}

} // verus!
