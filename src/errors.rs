//! Diagnostics collected while lowering.

use vstd::prelude::*;

verus! {

use crate::ast::NodeId;

/// How serious a diagnostic is.
#[derive(Clone, Copy, Debug, PartialEq, Eq, Structural)]
pub enum Severity {
    Error,
    Warning,
}

/// A problem found at one node of the syntax tree.
#[derive(Clone, Debug)]
pub struct SourceError {
    pub message: String,
    pub node_id: NodeId,
    pub severity: Severity,
}

} // verus!
