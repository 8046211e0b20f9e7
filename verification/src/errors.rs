//! Errors surfaced by a generation run.

use vstd::prelude::*;
use crate::names::opt_view;

verus! {

/// An error raised while compiling operations against a schema.  Each
/// variant carries enough context to locate the offending source item.
#[derive(Debug, PartialEq, Eq)]
pub enum CodegenError {
    /// A query uses a field that the schema marks deprecated, and the
    /// configured strategy denies such uses.
    DeprecatedField { field: String, reason: Option<String> },
    /// A document's root holds a bare selection set with no operation
    /// keyword; every compiled operation must be named and typed.
    SelectionSetAtRoot,
    /// An operation definition carries no name.
    UnnamedOperation,
    /// The configured operation-name filter matches no operation in the
    /// documents.
    OperationNotFound { operation: String },
}

/// The mathematical value of a [`CodegenError`].
pub enum CodegenErrorView {
    DeprecatedField { field: Seq<char>, reason: Option<Seq<char>> },
    SelectionSetAtRoot,
    UnnamedOperation,
    OperationNotFound { operation: Seq<char> },
}

impl View for CodegenError {
    type V = CodegenErrorView;

    open spec fn view(&self) -> CodegenErrorView {
        match self {
            CodegenError::DeprecatedField { field, reason } => CodegenErrorView::DeprecatedField {
                field: field@,
                reason: opt_view(*reason),
            },
            CodegenError::SelectionSetAtRoot => CodegenErrorView::SelectionSetAtRoot,
            CodegenError::UnnamedOperation => CodegenErrorView::UnnamedOperation,
            CodegenError::OperationNotFound { operation } => CodegenErrorView::OperationNotFound {
                operation: operation@,
            },
        }
    }
}

} // verus!
