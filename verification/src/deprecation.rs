//! Deprecation marks on schema fields, and the policy applied when a query
//! uses a deprecated field.

use vstd::prelude::*;
use crate::errors::{CodegenError, CodegenErrorView};
use crate::names::opt_view;

verus! {

/// Whether a schema field is deprecated, and with which reason.
#[derive(Debug, PartialEq, Eq)]
pub enum DeprecationStatus {
    Current,
    Deprecated(Option<String>),
}

/// The mathematical value of a [`DeprecationStatus`].
pub enum DeprecationStatusView {
    Current,
    Deprecated(Option<Seq<char>>),
}

impl View for DeprecationStatus {
    type V = DeprecationStatusView;

    open spec fn view(&self) -> DeprecationStatusView {
        match self {
            DeprecationStatus::Current => DeprecationStatusView::Current,
            DeprecationStatus::Deprecated(r) => DeprecationStatusView::Deprecated(opt_view(*r)),
        }
    }
}

impl Clone for DeprecationStatus {
    fn clone(&self) -> (r: Self)
        ensures
            r@ == self@,
    {
        match self {
            DeprecationStatus::Current => DeprecationStatus::Current,
            DeprecationStatus::Deprecated(r) => DeprecationStatus::Deprecated(
                match r {
                    Option::Some(s) => Option::Some(s.clone()),
                    Option::None => Option::None,
                },
            ),
        }
    }
}

/// How uses of deprecated items are treated during generation.
#[derive(Clone, Copy, PartialEq, Eq, Structural, Debug)]
pub enum DeprecationStrategy {
    /// Emit deprecated items silently.
    Allow,
    /// Treat any use of a deprecated item as a generation error.
    Deny,
    /// Emit the item together with a non-fatal diagnostic.
    Warn,
}

impl Default for DeprecationStrategy {
    /// When no strategy is configured, uses are emitted with a warning.
    fn default() -> (r: Self)
        ensures
            r == DeprecationStrategy::Warn,
    {
        DeprecationStrategy::Warn
    }
}

/// Applies the configured strategy to one referenced field.  Returns
/// `Ok(true)` when a warning diagnostic must accompany the field,
/// `Ok(false)` when the field is emitted silently, and an error naming the
/// field exactly when the strategy denies a use of a deprecated field.
pub fn apply_deprecation_strategy(
    strategy: DeprecationStrategy,
    field_name: &str,
    status: &DeprecationStatus,
) -> (r: Result<bool, CodegenError>)
    ensures
        status@ is Current ==> r == Result::<bool, CodegenError>::Ok(false),
        (status@ is Deprecated && strategy is Allow) ==> r == Result::<bool, CodegenError>::Ok(
            false,
        ),
        (status@ is Deprecated && strategy is Warn) ==> r == Result::<bool, CodegenError>::Ok(
            true,
        ),
        (status@ is Deprecated && strategy is Deny) ==> (r matches Result::Err(e)
            && e@ == (CodegenErrorView::DeprecatedField {
            field: field_name@,
            reason: status@->Deprecated_0,
        })),
{
    match status {
        DeprecationStatus::Current => Result::Ok(false),
        DeprecationStatus::Deprecated(reason) => match strategy {
            DeprecationStrategy::Allow => Result::Ok(false),
            DeprecationStrategy::Warn => Result::Ok(true),
            DeprecationStrategy::Deny => Result::Err(CodegenError::DeprecatedField {
                field: field_name.to_owned(),
                reason: match reason {
                    Option::Some(s) => Option::Some(s.clone()),
                    Option::None => Option::None,
                },
            }),
        },
    }
}

} // verus!
