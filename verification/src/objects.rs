//! Object fields, shared by input objects and output objects.

use vstd::prelude::*;
use crate::deprecation::{DeprecationStatus, DeprecationStatusView};
use crate::field_type::{FieldType, FieldTypeView};
use crate::names::opt_view;

verus! {

/// One field of a schema type: its wire name, its type reference, its
/// deprecation status and an optional description.
#[derive(Debug, PartialEq, Eq)]
pub struct GqlObjectField {
    pub name: String,
    pub description: Option<String>,
    pub type_: FieldType,
    pub deprecation: DeprecationStatus,
}

/// The mathematical value of a [`GqlObjectField`].
pub struct GqlObjectFieldView {
    pub name: Seq<char>,
    pub description: Option<Seq<char>>,
    pub type_: FieldTypeView,
    pub deprecation: DeprecationStatusView,
}

impl View for GqlObjectField {
    type V = GqlObjectFieldView;

    open spec fn view(&self) -> GqlObjectFieldView {
        GqlObjectFieldView {
            name: self.name@,
            description: opt_view(self.description),
            type_: self.type_@,
            deprecation: self.deprecation@,
        }
    }
}

impl Clone for GqlObjectField {
    fn clone(&self) -> (r: Self)
        ensures
            r@ == self@,
    {
        GqlObjectField {
            name: self.name.clone(),
            description: match &self.description {
                Option::Some(s) => Option::Some(s.clone()),
                Option::None => Option::None,
            },
            type_: self.type_.clone_ref(),
            deprecation: self.deprecation.clone(),
        }
    }
}

} // verus!
