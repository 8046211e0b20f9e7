//! Operation variables: name, type reference, and optional literal default.

use vstd::prelude::*;
use crate::casing::snake_of;
use crate::field_type::{target_type_of, FieldType, FieldTypeView};
use crate::ir::{DefaultCtorIr, DefaultCtorIrView, DefaultValue, DefaultValueView};
use crate::shared::keyword_safe;

verus! {

/// One declared variable of an operation.
#[derive(Debug, PartialEq, Eq)]
pub struct Variable {
    pub name: String,
    pub ty: FieldType,
    pub default: Option<DefaultValue>,
}

/// The mathematical value of a [`Variable`].
pub struct VariableView {
    pub name: Seq<char>,
    pub ty: FieldTypeView,
    pub default: Option<DefaultValueView>,
}

impl View for Variable {
    type V = VariableView;

    open spec fn view(&self) -> VariableView {
        VariableView {
            name: self.name@,
            ty: self.ty@,
            default: match self.default {
                Option::Some(ref d) => Option::Some(d@),
                Option::None => Option::None,
            },
        }
    }
}

impl DefaultValue {
    /// Clones a literal default value.
    pub fn clone_value(&self) -> (r: DefaultValue)
        ensures
            r@ == self@,
    {
        match self {
            DefaultValue::Int(v) => DefaultValue::Int(*v),
            DefaultValue::FloatText(s) => DefaultValue::FloatText(s.clone()),
            DefaultValue::Boolean(v) => DefaultValue::Boolean(*v),
            DefaultValue::Text(s) => DefaultValue::Text(s.clone()),
            DefaultValue::EnumName(s) => DefaultValue::EnumName(s.clone()),
            DefaultValue::Null => DefaultValue::Null,
            DefaultValue::Raw(s) => DefaultValue::Raw(s.clone()),
        }
    }
}

/// The generated default-value constructor for a variable: one exists
/// exactly when the variable declares a literal default, and produces that
/// value under the variable's keyword-safe snake_case name and target type.
pub open spec fn default_ctor_of(v: VariableView) -> Option<DefaultCtorIrView> {
    match v.default {
        Option::Some(d) => Option::Some(DefaultCtorIrView {
            name: keyword_safe(snake_of(v.name)),
            ty: target_type_of(v.ty),
            value: d,
        }),
        Option::None => Option::None,
    }
}

impl Variable {
    /// Builds the default-value constructor for this variable, when it
    /// declares a literal default.
    pub fn generate_default_value_constructor(&self) -> (r: Option<DefaultCtorIr>)
        ensures
            (match r {
                Option::Some(c) => Option::Some(c@),
                Option::None => Option::<DefaultCtorIrView>::None,
            }) == default_ctor_of(self@),
    {
        match &self.default {
            Option::Some(d) => {
                let snake = crate::casing::to_snake_case(self.name.as_str());
                let safe = crate::shared::keyword_replace(snake.as_str());
                Option::Some(DefaultCtorIr {
                    name: safe,
                    ty: self.ty.to_target_type(),
                    value: d.clone_value(),
                })
            },
            Option::None => Option::None,
        }
    }
}

} // verus!
