//! A GraphQL type reference: a named leaf type under any nesting of
//! optional and list wrappers.

use vstd::prelude::*;
use crate::ir::{TypeExpr, TypeExprView};
use crate::names::str_eq;

verus! {

/// A type reference as it appears in a schema or an operation: exactly one
/// innermost named leaf, wrapped in any composition of optional and list
/// containers.
#[derive(Debug, PartialEq, Eq)]
pub enum FieldType {
    Named(String),
    Optional(Box<FieldType>),
    Vector(Box<FieldType>),
}

/// The mathematical value of a [`FieldType`].
pub enum FieldTypeView {
    Named(Seq<char>),
    Optional(Box<FieldTypeView>),
    Vector(Box<FieldTypeView>),
}

/// The view of a type reference, one node at a time.
pub open spec fn field_type_view(t: &FieldType) -> FieldTypeView
    decreases t,
{
    match t {
        FieldType::Named(n) => FieldTypeView::Named(n@),
        FieldType::Optional(i) => FieldTypeView::Optional(Box::new(field_type_view(i))),
        FieldType::Vector(i) => FieldTypeView::Vector(Box::new(field_type_view(i))),
    }
}

impl View for FieldType {
    type V = FieldTypeView;

    open spec fn view(&self) -> FieldTypeView {
        field_type_view(self)
    }
}

/// The innermost named leaf of a type reference.
pub open spec fn inner_name(t: FieldTypeView) -> Seq<char>
    decreases t,
{
    match t {
        FieldTypeView::Named(n) => n,
        FieldTypeView::Optional(i) => inner_name(*i),
        FieldTypeView::Vector(i) => inner_name(*i),
    }
}

/// Whether a type reference already carries container indirection: a list
/// at the top, or an optional whose contents are indirected.  A bare named
/// type, or an optional around one, is not indirected.
pub open spec fn indirected(t: FieldTypeView) -> bool
    decreases t,
{
    match t {
        FieldTypeView::Named(_) => false,
        FieldTypeView::Optional(i) => indirected(*i),
        FieldTypeView::Vector(_) => true,
    }
}

/// The target type expression for a type reference: built-in scalars map to
/// the target's integer, floating-point, boolean and text types; any other
/// name passes through; optional and list wrappers map to the target's
/// optional and sequence containers.
pub open spec fn target_type_of(t: FieldTypeView) -> TypeExprView
    decreases t,
{
    match t {
        FieldTypeView::Named(n) => {
            if n == "Int"@ {
                TypeExprView::Int
            } else if n == "Float"@ {
                TypeExprView::Float
            } else if n == "Boolean"@ {
                TypeExprView::Boolean
            } else if n == "String"@ || n == "ID"@ {
                TypeExprView::Text
            } else {
                TypeExprView::Named(n)
            }
        },
        FieldTypeView::Optional(i) => TypeExprView::Optional(Box::new(target_type_of(*i))),
        FieldTypeView::Vector(i) => TypeExprView::Sequence(Box::new(target_type_of(*i))),
    }
}

impl FieldType {
    /// Unwraps every optional and list wrapper and returns the leaf name.
    pub fn inner_name_str(&self) -> (r: &str)
        ensures
            r@ == inner_name(self@),
        decreases self,
    {
        match self {
            FieldType::Named(n) => n.as_str(),
            FieldType::Optional(i) => i.inner_name_str(),
            FieldType::Vector(i) => i.inner_name_str(),
        }
    }

    /// Whether this reference already carries container indirection, so
    /// that a recursive occurrence behind it needs no extra heap box.
    pub fn is_indirected(&self) -> (r: bool)
        ensures
            r == indirected(self@),
        decreases self,
    {
        match self {
            FieldType::Named(_) => false,
            FieldType::Optional(i) => i.is_indirected(),
            FieldType::Vector(_) => true,
        }
    }

    /// Maps this reference to the target type expression it is emitted as.
    pub fn to_target_type(&self) -> (r: TypeExpr)
        ensures
            r@ == target_type_of(self@),
        decreases self,
    {
        match self {
            FieldType::Named(n) => {
                if str_eq(n.as_str(), "Int") {
                    TypeExpr::Int
                } else if str_eq(n.as_str(), "Float") {
                    TypeExpr::Float
                } else if str_eq(n.as_str(), "Boolean") {
                    TypeExpr::Boolean
                } else if str_eq(n.as_str(), "String") {
                    TypeExpr::Text
                } else if str_eq(n.as_str(), "ID") {
                    TypeExpr::Text
                } else {
                    TypeExpr::Named(n.clone())
                }
            },
            FieldType::Optional(i) => TypeExpr::Optional(Box::new(i.to_target_type())),
            FieldType::Vector(i) => TypeExpr::Sequence(Box::new(i.to_target_type())),
        }
    }

    /// Clones a type reference.
    pub fn clone_ref(&self) -> (r: FieldType)
        ensures
            r@ == self@,
        decreases self,
    {
        match self {
            FieldType::Named(n) => FieldType::Named(n.clone()),
            FieldType::Optional(i) => FieldType::Optional(Box::new(i.clone_ref())),
            FieldType::Vector(i) => FieldType::Vector(Box::new(i.clone_ref())),
        }
    }
}

/// A type as written in GraphQL syntax: a name, a list, or a non-null
/// wrapper.  GraphQL types are nullable unless wrapped in non-null.
#[derive(Debug, PartialEq, Eq)]
pub enum SdlType {
    Named(String),
    List(Box<SdlType>),
    NonNull(Box<SdlType>),
}

/// The mathematical value of an [`SdlType`].
pub enum SdlTypeView {
    Named(Seq<char>),
    List(Box<SdlTypeView>),
    NonNull(Box<SdlTypeView>),
}

/// The view of a syntactic type, one node at a time.
pub open spec fn sdl_type_view(t: &SdlType) -> SdlTypeView
    decreases t,
{
    match t {
        SdlType::Named(n) => SdlTypeView::Named(n@),
        SdlType::List(i) => SdlTypeView::List(Box::new(sdl_type_view(i))),
        SdlType::NonNull(i) => SdlTypeView::NonNull(Box::new(sdl_type_view(i))),
    }
}

impl View for SdlType {
    type V = SdlTypeView;

    open spec fn view(&self) -> SdlTypeView {
        sdl_type_view(self)
    }
}

/// The type reference denoted by a syntactic type under a non-null
/// wrapper: the nullability that GraphQL grants by default is stripped.
pub open spec fn strip_null(t: SdlTypeView) -> FieldTypeView
    decreases t,
{
    match t {
        SdlTypeView::Named(n) => FieldTypeView::Named(n),
        SdlTypeView::List(i) => FieldTypeView::Vector(Box::new(wrap_null(*i))),
        SdlTypeView::NonNull(i) => strip_null(*i),
    }
}

/// The type reference denoted by a syntactic type: every position is
/// optional unless wrapped in non-null.
pub open spec fn wrap_null(t: SdlTypeView) -> FieldTypeView
    decreases t,
{
    match t {
        SdlTypeView::Named(n) => FieldTypeView::Optional(Box::new(FieldTypeView::Named(n))),
        SdlTypeView::List(i) => FieldTypeView::Optional(
            Box::new(FieldTypeView::Vector(Box::new(wrap_null(*i)))),
        ),
        SdlTypeView::NonNull(i) => strip_null(*i),
    }
}

impl FieldType {
    /// Builds the type reference a syntactic type denotes, making every
    /// position optional unless wrapped in non-null.
    pub fn from_sdl(t: &SdlType) -> (r: FieldType)
        ensures
            r@ == wrap_null(t@),
        decreases t,
    {
        proof {
            reveal_with_fuel(field_type_view, 3);
        }
        match t {
            SdlType::Named(n) => FieldType::Optional(Box::new(FieldType::Named(n.clone()))),
            SdlType::List(i) => FieldType::Optional(
                Box::new(FieldType::Vector(Box::new(FieldType::from_sdl(i)))),
            ),
            SdlType::NonNull(i) => FieldType::from_sdl_non_null(i),
        }
    }

    /// Builds the type reference a non-null syntactic type denotes.
    fn from_sdl_non_null(t: &SdlType) -> (r: FieldType)
        ensures
            r@ == strip_null(t@),
        decreases t,
    {
        match t {
            SdlType::Named(n) => FieldType::Named(n.clone()),
            SdlType::List(i) => FieldType::Vector(Box::new(FieldType::from_sdl(i))),
            SdlType::NonNull(i) => FieldType::from_sdl_non_null(i),
        }
    }
}

} // verus!
