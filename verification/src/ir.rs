//! The language-neutral intermediate structure that one generation run
//! emits: type expressions, field lists with rename directives, constructor
//! definitions, and per-operation modules.  A separate lowering step turns
//! these values into a concrete target language's syntax.

use vstd::prelude::*;
use crate::names::opt_view;

verus! {

/// A target-language type expression.  GraphQL built-in scalars are mapped
/// to the target's integer, floating-point, boolean and text types; custom
/// scalars, enums and input objects keep their (keyword-safe) names.
#[derive(Debug, PartialEq, Eq)]
pub enum TypeExpr {
    Int,
    Float,
    Boolean,
    Text,
    Named(String),
    /// An optional wrapper: the value may be absent.
    Optional(Box<TypeExpr>),
    /// A sequence wrapper for GraphQL lists.
    Sequence(Box<TypeExpr>),
    /// An explicit heap indirection, inserted to break recursive input
    /// object cycles.
    Boxed(Box<TypeExpr>),
}

/// The mathematical value of a [`TypeExpr`].
pub enum TypeExprView {
    Int,
    Float,
    Boolean,
    Text,
    Named(Seq<char>),
    Optional(Box<TypeExprView>),
    Sequence(Box<TypeExprView>),
    Boxed(Box<TypeExprView>),
}

/// The view of a type expression, one node at a time.
pub open spec fn type_expr_view(t: &TypeExpr) -> TypeExprView
    decreases t,
{
    match t {
        TypeExpr::Int => TypeExprView::Int,
        TypeExpr::Float => TypeExprView::Float,
        TypeExpr::Boolean => TypeExprView::Boolean,
        TypeExpr::Text => TypeExprView::Text,
        TypeExpr::Named(n) => TypeExprView::Named(n@),
        TypeExpr::Optional(i) => TypeExprView::Optional(Box::new(type_expr_view(i))),
        TypeExpr::Sequence(i) => TypeExprView::Sequence(Box::new(type_expr_view(i))),
        TypeExpr::Boxed(i) => TypeExprView::Boxed(Box::new(type_expr_view(i))),
    }
}

impl View for TypeExpr {
    type V = TypeExprView;

    open spec fn view(&self) -> TypeExprView {
        type_expr_view(self)
    }
}

impl TypeExpr {
    /// Clones a type expression.
    pub fn clone_expr(&self) -> (r: TypeExpr)
        ensures
            r@ == self@,
        decreases self,
    {
        match self {
            TypeExpr::Int => TypeExpr::Int,
            TypeExpr::Float => TypeExpr::Float,
            TypeExpr::Boolean => TypeExpr::Boolean,
            TypeExpr::Text => TypeExpr::Text,
            TypeExpr::Named(n) => TypeExpr::Named(n.clone()),
            TypeExpr::Optional(i) => TypeExpr::Optional(Box::new(i.clone_expr())),
            TypeExpr::Sequence(i) => TypeExpr::Sequence(Box::new(i.clone_expr())),
            TypeExpr::Boxed(i) => TypeExpr::Boxed(Box::new(i.clone_expr())),
        }
    }
}

/// One emitted record field: its keyword-safe target name, the directive
/// that preserves the original wire name when the two differ, whether the
/// field may be skipped during serialization when absent, and its type.
#[derive(Debug, PartialEq, Eq)]
pub struct FieldIr {
    pub name: String,
    pub rename: Option<String>,
    pub skip_if_absent: bool,
    pub ty: TypeExpr,
}

/// The mathematical value of a [`FieldIr`].
pub struct FieldIrView {
    pub name: Seq<char>,
    pub rename: Option<Seq<char>>,
    pub skip_if_absent: bool,
    pub ty: TypeExprView,
}

impl View for FieldIr {
    type V = FieldIrView;

    open spec fn view(&self) -> FieldIrView {
        FieldIrView {
            name: self.name@,
            rename: opt_view(self.rename),
            skip_if_absent: self.skip_if_absent,
            ty: self.ty@,
        }
    }
}

/// The wire-format key under which a field is serialized: the recorded
/// original name when a rename directive is present, the field's own name
/// otherwise.
pub open spec fn wire_name(f: FieldIrView) -> Seq<char> {
    match f.rename {
        Option::Some(orig) => orig,
        Option::None => f.name,
    }
}

impl FieldIr {
    /// Clones an emitted field.
    pub fn clone_field(&self) -> (r: FieldIr)
        ensures
            r@ == self@,
    {
        FieldIr {
            name: self.name.clone(),
            rename: match &self.rename {
                Option::Some(s) => Option::Some(s.clone()),
                Option::None => Option::None,
            },
            skip_if_absent: self.skip_if_absent,
            ty: self.ty.clone_expr(),
        }
    }
}

/// One parameter of a generated constructor.
#[derive(Debug, PartialEq, Eq)]
pub struct ParamIr {
    pub name: String,
    pub ty: TypeExpr,
}

/// The mathematical value of a [`ParamIr`].
pub struct ParamIrView {
    pub name: Seq<char>,
    pub ty: TypeExprView,
}

impl View for ParamIr {
    type V = ParamIrView;

    open spec fn view(&self) -> ParamIrView {
        ParamIrView { name: self.name@, ty: self.ty@ }
    }
}

/// How a generated constructor initializes one field: from the parameter of
/// the same name, or with the absent/default value.
#[derive(Debug, PartialEq, Eq)]
pub enum FieldInit {
    FromParam(String),
    Absent,
}

/// The mathematical value of a [`FieldInit`].
pub enum FieldInitView {
    FromParam(Seq<char>),
    Absent,
}

impl View for FieldInit {
    type V = FieldInitView;

    open spec fn view(&self) -> FieldInitView {
        match self {
            FieldInit::FromParam(n) => FieldInitView::FromParam(n@),
            FieldInit::Absent => FieldInitView::Absent,
        }
    }
}

/// A generated record type definition.
#[derive(Debug, PartialEq, Eq)]
pub struct StructDefIr {
    pub name: String,
    pub derives: Vec<String>,
    pub fields: Vec<FieldIr>,
}

/// The mathematical value of a [`StructDefIr`].
pub struct StructDefIrView {
    pub name: Seq<char>,
    pub derives: Seq<Seq<char>>,
    pub fields: Seq<FieldIrView>,
}

impl View for StructDefIr {
    type V = StructDefIrView;

    open spec fn view(&self) -> StructDefIrView {
        StructDefIrView {
            name: self.name@,
            derives: self.derives.deep_view(),
            fields: self.fields@.map_values(|f: FieldIr| f@),
        }
    }
}

impl StructDefIr {
    /// Clones a record type definition.
    pub fn clone_def(&self) -> (r: StructDefIr)
        ensures
            r@ == self@,
    {
        let mut fields: Vec<FieldIr> = Vec::new();
        let mut i: usize = 0;
        while i < self.fields.len()
            invariant
                i <= self.fields@.len(),
                fields@.map_values(|f: FieldIr| f@) == self.fields@.map_values(
                    |f: FieldIr| f@,
                ).subrange(0, i as int),
            decreases self.fields@.len() - i,
        {
            let ghost before = fields@.map_values(|f: FieldIr| f@);
            fields.push(self.fields[i].clone_field());
            proof {
                assert(fields@.map_values(|f: FieldIr| f@) =~= before.push(
                    self.fields@[i as int]@,
                ));
                assert(fields@.map_values(|f: FieldIr| f@) =~= self.fields@.map_values(
                    |f: FieldIr| f@,
                ).subrange(0, i + 1));
            }
            i = i + 1;
        }
        proof {
            assert(self.fields@.map_values(|f: FieldIr| f@).subrange(
                0,
                self.fields@.len() as int,
            ) =~= self.fields@.map_values(|f: FieldIr| f@));
        }
        StructDefIr {
            name: self.name.clone(),
            derives: crate::names::clone_names(&self.derives),
            fields,
        }
    }
}

/// The emission unit for one input object: its record type, and the minimal
/// constructor taking exactly the required fields, with one initializer per
/// emitted field.
#[derive(Debug, PartialEq, Eq)]
pub struct InputIr {
    pub def: StructDefIr,
    pub ctor_params: Vec<ParamIr>,
    pub ctor_inits: Vec<FieldInit>,
}

/// The mathematical value of an [`InputIr`].
pub struct InputIrView {
    pub def: StructDefIrView,
    pub ctor_params: Seq<ParamIrView>,
    pub ctor_inits: Seq<FieldInitView>,
}

impl View for InputIr {
    type V = InputIrView;

    open spec fn view(&self) -> InputIrView {
        InputIrView {
            def: self.def@,
            ctor_params: self.ctor_params@.map_values(|p: ParamIr| p@),
            ctor_inits: self.ctor_inits@.map_values(|i: FieldInit| i@),
        }
    }
}

/// A literal default value attached to an operation variable, carried as
/// parsed.  Composite literals keep their source text.
#[derive(Debug, PartialEq, Eq)]
pub enum DefaultValue {
    Int(i64),
    FloatText(String),
    Boolean(bool),
    Text(String),
    EnumName(String),
    Null,
    Raw(String),
}

/// The mathematical value of a [`DefaultValue`].
pub enum DefaultValueView {
    Int(i64),
    FloatText(Seq<char>),
    Boolean(bool),
    Text(Seq<char>),
    EnumName(Seq<char>),
    Null,
    Raw(Seq<char>),
}

impl View for DefaultValue {
    type V = DefaultValueView;

    open spec fn view(&self) -> DefaultValueView {
        match self {
            DefaultValue::Int(v) => DefaultValueView::Int(*v),
            DefaultValue::FloatText(s) => DefaultValueView::FloatText(s@),
            DefaultValue::Boolean(v) => DefaultValueView::Boolean(*v),
            DefaultValue::Text(s) => DefaultValueView::Text(s@),
            DefaultValue::EnumName(s) => DefaultValueView::EnumName(s@),
            DefaultValue::Null => DefaultValueView::Null,
            DefaultValue::Raw(s) => DefaultValueView::Raw(s@),
        }
    }
}

/// A generated function producing one variable's value from its declared
/// literal default.
#[derive(Debug, PartialEq, Eq)]
pub struct DefaultCtorIr {
    pub name: String,
    pub ty: TypeExpr,
    pub value: DefaultValue,
}

/// The mathematical value of a [`DefaultCtorIr`].
pub struct DefaultCtorIrView {
    pub name: Seq<char>,
    pub ty: TypeExprView,
    pub value: DefaultValueView,
}

impl View for DefaultCtorIr {
    type V = DefaultCtorIrView;

    open spec fn view(&self) -> DefaultCtorIrView {
        DefaultCtorIrView { name: self.name@, ty: self.ty@, value: self.value@ }
    }
}

/// Visibility of the emitted module.
#[derive(Clone, Copy, PartialEq, Eq, Structural, Debug)]
pub enum Visibility {
    Public,
    PublicCrate,
    Inherited,
}

/// The response type tree for one operation, supplied by the external
/// selection-resolution collaborator and embedded unchanged in the emitted
/// module.
#[derive(Debug, PartialEq, Eq)]
pub struct ResponseIr {
    pub defs: Vec<StructDefIr>,
}

/// The mathematical value of a [`ResponseIr`].
pub struct ResponseIrView {
    pub defs: Seq<StructDefIrView>,
}

impl View for ResponseIr {
    type V = ResponseIrView;

    open spec fn view(&self) -> ResponseIrView {
        ResponseIrView { defs: self.defs@.map_values(|d: StructDefIr| d@) }
    }
}

impl ResponseIr {
    /// Clones a response type tree.
    pub fn clone_response(&self) -> (r: ResponseIr)
        ensures
            r@ == self@,
    {
        let mut defs: Vec<StructDefIr> = Vec::new();
        let mut i: usize = 0;
        while i < self.defs.len()
            invariant
                i <= self.defs@.len(),
                defs@.map_values(|d: StructDefIr| d@) == self.defs@.map_values(
                    |d: StructDefIr| d@,
                ).subrange(0, i as int),
            decreases self.defs@.len() - i,
        {
            let ghost before = defs@.map_values(|d: StructDefIr| d@);
            defs.push(self.defs[i].clone_def());
            proof {
                assert(defs@.map_values(|d: StructDefIr| d@) =~= before.push(
                    self.defs@[i as int]@,
                ));
                assert(defs@.map_values(|d: StructDefIr| d@) =~= self.defs@.map_values(
                    |d: StructDefIr| d@,
                ).subrange(0, i + 1));
            }
            i = i + 1;
        }
        proof {
            assert(self.defs@.map_values(|d: StructDefIr| d@).subrange(
                0,
                self.defs@.len() as int,
            ) =~= self.defs@.map_values(|d: StructDefIr| d@));
        }
        ResponseIr { defs }
    }
}

/// The mode-specific integration surface of an emitted module.
#[derive(Debug, PartialEq, Eq)]
pub enum IntegrationIr {
    /// The generator runs as an independent build step: the variables type
    /// is emitted as a free-standing type carrying the capability to turn a
    /// variables value into a request body.
    Standalone { struct_name: String, derives: Vec<String>, fields: Vec<FieldIr> },
    /// The generator is attached to an externally supplied host type: the
    /// request-building capability is bound to that type, with a unit
    /// variables type when the operation declares no variables.
    Embedded { host_name: String, unit_variables: bool },
}

/// The mathematical value of an [`IntegrationIr`].
pub enum IntegrationIrView {
    Standalone { struct_name: Seq<char>, derives: Seq<Seq<char>>, fields: Seq<FieldIrView> },
    Embedded { host_name: Seq<char>, unit_variables: bool },
}

impl View for IntegrationIr {
    type V = IntegrationIrView;

    open spec fn view(&self) -> IntegrationIrView {
        match self {
            IntegrationIr::Standalone { struct_name, derives, fields } =>
                IntegrationIrView::Standalone {
                    struct_name: struct_name@,
                    derives: derives.deep_view(),
                    fields: fields@.map_values(|f: FieldIr| f@),
                },
            IntegrationIr::Embedded { host_name, unit_variables } => IntegrationIrView::Embedded {
                host_name: host_name@,
                unit_variables: *unit_variables,
            },
        }
    }
}

/// One self-contained emission unit for one operation.
#[derive(Debug, PartialEq, Eq)]
pub struct ModuleIr {
    /// The module's own name: the operation name in snake_case.
    pub name: String,
    pub visibility: Visibility,
    /// The raw operation name, kept verbatim for the transport layer.
    pub operation_name: String,
    /// The exact original query text, byte for byte.
    pub query_string: String,
    /// A query-file path bound into the module so that builds are refreshed
    /// when that file changes.
    pub refresh_file: Option<String>,
    pub response: ResponseIr,
    pub variables_derives: Vec<String>,
    pub variable_fields: Vec<FieldIr>,
    pub default_ctors: Vec<DefaultCtorIr>,
    pub integration: IntegrationIr,
}

/// The mathematical value of a [`ModuleIr`].
pub struct ModuleIrView {
    pub name: Seq<char>,
    pub visibility: Visibility,
    pub operation_name: Seq<char>,
    pub query_string: Seq<char>,
    pub refresh_file: Option<Seq<char>>,
    pub response: ResponseIrView,
    pub variables_derives: Seq<Seq<char>>,
    pub variable_fields: Seq<FieldIrView>,
    pub default_ctors: Seq<DefaultCtorIrView>,
    pub integration: IntegrationIrView,
}

impl View for ModuleIr {
    type V = ModuleIrView;

    open spec fn view(&self) -> ModuleIrView {
        ModuleIrView {
            name: self.name@,
            visibility: self.visibility,
            operation_name: self.operation_name@,
            query_string: self.query_string@,
            refresh_file: opt_view(self.refresh_file),
            response: self.response@,
            variables_derives: self.variables_derives.deep_view(),
            variable_fields: self.variable_fields@.map_values(|f: FieldIr| f@),
            default_ctors: self.default_ctors@.map_values(|c: DefaultCtorIr| c@),
            integration: self.integration@,
        }
    }
}

} // verus!
