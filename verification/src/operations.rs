//! Operations: one per parsed operation definition, with its kind, its
//! ordered variables, and its response selection shape.

use vstd::prelude::*;
use crate::casing::{snake_of, to_snake_case};
use crate::errors::{CodegenError, CodegenErrorView};
use crate::field_type::inner_name;
use crate::ir::{DefaultCtorIr, DefaultCtorIrView, FieldIr, FieldIrView};
use crate::names::{clone_names, seq_contains_str, str_eq};
use crate::schema::{has_input, reaches_any, Schema};
use crate::shared::{field_rename_annotation, keyword_replace, keyword_safe, rename_directive};
use crate::variables::{Variable, VariableView};

verus! {

/// The kind of an operation.
#[derive(Clone, Copy, PartialEq, Eq, Structural, Debug)]
pub enum OperationType {
    Query,
    Mutation,
    Subscription,
}

/// The response selection shape of one operation, resolved by the external
/// selection-resolution collaborator; this core only carries it.
#[derive(Debug, PartialEq, Eq)]
pub struct Selection {
    pub fields: Vec<String>,
}

/// One operation to compile: its schema-unique name, its kind, its ordered
/// variables, and its selection shape.
#[derive(Debug, PartialEq, Eq)]
pub struct Operation {
    pub name: String,
    pub operation_type: OperationType,
    pub variables: Vec<Variable>,
    pub selection: Selection,
}

/// The mathematical value of an [`Operation`].
pub struct OperationView {
    pub name: Seq<char>,
    pub operation_type: OperationType,
    pub variables: Seq<VariableView>,
    pub selection: Seq<Seq<char>>,
}

impl View for Operation {
    type V = OperationView;

    open spec fn view(&self) -> OperationView {
        OperationView {
            name: self.name@,
            operation_type: self.operation_type,
            variables: self.variables@.map_values(|v: Variable| v@),
            selection: self.selection.fields.deep_view(),
        }
    }
}

/// The emitted variables-type field for one variable: keyword-safe
/// snake_case name, wire-name directive, absent-skipping for optional
/// variables, and the target type.
pub open spec fn variable_field_of(v: VariableView) -> FieldIrView {
    FieldIrView {
        name: keyword_safe(snake_of(v.name)),
        rename: rename_directive(v.name, keyword_safe(snake_of(v.name))),
        skip_if_absent: v.ty is Optional,
        ty: crate::field_type::target_type_of(v.ty),
    }
}

/// The default-value constructors for a variable list, in order, one per
/// variable that declares a literal default.
pub open spec fn default_ctors_of(vars: Seq<VariableView>) -> Seq<DefaultCtorIrView>
    decreases vars.len(),
{
    if vars.len() == 0 {
        Seq::<DefaultCtorIrView>::empty()
    } else {
        let rest = default_ctors_of(vars.drop_last());
        match crate::variables::default_ctor_of(vars.last()) {
            Option::Some(c) => rest.push(c),
            Option::None => rest,
        }
    }
}

/// The parameter contributed by one required variable to the variables
/// type's minimal constructor.
pub open spec fn variable_param_of(v: VariableView) -> crate::ir::ParamIrView {
    crate::ir::ParamIrView {
        name: keyword_safe(snake_of(v.name)),
        ty: crate::field_type::target_type_of(v.ty),
    }
}

/// The minimal constructor of the variables type takes exactly the
/// non-optional variables, in declaration order; optional variables
/// default to the absent value.
pub open spec fn variable_ctor_params_of(vars: Seq<VariableView>) -> Seq<crate::ir::ParamIrView>
    decreases vars.len(),
{
    if vars.len() == 0 {
        Seq::<crate::ir::ParamIrView>::empty()
    } else {
        let rest = variable_ctor_params_of(vars.drop_last());
        if vars.last().ty is Optional {
            rest
        } else {
            rest.push(variable_param_of(vars.last()))
        }
    }
}

/// The root operation type name for a kind: the configured name, or the
/// conventional default when the schema names none.
pub open spec fn root_name_of(t: OperationType, s: crate::schema::SchemaView) -> Seq<char> {
    match t {
        OperationType::Query => match s.query_type {
            Option::Some(n) => n,
            Option::None => "Query"@,
        },
        OperationType::Mutation => match s.mutation_type {
            Option::Some(n) => n,
            Option::None => "Mutation"@,
        },
        OperationType::Subscription => match s.subscription_type {
            Option::Some(n) => n,
            Option::None => "Subscription"@,
        },
    }
}

/// Whether `n` is marked required after the types of all the given
/// variables have been required against marks `req`.
pub open spec fn marks_after_variables(
    inputs: Seq<crate::inputs::GqlInputView>,
    req: Seq<Seq<char>>,
    vars: Seq<VariableView>,
    n: Seq<char>,
) -> bool {
    ||| seq_contains_str(req, n)
    ||| exists |k: int|
        0 <= k < vars.len() && has_input(inputs, inner_name(#[trigger] vars[k].ty))
        && (n == inner_name(vars[k].ty) || reaches_any(inputs, inner_name(vars[k].ty), n, false))
}

impl Operation {
    /// The name of the schema type at which this operation's selection is
    /// anchored.
    pub fn root_name<'a>(&self, schema: &'a Schema) -> (r: &'a str)
        ensures
            r@ == root_name_of(self@.operation_type, schema@),
    {
        match self.operation_type {
            OperationType::Query => match &schema.query_type {
                Option::Some(s) => s.as_str(),
                Option::None => "Query",
            },
            OperationType::Mutation => match &schema.mutation_type {
                Option::Some(s) => s.as_str(),
                Option::None => "Mutation",
            },
            OperationType::Subscription => match &schema.subscription_type {
                Option::Some(s) => s.as_str(),
                Option::None => "Subscription",
            },
        }
    }

    /// Whether this operation is a subscription.
    pub fn is_subscription(&self) -> (r: bool)
        ensures
            r == (self@.operation_type is Subscription),
    {
        match self.operation_type {
            OperationType::Subscription => true,
            _ => false,
        }
    }

    /// The fields of the generated variables type, one per declared
    /// variable, in declaration order.
    pub fn variable_fields(&self) -> (r: Vec<FieldIr>)
        ensures
            r@.map_values(|f: FieldIr| f@) == self@.variables.map_values(
                |v: VariableView| variable_field_of(v),
            ),
    {
        let mut r: Vec<FieldIr> = Vec::new();
        let mut i: usize = 0;
        while i < self.variables.len()
            invariant
                i <= self.variables@.len(),
                r@.map_values(|f: FieldIr| f@) == self@.variables.subrange(0, i as int)
                    .map_values(|v: VariableView| variable_field_of(v)),
            decreases self.variables@.len() - i,
        {
            let ghost before = r@.map_values(|f: FieldIr| f@);
            let v = &self.variables[i];
            let snake = to_snake_case(v.name.as_str());
            let safe = keyword_replace(snake.as_str());
            let rename = field_rename_annotation(v.name.as_str(), safe.as_str());
            let skip: bool = match &v.ty {
                crate::field_type::FieldType::Optional(_) => true,
                _ => false,
            };
            let f = FieldIr { name: safe, rename, skip_if_absent: skip, ty: v.ty.to_target_type() };
            proof {
                assert(v@ == self@.variables[i as int]);
                assert(f@ == variable_field_of(self@.variables[i as int]));
            }
            r.push(f);
            proof {
                assert(r@.map_values(|f: FieldIr| f@) =~= before.push(
                    variable_field_of(self@.variables[i as int]),
                ));
                assert(self@.variables.subrange(0, i + 1).map_values(
                    |v: VariableView| variable_field_of(v),
                ) =~= self@.variables.subrange(0, i as int).map_values(
                    |v: VariableView| variable_field_of(v),
                ).push(variable_field_of(self@.variables[i as int])));
            }
            i = i + 1;
        }
        proof {
            assert(self@.variables.subrange(0, self.variables@.len() as int) =~= self@.variables);
        }
        r
    }

    /// The parameters of the variables type's minimal constructor: one per
    /// non-optional variable, in declaration order.
    pub fn variable_ctor_params(&self) -> (r: Vec<crate::ir::ParamIr>)
        ensures
            r@.map_values(|p: crate::ir::ParamIr| p@) == variable_ctor_params_of(
                self@.variables,
            ),
    {
        let mut r: Vec<crate::ir::ParamIr> = Vec::new();
        let mut i: usize = 0;
        while i < self.variables.len()
            invariant
                i <= self.variables@.len(),
                r@.map_values(|p: crate::ir::ParamIr| p@) == variable_ctor_params_of(
                    self@.variables.subrange(0, i as int),
                ),
            decreases self.variables@.len() - i,
        {
            let ghost before = r@.map_values(|p: crate::ir::ParamIr| p@);
            let v = &self.variables[i];
            proof {
                assert(v@ == self@.variables[i as int]);
                assert(self@.variables.subrange(0, i + 1).drop_last() =~= self@.variables
                    .subrange(0, i as int));
                assert(self@.variables.subrange(0, i + 1).last() == self@.variables[i as int]);
            }
            match &v.ty {
                crate::field_type::FieldType::Optional(_) => {},
                _ => {
                    let snake = to_snake_case(v.name.as_str());
                    let safe = keyword_replace(snake.as_str());
                    r.push(crate::ir::ParamIr { name: safe, ty: v.ty.to_target_type() });
                    proof {
                        assert(r@.map_values(|p: crate::ir::ParamIr| p@) =~= before.push(
                            variable_param_of(self@.variables[i as int]),
                        ));
                    }
                },
            }
            i = i + 1;
        }
        proof {
            assert(self@.variables.subrange(0, self.variables@.len() as int) =~= self@.variables);
        }
        r
    }

    /// Marks the innermost type of every declared variable as required, so
    /// that all input types transitively used by variables are emitted even
    /// when never named inside the selection body.
    pub fn compute_variable_requirements(&self, schema: &mut Schema)
        requires
            old(schema).wf(),
        ensures
            final(schema).wf(),
            final(schema)@.inputs == old(schema)@.inputs,
            final(schema)@.query_type == old(schema)@.query_type,
            final(schema)@.mutation_type == old(schema)@.mutation_type,
            final(schema)@.subscription_type == old(schema)@.subscription_type,
            forall |n: Seq<char>| seq_contains_str(final(schema)@.required, n)
                <==> marks_after_variables(
                old(schema)@.inputs,
                old(schema)@.required,
                self@.variables,
                n,
            ),
    {
        let ghost iv = schema@.inputs;
        let ghost req0 = schema@.required;
        let ghost qt0 = schema@.query_type;
        let ghost mt0 = schema@.mutation_type;
        let ghost st0 = schema@.subscription_type;
        let mut i: usize = 0;
        while i < self.variables.len()
            invariant
                schema.wf(),
                iv == schema@.inputs,
                schema@.query_type == qt0,
                schema@.mutation_type == mt0,
                schema@.subscription_type == st0,
                i <= self.variables@.len(),
                forall |n: Seq<char>| seq_contains_str(schema@.required, n)
                    <==> marks_after_variables(iv, req0, self@.variables.subrange(0, i as int), n),
            decreases self.variables@.len() - i,
        {
            let ghost req_before = schema@.required;
            proof {
                assert(self.variables@[i as int]@ == self@.variables[i as int]);
            }
            schema.require(self.variables[i].ty.inner_name_str());
            proof {
                let vs = self@.variables;
                let pre = vs.subrange(0, i as int);
                let pre1 = vs.subrange(0, i + 1);
                let m = inner_name(vs[i as int].ty);
                assert forall |n: Seq<char>| seq_contains_str(schema@.required, n)
                    <==> marks_after_variables(iv, req0, pre1, n) by {
                    if seq_contains_str(schema@.required, n) {
                        if seq_contains_str(req_before, n) {
                            if !seq_contains_str(req0, n) {
                                let k = choose |k: int|
                                    0 <= k < pre.len() && has_input(iv, inner_name(pre[k].ty))
                                    && (n == inner_name(pre[k].ty) || reaches_any(
                                        iv,
                                        inner_name(pre[k].ty),
                                        n,
                                        false,
                                    ));
                                assert(pre1[k] == pre[k]);
                                assert(marks_after_variables(iv, req0, pre1, n));
                            }
                        } else {
                            assert(pre1[i as int] == vs[i as int]);
                            assert(marks_after_variables(iv, req0, pre1, n));
                        }
                    }
                    if marks_after_variables(iv, req0, pre1, n) {
                        if seq_contains_str(req0, n) {
                            assert(seq_contains_str(req_before, n));
                            assert(seq_contains_str(schema@.required, n));
                        } else {
                            let k = choose |k: int|
                                0 <= k < pre1.len() && has_input(iv, inner_name(pre1[k].ty))
                                && (n == inner_name(pre1[k].ty) || reaches_any(
                                    iv,
                                    inner_name(pre1[k].ty),
                                    n,
                                    false,
                                ));
                            if k < i {
                                assert(pre[k] == pre1[k]);
                                assert(marks_after_variables(iv, req0, pre, n));
                                assert(seq_contains_str(req_before, n));
                                assert(seq_contains_str(schema@.required, n));
                            } else {
                                assert(pre1[k] == vs[i as int]);
                                assert(seq_contains_str(schema@.required, n));
                            }
                        }
                    }
                }
            }
            i = i + 1;
        }
        proof {
            assert(self@.variables.subrange(0, self.variables@.len() as int) =~= self@.variables);
        }
    }

    /// Expands this operation's variables: the derive list for the
    /// variables type, its fields (none at all when no variable is
    /// declared, so that input-free operations need no pseudo-structure),
    /// and one default-value constructor per defaulted variable.
    pub fn expand_variables(&self, derives: &Vec<String>) -> (r: (
        Vec<String>,
        Vec<FieldIr>,
        Vec<DefaultCtorIr>,
    ))
        ensures
            r.0.deep_view() == derives.deep_view(),
            self@.variables.len() == 0 ==> r.1@.len() == 0 && r.2@.len() == 0,
            self@.variables.len() > 0 ==> {
                &&& r.1@.map_values(|f: FieldIr| f@) == self@.variables.map_values(
                    |v: VariableView| variable_field_of(v),
                )
                &&& r.2@.map_values(|c: DefaultCtorIr| c@) == default_ctors_of(self@.variables)
            },
    {
        let variables_derives = clone_names(derives);
        if self.variables.len() == 0 {
            return (variables_derives, Vec::new(), Vec::new());
        }
        let fields = self.variable_fields();
        let mut ctors: Vec<DefaultCtorIr> = Vec::new();
        let mut i: usize = 0;
        while i < self.variables.len()
            invariant
                i <= self.variables@.len(),
                ctors@.map_values(|c: DefaultCtorIr| c@) == default_ctors_of(
                    self@.variables.subrange(0, i as int),
                ),
            decreases self.variables@.len() - i,
        {
            let ghost before = ctors@.map_values(|c: DefaultCtorIr| c@);
            proof {
                assert(self.variables@[i as int]@ == self@.variables[i as int]);
                assert(self@.variables.subrange(0, i + 1).drop_last() =~= self@.variables
                    .subrange(0, i as int));
                assert(self@.variables.subrange(0, i + 1).last() == self@.variables[i as int]);
            }
            match self.variables[i].generate_default_value_constructor() {
                Option::Some(c) => {
                    ctors.push(c);
                    proof {
                        assert(ctors@.map_values(|c: DefaultCtorIr| c@) =~= before.push(
                            crate::variables::default_ctor_of(self@.variables[i as int])->Some_0,
                        ));
                    }
                },
                Option::None => {},
            }
            i = i + 1;
        }
        proof {
            assert(self@.variables.subrange(0, self.variables@.len() as int) =~= self@.variables);
        }
        (variables_derives, fields, ctors)
    }
}

/// The body of one parsed operation definition, as handed over by the
/// external parser: an optional name, the declared variables, and the
/// selection shape.
#[derive(Debug, PartialEq, Eq)]
pub struct OpDefBody {
    pub name: Option<String>,
    pub variable_definitions: Vec<Variable>,
    pub selection: Selection,
}

/// One parsed definition at a document's root.
#[derive(Debug, PartialEq, Eq)]
pub enum OperationDef {
    Query(OpDefBody),
    Mutation(OpDefBody),
    Subscription(OpDefBody),
    SelectionSet(Selection),
}

/// The kind an accepted definition carries.
pub open spec fn def_kind(d: &OperationDef) -> OperationType {
    match d {
        OperationDef::Query(_) => OperationType::Query,
        OperationDef::Mutation(_) => OperationType::Mutation,
        OperationDef::Subscription(_) => OperationType::Subscription,
        OperationDef::SelectionSet(_) => OperationType::Query,
    }
}

/// The body of an accepted definition.
pub open spec fn def_body(d: &OperationDef) -> &OpDefBody
    recommends
        !(d is SelectionSet),
{
    match d {
        OperationDef::Query(b) => b,
        OperationDef::Mutation(b) => b,
        OperationDef::Subscription(b) => b,
        OperationDef::SelectionSet(_) => arbitrary(),
    }
}

impl Operation {
    /// Builds one operation from a parsed definition.  A bare selection
    /// set at the document root, or a definition without a name, is a
    /// fatal ingestion error.
    pub fn from_definition(definition: OperationDef) -> (r: Result<Operation, CodegenError>)
        ensures
            match definition {
                OperationDef::SelectionSet(_) => r matches Result::Err(e) && e@
                    == CodegenErrorView::SelectionSetAtRoot,
                _ => match def_body(&definition).name {
                    Option::None => r matches Result::Err(e) && e@
                        == CodegenErrorView::UnnamedOperation,
                    Option::Some(nm) => r matches Result::Ok(op) && op@.name == nm@
                        && op@.operation_type == def_kind(&definition) && op.variables@
                        == def_body(&definition).variable_definitions@ && op.selection.fields@
                        == def_body(&definition).selection.fields@,
                },
            },
    {
        match definition {
            OperationDef::SelectionSet(_) => Result::Err(CodegenError::SelectionSetAtRoot),
            OperationDef::Query(b) => Self::from_body(b, OperationType::Query),
            OperationDef::Mutation(b) => Self::from_body(b, OperationType::Mutation),
            OperationDef::Subscription(b) => Self::from_body(b, OperationType::Subscription),
        }
    }

    /// Builds one operation from a definition body of the given kind.
    fn from_body(body: OpDefBody, kind: OperationType) -> (r: Result<Operation, CodegenError>)
        ensures
            match body.name {
                Option::None => r matches Result::Err(e) && e@
                    == CodegenErrorView::UnnamedOperation,
                Option::Some(nm) => r matches Result::Ok(op) && op@.name == nm@
                    && op@.operation_type == kind && op.variables@ == body.variable_definitions@
                    && op.selection.fields@ == body.selection.fields@,
            },
    {
        match body.name {
            Option::None => Result::Err(CodegenError::UnnamedOperation),
            Option::Some(nm) => Result::Ok(Operation {
                name: nm,
                operation_type: kind,
                variables: body.variable_definitions,
                selection: body.selection,
            }),
        }
    }
}

/// Picks the operation the configured name filter asks for: the first
/// operation carrying that name, or an error naming the filter when no
/// operation matches.
pub fn select_operation(operations: &Vec<Operation>, name: &str) -> (r: Result<
    usize,
    CodegenError,
>)
    ensures
        match r {
            Result::Ok(i) => i < operations@.len() && operations@[i as int]@.name == name@
                && (forall |k: int| 0 <= k < i ==> operations@[k]@.name != name@),
            Result::Err(e) => e@ == (CodegenErrorView::OperationNotFound { operation: name@ })
                && (forall |k: int| 0 <= k < operations@.len() ==> operations@[k]@.name != name@),
        },
{
    let mut i: usize = 0;
    while i < operations.len()
        invariant
            i <= operations@.len(),
            forall |k: int| 0 <= k < i ==> operations@[k]@.name != name@,
        decreases operations@.len() - i,
    {
        if str_eq(operations[i].name.as_str(), name) {
            return Result::Ok(i);
        }
        i = i + 1;
    }
    Result::Err(CodegenError::OperationNotFound { operation: name.to_owned() })
}

} // verus!
