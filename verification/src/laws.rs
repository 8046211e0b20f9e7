//! The laws the library guarantees, stated and proved over the same spec
//! functions its contracts use.

use vstd::prelude::*;
use crate::codegen_options::{CodegenMode, OptionsView};
use crate::field_type::{indirected, inner_name, target_type_of};
use crate::generated_module::{module_ir_of, module_variable_fields};
use crate::inputs::{
    ctor_init_of, ctor_param_of, ctor_params_of, field_ir_of, field_ty_ir, input_ir_of, needs_box,
    GqlInputView,
};
use crate::ir::{wire_name, FieldInitView, ParamIrView, ResponseIrView, TypeExprView};
use crate::names::seq_contains_str;
use crate::objects::GqlObjectFieldView;
use crate::operations::{variable_field_of, OperationView};
use crate::schema::{
    edge, has_input, input_fields, reaches, schema_wf, unique_names, SchemaView,
};
use crate::shared::{is_reserved, keyword_safe};

verus! {

/// Law: generation is deterministic.  Two runs over equal operations,
/// query texts, response trees and configurations emit equal modules, and
/// two runs over equal schemas, input objects and derive lists emit equal
/// input-object units.
pub proof fn lemma_determinism(
    op1: OperationView,
    op2: OperationView,
    q1: Seq<char>,
    q2: Seq<char>,
    r1: ResponseIrView,
    r2: ResponseIrView,
    o1: OptionsView,
    o2: OptionsView,
    inputs1: Seq<GqlInputView>,
    inputs2: Seq<GqlInputView>,
    in1: GqlInputView,
    in2: GqlInputView,
    d1: Seq<Seq<char>>,
    d2: Seq<Seq<char>>,
)
    requires
        op1 == op2,
        q1 == q2,
        r1 == r2,
        o1 == o2,
        inputs1 == inputs2,
        in1 == in2,
        d1 == d2,
    ensures
        module_ir_of(op1, q1, r1, o1) == module_ir_of(op2, q2, r2, o2),
        input_ir_of(inputs1, in1, d1) == input_ir_of(inputs2, in2, d2),
{
}

/// Law: the reachability marks are transitively closed.  When a type `t`
/// is marked required, every input object reachable from `t` through
/// input-object fields, in any number of steps, is marked required too.
pub proof fn lemma_reachability_closure(
    s: SchemaView,
    t: Seq<char>,
    n: Seq<char>,
    fuel: nat,
)
    requires
        schema_wf(s),
        seq_contains_str(s.required, t),
        reaches(s.inputs, t, n, false, fuel),
    ensures
        seq_contains_str(s.required, n),
    decreases fuel,
{
    let u = choose |u: Seq<char>|
        edge(s.inputs, t, u, false) && (u == n || reaches(s.inputs, u, n, false, (fuel - 1) as nat));
    let k = choose |k: int| 0 <= k < s.required.len() && s.required[k] == t;
    assert(edge(s.inputs, s.required[k], u, false));
    assert(seq_contains_str(s.required, u));
    if u != n {
        lemma_reachability_closure(s, u, n, (fuel - 1) as nat);
    }
}

/// Law: a self-referential occurrence without container indirection is
/// heap-boxed.  A field of `owner` whose type is the bare name of `owner`
/// itself is emitted behind an explicit heap indirection.
pub proof fn lemma_recursion_safety_boxed(
    inputs: Seq<GqlInputView>,
    owner: Seq<char>,
    k: int,
)
    requires
        unique_names(inputs),
        has_input(inputs, owner),
        0 <= k < input_fields(inputs, owner).len(),
        !indirected(input_fields(inputs, owner)[k].type_),
        inner_name(input_fields(inputs, owner)[k].type_) == owner,
    ensures
        needs_box(inputs, owner, input_fields(inputs, owner)[k]),
        input_fields(inputs, owner)[k].type_ is Named ==> field_ty_ir(
            inputs,
            owner,
            input_fields(inputs, owner)[k],
        ) == TypeExprView::Boxed(
            Box::new(target_type_of(input_fields(inputs, owner)[k].type_)),
        ),
{
    let f = input_fields(inputs, owner)[k];
    assert(edge(inputs, owner, owner, true));
    assert(reaches(inputs, owner, owner, true, 1));
}

/// Law: a reference that reaches the same type through a list is not
/// additionally boxed.  A field that already carries container indirection
/// keeps its plain mapped type, whatever cycles its innermost type sits on.
pub proof fn lemma_recursion_safety_list(
    inputs: Seq<GqlInputView>,
    owner: Seq<char>,
    f: GqlObjectFieldView,
)
    requires
        indirected(f.type_),
    ensures
        !needs_box(inputs, owner, f),
        field_ty_ir(inputs, owner, f) == target_type_of(f.type_),
{
}

/// Reserved words never end in an underscore, so a keyword-safe name is
/// never itself reserved.
pub proof fn lemma_safe_not_reserved(n: Seq<char>)
    ensures
        !is_reserved(keyword_safe(n)),
{
    if is_reserved(n) {
        let m = n.push('_');
        assert(m[m.len() - 1] == '_');
        reveal_strlit("abstract");
        reveal_strlit("as");
        reveal_strlit("async");
        reveal_strlit("await");
        reveal_strlit("become");
        reveal_strlit("box");
        reveal_strlit("break");
        reveal_strlit("const");
        reveal_strlit("continue");
        reveal_strlit("crate");
        reveal_strlit("do");
        reveal_strlit("dyn");
        reveal_strlit("else");
        reveal_strlit("enum");
        reveal_strlit("false");
        reveal_strlit("final");
        reveal_strlit("fn");
        reveal_strlit("for");
        reveal_strlit("if");
        reveal_strlit("impl");
        reveal_strlit("in");
        reveal_strlit("let");
        reveal_strlit("loop");
        reveal_strlit("macro");
        reveal_strlit("match");
        reveal_strlit("mod");
        reveal_strlit("move");
        reveal_strlit("mut");
        reveal_strlit("override");
        reveal_strlit("priv");
        reveal_strlit("pub");
        reveal_strlit("ref");
        reveal_strlit("return");
        reveal_strlit("self");
        reveal_strlit("Self");
        reveal_strlit("static");
        reveal_strlit("struct");
        reveal_strlit("super");
        reveal_strlit("trait");
        reveal_strlit("true");
        reveal_strlit("try");
        reveal_strlit("type");
        reveal_strlit("typeof");
        reveal_strlit("unsafe");
        reveal_strlit("unsized");
        reveal_strlit("use");
        reveal_strlit("virtual");
        reveal_strlit("where");
        reveal_strlit("while");
        reveal_strlit("yield");
    }
}

/// Law: keyword safety preserves the wire format.  The serialization key
/// of an emitted field is exactly the schema field's original name, and
/// the emitted target name never collides with a reserved word.
pub proof fn lemma_keyword_safety(
    inputs: Seq<GqlInputView>,
    owner: Seq<char>,
    f: GqlObjectFieldView,
)
    ensures
        wire_name(field_ir_of(inputs, owner, f)) == f.name,
        !is_reserved(field_ir_of(inputs, owner, f).name),
{
    lemma_safe_not_reserved(crate::casing::snake_of(f.name));
}

/// Law: the same holds of variables-type fields.
pub proof fn lemma_keyword_safety_variable(v: crate::variables::VariableView)
    ensures
        wire_name(variable_field_of(v)) == v.name,
        !is_reserved(variable_field_of(v).name),
{
    lemma_safe_not_reserved(crate::casing::snake_of(v.name));
}

/// Law: deterministic emission order.  An input object's record definition
/// lists one emitted field per schema field, exactly as often as declared,
/// in ascending name order regardless of declaration order.
pub proof fn lemma_emission_order(
    inputs: Seq<GqlInputView>,
    input: GqlInputView,
    derives: Seq<Seq<char>>,
)
    ensures
        crate::inputs::fields_sorted(crate::inputs::sort_by_name(input.fields)),
        crate::inputs::sort_by_name(input.fields).to_multiset() == input.fields.to_multiset(),
        input_ir_of(inputs, input, derives).def.fields == crate::inputs::sort_by_name(
            input.fields,
        ).map_values(|f: GqlObjectFieldView| field_ir_of(inputs, input.name, f)),
{
    crate::inputs::lemma_sort_by_name_sorted(input.fields);
}

/// Law: the minimal constructor takes exactly the required fields.  The
/// constructor parameters are precisely the non-optional fields, in field
/// order, and every optional field is initialized to the absent value.
pub proof fn lemma_optional_defaulting(
    inputs: Seq<GqlInputView>,
    owner: Seq<char>,
    fields: Seq<GqlObjectFieldView>,
)
    ensures
        ctor_params_of(inputs, owner, fields) == fields.filter(
            |f: GqlObjectFieldView| !(f.type_ is Optional),
        ).map_values(|f: GqlObjectFieldView| ctor_param_of(inputs, owner, f)),
        forall |k: int| 0 <= k < fields.len() && (#[trigger] fields[k].type_) is Optional
            ==> fields.map_values(|f: GqlObjectFieldView| ctor_init_of(f))[k]
            == FieldInitView::Absent,
    decreases fields.len(),
{
    reveal(Seq::filter);
    let pred = |f: GqlObjectFieldView| !(f.type_ is Optional);
    if fields.len() == 0 {
        assert(fields.filter(pred).map_values(
            |f: GqlObjectFieldView| ctor_param_of(inputs, owner, f),
        ) =~= Seq::<ParamIrView>::empty());
    } else {
        lemma_optional_defaulting(inputs, owner, fields.drop_last());
        let rest = fields.drop_last().filter(pred);
        if pred(fields.last()) {
            assert(fields.filter(pred) == rest.push(fields.last()));
            assert(fields.filter(pred).map_values(
                |f: GqlObjectFieldView| ctor_param_of(inputs, owner, f),
            ) =~= rest.map_values(
                |f: GqlObjectFieldView| ctor_param_of(inputs, owner, f),
            ).push(ctor_param_of(inputs, owner, fields.last())));
        } else {
            assert(fields.filter(pred) == rest);
        }
    }
}

/// Law: the variables type's minimal constructor takes exactly the
/// non-optional variables, in declaration order.
pub proof fn lemma_variable_ctor_partition(vars: Seq<crate::variables::VariableView>)
    ensures
        crate::operations::variable_ctor_params_of(vars) == vars.filter(
            |v: crate::variables::VariableView| !(v.ty is Optional),
        ).map_values(|v: crate::variables::VariableView| crate::operations::variable_param_of(v)),
    decreases vars.len(),
{
    reveal(Seq::filter);
    let pred = |v: crate::variables::VariableView| !(v.ty is Optional);
    if vars.len() == 0 {
        assert(vars.filter(pred).map_values(
            |v: crate::variables::VariableView| crate::operations::variable_param_of(v),
        ) =~= Seq::<ParamIrView>::empty());
    } else {
        lemma_variable_ctor_partition(vars.drop_last());
        let rest = vars.drop_last().filter(pred);
        if pred(vars.last()) {
            assert(vars.filter(pred) == rest.push(vars.last()));
            assert(vars.filter(pred).map_values(
                |v: crate::variables::VariableView| crate::operations::variable_param_of(v),
            ) =~= rest.map_values(
                |v: crate::variables::VariableView| crate::operations::variable_param_of(v),
            ).push(crate::operations::variable_param_of(vars.last())));
        } else {
            assert(vars.filter(pred) == rest);
        }
    }
}

/// Law: variable emission parity.  An operation without variables gets an
/// empty variables type; one with variables gets exactly one field per
/// declared variable, in declaration order.
pub proof fn lemma_variable_parity(op: OperationView)
    ensures
        op.variables.len() == 0 ==> module_variable_fields(op).len() == 0,
        op.variables.len() > 0 ==> module_variable_fields(op).len() == op.variables.len(),
        forall |k: int| 0 <= k < op.variables.len() && op.variables.len() > 0
            ==> module_variable_fields(op)[k] == variable_field_of(#[trigger] op.variables[k]),
{
}

/// Law: mode equivalence.  The same operation compiled once in standalone
/// mode and once in embedded mode produces modules with identical names,
/// query text, variables type, response tree, derives and default
/// constructors, differing only in the integration surface.
pub proof fn lemma_mode_equivalence(
    op: OperationView,
    q: Seq<char>,
    resp: ResponseIrView,
    o1: OptionsView,
    o2: OptionsView,
)
    requires
        o1.operation_name == o2.operation_name,
        o1.struct_name == o2.struct_name,
        o1.struct_ident == o2.struct_ident,
        o1.input_derives == o2.input_derives,
        o1.response_derives == o2.response_derives,
        o1.deprecation_strategy == o2.deprecation_strategy,
        o1.module_visibility == o2.module_visibility,
        o1.query_file == o2.query_file,
        o1.schema_file == o2.schema_file,
        o1.mode == CodegenMode::Cli,
        o2.mode == CodegenMode::Derive,
    ensures
        module_ir_of(op, q, resp, o1).name == module_ir_of(op, q, resp, o2).name,
        module_ir_of(op, q, resp, o1).operation_name == module_ir_of(op, q, resp, o2)
            .operation_name,
        module_ir_of(op, q, resp, o1).query_string == module_ir_of(op, q, resp, o2).query_string,
        module_ir_of(op, q, resp, o1).visibility == module_ir_of(op, q, resp, o2).visibility,
        module_ir_of(op, q, resp, o1).refresh_file == module_ir_of(op, q, resp, o2).refresh_file,
        module_ir_of(op, q, resp, o1).response == module_ir_of(op, q, resp, o2).response,
        module_ir_of(op, q, resp, o1).variables_derives == module_ir_of(op, q, resp, o2)
            .variables_derives,
        module_ir_of(op, q, resp, o1).variable_fields == module_ir_of(op, q, resp, o2)
            .variable_fields,
        module_ir_of(op, q, resp, o1).default_ctors == module_ir_of(op, q, resp, o2)
            .default_ctors,
{
}

} // verus!
