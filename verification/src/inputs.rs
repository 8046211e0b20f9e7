//! Input object types: the schema definitions that become generated record
//! types with keyword-safe fields and a minimal constructor.

use vstd::prelude::*;
use crate::casing::{snake_of, to_snake_case};
use crate::errors::CodegenError;
use crate::field_type::{indirected, inner_name, target_type_of, FieldType, FieldTypeView};
use crate::ir::{
    FieldInit, FieldInitView, FieldIr, FieldIrView, InputIr, InputIrView, ParamIr, ParamIrView,
    StructDefIr, StructDefIrView, TypeExpr, TypeExprView,
};
use crate::names::{lex_leq, opt_view, seq_contains_str};
use crate::objects::{GqlObjectField, GqlObjectFieldView};
use crate::schema::{has_input, input_index, reachable_inputs, reaches_any, Schema};
use crate::shared::{field_rename_annotation, keyword_replace, keyword_safe, rename_directive};

verus! {

/// An input object type from a GraphQL schema.
#[derive(Debug, PartialEq, Eq, Clone)]
pub struct GqlInput {
    pub name: String,
    pub description: Option<String>,
    pub fields: Vec<GqlObjectField>,
}

/// The mathematical value of a [`GqlInput`].
pub struct GqlInputView {
    pub name: Seq<char>,
    pub description: Option<Seq<char>>,
    pub fields: Seq<GqlObjectFieldView>,
}

impl View for GqlInput {
    type V = GqlInputView;

    open spec fn view(&self) -> GqlInputView {
        GqlInputView {
            name: self.name@,
            description: opt_view(self.description),
            fields: self.fields@.map_values(|f: GqlObjectField| f@),
        }
    }
}

/// The views of a sequence of object fields.
pub open spec fn fields_view(s: Seq<GqlObjectField>) -> Seq<GqlObjectFieldView> {
    s.map_values(|f: GqlObjectField| f@)
}

/// Inserts a field into a name-sorted sequence, keeping it sorted.
pub open spec fn insert_sorted(f: GqlObjectFieldView, s: Seq<GqlObjectFieldView>) -> Seq<
    GqlObjectFieldView,
>
    decreases s.len(),
{
    if s.len() == 0 {
        seq![f]
    } else if lex_leq(f.name, s[0].name) {
        seq![f] + s
    } else {
        seq![s[0]] + insert_sorted(f, s.drop_first())
    }
}

/// The fields in ascending name order (ordinal comparison), by insertion
/// sort; a stable, deterministic order independent of declaration order.
pub open spec fn sort_by_name(s: Seq<GqlObjectFieldView>) -> Seq<GqlObjectFieldView>
    decreases s.len(),
{
    if s.len() == 0 {
        Seq::<GqlObjectFieldView>::empty()
    } else {
        insert_sorted(s[0], sort_by_name(s.drop_first()))
    }
}

/// A field list in ascending name order.
pub open spec fn fields_sorted(s: Seq<GqlObjectFieldView>) -> bool {
    forall |i: int, j: int|
        0 <= i < j < s.len() ==> lex_leq(#[trigger] s[i].name, #[trigger] s[j].name)
}

/// Inserting into a name-sorted list keeps it sorted, adds the new field,
/// and draws every other element from the old list.
pub proof fn lemma_insert_sorted_props(f: GqlObjectFieldView, s: Seq<GqlObjectFieldView>)
    requires
        fields_sorted(s),
    ensures
        fields_sorted(insert_sorted(f, s)),
        insert_sorted(f, s).to_multiset() == s.to_multiset().insert(f),
    decreases s.len(),
{
    broadcast use vstd::seq_lib::group_seq_properties;

    let r = insert_sorted(f, s);
    if s.len() == 0 {
        assert(seq![f] =~= Seq::<GqlObjectFieldView>::empty().push(f));
        assert(r.to_multiset() =~= s.to_multiset().insert(f));
    } else if lex_leq(f.name, s[0].name) {
        assert(fields_sorted(r)) by {
            assert forall |i: int, j: int| 0 <= i < j < r.len() implies lex_leq(
                r[i].name,
                r[j].name,
            ) by {
                if i == 0 {
                    assert(r[j] == s[j - 1]);
                    if j > 1 {
                        crate::names::lemma_lex_trans(f.name, s[0].name, s[j - 1].name);
                    }
                } else {
                    assert(r[i] == s[i - 1] && r[j] == s[j - 1]);
                }
            }
        }
        vstd::seq_lib::lemma_multiset_commutative(seq![f], s);
        assert(seq![f] =~= Seq::<GqlObjectFieldView>::empty().push(f));
        assert(r.to_multiset() =~= s.to_multiset().insert(f));
    } else {
        let tail = s.drop_first();
        assert(fields_sorted(tail)) by {
            assert forall |i: int, j: int| 0 <= i < j < tail.len() implies lex_leq(
                tail[i].name,
                tail[j].name,
            ) by {
                assert(tail[i] == s[i + 1] && tail[j] == s[j + 1]);
            }
        }
        lemma_insert_sorted_props(f, tail);
        let ri = insert_sorted(f, tail);
        crate::names::lemma_lex_total(f.name, s[0].name);
        assert(fields_sorted(r)) by {
            assert forall |i: int, j: int| 0 <= i < j < r.len() implies lex_leq(
                r[i].name,
                r[j].name,
            ) by {
                if i == 0 {
                    assert(r[j] == ri[j - 1]);
                    assert(ri.to_multiset().contains(ri[j - 1]));
                    assert(tail.to_multiset().insert(f).contains(ri[j - 1]));
                    if ri[j - 1] == f {
                        assert(lex_leq(s[0].name, f.name));
                    } else {
                        assert(tail.to_multiset().contains(ri[j - 1]));
                        assert(tail.contains(ri[j - 1]));
                        let m = choose |m: int| 0 <= m < tail.len() && tail[m] == ri[j - 1];
                        assert(s[m + 1] == ri[j - 1]);
                        assert(lex_leq(s[0].name, s[m + 1].name));
                    }
                } else {
                    assert(r[i] == ri[i - 1] && r[j] == ri[j - 1]);
                }
            }
        }
        vstd::seq_lib::lemma_multiset_commutative(seq![s[0]], ri);
        vstd::seq_lib::lemma_multiset_commutative(seq![s[0]], tail);
        assert(s =~= seq![s[0]] + tail);
        assert(r.to_multiset() =~= s.to_multiset().insert(f));
    }
}

/// Sorting emits the fields in ascending name order, each exactly as often
/// as the schema declares it.
pub proof fn lemma_sort_by_name_sorted(s: Seq<GqlObjectFieldView>)
    ensures
        fields_sorted(sort_by_name(s)),
        sort_by_name(s).to_multiset() == s.to_multiset(),
    decreases s.len(),
{
    broadcast use vstd::seq_lib::group_seq_properties;

    if s.len() > 0 {
        let tail = s.drop_first();
        lemma_sort_by_name_sorted(tail);
        lemma_insert_sorted_props(s[0], sort_by_name(tail));
        vstd::seq_lib::lemma_multiset_commutative(seq![s[0]], tail);
        assert(s =~= seq![s[0]] + tail);
        assert(seq![s[0]] =~= Seq::<GqlObjectFieldView>::empty().push(s[0]));
        assert(sort_by_name(s).to_multiset() =~= s.to_multiset());
    }
}

/// Inserts one field into an already name-sorted list of fields.
fn insert_field(f: GqlObjectField, sorted: Vec<GqlObjectField>) -> (r: Vec<GqlObjectField>)
    ensures
        fields_view(r@) == insert_sorted(f@, fields_view(sorted@)),
    decreases sorted@.len(),
{
    if sorted.len() == 0 {
        let mut v: Vec<GqlObjectField> = Vec::new();
        v.push(f);
        proof {
            assert(fields_view(v@) =~= seq![f@]);
        }
        v
    } else if crate::names::str_lex_leq(f.name.as_str(), sorted[0].name.as_str()) {
        proof {
            assert(sorted@[0]@ == fields_view(sorted@)[0]);
        }
        let mut v = sorted;
        v.insert(0, f);
        proof {
            assert(fields_view(v@) =~= seq![f@] + fields_view(v@.drop_first()));
            assert(fields_view(v@.drop_first()) =~= fields_view(v@).drop_first());
        }
        v
    } else {
        let ghost s0 = fields_view(sorted@);
        let mut v = sorted;
        let h = v.remove(0);
        proof {
            assert(fields_view(v@) =~= s0.drop_first());
        }
        let mut t = insert_field(f, v);
        t.insert(0, h);
        proof {
            assert(fields_view(t@) =~= seq![s0[0]] + insert_sorted(f@, s0.drop_first()));
        }
        t
    }
}

/// Sorts the fields from index `i` on by name.
fn sort_from(fields: &Vec<GqlObjectField>, i: usize) -> (r: Vec<GqlObjectField>)
    requires
        i <= fields@.len(),
    ensures
        fields_view(r@) == sort_by_name(
            fields_view(fields@).subrange(i as int, fields@.len() as int),
        ),
    decreases fields@.len() - i,
{
    let ghost whole = fields_view(fields@);
    if i == fields.len() {
        let v: Vec<GqlObjectField> = Vec::new();
        proof {
            assert(fields_view(v@) =~= Seq::<GqlObjectFieldView>::empty());
            assert(whole.subrange(i as int, fields@.len() as int) =~= Seq::<
                GqlObjectFieldView,
            >::empty());
        }
        v
    } else {
        let rest = sort_from(fields, i + 1);
        let r = insert_field(fields[i].clone(), rest);
        proof {
            let suf = whole.subrange(i as int, fields@.len() as int);
            assert(suf.len() > 0);
            assert(suf[0] == fields@[i as int]@);
            assert(suf.drop_first() =~= whole.subrange(i + 1, fields@.len() as int));
        }
        r
    }
}

/// Whether the occurrence of `f` inside `owner` must be heap-boxed: the
/// occurrence itself carries no container indirection, its innermost type is
/// an input object, and that input object's non-indirected field graph
/// reaches back to `owner`.
pub open spec fn needs_box(
    inputs: Seq<GqlInputView>,
    owner: Seq<char>,
    f: GqlObjectFieldView,
) -> bool {
    &&& !indirected(f.type_)
    &&& has_input(inputs, inner_name(f.type_))
    &&& reaches_any(inputs, inner_name(f.type_), owner, true)
}

/// The emitted type of one field of `owner`: its target type expression,
/// with a heap box inserted (inside the optional wrapper, when there is
/// one) exactly when the occurrence must break a recursive cycle.
pub open spec fn field_ty_ir(
    inputs: Seq<GqlInputView>,
    owner: Seq<char>,
    f: GqlObjectFieldView,
) -> TypeExprView {
    if needs_box(inputs, owner, f) {
        match f.type_ {
            FieldTypeView::Optional(i) => TypeExprView::Optional(
                Box::new(TypeExprView::Boxed(Box::new(target_type_of(*i)))),
            ),
            _ => TypeExprView::Boxed(Box::new(target_type_of(f.type_))),
        }
    } else {
        target_type_of(f.type_)
    }
}

/// The emitted record field for one field of `owner`: keyword-safe
/// snake_case name, wire-name directive, absent-skipping for optional
/// fields, and the (possibly boxed) target type.
pub open spec fn field_ir_of(
    inputs: Seq<GqlInputView>,
    owner: Seq<char>,
    f: GqlObjectFieldView,
) -> FieldIrView {
    FieldIrView {
        name: keyword_safe(snake_of(f.name)),
        rename: rename_directive(f.name, keyword_safe(snake_of(f.name))),
        skip_if_absent: f.type_ is Optional,
        ty: field_ty_ir(inputs, owner, f),
    }
}

/// The constructor parameter contributed by one required field of `owner`.
pub open spec fn ctor_param_of(
    inputs: Seq<GqlInputView>,
    owner: Seq<char>,
    f: GqlObjectFieldView,
) -> ParamIrView {
    ParamIrView { name: keyword_safe(snake_of(f.name)), ty: field_ty_ir(inputs, owner, f) }
}

/// The constructor parameters for a field list: one per non-optional field,
/// in field order.
pub open spec fn ctor_params_of(
    inputs: Seq<GqlInputView>,
    owner: Seq<char>,
    fields: Seq<GqlObjectFieldView>,
) -> Seq<ParamIrView>
    decreases fields.len(),
{
    if fields.len() == 0 {
        Seq::<ParamIrView>::empty()
    } else {
        let rest = ctor_params_of(inputs, owner, fields.drop_last());
        if fields.last().type_ is Optional {
            rest
        } else {
            rest.push(ctor_param_of(inputs, owner, fields.last()))
        }
    }
}

/// The constructor initializer for one field: optional fields default to
/// the absent value, required fields take the parameter of the same name.
pub open spec fn ctor_init_of(f: GqlObjectFieldView) -> FieldInitView {
    if f.type_ is Optional {
        FieldInitView::Absent
    } else {
        FieldInitView::FromParam(keyword_safe(snake_of(f.name)))
    }
}

/// The whole emission unit for one input object: the keyword-safe record
/// definition over the name-sorted fields, and the minimal constructor.
pub open spec fn input_ir_of(
    inputs: Seq<GqlInputView>,
    input: GqlInputView,
    derives: Seq<Seq<char>>,
) -> InputIrView {
    let sorted = sort_by_name(input.fields);
    InputIrView {
        def: StructDefIrView {
            name: keyword_safe(input.name),
            derives: derives,
            fields: sorted.map_values(|f: GqlObjectFieldView| field_ir_of(inputs, input.name, f)),
        },
        ctor_params: ctor_params_of(inputs, input.name, sorted),
        ctor_inits: sorted.map_values(|f: GqlObjectFieldView| ctor_init_of(f)),
    }
}

/// Whether `n` is marked required after the types of all the given fields
/// have been required against marks `req`.
pub open spec fn marks_after_fields(
    inputs: Seq<GqlInputView>,
    req: Seq<Seq<char>>,
    fields: Seq<GqlObjectFieldView>,
    n: Seq<char>,
) -> bool {
    ||| seq_contains_str(req, n)
    ||| exists |k: int|
        0 <= k < fields.len() && has_input(inputs, inner_name(#[trigger] fields[k].type_))
        && (n == inner_name(fields[k].type_) || reaches_any(
            inputs,
            inner_name(fields[k].type_),
            n,
            false,
        ))
}

impl GqlInput {
    /// Marks this input object, and every type its fields transitively
    /// reference, as required.
    pub fn require(&self, schema: &mut Schema)
        requires
            old(schema).wf(),
        ensures
            final(schema).wf(),
            final(schema)@.inputs == old(schema)@.inputs,
            final(schema)@.query_type == old(schema)@.query_type,
            final(schema)@.mutation_type == old(schema)@.mutation_type,
            final(schema)@.subscription_type == old(schema)@.subscription_type,
            forall |n: Seq<char>| seq_contains_str(final(schema)@.required, n) <==> {
                ||| seq_contains_str(old(schema)@.required, n)
                ||| (has_input(old(schema)@.inputs, self@.name) && (n == self@.name
                    || reaches_any(old(schema)@.inputs, self@.name, n, false)))
            },
    {
        schema.require(self.name.as_str());
    }

    /// Whether the input type registered under this input's name reaches
    /// the named type through fields that carry no container indirection.
    pub fn contains_type_without_indirection(&self, schema: &Schema, name: &str) -> (r: bool)
        requires
            schema.wf(),
            has_input(schema@.inputs, self@.name),
        ensures
            r == reaches_any(schema@.inputs, self@.name, name@, true),
    {
        let reach = reachable_inputs(&schema.inputs, self.name.as_str(), true);
        crate::names::contains_name(&reach, name)
    }

    /// Whether this input object's non-indirected field graph reaches back
    /// to itself, so that bare occurrences of it inside itself must be
    /// heap-boxed.
    pub fn is_recursive_without_indirection(&self, schema: &Schema) -> (r: bool)
        requires
            schema.wf(),
            has_input(schema@.inputs, self@.name),
        ensures
            r == reaches_any(schema@.inputs, self@.name, self@.name, true),
    {
        self.contains_type_without_indirection(schema, self.name.as_str())
    }

    /// Emits one field of this input object: the keyword-safe renamed
    /// field with its (possibly heap-boxed) target type, appending the
    /// field's constructor parameter and initializer, and marking the
    /// field's innermost type as required.
    pub fn map_field(
        &self,
        schema: &mut Schema,
        field: &GqlObjectField,
        required_fields: &mut Vec<ParamIr>,
        field_inits: &mut Vec<FieldInit>,
    ) -> (r: FieldIr)
        requires
            old(schema).wf(),
            has_input(old(schema)@.inputs, self@.name),
        ensures
            final(schema).wf(),
            final(schema)@.inputs == old(schema)@.inputs,
            final(schema)@.query_type == old(schema)@.query_type,
            final(schema)@.mutation_type == old(schema)@.mutation_type,
            final(schema)@.subscription_type == old(schema)@.subscription_type,
            r@ == field_ir_of(old(schema)@.inputs, self@.name, field@),
            field@.type_ is Optional ==> {
                &&& final(required_fields)@ == old(required_fields)@
                &&& final(field_inits)@.map_values(|i: FieldInit| i@)
                    == old(field_inits)@.map_values(|i: FieldInit| i@).push(FieldInitView::Absent)
            },
            !(field@.type_ is Optional) ==> {
                &&& final(required_fields)@.map_values(|p: ParamIr| p@)
                    == old(required_fields)@.map_values(|p: ParamIr| p@).push(
                    ctor_param_of(old(schema)@.inputs, self@.name, field@),
                )
                &&& final(field_inits)@.map_values(|i: FieldInit| i@)
                    == old(field_inits)@.map_values(|i: FieldInit| i@).push(
                    FieldInitView::FromParam(keyword_safe(snake_of(field@.name))),
                )
            },
            forall |n: Seq<char>| seq_contains_str(final(schema)@.required, n) <==> {
                ||| seq_contains_str(old(schema)@.required, n)
                ||| (has_input(old(schema)@.inputs, inner_name(field@.type_)) && (n == inner_name(
                    field@.type_,
                ) || reaches_any(old(schema)@.inputs, inner_name(field@.type_), n, false)))
            },
    {
        let ghost iv = schema@.inputs;
        let boxed: bool = if field.type_.is_indirected() {
            false
        } else {
            match schema.get_input(field.type_.inner_name_str()) {
                Option::Some(inner_input) => {
                    proof {
                        assert(has_input(iv, inner_name(field@.type_)));
                        assert(iv[input_index(iv, inner_name(field@.type_))].name == inner_name(
                            field@.type_,
                        ));
                    }
                    inner_input.contains_type_without_indirection(schema, self.name.as_str())
                },
                Option::None => false,
            }
        };
        proof {
            assert(boxed == needs_box(iv, self@.name, field@));
        }
        let ty: TypeExpr = if boxed {
            match &field.type_ {
                FieldType::Optional(inner) => {
                    let ti = inner.to_target_type();
                    proof {
                        assert(field@.type_ == FieldTypeView::Optional(
                            Box::new(crate::field_type::field_type_view(inner)),
                        ));
                        assert(ti@ == target_type_of(crate::field_type::field_type_view(inner)));
                    }
                    let r = TypeExpr::Optional(Box::new(TypeExpr::Boxed(Box::new(ti))));
                    proof {
                        reveal_with_fuel(crate::ir::type_expr_view, 4);
                        assert(r@ == TypeExprView::Optional(Box::new(TypeExprView::Boxed(
                            Box::new(target_type_of(crate::field_type::field_type_view(inner))),
                        ))));
                    }
                    r
                },
                _ => TypeExpr::Boxed(Box::new(field.type_.to_target_type())),
            }
        } else {
            field.type_.to_target_type()
        };
        schema.require(field.type_.inner_name_str());
        let snake = to_snake_case(field.name.as_str());
        let safe = keyword_replace(snake.as_str());
        let rename = field_rename_annotation(field.name.as_str(), safe.as_str());
        let mut skip: bool = false;
        match &field.type_ {
            FieldType::Optional(_) => {
                skip = true;
                let ghost inits0 = field_inits@.map_values(|i: FieldInit| i@);
                field_inits.push(FieldInit::Absent);
                proof {
                    assert(field_inits@.map_values(|i: FieldInit| i@) =~= inits0.push(
                        FieldInitView::Absent,
                    ));
                }
            },
            _ => {
                let ghost params0 = required_fields@.map_values(|p: ParamIr| p@);
                let ghost inits0 = field_inits@.map_values(|i: FieldInit| i@);
                required_fields.push(ParamIr { name: safe.clone(), ty: ty.clone_expr() });
                field_inits.push(FieldInit::FromParam(safe.clone()));
                proof {
                    assert(required_fields@.map_values(|p: ParamIr| p@) =~= params0.push(
                        ctor_param_of(iv, self@.name, field@),
                    ));
                    assert(field_inits@.map_values(|i: FieldInit| i@) =~= inits0.push(
                        FieldInitView::FromParam(keyword_safe(snake_of(field@.name))),
                    ));
                }
            },
        }
        proof {
            assert(ty@ == field_ir_of(iv, self@.name, field@).ty);
        }
        FieldIr { name: safe, rename, skip_if_absent: skip, ty }
    }

    /// Emits the full unit for this input object: the record definition
    /// over the name-sorted fields and the constructor taking exactly the
    /// required fields, marking every referenced type as required.
    pub fn to_rust(&self, schema: &mut Schema, derives: &Vec<String>) -> (r: Result<
        InputIr,
        CodegenError,
    >)
        requires
            old(schema).wf(),
            has_input(old(schema)@.inputs, self@.name),
        ensures
            final(schema).wf(),
            final(schema)@.inputs == old(schema)@.inputs,
            final(schema)@.query_type == old(schema)@.query_type,
            final(schema)@.mutation_type == old(schema)@.mutation_type,
            final(schema)@.subscription_type == old(schema)@.subscription_type,
            r matches Result::Ok(ir) && ir@ == input_ir_of(
                old(schema)@.inputs,
                self@,
                derives.deep_view(),
            ),
            forall |n: Seq<char>| seq_contains_str(final(schema)@.required, n)
                <==> marks_after_fields(
                old(schema)@.inputs,
                old(schema)@.required,
                sort_by_name(self@.fields),
                n,
            ),
    {
        let ghost iv = schema@.inputs;
        let ghost req0 = schema@.required;
        let ghost qt0 = schema@.query_type;
        let ghost mt0 = schema@.mutation_type;
        let ghost st0 = schema@.subscription_type;
        let sorted = sort_from(&self.fields, 0);
        proof {
            assert(fields_view(self.fields@).subrange(0, self.fields@.len() as int)
                =~= fields_view(self.fields@));
            assert(self@.fields == fields_view(self.fields@));
            assert(fields_view(sorted@) == sort_by_name(self@.fields));
        }
        let ghost sv = sort_by_name(self@.fields);
        let mut fields: Vec<FieldIr> = Vec::new();
        let mut required_fields: Vec<ParamIr> = Vec::new();
        let mut field_inits: Vec<FieldInit> = Vec::new();
        let mut i: usize = 0;
        while i < sorted.len()
            invariant
                schema.wf(),
                iv == schema@.inputs,
                schema@.query_type == qt0,
                schema@.mutation_type == mt0,
                schema@.subscription_type == st0,
                has_input(iv, self@.name),
                i <= sorted@.len(),
                fields_view(sorted@) == sv,
                sorted@.len() == sv.len(),
                fields@.map_values(|f: FieldIr| f@) == sv.subrange(0, i as int).map_values(
                    |f: GqlObjectFieldView| field_ir_of(iv, self@.name, f),
                ),
                required_fields@.map_values(|p: ParamIr| p@) == ctor_params_of(
                    iv,
                    self@.name,
                    sv.subrange(0, i as int),
                ),
                field_inits@.map_values(|x: FieldInit| x@) == sv.subrange(0, i as int).map_values(
                    |f: GqlObjectFieldView| ctor_init_of(f),
                ),
                forall |n: Seq<char>| seq_contains_str(schema@.required, n)
                    <==> marks_after_fields(iv, req0, sv.subrange(0, i as int), n),
            decreases sorted@.len() - i,
        {
            let ghost req_before = schema@.required;
            let ghost fields_before = fields@.map_values(|f: FieldIr| f@);
            let ghost params_before = required_fields@.map_values(|p: ParamIr| p@);
            let ghost inits_before = field_inits@.map_values(|x: FieldInit| x@);
            proof {
                assert(sorted@[i as int]@ == sv[i as int]);
            }
            let ir = self.map_field(schema, &sorted[i], &mut required_fields, &mut field_inits);
            fields.push(ir);
            proof {
                let f = sv[i as int];
                let pre = sv.subrange(0, i as int);
                let pre1 = sv.subrange(0, i + 1);
                assert(pre1.drop_last() =~= pre);
                assert(pre1.last() == f);
                assert(fields@.map_values(|x: FieldIr| x@) =~= fields_before.push(
                    field_ir_of(iv, self@.name, f),
                ));
                assert(pre1.map_values(|x: GqlObjectFieldView| field_ir_of(iv, self@.name, x))
                    =~= pre.map_values(
                    |x: GqlObjectFieldView| field_ir_of(iv, self@.name, x),
                ).push(field_ir_of(iv, self@.name, f)));
                assert(pre1.map_values(|x: GqlObjectFieldView| ctor_init_of(x))
                    =~= pre.map_values(|x: GqlObjectFieldView| ctor_init_of(x)).push(
                    ctor_init_of(f),
                ));
                if f.type_ is Optional {
                    assert(required_fields@.map_values(|p: ParamIr| p@) == ctor_params_of(
                        iv,
                        self@.name,
                        pre1,
                    ));
                } else {
                    assert(required_fields@.map_values(|p: ParamIr| p@) == ctor_params_of(
                        iv,
                        self@.name,
                        pre1,
                    ));
                }
                assert forall |n: Seq<char>| seq_contains_str(schema@.required, n)
                    <==> marks_after_fields(iv, req0, pre1, n) by {
                    if seq_contains_str(schema@.required, n) {
                        if seq_contains_str(req_before, n) {
                            if !seq_contains_str(req0, n) {
                                let k = choose |k: int|
                                    0 <= k < pre.len() && has_input(
                                        iv,
                                        inner_name(pre[k].type_),
                                    ) && (n == inner_name(pre[k].type_) || reaches_any(
                                        iv,
                                        inner_name(pre[k].type_),
                                        n,
                                        false,
                                    ));
                                assert(pre1[k] == pre[k]);
                                assert(marks_after_fields(iv, req0, pre1, n));
                            }
                        } else {
                            assert(pre1[i as int] == f);
                            assert(marks_after_fields(iv, req0, pre1, n));
                        }
                    }
                    if marks_after_fields(iv, req0, pre1, n) {
                        if seq_contains_str(req0, n) {
                            assert(seq_contains_str(req_before, n));
                            assert(seq_contains_str(schema@.required, n));
                        } else {
                            let k = choose |k: int|
                                0 <= k < pre1.len() && has_input(
                                    iv,
                                    inner_name(pre1[k].type_),
                                ) && (n == inner_name(pre1[k].type_) || reaches_any(
                                    iv,
                                    inner_name(pre1[k].type_),
                                    n,
                                    false,
                                ));
                            if k < i {
                                assert(pre[k] == pre1[k]);
                                assert(marks_after_fields(iv, req0, pre, n));
                                assert(seq_contains_str(req_before, n));
                                assert(seq_contains_str(schema@.required, n));
                            } else {
                                assert(pre1[k] == f);
                                assert(seq_contains_str(schema@.required, n));
                            }
                        }
                    }
                }
            }
            i = i + 1;
        }
        proof {
            assert(sv.subrange(0, sv.len() as int) =~= sv);
        }
        let name_safe = keyword_replace(self.name.as_str());
        let derives_own = crate::names::clone_names(derives);
        let r = InputIr {
            def: StructDefIr { name: name_safe, derives: derives_own, fields },
            ctor_params: required_fields,
            ctor_inits: field_inits,
        };
        proof {
            assert(r@.def.fields == input_ir_of(iv, self@, derives.deep_view()).def.fields);
            assert(r@ == input_ir_of(iv, self@, derives.deep_view()));
        }
        Result::Ok(r)
    }
}

} // verus!
