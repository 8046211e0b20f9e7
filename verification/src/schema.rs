//! The schema model: all input object types keyed by name, the configured
//! root operation type names, and the reachability marks that restrict
//! emission to the types actually used by the compiled operations.

use vstd::prelude::*;
use vstd::seq_lib::group_seq_properties;
use vstd::set_lib::lemma_len_subset;
use crate::field_type::{indirected, inner_name};
use crate::inputs::{GqlInput, GqlInputView};
use crate::names::{contains_name, opt_view, seq_contains_str, str_eq};
use crate::objects::GqlObjectFieldView;

verus! {

/// The views of a sequence of input objects.
pub open spec fn inputs_view(v: Seq<GqlInput>) -> Seq<GqlInputView> {
    v.map_values(|i: GqlInput| i@)
}

/// Whether some input object carries the given name.
pub open spec fn has_input(inputs: Seq<GqlInputView>, name: Seq<char>) -> bool {
    exists |i: int| 0 <= i < inputs.len() && inputs[i].name == name
}

/// The index of the input object with the given name.
pub open spec fn input_index(inputs: Seq<GqlInputView>, name: Seq<char>) -> int {
    choose |i: int| 0 <= i < inputs.len() && inputs[i].name == name
}

/// The fields of the input object with the given name.
pub open spec fn input_fields(inputs: Seq<GqlInputView>, name: Seq<char>) -> Seq<
    GqlObjectFieldView,
> {
    inputs[input_index(inputs, name)].fields
}

/// Input object names are pairwise distinct.
pub open spec fn unique_names(inputs: Seq<GqlInputView>) -> bool {
    forall |i: int, j: int|
        0 <= i < j < inputs.len() ==> inputs[i].name != inputs[j].name
}

/// With distinct names, the index of a named input is the only one carrying
/// that name.
pub proof fn lemma_input_index(inputs: Seq<GqlInputView>, ix: int)
    requires
        unique_names(inputs),
        0 <= ix < inputs.len(),
    ensures
        input_index(inputs, inputs[ix].name) == ix,
{
    let n = inputs[ix].name;
    assert(has_input(inputs, n));
    let j = input_index(inputs, n);
    if j != ix {
        assert(inputs[j].name == inputs[ix].name);
    }
}

/// One step of the input-object reference graph: input `a` has a field
/// whose innermost type names input `u`.  With `only_unindirected`, fields
/// that already carry container indirection do not count as steps.
pub open spec fn edge(
    inputs: Seq<GqlInputView>,
    a: Seq<char>,
    u: Seq<char>,
    only_unindirected: bool,
) -> bool {
    &&& has_input(inputs, a)
    &&& has_input(inputs, u)
    &&& exists |k: int|
        0 <= k < input_fields(inputs, a).len()
        && (!only_unindirected || !indirected(#[trigger] input_fields(inputs, a)[k].type_))
        && inner_name(input_fields(inputs, a)[k].type_) == u
}

/// Reachability along `edge` in at most `fuel` steps (at least one step).
pub open spec fn reaches(
    inputs: Seq<GqlInputView>,
    a: Seq<char>,
    t: Seq<char>,
    only_unindirected: bool,
    fuel: nat,
) -> bool
    decreases fuel,
{
    fuel > 0 && exists |u: Seq<char>|
        edge(inputs, a, u, only_unindirected)
        && (u == t || reaches(inputs, u, t, only_unindirected, (fuel - 1) as nat))
}

/// Reachability along `edge` in any positive number of steps.
pub open spec fn reaches_any(
    inputs: Seq<GqlInputView>,
    a: Seq<char>,
    t: Seq<char>,
    only_unindirected: bool,
) -> bool {
    exists |fuel: nat| reaches(inputs, a, t, only_unindirected, fuel)
}

/// More fuel never loses a path.
pub proof fn lemma_reaches_mono(
    inputs: Seq<GqlInputView>,
    a: Seq<char>,
    t: Seq<char>,
    only: bool,
    f1: nat,
    f2: nat,
)
    requires
        reaches(inputs, a, t, only, f1),
        f1 <= f2,
    ensures
        reaches(inputs, a, t, only, f2),
    decreases f1,
{
    let u = choose |u: Seq<char>|
        edge(inputs, a, u, only) && (u == t || reaches(inputs, u, t, only, (f1 - 1) as nat));
    if u != t {
        lemma_reaches_mono(inputs, u, t, only, (f1 - 1) as nat, (f2 - 1) as nat);
    }
    assert(edge(inputs, a, u, only) && (u == t || reaches(inputs, u, t, only, (f2 - 1) as nat)));
}

/// A path can be lengthened by one further edge at its end.
pub proof fn lemma_reaches_extend(
    inputs: Seq<GqlInputView>,
    a: Seq<char>,
    b: Seq<char>,
    u: Seq<char>,
    only: bool,
    fuel: nat,
)
    requires
        reaches(inputs, a, b, only, fuel),
        edge(inputs, b, u, only),
    ensures
        reaches(inputs, a, u, only, (fuel + 1) as nat),
    decreases fuel,
{
    let w = choose |w: Seq<char>|
        edge(inputs, a, w, only) && (w == b || reaches(inputs, w, b, only, (fuel - 1) as nat));
    if w == b {
        assert(reaches(inputs, b, u, only, 1));
        lemma_reaches_mono(inputs, b, u, only, 1, fuel);
        assert(edge(inputs, a, w, only) && reaches(inputs, w, u, only, fuel));
    } else {
        lemma_reaches_extend(inputs, w, b, u, only, (fuel - 1) as nat);
        assert(edge(inputs, a, w, only) && reaches(inputs, w, u, only, fuel));
    }
}

/// Whatever is reached is itself a named input object.
pub proof fn lemma_reaches_has_input(
    inputs: Seq<GqlInputView>,
    a: Seq<char>,
    t: Seq<char>,
    only: bool,
    fuel: nat,
)
    requires
        reaches(inputs, a, t, only, fuel),
    ensures
        has_input(inputs, t),
    decreases fuel,
{
    let u = choose |u: Seq<char>|
        edge(inputs, a, u, only) && (u == t || reaches(inputs, u, t, only, (fuel - 1) as nat));
    if u != t {
        lemma_reaches_has_input(inputs, u, t, only, (fuel - 1) as nat);
    }
}

/// A set of names that contains the successors of a start name and of each
/// of its own members absorbs everything the start reaches.
pub proof fn lemma_closed_absorbs(
    inputs: Seq<GqlInputView>,
    start: Seq<char>,
    found: Seq<Seq<char>>,
    a: Seq<char>,
    t: Seq<char>,
    only: bool,
    fuel: nat,
)
    requires
        forall |x: Seq<char>, u: Seq<char>|
            (x == start || seq_contains_str(found, x)) && #[trigger] edge(inputs, x, u, only)
                ==> seq_contains_str(found, u),
        a == start || seq_contains_str(found, a),
        reaches(inputs, a, t, only, fuel),
    ensures
        seq_contains_str(found, t),
    decreases fuel,
{
    let u = choose |u: Seq<char>|
        edge(inputs, a, u, only) && (u == t || reaches(inputs, u, t, only, (fuel - 1) as nat));
    assert(seq_contains_str(found, u));
    if u != t {
        lemma_closed_absorbs(inputs, start, found, u, t, only, (fuel - 1) as nat);
    }
}

/// A duplicate-free list of names drawn from the inputs' names is no longer
/// than the list of inputs.
proof fn lemma_expanded_bound(inputs: Seq<GqlInputView>, expanded: Seq<Seq<char>>)
    requires
        expanded.no_duplicates(),
        forall |k: int| 0 <= k < expanded.len() ==> has_input(inputs, #[trigger] expanded[k]),
    ensures
        expanded.len() <= inputs.len(),
{
    broadcast use vstd::set::group_set_axioms;

    let names = inputs.map_values(|i: GqlInputView| i.name);
    expanded.unique_seq_to_set();
    assert forall |x: Seq<char>| expanded.to_set().contains(x) implies names.to_set().contains(
        x,
    ) by {
        let k = choose |k: int| 0 <= k < expanded.len() && expanded[k] == x;
        assert(has_input(inputs, expanded[k]));
        let i = choose |i: int| 0 <= i < inputs.len() && inputs[i].name == x;
        assert(names[i] == x);
    }
    lemma_len_subset(expanded.to_set(), names.to_set());
    names.lemma_cardinality_of_set();
}

/// Appending an absent element keeps a list duplicate-free.
proof fn lemma_push_no_duplicates<A>(s: Seq<A>, x: A)
    requires
        s.no_duplicates(),
        !s.contains(x),
    ensures
        s.push(x).no_duplicates(),
{
    assert forall |i: int, j: int|
        0 <= i < s.push(x).len() && 0 <= j < s.push(x).len() && i != j implies s.push(x)[i]
        != s.push(x)[j] by {
        if i < s.len() && j < s.len() {
        } else if i < s.len() {
            assert(s.contains(s[i]));
        } else if j < s.len() {
            assert(s.contains(s[j]));
        }
    }
}

/// Every name reachable from `start` over the input-object reference graph,
/// computed by saturation with an explicit visited set, so that genuinely
/// cyclic schemas terminate.
pub(crate) fn reachable_inputs(inputs: &Vec<GqlInput>, start: &str, only_unindirected: bool) -> (r:
    Vec<String>)
    requires
        unique_names(inputs_view(inputs@)),
        has_input(inputs_view(inputs@), start@),
    ensures
        forall |u: Seq<char>| seq_contains_str(r.deep_view(), u) <==> reaches_any(
            inputs_view(inputs@),
            start@,
            u,
            only_unindirected,
        ),
{
    let ghost iv = inputs_view(inputs@);
    let only = only_unindirected;
    let mut found: Vec<String> = Vec::new();
    let mut todo: Vec<String> = Vec::new();
    let mut expanded: Vec<String> = Vec::new();
    todo.push(start.to_owned());
    proof {
        assert(todo.deep_view() =~= Seq::<Seq<char>>::empty().push(start@));
        assert(found.deep_view() =~= Seq::<Seq<char>>::empty());
        assert(expanded.deep_view() =~= Seq::<Seq<char>>::empty());
        assert(todo.deep_view()[0] == start@);
    }
    while todo.len() > 0
        invariant
            iv == inputs_view(inputs@),
            unique_names(iv),
            has_input(iv, start@),
            forall |k: int| 0 <= k < todo.deep_view().len() ==> #[trigger] todo.deep_view()[k]
                == start@ || seq_contains_str(found.deep_view(), todo.deep_view()[k]),
            forall |k: int| 0 <= k < found.deep_view().len() ==> has_input(
                iv,
                #[trigger] found.deep_view()[k],
            ),
            forall |k: int| 0 <= k < found.deep_view().len() ==> reaches_any(
                iv,
                start@,
                #[trigger] found.deep_view()[k],
                only,
            ),
            expanded.deep_view().no_duplicates(),
            forall |k: int| 0 <= k < expanded.deep_view().len() ==> has_input(
                iv,
                #[trigger] expanded.deep_view()[k],
            ),
            forall |x: Seq<char>, u: Seq<char>|
                seq_contains_str(expanded.deep_view(), x) && #[trigger] edge(iv, x, u, only)
                    ==> seq_contains_str(found.deep_view(), u),
            seq_contains_str(expanded.deep_view(), start@) || seq_contains_str(
                todo.deep_view(),
                start@,
            ),
            forall |x: Seq<char>| #[trigger] seq_contains_str(found.deep_view(), x)
                ==> seq_contains_str(expanded.deep_view(), x) || seq_contains_str(
                todo.deep_view(),
                x,
            ),
            expanded.deep_view().len() <= iv.len(),
        decreases iv.len() + 1 - expanded.deep_view().len(), todo.deep_view().len(),
    {
        let ghost todo_before = todo.deep_view();
        let a = todo.pop().unwrap();
        proof {
            assert(todo.deep_view() =~= todo_before.drop_last());
            assert(a@ == todo_before.last());
            assert(seq_contains_str(todo_before, a@));
            assert(todo_before[todo_before.len() - 1] == a@);
            assert(a@ == start@ || seq_contains_str(found.deep_view(), a@));
            assert forall |x: Seq<char>| #[trigger] seq_contains_str(todo.deep_view(), x)
                implies seq_contains_str(todo_before, x) by {
                let k = choose |k: int| 0 <= k < todo.deep_view().len() && todo.deep_view()[k]
                    == x;
                assert(todo_before[k] == x);
            }
            assert forall |x: Seq<char>| #[trigger] seq_contains_str(todo_before, x) implies x
                == a@ || seq_contains_str(todo.deep_view(), x) by {
                let k = choose |k: int| 0 <= k < todo_before.len() && todo_before[k] == x;
                if k < todo_before.len() - 1 {
                    assert(todo.deep_view()[k] == x);
                }
            }
        }
        if !contains_name(&expanded, a.as_str()) {
            let ghost expanded_before = expanded.deep_view();
            proof {
                lemma_push_no_duplicates(expanded_before, a@);
                if a@ == start@ {
                } else {
                    assert(seq_contains_str(found.deep_view(), a@));
                }
                lemma_expanded_bound(iv, expanded_before.push(a@));
            }
            expanded.push(a.clone());
            proof {
                assert(expanded.deep_view() =~= expanded_before.push(a@));
                assert(expanded.deep_view()[expanded_before.len() as int] == a@);
                assert(seq_contains_str(expanded.deep_view(), a@));
                assert forall |x: Seq<char>| #[trigger] seq_contains_str(expanded_before, x)
                    implies seq_contains_str(expanded.deep_view(), x) by {
                    let k = choose |k: int| 0 <= k < expanded_before.len() && expanded_before[k]
                        == x;
                    assert(expanded.deep_view()[k] == x);
                }
            }
            match find_input(inputs, a.as_str()) {
                Option::Some(ix) => {
                    proof {
                        lemma_input_index(iv, ix as int);
                        assert(input_fields(iv, a@) == iv[ix as int].fields);
                    }
                    let mut k: usize = 0;
                    while k < inputs[ix].fields.len()
                        invariant
                            iv == inputs_view(inputs@),
                            unique_names(iv),
                            has_input(iv, start@),
                            ix < inputs@.len(),
                            iv[ix as int].name == a@,
                            input_fields(iv, a@) == iv[ix as int].fields,
                            a@ == start@ || seq_contains_str(found.deep_view(), a@),
                            k <= iv[ix as int].fields.len(),
                            iv[ix as int].fields.len() == inputs@[ix as int].fields@.len(),
                            seq_contains_str(expanded.deep_view(), a@),
                            forall |j: int| 0 <= j < todo.deep_view().len()
                                ==> #[trigger] todo.deep_view()[j] == start@
                                || seq_contains_str(found.deep_view(), todo.deep_view()[j]),
                            forall |j: int| 0 <= j < found.deep_view().len() ==> has_input(
                                iv,
                                #[trigger] found.deep_view()[j],
                            ),
                            forall |j: int| 0 <= j < found.deep_view().len() ==> reaches_any(
                                iv,
                                start@,
                                #[trigger] found.deep_view()[j],
                                only,
                            ),
                            expanded.deep_view().no_duplicates(),
                            forall |j: int| 0 <= j < expanded.deep_view().len() ==> has_input(
                                iv,
                                #[trigger] expanded.deep_view()[j],
                            ),
                            forall |x: Seq<char>, u: Seq<char>|
                                seq_contains_str(expanded.deep_view(), x) && x != a@
                                    && #[trigger] edge(iv, x, u, only) ==> seq_contains_str(
                                    found.deep_view(),
                                    u,
                                ),
                            forall |j: int|
                                0 <= j < k && (!only || !indirected(
                                    #[trigger] iv[ix as int].fields[j].type_,
                                )) && has_input(iv, inner_name(iv[ix as int].fields[j].type_))
                                    ==> seq_contains_str(
                                    found.deep_view(),
                                    inner_name(iv[ix as int].fields[j].type_),
                                ),
                            seq_contains_str(expanded.deep_view(), start@) || seq_contains_str(
                                todo.deep_view(),
                                start@,
                            ),
                            forall |x: Seq<char>| #[trigger] seq_contains_str(
                                found.deep_view(),
                                x,
                            ) ==> seq_contains_str(expanded.deep_view(), x)
                                || seq_contains_str(todo.deep_view(), x),
                            expanded.deep_view().len() <= iv.len(),
                        decreases iv[ix as int].fields.len() - k,
                    {
                        let f = &inputs[ix].fields[k];
                        proof {
                            assert(f@ == iv[ix as int].fields[k as int]);
                        }
                        if !only || !f.type_.is_indirected() {
                            let u = f.type_.inner_name_str();
                            match find_input(inputs, u) {
                                Option::Some(jx) => {
                                    proof {
                                        assert(iv[jx as int].name == u@);
                                        assert(has_input(iv, u@));
                                        assert(has_input(iv, a@)) by {
                                            assert(iv[ix as int].name == a@);
                                        }
                                        assert(input_fields(iv, a@)[k as int] == f@);
                                        assert(!only || !indirected(
                                            input_fields(iv, a@)[k as int].type_,
                                        ));
                                        assert(inner_name(input_fields(iv, a@)[k as int].type_)
                                            == u@);
                                        assert(edge(iv, a@, u@, only));
                                        if a@ == start@ {
                                            assert(reaches(iv, start@, u@, only, 1));
                                            assert(reaches_any(iv, start@, u@, only));
                                        } else {
                                            assert(seq_contains_str(found.deep_view(), a@));
                                            let fuel = choose |fuel: nat| reaches(
                                                iv,
                                                start@,
                                                a@,
                                                only,
                                                fuel,
                                            );
                                            lemma_reaches_extend(iv, start@, a@, u@, only, fuel);
                                            assert(reaches_any(iv, start@, u@, only));
                                        }
                                    }
                                    if !contains_name(&found, u) {
                                        let ghost found_before = found.deep_view();
                                        let ghost todo_before2 = todo.deep_view();
                                        found.push(u.to_owned());
                                        todo.push(u.to_owned());
                                        proof {
                                            assert(found.deep_view() =~= found_before.push(u@));
                                            assert(todo.deep_view() =~= todo_before2.push(u@));
                                            assert(found.deep_view()[found_before.len() as int]
                                                == u@);
                                            assert(todo.deep_view()[todo_before2.len() as int]
                                                == u@);
                                            assert(seq_contains_str(found.deep_view(), u@));
                                            assert(seq_contains_str(todo.deep_view(), u@));
                                            assert forall |x: Seq<char>| #[trigger]
                                                seq_contains_str(found_before, x) implies
                                                seq_contains_str(found.deep_view(), x) by {
                                                let j = choose |j: int| 0 <= j
                                                    < found_before.len() && found_before[j] == x;
                                                assert(found.deep_view()[j] == x);
                                            }
                                            assert forall |x: Seq<char>| #[trigger]
                                                seq_contains_str(todo_before2, x) implies
                                                seq_contains_str(todo.deep_view(), x) by {
                                                let j = choose |j: int| 0 <= j
                                                    < todo_before2.len() && todo_before2[j] == x;
                                                assert(todo.deep_view()[j] == x);
                                            }
                                            assert forall |x: Seq<char>| #[trigger]
                                                seq_contains_str(found.deep_view(), x) implies x
                                                == u@ || seq_contains_str(found_before, x) by {
                                                let j = choose |j: int| 0 <= j
                                                    < found.deep_view().len()
                                                    && found.deep_view()[j] == x;
                                                if j < found_before.len() {
                                                    assert(found_before[j] == x);
                                                }
                                            }
                                        }
                                    }
                                },
                                Option::None => {},
                            }
                        }
                        k = k + 1;
                    }
                    proof {
                        assert forall |x: Seq<char>, u: Seq<char>|
                            seq_contains_str(expanded.deep_view(), x) && #[trigger] edge(
                                iv,
                                x,
                                u,
                                only,
                            ) implies seq_contains_str(found.deep_view(), u) by {
                            if x == a@ {
                                let j = choose |j: int|
                                    0 <= j < input_fields(iv, a@).len()
                                    && (!only || !indirected(input_fields(iv, a@)[j].type_))
                                    && inner_name(input_fields(iv, a@)[j].type_) == u;
                                assert(has_input(iv, u));
                                assert(seq_contains_str(
                                    found.deep_view(),
                                    inner_name(iv[ix as int].fields[j].type_),
                                ));
                            }
                        }
                    }
                },
                Option::None => {
                    proof {
                        if a@ == start@ {
                            assert(false);
                        } else {
                            assert(seq_contains_str(found.deep_view(), a@));
                            let j = choose |j: int| 0 <= j < found.deep_view().len()
                                && found.deep_view()[j] == a@;
                            assert(has_input(iv, found.deep_view()[j]));
                            assert(false);
                        }
                    }
                },
            }
        }
    }
    proof {
        assert forall |u: Seq<char>| seq_contains_str(found.deep_view(), u) implies reaches_any(
            iv,
            start@,
            u,
            only,
        ) by {
            let k = choose |k: int| 0 <= k < found.deep_view().len() && found.deep_view()[k]
                == u;
            assert(reaches_any(iv, start@, found.deep_view()[k], only));
        }
        assert forall |u: Seq<char>| reaches_any(iv, start@, u, only) implies seq_contains_str(
            found.deep_view(),
            u,
        ) by {
            let fuel = choose |fuel: nat| reaches(iv, start@, u, only, fuel);
            assert forall |x: Seq<char>, w: Seq<char>|
                (x == start@ || seq_contains_str(found.deep_view(), x)) && #[trigger] edge(
                    iv,
                    x,
                    w,
                    only,
                ) implies seq_contains_str(found.deep_view(), w) by {
                assert(seq_contains_str(expanded.deep_view(), x));
            }
            lemma_closed_absorbs(iv, start@, found.deep_view(), start@, u, only, fuel);
        }
    }
    found
}

/// Finds the input object with the given name: its index when one exists,
/// nothing when the name belongs to no input object.
pub fn find_input(inputs: &Vec<GqlInput>, name: &str) -> (r: Option<usize>)
    ensures
        match r {
            Option::Some(ix) => ix < inputs@.len() && inputs_view(inputs@)[ix as int].name
                == name@,
            Option::None => !has_input(inputs_view(inputs@), name@),
        },
{
    let mut i: usize = 0;
    while i < inputs.len()
        invariant
            i <= inputs@.len(),
            forall |k: int| 0 <= k < i ==> inputs_view(inputs@)[k].name != name@,
        decreases inputs@.len() - i,
    {
        if str_eq(inputs[i].name.as_str(), name) {
            proof {
                assert(inputs_view(inputs@)[i as int].name == name@);
            }
            return Option::Some(i);
        }
        i = i + 1;
    }
    Option::None
}

/// The schema model: the named input object types, the configured root
/// operation type names, and the table of reachability marks.
pub struct Schema {
    pub inputs: Vec<GqlInput>,
    pub query_type: Option<String>,
    pub mutation_type: Option<String>,
    pub subscription_type: Option<String>,
    pub required: Vec<String>,
}

/// The mathematical value of a [`Schema`].
pub struct SchemaView {
    pub inputs: Seq<GqlInputView>,
    pub query_type: Option<Seq<char>>,
    pub mutation_type: Option<Seq<char>>,
    pub subscription_type: Option<Seq<char>>,
    pub required: Seq<Seq<char>>,
}

impl View for Schema {
    type V = SchemaView;

    open spec fn view(&self) -> SchemaView {
        SchemaView {
            inputs: inputs_view(self.inputs@),
            query_type: opt_view(self.query_type),
            mutation_type: opt_view(self.mutation_type),
            subscription_type: opt_view(self.subscription_type),
            required: self.required.deep_view(),
        }
    }
}

/// Well-formedness of a schema: input names are pairwise distinct, and the
/// reachability marks form a duplicate-free table of input names that is
/// closed under the input-object reference graph.
pub open spec fn schema_wf(s: SchemaView) -> bool {
    &&& unique_names(s.inputs)
    &&& s.required.no_duplicates()
    &&& forall |k: int| 0 <= k < s.required.len() ==> has_input(s.inputs, #[trigger] s.required[k])
    &&& forall |k: int, u: Seq<char>|
        0 <= k < s.required.len() && #[trigger] edge(s.inputs, s.required[k], u, false)
            ==> seq_contains_str(s.required, u)
}

impl Schema {
    /// Well-formedness of this schema.
    pub open spec fn wf(&self) -> bool {
        schema_wf(self@)
    }

    /// An empty schema with default root type names and nothing marked
    /// required.
    pub fn new() -> (r: Schema)
        ensures
            r.wf(),
            r@.inputs == Seq::<GqlInputView>::empty(),
            r@.query_type is None,
            r@.mutation_type is None,
            r@.subscription_type is None,
            r@.required == Seq::<Seq<char>>::empty(),
    {
        let r = Schema {
            inputs: Vec::new(),
            query_type: Option::None,
            mutation_type: Option::None,
            subscription_type: Option::None,
            required: Vec::new(),
        };
        proof {
            assert(r@.inputs =~= Seq::<GqlInputView>::empty());
            assert(r@.required =~= Seq::<Seq<char>>::empty());
        }
        r
    }

    /// Adds one input object definition while the schema is being built,
    /// before any reachability mark is set.
    pub fn add_input(&mut self, input: GqlInput)
        requires
            old(self).wf(),
            old(self)@.required.len() == 0,
            !has_input(old(self)@.inputs, input@.name),
        ensures
            final(self).wf(),
            final(self)@.required.len() == 0,
            final(self)@.inputs == old(self)@.inputs.push(input@),
            final(self)@.query_type == old(self)@.query_type,
            final(self)@.mutation_type == old(self)@.mutation_type,
            final(self)@.subscription_type == old(self)@.subscription_type,
    {
        self.inputs.push(input);
        proof {
            assert(final(self)@.inputs =~= old(self)@.inputs.push(final(self).inputs@.last()@));
        }
    }

    /// Configures the root type name for queries.
    pub fn set_query_type(&mut self, name: Option<String>)
        requires
            old(self).wf(),
        ensures
            final(self).wf(),
            final(self)@ == (SchemaView { query_type: opt_view(name), ..old(self)@ }),
    {
        self.query_type = name;
    }

    /// Configures the root type name for mutations.
    pub fn set_mutation_type(&mut self, name: Option<String>)
        requires
            old(self).wf(),
        ensures
            final(self).wf(),
            final(self)@ == (SchemaView { mutation_type: opt_view(name), ..old(self)@ }),
    {
        self.mutation_type = name;
    }

    /// Configures the root type name for subscriptions.
    pub fn set_subscription_type(&mut self, name: Option<String>)
        requires
            old(self).wf(),
        ensures
            final(self).wf(),
            final(self)@ == (SchemaView { subscription_type: opt_view(name), ..old(self)@ }),
    {
        self.subscription_type = name;
    }

    /// Marks the named type, and every input object reachable from it
    /// through input-object fields, as required.  Idempotent and monotonic;
    /// a name that belongs to no input object is left alone by design, since
    /// scalars and enums need no reachability tracking.
    pub fn require(&mut self, name: &str)
        requires
            old(self).wf(),
        ensures
            final(self).wf(),
            final(self)@.inputs == old(self)@.inputs,
            final(self)@.query_type == old(self)@.query_type,
            final(self)@.mutation_type == old(self)@.mutation_type,
            final(self)@.subscription_type == old(self)@.subscription_type,
            forall |n: Seq<char>| seq_contains_str(final(self)@.required, n) <==> {
                ||| seq_contains_str(old(self)@.required, n)
                ||| (has_input(old(self)@.inputs, name@) && (n == name@ || reaches_any(
                    old(self)@.inputs,
                    name@,
                    n,
                    false,
                )))
            },
    {
        let ghost iv = self@.inputs;
        let ghost req0 = self@.required;
        let ghost qt0 = self@.query_type;
        let ghost mt0 = self@.mutation_type;
        let ghost st0 = self@.subscription_type;
        match find_input(&self.inputs, name) {
            Option::None => {},
            Option::Some(ix) => {
                proof {
                    assert(iv[ix as int].name == name@);
                    assert(has_input(iv, name@));
                }
                let reach = reachable_inputs(&self.inputs, name, false);
                if !contains_name(&self.required, name) {
                    let ghost before = self.required.deep_view();
                    self.required.push(name.to_owned());
                    proof {
                        assert(self.required.deep_view() =~= before.push(name@));
                        assert(self.required.deep_view()[before.len() as int] == name@);
                        lemma_push_no_duplicates(before, name@);
                        assert forall |x: Seq<char>| #[trigger] seq_contains_str(
                            self.required.deep_view(),
                            x,
                        ) implies x == name@ || seq_contains_str(before, x) by {
                            let j = choose |j: int| 0 <= j < self.required.deep_view().len()
                                && self.required.deep_view()[j] == x;
                            if j < before.len() {
                                assert(before[j] == x);
                            }
                        }
                        assert forall |x: Seq<char>| #[trigger] seq_contains_str(before, x)
                            implies seq_contains_str(self.required.deep_view(), x) by {
                            let j = choose |j: int| 0 <= j < before.len() && before[j] == x;
                            assert(self.required.deep_view()[j] == x);
                        }
                    }
                }
                let ghost req1 = self.required.deep_view();
                proof {
                    assert forall |n: Seq<char>| #[trigger] seq_contains_str(req1, n) implies
                        seq_contains_str(req0, n) || n == name@ by {}
                    assert(seq_contains_str(req1, name@));
                }
                let mut j: usize = 0;
                while j < reach.len()
                    invariant
                        iv == self@.inputs,
                        unique_names(iv),
                        has_input(iv, name@),
                        j <= reach@.len(),
                        self@.query_type == qt0,
                        self@.mutation_type == mt0,
                        self@.subscription_type == st0,
                        self.required.deep_view().no_duplicates(),
                        forall |k: int| 0 <= k < self.required.deep_view().len() ==> has_input(
                            iv,
                            #[trigger] self.required.deep_view()[k],
                        ),
                        forall |u: Seq<char>| seq_contains_str(reach.deep_view(), u)
                            <==> reaches_any(iv, name@, u, false),
                        forall |n: Seq<char>| #[trigger] seq_contains_str(
                            self.required.deep_view(),
                            n,
                        ) <==> (seq_contains_str(req1, n) || (exists |jj: int|
                            0 <= jj < j && reach.deep_view()[jj] == n)),
                        forall |k: int| 0 <= k < req1.len() ==> has_input(
                            iv,
                            #[trigger] req1[k],
                        ),
                        req1.no_duplicates(),
                    decreases reach@.len() - j,
                {
                    let ghost top = self.required.deep_view();
                    if !contains_name(&self.required, reach[j].as_str()) {
                        let ghost before = self.required.deep_view();
                        let nm = reach[j].clone();
                        proof {
                            assert(reach.deep_view()[j as int] == nm@);
                            assert(seq_contains_str(reach.deep_view(), nm@));
                            assert(reaches_any(iv, name@, nm@, false));
                            let fuel = choose |fuel: nat| reaches(iv, name@, nm@, false, fuel);
                            lemma_reaches_has_input(iv, name@, nm@, false, fuel);
                            lemma_push_no_duplicates(before, nm@);
                        }
                        self.required.push(nm);
                        proof {
                            assert(self.required.deep_view() =~= before.push(
                                reach.deep_view()[j as int],
                            ));
                            assert(self.required.deep_view()[before.len() as int]
                                == reach.deep_view()[j as int]);
                            assert forall |x: Seq<char>| #[trigger] seq_contains_str(
                                self.required.deep_view(),
                                x,
                            ) implies x == reach.deep_view()[j as int] || seq_contains_str(
                                before,
                                x,
                            ) by {
                                let jj = choose |jj: int| 0 <= jj
                                    < self.required.deep_view().len()
                                    && self.required.deep_view()[jj] == x;
                                if jj < before.len() {
                                    assert(before[jj] == x);
                                }
                            }
                            assert forall |x: Seq<char>| #[trigger] seq_contains_str(before, x)
                                implies seq_contains_str(self.required.deep_view(), x) by {
                                let jj = choose |jj: int| 0 <= jj < before.len() && before[jj]
                                    == x;
                                assert(self.required.deep_view()[jj] == x);
                            }
                        }
                    } else {
                        proof {
                            assert(reach.deep_view()[j as int] == reach@[j as int]@);
                            assert(seq_contains_str(top, reach.deep_view()[j as int]));
                        }
                    }
                    proof {
                        assert(seq_contains_str(
                            self.required.deep_view(),
                            reach.deep_view()[j as int],
                        ));
                        assert forall |n: Seq<char>| #[trigger] seq_contains_str(
                            self.required.deep_view(),
                            n,
                        ) <==> (seq_contains_str(req1, n) || (exists |jj: int|
                            0 <= jj < j + 1 && reach.deep_view()[jj] == n)) by {
                            if seq_contains_str(self.required.deep_view(), n) {
                                if seq_contains_str(top, n) {
                                    if !seq_contains_str(req1, n) {
                                        let jj = choose |jj: int| 0 <= jj < j
                                            && reach.deep_view()[jj] == n;
                                        assert(0 <= jj < j + 1 && reach.deep_view()[jj] == n);
                                    }
                                } else {
                                    assert(n == reach.deep_view()[j as int]);
                                    assert(0 <= j < j + 1 && reach.deep_view()[j as int] == n);
                                }
                            }
                            if seq_contains_str(req1, n) {
                                assert(seq_contains_str(top, n));
                                assert(seq_contains_str(self.required.deep_view(), n));
                            } else if exists |jj: int| 0 <= jj < j + 1 && reach.deep_view()[jj]
                                == n {
                                let jj = choose |jj: int| 0 <= jj < j + 1
                                    && reach.deep_view()[jj] == n;
                                if jj < j {
                                    assert(seq_contains_str(top, n));
                                    assert(seq_contains_str(self.required.deep_view(), n));
                                } else {
                                    assert(n == reach.deep_view()[j as int]);
                                    assert(seq_contains_str(self.required.deep_view(), n));
                                }
                            }
                        }
                    }
                    j = j + 1;
                }
                proof {
                    assert forall |n: Seq<char>| #[trigger] seq_contains_str(
                        self.required.deep_view(),
                        n,
                    ) <==> (seq_contains_str(req0, n) || n == name@ || reaches_any(
                        iv,
                        name@,
                        n,
                        false,
                    )) by {
                        if seq_contains_str(reach.deep_view(), n) {
                            assert(reaches_any(iv, name@, n, false));
                        }
                        if reaches_any(iv, name@, n, false) {
                            assert(seq_contains_str(reach.deep_view(), n));
                            let jj = choose |jj: int| 0 <= jj < reach.deep_view().len()
                                && reach.deep_view()[jj] == n;
                            assert(0 <= jj < reach@.len() && reach.deep_view()[jj] == n);
                        }
                    }
                    assert(final(self).wf()) by {
                        assert forall |k: int, u: Seq<char>|
                            0 <= k < self.required.deep_view().len() && #[trigger] edge(
                                iv,
                                self.required.deep_view()[k],
                                u,
                                false,
                            ) implies seq_contains_str(self.required.deep_view(), u) by {
                            let n = self.required.deep_view()[k];
                            assert(seq_contains_str(self.required.deep_view(), n));
                            if seq_contains_str(req0, n) {
                                let kk = choose |kk: int| 0 <= kk < req0.len() && req0[kk] == n;
                                assert(edge(iv, req0[kk], u, false));
                                assert(seq_contains_str(req0, u));
                            } else if n == name@ {
                                assert(reaches(iv, name@, u, false, 1));
                                assert(reaches_any(iv, name@, u, false));
                            } else {
                                let fuel = choose |fuel: nat| reaches(
                                    iv,
                                    name@,
                                    n,
                                    false,
                                    fuel,
                                );
                                lemma_reaches_extend(iv, name@, n, u, false, fuel);
                                assert(reaches_any(iv, name@, u, false));
                            }
                        }
                    }
                }
            },
        }
    }

    /// Whether the named type is marked required.
    pub fn is_required(&self, name: &str) -> (r: bool)
        ensures
            r == seq_contains_str(self@.required, name@),
    {
        contains_name(&self.required, name)
    }

    /// The input object with the given name, when the schema holds one.
    pub fn get_input(&self, name: &str) -> (r: Option<&GqlInput>)
        requires
            self.wf(),
        ensures
            match r {
                Option::Some(input) => has_input(self@.inputs, name@) && input@
                    == self@.inputs[input_index(self@.inputs, name@)],
                Option::None => !has_input(self@.inputs, name@),
            },
    {
        match find_input(&self.inputs, name) {
            Option::Some(ix) => {
                proof {
                    lemma_input_index(self@.inputs, ix as int);
                }
                Option::Some(&self.inputs[ix])
            },
            Option::None => Option::None,
        }
    }
}

} // verus!
