//! Compiled plans are made of documents in which no key occurs twice, at any
//! depth: each can be held by a map from keys to values without loss.

use vstd::prelude::*;
use crate::filter::{
    case_insensitive, is_bare, native_key, operand_of, operator_named, operators_doc, scalars_of,
    where_doc, where_entry, where_input, Operator,
};
use crate::json::{json_depth, lemma_member_depth, lemma_member_shallower, member, members_depth, Json};
use crate::native::{
    doc_insert, doc_keys, doc_keys_distinct, doc_position, lemma_doc_insert_distinct, sub_array,
    sub_document, DocumentView, NativeView,
};
use crate::query::{
    assembled, bindings, columns_of, conditions, correlated, count_of, direct_lookup, embedded,
    equality, field_path, junction_lookup, lookup_fold, lookup_stage, lookups_of, match_all_stage,
    match_position, match_stages, optional_depth, paging_stages, pipeline_of, replace_root_stage,
    single, unwind_stage, with_conditions, QueryPipelineType,
};
use crate::scalar::scalar_of;
use crate::schema::{FieldType, Graph, Model, Relation};
use crate::text::{lemma_index_of_first, strings_view};
use crate::value::{document_of, encode, encode_entries, encode_items, representable, ValueView};

verus! {

/// Whether no document in `n`, at any depth, has two entries under one key.
pub open spec fn well_keyed(n: NativeView) -> bool
    decreases n,
{
    match n {
        NativeView::Array(items) => forall|i: int|
            0 <= i < items.len() ==> well_keyed(#[trigger] items[i]),
        NativeView::Document(d) => doc_keys_distinct(d) && forall|i: int|
            0 <= i < d.len() ==> well_keyed((#[trigger] d[i]).1),
        _ => true,
    }
}

/// Whether no document in any of `stages` has two entries under one key.
pub open spec fn stages_well_keyed(stages: Seq<DocumentView>) -> bool {
    forall|i: int| 0 <= i < stages.len() ==> well_keyed(NativeView::Document(#[trigger] stages[i]))
}

/// An array is well keyed exactly when each of its items is.
pub proof fn lemma_array_well_keyed(items: Seq<NativeView>)
    ensures
        well_keyed(NativeView::Array(items)) <==> (forall|j: int|
            0 <= j < items.len() ==> well_keyed(#[trigger] items[j])),
{
    let n = NativeView::Array(items);
    assert(n->Array_0 == items);
}

/// Putting a well-keyed value into a well-keyed document leaves it well keyed.
pub proof fn lemma_insert_well_keyed(d: DocumentView, key: Seq<char>, value: NativeView)
    requires
        well_keyed(NativeView::Document(d)),
        well_keyed(value),
    ensures
        well_keyed(NativeView::Document(doc_insert(d, key, value))),
{
    lemma_doc_insert_distinct(d, key, value);
    lemma_index_of_first(doc_keys(d), key);
    let r = doc_insert(d, key, value);
    assert forall|i: int| 0 <= i < r.len() implies well_keyed((#[trigger] r[i]).1) by {
        if i < d.len() && i != doc_position(d, key) {
            assert(r[i] == d[i]);
        }
    }
}

/// A document with one well-keyed entry is well keyed.
pub proof fn lemma_single_well_keyed(key: Seq<char>, value: NativeView)
    requires
        well_keyed(value),
    ensures
        well_keyed(NativeView::Document(single(key, value))),
{
}

/// What is taken out of a well-keyed document is well keyed.
pub proof fn lemma_parts_well_keyed(d: DocumentView, key: Seq<char>)
    requires
        well_keyed(NativeView::Document(d)),
    ensures
        well_keyed(NativeView::Document(sub_document(d, key))),
        well_keyed(NativeView::Array(sub_array(d, key))),
{
    lemma_index_of_first(doc_keys(d), key);
    let i = doc_position(d, key);
    if i < d.len() {
        assert(well_keyed(d[i].1));
    }
}

/// The document made of well-keyed entries is well keyed.
pub proof fn lemma_document_of_well_keyed(entries: DocumentView, n: nat)
    requires
        n <= entries.len(),
        forall|i: int| 0 <= i < entries.len() ==> well_keyed((#[trigger] entries[i]).1),
    ensures
        well_keyed(NativeView::Document(document_of(entries, n))),
    decreases n,
{
    if n > 0 {
        lemma_document_of_well_keyed(entries, (n - 1) as nat);
        lemma_insert_well_keyed(
            document_of(entries, (n - 1) as nat),
            entries[n - 1].0,
            entries[n - 1].1,
        );
    }
}

/// The conditions of a join are well keyed.
pub proof fn lemma_conditions_well_keyed(columns: Seq<Seq<char>>, names: Seq<Seq<char>>)
    ensures
        well_keyed(NativeView::Array(conditions(columns, names))),
{
    assert forall|i: int| 0 <= i < conditions(columns, names).len() implies well_keyed(
        #[trigger] conditions(columns, names)[i],
    ) by {
        lemma_equality_well_keyed(columns[i], names[i]);
    }
}

/// One condition of a join is well keyed.
pub proof fn lemma_equality_well_keyed(column: Seq<char>, name: Seq<char>)
    ensures
        well_keyed(equality(column, name)),
{
    let sides = equality(column, name)->Document_0[0].1;
    assert(well_keyed(sides)) by {
        assert forall|i: int| 0 <= i < sides->Array_0.len() implies well_keyed(
            #[trigger] sides->Array_0[i],
        ) by {}
    }
}

/// The variables that a lookup binds are well keyed.
pub proof fn lemma_bindings_well_keyed(names: Seq<Seq<char>>, columns: Seq<Seq<char>>)
    ensures
        well_keyed(NativeView::Document(bindings(names, columns))),
{
    let entries = Seq::new(
        names.len(),
        |i: int| (names[i], NativeView::String(field_path(columns[i]))),
    );
    lemma_document_of_well_keyed(entries, names.len());
}

/// A stage that asks for conditions is well keyed where the conditions are.
pub proof fn lemma_match_all_well_keyed(conds: Seq<NativeView>)
    requires
        well_keyed(NativeView::Array(conds)),
    ensures
        well_keyed(NativeView::Document(match_all_stage(conds))),
{
    lemma_single_well_keyed("$and"@, NativeView::Array(conds));
    lemma_single_well_keyed(
        "$expr"@,
        NativeView::Document(single("$and"@, NativeView::Array(conds))),
    );
    lemma_single_well_keyed(
        "$match"@,
        NativeView::Document(
            single("$expr"@, NativeView::Document(single("$and"@, NativeView::Array(conds)))),
        ),
    );
}

/// Adding well-keyed conditions to a well-keyed stage leaves it well keyed.
pub proof fn lemma_with_conditions_well_keyed(stage: DocumentView, conds: Seq<NativeView>)
    requires
        well_keyed(NativeView::Document(stage)),
        well_keyed(NativeView::Array(conds)),
    ensures
        well_keyed(NativeView::Document(with_conditions(stage, conds))),
{
    let body = sub_document(stage, "$match"@);
    let expr = sub_document(body, "$expr"@);
    let old = sub_array(expr, "$and"@);
    let all = old + conds;
    lemma_parts_well_keyed(stage, "$match"@);
    lemma_parts_well_keyed(body, "$expr"@);
    lemma_parts_well_keyed(expr, "$and"@);
    assert(well_keyed(NativeView::Array(all))) by {
        lemma_array_well_keyed(old);
        lemma_array_well_keyed(conds);
        lemma_array_well_keyed(all);
        assert forall|i: int| 0 <= i < all.len() implies well_keyed(#[trigger] all[i]) by {
            if i < old.len() {
                assert(all[i] == old[i]);
            } else {
                let j = i - old.len();
                assert(all[i] == conds[j]);
            }
        }
    }
    lemma_insert_well_keyed(expr, "$and"@, NativeView::Array(all));
    let expr2 = doc_insert(expr, "$and"@, NativeView::Array(all));
    lemma_insert_well_keyed(body, "$expr"@, NativeView::Document(expr2));
    let body2 = doc_insert(body, "$expr"@, NativeView::Document(expr2));
    lemma_insert_well_keyed(stage, "$match"@, NativeView::Document(body2));
}

/// Joining a well-keyed pipeline to the outer document by well-keyed
/// conditions leaves it well keyed.
pub proof fn lemma_correlated_well_keyed(stages: Seq<DocumentView>, conds: Seq<NativeView>)
    requires
        stages_well_keyed(stages),
        well_keyed(NativeView::Array(conds)),
    ensures
        stages_well_keyed(correlated(stages, conds)),
{
    let at = match_position(stages);
    let out = correlated(stages, conds);
    if at < stages.len() {
        lemma_match_position_bounds(stages);
        lemma_with_conditions_well_keyed(stages[at], conds);
        assert forall|i: int| 0 <= i < out.len() implies well_keyed(
            NativeView::Document(#[trigger] out[i]),
        ) by {
            if i != at {
                assert(out[i] == stages[i]);
            }
        }
    } else {
        let empty = single("$match"@, NativeView::Document(Seq::empty()));
        lemma_single_well_keyed("$match"@, NativeView::Document(Seq::empty()));
        lemma_with_conditions_well_keyed(empty, conds);
        assert forall|i: int| 0 <= i < out.len() implies well_keyed(
            NativeView::Document(#[trigger] out[i]),
        ) by {
            if i > 0 {
                assert(out[i] == stages[i - 1]);
            }
        }
    }
}

/// The place of the first match stage is not negative.
pub proof fn lemma_match_position_bounds(stages: Seq<DocumentView>)
    ensures
        0 <= match_position(stages) <= stages.len(),
    decreases stages.len(),
{
    if stages.len() > 0 {
        lemma_match_position_bounds(stages.drop_first());
    }
}

/// A lookup stage is well keyed where its variables and its pipeline are.
pub proof fn lemma_lookup_stage_well_keyed(
    from: Seq<char>,
    name: Seq<char>,
    lets: DocumentView,
    pipeline: Seq<DocumentView>,
)
    requires
        well_keyed(NativeView::Document(lets)),
        stages_well_keyed(pipeline),
    ensures
        well_keyed(NativeView::Document(lookup_stage(from, name, lets, pipeline))),
{
    reveal_strlit("from");
    reveal_strlit("as");
    reveal_strlit("let");
    reveal_strlit("pipeline");
    let body = lookup_stage(from, name, lets, pipeline)[0].1->Document_0;
    assert("from"@[0] == 'f' && "as"@[0] == 'a' && "let"@[0] == 'l' && "pipeline"@[0] == 'p');
    assert(doc_keys_distinct(body));
    assert(well_keyed(body[3].1)) by {
        assert forall|i: int| 0 <= i < embedded(pipeline).len() implies well_keyed(
            #[trigger] embedded(pipeline)[i],
        ) by {
            assert(well_keyed(NativeView::Document(pipeline[i])));
        }
    }
    assert forall|i: int| 0 <= i < body.len() implies well_keyed((#[trigger] body[i]).1) by {
        if i == 0 {
            assert(body[i].1 is String);
        } else if i == 1 {
            assert(body[i].1 is String);
        } else if i == 2 {
            assert(body[i].1 == NativeView::Document(lets));
        }
    }
    assert(well_keyed(NativeView::Document(body)));
}

/// The lookup stage of a direct relation is well keyed where the nested
/// pipeline is.
pub proof fn lemma_direct_lookup_well_keyed(
    owner: Model,
    graph: Graph,
    relation: Relation,
    key: Seq<char>,
    nested: Seq<DocumentView>,
)
    requires
        stages_well_keyed(nested),
    ensures
        well_keyed(NativeView::Document(direct_lookup(owner, graph, relation, key, nested))),
{
    let target = graph.spec_model(relation.model@);
    let names = strings_view(relation.references@);
    let conds = conditions(columns_of(target, relation.references@), names);
    lemma_conditions_well_keyed(columns_of(target, relation.references@), names);
    lemma_correlated_well_keyed(nested, conds);
    lemma_bindings_well_keyed(names, columns_of(owner, relation.fields@));
    lemma_lookup_stage_well_keyed(
        target.table_name@,
        key,
        bindings(names, columns_of(owner, relation.fields@)),
        correlated(nested, conds),
    );
}

/// The lookup stage of a relation through a junction model is well keyed.
pub proof fn lemma_junction_lookup_well_keyed(owner: Model, graph: Graph, relation: Relation)
    ensures
        well_keyed(NativeView::Document(junction_lookup(owner, graph, relation))),
{
    let junction = graph.spec_model(relation.through->0@);
    let local = junction.spec_relation(relation.fields@[0]@)->0;
    let foreign = junction.spec_relation(relation.references@[0]@)->0;
    let target = graph.spec_model(foreign.model@);
    let name = relation.name@;
    let local_fields = strings_view(local.fields@);
    let foreign_fields = strings_view(foreign.fields@);
    let target_columns = columns_of(target, foreign.references@);
    let owner_columns = columns_of(owner, local.references@);
    lemma_conditions_well_keyed(target_columns, foreign_fields);
    lemma_match_all_well_keyed(conditions(target_columns, foreign_fields));
    lemma_bindings_well_keyed(foreign_fields, foreign_fields);
    let inner_pipeline = seq![match_all_stage(conditions(target_columns, foreign_fields))];
    lemma_lookup_stage_well_keyed(
        target.table_name@,
        name,
        bindings(foreign_fields, foreign_fields),
        inner_pipeline,
    );
    lemma_conditions_well_keyed(local_fields, local_fields);
    lemma_match_all_well_keyed(conditions(local_fields, local_fields));
    lemma_single_well_keyed("path"@, NativeView::String(field_path(name)));
    lemma_single_well_keyed(
        "$unwind"@,
        NativeView::Document(single("path"@, NativeView::String(field_path(name)))),
    );
    lemma_single_well_keyed("newRoot"@, NativeView::String(field_path(name)));
    lemma_single_well_keyed(
        "$replaceRoot"@,
        NativeView::Document(
            single("newRoot"@, NativeView::String(field_path(name))),
        ),
    );
    let outer_pipeline = seq![
        match_all_stage(conditions(local_fields, local_fields)),
        lookup_stage(
            target.table_name@,
            name,
            bindings(foreign_fields, foreign_fields),
            inner_pipeline,
        ),
        unwind_stage(name),
        replace_root_stage(name),
    ];
    lemma_bindings_well_keyed(local_fields, owner_columns);
    lemma_lookup_stage_well_keyed(
        junction.table_name@,
        name,
        bindings(local_fields, owner_columns),
        outer_pipeline,
    );
}

/// A parsed scalar is well keyed: it holds no document.
pub proof fn lemma_scalar_well_keyed(t: FieldType, v: Json, graph: Graph)
    requires
        scalar_of(t, v, graph) is Ok,
    ensures
        well_keyed(scalar_of(t, v, graph)->Ok_0),
{
}

/// Parsed scalars are well keyed.
pub proof fn lemma_scalars_well_keyed(t: FieldType, items: Seq<Json>, graph: Graph, n: nat)
    requires
        scalars_of(t, items, graph, n) is Ok,
    ensures
        well_keyed(NativeView::Array(scalars_of(t, items, graph, n)->Ok_0)),
    decreases n,
{
    if n == 0 || n > items.len() {
    } else {
        lemma_scalars_well_keyed(t, items, graph, (n - 1) as nat);
        lemma_scalar_well_keyed(t, items[n - 1], graph);
        let before = scalars_of(t, items, graph, (n - 1) as nat)->Ok_0;
        let after = scalars_of(t, items, graph, n)->Ok_0;
        let last = scalar_of(t, items[n - 1], graph)->Ok_0;
        assert(after == before.push(last));
        lemma_array_well_keyed(before);
        lemma_array_well_keyed(after);
        assert forall|i: int| 0 <= i < after.len() implies well_keyed(#[trigger] after[i]) by {
            if i < before.len() {
                assert(after[i] == before[i]);
            } else {
                assert(after[i] == last);
            }
        }
    }
}

/// The document of an object of operators is well keyed.
pub proof fn lemma_operators_well_keyed(
    t: FieldType,
    members: Seq<(String, Json)>,
    graph: Graph,
    n: nat,
)
    requires
        operators_doc(t, members, graph, n) is Ok,
    ensures
        well_keyed(NativeView::Document(operators_doc(t, members, graph, n)->Ok_0)),
    decreases n,
{
    if n == 0 || n > members.len() {
    } else {
        lemma_operators_well_keyed(t, members, graph, (n - 1) as nat);
        let before = operators_doc(t, members, graph, (n - 1) as nat)->Ok_0;
        match operator_named(t, members[n - 1].0@) {
            Some(Operator::Mode) => {},
            Some(op) => {
                let i_mode = case_insensitive(members);
                let x = operand_of(t, op, members[n - 1].1, i_mode, graph)->Ok_0;
                match op {
                    Operator::Equal | Operator::NotEqual | Operator::Greater
                    | Operator::GreaterOrEqual | Operator::Less | Operator::LessOrEqual => {
                        lemma_scalar_well_keyed(t, members[n - 1].1, graph);
                    },
                    Operator::AnyOf | Operator::NoneOf => {
                        let items = members[n - 1].1->Array_0@;
                        lemma_scalars_well_keyed(t, items, graph, items.len());
                    },
                    _ => {},
                }
                lemma_insert_well_keyed(before, native_key(op), x);
            },
            None => {},
        }
    }
}

/// The match document of a `where` object is well keyed.
pub proof fn lemma_where_doc_well_keyed(
    model: Model,
    graph: Graph,
    members: Seq<(String, Json)>,
    n: nat,
)
    requires
        where_doc(model, graph, members, n) is Ok,
    ensures
        well_keyed(NativeView::Document(where_doc(model, graph, members, n)->Ok_0)),
    decreases n,
{
    if n == 0 || n > members.len() {
    } else {
        lemma_where_doc_well_keyed(model, graph, members, (n - 1) as nat);
        let before = where_doc(model, graph, members, (n - 1) as nat)->Ok_0;
        let field = model.spec_field(members[n - 1].0@)->0;
        let value = members[n - 1].1;
        let x = where_entry(field.field_type, value, graph)->Ok_0;
        if is_bare(field.field_type, value) {
            lemma_scalar_well_keyed(field.field_type, value, graph);
        } else {
            let inner = value->Object_0@;
            lemma_operators_well_keyed(field.field_type, inner, graph, inner.len());
        }
        lemma_insert_well_keyed(before, field.spec_column_name(), x);
    }
}

/// Every stage of a compiled pipeline is well keyed.
pub proof fn lemma_pipeline_well_keyed(
    model: Model,
    graph: Graph,
    kind: QueryPipelineType,
    mutation_mode: bool,
    query: Json,
)
    requires
        pipeline_of(model, graph, kind, mutation_mode, query) is Ok,
    ensures
        stages_well_keyed(pipeline_of(model, graph, kind, mutation_mode, query)->Ok_0),
    decreases json_depth(query), 1nat, 0nat,
{
    let q = query->Object_0;
    let inclusion = if mutation_mode {
        None
    } else {
        member(q@, "include"@)
    };
    if inclusion is Some {
        lemma_member_shallower(query, "include"@);
    }
    lemma_assembled_well_keyed(
        model,
        graph,
        kind,
        mutation_mode,
        member(q@, "where"@),
        count_of(member(q@, "take"@)),
        count_of(member(q@, "skip"@)),
        count_of(member(q@, "pageSize"@)),
        count_of(member(q@, "pageNumber"@)),
        inclusion,
    );
}

/// Every stage of an assembled pipeline is well keyed.
pub proof fn lemma_assembled_well_keyed(
    model: Model,
    graph: Graph,
    kind: QueryPipelineType,
    mutation_mode: bool,
    filter: Option<Json>,
    take: Option<usize>,
    skip: Option<usize>,
    page_size: Option<usize>,
    page_number: Option<usize>,
    inclusion: Option<Json>,
)
    requires
        assembled(
            model,
            graph,
            kind,
            mutation_mode,
            filter,
            take,
            skip,
            page_size,
            page_number,
            inclusion,
        ) is Ok,
    ensures
        stages_well_keyed(
            assembled(
                model,
                graph,
                kind,
                mutation_mode,
                filter,
                take,
                skip,
                page_size,
                page_number,
                inclusion,
            )->Ok_0,
        ),
    decreases optional_depth(inclusion), 0nat, 0nat,
{
    let body = where_input(model, graph, filter)->Ok_0;
    match filter {
        Some(Json::Object(members)) => {
            lemma_where_doc_well_keyed(model, graph, members@, members@.len());
        },
        _ => {},
    }
    let head = match_stages(body) + paging_stages(take, skip, page_size, page_number);
    assert(stages_well_keyed(match_stages(body)));
    assert(stages_well_keyed(paging_stages(take, skip, page_size, page_number))) by {
        let paging = paging_stages(take, skip, page_size, page_number);
        assert forall|i: int| 0 <= i < paging.len() implies well_keyed(
            NativeView::Document(#[trigger] paging[i]),
        ) by {
            let stage = paging[i];
            assert(stage.len() == 1 && stage[0].1 is Int64);
            assert(stage =~= single(stage[0].0, stage[0].1));
            lemma_single_well_keyed(stage[0].0, stage[0].1);
        }
    }
    assert(stages_well_keyed(head)) by {
        assert forall|i: int| 0 <= i < head.len() implies well_keyed(
            NativeView::Document(#[trigger] head[i]),
        ) by {
            if i < match_stages(body).len() {
                assert(head[i] == match_stages(body)[i]);
            } else {
                assert(head[i] == paging_stages(take, skip, page_size, page_number)[i
                    - match_stages(body).len()]);
            }
        }
    }
    match inclusion {
        None => {},
        Some(wanted) => {
            lemma_lookups_well_keyed(model, graph, kind, mutation_mode, wanted);
            let lookups = lookups_of(model, graph, kind, mutation_mode, wanted)->Ok_0;
            let all = head + lookups;
            assert forall|i: int| 0 <= i < all.len() implies well_keyed(
                NativeView::Document(#[trigger] all[i]),
            ) by {
                if i < head.len() {
                    assert(all[i] == head[i]);
                } else {
                    assert(all[i] == lookups[i - head.len()]);
                }
            }
        },
    }
}

/// Every lookup stage of an inclusion section is well keyed.
pub proof fn lemma_lookups_well_keyed(
    model: Model,
    graph: Graph,
    kind: QueryPipelineType,
    mutation_mode: bool,
    wanted: Json,
)
    requires
        lookups_of(model, graph, kind, mutation_mode, wanted) is Ok,
    ensures
        stages_well_keyed(lookups_of(model, graph, kind, mutation_mode, wanted)->Ok_0),
    decreases json_depth(wanted), 3nat, 0nat,
{
    let members = wanted->Object_0;
    lemma_lookup_fold_well_keyed(model, graph, kind, mutation_mode, members@, members@.len());
}

/// Every lookup stage of the first members of an inclusion section is well
/// keyed.
pub proof fn lemma_lookup_fold_well_keyed(
    model: Model,
    graph: Graph,
    kind: QueryPipelineType,
    mutation_mode: bool,
    members: Seq<(String, Json)>,
    n: nat,
)
    requires
        lookup_fold(model, graph, kind, mutation_mode, members, n) is Ok,
    ensures
        stages_well_keyed(lookup_fold(model, graph, kind, mutation_mode, members, n)->Ok_0),
    decreases 1 + members_depth(members, members.len()), 2nat, n,
{
    if n == 0 || n > members.len() {
    } else {
        lemma_lookup_fold_well_keyed(model, graph, kind, mutation_mode, members, (n - 1) as nat);
        let done = lookup_fold(model, graph, kind, mutation_mode, members, (n - 1) as nat)->Ok_0;
        let key = members[n - 1].0@;
        let value = members[n - 1].1;
        let relation = model.spec_relation(key)->0;
        let after = lookup_fold(model, graph, kind, mutation_mode, members, n)->Ok_0;
        if relation.through is None {
            let target = graph.spec_model(relation.model@);
            let nested = if value is Object {
                lemma_member_depth(members, members.len(), n - 1);
                lemma_pipeline_well_keyed(target, graph, kind, mutation_mode, value);
                pipeline_of(target, graph, kind, mutation_mode, value)->Ok_0
            } else {
                Seq::empty()
            };
            lemma_direct_lookup_well_keyed(model, graph, relation, key, nested);
        } else {
            lemma_junction_lookup_well_keyed(model, graph, relation);
        }
        assert forall|i: int| 0 <= i < after.len() implies well_keyed(
            NativeView::Document(#[trigger] after[i]),
        ) by {
            if i < done.len() {
                assert(after[i] == done[i]);
            }
        }
    }
}

/// The encoding of a representable value is well keyed.
pub proof fn lemma_encode_well_keyed(v: ValueView)
    requires
        representable(v),
    ensures
        well_keyed(encode(v)),
    decreases v,
{
    match v {
        ValueView::Vec(items) => {
            let natives = encode_items(items);
            lemma_array_well_keyed(natives);
            assert forall|i: int| 0 <= i < natives.len() implies well_keyed(
                #[trigger] natives[i],
            ) by {
                lemma_encode_well_keyed(items[i]);
            }
        },
        ValueView::Dictionary(entries) => {
            let pairs = encode_entries(entries);
            assert forall|i: int| 0 <= i < pairs.len() implies well_keyed(
                (#[trigger] pairs[i]).1,
            ) by {
                lemma_encode_well_keyed(entries[i].1);
            }
            lemma_document_of_well_keyed(pairs, pairs.len());
        },
        _ => {},
    }
}

} // verus!
