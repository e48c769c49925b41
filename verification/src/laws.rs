//! What holds of the compilers on all inputs.

use vstd::prelude::*;
use crate::error::ActionErrorView;
use crate::filter::{is_bare, is_ordered, native_key, operator_named, operators_doc, where_doc, where_entry, where_input, Operator};
use crate::json::{member, Json};
use crate::native::{
    doc_insert, doc_keys, doc_keys_distinct, doc_position, lemma_doc_insert_distinct, DocumentView,
    NativeView,
};
use crate::object_id::{is_written_object_id, lemma_object_id_bytes, lemma_object_id_text, object_id_bytes};
use crate::query::{assembled, bindings, columns_of, conditions, correlated, direct_lookup, lemma_lookup_fold_fails, lookup_fold, lookup_stage, lookups_of, match_all_stage, match_stages, no_relation_message, paging_stages, pipeline_of, single, with_conditions, QueryPipelineType};
use crate::scalar::scalar_of;
use crate::schema::{FieldType, Graph, Model, Relation};
use crate::text::strings_view;
use crate::text::{index_of, lemma_index_of, lemma_index_of_first, seq_has};
use crate::value::{decodable, decode, decode_entries, decode_items, document_of, encode, encode_entries, encode_items, representable, ValueView};

verus! {

/// A filter that gives one field a bare scalar compiles to one entry: the
/// parsed scalar, which stands for equality, under the field's storage
/// column, whatever the field's logical name.
pub proof fn lemma_scalar_filter_is_equality_on_column(
    model: Model,
    graph: Graph,
    members: Vec<(String, Json)>,
)
    requires
        members@.len() == 1,
        seq_has(model.query_keys@, members@[0].0@),
        model.spec_field(members@[0].0@) is Some,
        is_bare(model.spec_field(members@[0].0@)->0.field_type, members@[0].1),
    ensures
        where_input(model, graph, Some(Json::Object(members))) == match scalar_of(
            model.spec_field(members@[0].0@)->0.field_type,
            members@[0].1,
            graph,
        ) {
            Ok(x) => Ok::<DocumentView, ActionErrorView>(
                single(model.spec_field(members@[0].0@)->0.spec_column_name(), x),
            ),
            Err(e) => Err(e),
        },
{
    let field = model.spec_field(members@[0].0@)->0;
    assert(where_doc(model, graph, members@, 0) == Ok::<DocumentView, ActionErrorView>(
        Seq::empty(),
    ));
    match scalar_of(field.field_type, members@[0].1, graph) {
        Ok(x) => {
            let d = doc_insert(Seq::empty(), field.spec_column_name(), x);
            assert(d =~= single(field.spec_column_name(), x));
        },
        Err(_) => {},
    }
}

/// Whether `name` is one of the four comparison operators.
pub open spec fn is_comparison(name: Seq<char>) -> bool {
    name == "gt"@ || name == "gte"@ || name == "lt"@ || name == "lte"@
}

/// The native key of the comparison that `name` names: the native comparison
/// of the same sense.
pub open spec fn comparison_key(name: Seq<char>) -> Seq<char> {
    if name == "gt"@ {
        "$gt"@
    } else if name == "gte"@ {
        "$gte"@
    } else if name == "lt"@ {
        "$lt"@
    } else {
        "$lte"@
    }
}

/// On a field of an ordered type, a filter that names one comparison
/// compiles to one entry: the operand under the native comparison of the
/// same sense. Two filters that differ only in the comparison they name
/// compile to documents with different keys.
pub proof fn lemma_comparisons_differ(
    t: FieldType,
    graph: Graph,
    first: Vec<(String, Json)>,
    second: Vec<(String, Json)>,
)
    requires
        is_ordered(t),
        !(t is Decimal),
        first@.len() == 1,
        second@.len() == 1,
        is_comparison(first@[0].0@),
        is_comparison(second@[0].0@),
        first@[0].0@ != second@[0].0@,
        first@[0].1 == second@[0].1,
    ensures
        where_entry(t, Json::Object(first), graph) == match scalar_of(t, first@[0].1, graph) {
            Ok(x) => Ok::<NativeView, ActionErrorView>(
                NativeView::Document(single(comparison_key(first@[0].0@), x)),
            ),
            Err(e) => Err(e),
        },
        where_entry(t, Json::Object(second), graph) == match scalar_of(t, second@[0].1, graph) {
            Ok(x) => Ok::<NativeView, ActionErrorView>(
                NativeView::Document(single(comparison_key(second@[0].0@), x)),
            ),
            Err(e) => Err(e),
        },
        comparison_key(first@[0].0@) != comparison_key(second@[0].0@),
        scalar_of(t, first@[0].1, graph) is Ok ==> where_entry(t, Json::Object(first), graph)
            != where_entry(t, Json::Object(second), graph),
{
    reveal_strlit("gt");
    reveal_strlit("gte");
    reveal_strlit("lt");
    reveal_strlit("lte");
    reveal_strlit("equals");
    reveal_strlit("not");
    reveal_strlit("in");
    reveal_strlit("notIn");
    reveal_strlit("$gt");
    reveal_strlit("$gte");
    reveal_strlit("$lt");
    reveal_strlit("$lte");
    assert("equals"@[0] == 'e' && "not"@[0] == 'n' && "in"@[0] == 'i' && "notIn"@[0] == 'n');
    assert("gt"@[0] == 'g' && "gte"@[0] == 'g' && "lt"@[0] == 'l' && "lte"@[0] == 'l');
    assert("$gt"@[1] == 'g' && "$gte"@[1] == 'g' && "$lt"@[1] == 'l' && "$lte"@[1] == 'l');
    let a = first@[0].0@;
    let b = second@[0].0@;
    assert(a[0] == 'g' || a[0] == 'l');
    assert(b[0] == 'g' || b[0] == 'l');
    assert(operator_named(t, a) is Some && native_key(operator_named(t, a)->0) == comparison_key(a));
    assert(operator_named(t, b) is Some && native_key(operator_named(t, b)->0) == comparison_key(b));
    assert(!(operator_named(t, a)->0 is Mode) && !(operator_named(t, b)->0 is Mode));
    assert(comparison_key(a) != comparison_key(b)) by {
        if comparison_key(a).len() == comparison_key(b).len() {
            assert(comparison_key(a)[1] != comparison_key(b)[1]);
        }
    }
    assert(operators_doc(t, first@, graph, 0) == Ok::<DocumentView, ActionErrorView>(Seq::empty()));
    assert(operators_doc(t, second@, graph, 0) == Ok::<DocumentView, ActionErrorView>(
        Seq::empty(),
    ));
    match scalar_of(t, first@[0].1, graph) {
        Ok(x) => {
            assert(doc_insert(Seq::empty(), comparison_key(a), x) =~= single(
                comparison_key(a),
                x,
            ));
            assert(doc_insert(Seq::empty(), comparison_key(b), x) =~= single(
                comparison_key(b),
                x,
            ));
            assert(single(comparison_key(a), x)[0].0 != single(comparison_key(b), x)[0].0);
        },
        Err(_) => {},
    }
}

/// A filter that names `not` compiles to the negation of the equality that
/// `equals` compiles to: the same operand, under `$ne` in place of `$eq`.
pub proof fn lemma_not_negates_equals(
    t: FieldType,
    graph: Graph,
    with_equals: Vec<(String, Json)>,
    with_not: Vec<(String, Json)>,
)
    requires
        !(t is Decimal),
        with_equals@.len() == 1,
        with_not@.len() == 1,
        with_equals@[0].0@ == "equals"@,
        with_not@[0].0@ == "not"@,
        with_equals@[0].1 == with_not@[0].1,
    ensures
        where_entry(t, Json::Object(with_equals), graph) == match scalar_of(
            t,
            with_equals@[0].1,
            graph,
        ) {
            Ok(x) => Ok::<NativeView, ActionErrorView>(NativeView::Document(single("$eq"@, x))),
            Err(e) => Err(e),
        },
        where_entry(t, Json::Object(with_not), graph) == match scalar_of(t, with_not@[0].1, graph) {
            Ok(x) => Ok::<NativeView, ActionErrorView>(NativeView::Document(single("$ne"@, x))),
            Err(e) => Err(e),
        },
        "$eq"@ != "$ne"@,
{
    reveal_strlit("equals");
    reveal_strlit("not");
    reveal_strlit("$eq");
    reveal_strlit("$ne");
    assert("equals"@[0] == 'e' && "not"@[0] == 'n');
    assert("$eq"@[1] == 'e' && "$ne"@[1] == 'n');
    assert(operator_named(t, "equals"@) == Some(Operator::Equal));
    assert(operator_named(t, "not"@) == Some(Operator::NotEqual));
    assert(operators_doc(t, with_equals@, graph, 0) == Ok::<DocumentView, ActionErrorView>(
        Seq::empty(),
    ));
    assert(operators_doc(t, with_not@, graph, 0) == Ok::<DocumentView, ActionErrorView>(
        Seq::empty(),
    ));
    match scalar_of(t, with_equals@[0].1, graph) {
        Ok(x) => {
            assert(doc_insert(Seq::empty(), "$eq"@, x) =~= single("$eq"@, x));
            assert(doc_insert(Seq::empty(), "$ne"@, x) =~= single("$ne"@, x));
        },
        Err(_) => {},
    }
}

/// With a page size and a page number, the records to skip and to take count
/// for nothing: the pagination is that of the page, and so is the pipeline.
pub proof fn lemma_page_takes_precedence(
    model: Model,
    graph: Graph,
    kind: QueryPipelineType,
    mutation_mode: bool,
    filter: Option<Json>,
    take: Option<usize>,
    skip: Option<usize>,
    page_size: usize,
    page_number: usize,
    inclusion: Option<Json>,
)
    ensures
        paging_stages(take, skip, Some(page_size), Some(page_number)) == seq![
            single("$skip"@, NativeView::Int64(((page_number - 1) * page_size) as i64)),
            single("$limit"@, NativeView::Int64(page_size as i64)),
        ],
        assembled(
            model,
            graph,
            kind,
            mutation_mode,
            filter,
            take,
            skip,
            Some(page_size),
            Some(page_number),
            inclusion,
        ) == assembled(
            model,
            graph,
            kind,
            mutation_mode,
            filter,
            None,
            None,
            Some(page_size),
            Some(page_number),
            inclusion,
        ),
{
}

/// The document made of the first entries of a run has distinct keys, and
/// each of its entries is one of those it was made of.
pub proof fn lemma_document_of(entries: DocumentView, n: nat)
    requires
        n <= entries.len(),
    ensures
        doc_keys_distinct(document_of(entries, n)),
        forall|p: int|
            0 <= p < document_of(entries, n).len() ==> exists|j: int|
                0 <= j < n && entries[j] == #[trigger] document_of(entries, n)[p],
    decreases n,
{
    if n > 0 {
        let before = document_of(entries, (n - 1) as nat);
        let after = document_of(entries, n);
        let last = entries[n - 1];
        lemma_document_of(entries, (n - 1) as nat);
        lemma_doc_insert_distinct(before, last.0, last.1);
        lemma_index_of_first(doc_keys(before), last.0);
        let at = doc_position(before, last.0);
        assert forall|p: int| 0 <= p < after.len() implies exists|j: int|
            0 <= j < n && entries[j] == #[trigger] after[p] by {
            if p == at {
                assert(entries[n - 1] == after[p]);
            } else {
                let j = choose|j: int| 0 <= j < n - 1 && entries[j] == before[p];
                assert(entries[j] == after[p]);
            }
        }
    }
}

/// A document with distinct keys is the document made of its own entries.
pub proof fn lemma_document_of_distinct(d: DocumentView, n: nat)
    requires
        doc_keys_distinct(d),
        n <= d.len(),
    ensures
        document_of(d, n) == d.subrange(0, n as int),
    decreases n,
{
    if n == 0 {
        assert(document_of(d, n) =~= d.subrange(0, n as int));
    } else {
        lemma_document_of_distinct(d, (n - 1) as nat);
        let before = d.subrange(0, n - 1);
        assert forall|j: int| 0 <= j < before.len() implies doc_keys(before)[j] != d[n - 1].0 by {
            assert(before[j] == d[j]);
        }
        lemma_index_of(doc_keys(before), d[n - 1].0, before.len() as int);
        assert(doc_insert(before, d[n - 1].0, d[n - 1].1) =~= d.subrange(0, n as int));
    }
}

/// Encoding is stable under a round trip through the reader: what a
/// representable value encodes to can be read back, what is read back is
/// representable, and it encodes to the same native value again. What is read
/// back is the value itself but for the width of its numbers, the case of an
/// object identifier's text, a calendar day having become an instant, and
/// entries of a mapping that a later entry under the same key replaced.
pub proof fn lemma_encode_round_trip(v: ValueView)
    requires
        representable(v),
    ensures
        decodable(encode(v)),
        representable(decode(encode(v))),
        encode(decode(encode(v))) == encode(v),
    decreases v,
{
    match v {
        ValueView::ObjectId(s) => {
            lemma_object_id_text(object_id_bytes(s));
        },
        ValueView::Vec(items) => {
            let natives = encode_items(items);
            assert forall|i: int| 0 <= i < items.len() implies decodable(#[trigger] natives[i])
                && representable(decode(natives[i])) && encode(decode(natives[i]))
                == natives[i] by {
                lemma_encode_round_trip(items[i]);
            }
            let back = decode_items(natives);
            assert forall|i: int| 0 <= i < back.len() implies representable(#[trigger] back[i]) by {
                assert(back[i] == decode(natives[i]));
            }
            assert(encode_items(back) =~= natives);
        },
        ValueView::Dictionary(entries) => {
            let pairs = encode_entries(entries);
            let d = document_of(pairs, entries.len());
            lemma_document_of(pairs, entries.len());
            assert forall|p: int| 0 <= p < d.len() implies decodable((#[trigger] d[p]).1)
                && representable(decode(d[p].1)) && encode(decode(d[p].1)) == d[p].1 by {
                let j = choose|j: int| 0 <= j < entries.len() && pairs[j] == d[p];
                lemma_encode_round_trip(entries[j].1);
            }
            let back = decode_entries(d);
            assert forall|p: int| 0 <= p < back.len() implies representable(
                (#[trigger] back[p]).1,
            ) by {
                assert(back[p].1 == decode(d[p].1));
            }
            assert(encode_entries(back) =~= d);
            lemma_document_of_distinct(d, d.len());
            assert(d.subrange(0, d.len() as int) =~= d);
        },
        _ => {},
    }
}

/// Whether a value is one of those that a native value reads back as:
/// its numbers are 32-bit or 64-bit signed integers or doubles, its object
/// identifiers are written in lower case, it holds no calendar day, and no
/// mapping in it has two entries under one key.
pub open spec fn is_plain(v: ValueView) -> bool
    decreases v,
{
    match v {
        ValueView::Null => true,
        ValueView::Bool(_) => true,
        ValueView::I32(_) => true,
        ValueView::I64(_) => true,
        ValueView::F64(_) => true,
        ValueView::String(_) => true,
        ValueView::DateTime(_) => true,
        ValueView::ObjectId(s) => is_written_object_id(s),
        ValueView::Vec(items) => forall|i: int| 0 <= i < items.len() ==> is_plain(#[trigger] items[i]),
        ValueView::Dictionary(entries) => {
            &&& forall|i: int| 0 <= i < entries.len() ==> is_plain((#[trigger] entries[i]).1)
            &&& forall|i: int, j: int|
                0 <= i < j < entries.len() ==> (#[trigger] entries[i]).0 != (
                #[trigger] entries[j]).0
        },
        _ => false,
    }
}

/// A plain value is representable, and reading its encoding back gives the
/// value itself.
pub proof fn lemma_plain_round_trip(v: ValueView)
    requires
        is_plain(v),
    ensures
        representable(v),
        decodable(encode(v)),
        decode(encode(v)) == v,
    decreases v,
{
    match v {
        ValueView::ObjectId(s) => {
            lemma_object_id_bytes(s);
        },
        ValueView::Vec(items) => {
            assert forall|i: int| 0 <= i < items.len() implies representable(#[trigger] items[i])
                && decodable(encode(items[i])) && decode(encode(items[i])) == items[i] by {
                lemma_plain_round_trip(items[i]);
            }
            let natives = encode_items(items);
            assert forall|i: int| 0 <= i < natives.len() implies decodable(
                #[trigger] natives[i],
            ) by {
                assert(natives[i] == encode(items[i]));
            }
            assert(decode_items(natives) =~= items);
        },
        ValueView::Dictionary(entries) => {
            assert forall|i: int| 0 <= i < entries.len() implies representable(
                (#[trigger] entries[i]).1,
            ) && decodable(encode(entries[i].1)) && decode(encode(entries[i].1))
                == entries[i].1 by {
                lemma_plain_round_trip(entries[i].1);
            }
            let pairs = encode_entries(entries);
            assert(doc_keys_distinct(pairs)) by {
                assert forall|i: int, j: int| 0 <= i < j < pairs.len() implies (
                #[trigger] pairs[i]).0 != (#[trigger] pairs[j]).0 by {
                    assert(entries[i].0 != entries[j].0);
                }
            }
            lemma_document_of_distinct(pairs, pairs.len());
            assert(pairs.subrange(0, pairs.len() as int) =~= pairs);
            assert forall|i: int| 0 <= i < pairs.len() implies decodable(
                (#[trigger] pairs[i]).1,
            ) by {
                assert(pairs[i].1 == encode(entries[i].1));
            }
            assert(decode_entries(pairs) =~= entries);
        },
        _ => {},
    }
}

/// Asking for a direct relation with `true` gives one lookup stage: it binds
/// the owner's columns of the relation's fields under the names of the
/// references, and its pipeline is one match stage, which asks that the
/// target's column of each reference equal the variable bound for it.
pub proof fn lemma_plain_inclusion_of_direct_relation(
    owner: Model,
    graph: Graph,
    relation: Relation,
    key: Seq<char>,
)
    ensures
        direct_lookup(owner, graph, relation, key, Seq::empty()) == lookup_stage(
            graph.spec_model(relation.model@).table_name@,
            key,
            bindings(strings_view(relation.references@), columns_of(owner, relation.fields@)),
            seq![
                match_all_stage(
                    conditions(
                        columns_of(graph.spec_model(relation.model@), relation.references@),
                        strings_view(relation.references@),
                    ),
                ),
            ],
        ),
{
    let conds = conditions(
        columns_of(graph.spec_model(relation.model@), relation.references@),
        strings_view(relation.references@),
    );
    lemma_conditions_alone(conds);
    assert(correlated(Seq::empty(), conds) =~= seq![match_all_stage(conds)]);
}

/// Conditions that are added to an empty match stage are all that it asks.
pub proof fn lemma_conditions_alone(conds: Seq<NativeView>)
    ensures
        with_conditions(single("$match"@, NativeView::Document(Seq::empty())), conds)
            == match_all_stage(conds),
{
    let stage = single("$match"@, NativeView::Document(Seq::empty()));
    let empty = Seq::<(Seq<char>, NativeView)>::empty();
    assert(doc_keys(stage) =~= seq!["$match"@]);
    assert(doc_keys(empty) =~= Seq::<Seq<char>>::empty());
    lemma_index_of(doc_keys(stage), "$match"@, 0);
    lemma_index_of(doc_keys(empty), "$expr"@, 0);
    lemma_index_of(doc_keys(empty), "$and"@, 0);
    let all = Seq::<NativeView>::empty() + conds;
    assert(all =~= conds);
    let and = doc_insert(empty, "$and"@, NativeView::Array(all));
    assert(and =~= single("$and"@, NativeView::Array(conds)));
    let expr = doc_insert(empty, "$expr"@, NativeView::Document(and));
    assert(expr =~= single("$expr"@, NativeView::Document(and)));
    assert(doc_insert(stage, "$match"@, NativeView::Document(expr)) =~= single(
        "$match"@,
        NativeView::Document(expr),
    ));
}

/// An inclusion section fails at the first member that names no relation of
/// the model, with a message that names the member and the model.
pub proof fn lemma_unknown_relation_is_named(
    model: Model,
    graph: Graph,
    kind: QueryPipelineType,
    mutation_mode: bool,
    members: Vec<(String, Json)>,
    i: int,
)
    requires
        0 <= i < members@.len(),
        lookup_fold(model, graph, kind, mutation_mode, members@, i as nat) is Ok,
        model.spec_relation(members@[i].0@) is None,
    ensures
        lookups_of(model, graph, kind, mutation_mode, Json::Object(members)) == Err::<
            Seq<DocumentView>,
            ActionErrorView,
        >(ActionErrorView::InvalidQueryInput(no_relation_message(members@[i].0@, model.name@))),
        no_relation_message(members@[i].0@, model.name@) == "Relation '"@ + members@[i].0@
            + "' on model '"@ + model.name@ + "' is not exist. Please check your input."@,
{
    assert(lookup_fold(model, graph, kind, mutation_mode, members@, (i + 1) as nat) is Err);
    lemma_lookup_fold_fails(
        model,
        graph,
        kind,
        mutation_mode,
        members@,
        (i + 1) as nat,
        members@.len(),
    );
}

/// A query description is read through six of its members: `where`, `take`,
/// `skip`, `pageNumber`, `pageSize` and, outside mutation mode, `include`.
/// Two descriptions that agree on these compile to the same pipeline,
/// whatever else they hold: in mutation mode, whatever they ask to load
/// along.
pub proof fn lemma_only_six_members_count(
    model: Model,
    graph: Graph,
    kind: QueryPipelineType,
    mutation_mode: bool,
    first: Vec<(String, Json)>,
    second: Vec<(String, Json)>,
)
    requires
        member(first@, "where"@) == member(second@, "where"@),
        member(first@, "take"@) == member(second@, "take"@),
        member(first@, "skip"@) == member(second@, "skip"@),
        member(first@, "pageNumber"@) == member(second@, "pageNumber"@),
        member(first@, "pageSize"@) == member(second@, "pageSize"@),
        !mutation_mode ==> member(first@, "include"@) == member(second@, "include"@),
    ensures
        pipeline_of(model, graph, kind, mutation_mode, Json::Object(first)) == pipeline_of(
            model,
            graph,
            kind,
            mutation_mode,
            Json::Object(second),
        ),
{
}

/// A `where` section with no member gives no match stage, as an absent one
/// does.
pub proof fn lemma_empty_where_has_no_stage(model: Model, graph: Graph, members: Vec<(String, Json)>)
    requires
        members@.len() == 0,
    ensures
        where_input(model, graph, Some(Json::Object(members))) == where_input(model, graph, None),
        where_input(model, graph, None) == Ok::<DocumentView, ActionErrorView>(Seq::empty()),
        match_stages(Seq::empty()) == Seq::<DocumentView>::empty(),
{
}

} // verus!
