//! The relation-inclusion compiler and the pipeline assembler: from a query
//! description to the ordered stages of an aggregation pipeline.

use vstd::prelude::*;
use vstd::string::StringExecFns;
use crate::error::{ActionError, ActionErrorView};
use crate::filter::{build_where_input, document_result, unit_result, validate_where_unique, where_input, where_unique};
use crate::json::{get_member, json_depth, lemma_member_depth, lemma_member_shallower, member, members_depth, Json, JsonNumber};
use crate::native::{doc_get, doc_insert, documents_view, natives_view, sub_array, sub_document, Document, DocumentView, Native, NativeView};
use crate::schema::{Graph, Model, Relation};
use crate::text::{joined, strings_view};
use crate::value::document_of;

verus! {

/// What a query is for: the one record that a unique key names, the first
/// record that matches, or all that match.
#[derive(Debug, Clone, Copy, PartialEq, Eq)]
pub enum QueryPipelineType {
    Unique,
    First,
    Many,
}

/// The path of a column in the document at hand.
pub open spec fn field_path(name: Seq<char>) -> Seq<char> {
    "$"@ + name
}

/// The name of a variable that an enclosing lookup has bound.
pub open spec fn variable(name: Seq<char>) -> Seq<char> {
    "$$"@ + name
}

/// The storage columns of the fields of `model` that `fields` names.
pub open spec fn columns_of(model: Model, fields: Seq<String>) -> Seq<Seq<char>> {
    Seq::new(fields.len(), |i: int| model.spec_field(fields[i]@)->0.spec_column_name())
}

/// The variables that a lookup binds: under each of `names`, the path of the
/// column at the same place in `columns`.
pub open spec fn bindings(names: Seq<Seq<char>>, columns: Seq<Seq<char>>) -> DocumentView {
    document_of(
        Seq::new(names.len(), |i: int| (names[i], NativeView::String(field_path(columns[i])))),
        names.len(),
    )
}

/// The condition that the column `column` equals the variable `name`.
pub open spec fn equality(column: Seq<char>, name: Seq<char>) -> NativeView {
    NativeView::Document(
        seq![
            (
                "$eq"@,
                NativeView::Array(
                    seq![
                        NativeView::String(field_path(column)),
                        NativeView::String(variable(name)),
                    ],
                ),
            ),
        ],
    )
}

/// The conditions of a join: each of `columns` equals the variable named at
/// the same place in `names`.
pub open spec fn conditions(columns: Seq<Seq<char>>, names: Seq<Seq<char>>) -> Seq<NativeView> {
    Seq::new(columns.len(), |i: int| equality(columns[i], names[i]))
}

/// A document with one entry.
pub open spec fn single(key: Seq<char>, value: NativeView) -> DocumentView {
    seq![(key, value)]
}

/// The stages of a pipeline as the items of a native array.
pub open spec fn embedded(stages: Seq<DocumentView>) -> Seq<NativeView> {
    Seq::new(stages.len(), |i: int| NativeView::Document(stages[i]))
}

/// The stage that keeps the documents meeting all of `conds`.
pub open spec fn match_all_stage(conds: Seq<NativeView>) -> DocumentView {
    single(
        "$match"@,
        NativeView::Document(
            single("$expr"@, NativeView::Document(single("$and"@, NativeView::Array(conds)))),
        ),
    )
}

/// The stage that joins the collection `from`, running `pipeline` on it with
/// the variables `lets` bound, and writes the outcome under `name`.
pub open spec fn lookup_stage(
    from: Seq<char>,
    name: Seq<char>,
    lets: DocumentView,
    pipeline: Seq<DocumentView>,
) -> DocumentView {
    single(
        "$lookup"@,
        NativeView::Document(
            seq![
                ("from"@, NativeView::String(from)),
                ("as"@, NativeView::String(name)),
                ("let"@, NativeView::Document(lets)),
                ("pipeline"@, NativeView::Array(embedded(pipeline))),
            ],
        ),
    )
}

/// The stage that gives one document for each item of the array under `name`.
pub open spec fn unwind_stage(name: Seq<char>) -> DocumentView {
    single("$unwind"@, NativeView::Document(single("path"@, NativeView::String(field_path(name)))))
}

/// The stage that puts what is under `name` in the place of the document.
pub open spec fn replace_root_stage(name: Seq<char>) -> DocumentView {
    single(
        "$replaceRoot"@,
        NativeView::Document(single("newRoot"@, NativeView::String(field_path(name)))),
    )
}

/// A match stage with `conds` added to those that its expression already
/// joins by `$and`. What else the stage matches on stays as it is.
pub open spec fn with_conditions(stage: DocumentView, conds: Seq<NativeView>) -> DocumentView {
    let body = sub_document(stage, "$match"@);
    let expr = sub_document(body, "$expr"@);
    let all = sub_array(expr, "$and"@) + conds;
    doc_insert(
        stage,
        "$match"@,
        NativeView::Document(
            doc_insert(
                body,
                "$expr"@,
                NativeView::Document(doc_insert(expr, "$and"@, NativeView::Array(all))),
            ),
        ),
    )
}

/// Whether a stage has something under `$match`.
pub open spec fn is_match_stage(stage: DocumentView) -> bool {
    doc_get(stage, "$match"@) is Some
}

/// The place of the first match stage, or the number of stages where there
/// is none.
pub open spec fn match_position(stages: Seq<DocumentView>) -> int
    decreases stages.len(),
{
    if stages.len() == 0 {
        0
    } else if is_match_stage(stages[0]) {
        0
    } else {
        1 + match_position(stages.drop_first())
    }
}

/// A nested pipeline made to keep only what `conds` join to the outer
/// document: the conditions go into its first match stage, or into a match
/// stage of their own at its start where it has none.
pub open spec fn correlated(stages: Seq<DocumentView>, conds: Seq<NativeView>) -> Seq<
    DocumentView,
> {
    let at = match_position(stages);
    if at < stages.len() {
        stages.update(at, with_conditions(stages[at], conds))
    } else {
        seq![with_conditions(single("$match"@, NativeView::Document(Seq::empty())), conds)]
            + stages
    }
}

/// The lookup stage of a direct relation of `owner`, requested under `key`,
/// with `nested` as what the request asks of the target's records.
pub open spec fn direct_lookup(
    owner: Model,
    graph: Graph,
    relation: Relation,
    key: Seq<char>,
    nested: Seq<DocumentView>,
) -> DocumentView {
    let target = graph.spec_model(relation.model@);
    lookup_stage(
        target.table_name@,
        key,
        bindings(strings_view(relation.references@), columns_of(owner, relation.fields@)),
        correlated(
            nested,
            conditions(
                columns_of(target, relation.references@),
                strings_view(relation.references@),
            ),
        ),
    )
}

/// The lookup stage of a relation of `owner` through a junction model: a
/// lookup of the junction's rows that belong to the owner's record, each
/// replaced by the target record that it points to.
pub open spec fn junction_lookup(owner: Model, graph: Graph, relation: Relation) -> DocumentView {
    let junction = graph.spec_model(relation.through->0@);
    let local = junction.spec_relation(relation.fields@[0]@)->0;
    let foreign = junction.spec_relation(relation.references@[0]@)->0;
    let target = graph.spec_model(foreign.model@);
    let name = relation.name@;
    lookup_stage(
        junction.table_name@,
        name,
        bindings(strings_view(local.fields@), columns_of(owner, local.references@)),
        seq![
            match_all_stage(
                conditions(strings_view(local.fields@), strings_view(local.fields@)),
            ),
            lookup_stage(
                target.table_name@,
                name,
                bindings(strings_view(foreign.fields@), strings_view(foreign.fields@)),
                seq![
                    match_all_stage(
                        conditions(
                            columns_of(target, foreign.references@),
                            strings_view(foreign.fields@),
                        ),
                    ),
                ],
            ),
            unwind_stage(name),
            replace_root_stage(name),
        ],
    )
}

/// The message for an inclusion section that is no object.
pub open spec fn not_an_object_message(model: Seq<char>) -> Seq<char> {
    "'include' on model '"@ + model + "' is not an object. Please check your input."@
}

/// The message for a requested relation that the model does not have.
pub open spec fn no_relation_message(key: Seq<char>, model: Seq<char>) -> Seq<char> {
    "Relation '"@ + key + "' on model '"@ + model + "' is not exist. Please check your input."@
}

/// The message for a requested relation whose value is neither a boolean nor
/// an object.
pub open spec fn bad_relation_message(key: Seq<char>, model: Seq<char>) -> Seq<char> {
    "Relation '"@ + key + "' on model '"@ + model
        + "' has a unrecognized value. It's either a boolean or an object. Please check your input."@
}

/// The message for a query description that is no object.
pub open spec fn not_a_query_message() -> Seq<char> {
    "Query input should be an object."@
}

/// Whether a member of a query description is a count: it is absent, or a
/// non-negative integer that the machine can hold.
pub open spec fn is_count(v: Option<Json>) -> bool {
    match v {
        None => true,
        Some(Json::Number(JsonNumber::PosInt(n))) => n <= usize::MAX,
        Some(_) => false,
    }
}

/// The count that a member of a query description holds.
pub open spec fn count_of(v: Option<Json>) -> Option<usize> {
    match v {
        Some(Json::Number(JsonNumber::PosInt(n))) => Some(n as usize),
        _ => None,
    }
}

/// Whether the stages of a pagination can be written as 64-bit signed
/// natives. With a page size and a page number the page number is at least
/// one, and the records before the page can be counted; else the records to
/// skip and to take can.
pub open spec fn paging_in_range(
    take: Option<usize>,
    skip: Option<usize>,
    page_size: Option<usize>,
    page_number: Option<usize>,
) -> bool {
    if page_size is Some && page_number is Some {
        &&& page_number->0 >= 1
        &&& page_size->0 <= i64::MAX
        &&& (page_number->0 - 1) * page_size->0 <= i64::MAX
    } else {
        &&& (skip is Some ==> skip->0 <= i64::MAX)
        &&& (take is Some ==> take->0 <= i64::MAX)
    }
}

/// The stages of a pagination. A page size with a page number gives the
/// records of that page, and then the records to skip and to take count for
/// nothing; else those two give a stage each, where they are there.
pub open spec fn paging_stages(
    take: Option<usize>,
    skip: Option<usize>,
    page_size: Option<usize>,
    page_number: Option<usize>,
) -> Seq<DocumentView> {
    if page_size is Some && page_number is Some {
        seq![
            single("$skip"@, NativeView::Int64(((page_number->0 - 1) * page_size->0) as i64)),
            single("$limit"@, NativeView::Int64(page_size->0 as i64)),
        ]
    } else {
        (if skip is Some {
            seq![single("$skip"@, NativeView::Int64(skip->0 as i64))]
        } else {
            Seq::<DocumentView>::empty()
        }) + (if take is Some {
            seq![single("$limit"@, NativeView::Int64(take->0 as i64))]
        } else {
            Seq::<DocumentView>::empty()
        })
    }
}

/// The match stage of a match document: none where the document is empty.
pub open spec fn match_stages(body: DocumentView) -> Seq<DocumentView> {
    if body.len() == 0 {
        Seq::empty()
    } else {
        seq![single("$match"@, NativeView::Document(body))]
    }
}

/// One more than the depth of a value that is there; zero for one that is not.
pub open spec fn optional_depth(v: Option<Json>) -> nat {
    match v {
        Some(j) => json_depth(j) + 1,
        None => 0,
    }
}

/// The pipeline of a query description: the match stage of its `where`,
/// where that is not empty, then its pagination, then a lookup stage for each
/// relation that it asks for. For a unique query the `where` must name a
/// unique key. In mutation mode the relations asked for are left aside.
pub open spec fn pipeline_of(
    model: Model,
    graph: Graph,
    kind: QueryPipelineType,
    mutation_mode: bool,
    query: Json,
) -> Result<Seq<DocumentView>, ActionErrorView>
    decreases json_depth(query), 1nat, 0nat,
{
    match query {
        Json::Object(q) => {
            let filter = member(q@, "where"@);
            let take = member(q@, "take"@);
            let skip = member(q@, "skip"@);
            let page_number = member(q@, "pageNumber"@);
            let page_size = member(q@, "pageSize"@);
            let inclusion = if mutation_mode {
                None
            } else {
                member(q@, "include"@)
            };
            if kind is Unique && where_unique(model, filter) is Err {
                Err(where_unique(model, filter)->Err_0)
            } else if !(is_count(take) && is_count(skip) && is_count(page_number) && is_count(
                page_size,
            )) || !paging_in_range(
                count_of(take),
                count_of(skip),
                count_of(page_size),
                count_of(page_number),
            ) {
                Err(ActionErrorView::WrongInputType)
            } else {
                proof {
                    if inclusion is Some {
                        lemma_member_shallower(query, "include"@);
                    }
                }
                assembled(
                    model,
                    graph,
                    kind,
                    mutation_mode,
                    filter,
                    count_of(take),
                    count_of(skip),
                    count_of(page_size),
                    count_of(page_number),
                    inclusion,
                )
            }
        },
        _ => Err(ActionErrorView::InvalidQueryInput(not_a_query_message())),
    }
}

/// The pipeline of the sections of a query description.
pub open spec fn assembled(
    model: Model,
    graph: Graph,
    kind: QueryPipelineType,
    mutation_mode: bool,
    filter: Option<Json>,
    take: Option<usize>,
    skip: Option<usize>,
    page_size: Option<usize>,
    page_number: Option<usize>,
    inclusion: Option<Json>,
) -> Result<Seq<DocumentView>, ActionErrorView>
    decreases optional_depth(inclusion), 0nat, 0nat,
{
    match where_input(model, graph, filter) {
        Err(e) => Err(e),
        Ok(body) => {
            let head = match_stages(body) + paging_stages(take, skip, page_size, page_number);
            match inclusion {
                None => Ok(head),
                Some(wanted) => match lookups_of(model, graph, kind, mutation_mode, wanted) {
                    Err(e) => Err(e),
                    Ok(lookups) => Ok(head + lookups),
                },
            }
        },
    }
}

/// The lookup stages of an inclusion section, one for each relation that it
/// asks for, in order.
pub open spec fn lookups_of(
    model: Model,
    graph: Graph,
    kind: QueryPipelineType,
    mutation_mode: bool,
    wanted: Json,
) -> Result<Seq<DocumentView>, ActionErrorView>
    decreases json_depth(wanted), 3nat, 0nat,
{
    match wanted {
        Json::Object(members) => lookup_fold(
            model,
            graph,
            kind,
            mutation_mode,
            members@,
            members@.len(),
        ),
        _ => Err(ActionErrorView::InvalidQueryInput(not_an_object_message(model.name@))),
    }
}

/// The lookup stages of the first `n` members of an inclusion section, or
/// the first failure among them. Each member must name a relation of the
/// model and be a boolean or an object; an object is a query description of
/// its own on the target's records.
pub open spec fn lookup_fold(
    model: Model,
    graph: Graph,
    kind: QueryPipelineType,
    mutation_mode: bool,
    members: Seq<(String, Json)>,
    n: nat,
) -> Result<Seq<DocumentView>, ActionErrorView>
    decreases 1 + members_depth(members, members.len()), 2nat, n,
{
    if n == 0 || n > members.len() {
        Ok(Seq::empty())
    } else {
        match lookup_fold(model, graph, kind, mutation_mode, members, (n - 1) as nat) {
            Err(e) => Err(e),
            Ok(done) => {
                let key = members[n - 1].0@;
                let value = members[n - 1].1;
                match model.spec_relation(key) {
                    None => Err(
                        ActionErrorView::InvalidQueryInput(no_relation_message(key, model.name@)),
                    ),
                    Some(relation) => if !(value is Bool || value is Object) {
                        Err(
                            ActionErrorView::InvalidQueryInput(
                                bad_relation_message(key, model.name@),
                            ),
                        )
                    } else if relation.through is None {
                        let nested = if value is Object {
                            proof {
                                lemma_member_depth(members, members.len(), n - 1);
                            }
                            pipeline_of(
                                graph.spec_model(relation.model@),
                                graph,
                                kind,
                                mutation_mode,
                                value,
                            )
                        } else {
                            Ok(Seq::empty())
                        };
                        match nested {
                            Err(e) => Err(e),
                            Ok(stages) => Ok(
                                done.push(direct_lookup(model, graph, relation, key, stages)),
                            ),
                        }
                    } else {
                        Ok(done.push(junction_lookup(model, graph, relation)))
                    },
                }
            },
        }
    }
}

/// A document with one entry.
pub fn one_entry(key: &str, value: Native) -> (r: Document)
    ensures
        r@ == single(key@, value@),
{
    let mut entries: Vec<(String, Native)> = Vec::new();
    entries.push((key.to_owned(), value));
    let r = Document { entries };
    assert(r@ =~= single(key@, value@));
    r
}

/// The storage columns of the fields of `model` that `fields` names.
pub fn columns(model: &Model, fields: &Vec<String>) -> (r: Vec<String>)
    requires
        Graph::all_fields(*model, fields@),
    ensures
        r@.len() == fields@.len(),
        strings_view(r@) == columns_of(*model, fields@),
{
    let mut out: Vec<String> = Vec::new();
    let mut i: usize = 0;
    while i < fields.len()
        invariant
            0 <= i <= fields.len(),
            Graph::all_fields(*model, fields@),
            out@.len() == i,
            forall|j: int| 0 <= j < i ==> out@[j]@ == columns_of(*model, fields@)[j],
        decreases fields.len() - i,
    {
        let field = model.field(fields[i].as_str()).unwrap();
        out.push(field.column_name().to_owned());
        i += 1;
    }
    assert(strings_view(out@) =~= columns_of(*model, fields@));
    out
}

/// The text of a string, with `lead` before it.
fn prefixed(lead: &str, name: &str) -> (r: Native)
    ensures
        r@ == NativeView::String(lead@ + name@),
{
    Native::String(joined(lead, name))
}

/// The condition that the column `column` equals the variable `name`.
pub fn make_equality(column: &str, name: &str) -> (r: Native)
    ensures
        r@ == equality(column@, name@),
{
    let mut sides: Vec<Native> = Vec::new();
    sides.push(prefixed("$", column));
    sides.push(prefixed("$$", name));
    proof {
        Native::lemma_array_view(sides);
        assert(natives_view(sides@) =~= seq![
            NativeView::String(field_path(column@)),
            NativeView::String(variable(name@)),
        ]);
    }
    let d = one_entry("$eq", Native::Array(sides));
    proof {
        Native::lemma_document_view(d);
    }
    Native::Document(d)
}

/// The variables and the conditions of a join: under each of `names` the
/// path of the column at the same place in `bound`, and for each of
/// `matched` the condition that it equals the variable at the same place in
/// `names`.
pub fn correlate(names: &Vec<String>, bound: &Vec<String>, matched: &Vec<String>) -> (r: (
    Document,
    Vec<Native>,
))
    requires
        names@.len() == bound@.len(),
        names@.len() == matched@.len(),
    ensures
        r.0@ == bindings(strings_view(names@), strings_view(bound@)),
        natives_view(r.1@) == conditions(strings_view(matched@), strings_view(names@)),
{
    let ghost entries: DocumentView = Seq::new(
        strings_view(names@).len(),
        |i: int|
            (strings_view(names@)[i], NativeView::String(field_path(strings_view(bound@)[i]))),
    );
    let mut lets = Document::new();
    let mut conds: Vec<Native> = Vec::new();
    let mut i: usize = 0;
    while i < names.len()
        invariant
            0 <= i <= names.len(),
            names@.len() == bound@.len(),
            names@.len() == matched@.len(),
            entries.len() == names@.len(),
            forall|j: int|
                0 <= j < names@.len() ==> entries[j] == (
                    names@[j]@,
                    NativeView::String(field_path(bound@[j]@)),
                ),
            lets@ == document_of(entries, i as nat),
            conds@.len() == i,
            forall|j: int| 0 <= j < i ==> conds@[j]@ == equality(matched@[j]@, names@[j]@),
        decreases names.len() - i,
    {
        lets.insert(names[i].clone(), prefixed("$", bound[i].as_str()));
        conds.push(make_equality(matched[i].as_str(), names[i].as_str()));
        i += 1;
    }
    assert(natives_view(conds@) =~= conditions(strings_view(matched@), strings_view(names@)));
    (lets, conds)
}

/// The items of `v`, last first.
fn reversed<T>(v: Vec<T>) -> (r: Vec<T>)
    ensures
        r@ == v@.reverse(),
{
    let mut v = v;
    let ghost given = v@;
    let mut out: Vec<T> = Vec::new();
    while v.len() > 0
        invariant
            v@.len() + out@.len() == given.len(),
            forall|j: int| 0 <= j < v@.len() ==> v@[j] == given[j],
            forall|j: int| 0 <= j < out@.len() ==> out@[j] == given[given.len() - 1 - j],
        decreases v.len(),
    {
        let item = v.pop().unwrap();
        out.push(item);
    }
    assert(out@ =~= given.reverse());
    out
}

/// The stages of a pipeline as a native array.
pub fn embed(stages: Vec<Document>) -> (r: Native)
    ensures
        r@ == NativeView::Array(embedded(documents_view(stages@))),
{
    let ghost given = stages@;
    let mut rest = reversed(stages);
    let mut out: Vec<Native> = Vec::new();
    while rest.len() > 0
        invariant
            rest@.len() + out@.len() == given.len(),
            forall|j: int| 0 <= j < rest@.len() ==> rest@[j] == given[given.len() - 1 - j],
            forall|j: int| 0 <= j < out@.len() ==> out@[j]@ == NativeView::Document(given[j]@),
        decreases rest.len(),
    {
        let stage = rest.pop().unwrap();
        proof {
            Native::lemma_document_view(stage);
        }
        out.push(Native::Document(stage));
    }
    proof {
        Native::lemma_array_view(out);
        assert(natives_view(out@) =~= embedded(documents_view(given)));
    }
    Native::Array(out)
}

/// The stage that keeps the documents meeting all of `conds`.
pub fn match_all(conds: Vec<Native>) -> (r: Document)
    ensures
        r@ == match_all_stage(natives_view(conds@)),
{
    proof {
        Native::lemma_array_view(conds);
    }
    let all = one_entry("$and", Native::Array(conds));
    proof {
        Native::lemma_document_view(all);
    }
    let expr = one_entry("$expr", Native::Document(all));
    proof {
        Native::lemma_document_view(expr);
    }
    one_entry("$match", Native::Document(expr))
}

/// The stage that joins the collection `from`, running `pipeline` on it with
/// the variables `lets` bound, and writes the outcome under `name`.
pub fn make_lookup(from: &str, name: &str, lets: Document, pipeline: Vec<Document>) -> (r:
    Document)
    ensures
        r@ == lookup_stage(from@, name@, lets@, documents_view(pipeline@)),
{
    let ghost lets_view = lets@;
    let ghost stages = documents_view(pipeline@);
    proof {
        Native::lemma_document_view(lets);
    }
    let mut entries: Vec<(String, Native)> = Vec::new();
    entries.push(("from".to_owned(), Native::String(from.to_owned())));
    entries.push(("as".to_owned(), Native::String(name.to_owned())));
    entries.push(("let".to_owned(), Native::Document(lets)));
    entries.push(("pipeline".to_owned(), embed(pipeline)));
    let body = Document { entries };
    proof {
        Native::lemma_document_view(body);
        assert(body@ =~= seq![
            ("from"@, NativeView::String(from@)),
            ("as"@, NativeView::String(name@)),
            ("let"@, NativeView::Document(lets_view)),
            ("pipeline"@, NativeView::Array(embedded(stages))),
        ]);
    }
    one_entry("$lookup", Native::Document(body))
}

/// The stage that gives one document for each item of the array under `name`.
pub fn make_unwind(name: &str) -> (r: Document)
    ensures
        r@ == unwind_stage(name@),
{
    let path = one_entry("path", prefixed("$", name));
    proof {
        Native::lemma_document_view(path);
    }
    one_entry("$unwind", Native::Document(path))
}

/// The stage that puts what is under `name` in the place of the document.
pub fn make_replace_root(name: &str) -> (r: Document)
    ensures
        r@ == replace_root_stage(name@),
{
    let root = one_entry("newRoot", prefixed("$", name));
    proof {
        Native::lemma_document_view(root);
    }
    one_entry("$replaceRoot", Native::Document(root))
}

/// Adds `conds` to the conditions that a match stage joins by `$and`.
pub fn merge_conditions(stage: Document, conds: Vec<Native>) -> (r: Document)
    ensures
        r@ == with_conditions(stage@, natives_view(conds@)),
{
    let mut stage = stage;
    let mut conds = conds;
    let ghost added = natives_view(conds@);
    let mut body = stage.take_document("$match");
    let mut expr = body.take_document("$expr");
    let mut all = expr.take_array("$and");
    let ghost before = natives_view(all@);
    all.append(&mut conds);
    proof {
        assert(natives_view(all@) =~= before + added);
        Native::lemma_array_view(all);
    }
    expr.insert("$and".to_owned(), Native::Array(all));
    proof {
        Native::lemma_document_view(expr);
    }
    body.insert("$expr".to_owned(), Native::Document(expr));
    proof {
        Native::lemma_document_view(body);
    }
    stage.insert("$match".to_owned(), Native::Document(body));
    stage
}

/// `match_position` is the first place whose stage is a match stage.
pub proof fn lemma_match_position(stages: Seq<DocumentView>, i: int)
    requires
        0 <= i <= stages.len(),
        forall|j: int| 0 <= j < i ==> !is_match_stage(#[trigger] stages[j]),
        i < stages.len() ==> is_match_stage(stages[i]),
    ensures
        match_position(stages) == i,
    decreases stages.len(),
{
    if stages.len() > 0 && i > 0 {
        let rest = stages.drop_first();
        assert(!is_match_stage(stages[0]));
        assert forall|j: int| 0 <= j < i - 1 implies !is_match_stage(#[trigger] rest[j]) by {
            assert(rest[j] == stages[j + 1]);
        }
        lemma_match_position(rest, i - 1);
    }
}

/// Makes a nested pipeline keep only what `conds` join to the outer
/// document.
pub fn correlate_pipeline(stages: Vec<Document>, conds: Vec<Native>) -> (r: Vec<Document>)
    ensures
        documents_view(r@) == correlated(documents_view(stages@), natives_view(conds@)),
{
    let mut stages = stages;
    let ghost given = documents_view(stages@);
    let mut at: usize = 0;
    while at < stages.len() && stages[at].get("$match").is_none()
        invariant
            0 <= at <= stages.len(),
            given == documents_view(stages@),
            forall|j: int| 0 <= j < at ==> !is_match_stage(#[trigger] given[j]),
        decreases stages.len() - at,
    {
        at += 1;
    }
    proof {
        lemma_match_position(given, at as int);
    }
    if at < stages.len() {
        let found = stages.remove(at);
        let merged = merge_conditions(found, conds);
        stages.insert(at, merged);
        assert(documents_view(stages@) =~= given.update(at as int, merged@));
    } else {
        let empty = Document::new();
        proof {
            Native::lemma_document_view(empty);
        }
        let merged = merge_conditions(one_entry("$match", Native::Document(empty)), conds);
        stages.insert(0, merged);
        assert(documents_view(stages@) =~= seq![merged@] + given);
    }
    stages
}

/// What compiling a pipeline gave.
pub open spec fn stages_result(r: Result<Vec<Document>, ActionError>) -> Result<
    Seq<DocumentView>,
    ActionErrorView,
> {
    match r {
        Ok(stages) => Ok(documents_view(stages@)),
        Err(e) => Err(e@),
    }
}

/// The value that an optional reference points to.
pub open spec fn held(v: Option<&Json>) -> Option<Json> {
    match v {
        Some(j) => Some(*j),
        None => None,
    }
}

/// The failure for an inclusion section that is no object.
fn not_an_object(model: &str) -> (r: ActionError)
    ensures
        r@ == ActionErrorView::InvalidQueryInput(not_an_object_message(model@)),
{
    let mut text = joined("'include' on model '", model);
    text.append("' is not an object. Please check your input.");
    ActionError::InvalidQueryInput(text)
}

/// The failure for a requested relation that the model does not have.
fn no_relation(key: &str, model: &str) -> (r: ActionError)
    ensures
        r@ == ActionErrorView::InvalidQueryInput(no_relation_message(key@, model@)),
{
    let mut text = joined("Relation '", key);
    text.append("' on model '");
    text.append(model);
    text.append("' is not exist. Please check your input.");
    ActionError::InvalidQueryInput(text)
}

/// The failure for a requested relation whose value is neither a boolean nor
/// an object.
fn bad_relation(key: &str, model: &str) -> (r: ActionError)
    ensures
        r@ == ActionErrorView::InvalidQueryInput(bad_relation_message(key@, model@)),
{
    let mut text = joined("Relation '", key);
    text.append("' on model '");
    text.append(model);
    text.append(
        "' has a unrecognized value. It's either a boolean or an object. Please check your input.",
    );
    ActionError::InvalidQueryInput(text)
}

/// A failure among the first members is the failure of the whole.
pub proof fn lemma_lookup_fold_fails(
    model: Model,
    graph: Graph,
    kind: QueryPipelineType,
    mutation_mode: bool,
    members: Seq<(String, Json)>,
    n: nat,
    m: nat,
)
    requires
        n <= m <= members.len(),
        lookup_fold(model, graph, kind, mutation_mode, members, n) is Err,
    ensures
        lookup_fold(model, graph, kind, mutation_mode, members, m) == lookup_fold(
            model,
            graph,
            kind,
            mutation_mode,
            members,
            n,
        ),
    decreases m,
{
    if n < m {
        lemma_lookup_fold_fails(model, graph, kind, mutation_mode, members, n, (m - 1) as nat);
    }
}

/// Compiles the lookup stage of a relation through a junction model.
pub fn build_junction_lookup(model: &Model, graph: &Graph, relation: &Relation) -> (r: Document)
    requires
        graph.relation_ok(*model, *relation),
        relation.through is Some,
    ensures
        r@ == junction_lookup(*model, *graph, *relation),
{
    let through = match &relation.through {
        Some(name) => name,
        None => vstd::pervasive::unreached(),
    };
    let junction = graph.model(through.as_str());
    let local = junction.relation(relation.fields[0].as_str()).unwrap();
    let foreign = junction.relation(relation.references[0].as_str()).unwrap();
    let target = graph.model(foreign.model.as_str());
    let name = relation.name.as_str();
    let owner_columns = columns(model, &local.references);
    let (outer_lets, outer_conds) = correlate(&local.fields, &owner_columns, &local.fields);
    let target_columns = columns(target, &foreign.references);
    let (inner_lets, inner_conds) = correlate(&foreign.fields, &foreign.fields, &target_columns);
    let mut inner: Vec<Document> = Vec::new();
    inner.push(match_all(inner_conds));
    assert(documents_view(inner@) =~= seq![
        match_all_stage(
            conditions(columns_of(*target, foreign.references@), strings_view(foreign.fields@)),
        ),
    ]);
    let mut outer: Vec<Document> = Vec::new();
    outer.push(match_all(outer_conds));
    outer.push(make_lookup(target.table_name(), name, inner_lets, inner));
    outer.push(make_unwind(name));
    outer.push(make_replace_root(name));
    assert(documents_view(outer@) =~= seq![
        match_all_stage(conditions(strings_view(local.fields@), strings_view(local.fields@))),
        lookup_stage(
            target.table_name@,
            name@,
            bindings(strings_view(foreign.fields@), strings_view(foreign.fields@)),
            seq![
                match_all_stage(
                    conditions(
                        columns_of(*target, foreign.references@),
                        strings_view(foreign.fields@),
                    ),
                ),
            ],
        ),
        unwind_stage(name@),
        replace_root_stage(name@),
    ]);
    make_lookup(junction.table_name(), name, outer_lets, outer)
}

/// Compiles the lookup stage of a direct relation, requested under `key`,
/// from the pipeline that the request asks of the target's records.
pub fn build_direct_lookup(
    model: &Model,
    graph: &Graph,
    relation: &Relation,
    key: &str,
    nested: Vec<Document>,
) -> (r: Document)
    requires
        graph.relation_ok(*model, *relation),
        relation.through is None,
    ensures
        r@ == direct_lookup(*model, *graph, *relation, key@, documents_view(nested@)),
{
    let target = graph.model(relation.model.as_str());
    let field_columns = columns(model, &relation.fields);
    let reference_columns = columns(target, &relation.references);
    let (lets, conds) = correlate(&relation.references, &field_columns, &reference_columns);
    let pipeline = correlate_pipeline(nested, conds);
    make_lookup(target.table_name(), key, lets, pipeline)
}

/// Compiles an inclusion section into lookup stages, one for each relation
/// that it asks for.
pub fn build_lookup_inputs(
    model: &Model,
    graph: &Graph,
    kind: QueryPipelineType,
    mutation_mode: bool,
    inclusion: &Json,
) -> (r: Result<Vec<Document>, ActionError>)
    requires
        graph.wf(),
        graph.model_ok(*model),
    ensures
        stages_result(r) == lookups_of(*model, *graph, kind, mutation_mode, *inclusion),
    decreases json_depth(*inclusion), 2nat,
{
    let members = match inclusion.as_object() {
        None => {
            return Err(not_an_object(model.name.as_str()));
        },
        Some(members) => members,
    };
    let mut retval: Vec<Document> = Vec::new();
    let mut i: usize = 0;
    assert(documents_view(retval@) =~= Seq::empty());
    while i < members.len()
        invariant
            0 <= i <= members.len(),
            graph.wf(),
            graph.model_ok(*model),
            *inclusion == Json::Object(*members),
            lookup_fold(*model, *graph, kind, mutation_mode, members@, i as nat) == Ok::<
                Seq<DocumentView>,
                ActionErrorView,
            >(documents_view(retval@)),
        decreases members.len() - i,
    {
        let key = members[i].0.as_str();
        let value = &members[i].1;
        let ghost done = documents_view(retval@);
        let relation = match model.relation(key) {
            None => {
                proof {
                    assert(lookup_fold(
                        *model,
                        *graph,
                        kind,
                        mutation_mode,
                        members@,
                        (i + 1) as nat,
                    ) is Err);
                    lemma_lookup_fold_fails(
                        *model,
                        *graph,
                        kind,
                        mutation_mode,
                        members@,
                        (i + 1) as nat,
                        members@.len(),
                    );
                }
                return Err(no_relation(key, model.name.as_str()));
            },
            Some(relation) => relation,
        };
        proof {
            graph.lemma_relation_ok(*model, key@);
            graph.lemma_model_ok(relation.model@);
        }
        let is_object = value.as_object().is_some();
        if !(value.as_bool().is_some() || is_object) {
            proof {
                assert(lookup_fold(
                    *model,
                    *graph,
                    kind,
                    mutation_mode,
                    members@,
                    (i + 1) as nat,
                ) is Err);
                lemma_lookup_fold_fails(
                    *model,
                    *graph,
                    kind,
                    mutation_mode,
                    members@,
                    (i + 1) as nat,
                    members@.len(),
                );
            }
            return Err(bad_relation(key, model.name.as_str()));
        }
        if relation.through.is_none() {
            let nested = if is_object {
                proof {
                    lemma_member_depth(members@, members@.len(), i as int);
                }
                match build_query_pipeline_from_json(
                    graph.model(relation.model.as_str()),
                    graph,
                    kind,
                    mutation_mode,
                    value,
                ) {
                    Ok(stages) => stages,
                    Err(e) => {
                        proof {
                            assert(lookup_fold(
                                *model,
                                *graph,
                                kind,
                                mutation_mode,
                                members@,
                                (i + 1) as nat,
                            ) == Err::<Seq<DocumentView>, ActionErrorView>(e@));
                            lemma_lookup_fold_fails(
                                *model,
                                *graph,
                                kind,
                                mutation_mode,
                                members@,
                                (i + 1) as nat,
                                members@.len(),
                            );
                        }
                        return Err(e);
                    },
                }
            } else {
                let none: Vec<Document> = Vec::new();
                assert(documents_view(none@) =~= Seq::empty());
                none
            };
            let stage = build_direct_lookup(model, graph, relation, key, nested);
            retval.push(stage);
            assert(documents_view(retval@) =~= done.push(stage@));
        } else {
            let stage = build_junction_lookup(model, graph, relation);
            retval.push(stage);
            assert(documents_view(retval@) =~= done.push(stage@));
        }
        i += 1;
    }
    Ok(retval)
}

/// A stage that holds one 64-bit number.
fn number_stage(key: &str, n: i64) -> (r: Document)
    ensures
        r@ == single(key@, NativeView::Int64(n)),
{
    one_entry(key, Native::Int64(n))
}

/// Assembles the pipeline of the sections of a query description: the match
/// stage, then the pagination, then the lookups. The sections that say how to
/// order and what to select are accepted and have no stage.
pub fn build_query_pipeline(
    model: &Model,
    graph: &Graph,
    kind: QueryPipelineType,
    mutation_mode: bool,
    filter: Option<&Json>,
    order_by: Option<&Json>,
    take: Option<usize>,
    skip: Option<usize>,
    page_size: Option<usize>,
    page_number: Option<usize>,
    inclusion: Option<&Json>,
    select: Option<&Json>,
) -> (r: Result<Vec<Document>, ActionError>)
    requires
        graph.wf(),
        graph.model_ok(*model),
        paging_in_range(take, skip, page_size, page_number),
    ensures
        stages_result(r) == assembled(
            *model,
            *graph,
            kind,
            mutation_mode,
            held(filter),
            take,
            skip,
            page_size,
            page_number,
            held(inclusion),
        ),
    decreases optional_depth(held(inclusion)), 0nat,
{
    let mut retval: Vec<Document> = Vec::new();
    let body = match build_where_input(model, graph, filter) {
        Ok(body) => body,
        Err(e) => {
            return Err(e);
        },
    };
    let ghost body_view = body@;
    if !body.is_empty() {
        proof {
            Native::lemma_document_view(body);
        }
        retval.push(one_entry("$match", Native::Document(body)));
    }
    assert(documents_view(retval@) =~= match_stages(body_view));
    match (page_size, page_number) {
        (Some(size), Some(number)) => {
            let before: u64 = (number - 1) as u64 * size as u64;
            retval.push(number_stage("$skip", before as i64));
            retval.push(number_stage("$limit", size as i64));
        },
        _ => {
            match skip {
                Some(n) => {
                    retval.push(number_stage("$skip", n as i64));
                },
                None => {},
            }
            match take {
                Some(n) => {
                    retval.push(number_stage("$limit", n as i64));
                },
                None => {},
            }
        },
    }
    assert(documents_view(retval@) =~= match_stages(body_view) + paging_stages(
        take,
        skip,
        page_size,
        page_number,
    ));
    match inclusion {
        Some(wanted) => {
            let ghost head = documents_view(retval@);
            let mut lookups = match build_lookup_inputs(model, graph, kind, mutation_mode, wanted) {
                Ok(lookups) => lookups,
                Err(e) => {
                    return Err(e);
                },
            };
            let ghost tail = documents_view(lookups@);
            retval.append(&mut lookups);
            assert(documents_view(retval@) =~= head + tail);
        },
        None => {},
    }
    Ok(retval)
}

/// Whether a member of a query description is a count.
pub fn count_ok(value: Option<&Json>) -> (r: bool)
    ensures
        r == is_count(held(value)),
{
    match value {
        None => true,
        Some(j) => match j.as_u64() {
            Some(n) => n <= usize::MAX as u64,
            None => false,
        },
    }
}

/// Whether the stages of a pagination can be written as 64-bit signed
/// natives.
pub fn paging_ok(
    take: Option<usize>,
    skip: Option<usize>,
    page_size: Option<usize>,
    page_number: Option<usize>,
) -> (r: bool)
    ensures
        r == paging_in_range(take, skip, page_size, page_number),
{
    match (page_size, page_number) {
        (Some(size), Some(number)) => {
            if number < 1 || size as u64 > i64::MAX as u64 {
                return false;
            }
            let pages: u128 = (number - 1) as u128;
            let each: u128 = size as u128;
            assert(pages * each <= 0xffff_ffff_ffff_ffff * 0xffff_ffff_ffff_ffff)
                by (nonlinear_arith)
                requires
                    0 <= pages <= 0xffff_ffff_ffff_ffff,
                    0 <= each <= 0xffff_ffff_ffff_ffff,
            ;
            pages * each <= i64::MAX as u128
        },
        _ => {
            let skip_fits = match skip {
                Some(n) => n as u64 <= i64::MAX as u64,
                None => true,
            };
            let take_fits = match take {
                Some(n) => n as u64 <= i64::MAX as u64,
                None => true,
            };
            skip_fits && take_fits
        },
    }
}

/// The count that a member of a query description holds.
pub fn unwrap_usize(value: Option<&Json>) -> (r: Option<usize>)
    requires
        is_count(held(value)),
    ensures
        r == count_of(held(value)),
{
    match value {
        Some(value) => Some(value.as_u64().unwrap() as usize),
        None => None,
    }
}

/// Compiles a query description into the stages of an aggregation pipeline.
///
/// In mutation mode, what the description asks to select and to load along
/// is left aside.
pub fn build_query_pipeline_from_json(
    model: &Model,
    graph: &Graph,
    kind: QueryPipelineType,
    mutation_mode: bool,
    json_value: &Json,
) -> (r: Result<Vec<Document>, ActionError>)
    requires
        graph.wf(),
        graph.model_ok(*model),
    ensures
        stages_result(r) == pipeline_of(*model, *graph, kind, mutation_mode, *json_value),
    decreases json_depth(*json_value), 1nat,
{
    let query = match json_value.as_object() {
        None => {
            return Err(
                ActionError::InvalidQueryInput("Query input should be an object.".to_owned()),
            );
        },
        Some(query) => query,
    };
    let filter = get_member(query, "where");
    match kind {
        QueryPipelineType::Unique => {
            match validate_where_unique(model, &filter) {
                Ok(_) => {},
                Err(e) => {
                    return Err(e);
                },
            }
        },
        _ => {},
    }
    let order_by = get_member(query, "orderBy");
    let take = get_member(query, "take");
    let skip = get_member(query, "skip");
    let page_number = get_member(query, "pageNumber");
    let page_size = get_member(query, "pageSize");
    if !(count_ok(take) && count_ok(skip) && count_ok(page_number) && count_ok(page_size)) {
        return Err(ActionError::WrongInputType);
    }
    let take = unwrap_usize(take);
    let skip = unwrap_usize(skip);
    let page_number = unwrap_usize(page_number);
    let page_size = unwrap_usize(page_size);
    if !paging_ok(take, skip, page_size, page_number) {
        return Err(ActionError::WrongInputType);
    }
    let inclusion = if !mutation_mode {
        get_member(query, "include")
    } else {
        None
    };
    let select = if !mutation_mode {
        get_member(query, "select")
    } else {
        None
    };
    proof {
        if inclusion is Some {
            lemma_member_shallower(*json_value, "include"@);
        }
    }
    build_query_pipeline(
        model,
        graph,
        kind,
        mutation_mode,
        filter,
        order_by,
        take,
        skip,
        page_size,
        page_number,
        inclusion,
        select,
    )
}

} // verus!
