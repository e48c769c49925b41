use teo::error::ActionError;
use teo::json::{Json, JsonNumber};
use teo::native::{Document, Native};
use teo::query::{
    build_lookup_inputs, build_query_pipeline, build_query_pipeline_from_json, correlate_pipeline,
    count_ok, merge_conditions, paging_ok, unwrap_usize, QueryPipelineType,
};
use teo::schema::{Field, FieldType, Graph, Model, Relation};

fn s(text: &str) -> Json {
    Json::String(text.to_string())
}

fn n(value: u64) -> Json {
    Json::Number(JsonNumber::PosInt(value))
}

fn obj(members: Vec<(&str, Json)>) -> Json {
    Json::Object(members.into_iter().map(|(k, v)| (k.to_string(), v)).collect())
}

fn doc(entries: Vec<(&str, Native)>) -> Document {
    Document { entries: entries.into_iter().map(|(k, v)| (k.to_string(), v)).collect() }
}

fn d(entries: Vec<(&str, Native)>) -> Native {
    Native::Document(doc(entries))
}

fn text(value: &str) -> Native {
    Native::String(value.to_string())
}

fn field(name: &str, column: Option<&str>, field_type: FieldType) -> Field {
    Field {
        name: name.to_string(),
        column_name: column.map(|c| c.to_string()),
        field_type,
        atomic: true,
    }
}

fn names(items: Vec<&str>) -> Vec<String> {
    items.into_iter().map(|i| i.to_string()).collect()
}

fn graph() -> Graph {
    let user = Model {
        name: "User".to_string(),
        table_name: "users".to_string(),
        fields: vec![field("id", Some("_id"), FieldType::I64), field("name", None, FieldType::String)],
        relations: vec![Relation {
            name: "posts".to_string(),
            model: "Post".to_string(),
            fields: names(vec!["id"]),
            references: names(vec!["authorId"]),
            through: None,
        }],
        query_keys: names(vec!["id", "name"]),
        unique_query_keys: vec![names(vec!["id"])],
    };
    let post = Model {
        name: "Post".to_string(),
        table_name: "posts".to_string(),
        fields: vec![
            field("id", Some("_id"), FieldType::I64),
            field("slug", None, FieldType::String),
            field("title", None, FieldType::String),
            field("authorId", Some("author_id"), FieldType::I64),
        ],
        relations: vec![
            Relation {
                name: "author".to_string(),
                model: "User".to_string(),
                fields: names(vec!["authorId"]),
                references: names(vec!["id"]),
                through: None,
            },
            Relation {
                name: "tags".to_string(),
                model: "Tag".to_string(),
                fields: names(vec!["post"]),
                references: names(vec!["tag"]),
                through: Some("PostTag".to_string()),
            },
        ],
        query_keys: names(vec!["id", "slug", "title", "authorId"]),
        unique_query_keys: vec![names(vec!["id"]), names(vec!["slug"])],
    };
    let tag = Model {
        name: "Tag".to_string(),
        table_name: "tags".to_string(),
        fields: vec![field("id", Some("_id"), FieldType::I64), field("label", None, FieldType::String)],
        relations: vec![],
        query_keys: names(vec!["id", "label"]),
        unique_query_keys: vec![names(vec!["id"])],
    };
    let post_tag = Model {
        name: "PostTag".to_string(),
        table_name: "post_tags".to_string(),
        fields: vec![field("postId", None, FieldType::I64), field("tagId", None, FieldType::I64)],
        relations: vec![
            Relation {
                name: "post".to_string(),
                model: "Post".to_string(),
                fields: names(vec!["postId"]),
                references: names(vec!["id"]),
                through: None,
            },
            Relation {
                name: "tag".to_string(),
                model: "Tag".to_string(),
                fields: names(vec!["tagId"]),
                references: names(vec!["id"]),
                through: None,
            },
        ],
        query_keys: names(vec!["postId", "tagId"]),
        unique_query_keys: vec![names(vec!["postId", "tagId"])],
    };
    Graph { models: vec![user, post, tag, post_tag], enums: vec![] }
}

fn eq(column: &str, variable: &str) -> Native {
    d(vec![("$eq", Native::Array(vec![text(column), text(variable)]))])
}

fn match_all(conds: Vec<Native>) -> Document {
    doc(vec![("$match", d(vec![("$expr", d(vec![("$and", Native::Array(conds))]))]))])
}

fn lookup(from: &str, name: &str, lets: Vec<(&str, Native)>, pipeline: Vec<Document>) -> Document {
    doc(vec![(
        "$lookup",
        d(vec![
            ("from", text(from)),
            ("as", text(name)),
            ("let", d(lets)),
            ("pipeline", Native::Array(pipeline.into_iter().map(Native::Document).collect())),
        ]),
    )])
}

fn author_lookup() -> Document {
    lookup(
        "users",
        "author",
        vec![("id", text("$author_id"))],
        vec![match_all(vec![eq("$_id", "$$id")])],
    )
}

fn compile(model: &str, kind: QueryPipelineType, mutation: bool, query: &Json) -> Result<Vec<Document>, ActionError> {
    let g = graph();
    assert!(g.check());
    let m = g.model(model);
    build_query_pipeline_from_json(m, &g, kind, mutation, query)
}

#[test]
fn the_graph_of_the_tests_is_well_formed() {
    let g = graph();
    assert!(g.check());
    for m in g.models.iter() {
        assert!(g.check_model(m));
    }
}

#[test]
fn a_direct_relation_becomes_one_lookup() {
    let query = obj(vec![("include", obj(vec![("author", Json::Bool(true))]))]);
    assert_eq!(compile("Post", QueryPipelineType::Many, false, &query), Ok(vec![author_lookup()]));
}

#[test]
fn a_lookup_binds_the_local_column_and_matches_the_referenced_one() {
    let g = graph();
    let inclusion = obj(vec![("author", Json::Bool(false))]);
    let stages = build_lookup_inputs(g.model("Post"), &g, QueryPipelineType::Many, false, &inclusion).unwrap();
    assert_eq!(stages.len(), 1);
    let body = match stages[0].get("$lookup") {
        Some(Native::Document(body)) => body,
        _ => panic!("no lookup"),
    };
    assert_eq!(body.get("from"), Some(&text("users")));
    assert_eq!(body.get("as"), Some(&text("author")));
    assert_eq!(body.get("let"), Some(&d(vec![("id", text("$author_id"))])));
    assert_eq!(
        body.get("pipeline"),
        Some(&Native::Array(vec![Native::Document(match_all(vec![eq("$_id", "$$id")]))]))
    );
}

#[test]
fn a_junction_relation_becomes_a_nested_lookup() {
    let query = obj(vec![("include", obj(vec![("tags", Json::Bool(true))]))]);
    let inner = lookup(
        "tags",
        "tags",
        vec![("tagId", text("$tagId"))],
        vec![match_all(vec![eq("$_id", "$$tagId")])],
    );
    let expected = lookup(
        "post_tags",
        "tags",
        vec![("postId", text("$_id"))],
        vec![
            match_all(vec![eq("$postId", "$$postId")]),
            inner,
            doc(vec![("$unwind", d(vec![("path", text("$tags"))]))]),
            doc(vec![("$replaceRoot", d(vec![("newRoot", text("$tags"))]))]),
        ],
    );
    assert_eq!(compile("Post", QueryPipelineType::Many, false, &query), Ok(vec![expected]));
}

#[test]
fn an_unknown_relation_is_named_in_the_failure() {
    let query = obj(vec![("include", obj(vec![("nonexistent", Json::Bool(true))]))]);
    let result = compile("Post", QueryPipelineType::Many, false, &query);
    assert_eq!(
        result,
        Err(ActionError::InvalidQueryInput(
            "Relation 'nonexistent' on model 'Post' is not exist. Please check your input.".to_string()
        ))
    );
    let message = result.unwrap_err().message();
    assert!(message.contains("nonexistent"));
    assert!(message.contains("Post"));
}

#[test]
fn a_relation_wants_a_boolean_or_an_object() {
    let query = obj(vec![("include", obj(vec![("author", n(1))]))]);
    assert_eq!(
        compile("Post", QueryPipelineType::Many, false, &query),
        Err(ActionError::InvalidQueryInput(
            "Relation 'author' on model 'Post' has a unrecognized value. It's either a boolean or an object. Please check your input.".to_string()
        ))
    );
}

#[test]
fn the_inclusion_section_must_be_an_object() {
    let query = obj(vec![("include", Json::Bool(true))]);
    assert_eq!(
        compile("Post", QueryPipelineType::Many, false, &query),
        Err(ActionError::InvalidQueryInput(
            "'include' on model 'Post' is not an object. Please check your input.".to_string()
        ))
    );
}

#[test]
fn the_query_must_be_an_object() {
    assert_eq!(
        compile("Post", QueryPipelineType::Many, false, &Json::Array(vec![])),
        Err(ActionError::InvalidQueryInput("Query input should be an object.".to_string()))
    );
}

#[test]
fn the_first_malformed_relation_stops_the_compiler() {
    let query = obj(vec![(
        "include",
        obj(vec![("author", Json::Bool(true)), ("ghost", Json::Bool(true)), ("tags", n(1))]),
    )]);
    assert_eq!(
        compile("Post", QueryPipelineType::Many, false, &query),
        Err(ActionError::InvalidQueryInput(
            "Relation 'ghost' on model 'Post' is not exist. Please check your input.".to_string()
        ))
    );
}

#[test]
fn a_nested_filter_is_merged_with_the_join() {
    let query = obj(vec![(
        "include",
        obj(vec![("author", obj(vec![("where", obj(vec![("name", s("Ann"))])), ("take", n(1))]))]),
    )]);
    let merged = doc(vec![(
        "$match",
        d(vec![
            ("name", text("Ann")),
            ("$expr", d(vec![("$and", Native::Array(vec![eq("$_id", "$$id")]))])),
        ]),
    )]);
    let expected = lookup(
        "users",
        "author",
        vec![("id", text("$author_id"))],
        vec![merged, doc(vec![("$limit", Native::Int64(1))])],
    );
    assert_eq!(compile("Post", QueryPipelineType::Many, false, &query), Ok(vec![expected]));
}

#[test]
fn a_nested_pagination_gets_a_match_stage_at_its_start() {
    let query = obj(vec![("include", obj(vec![("author", obj(vec![("skip", n(2))]))]))]);
    let expected = lookup(
        "users",
        "author",
        vec![("id", text("$author_id"))],
        vec![match_all(vec![eq("$_id", "$$id")]), doc(vec![("$skip", Native::Int64(2))])],
    );
    assert_eq!(compile("Post", QueryPipelineType::Many, false, &query), Ok(vec![expected]));
}

#[test]
fn inclusions_nest() {
    let query = obj(vec![(
        "include",
        obj(vec![("posts", obj(vec![("include", obj(vec![("author", Json::Bool(true))]))]))]),
    )]);
    let expected = lookup(
        "posts",
        "posts",
        vec![("authorId", text("$_id"))],
        vec![match_all(vec![eq("$author_id", "$$authorId")]), author_lookup()],
    );
    assert_eq!(compile("User", QueryPipelineType::Many, false, &query), Ok(vec![expected]));
}

#[test]
fn a_failure_in_a_nested_query_is_surfaced() {
    let query = obj(vec![(
        "include",
        obj(vec![("author", obj(vec![("where", obj(vec![("email", s("x"))]))]))]),
    )]);
    assert_eq!(compile("Post", QueryPipelineType::Many, false, &query), Err(ActionError::KeysUnallowed));
}

#[test]
fn stages_come_in_order() {
    let query = obj(vec![
        ("include", obj(vec![("author", Json::Bool(true))])),
        ("take", n(5)),
        ("skip", n(10)),
        ("where", obj(vec![("title", s("T"))])),
    ]);
    let expected = vec![
        doc(vec![("$match", d(vec![("title", text("T"))]))]),
        doc(vec![("$skip", Native::Int64(10))]),
        doc(vec![("$limit", Native::Int64(5))]),
        author_lookup(),
    ];
    assert_eq!(compile("Post", QueryPipelineType::Many, false, &query), Ok(expected));
}

#[test]
fn page_based_pagination_takes_precedence() {
    let query = obj(vec![
        ("pageNumber", n(3)),
        ("pageSize", n(20)),
        ("skip", n(7)),
        ("take", n(9)),
    ]);
    let expected = vec![
        doc(vec![("$skip", Native::Int64(40))]),
        doc(vec![("$limit", Native::Int64(20))]),
    ];
    assert_eq!(compile("Post", QueryPipelineType::Many, false, &query), Ok(expected.clone()));
    let without = obj(vec![("pageNumber", n(3)), ("pageSize", n(20))]);
    assert_eq!(compile("Post", QueryPipelineType::Many, false, &without), Ok(expected));
}

#[test]
fn a_lone_page_number_falls_back_to_skip_and_take() {
    let query = obj(vec![("pageNumber", n(3)), ("skip", n(7)), ("take", n(9))]);
    let expected = vec![
        doc(vec![("$skip", Native::Int64(7))]),
        doc(vec![("$limit", Native::Int64(9))]),
    ];
    assert_eq!(compile("Post", QueryPipelineType::Many, false, &query), Ok(expected));
}

#[test]
fn both_paginations_write_the_same_limit_key() {
    let raw = compile("Post", QueryPipelineType::Many, false, &obj(vec![("take", n(20))])).unwrap();
    let paged = compile(
        "Post",
        QueryPipelineType::Many,
        false,
        &obj(vec![("pageNumber", n(1)), ("pageSize", n(20))]),
    )
    .unwrap();
    assert_eq!(raw.last(), paged.last());
    assert_eq!(raw.last().unwrap().get("$limit"), Some(&Native::Int64(20)));
    assert_eq!(raw.last().unwrap().get("limit"), None);
}

#[test]
fn take_alone_gives_one_stage() {
    let query = obj(vec![("take", n(9))]);
    assert_eq!(
        compile("Post", QueryPipelineType::Many, false, &query),
        Ok(vec![doc(vec![("$limit", Native::Int64(9))])])
    );
}

#[test]
fn the_first_page_skips_nothing() {
    let query = obj(vec![("pageNumber", n(1)), ("pageSize", n(20))]);
    assert_eq!(
        compile("Post", QueryPipelineType::Many, false, &query),
        Ok(vec![doc(vec![("$skip", Native::Int64(0))]), doc(vec![("$limit", Native::Int64(20))])])
    );
}

#[test]
fn counts_must_be_non_negative_integers_in_range() {
    let bad = vec![
        obj(vec![("take", s("5"))]),
        obj(vec![("skip", Json::Number(JsonNumber::NegInt(-1)))]),
        obj(vec![("pageSize", Json::Number(JsonNumber::Float(1.5f64.to_bits())))]),
        obj(vec![("pageNumber", Json::Null)]),
        obj(vec![("pageNumber", n(0)), ("pageSize", n(10))]),
        obj(vec![("skip", n(u64::MAX))]),
        obj(vec![("take", n(1u64 << 63))]),
        obj(vec![("pageNumber", n(1u64 << 40)), ("pageSize", n(1u64 << 40))]),
    ];
    for query in bad {
        assert_eq!(
            compile("Post", QueryPipelineType::Many, false, &query),
            Err(ActionError::WrongInputType)
        );
    }
}

#[test]
fn paging_ok_tells_what_fits() {
    assert!(paging_ok(Some(1), Some(2), None, None));
    assert!(paging_ok(None, None, Some(10), Some(1)));
    assert!(paging_ok(Some(usize::MAX), Some(usize::MAX), Some(10), Some(2)));
    assert!(!paging_ok(None, None, Some(10), Some(0)));
    assert!(!paging_ok(None, Some(usize::MAX), Some(10), None));
    assert!(paging_ok(None, None, Some(0), Some(usize::MAX)));
    assert!(!paging_ok(None, None, Some(2), Some(usize::MAX)));
}

#[test]
fn unwrap_usize_reads_counts() {
    assert!(count_ok(Some(&n(12))));
    assert!(count_ok(None));
    assert!(!count_ok(Some(&s("12"))));
    assert!(!count_ok(Some(&Json::Number(JsonNumber::NegInt(-12)))));
    assert_eq!(unwrap_usize(Some(&n(12))), Some(12));
    assert_eq!(unwrap_usize(None), None);
}

#[test]
fn mutation_mode_leaves_inclusions_aside() {
    let query = obj(vec![
        ("where", obj(vec![("title", s("T"))])),
        ("include", obj(vec![("nonexistent", Json::Bool(true))])),
        ("select", obj(vec![("title", Json::Bool(true))])),
    ]);
    assert_eq!(
        compile("Post", QueryPipelineType::Many, true, &query),
        Ok(vec![doc(vec![("$match", d(vec![("title", text("T"))]))])])
    );
}

#[test]
fn order_by_and_select_have_no_stage() {
    let query = obj(vec![
        ("orderBy", obj(vec![("title", s("asc"))])),
        ("select", obj(vec![("title", Json::Bool(true))])),
    ]);
    assert_eq!(compile("Post", QueryPipelineType::Many, false, &query), Ok(vec![]));
}

#[test]
fn an_empty_query_gives_an_empty_pipeline() {
    assert_eq!(compile("Post", QueryPipelineType::First, false, &obj(vec![])), Ok(vec![]));
    assert_eq!(
        compile("Post", QueryPipelineType::First, false, &obj(vec![("where", obj(vec![]))])),
        Ok(vec![])
    );
}

#[test]
fn a_unique_query_validates_its_where_first() {
    let by_slug = obj(vec![("where", obj(vec![("slug", s("x"))]))]);
    assert_eq!(
        compile("Post", QueryPipelineType::Unique, false, &by_slug),
        Ok(vec![doc(vec![("$match", d(vec![("slug", text("x"))]))])])
    );
    let by_title = obj(vec![("where", obj(vec![("title", n(1))])), ("take", s("x"))]);
    assert_eq!(
        compile("Post", QueryPipelineType::Unique, false, &by_title),
        Err(ActionError::FieldIsNotUnique)
    );
    assert_eq!(
        compile("Post", QueryPipelineType::Unique, false, &obj(vec![])),
        Err(ActionError::MissingInputSection)
    );
    assert_eq!(
        compile("Post", QueryPipelineType::Unique, false, &obj(vec![("where", n(1))])),
        Err(ActionError::WrongJsonFormat)
    );
    assert_eq!(
        compile("Post", QueryPipelineType::Many, false, &obj(vec![("where", obj(vec![("title", s("x"))]))])),
        Ok(vec![doc(vec![("$match", d(vec![("title", text("x"))]))])])
    );
}

#[test]
fn build_query_pipeline_takes_the_sections() {
    let g = graph();
    let filter = obj(vec![("id", n(4))]);
    let inclusion = obj(vec![("author", Json::Bool(true))]);
    let stages = build_query_pipeline(
        g.model("Post"),
        &g,
        QueryPipelineType::Many,
        false,
        Some(&filter),
        None,
        Some(3),
        None,
        None,
        Some(2),
        Some(&inclusion),
        None,
    );
    let expected = vec![
        doc(vec![("$match", d(vec![("_id", Native::Int64(4))]))]),
        doc(vec![("$limit", Native::Int64(3))]),
        author_lookup(),
    ];
    assert_eq!(stages, Ok(expected));
}

#[test]
fn merging_adds_to_the_conditions_that_are_there() {
    let stage = doc(vec![(
        "$match",
        d(vec![
            ("$expr", d(vec![("$or", Native::Array(vec![])), ("$and", Native::Array(vec![text("a")]))])),
            ("x", Native::Int32(1)),
        ]),
    )]);
    let merged = merge_conditions(stage, vec![text("b"), text("c")]);
    let expected = doc(vec![(
        "$match",
        d(vec![
            (
                "$expr",
                d(vec![
                    ("$or", Native::Array(vec![])),
                    ("$and", Native::Array(vec![text("a"), text("b"), text("c")])),
                ]),
            ),
            ("x", Native::Int32(1)),
        ]),
    )]);
    assert_eq!(merged, expected);
}

#[test]
fn correlating_finds_the_first_match_stage() {
    let stages = vec![
        doc(vec![("$skip", Native::Int64(1))]),
        doc(vec![("$match", d(vec![("a", Native::Int32(1))]))]),
        doc(vec![("$match", d(vec![("b", Native::Int32(2))]))]),
    ];
    let out = correlate_pipeline(stages, vec![text("c")]);
    let expected = vec![
        doc(vec![("$skip", Native::Int64(1))]),
        doc(vec![(
            "$match",
            d(vec![("a", Native::Int32(1)), ("$expr", d(vec![("$and", Native::Array(vec![text("c")]))]))]),
        )]),
        doc(vec![("$match", d(vec![("b", Native::Int32(2))]))]),
    ];
    assert_eq!(out, expected);
    assert_eq!(correlate_pipeline(vec![], vec![text("c")]), vec![match_all(vec![text("c")])]);
}

fn keys_are_distinct(native: &Native) -> bool {
    match native {
        Native::Array(items) => items.iter().all(keys_are_distinct),
        Native::Document(d) => {
            let mut seen: Vec<&str> = vec![];
            for (key, value) in d.entries.iter() {
                if seen.contains(&key.as_str()) || !keys_are_distinct(value) {
                    return false;
                }
                seen.push(key.as_str());
            }
            true
        }
        _ => true,
    }
}

#[test]
fn no_document_of_a_plan_has_a_key_twice() {
    let query = obj(vec![
        ("where", obj(vec![("title", obj(vec![("gt", s("a")), ("lt", s("z")), ("in", Json::Array(vec![s("b")]))]))])),
        ("skip", n(1)),
        ("take", n(2)),
        (
            "include",
            obj(vec![
                ("author", obj(vec![("where", obj(vec![("name", s("Ann")), ("id", n(1))]))])),
                ("tags", Json::Bool(true)),
            ]),
        ),
    ]);
    let stages = compile("Post", QueryPipelineType::Many, false, &query).unwrap();
    assert_eq!(stages.len(), 5);
    for stage in stages {
        assert!(keys_are_distinct(&Native::Document(stage)));
    }
}
