use teo::error::ActionError;
use teo::filter::{
    build_where_input, has_i_mode, make_pattern, native_operator, parse_bson_where_entry,
    read_operator, validate_where_unique, Operator,
};
use teo::json::{Json, JsonNumber};
use teo::native::{Document, Native};
use teo::schema::{EnumDef, Field, FieldType, Graph, Model};

fn s(text: &str) -> Json {
    Json::String(text.to_string())
}

fn n(value: u64) -> Json {
    Json::Number(JsonNumber::PosInt(value))
}

fn obj(members: Vec<(&str, Json)>) -> Json {
    Json::Object(members.into_iter().map(|(k, v)| (k.to_string(), v)).collect())
}

fn doc(entries: Vec<(&str, Native)>) -> Document {
    Document { entries: entries.into_iter().map(|(k, v)| (k.to_string(), v)).collect() }
}

fn field(name: &str, column: Option<&str>, field_type: FieldType) -> Field {
    Field {
        name: name.to_string(),
        column_name: column.map(|c| c.to_string()),
        field_type,
        atomic: true,
    }
}

fn graph() -> Graph {
    Graph {
        models: vec![],
        enums: vec![EnumDef {
            name: "Sex".to_string(),
            values: vec!["MALE".to_string(), "FEMALE".to_string()],
        }],
    }
}

fn user() -> Model {
    Model {
        name: "User".to_string(),
        table_name: "users".to_string(),
        fields: vec![
            field("id", Some("_id"), FieldType::ObjectId),
            field("name", Some("full_name"), FieldType::String),
            field("age", Some("age_years"), FieldType::I32),
            field("height", None, FieldType::F64),
            field("active", Some("is_active"), FieldType::Bool),
            field("born", Some("born_on"), FieldType::Date),
            field("seen", Some("seen_at"), FieldType::DateTime),
            field("sex", Some("sex_code"), FieldType::Enum("Sex".to_string())),
            field("secret", None, FieldType::String),
            field("balance", None, FieldType::Decimal),
        ],
        relations: vec![],
        query_keys: vec![
            "id".to_string(), "name".to_string(), "age".to_string(), "height".to_string(),
            "active".to_string(), "born".to_string(), "seen".to_string(), "sex".to_string(),
            "balance".to_string(),
        ],
        unique_query_keys: vec![vec!["id".to_string()], vec!["name".to_string(), "born".to_string()]],
    }
}

fn post() -> Model {
    Model {
        name: "Post".to_string(),
        table_name: "posts".to_string(),
        fields: vec![
            field("id", None, FieldType::I64),
            field("slug", None, FieldType::String),
            field("title", None, FieldType::String),
        ],
        relations: vec![],
        query_keys: vec!["id".to_string(), "slug".to_string(), "title".to_string()],
        unique_query_keys: vec![vec!["id".to_string()], vec!["slug".to_string()]],
    }
}

fn regex(pattern: &str, options: &str) -> Native {
    Native::RegularExpression { pattern: pattern.to_string(), options: options.to_string() }
}

#[test]
fn schema_of_the_tests_is_queryable() {
    let g = graph();
    assert!(g.check_queryable(&user()));
    assert!(g.check_queryable(&post()));
}

#[test]
fn a_scalar_is_equality_on_the_storage_column() {
    let g = graph();
    let m = user();
    let cases: Vec<(&str, Json, &str, Native)> = vec![
        ("id", s("507f1f77bcf86cd799439011"), "_id",
            Native::ObjectId([0x50, 0x7f, 0x1f, 0x77, 0xbc, 0xf8, 0x6c, 0xd7, 0x99, 0x43, 0x90, 0x11])),
        ("name", s("Ann"), "full_name", Native::String("Ann".to_string())),
        ("age", n(30), "age_years", Native::Int64(30)),
        ("height", n(2), "height", Native::Double(2.0f64.to_bits())),
        ("active", Json::Bool(true), "is_active", Native::Boolean(true)),
        ("born", s("2020-01-05"), "born_on", Native::DateTime(1578182400000)),
        ("seen", s("1996-12-19T16:39:57-08:00"), "seen_at", Native::DateTime(851042397000)),
        ("sex", s("FEMALE"), "sex_code", Native::String("FEMALE".to_string())),
    ];
    for (key, value, column, native) in cases {
        let filter = obj(vec![(key, value)]);
        assert_eq!(build_where_input(&m, &g, Some(&filter)), Ok(doc(vec![(column, native)])));
    }
}

#[test]
fn gt_and_gte_compile_to_different_predicates() {
    let g = graph();
    let m = user();
    let gt = obj(vec![("age", obj(vec![("gt", n(30))]))]);
    let gte = obj(vec![("age", obj(vec![("gte", n(30))]))]);
    assert_eq!(
        build_where_input(&m, &g, Some(&gt)),
        Ok(doc(vec![("age_years", Native::Document(doc(vec![("$gt", Native::Int64(30))])))]))
    );
    assert_eq!(
        build_where_input(&m, &g, Some(&gte)),
        Ok(doc(vec![("age_years", Native::Document(doc(vec![("$gte", Native::Int64(30))])))]))
    );
    assert_ne!(build_where_input(&m, &g, Some(&gt)), build_where_input(&m, &g, Some(&gte)));
}

#[test]
fn each_comparison_has_its_own_native_operator() {
    let g = graph();
    assert_eq!(
        parse_bson_where_entry(&FieldType::I32, &obj(vec![("gte", n(30))]), &g),
        Ok(Native::Document(doc(vec![("$gte", Native::Int64(30))])))
    );
    assert_eq!(
        parse_bson_where_entry(&FieldType::I64, &obj(vec![("lt", n(5))]), &g),
        Ok(Native::Document(doc(vec![("$lt", Native::Int64(5))])))
    );
    for (op, key) in [("gt", "$gt"), ("gte", "$gte"), ("lt", "$lt"), ("lte", "$lte")] {
        assert_eq!(
            parse_bson_where_entry(&FieldType::String, &obj(vec![(op, s("m"))]), &g),
            Ok(Native::Document(doc(vec![(key, Native::String("m".to_string()))])))
        );
        assert_eq!(
            parse_bson_where_entry(&FieldType::Date, &obj(vec![(op, s("2020-01-05"))]), &g),
            Ok(Native::Document(doc(vec![(key, Native::DateTime(1578182400000))])))
        );
        assert_eq!(
            parse_bson_where_entry(&FieldType::F64, &obj(vec![(op, n(2))]), &g),
            Ok(Native::Document(doc(vec![(key, Native::Double(2.0f64.to_bits()))])))
        );
        assert_eq!(native_operator(read_operator(&FieldType::I8, op).unwrap()), key);
    }
}

#[test]
fn a_failure_of_the_operand_passes_through_a_comparison() {
    let g = graph();
    for op in ["gt", "gte", "lt", "lte", "equals", "not"] {
        assert_eq!(
            parse_bson_where_entry(&FieldType::Date, &obj(vec![(op, s("nope"))]), &g),
            Err(ActionError::WrongDateFormat)
        );
        assert_eq!(
            parse_bson_where_entry(&FieldType::I32, &obj(vec![(op, s("1"))]), &g),
            Err(ActionError::WrongInputType)
        );
    }
}

#[test]
fn not_compiles_to_the_negation_of_equality() {
    let g = graph();
    assert_eq!(
        parse_bson_where_entry(&FieldType::I32, &obj(vec![("not", n(1))]), &g),
        Ok(Native::Document(doc(vec![("$ne", Native::Int64(1))])))
    );
    assert_eq!(
        parse_bson_where_entry(&FieldType::I32, &obj(vec![("equals", n(1))]), &g),
        Ok(Native::Document(doc(vec![("$eq", Native::Int64(1))])))
    );
    assert_eq!(
        parse_bson_where_entry(&FieldType::Bool, &obj(vec![("not", Json::Bool(true))]), &g),
        Ok(Native::Document(doc(vec![("$ne", Native::Boolean(true))])))
    );
    assert_eq!(
        parse_bson_where_entry(&FieldType::Enum("Sex".to_string()), &obj(vec![("not", s("MALE"))]), &g),
        Ok(Native::Document(doc(vec![("$ne", Native::String("MALE".to_string()))])))
    );
}

#[test]
fn contains_escapes_its_text() {
    let g = graph();
    let m = user();
    let filter = obj(vec![("name", obj(vec![("contains", s("a.b"))]))]);
    let expected = doc(vec![("full_name", Native::Document(doc(vec![("$regex", regex("a\\.b", ""))])))]);
    assert_eq!(build_where_input(&m, &g, Some(&filter)), Ok(expected));
}

#[test]
fn pattern_operators_anchor_and_escape() {
    assert_eq!(make_pattern(Operator::Contains, "a.b"), "a\\.b");
    assert_eq!(make_pattern(Operator::StartsWith, "a.b"), "^a\\.b");
    assert_eq!(make_pattern(Operator::EndsWith, "a.b"), "a\\.b$");
    assert_eq!(make_pattern(Operator::Matches, "a.b"), "a.b");
    assert_eq!(
        make_pattern(Operator::Contains, "\\.+*?()|[]{}^$#&-~x%"),
        "\\\\\\.\\+\\*\\?\\(\\)\\|\\[\\]\\{\\}\\^\\$\\#\\&\\-\\~x%"
    );
    assert_eq!(make_pattern(Operator::Contains, ""), "");
}

#[test]
fn mode_applies_to_the_pattern_in_the_same_object() {
    let g = graph();
    let with_mode = obj(vec![("startsWith", s("An")), ("mode", s("caseInsensitive"))]);
    assert_eq!(
        parse_bson_where_entry(&FieldType::String, &with_mode, &g),
        Ok(Native::Document(doc(vec![("$regex", regex("^An", "i"))])))
    );
    let mode_first = obj(vec![("mode", s("caseInsensitive")), ("endsWith", s("n"))]);
    assert_eq!(
        parse_bson_where_entry(&FieldType::String, &mode_first, &g),
        Ok(Native::Document(doc(vec![("$regex", regex("n$", "i"))])))
    );
    let other_mode = obj(vec![("matches", s("^A.*")), ("mode", s("default"))]);
    assert_eq!(
        parse_bson_where_entry(&FieldType::String, &other_mode, &g),
        Ok(Native::Document(doc(vec![("$regex", regex("^A.*", ""))])))
    );
}

#[test]
fn has_i_mode_wants_the_exact_string() {
    let yes = vec![("mode".to_string(), s("caseInsensitive"))];
    let no = vec![("mode".to_string(), s("caseinsensitive"))];
    let not_string = vec![("mode".to_string(), Json::Bool(true))];
    let absent: Vec<(String, Json)> = vec![];
    assert!(has_i_mode(&yes));
    assert!(!has_i_mode(&no));
    assert!(!has_i_mode(&not_string));
    assert!(!has_i_mode(&absent));
}

#[test]
fn in_and_not_in_parse_each_item() {
    let g = graph();
    assert_eq!(
        parse_bson_where_entry(&FieldType::I64, &obj(vec![("in", Json::Array(vec![n(1), n(2)]))]), &g),
        Ok(Native::Document(doc(vec![("$in", Native::Array(vec![Native::Int64(1), Native::Int64(2)]))])))
    );
    assert_eq!(
        parse_bson_where_entry(&FieldType::String, &obj(vec![("notIn", Json::Array(vec![]))]), &g),
        Ok(Native::Document(doc(vec![("$nin", Native::Array(vec![]))])))
    );
    assert_eq!(
        parse_bson_where_entry(
            &FieldType::Enum("Sex".to_string()),
            &obj(vec![("in", Json::Array(vec![s("MALE"), s("FEMALE")]))]),
            &g
        ),
        Ok(Native::Document(doc(vec![(
            "$in",
            Native::Array(vec![Native::String("MALE".to_string()), Native::String("FEMALE".to_string())])
        )])))
    );
    assert_eq!(
        parse_bson_where_entry(
            &FieldType::Bool,
            &obj(vec![("in", Json::Array(vec![Json::Bool(true)]))]),
            &g
        ),
        Ok(Native::Document(doc(vec![("$in", Native::Array(vec![Native::Boolean(true)]))])))
    );
}

#[test]
fn in_wants_an_array_and_reports_the_first_bad_item() {
    let g = graph();
    assert_eq!(
        parse_bson_where_entry(&FieldType::I64, &obj(vec![("in", n(1))]), &g),
        Err(ActionError::WrongInputType)
    );
    assert_eq!(
        parse_bson_where_entry(
            &FieldType::Date,
            &obj(vec![("in", Json::Array(vec![s("2020-01-05"), s("nope"), n(3)]))]),
            &g
        ),
        Err(ActionError::WrongDateFormat)
    );
    assert_eq!(
        parse_bson_where_entry(
            &FieldType::Enum("Sex".to_string()),
            &obj(vec![("notIn", Json::Array(vec![s("MALE"), s("X")]))]),
            &g
        ),
        Err(ActionError::UndefinedEnumValue)
    );
}

#[test]
fn several_operators_fold_into_one_document() {
    let g = graph();
    let v = obj(vec![("gt", n(1)), ("equals", n(2)), ("lt", n(3)), ("gt", n(4)), ("not", n(5))]);
    assert_eq!(
        parse_bson_where_entry(&FieldType::U8, &v, &g),
        Ok(Native::Document(doc(vec![
            ("$gt", Native::Int64(4)),
            ("$eq", Native::Int64(2)),
            ("$lt", Native::Int64(3)),
            ("$ne", Native::Int64(5)),
        ])))
    );
}

#[test]
fn unknown_operators_are_rejected() {
    let g = graph();
    assert_eq!(
        parse_bson_where_entry(&FieldType::I32, &obj(vec![("between", n(1))]), &g),
        Err(ActionError::WrongInputType)
    );
    assert_eq!(
        parse_bson_where_entry(&FieldType::I32, &obj(vec![("contains", s("1"))]), &g),
        Err(ActionError::WrongInputType)
    );
    assert_eq!(
        parse_bson_where_entry(&FieldType::Bool, &obj(vec![("gt", Json::Bool(true))]), &g),
        Err(ActionError::WrongInputType)
    );
    assert_eq!(
        parse_bson_where_entry(&FieldType::Enum("Sex".to_string()), &obj(vec![("lte", s("MALE"))]), &g),
        Err(ActionError::WrongInputType)
    );
    assert_eq!(
        parse_bson_where_entry(&FieldType::I32, &obj(vec![("mode", s("caseInsensitive"))]), &g),
        Err(ActionError::WrongInputType)
    );
}

#[test]
fn operator_names_are_read_by_type() {
    assert_eq!(read_operator(&FieldType::I32, "gt"), Some(Operator::Greater));
    assert_eq!(read_operator(&FieldType::I32, "gte"), Some(Operator::GreaterOrEqual));
    assert_eq!(read_operator(&FieldType::I32, "lt"), Some(Operator::Less));
    assert_eq!(read_operator(&FieldType::I32, "lte"), Some(Operator::LessOrEqual));
    assert_eq!(read_operator(&FieldType::I32, "equals"), Some(Operator::Equal));
    assert_eq!(read_operator(&FieldType::I32, "not"), Some(Operator::NotEqual));
    assert_eq!(read_operator(&FieldType::Bool, "gte"), None);
    assert_eq!(read_operator(&FieldType::String, "mode"), Some(Operator::Mode));
    assert_eq!(read_operator(&FieldType::Date, "startsWith"), None);
    assert_eq!(read_operator(&FieldType::Enum("Sex".to_string()), "notIn"), Some(Operator::NoneOf));
}

#[test]
fn wrong_shapes_are_wrong_input() {
    let g = graph();
    assert_eq!(parse_bson_where_entry(&FieldType::I32, &s("1"), &g), Err(ActionError::WrongInputType));
    assert_eq!(parse_bson_where_entry(&FieldType::String, &n(1), &g), Err(ActionError::WrongInputType));
    assert_eq!(parse_bson_where_entry(&FieldType::Bool, &Json::Null, &g), Err(ActionError::WrongInputType));
    assert_eq!(
        parse_bson_where_entry(&FieldType::ObjectId, &s("xyz"), &g),
        Err(ActionError::WrongInputType)
    );
    assert_eq!(
        parse_bson_where_entry(&FieldType::Decimal, &obj(vec![("equals", s("1.0"))]), &g),
        Err(ActionError::WrongInputType)
    );
}

#[test]
fn empty_or_absent_where_gives_an_empty_match() {
    let g = graph();
    let m = user();
    assert_eq!(build_where_input(&m, &g, None), Ok(doc(vec![])));
    assert_eq!(build_where_input(&m, &g, Some(&obj(vec![]))), Ok(doc(vec![])));
}

#[test]
fn where_must_be_an_object() {
    let g = graph();
    let m = user();
    assert_eq!(build_where_input(&m, &g, Some(&s("x"))), Err(ActionError::WrongJsonFormat));
    assert_eq!(build_where_input(&m, &g, Some(&Json::Array(vec![]))), Err(ActionError::WrongJsonFormat));
}

#[test]
fn keys_that_may_not_be_queried_are_rejected() {
    let g = graph();
    let m = user();
    assert_eq!(
        build_where_input(&m, &g, Some(&obj(vec![("secret", s("x"))]))),
        Err(ActionError::KeysUnallowed)
    );
    assert_eq!(
        build_where_input(&m, &g, Some(&obj(vec![("nothing", s("x"))]))),
        Err(ActionError::KeysUnallowed)
    );
}

#[test]
fn the_first_failure_is_surfaced() {
    let g = graph();
    let m = user();
    let filter = obj(vec![("name", s("Ann")), ("born", s("bad")), ("secret", n(1)), ("sex", s("X"))]);
    assert_eq!(build_where_input(&m, &g, Some(&filter)), Err(ActionError::WrongDateFormat));
    let filter = obj(vec![("sex", s("X")), ("born", s("bad"))]);
    assert_eq!(build_where_input(&m, &g, Some(&filter)), Err(ActionError::UndefinedEnumValue));
}

#[test]
fn several_fields_fold_into_one_conjunction() {
    let g = graph();
    let m = user();
    let filter = obj(vec![("age", obj(vec![("gt", n(18))])), ("name", s("Ann"))]);
    let expected = doc(vec![
        ("age_years", Native::Document(doc(vec![("$gt", Native::Int64(18))]))),
        ("full_name", Native::String("Ann".to_string())),
    ]);
    assert_eq!(build_where_input(&m, &g, Some(&filter)), Ok(expected));
}

#[test]
fn validate_where_unique_follows_the_unique_keys() {
    let m = post();
    let by_id = obj(vec![("id", n(1))]);
    let by_slug = obj(vec![("slug", s("x"))]);
    let by_title = obj(vec![("title", s("x"))]);
    assert_eq!(validate_where_unique(&m, &Some(&by_id)), Ok(()));
    assert_eq!(validate_where_unique(&m, &Some(&by_slug)), Ok(()));
    assert_eq!(validate_where_unique(&m, &Some(&by_title)), Err(ActionError::FieldIsNotUnique));
    assert_eq!(validate_where_unique(&m, &None), Err(ActionError::MissingInputSection));
}

#[test]
fn validate_where_unique_compares_sets_of_keys() {
    let m = user();
    let both = obj(vec![("born", s("2020-01-05")), ("name", s("Ann"))]);
    let one = obj(vec![("name", s("Ann"))]);
    let more = obj(vec![("id", s("x")), ("name", s("Ann"))]);
    let none = obj(vec![]);
    assert_eq!(validate_where_unique(&m, &Some(&both)), Ok(()));
    assert_eq!(validate_where_unique(&m, &Some(&one)), Err(ActionError::FieldIsNotUnique));
    assert_eq!(validate_where_unique(&m, &Some(&more)), Err(ActionError::FieldIsNotUnique));
    assert_eq!(validate_where_unique(&m, &Some(&none)), Err(ActionError::FieldIsNotUnique));
    assert_eq!(validate_where_unique(&m, &Some(&s("id"))), Err(ActionError::WrongJsonFormat));
}
