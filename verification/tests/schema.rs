use std::path::PathBuf;
use teo::ast::{Identifier, Import, Span, StringLiteral};
use teo::client::generate_runtime_ts;
use teo::native::{Document, Native};
use teo::object_id::write_object_id;
use teo::schema::{EnumDef, Field, FieldType, Graph, Model, Relation};
use teo::text::{joined, decimal, str_eq, vec_has};

fn names(items: Vec<&str>) -> Vec<String> {
    items.into_iter().map(|i| i.to_string()).collect()
}

fn field(name: &str, field_type: FieldType) -> Field {
    Field { name: name.to_string(), column_name: None, field_type, atomic: true }
}

fn model(name: &str, fields: Vec<Field>, relations: Vec<Relation>, keys: Vec<&str>) -> Model {
    Model {
        name: name.to_string(),
        table_name: name.to_lowercase(),
        fields,
        relations,
        query_keys: names(keys),
        unique_query_keys: vec![],
    }
}

fn relation(name: &str, target: &str, fields: Vec<&str>, references: Vec<&str>, through: Option<&str>) -> Relation {
    Relation {
        name: name.to_string(),
        model: target.to_string(),
        fields: names(fields),
        references: names(references),
        through: through.map(|t| t.to_string()),
    }
}

fn sound() -> Graph {
    Graph {
        models: vec![
            model(
                "A",
                vec![field("id", FieldType::I64), field("kind", FieldType::Enum("Kind".to_string()))],
                vec![
                    relation("bs", "B", vec!["id"], vec!["aId"], None),
                    relation("cs", "C", vec!["a"], vec!["c"], Some("AC")),
                ],
                vec!["id", "kind"],
            ),
            model("B", vec![field("id", FieldType::I64), field("aId", FieldType::I64)], vec![], vec!["id"]),
            model("C", vec![field("id", FieldType::I64)], vec![], vec![]),
            model(
                "AC",
                vec![field("aId", FieldType::I64), field("cId", FieldType::I64)],
                vec![
                    relation("a", "A", vec!["aId"], vec!["id"], None),
                    relation("c", "C", vec!["cId"], vec!["id"], None),
                ],
                vec![],
            ),
        ],
        enums: vec![EnumDef { name: "Kind".to_string(), values: names(vec!["X"]) }],
    }
}

#[test]
fn a_sound_graph_passes() {
    assert!(sound().check());
}

#[test]
fn lookups_find_the_first_of_a_name() {
    let g = sound();
    assert_eq!(g.model("B").table_name(), "b");
    assert_eq!(g.model_position("AC"), 3);
    assert_eq!(g.model_position("Z"), 4);
    assert!(g.check_has_model("C"));
    assert!(!g.check_has_model("c"));
    assert!(g.check_has_enum("Kind"));
    assert!(!g.check_has_enum("Sort"));
    assert_eq!(g.enum_values("Kind"), &names(vec!["X"]));
    assert_eq!(g.enum_position("Nope"), 1);
    let a = g.model("A");
    assert_eq!(a.field("kind").map(|f| f.name.as_str()), Some("kind"));
    assert!(a.field("nope").is_none());
    assert_eq!(a.relation("cs").map(|r| r.model.as_str()), Some("C"));
    assert!(a.relation("ds").is_none());
    assert_eq!(a.query_keys(), &names(vec!["id", "kind"]));
    assert!(a.unique_query_keys().is_empty());
}

#[test]
fn a_query_key_must_name_a_scalar_field() {
    let mut g = sound();
    g.models[1].query_keys.push("missing".to_string());
    assert!(!g.check());
    let mut g = sound();
    g.models[1].fields.push(field("tags", FieldType::Vec(Box::new(FieldType::String))));
    assert!(g.check());
    g.models[1].query_keys.push("tags".to_string());
    assert!(!g.check());
    assert!(!g.check_queryable(&g.models[1]));
    for t in vec![
        FieldType::Undefined,
        FieldType::Dictionary(Box::new(FieldType::I8)),
        FieldType::Object("A".to_string()),
        FieldType::Enum("Unknown".to_string()),
    ] {
        assert!(!g.check_filterable(&t));
    }
    assert!(g.check_filterable(&FieldType::Decimal));
    assert!(g.check_filterable(&FieldType::Enum("Kind".to_string())));
}

#[test]
fn a_direct_relation_must_pair_existing_fields() {
    let mut g = sound();
    g.models[0].relations[0].model = "Nowhere".to_string();
    assert!(!g.check());
    let mut g = sound();
    g.models[0].relations[0].fields.push("kind".to_string());
    assert!(!g.check());
    let mut g = sound();
    g.models[0].relations[0].fields = names(vec!["nope"]);
    assert!(!g.check());
    let mut g = sound();
    g.models[0].relations[0].references = names(vec!["nope"]);
    assert!(!g.check());
    assert!(!g.check_relation(&g.models[0], &g.models[0].relations[0]));
    assert!(g.check_relation(&g.models[0], &g.models[0].relations[1]));
}

#[test]
fn a_junction_relation_must_resolve_both_sides() {
    let mut g = sound();
    g.models[0].relations[1].through = Some("Nowhere".to_string());
    assert!(!g.check());
    let mut g = sound();
    g.models[0].relations[1].fields = vec![];
    assert!(!g.check());
    let mut g = sound();
    g.models[0].relations[1].references = names(vec!["nope"]);
    assert!(!g.check());
    let mut g = sound();
    g.models[3].relations[1].model = "Nowhere".to_string();
    assert!(!g.check());
    let mut g = sound();
    g.models[3].relations[0].references = names(vec!["nope"]);
    assert!(!g.check());
    let mut g = sound();
    g.models[3].relations[1].references = names(vec!["id", "id"]);
    assert!(!g.check());
}

#[test]
fn field_type_clone_is_deep() {
    let t = FieldType::Vec(Box::new(FieldType::Dictionary(Box::new(FieldType::Enum("K".to_string())))));
    assert_eq!(t.clone(), t);
    assert!(Graph::check_all_fields(&sound().models[0], &names(vec!["id", "kind"])));
    assert!(!Graph::check_all_fields(&sound().models[0], &names(vec!["id", "x"])));
}

#[test]
fn documents_insert_in_place_or_at_the_end() {
    let mut d = Document::new();
    assert!(d.is_empty());
    d.insert("a".to_string(), Native::Int32(1));
    d.insert("b".to_string(), Native::Int32(2));
    d.insert("a".to_string(), Native::Int32(3));
    assert_eq!(d.len(), 2);
    assert_eq!(d.position("a"), 0);
    assert_eq!(d.position("b"), 1);
    assert_eq!(d.position("c"), 2);
    assert_eq!(d.get("a"), Some(&Native::Int32(3)));
    assert_eq!(d.get("c"), None);
    assert_eq!(
        d,
        Document { entries: vec![("a".to_string(), Native::Int32(3)), ("b".to_string(), Native::Int32(2))] }
    );
    assert_eq!(d.clone(), d);
}

#[test]
fn documents_hand_out_what_they_hold() {
    let inner = Document { entries: vec![("x".to_string(), Native::Null)] };
    let mut d = Document {
        entries: vec![
            ("n".to_string(), Native::Int32(1)),
            ("d".to_string(), Native::Document(inner.clone())),
            ("l".to_string(), Native::Array(vec![Native::Boolean(true)])),
        ],
    };
    assert_eq!(d.take_document("d"), inner);
    assert_eq!(d.get("d"), Some(&Native::Null));
    assert_eq!(d.take_document("n"), Document::new());
    assert_eq!(d.get("n"), Some(&Native::Int32(1)));
    assert_eq!(d.take_document("zz"), Document::new());
    assert_eq!(d.take_array("l"), vec![Native::Boolean(true)]);
    assert_eq!(d.take_array("n"), vec![]);
    assert_eq!(d.len(), 3);
    assert_eq!(d.position("l"), 2);
}

#[test]
fn object_ids_are_written_in_lower_case() {
    let bytes = [0x50, 0x7f, 0x1f, 0x77, 0xbc, 0xf8, 0x6c, 0xd7, 0x99, 0x43, 0x90, 0x11];
    assert_eq!(write_object_id(&bytes), "507f1f77bcf86cd799439011");
    assert_eq!(write_object_id(&[0u8; 12]), "000000000000000000000000");
    assert_eq!(write_object_id(&[0xabu8; 12]), "abababababababababababab");
}

#[test]
fn text_helpers() {
    assert!(str_eq("", ""));
    assert!(str_eq("héllo", "héllo"));
    assert!(!str_eq("hello", "hellp"));
    assert!(!str_eq("hello", "hell"));
    assert_eq!(joined("$", "name"), "$name");
    assert!(vec_has(&names(vec!["a", "b"]), "b"));
    assert!(!vec_has(&names(vec!["a", "b"]), "c"));
    assert_eq!(decimal(0), "0");
    assert_eq!(decimal(9), "9");
    assert_eq!(decimal(10), "10");
    assert_eq!(decimal(65535), "65535");
    assert_eq!(decimal(u64::MAX), "18446744073709551615");
}

#[test]
fn an_import_starts_unresolved() {
    let span = Span { start: 3, end: 40 };
    let import = Import::new(
        4,
        2,
        vec![Identifier { name: "User".to_string(), span: Span { start: 10, end: 14 } }],
        StringLiteral { value: "./user".to_string(), span: Span { start: 22, end: 30 } },
        PathBuf::from("/schema/user.teo"),
        span,
    );
    assert_eq!(import.id, 4);
    assert_eq!(import.source_id, 2);
    assert_eq!(import.identifiers.len(), 1);
    assert_eq!(import.identifiers[0].name, "User");
    assert_eq!(import.source.value, "./user");
    assert_eq!(import.path, PathBuf::from("/schema/user.teo"));
    assert_eq!(import.span, span);
    assert!(!import.resolved);
    assert_eq!(import.from_id, None);
    assert!(import.references.is_empty());
}

#[test]
fn the_runtime_names_the_actions_and_the_server() {
    let text = generate_runtime_ts(&names(vec!["FindMany", "Create"]), "http://localhost:5100");
    assert!(text.starts_with("type Action = \"FindMany\" | \"Create\"\n\nexport type Enumerable<T> = T | Array<T>\n"));
    assert!(text.contains("    let url = \"http://localhost:5100/\" + url_segment_name + \"/action\"\n"));
    assert!(text.contains("headers: getBearerToken() ? { \"Authorization\": `Bearer ${getBearerToken()}` } : undefined,"));
    assert!(text.ends_with("    return await response.json()\n}\n"));
    let one = generate_runtime_ts(&names(vec!["Delete"]), "");
    assert!(one.starts_with("type Action = \"Delete\"\n\n"));
    let none = generate_runtime_ts(&vec![], "u");
    assert!(none.starts_with("type Action = \n\n"));
    assert_eq!(text.lines().count(), 49);
}
