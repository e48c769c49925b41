//! The filter-expression compiler: from a JSON `where` object to the native
//! match document, with the validation of unique lookups.

use vstd::prelude::*;
use crate::error::{ActionError, ActionErrorView};
use crate::json::{get_member, member, member_names, Json};
use crate::native::{doc_insert, natives_view, Document, DocumentView, Native, NativeView};
use crate::scalar::{native_result, parse_scalar, scalar_of};
use crate::schema::{filterable, FieldType, Graph, Model};
use crate::text::{index_of, joined, lemma_index_of_first, seq_has, str_eq, strings_view, vec_has};

verus! {

/// What a filter operator asks of its field.
#[derive(Debug, Clone, Copy, PartialEq, Eq)]
pub enum Operator {
    /// `equals`.
    Equal,
    /// `not`.
    NotEqual,
    /// `gt`.
    Greater,
    /// `gte`.
    GreaterOrEqual,
    /// `lt`.
    Less,
    /// `lte`.
    LessOrEqual,
    /// `in`.
    AnyOf,
    /// `notIn`.
    NoneOf,
    /// `contains`.
    Contains,
    /// `startsWith`.
    StartsWith,
    /// `endsWith`.
    EndsWith,
    /// `matches`.
    Matches,
    /// `mode`: no predicate of its own, a flag for the pattern operators.
    Mode,
}

/// Whether values of a type are ordered, so that the comparison operators
/// apply.
pub open spec fn is_ordered(t: FieldType) -> bool {
    !(t is Bool) && !(t is Enum)
}

/// The operator that `name` stands for on a field of type `t`, if it stands
/// for one. Every scalar type knows `equals`, `not`, `in` and `notIn`; the
/// ordered types know the four comparisons, each an operator of its own;
/// strings know the four pattern operators and `mode`.
pub open spec fn operator_named(t: FieldType, name: Seq<char>) -> Option<Operator> {
    if name == "equals"@ {
        Some(Operator::Equal)
    } else if name == "not"@ {
        Some(Operator::NotEqual)
    } else if name == "in"@ {
        Some(Operator::AnyOf)
    } else if name == "notIn"@ {
        Some(Operator::NoneOf)
    } else if is_ordered(t) && name == "gt"@ {
        Some(Operator::Greater)
    } else if is_ordered(t) && name == "gte"@ {
        Some(Operator::GreaterOrEqual)
    } else if is_ordered(t) && name == "lt"@ {
        Some(Operator::Less)
    } else if is_ordered(t) && name == "lte"@ {
        Some(Operator::LessOrEqual)
    } else if t is String && name == "contains"@ {
        Some(Operator::Contains)
    } else if t is String && name == "startsWith"@ {
        Some(Operator::StartsWith)
    } else if t is String && name == "endsWith"@ {
        Some(Operator::EndsWith)
    } else if t is String && name == "matches"@ {
        Some(Operator::Matches)
    } else if t is String && name == "mode"@ {
        Some(Operator::Mode)
    } else {
        None
    }
}

/// The native key under which an operator's predicate is written: each
/// comparison under the native comparison of the same sense, `not` as the
/// negation of equality, and every pattern operator as a regular expression.
pub open spec fn native_key(op: Operator) -> Seq<char> {
    match op {
        Operator::Equal => "$eq"@,
        Operator::NotEqual => "$ne"@,
        Operator::Greater => "$gt"@,
        Operator::GreaterOrEqual => "$gte"@,
        Operator::Less => "$lt"@,
        Operator::LessOrEqual => "$lte"@,
        Operator::AnyOf => "$in"@,
        Operator::NoneOf => "$nin"@,
        _ => "$regex"@,
    }
}

/// Whether `c` has a meaning of its own in a regular expression.
pub open spec fn is_meta_character(c: char) -> bool {
    c == '\\' || c == '.' || c == '+' || c == '*' || c == '?' || c == '(' || c == ')' || c == '|'
        || c == '[' || c == ']' || c == '{' || c == '}' || c == '^' || c == '$' || c == '#' || c
        == '&' || c == '-' || c == '~'
}

/// `text` with a backslash before each character that has a meaning of its
/// own in a regular expression.
pub open spec fn escaped(text: Seq<char>) -> Seq<char>
    decreases text.len(),
{
    if text.len() == 0 {
        Seq::empty()
    } else if is_meta_character(text.last()) {
        escaped(text.drop_last()).push('\\').push(text.last())
    } else {
        escaped(text.drop_last()).push(text.last())
    }
}

/// Escapes a text with `regex::escape`, which writes each character of its
/// argument in turn, a backslash before each meta character.
#[verifier::external_body]
pub(crate) fn escape_pattern(text: &str) -> (r: String)
    ensures
        r@ == escaped(text@),
{
    regex::escape(text)
}

/// The regular expression that a pattern operator makes of its text: the
/// literal text anywhere, at the start, or at the end; `matches` takes the
/// text as a pattern, as it is.
pub open spec fn pattern_of(op: Operator, text: Seq<char>) -> Seq<char> {
    match op {
        Operator::Contains => escaped(text),
        Operator::StartsWith => "^"@ + escaped(text),
        Operator::EndsWith => escaped(text) + "$"@,
        _ => text,
    }
}

/// Whether an object of operators asks for case-insensitive patterns: its
/// `mode` is the string `caseInsensitive`.
pub open spec fn case_insensitive(members: Seq<(String, Json)>) -> bool {
    match member(members, "mode"@) {
        Some(Json::String(s)) => s@ == "caseInsensitive"@,
        _ => false,
    }
}

/// The native values of the first `n` of `items`, each parsed for a field of
/// type `t`, or the first failure among them.
pub open spec fn scalars_of(t: FieldType, items: Seq<Json>, graph: Graph, n: nat) -> Result<
    Seq<NativeView>,
    ActionErrorView,
>
    decreases n,
{
    if n == 0 || n > items.len() {
        Ok(Seq::empty())
    } else {
        match scalars_of(t, items, graph, (n - 1) as nat) {
            Err(e) => Err(e),
            Ok(done) => match scalar_of(t, items[n - 1], graph) {
                Err(e) => Err(e),
                Ok(x) => Ok(done.push(x)),
            },
        }
    }
}

/// The native predicate value of one operator on a field of type `t`.
pub open spec fn operand_of(
    t: FieldType,
    op: Operator,
    v: Json,
    i_mode: bool,
    graph: Graph,
) -> Result<NativeView, ActionErrorView> {
    match op {
        Operator::Equal | Operator::NotEqual | Operator::Greater | Operator::GreaterOrEqual
        | Operator::Less | Operator::LessOrEqual => scalar_of(t, v, graph),
        Operator::AnyOf | Operator::NoneOf => match v {
            Json::Array(items) => match scalars_of(t, items@, graph, items@.len()) {
                Ok(parsed) => Ok(NativeView::Array(parsed)),
                Err(e) => Err(e),
            },
            _ => Err(ActionErrorView::WrongInputType),
        },
        _ => match v {
            Json::String(s) => Ok(
                NativeView::RegularExpression {
                    pattern: pattern_of(op, s@),
                    options: if i_mode {
                        "i"@
                    } else {
                        ""@
                    },
                },
            ),
            _ => Err(ActionErrorView::WrongInputType),
        },
    }
}

/// The document of native predicates that the first `n` members of an object
/// of operators give, or the first failure among them. A name that is no
/// operator of the type is a failure.
pub open spec fn operators_doc(
    t: FieldType,
    members: Seq<(String, Json)>,
    graph: Graph,
    n: nat,
) -> Result<DocumentView, ActionErrorView>
    decreases n,
{
    if n == 0 || n > members.len() {
        Ok(Seq::empty())
    } else {
        match operators_doc(t, members, graph, (n - 1) as nat) {
            Err(e) => Err(e),
            Ok(d) => match operator_named(t, members[n - 1].0@) {
                None => Err(ActionErrorView::WrongInputType),
                Some(Operator::Mode) => Ok(d),
                Some(op) => match operand_of(
                    t,
                    op,
                    members[n - 1].1,
                    case_insensitive(members),
                    graph,
                ) {
                    Err(e) => Err(e),
                    Ok(x) => Ok(doc_insert(d, native_key(op), x)),
                },
            },
        }
    }
}

/// Whether a leaf has the shape of a bare scalar of the type, which stands
/// for equality.
pub open spec fn is_bare(t: FieldType, v: Json) -> bool {
    match t {
        FieldType::Bool => v is Bool,
        FieldType::I8 | FieldType::I16 | FieldType::I32 | FieldType::I64 | FieldType::I128
        | FieldType::U8 | FieldType::U16 | FieldType::U32 | FieldType::U64 | FieldType::U128
        | FieldType::F32 | FieldType::F64 => v is Number,
        FieldType::ObjectId | FieldType::String | FieldType::Date | FieldType::DateTime
        | FieldType::Enum(_) => v is String,
        _ => false,
    }
}

/// The native predicate of one filter entry on a field of type `t`: the
/// parsed scalar for a bare scalar, the document of operator predicates for
/// an object of operators.
pub open spec fn where_entry(t: FieldType, v: Json, graph: Graph) -> Result<
    NativeView,
    ActionErrorView,
> {
    if is_bare(t, v) {
        scalar_of(t, v, graph)
    } else if t is Decimal {
        Err(ActionErrorView::WrongInputType)
    } else {
        match v {
            Json::Object(members) => match operators_doc(t, members@, graph, members@.len()) {
                Ok(d) => Ok(NativeView::Document(d)),
                Err(e) => Err(e),
            },
            _ => Err(ActionErrorView::WrongInputType),
        }
    }
}

/// A failure among the first members is the failure of the whole.
pub proof fn lemma_scalars_of_fails(t: FieldType, items: Seq<Json>, graph: Graph, n: nat, m: nat)
    requires
        n <= m <= items.len(),
        scalars_of(t, items, graph, n) is Err,
    ensures
        scalars_of(t, items, graph, m) == scalars_of(t, items, graph, n),
    decreases m,
{
    if n < m {
        lemma_scalars_of_fails(t, items, graph, n, (m - 1) as nat);
    }
}

/// A failure among the first members is the failure of the whole.
pub proof fn lemma_operators_doc_fails(
    t: FieldType,
    members: Seq<(String, Json)>,
    graph: Graph,
    n: nat,
    m: nat,
)
    requires
        n <= m <= members.len(),
        operators_doc(t, members, graph, n) is Err,
    ensures
        operators_doc(t, members, graph, m) == operators_doc(t, members, graph, n),
    decreases m,
{
    if n < m {
        lemma_operators_doc_fails(t, members, graph, n, (m - 1) as nat);
    }
}

/// Whether an object of operators asks for case-insensitive patterns.
pub fn has_i_mode(map: &Vec<(String, Json)>) -> (r: bool)
    ensures
        r == case_insensitive(map@),
{
    match get_member(map, "mode") {
        Some(val) => match val.as_str() {
            Some(text) => str_eq(text, "caseInsensitive"),
            None => false,
        },
        None => false,
    }
}

/// Whether values of the type are ordered.
fn ordered(t: &FieldType) -> (r: bool)
    ensures
        r == is_ordered(*t),
{
    match t {
        FieldType::Bool => false,
        FieldType::Enum(_) => false,
        _ => true,
    }
}

/// Whether the type is the string type.
fn is_string_type(t: &FieldType) -> (r: bool)
    ensures
        r == (*t is String),
{
    match t {
        FieldType::String => true,
        _ => false,
    }
}

/// Reads the name of an operator on a field of type `t`.
pub fn read_operator(t: &FieldType, name: &str) -> (r: Option<Operator>)
    ensures
        r == operator_named(*t, name@),
{
    if str_eq(name, "equals") {
        Some(Operator::Equal)
    } else if str_eq(name, "not") {
        Some(Operator::NotEqual)
    } else if str_eq(name, "in") {
        Some(Operator::AnyOf)
    } else if str_eq(name, "notIn") {
        Some(Operator::NoneOf)
    } else if ordered(t) && str_eq(name, "gt") {
        Some(Operator::Greater)
    } else if ordered(t) && str_eq(name, "gte") {
        Some(Operator::GreaterOrEqual)
    } else if ordered(t) && str_eq(name, "lt") {
        Some(Operator::Less)
    } else if ordered(t) && str_eq(name, "lte") {
        Some(Operator::LessOrEqual)
    } else if !is_string_type(t) {
        None
    } else if str_eq(name, "contains") {
        Some(Operator::Contains)
    } else if str_eq(name, "startsWith") {
        Some(Operator::StartsWith)
    } else if str_eq(name, "endsWith") {
        Some(Operator::EndsWith)
    } else if str_eq(name, "matches") {
        Some(Operator::Matches)
    } else if str_eq(name, "mode") {
        Some(Operator::Mode)
    } else {
        None
    }
}

/// The native key under which an operator's predicate is written.
pub fn native_operator(op: Operator) -> (r: &'static str)
    ensures
        r@ == native_key(op),
{
    match op {
        Operator::Equal => "$eq",
        Operator::NotEqual => "$ne",
        Operator::Greater => "$gt",
        Operator::GreaterOrEqual => "$gte",
        Operator::Less => "$lt",
        Operator::LessOrEqual => "$lte",
        Operator::AnyOf => "$in",
        Operator::NoneOf => "$nin",
        _ => "$regex",
    }
}

/// Parses each of `items` for a field of type `t`, stopping at the first
/// that fails.
pub fn parse_scalars(t: &FieldType, items: &Vec<Json>, graph: &Graph) -> (r: Result<
    Native,
    ActionError,
>)
    requires
        filterable(*t, *graph),
    ensures
        native_result(r) == match scalars_of(*t, items@, *graph, items@.len()) {
            Ok(parsed) => Ok::<NativeView, ActionErrorView>(NativeView::Array(parsed)),
            Err(e) => Err(e),
        },
{
    let mut out: Vec<Native> = Vec::new();
    let mut i: usize = 0;
    assert(natives_view(out@) =~= Seq::empty());
    while i < items.len()
        invariant
            0 <= i <= items.len(),
            filterable(*t, *graph),
            scalars_of(*t, items@, *graph, i as nat) == Ok::<Seq<NativeView>, ActionErrorView>(
                natives_view(out@),
            ),
        decreases items.len() - i,
    {
        match parse_scalar(t, &items[i], graph) {
            Ok(x) => {
                let ghost before = natives_view(out@);
                out.push(x);
                assert(natives_view(out@) =~= before.push(x@));
            },
            Err(e) => {
                proof {
                    assert(scalars_of(*t, items@, *graph, (i + 1) as nat) == Err::<
                        Seq<NativeView>,
                        ActionErrorView,
                    >(e@));
                    lemma_scalars_of_fails(*t, items@, *graph, (i + 1) as nat, items@.len());
                }
                return Err(e);
            },
        }
        i += 1;
    }
    proof {
        Native::lemma_array_view(out);
    }
    Ok(Native::Array(out))
}

/// The regular expression that a pattern operator makes of its text.
pub fn make_pattern(op: Operator, text: &str) -> (r: String)
    ensures
        r@ == pattern_of(op, text@),
{
    match op {
        Operator::Contains => escape_pattern(text),
        Operator::StartsWith => {
            let quoted = escape_pattern(text);
            joined("^", quoted.as_str())
        },
        Operator::EndsWith => {
            let quoted = escape_pattern(text);
            joined(quoted.as_str(), "$")
        },
        _ => text.to_owned(),
    }
}

/// Compiles the value of one operator on a field of type `t`.
pub fn parse_operand(
    t: &FieldType,
    op: Operator,
    value: &Json,
    i_mode: bool,
    graph: &Graph,
) -> (r: Result<Native, ActionError>)
    requires
        filterable(*t, *graph),
    ensures
        native_result(r) == operand_of(*t, op, *value, i_mode, *graph),
{
    match op {
        Operator::Equal | Operator::NotEqual | Operator::Greater | Operator::GreaterOrEqual
        | Operator::Less | Operator::LessOrEqual => parse_scalar(t, value, graph),
        Operator::AnyOf | Operator::NoneOf => match value.as_array() {
            Some(items) => parse_scalars(t, items, graph),
            None => Err(ActionError::WrongInputType),
        },
        _ => match value.as_str() {
            Some(text) => {
                let options = if i_mode {
                    "i".to_owned()
                } else {
                    "".to_owned()
                };
                Ok(Native::RegularExpression { pattern: make_pattern(op, text), options })
            },
            None => Err(ActionError::WrongInputType),
        },
    }
}

/// Whether a leaf has the shape of a bare scalar of the type.
fn bare(t: &FieldType, value: &Json) -> (r: bool)
    ensures
        r == is_bare(*t, *value),
{
    match t {
        FieldType::Bool => value.as_bool().is_some(),
        FieldType::I8 | FieldType::I16 | FieldType::I32 | FieldType::I64 | FieldType::I128
        | FieldType::U8 | FieldType::U16 | FieldType::U32 | FieldType::U64 | FieldType::U128
        | FieldType::F32 | FieldType::F64 => value.as_number().is_some(),
        FieldType::ObjectId | FieldType::String | FieldType::Date | FieldType::DateTime
        | FieldType::Enum(_) => value.as_str().is_some(),
        _ => false,
    }
}

/// Compiles one filter entry on a field of type `field_type`: a bare scalar
/// into the scalar itself, which stands for equality, an object of operators
/// into the document of their predicates.
pub fn parse_bson_where_entry(field_type: &FieldType, value: &Json, graph: &Graph) -> (r: Result<
    Native,
    ActionError,
>)
    requires
        filterable(*field_type, *graph),
    ensures
        native_result(r) == where_entry(*field_type, *value, *graph),
{
    if bare(field_type, value) {
        return parse_scalar(field_type, value, graph);
    }
    if let FieldType::Decimal = field_type {
        return Err(ActionError::WrongInputType);
    }
    match value.as_object() {
        Some(map) => {
            let i_mode = has_i_mode(map);
            let mut result = Document::new();
            let mut i: usize = 0;
            while i < map.len()
                invariant
                    0 <= i <= map.len(),
                    filterable(*field_type, *graph),
                    *value == Json::Object(*map),
                    !is_bare(*field_type, *value),
                    !(*field_type is Decimal),
                    i_mode == case_insensitive(map@),
                    operators_doc(*field_type, map@, *graph, i as nat) == Ok::<
                        DocumentView,
                        ActionErrorView,
                    >(result@),
                decreases map.len() - i,
            {
                let key = map[i].0.as_str();
                match read_operator(field_type, key) {
                    None => {
                        proof {
                            assert(operators_doc(*field_type, map@, *graph, (i + 1) as nat)
                                == Err::<DocumentView, ActionErrorView>(
                                ActionErrorView::WrongInputType,
                            ));
                            lemma_operators_doc_fails(
                                *field_type,
                                map@,
                                *graph,
                                (i + 1) as nat,
                                map@.len(),
                            );
                        }
                        return Err(ActionError::WrongInputType);
                    },
                    Some(Operator::Mode) => {},
                    Some(op) => match parse_operand(field_type, op, &map[i].1, i_mode, graph) {
                        Ok(x) => {
                            result.insert(native_operator(op).to_owned(), x);
                        },
                        Err(e) => {
                            proof {
                                assert(operators_doc(*field_type, map@, *graph, (i + 1) as nat)
                                    == Err::<DocumentView, ActionErrorView>(e@));
                                lemma_operators_doc_fails(
                                    *field_type,
                                    map@,
                                    *graph,
                                    (i + 1) as nat,
                                    map@.len(),
                                );
                            }
                            return Err(e);
                        },
                    },
                }
                i += 1;
            }
            proof {
                Native::lemma_document_view(result);
            }
            Ok(Native::Document(result))
        },
        None => Err(ActionError::WrongInputType),
    }
}

/// What compiling a filter gave.
pub open spec fn document_result(r: Result<Document, ActionError>) -> Result<
    DocumentView,
    ActionErrorView,
> {
    match r {
        Ok(d) => Ok(d@),
        Err(e) => Err(e@),
    }
}

/// The match document that the first `n` members of a `where` object give,
/// or the first failure among them: each member must name a field that may
/// be queried, and its predicate is written under that field's column.
pub open spec fn where_doc(
    model: Model,
    graph: Graph,
    members: Seq<(String, Json)>,
    n: nat,
) -> Result<DocumentView, ActionErrorView>
    decreases n,
{
    if n == 0 || n > members.len() {
        Ok(Seq::empty())
    } else {
        match where_doc(model, graph, members, (n - 1) as nat) {
            Err(e) => Err(e),
            Ok(d) => {
                let key = members[n - 1].0@;
                if !seq_has(model.query_keys@, key) {
                    Err(ActionErrorView::KeysUnallowed)
                } else {
                    let field = model.spec_field(key)->0;
                    match where_entry(field.field_type, members[n - 1].1, graph) {
                        Err(e) => Err(e),
                        Ok(x) => Ok(doc_insert(d, field.spec_column_name(), x)),
                    }
                }
            },
        }
    }
}

/// The match document of a `where` section: empty where the section is
/// absent, a failure where it is no object.
pub open spec fn where_input(model: Model, graph: Graph, filter: Option<Json>) -> Result<
    DocumentView,
    ActionErrorView,
> {
    match filter {
        None => Ok(Seq::empty()),
        Some(Json::Object(members)) => where_doc(model, graph, members@, members@.len()),
        Some(_) => Err(ActionErrorView::WrongJsonFormat),
    }
}

/// A failure among the first members is the failure of the whole.
pub proof fn lemma_where_doc_fails(
    model: Model,
    graph: Graph,
    members: Seq<(String, Json)>,
    n: nat,
    m: nat,
)
    requires
        n <= m <= members.len(),
        where_doc(model, graph, members, n) is Err,
    ensures
        where_doc(model, graph, members, m) == where_doc(model, graph, members, n),
    decreases m,
{
    if n < m {
        lemma_where_doc_fails(model, graph, members, n, (m - 1) as nat);
    }
}

/// Compiles a `where` section into the native match document.
pub fn build_where_input(model: &Model, graph: &Graph, filter: Option<&Json>) -> (r: Result<
    Document,
    ActionError,
>)
    requires
        graph.queryable(*model),
    ensures
        document_result(r) == where_input(
            *model,
            *graph,
            match filter {
                Some(j) => Some(*j),
                None => None,
            },
        ),
{
    let given = match filter {
        None => {
            return Ok(Document::new());
        },
        Some(j) => j,
    };
    let map = match given.as_object() {
        None => {
            return Err(ActionError::WrongJsonFormat);
        },
        Some(map) => map,
    };
    let mut doc = Document::new();
    let mut i: usize = 0;
    while i < map.len()
        invariant
            0 <= i <= map.len(),
            graph.queryable(*model),
            filter == Some(given),
            *given == Json::Object(*map),
            where_doc(*model, *graph, map@, i as nat) == Ok::<DocumentView, ActionErrorView>(
                doc@,
            ),
        decreases map.len() - i,
    {
        let key = map[i].0.as_str();
        if !vec_has(model.query_keys(), key) {
            proof {
                assert(where_doc(*model, *graph, map@, (i + 1) as nat) == Err::<
                    DocumentView,
                    ActionErrorView,
                >(ActionErrorView::KeysUnallowed));
                lemma_where_doc_fails(*model, *graph, map@, (i + 1) as nat, map@.len());
            }
            return Err(ActionError::KeysUnallowed);
        }
        let field = model.field(key).unwrap();
        match parse_bson_where_entry(&field.field_type, &map[i].1, graph) {
            Ok(x) => {
                doc.insert(field.column_name().to_owned(), x);
            },
            Err(e) => {
                proof {
                    assert(where_doc(*model, *graph, map@, (i + 1) as nat) == Err::<
                        DocumentView,
                        ActionErrorView,
                    >(e@));
                    lemma_where_doc_fails(*model, *graph, map@, (i + 1) as nat, map@.len());
                }
                return Err(e);
            },
        }
        i += 1;
    }
    Ok(doc)
}

/// Whether `keys`, taken as a set, is one of the model's unique key sets.
pub open spec fn is_unique_key_set(model: Model, keys: Seq<Seq<char>>) -> bool {
    exists|i: int|
        0 <= i < model.unique_query_keys@.len() && strings_view(
            #[trigger] model.unique_query_keys@[i]@,
        ).to_set() == keys.to_set()
}

/// Whether a `where` section identifies one record: it must be there, be an
/// object, and the set of its keys must be one of the model's unique key sets.
pub open spec fn where_unique(model: Model, filter: Option<Json>) -> Result<(), ActionErrorView> {
    match filter {
        None => Err(ActionErrorView::MissingInputSection),
        Some(Json::Object(members)) => if is_unique_key_set(model, member_names(members@)) {
            Ok(())
        } else {
            Err(ActionErrorView::FieldIsNotUnique)
        },
        Some(_) => Err(ActionErrorView::WrongJsonFormat),
    }
}

/// What a validation gave.
pub open spec fn unit_result(r: Result<(), ActionError>) -> Result<(), ActionErrorView> {
    match r {
        Ok(u) => Ok(u),
        Err(e) => Err(e@),
    }
}

/// Whether the name of each member is one of `names`.
fn members_within(members: &Vec<(String, Json)>, names: &Vec<String>) -> (r: bool)
    ensures
        r == forall|i: int|
            0 <= i < members@.len() ==> strings_view(names@).contains(
                #[trigger] member_names(members@)[i],
            ),
{
    let mut i: usize = 0;
    while i < members.len()
        invariant
            0 <= i <= members.len(),
            forall|j: int|
                0 <= j < i ==> strings_view(names@).contains(#[trigger] member_names(members@)[j]),
        decreases members.len() - i,
    {
        let found = vec_has(names, members[i].0.as_str());
        proof {
            let key = member_names(members@)[i as int];
            if found {
                let w = choose|w: int| 0 <= w < names@.len() && #[trigger] names@[w]@ == key;
                assert(strings_view(names@)[w] == key);
            } else {
                if strings_view(names@).contains(key) {
                    let w = choose|w: int|
                        0 <= w < strings_view(names@).len() && strings_view(names@)[w] == key;
                    assert(names@[w]@ == key);
                }
            }
        }
        if !found {
            return false;
        }
        i += 1;
    }
    true
}

/// Whether each of `names` is the name of a member.
fn names_within(names: &Vec<String>, members: &Vec<(String, Json)>) -> (r: bool)
    ensures
        r == forall|i: int|
            0 <= i < names@.len() ==> member_names(members@).contains(
                #[trigger] strings_view(names@)[i],
            ),
{
    let mut i: usize = 0;
    while i < names.len()
        invariant
            0 <= i <= names.len(),
            forall|j: int|
                0 <= j < i ==> member_names(members@).contains(#[trigger] strings_view(names@)[j]),
        decreases names.len() - i,
    {
        let found = get_member(members, names[i].as_str()).is_some();
        proof {
            let key = strings_view(names@)[i as int];
            lemma_index_of_first(member_names(members@), key);
            if found {
                let w = index_of(member_names(members@), key);
                assert(member_names(members@)[w] == key);
            }
        }
        if !found {
            return false;
        }
        i += 1;
    }
    true
}

/// Two runs of names hold the same set exactly when each holds every name of
/// the other.
pub proof fn lemma_same_set(a: Seq<Seq<char>>, b: Seq<Seq<char>>)
    ensures
        (a.to_set() == b.to_set()) <==> ((forall|i: int|
            0 <= i < a.len() ==> b.contains(#[trigger] a[i])) && (forall|i: int|
            0 <= i < b.len() ==> a.contains(#[trigger] b[i]))),
{
    if a.to_set() == b.to_set() {
        assert forall|i: int| 0 <= i < a.len() implies b.contains(#[trigger] a[i]) by {
            assert(a.to_set().contains(a[i]));
        }
        assert forall|i: int| 0 <= i < b.len() implies a.contains(#[trigger] b[i]) by {
            assert(b.to_set().contains(b[i]));
        }
    }
    if (forall|i: int| 0 <= i < a.len() ==> b.contains(#[trigger] a[i])) && (forall|i: int|
        0 <= i < b.len() ==> a.contains(#[trigger] b[i])) {
        assert(a.to_set() =~= b.to_set());
    }
}

/// Checks that a `where` section identifies one record.
pub fn validate_where_unique(model: &Model, filter: &Option<&Json>) -> (r: Result<
    (),
    ActionError,
>)
    ensures
        unit_result(r) == where_unique(
            *model,
            match *filter {
                Some(j) => Some(*j),
                None => None,
            },
        ),
{
    let given = match filter {
        None => {
            return Err(ActionError::MissingInputSection);
        },
        Some(j) => j,
    };
    let values = match given.as_object() {
        None => {
            return Err(ActionError::WrongJsonFormat);
        },
        Some(values) => values,
    };
    let sets = model.unique_query_keys();
    let mut i: usize = 0;
    while i < sets.len()
        invariant
            0 <= i <= sets.len(),
            sets == &model.unique_query_keys,
            *filter == Some(*given),
            **given == Json::Object(*values),
            forall|j: int|
                0 <= j < i ==> strings_view((#[trigger] sets@[j])@).to_set() != member_names(
                    values@,
                ).to_set(),
        decreases sets.len() - i,
    {
        proof {
            lemma_same_set(strings_view(sets@[i as int]@), member_names(values@));
        }
        if members_within(values, &sets[i]) && names_within(&sets[i], values) {
            return Ok(());
        }
        i += 1;
    }
    Err(ActionError::FieldIsNotUnique)
}

} // verus!
