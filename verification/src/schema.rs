//! The typed schema that queries are compiled against: fields, relations,
//! models, and the graph that holds them.

use vstd::prelude::*;
use crate::text::{index_of, lemma_index_of, lemma_index_of_first, seq_has, str_eq};

verus! {

/// The semantic type of a field.
#[derive(Debug, PartialEq)]
pub enum FieldType {
    Undefined,
    ObjectId,
    Bool,
    I8,
    I16,
    I32,
    I64,
    I128,
    U8,
    U16,
    U32,
    U64,
    U128,
    F32,
    F64,
    Decimal,
    String,
    Date,
    DateTime,
    /// A member of the enum of this name.
    Enum(String),
    Vec(Box<FieldType>),
    Dictionary(Box<FieldType>),
    /// An object of the model of this name.
    Object(String),
}

impl Clone for FieldType {
    fn clone(&self) -> (r: FieldType)
        ensures
            r == *self,
        decreases self,
    {
        match self {
            FieldType::Undefined => FieldType::Undefined,
            FieldType::ObjectId => FieldType::ObjectId,
            FieldType::Bool => FieldType::Bool,
            FieldType::I8 => FieldType::I8,
            FieldType::I16 => FieldType::I16,
            FieldType::I32 => FieldType::I32,
            FieldType::I64 => FieldType::I64,
            FieldType::I128 => FieldType::I128,
            FieldType::U8 => FieldType::U8,
            FieldType::U16 => FieldType::U16,
            FieldType::U32 => FieldType::U32,
            FieldType::U64 => FieldType::U64,
            FieldType::U128 => FieldType::U128,
            FieldType::F32 => FieldType::F32,
            FieldType::F64 => FieldType::F64,
            FieldType::Decimal => FieldType::Decimal,
            FieldType::String => FieldType::String,
            FieldType::Date => FieldType::Date,
            FieldType::DateTime => FieldType::DateTime,
            FieldType::Enum(name) => FieldType::Enum(name.clone()),
            FieldType::Vec(inner) => {
                let item: FieldType = (**inner).clone();
                FieldType::Vec(Box::new(item))
            },
            FieldType::Dictionary(inner) => {
                let item: FieldType = (**inner).clone();
                FieldType::Dictionary(Box::new(item))
            },
            FieldType::Object(name) => FieldType::Object(name.clone()),
        }
    }
}

/// A typed attribute of a model.
#[derive(Debug, Clone, PartialEq)]
pub struct Field {
    /// The logical name, by which queries speak of the field.
    pub name: String,
    /// The name of the storage column, where it differs from the logical name.
    pub column_name: Option<String>,
    pub field_type: FieldType,
    /// Whether concurrent partial updates are allowed.
    pub atomic: bool,
}

/// A declared association between two models.
#[derive(Debug, Clone, PartialEq)]
pub struct Relation {
    pub name: String,
    /// The name of the target model.
    pub model: String,
    /// Direct: the local field names. Through a junction: first the name of
    /// the junction's relation that points back to the owning model.
    pub fields: Vec<String>,
    /// Direct: the referenced field names on the target model, pairwise with
    /// `fields`. Through a junction: first the name of the junction's
    /// relation that points to the target model.
    pub references: Vec<String>,
    /// The name of the junction model, for an indirect relation.
    pub through: Option<String>,
}

/// A named schema entity.
#[derive(Debug, Clone, PartialEq)]
pub struct Model {
    pub name: String,
    /// The storage collection.
    pub table_name: String,
    pub fields: Vec<Field>,
    pub relations: Vec<Relation>,
    /// The names of the fields that a filter may speak of.
    pub query_keys: Vec<String>,
    /// The sets of keys that each identify one record.
    pub unique_query_keys: Vec<Vec<String>>,
}

/// A named enum with its allowed values.
#[derive(Debug, Clone, PartialEq)]
pub struct EnumDef {
    pub name: String,
    pub values: Vec<String>,
}

/// The schema-wide registry of models and enums.
#[derive(Debug, Clone, PartialEq)]
pub struct Graph {
    pub models: Vec<Model>,
    pub enums: Vec<EnumDef>,
}

/// The names of `fields`, in order.
pub open spec fn field_names(fields: Seq<Field>) -> Seq<Seq<char>> {
    Seq::new(fields.len(), |i: int| fields[i].name@)
}

/// The names of `relations`, in order.
pub open spec fn relation_names(relations: Seq<Relation>) -> Seq<Seq<char>> {
    Seq::new(relations.len(), |i: int| relations[i].name@)
}

/// The names of `models`, in order.
pub open spec fn model_names(models: Seq<Model>) -> Seq<Seq<char>> {
    Seq::new(models.len(), |i: int| models[i].name@)
}

/// The names of `enums`, in order.
pub open spec fn enum_names(enums: Seq<EnumDef>) -> Seq<Seq<char>> {
    Seq::new(enums.len(), |i: int| enums[i].name@)
}

/// Whether a filter can speak of a field of this type: the type is a scalar
/// one, and where it is an enum the graph knows the enum.
pub open spec fn filterable(t: FieldType, graph: Graph) -> bool {
    match t {
        FieldType::Undefined => false,
        FieldType::Vec(_) => false,
        FieldType::Dictionary(_) => false,
        FieldType::Object(_) => false,
        FieldType::Enum(name) => graph.has_enum(name@),
        _ => true,
    }
}

impl Field {
    /// The name of the storage column: the mapped name where there is one,
    /// else the logical name.
    pub open spec fn spec_column_name(&self) -> Seq<char> {
        match self.column_name {
            Some(c) => c@,
            None => self.name@,
        }
    }

    /// The name of the storage column.
    pub fn column_name(&self) -> (r: &str)
        ensures
            r@ == self.spec_column_name(),
    {
        match &self.column_name {
            Some(c) => c.as_str(),
            None => self.name.as_str(),
        }
    }
}

impl Model {
    /// The first field of this name.
    pub open spec fn spec_field(&self, name: Seq<char>) -> Option<Field> {
        let i = index_of(field_names(self.fields@), name);
        if i < self.fields@.len() {
            Some(self.fields@[i])
        } else {
            None
        }
    }

    /// The first relation of this name.
    pub open spec fn spec_relation(&self, name: Seq<char>) -> Option<Relation> {
        let i = index_of(relation_names(self.relations@), name);
        if i < self.relations@.len() {
            Some(self.relations@[i])
        } else {
            None
        }
    }

    /// The first field of this name, if there is one.
    pub fn field(&self, name: &str) -> (r: Option<&Field>)
        ensures
            match r {
                Some(f) => self.spec_field(name@) == Some(*f),
                None => self.spec_field(name@) is None,
            },
    {
        let mut i: usize = 0;
        while i < self.fields.len()
            invariant
                0 <= i <= self.fields.len(),
                forall|j: int| 0 <= j < i ==> field_names(self.fields@)[j] != name@,
            decreases self.fields.len() - i,
        {
            if str_eq(self.fields[i].name.as_str(), name) {
                proof {
                    lemma_index_of(field_names(self.fields@), name@, i as int);
                }
                return Some(&self.fields[i]);
            }
            i += 1;
        }
        proof {
            lemma_index_of(field_names(self.fields@), name@, i as int);
        }
        None
    }

    /// The first relation of this name, if there is one.
    pub fn relation(&self, name: &str) -> (r: Option<&Relation>)
        ensures
            match r {
                Some(f) => self.spec_relation(name@) == Some(*f),
                None => self.spec_relation(name@) is None,
            },
    {
        let mut i: usize = 0;
        while i < self.relations.len()
            invariant
                0 <= i <= self.relations.len(),
                forall|j: int| 0 <= j < i ==> relation_names(self.relations@)[j] != name@,
            decreases self.relations.len() - i,
        {
            if str_eq(self.relations[i].name.as_str(), name) {
                proof {
                    lemma_index_of(relation_names(self.relations@), name@, i as int);
                }
                return Some(&self.relations[i]);
            }
            i += 1;
        }
        proof {
            lemma_index_of(relation_names(self.relations@), name@, i as int);
        }
        None
    }

    /// The names of the fields that a filter may speak of.
    pub fn query_keys(&self) -> (r: &Vec<String>)
        ensures
            r == &self.query_keys,
    {
        &self.query_keys
    }

    /// The sets of keys that each identify one record.
    pub fn unique_query_keys(&self) -> (r: &Vec<Vec<String>>)
        ensures
            r == &self.unique_query_keys,
    {
        &self.unique_query_keys
    }

    /// The storage collection.
    pub fn table_name(&self) -> (r: &str)
        ensures
            r@ == self.table_name@,
    {
        self.table_name.as_str()
    }
}

impl Graph {
    /// Whether filters on `m` can be compiled: each key that may be queried
    /// names a field of a scalar type.
    pub open spec fn queryable(&self, m: Model) -> bool {
        forall|key: Seq<char>| #[trigger]
            seq_has(m.query_keys@, key) ==> match m.spec_field(key) {
                Some(f) => filterable(f.field_type, *self),
                None => false,
            }
    }

    /// Whether each of `names` is a field of `m`.
    pub open spec fn all_fields(m: Model, names: Seq<String>) -> bool {
        forall|i: int| 0 <= i < names.len() ==> m.spec_field((#[trigger] names[i])@) is Some
    }

    /// Whether a relation of `owner` can be followed. Its target is a model
    /// of the graph. A direct relation pairs fields of the owner with as many
    /// fields of the target. A relation through a junction names, first among
    /// its fields and first among its references, two relations of the
    /// junction model: one whose references are fields of the owner, and one
    /// into a model of the graph, whose references are fields of that model.
    pub open spec fn relation_ok(&self, owner: Model, r: Relation) -> bool {
        &&& self.has_model(r.model@)
        &&& match r.through {
            None => {
                &&& r.fields@.len() == r.references@.len()
                &&& Self::all_fields(owner, r.fields@)
                &&& Self::all_fields(self.spec_model(r.model@), r.references@)
            },
            Some(through) => {
                &&& self.has_model(through@)
                &&& r.fields@.len() >= 1
                &&& r.references@.len() >= 1
                &&& {
                    let junction = self.spec_model(through@);
                    match (
                        junction.spec_relation(r.fields@[0]@),
                        junction.spec_relation(r.references@[0]@),
                    ) {
                        (Some(local), Some(foreign)) => {
                            &&& self.has_model(foreign.model@)
                            &&& local.fields@.len() == local.references@.len()
                            &&& Self::all_fields(owner, local.references@)
                            &&& foreign.fields@.len() == foreign.references@.len()
                            &&& Self::all_fields(
                                self.spec_model(foreign.model@),
                                foreign.references@,
                            )
                        },
                        _ => false,
                    }
                }
            },
        }
    }

    /// Whether queries on `m` can be compiled: its filters can, and each of
    /// its relations can be followed.
    pub open spec fn model_ok(&self, m: Model) -> bool {
        &&& self.queryable(m)
        &&& forall|i: int|
            0 <= i < m.relations@.len() ==> self.relation_ok(m, #[trigger] m.relations@[i])
    }

    /// Whether queries on every model of the graph can be compiled.
    pub open spec fn wf(&self) -> bool {
        forall|i: int| 0 <= i < self.models@.len() ==> self.model_ok(#[trigger] self.models@[i])
    }

    /// Whether the graph has a model of this name.
    pub open spec fn has_model(&self, name: Seq<char>) -> bool {
        index_of(model_names(self.models@), name) < self.models@.len()
    }

    /// The first model of this name.
    pub open spec fn spec_model(&self, name: Seq<char>) -> Model
        recommends
            self.has_model(name),
    {
        self.models@[index_of(model_names(self.models@), name)]
    }

    /// Whether the graph has an enum of this name.
    pub open spec fn has_enum(&self, name: Seq<char>) -> bool {
        index_of(enum_names(self.enums@), name) < self.enums@.len()
    }

    /// The allowed values of the first enum of this name.
    pub open spec fn spec_enum(&self, name: Seq<char>) -> Seq<String>
        recommends
            self.has_enum(name),
    {
        self.enums@[index_of(enum_names(self.enums@), name)].values@
    }

    /// In a well-formed graph, a model that is found by its name is one on
    /// which queries can be compiled.
    pub proof fn lemma_model_ok(&self, name: Seq<char>)
        requires
            self.wf(),
            self.has_model(name),
        ensures
            self.model_ok(self.spec_model(name)),
    {
        lemma_index_of_first(model_names(self.models@), name);
    }

    /// A relation that is found by its name on a model on which queries can
    /// be compiled is one that can be followed.
    pub proof fn lemma_relation_ok(&self, m: Model, name: Seq<char>)
        requires
            self.model_ok(m),
            m.spec_relation(name) is Some,
        ensures
            self.relation_ok(m, m.spec_relation(name)->0),
    {
        lemma_index_of_first(relation_names(m.relations@), name);
    }

    /// The place of the first model of this name, or the number of models.
    pub fn model_position(&self, name: &str) -> (r: usize)
        ensures
            r == index_of(model_names(self.models@), name@),
            r <= self.models@.len(),
    {
        let mut i: usize = 0;
        while i < self.models.len()
            invariant
                0 <= i <= self.models.len(),
                forall|j: int| 0 <= j < i ==> model_names(self.models@)[j] != name@,
            decreases self.models.len() - i,
        {
            if str_eq(self.models[i].name.as_str(), name) {
                proof {
                    lemma_index_of(model_names(self.models@), name@, i as int);
                }
                return i;
            }
            i += 1;
        }
        proof {
            lemma_index_of(model_names(self.models@), name@, i as int);
        }
        i
    }

    /// The place of the first enum of this name, or the number of enums.
    pub fn enum_position(&self, name: &str) -> (r: usize)
        ensures
            r == index_of(enum_names(self.enums@), name@),
            r <= self.enums@.len(),
    {
        let mut i: usize = 0;
        while i < self.enums.len()
            invariant
                0 <= i <= self.enums.len(),
                forall|j: int| 0 <= j < i ==> enum_names(self.enums@)[j] != name@,
            decreases self.enums.len() - i,
        {
            if str_eq(self.enums[i].name.as_str(), name) {
                proof {
                    lemma_index_of(enum_names(self.enums@), name@, i as int);
                }
                return i;
            }
            i += 1;
        }
        proof {
            lemma_index_of(enum_names(self.enums@), name@, i as int);
        }
        i
    }

    /// The model of this name.
    pub fn model(&self, name: &str) -> (r: &Model)
        requires
            self.has_model(name@),
        ensures
            *r == self.spec_model(name@),
    {
        let i = self.model_position(name);
        &self.models[i]
    }

    /// The allowed values of the enum of this name.
    pub fn enum_values(&self, name: &str) -> (r: &Vec<String>)
        requires
            self.has_enum(name@),
        ensures
            r@ == self.spec_enum(name@),
    {
        let i = self.enum_position(name);
        &self.enums[i].values
    }
}

impl Graph {
    /// Whether a filter can speak of a field of this type.
    pub fn check_filterable(&self, t: &FieldType) -> (r: bool)
        ensures
            r == filterable(*t, *self),
    {
        match t {
            FieldType::Undefined => false,
            FieldType::Vec(_) => false,
            FieldType::Dictionary(_) => false,
            FieldType::Object(_) => false,
            FieldType::Enum(name) => self.check_has_enum(name.as_str()),
            _ => true,
        }
    }

    /// Whether filters on `m` can be compiled.
    pub fn check_queryable(&self, m: &Model) -> (r: bool)
        ensures
            r == self.queryable(*m),
    {
        let mut i: usize = 0;
        while i < m.query_keys.len()
            invariant
                0 <= i <= m.query_keys.len(),
                forall|j: int|
                    0 <= j < i ==> match m.spec_field((#[trigger] m.query_keys@[j])@) {
                        Some(f) => filterable(f.field_type, *self),
                        None => false,
                    },
            decreases m.query_keys.len() - i,
        {
            let fine = match m.field(m.query_keys[i].as_str()) {
                Some(f) => self.check_filterable(&f.field_type),
                None => false,
            };
            if !fine {
                assert(seq_has(m.query_keys@, m.query_keys@[i as int]@));
                return false;
            }
            i += 1;
        }
        assert forall|key: Seq<char>| #[trigger] seq_has(m.query_keys@, key) implies match m.spec_field(
            key,
        ) {
            Some(f) => filterable(f.field_type, *self),
            None => false,
        } by {
            let w = choose|w: int| 0 <= w < m.query_keys@.len() && #[trigger] m.query_keys@[w]@ == key;
            assert(m.query_keys@[w]@ == key);
        }
        true
    }

    /// Whether each of `names` is a field of `m`.
    pub fn check_all_fields(m: &Model, names: &Vec<String>) -> (r: bool)
        ensures
            r == Self::all_fields(*m, names@),
    {
        let mut i: usize = 0;
        while i < names.len()
            invariant
                0 <= i <= names.len(),
                forall|j: int| 0 <= j < i ==> m.spec_field((#[trigger] names@[j])@) is Some,
            decreases names.len() - i,
        {
            if m.field(names[i].as_str()).is_none() {
                return false;
            }
            i += 1;
        }
        true
    }

    /// Whether the graph has a model of this name.
    pub fn check_has_model(&self, name: &str) -> (r: bool)
        ensures
            r == self.has_model(name@),
    {
        self.model_position(name) < self.models.len()
    }

    /// Whether the graph has an enum of this name.
    pub fn check_has_enum(&self, name: &str) -> (r: bool)
        ensures
            r == self.has_enum(name@),
    {
        self.enum_position(name) < self.enums.len()
    }

    /// Whether a relation of `owner` can be followed.
    pub fn check_relation(&self, owner: &Model, r: &Relation) -> (ok: bool)
        ensures
            ok == self.relation_ok(*owner, *r),
    {
        if !self.check_has_model(r.model.as_str()) {
            return false;
        }
        match &r.through {
            None => {
                r.fields.len() == r.references.len() && Self::check_all_fields(owner, &r.fields)
                    && Self::check_all_fields(self.model(r.model.as_str()), &r.references)
            },
            Some(through) => {
                if !self.check_has_model(through.as_str()) || r.fields.len() < 1
                    || r.references.len() < 1 {
                    return false;
                }
                let junction = self.model(through.as_str());
                let local = match junction.relation(r.fields[0].as_str()) {
                    Some(local) => local,
                    None => {
                        return false;
                    },
                };
                let foreign = match junction.relation(r.references[0].as_str()) {
                    Some(foreign) => foreign,
                    None => {
                        return false;
                    },
                };
                if !self.check_has_model(foreign.model.as_str()) {
                    return false;
                }
                local.fields.len() == local.references.len() && Self::check_all_fields(
                    owner,
                    &local.references,
                ) && foreign.fields.len() == foreign.references.len() && Self::check_all_fields(
                    self.model(foreign.model.as_str()),
                    &foreign.references,
                )
            },
        }
    }

    /// Whether queries on `m` can be compiled.
    pub fn check_model(&self, m: &Model) -> (r: bool)
        ensures
            r == self.model_ok(*m),
    {
        if !self.check_queryable(m) {
            return false;
        }
        let mut i: usize = 0;
        while i < m.relations.len()
            invariant
                0 <= i <= m.relations.len(),
                self.queryable(*m),
                forall|j: int| 0 <= j < i ==> self.relation_ok(*m, #[trigger] m.relations@[j]),
            decreases m.relations.len() - i,
        {
            if !self.check_relation(m, &m.relations[i]) {
                return false;
            }
            i += 1;
        }
        true
    }

    /// Whether queries on every model of the graph can be compiled.
    pub fn check(&self) -> (r: bool)
        ensures
            r == self.wf(),
    {
        let mut i: usize = 0;
        while i < self.models.len()
            invariant
                0 <= i <= self.models.len(),
                forall|j: int| 0 <= j < i ==> self.model_ok(#[trigger] self.models@[j]),
            decreases self.models.len() - i,
        {
            if !self.check_model(&self.models[i]) {
                return false;
            }
            i += 1;
        }
        true
    }
}

} // verus!
