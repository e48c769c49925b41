//! The typed value model, and its encoding as native values.

use vstd::prelude::*;
use crate::ieee::{single_double, single_to_double};
use crate::native::{doc_insert, Document, DocumentView, Native, NativeView};
use crate::object_id::{is_object_id_text, object_id_bytes, object_id_text, read_object_id, write_object_id};

verus! {

/// The number of the day on which the Unix epoch begins, counted from
/// 1 January of the year 1 as day 1.
pub const UNIX_EPOCH_DAY: i64 = 719_163;

/// The milliseconds of one day.
pub const MILLIS_PER_DAY: i64 = 86_400_000;

/// A reference to a record: its model, its key, and the identity it acts for.
#[derive(Debug, PartialEq)]
pub struct Object {
    pub model: String,
    pub id: u64,
    pub identity: Option<Box<Object>>,
}

impl Clone for Object {
    fn clone(&self) -> (r: Object)
        ensures
            r == *self,
        decreases self,
    {
        let identity = match &self.identity {
            Some(inner) => {
                let copy: Object = (**inner).clone();
                Some(Box::new(copy))
            },
            None => None,
        };
        Object { model: self.model.clone(), id: self.id, identity }
    }
}

impl Object {
    /// The identity that this object acts for, if it has one.
    pub fn get_identity(&self) -> (r: Option<Object>)
        ensures
            r == match self.identity {
                Some(inner) => Some(*inner),
                None => None,
            },
    {
        match &self.identity {
            Some(inner) => Some((**inner).clone()),
            None => None,
        }
    }
}

/// A typed value.
#[derive(Debug, PartialEq)]
pub enum Value {
    Null,
    /// An object identifier, as its hexadecimal text.
    ObjectId(String),
    Bool(bool),
    I8(i8),
    I16(i16),
    I32(i32),
    I64(i64),
    I128(i128),
    U8(u8),
    U16(u16),
    U32(u32),
    U64(u64),
    U128(u128),
    /// A single, held as its IEEE-754 binary32 bit pattern.
    F32(u32),
    /// A double, held as its IEEE-754 binary64 bit pattern.
    F64(u64),
    /// A decimal number, as its text. Reserved: it has no native encoding.
    Decimal(String),
    String(String),
    /// A calendar day, counted from 1 January of the year 1 as day 1.
    Date(i32),
    /// An instant, in milliseconds since the Unix epoch.
    DateTime(i64),
    Vec(Vec<Value>),
    /// An ordered mapping from strings to values.
    Dictionary(Vec<(String, Value)>),
    /// A reference to a record. It has no native encoding.
    Object(Object),
}

/// What a [`Value`] holds.
pub enum ValueView {
    Null,
    ObjectId(Seq<char>),
    Bool(bool),
    I8(i8),
    I16(i16),
    I32(i32),
    I64(i64),
    I128(i128),
    U8(u8),
    U16(u16),
    U32(u32),
    U64(u64),
    U128(u128),
    F32(u32),
    F64(u64),
    Decimal(Seq<char>),
    String(Seq<char>),
    Date(i32),
    DateTime(i64),
    Vec(Seq<ValueView>),
    Dictionary(Seq<(Seq<char>, ValueView)>),
    Object(Object),
}

/// What `v` holds.
pub open spec fn value_view(v: Value) -> ValueView
    decreases v,
{
    match v {
        Value::Null => ValueView::Null,
        Value::ObjectId(s) => ValueView::ObjectId(s@),
        Value::Bool(b) => ValueView::Bool(b),
        Value::I8(n) => ValueView::I8(n),
        Value::I16(n) => ValueView::I16(n),
        Value::I32(n) => ValueView::I32(n),
        Value::I64(n) => ValueView::I64(n),
        Value::I128(n) => ValueView::I128(n),
        Value::U8(n) => ValueView::U8(n),
        Value::U16(n) => ValueView::U16(n),
        Value::U32(n) => ValueView::U32(n),
        Value::U64(n) => ValueView::U64(n),
        Value::U128(n) => ValueView::U128(n),
        Value::F32(bits) => ValueView::F32(bits),
        Value::F64(bits) => ValueView::F64(bits),
        Value::Decimal(s) => ValueView::Decimal(s@),
        Value::String(s) => ValueView::String(s@),
        Value::Date(day) => ValueView::Date(day),
        Value::DateTime(ms) => ValueView::DateTime(ms),
        Value::Vec(items) => ValueView::Vec(
            Seq::new(
                items@.len(),
                |i: int|
                    if 0 <= i < items@.len() {
                        value_view(items@[i])
                    } else {
                        ValueView::Null
                    },
            ),
        ),
        Value::Dictionary(entries) => ValueView::Dictionary(
            Seq::new(
                entries@.len(),
                |i: int|
                    if 0 <= i < entries@.len() {
                        (entries@[i].0@, value_view(entries@[i].1))
                    } else {
                        (Seq::empty(), ValueView::Null)
                    },
            ),
        ),
        Value::Object(o) => ValueView::Object(o),
    }
}

impl Clone for Value {
    fn clone(&self) -> (r: Value)
        ensures
            r@ == self@,
        decreases self,
    {
        match self {
            Value::Null => Value::Null,
            Value::ObjectId(s) => Value::ObjectId(s.clone()),
            Value::Bool(b) => Value::Bool(*b),
            Value::I8(n) => Value::I8(*n),
            Value::I16(n) => Value::I16(*n),
            Value::I32(n) => Value::I32(*n),
            Value::I64(n) => Value::I64(*n),
            Value::I128(n) => Value::I128(*n),
            Value::U8(n) => Value::U8(*n),
            Value::U16(n) => Value::U16(*n),
            Value::U32(n) => Value::U32(*n),
            Value::U64(n) => Value::U64(*n),
            Value::U128(n) => Value::U128(*n),
            Value::F32(bits) => Value::F32(*bits),
            Value::F64(bits) => Value::F64(*bits),
            Value::Decimal(s) => Value::Decimal(s.clone()),
            Value::String(s) => Value::String(s.clone()),
            Value::Date(day) => Value::Date(*day),
            Value::DateTime(ms) => Value::DateTime(*ms),
            Value::Vec(items) => {
                let mut out: Vec<Value> = Vec::new();
                let mut i: usize = 0;
                while i < items.len()
                    invariant
                        0 <= i <= items.len(),
                        *self == Value::Vec(*items),
                        out@.len() == i,
                        forall|j: int| 0 <= j < i ==> out@[j]@ == items@[j]@,
                    decreases items.len() - i,
                {
                    assert(self@->Vec_0[i as int] == items@[i as int]@);
                    let item = items[i].clone();
                    out.push(item);
                    i += 1;
                }
                let r = Value::Vec(out);
                assert(r@->Vec_0 =~= self@->Vec_0);
                r
            },
            Value::Dictionary(entries) => {
                let mut out: Vec<(String, Value)> = Vec::new();
                let mut i: usize = 0;
                while i < entries.len()
                    invariant
                        0 <= i <= entries.len(),
                        *self == Value::Dictionary(*entries),
                        out@.len() == i,
                        forall|j: int|
                            0 <= j < i ==> out@[j].0@ == entries@[j].0@ && out@[j].1@
                                == entries@[j].1@,
                    decreases entries.len() - i,
                {
                    assert(self@->Dictionary_0[i as int] == (
                        entries@[i as int].0@,
                        entries@[i as int].1@,
                    ));
                    let item = entries[i].1.clone();
                    out.push((entries[i].0.clone(), item));
                    i += 1;
                }
                let r = Value::Dictionary(out);
                assert(r@->Dictionary_0 =~= self@->Dictionary_0);
                r
            },
            Value::Object(o) => Value::Object(o.clone()),
        }
    }
}

impl View for Value {
    type V = ValueView;

    open spec fn view(&self) -> ValueView {
        value_view(*self)
    }
}

/// Whether a value has a native encoding: it holds no decimal and no object
/// reference, at any depth, and its object identifiers are well written.
pub open spec fn representable(v: ValueView) -> bool
    decreases v,
{
    match v {
        ValueView::Decimal(_) => false,
        ValueView::Object(_) => false,
        ValueView::ObjectId(s) => is_object_id_text(s),
        ValueView::Vec(items) => forall|i: int|
            0 <= i < items.len() ==> representable(#[trigger] items[i]),
        ValueView::Dictionary(entries) => forall|i: int|
            0 <= i < entries.len() ==> representable((#[trigger] entries[i]).1),
        _ => true,
    }
}

/// The document that comes of inserting the first `n` of `entries`, in order.
pub open spec fn document_of(entries: DocumentView, n: nat) -> DocumentView
    decreases n,
{
    if n == 0 || n > entries.len() {
        Seq::empty()
    } else {
        doc_insert(document_of(entries, (n - 1) as nat), entries[n - 1].0, entries[n - 1].1)
    }
}

/// The native timestamp of midnight, UTC, of a calendar day.
pub open spec fn midnight_millis(day: i32) -> int {
    (day - 719_163) * 86_400_000
}

/// The native encoding of a value.
///
/// Signed integers of up to 32 bits become 32-bit natives, those of 64 and
/// 128 bits 64-bit natives, the latter by truncation. Unsigned integers of up
/// to 16 bits become 32-bit natives; wider ones become 64-bit signed natives
/// by truncation, which is lossy for values of 2^63 and above. Sequences and
/// mappings are encoded item by item, in order.
pub open spec fn encode(v: ValueView) -> NativeView
    decreases v,
{
    match v {
        ValueView::Null => NativeView::Null,
        ValueView::ObjectId(s) => NativeView::ObjectId(object_id_bytes(s)),
        ValueView::Bool(b) => NativeView::Boolean(b),
        ValueView::I8(n) => NativeView::Int32(n as i32),
        ValueView::I16(n) => NativeView::Int32(n as i32),
        ValueView::I32(n) => NativeView::Int32(n),
        ValueView::I64(n) => NativeView::Int64(n),
        ValueView::I128(n) => NativeView::Int64(n as i64),
        ValueView::U8(n) => NativeView::Int32(n as i32),
        ValueView::U16(n) => NativeView::Int32(n as i32),
        ValueView::U32(n) => NativeView::Int64(n as i64),
        ValueView::U64(n) => NativeView::Int64(n as i64),
        ValueView::U128(n) => NativeView::Int64(n as i64),
        ValueView::F32(bits) => NativeView::Double(single_double(bits) as u64),
        ValueView::F64(bits) => NativeView::Double(bits),
        ValueView::Decimal(_) => NativeView::Null,
        ValueView::String(s) => NativeView::String(s),
        ValueView::Date(day) => NativeView::DateTime(midnight_millis(day) as i64),
        ValueView::DateTime(ms) => NativeView::DateTime(ms),
        ValueView::Vec(items) => NativeView::Array(encode_items(items)),
        ValueView::Dictionary(entries) => NativeView::Document(
            document_of(encode_entries(entries), entries.len()),
        ),
        ValueView::Object(_) => NativeView::Null,
    }
}

/// The native encodings of `items`, in order.
pub open spec fn encode_items(items: Seq<ValueView>) -> Seq<NativeView>
    decreases items,
{
    Seq::new(
        items.len(),
        |i: int|
            if 0 <= i < items.len() {
                encode(items[i])
            } else {
                NativeView::Null
            },
    )
}

/// The entries of a mapping, each value in its native encoding.
pub open spec fn encode_entries(entries: Seq<(Seq<char>, ValueView)>) -> DocumentView
    decreases entries,
{
    Seq::new(
        entries.len(),
        |i: int|
            if 0 <= i < entries.len() {
                (entries[i].0, encode(entries[i].1))
            } else {
                (Seq::empty(), NativeView::Null)
            },
    )
}

/// Whether a native value can be read back as a value: it holds no regular
/// expression, at any depth.
pub open spec fn decodable(n: NativeView) -> bool
    decreases n,
{
    match n {
        NativeView::RegularExpression { .. } => false,
        NativeView::Array(items) => forall|i: int|
            0 <= i < items.len() ==> decodable(#[trigger] items[i]),
        NativeView::Document(d) => forall|i: int|
            0 <= i < d.len() ==> decodable((#[trigger] d[i]).1),
        _ => true,
    }
}

/// The value that a native value reads back as. Numbers come back at the
/// width of the native, an object identifier as its lower-case text, and a
/// timestamp as an instant.
pub open spec fn decode(n: NativeView) -> ValueView
    decreases n,
{
    match n {
        NativeView::Null => ValueView::Null,
        NativeView::ObjectId(bytes) => ValueView::ObjectId(object_id_text(bytes)),
        NativeView::Boolean(b) => ValueView::Bool(b),
        NativeView::Int32(i) => ValueView::I32(i),
        NativeView::Int64(i) => ValueView::I64(i),
        NativeView::Double(bits) => ValueView::F64(bits),
        NativeView::String(s) => ValueView::String(s),
        NativeView::DateTime(ms) => ValueView::DateTime(ms),
        NativeView::RegularExpression { .. } => ValueView::Null,
        NativeView::Array(items) => ValueView::Vec(decode_items(items)),
        NativeView::Document(d) => ValueView::Dictionary(decode_entries(d)),
    }
}

/// What each of `items` reads back as, in order.
pub open spec fn decode_items(items: Seq<NativeView>) -> Seq<ValueView>
    decreases items,
{
    Seq::new(
        items.len(),
        |i: int|
            if 0 <= i < items.len() {
                decode(items[i])
            } else {
                ValueView::Null
            },
    )
}

/// The entries of a document, each value as what it reads back as.
pub open spec fn decode_entries(d: DocumentView) -> Seq<(Seq<char>, ValueView)>
    decreases d,
{
    Seq::new(
        d.len(),
        |i: int|
            if 0 <= i < d.len() {
                (d[i].0, decode(d[i].1))
            } else {
                (Seq::empty(), ValueView::Null)
            },
    )
}

/// A value that can be written as a native value of the document database.
pub trait ToBsonValue {
    /// Whether the value has a native encoding.
    spec fn has_bson_value(&self) -> bool;

    /// The native encoding.
    spec fn bson_value(&self) -> NativeView;

    /// Encodes the value.
    fn to_bson_value(&self) -> (r: Native)
        requires
            self.has_bson_value(),
        ensures
            r@ == self.bson_value(),
    ;
}

impl ToBsonValue for Value {
    open spec fn has_bson_value(&self) -> bool {
        representable(self@)
    }

    open spec fn bson_value(&self) -> NativeView {
        encode(self@)
    }

    fn to_bson_value(&self) -> (r: Native) {
        self.to_native()
    }
}

impl Value {
    /// Reads a native value back as a value, where it can be read back.
    pub fn from_native(native: &Native) -> (r: Option<Value>)
        ensures
            r is Some <==> decodable(native@),
            r is Some ==> r->0@ == decode(native@),
        decreases native,
    {
        match native {
            Native::Null => Some(Value::Null),
            Native::ObjectId(bytes) => Some(Value::ObjectId(write_object_id(bytes))),
            Native::Boolean(b) => Some(Value::Bool(*b)),
            Native::Int32(i) => Some(Value::I32(*i)),
            Native::Int64(i) => Some(Value::I64(*i)),
            Native::Double(bits) => Some(Value::F64(*bits)),
            Native::String(s) => Some(Value::String(s.clone())),
            Native::DateTime(ms) => Some(Value::DateTime(*ms)),
            Native::RegularExpression { .. } => None,
            Native::Array(items) => {
                let mut out: Vec<Value> = Vec::new();
                let mut i: usize = 0;
                while i < items.len()
                    invariant
                        0 <= i <= items.len(),
                        *native == Native::Array(*items),
                        out@.len() == i,
                        forall|j: int| 0 <= j < i ==> decodable(#[trigger] items@[j]@),
                        forall|j: int| 0 <= j < i ==> out@[j]@ == decode(items@[j]@),
                    decreases items.len() - i,
                {
                    assert(native@->Array_0[i as int] == items@[i as int]@);
                    match Value::from_native(&items[i]) {
                        Some(item) => {
                            out.push(item);
                        },
                        None => {
                            return None;
                        },
                    }
                    i += 1;
                }
                proof {
                    assert forall|j: int| 0 <= j < native@->Array_0.len() implies decodable(
                        #[trigger] native@->Array_0[j],
                    ) by {
                        assert(decodable(items@[j]@));
                    }
                }
                let r = Value::Vec(out);
                assert(r@->Vec_0 =~= decode_items(native@->Array_0));
                Some(r)
            },
            Native::Document(d) => {
                let mut out: Vec<(String, Value)> = Vec::new();
                let mut i: usize = 0;
                while i < d.entries.len()
                    invariant
                        0 <= i <= d.entries.len(),
                        *native == Native::Document(*d),
                        out@.len() == i,
                        forall|j: int| 0 <= j < i ==> decodable((#[trigger] d.entries@[j]).1@),
                        forall|j: int|
                            0 <= j < i ==> out@[j].0@ == d.entries@[j].0@ && out@[j].1@ == decode(
                                d.entries@[j].1@,
                            ),
                    decreases d.entries.len() - i,
                {
                    assert(native@->Document_0[i as int] == (
                        d.entries@[i as int].0@,
                        d.entries@[i as int].1@,
                    ));
                    match Value::from_native(&d.entries[i].1) {
                        Some(item) => {
                            out.push((d.entries[i].0.clone(), item));
                        },
                        None => {
                            return None;
                        },
                    }
                    i += 1;
                }
                proof {
                    assert forall|j: int| 0 <= j < native@->Document_0.len() implies decodable(
                        (#[trigger] native@->Document_0[j]).1,
                    ) by {
                        assert(decodable(d.entries@[j].1@));
                    }
                }
                let r = Value::Dictionary(out);
                assert(r@->Dictionary_0 =~= decode_entries(native@->Document_0));
                Some(r)
            },
        }
    }

    /// Whether the value has a native encoding.
    pub fn is_representable(&self) -> (r: bool)
        ensures
            r == representable(self@),
        decreases self,
    {
        match self {
            Value::Decimal(_) => false,
            Value::Object(_) => false,
            Value::ObjectId(s) => read_object_id(s.as_str()).is_some(),
            Value::Vec(items) => {
                let mut i: usize = 0;
                while i < items.len()
                    invariant
                        0 <= i <= items.len(),
                        *self == Value::Vec(*items),
                        forall|j: int| 0 <= j < i ==> representable(#[trigger] items@[j]@),
                    decreases items.len() - i,
                {
                    assert(self@->Vec_0[i as int] == items@[i as int]@);
                    if !items[i].is_representable() {
                        return false;
                    }
                    i += 1;
                }
                assert forall|j: int| 0 <= j < self@->Vec_0.len() implies representable(
                    #[trigger] self@->Vec_0[j],
                ) by {
                    assert(representable(items@[j]@));
                }
                true
            },
            Value::Dictionary(entries) => {
                let mut i: usize = 0;
                while i < entries.len()
                    invariant
                        0 <= i <= entries.len(),
                        *self == Value::Dictionary(*entries),
                        forall|j: int| 0 <= j < i ==> representable((#[trigger] entries@[j]).1@),
                    decreases entries.len() - i,
                {
                    assert(self@->Dictionary_0[i as int] == (
                        entries@[i as int].0@,
                        entries@[i as int].1@,
                    ));
                    if !entries[i].1.is_representable() {
                        return false;
                    }
                    i += 1;
                }
                assert forall|j: int| 0 <= j < self@->Dictionary_0.len() implies representable(
                    (#[trigger] self@->Dictionary_0[j]).1,
                ) by {
                    assert(representable(entries@[j].1@));
                }
                true
            },
            _ => true,
        }
    }

    /// The native timestamp of midnight, UTC, of a calendar day.
    pub fn date_to_native(day: i32) -> (r: Native)
        ensures
            r@ == encode(ValueView::Date(day)),
    {
        Native::DateTime((day as i64 - UNIX_EPOCH_DAY) * MILLIS_PER_DAY)
    }

    /// Encodes the value as a native value. A value that has no native
    /// encoding is a fault of the caller: it is never encoded as something
    /// else.
    pub fn to_native(&self) -> (r: Native)
        requires
            representable(self@),
        ensures
            r@ == encode(self@),
        decreases self,
    {
        match self {
            Value::Null => Native::Null,
            Value::ObjectId(s) => {
                let bytes = read_object_id(s.as_str());
                Native::ObjectId(bytes.unwrap())
            },
            Value::Bool(b) => Native::Boolean(*b),
            Value::I8(n) => Native::Int32(*n as i32),
            Value::I16(n) => Native::Int32(*n as i32),
            Value::I32(n) => Native::Int32(*n),
            Value::I64(n) => Native::Int64(*n),
            Value::I128(n) => Native::Int64(
                #[verifier::truncate]
                (*n as i64),
            ),
            Value::U8(n) => Native::Int32(*n as i32),
            Value::U16(n) => Native::Int32(*n as i32),
            Value::U32(n) => Native::Int64(*n as i64),
            Value::U64(n) => Native::Int64(
                #[verifier::truncate]
                (*n as i64),
            ),
            Value::U128(n) => Native::Int64(
                #[verifier::truncate]
                (*n as i64),
            ),
            Value::F32(bits) => Native::Double(single_to_double(*bits)),
            Value::F64(bits) => Native::Double(*bits),
            Value::Decimal(_) => vstd::pervasive::unreached(),
            Value::String(s) => Native::String(s.clone()),
            Value::Date(day) => Value::date_to_native(*day),
            Value::DateTime(ms) => Native::DateTime(*ms),
            Value::Vec(items) => {
                let mut out: Vec<Native> = Vec::new();
                let mut i: usize = 0;
                while i < items.len()
                    invariant
                        0 <= i <= items.len(),
                        *self == Value::Vec(*items),
                        representable(self@),
                        out@.len() == i,
                        forall|j: int| 0 <= j < i ==> out@[j]@ == encode(items@[j]@),
                    decreases items.len() - i,
                {
                    assert(self@->Vec_0[i as int] == items@[i as int]@);
                    let item = items[i].to_native();
                    out.push(item);
                    i += 1;
                }
                let r = Native::Array(out);
                assert(r@->Array_0 =~= encode_items(self@->Vec_0));
                r
            },
            Value::Dictionary(entries) => {
                let ghost encoded: DocumentView = Seq::new(
                    entries@.len(),
                    |i: int| (entries@[i].0@, encode(entries@[i].1@)),
                );
                let mut out = Document::new();
                let mut i: usize = 0;
                while i < entries.len()
                    invariant
                        0 <= i <= entries.len(),
                        *self == Value::Dictionary(*entries),
                        representable(self@),
                        encoded.len() == entries@.len(),
                        forall|j: int|
                            0 <= j < entries@.len() ==> encoded[j] == (
                                entries@[j].0@,
                                encode(entries@[j].1@),
                            ),
                        out@ == document_of(encoded, i as nat),
                    decreases entries.len() - i,
                {
                    assert(self@->Dictionary_0[i as int] == (
                        entries@[i as int].0@,
                        entries@[i as int].1@,
                    ));
                    let item = entries[i].1.to_native();
                    out.insert(entries[i].0.clone(), item);
                    i += 1;
                }
                proof {
                    Native::lemma_document_view(out);
                    assert(encoded =~= encode_entries(self@->Dictionary_0));
                }
                Native::Document(out)
            },
            Value::Object(_) => vstd::pervasive::unreached(),
        }
    }
}

} // verus!
