//! The document database's native values: what a compiled plan is made of.

use vstd::prelude::*;
use crate::text::{index_of, lemma_index_of, lemma_index_of_first, str_eq};

verus! {

/// A native value of the document database.
#[derive(Debug, PartialEq)]
pub enum Native {
    Null,
    /// The twelve raw bytes of an object identifier.
    ObjectId([u8; 12]),
    Boolean(bool),
    Int32(i32),
    Int64(i64),
    /// A double, held as its IEEE-754 binary64 bit pattern.
    Double(u64),
    String(String),
    /// An instant, in milliseconds since the Unix epoch.
    DateTime(i64),
    RegularExpression { pattern: String, options: String },
    Array(Vec<Native>),
    Document(Document),
}

/// An ordered mapping from keys to native values.
#[derive(Debug, PartialEq)]
pub struct Document {
    pub entries: Vec<(String, Native)>,
}

/// What a [`Native`] holds.
pub enum NativeView {
    Null,
    ObjectId(Seq<u8>),
    Boolean(bool),
    Int32(i32),
    Int64(i64),
    Double(u64),
    String(Seq<char>),
    DateTime(i64),
    RegularExpression { pattern: Seq<char>, options: Seq<char> },
    Array(Seq<NativeView>),
    Document(DocumentView),
}

/// What a [`Document`] holds: its entries, in order.
pub type DocumentView = Seq<(Seq<char>, NativeView)>;

/// What `n` holds.
pub open spec fn native_view(n: Native) -> NativeView
    decreases n,
{
    match n {
        Native::Null => NativeView::Null,
        Native::ObjectId(b) => NativeView::ObjectId(b@),
        Native::Boolean(b) => NativeView::Boolean(b),
        Native::Int32(n) => NativeView::Int32(n),
        Native::Int64(n) => NativeView::Int64(n),
        Native::Double(bits) => NativeView::Double(bits),
        Native::String(s) => NativeView::String(s@),
        Native::DateTime(ms) => NativeView::DateTime(ms),
        Native::RegularExpression { pattern, options } => NativeView::RegularExpression {
            pattern: pattern@,
            options: options@,
        },
        Native::Array(items) => NativeView::Array(
            Seq::new(
                items@.len(),
                |i: int|
                    if 0 <= i < items@.len() {
                        native_view(items@[i])
                    } else {
                        NativeView::Null
                    },
            ),
        ),
        Native::Document(d) => NativeView::Document(
            Seq::new(
                d.entries@.len(),
                |i: int|
                    if 0 <= i < d.entries@.len() {
                        (d.entries@[i].0@, native_view(d.entries@[i].1))
                    } else {
                        (Seq::empty(), NativeView::Null)
                    },
            ),
        ),
    }
}

impl Clone for Native {
    fn clone(&self) -> (r: Native)
        ensures
            r@ == self@,
        decreases self,
    {
        match self {
            Native::Null => Native::Null,
            Native::ObjectId(bytes) => Native::ObjectId(*bytes),
            Native::Boolean(b) => Native::Boolean(*b),
            Native::Int32(n) => Native::Int32(*n),
            Native::Int64(n) => Native::Int64(*n),
            Native::Double(bits) => Native::Double(*bits),
            Native::String(s) => Native::String(s.clone()),
            Native::DateTime(ms) => Native::DateTime(*ms),
            Native::RegularExpression { pattern, options } => Native::RegularExpression {
                pattern: pattern.clone(),
                options: options.clone(),
            },
            Native::Array(items) => {
                let mut out: Vec<Native> = Vec::new();
                let mut i: usize = 0;
                while i < items.len()
                    invariant
                        0 <= i <= items.len(),
                        *self == Native::Array(*items),
                        out@.len() == i,
                        forall|j: int| 0 <= j < i ==> out@[j]@ == items@[j]@,
                    decreases items.len() - i,
                {
                    assert(self@->Array_0[i as int] == items@[i as int]@);
                    let item = items[i].clone();
                    out.push(item);
                    i += 1;
                }
                let r = Native::Array(out);
                assert(r@->Array_0 =~= self@->Array_0);
                r
            },
            Native::Document(d) => {
                let mut out: Vec<(String, Native)> = Vec::new();
                let mut i: usize = 0;
                while i < d.entries.len()
                    invariant
                        0 <= i <= d.entries.len(),
                        *self == Native::Document(*d),
                        out@.len() == i,
                        forall|j: int|
                            0 <= j < i ==> out@[j].0@ == d.entries@[j].0@ && out@[j].1@
                                == d.entries@[j].1@,
                    decreases d.entries.len() - i,
                {
                    assert(self@->Document_0[i as int] == (
                        d.entries@[i as int].0@,
                        d.entries@[i as int].1@,
                    ));
                    let item = d.entries[i].1.clone();
                    out.push((d.entries[i].0.clone(), item));
                    i += 1;
                }
                let r = Native::Document(Document { entries: out });
                assert(r@->Document_0 =~= self@->Document_0);
                r
            },
        }
    }
}

impl Clone for Document {
    fn clone(&self) -> (r: Document)
        ensures
            r@ == self@,
    {
        let mut out: Vec<(String, Native)> = Vec::new();
        let mut i: usize = 0;
        while i < self.entries.len()
            invariant
                0 <= i <= self.entries.len(),
                out@.len() == i,
                forall|j: int|
                    0 <= j < i ==> out@[j].0@ == self.entries@[j].0@ && out@[j].1@
                        == self.entries@[j].1@,
            decreases self.entries.len() - i,
        {
            let item = self.entries[i].1.clone();
            out.push((self.entries[i].0.clone(), item));
            i += 1;
        }
        let r = Document { entries: out };
        assert(r@ =~= self@);
        r
    }
}

impl View for Native {
    type V = NativeView;

    open spec fn view(&self) -> NativeView {
        native_view(*self)
    }
}

impl View for Document {
    type V = DocumentView;

    open spec fn view(&self) -> DocumentView {
        Seq::new(self.entries@.len(), |i: int| (self.entries@[i].0@, self.entries@[i].1@))
    }
}

/// What a run of natives holds, item by item.
pub open spec fn natives_view(items: Seq<Native>) -> Seq<NativeView> {
    Seq::new(items.len(), |i: int| items[i]@)
}

/// What a run of documents holds, document by document.
pub open spec fn documents_view(docs: Seq<Document>) -> Seq<DocumentView> {
    Seq::new(docs.len(), |i: int| docs[i]@)
}

/// The keys of `d`, in order.
pub open spec fn doc_keys(d: DocumentView) -> Seq<Seq<char>> {
    Seq::new(d.len(), |i: int| d[i].0)
}

/// The place of the first entry of `d` under `key`, or the length of `d`
/// where no entry has that key.
pub open spec fn doc_position(d: DocumentView, key: Seq<char>) -> int {
    index_of(doc_keys(d), key)
}

/// The value that `d` holds under `key`.
pub open spec fn doc_get(d: DocumentView, key: Seq<char>) -> Option<NativeView> {
    let i = doc_position(d, key);
    if i < d.len() {
        Some(d[i].1)
    } else {
        None
    }
}

/// `d` with `value` under `key`: in the place of the value that was there,
/// or at the end where the key is new.
pub open spec fn doc_insert(d: DocumentView, key: Seq<char>, value: NativeView) -> DocumentView {
    let i = doc_position(d, key);
    if i < d.len() {
        d.update(i, (key, value))
    } else {
        d.push((key, value))
    }
}

/// The document that `d` holds under `key`; the empty one where it holds
/// none there.
pub open spec fn sub_document(d: DocumentView, key: Seq<char>) -> DocumentView {
    match doc_get(d, key) {
        Some(NativeView::Document(inner)) => inner,
        _ => Seq::empty(),
    }
}

/// The array that `d` holds under `key`; the empty one where it holds none
/// there.
pub open spec fn sub_array(d: DocumentView, key: Seq<char>) -> Seq<NativeView> {
    match doc_get(d, key) {
        Some(NativeView::Array(items)) => items,
        _ => Seq::empty(),
    }
}

/// No two entries of `d` share a key.
pub open spec fn doc_keys_distinct(d: DocumentView) -> bool {
    forall|i: int, j: int| 0 <= i < j < d.len() ==> (#[trigger] d[i]).0 != (#[trigger] d[j]).0
}

/// Inserting keeps the keys of a document distinct.
pub proof fn lemma_doc_insert_distinct(d: DocumentView, key: Seq<char>, value: NativeView)
    requires
        doc_keys_distinct(d),
    ensures
        doc_keys_distinct(doc_insert(d, key, value)),
{
    lemma_index_of_first(doc_keys(d), key);
    let i = doc_position(d, key);
    let r = doc_insert(d, key, value);
    assert forall|a: int, b: int| 0 <= a < b < r.len() implies (#[trigger] r[a]).0 != (
    #[trigger] r[b]).0 by {
        if i < d.len() {
            assert(doc_keys(d)[i] == d[i].0);
            assert(d[a].0 != d[b].0);
        } else if b == d.len() {
            assert(doc_keys(d)[a] == d[a].0);
        } else {
            assert(d[a].0 != d[b].0);
        }
    }
}

impl Native {
    /// An array's view is the views of its items.
    pub proof fn lemma_array_view(items: Vec<Native>)
        ensures
            Native::Array(items)@ == NativeView::Array(natives_view(items@)),
    {
        assert(Native::Array(items)@->Array_0 =~= natives_view(items@));
    }

    /// An embedded document's view is the document's own.
    pub proof fn lemma_document_view(d: Document)
        ensures
            Native::Document(d)@ == NativeView::Document(d@),
    {
        assert(Native::Document(d)@->Document_0 =~= d@);
    }
}

impl Document {
    /// The empty document.
    pub fn new() -> (r: Document)
        ensures
            r@ == Seq::<(Seq<char>, NativeView)>::empty(),
    {
        let r = Document { entries: Vec::new() };
        assert(r@ =~= Seq::empty());
        r
    }

    /// The number of entries.
    pub fn len(&self) -> (r: usize)
        ensures
            r == self@.len(),
    {
        self.entries.len()
    }

    /// Whether the document has no entry.
    pub fn is_empty(&self) -> (r: bool)
        ensures
            r == (self@.len() == 0),
    {
        self.entries.len() == 0
    }

    /// The place of the entry under `key`, or the number of entries where
    /// there is none.
    pub fn position(&self, key: &str) -> (r: usize)
        ensures
            r == doc_position(self@, key@),
            r <= self@.len(),
    {
        let mut i: usize = 0;
        while i < self.entries.len()
            invariant
                0 <= i <= self.entries.len(),
                forall|j: int| 0 <= j < i ==> doc_keys(self@)[j] != key@,
            decreases self.entries.len() - i,
        {
            if str_eq(self.entries[i].0.as_str(), key) {
                proof {
                    lemma_index_of(doc_keys(self@), key@, i as int);
                }
                return i;
            }
            i += 1;
        }
        proof {
            lemma_index_of(doc_keys(self@), key@, i as int);
        }
        i
    }

    /// The value under `key`, if there is one.
    pub fn get(&self, key: &str) -> (r: Option<&Native>)
        ensures
            match r {
                Some(v) => doc_get(self@, key@) == Some(v@),
                None => doc_get(self@, key@) is None,
            },
    {
        let i = self.position(key);
        if i < self.entries.len() {
            Some(&self.entries[i].1)
        } else {
            None
        }
    }

    /// Takes out the document held under `key`, leaving a null in its place.
    /// Where no document is held there, nothing is taken and the empty
    /// document is handed out. Putting a value under `key` afterwards gives
    /// what putting it there before would have given.
    pub fn take_document(&mut self, key: &str) -> (r: Document)
        ensures
            r@ == sub_document(old(self)@, key@),
            forall|value: NativeView| #[trigger]
                doc_insert(final(self)@, key@, value) == doc_insert(old(self)@, key@, value),
    {
        let i = self.position(key);
        let held = i < self.entries.len() && match &self.entries[i].1 {
            Native::Document(_) => true,
            _ => false,
        };
        if !held {
            return Document::new();
        }
        let (name, value) = self.entries.remove(i);
        match value {
            Native::Document(d) => {
                proof {
                    Native::lemma_document_view(d);
                }
                self.entries.insert(i, (name, Native::Null));
                proof {
                    assert(doc_keys(self@) =~= doc_keys(old(self)@));
                    assert forall|value: NativeView| #[trigger]
                        doc_insert(self@, key@, value) == doc_insert(old(self)@, key@, value) by {
                        assert(self@.update(i as int, (key@, value)) =~= old(self)@.update(
                            i as int,
                            (key@, value),
                        ));
                    }
                }
                d
            },
            other => {
                self.entries.insert(i, (name, other));
                assert(self@ =~= old(self)@);
                Document::new()
            },
        }
    }

    /// Takes out the array held under `key`, leaving a null in its place.
    /// Where no array is held there, nothing is taken and the empty array is
    /// handed out. Putting a value under `key` afterwards gives what putting
    /// it there before would have given.
    pub fn take_array(&mut self, key: &str) -> (r: Vec<Native>)
        ensures
            natives_view(r@) == sub_array(old(self)@, key@),
            forall|value: NativeView| #[trigger]
                doc_insert(final(self)@, key@, value) == doc_insert(old(self)@, key@, value),
    {
        let i = self.position(key);
        let held = i < self.entries.len() && match &self.entries[i].1 {
            Native::Array(_) => true,
            _ => false,
        };
        if !held {
            let r: Vec<Native> = Vec::new();
            assert(natives_view(r@) =~= Seq::empty());
            return r;
        }
        let (name, value) = self.entries.remove(i);
        match value {
            Native::Array(items) => {
                proof {
                    Native::lemma_array_view(items);
                }
                self.entries.insert(i, (name, Native::Null));
                proof {
                    assert(doc_keys(self@) =~= doc_keys(old(self)@));
                    assert forall|value: NativeView| #[trigger]
                        doc_insert(self@, key@, value) == doc_insert(old(self)@, key@, value) by {
                        assert(self@.update(i as int, (key@, value)) =~= old(self)@.update(
                            i as int,
                            (key@, value),
                        ));
                    }
                }
                items
            },
            other => {
                self.entries.insert(i, (name, other));
                assert(self@ =~= old(self)@);
                let r: Vec<Native> = Vec::new();
                assert(natives_view(r@) =~= Seq::empty());
                r
            },
        }
    }

    /// Puts `value` under `key`. Where the key is already there its value is
    /// replaced in place; a new key goes to the end.
    pub fn insert(&mut self, key: String, value: Native)
        ensures
            final(self)@ == doc_insert(old(self)@, key@, value@),
    {
        let i = self.position(key.as_str());
        if i < self.entries.len() {
            self.entries[i] = (key, value);
        } else {
            self.entries.push((key, value));
        }
        assert(self@ =~= doc_insert(old(self)@, key@, value@));
    }
}

} // verus!
