//! Untyped JSON, as query descriptions arrive.

use vstd::prelude::*;
use crate::text::{index_of, lemma_index_of, lemma_index_of_first, str_eq};

verus! {

/// A JSON number: a non-negative integer, a negative integer, or a double
/// held as its IEEE-754 binary64 bit pattern.
#[derive(Debug, Clone, Copy, PartialEq)]
pub enum JsonNumber {
    PosInt(u64),
    NegInt(i64),
    Float(u64),
}

/// A JSON value. An object keeps its members in the order they were given.
#[derive(Debug, PartialEq)]
pub enum Json {
    Null,
    Bool(bool),
    Number(JsonNumber),
    String(String),
    Array(Vec<Json>),
    Object(Vec<(String, Json)>),
}

/// The names of an object's members, in order.
pub open spec fn member_names(members: Seq<(String, Json)>) -> Seq<Seq<char>> {
    Seq::new(members.len(), |i: int| members[i].0@)
}

/// The first member of an object under `key`.
pub open spec fn member(members: Seq<(String, Json)>, key: Seq<char>) -> Option<Json> {
    let i = index_of(member_names(members), key);
    if i < members.len() {
        Some(members[i].1)
    } else {
        None
    }
}

/// How deep objects are nested in `j`: a value that is no object has depth
/// zero, an object one more than the deepest of its members.
pub open spec fn json_depth(j: Json) -> nat
    decreases j, 0nat,
{
    match j {
        Json::Object(members) => 1 + members_depth(members@, members@.len()),
        _ => 0,
    }
}

/// The depth of the deepest of the first `n` members.
pub open spec fn members_depth(members: Seq<(String, Json)>, n: nat) -> nat
    decreases members, n,
{
    if n == 0 || n > members.len() {
        0
    } else {
        let before = members_depth(members, (n - 1) as nat);
        let last = json_depth(members[n - 1].1);
        if last > before {
            last
        } else {
            before
        }
    }
}

/// No member is deeper than the deepest.
pub proof fn lemma_member_depth(members: Seq<(String, Json)>, n: nat, i: int)
    requires
        0 <= i < n <= members.len(),
    ensures
        json_depth(members[i].1) <= members_depth(members, n),
    decreases n,
{
    if i < n - 1 {
        lemma_member_depth(members, (n - 1) as nat, i);
    }
}

/// A member of an object is less deep than the object.
pub proof fn lemma_member_shallower(j: Json, key: Seq<char>)
    requires
        j is Object,
        member(j->Object_0@, key) is Some,
    ensures
        json_depth(member(j->Object_0@, key)->0) < json_depth(j),
{
    let members = j->Object_0@;
    let i = index_of(member_names(members), key);
    lemma_index_of_first(member_names(members), key);
    lemma_member_depth(members, members.len(), i);
}

/// The first member under `key`, if there is one.
pub fn get_member<'a>(members: &'a Vec<(String, Json)>, key: &str) -> (r: Option<&'a Json>)
    ensures
        match r {
            Some(v) => member(members@, key@) == Some(*v),
            None => member(members@, key@) is None,
        },
{
    let mut i: usize = 0;
    while i < members.len()
        invariant
            0 <= i <= members.len(),
            forall|j: int| 0 <= j < i ==> member_names(members@)[j] != key@,
        decreases members.len() - i,
    {
        if str_eq(members[i].0.as_str(), key) {
            proof {
                lemma_index_of(member_names(members@), key@, i as int);
            }
            return Some(&members[i].1);
        }
        i += 1;
    }
    proof {
        lemma_index_of(member_names(members@), key@, i as int);
    }
    None
}

impl Json {
    /// The text of a JSON string.
    pub fn as_str(&self) -> (r: Option<&str>)
        ensures
            match *self {
                Json::String(s) => r is Some && r->0@ == s@,
                _ => r is None,
            },
    {
        match self {
            Json::String(s) => Some(s.as_str()),
            _ => None,
        }
    }

    /// The truth value of a JSON boolean.
    pub fn as_bool(&self) -> (r: Option<bool>)
        ensures
            r == match *self {
                Json::Bool(b) => Some(b),
                _ => None,
            },
    {
        match self {
            Json::Bool(b) => Some(*b),
            _ => None,
        }
    }

    /// The number of a JSON number.
    pub fn as_number(&self) -> (r: Option<JsonNumber>)
        ensures
            r == match *self {
                Json::Number(n) => Some(n),
                _ => None,
            },
    {
        match self {
            Json::Number(n) => Some(*n),
            _ => None,
        }
    }

    /// The items of a JSON array.
    pub fn as_array(&self) -> (r: Option<&Vec<Json>>)
        ensures
            match *self {
                Json::Array(items) => r == Some(&items),
                _ => r is None,
            },
    {
        match self {
            Json::Array(items) => Some(items),
            _ => None,
        }
    }

    /// The members of a JSON object.
    pub fn as_object(&self) -> (r: Option<&Vec<(String, Json)>>)
        ensures
            match *self {
                Json::Object(members) => r == Some(&members),
                _ => r is None,
            },
    {
        match self {
            Json::Object(members) => Some(members),
            _ => None,
        }
    }

    /// The value of a non-negative JSON integer.
    pub fn as_u64(&self) -> (r: Option<u64>)
        ensures
            r == match *self {
                Json::Number(JsonNumber::PosInt(n)) => Some(n),
                _ => None,
            },
    {
        match self {
            Json::Number(JsonNumber::PosInt(n)) => Some(*n),
            _ => None,
        }
    }
}

} // verus!
