//! Small string utilities shared by the rest of the crate.

use vstd::prelude::*;
use vstd::string::StringExecFns;

verus! {

/// Whether two strings hold the same characters.
pub fn str_eq(s: &str, t: &str) -> (r: bool)
    ensures
        r == (s@ == t@),
{
    let a = s.as_bytes();
    let b = t.as_bytes();
    proof {
        vstd::utf8::encode_utf8_decode_utf8(s@);
        vstd::utf8::encode_utf8_decode_utf8(t@);
    }
    if a.len() != b.len() {
        return false;
    }
    let mut i: usize = 0;
    while i < a.len()
        invariant
            a.len() == b.len(),
            0 <= i <= a.len(),
            s@ == t@ ==> a@ == b@,
            forall|j: int| 0 <= j < i ==> a@[j] == b@[j],
        decreases a.len() - i,
    {
        if a[i] != b[i] {
            return false;
        }
        i += 1;
    }
    assert(a@ =~= b@);
    true
}

/// The two strings, one after the other.
pub fn joined(s: &str, t: &str) -> (r: String)
    ensures
        r@ == s@ + t@,
{
    let mut r = String::from_str(s);
    r.append(t);
    r
}

/// The place of the first of `names` that equals `key`, or the length of
/// `names` where none does.
pub open spec fn index_of(names: Seq<Seq<char>>, key: Seq<char>) -> int
    decreases names.len(),
{
    if names.len() == 0 {
        0
    } else if names[0] == key {
        0
    } else {
        1 + index_of(names.drop_first(), key)
    }
}

/// `index_of` is the first place whose name matches.
pub proof fn lemma_index_of(names: Seq<Seq<char>>, key: Seq<char>, i: int)
    requires
        0 <= i <= names.len(),
        forall|j: int| 0 <= j < i ==> names[j] != key,
        i < names.len() ==> names[i] == key,
    ensures
        index_of(names, key) == i,
    decreases names.len(),
{
    if names.len() > 0 && i > 0 {
        let rest = names.drop_first();
        assert forall|j: int| 0 <= j < i - 1 implies rest[j] != key by {
            assert(rest[j] == names[j + 1]);
        }
        lemma_index_of(rest, key, i - 1);
    }
}

/// `index_of` lies within `names` or just behind it; no name before it
/// matches, and the one at it does.
pub proof fn lemma_index_of_first(names: Seq<Seq<char>>, key: Seq<char>)
    ensures
        0 <= index_of(names, key) <= names.len(),
        forall|j: int| 0 <= j < index_of(names, key) ==> names[j] != key,
        index_of(names, key) < names.len() ==> names[index_of(names, key)] == key,
    decreases names.len(),
{
    if names.len() > 0 && names[0] != key {
        let rest = names.drop_first();
        lemma_index_of_first(rest, key);
        assert forall|j: int| 0 <= j < index_of(names, key) implies names[j] != key by {
            if j > 0 {
                assert(rest[j - 1] == names[j]);
            }
        }
    }
}

/// What each of `items` holds.
pub open spec fn strings_view(items: Seq<String>) -> Seq<Seq<char>> {
    Seq::new(items.len(), |i: int| items[i]@)
}

/// Whether `needle` is one of `items`.
pub open spec fn seq_has(items: Seq<String>, needle: Seq<char>) -> bool {
    exists|i: int| 0 <= i < items.len() && #[trigger] items[i]@ == needle
}

/// Whether `needle` is one of `items`.
pub fn vec_has(items: &Vec<String>, needle: &str) -> (r: bool)
    ensures
        r == seq_has(items@, needle@),
{
    let mut i: usize = 0;
    while i < items.len()
        invariant
            0 <= i <= items.len(),
            forall|j: int| 0 <= j < i ==> #[trigger] items@[j]@ != needle@,
        decreases items.len() - i,
    {
        if str_eq(items[i].as_str(), needle) {
            return true;
        }
        i += 1;
    }
    false
}

/// The character of a decimal digit.
pub open spec fn digit_char(d: nat) -> char {
    if d == 0 {
        '0'
    } else if d == 1 {
        '1'
    } else if d == 2 {
        '2'
    } else if d == 3 {
        '3'
    } else if d == 4 {
        '4'
    } else if d == 5 {
        '5'
    } else if d == 6 {
        '6'
    } else if d == 7 {
        '7'
    } else if d == 8 {
        '8'
    } else {
        '9'
    }
}

/// A number in decimal, without sign or leading zeros.
pub open spec fn decimal_text(n: nat) -> Seq<char>
    decreases n,
{
    if n < 10 {
        seq![digit_char(n)]
    } else {
        decimal_text(n / 10).push(digit_char(n % 10))
    }
}

/// The text of one decimal digit.
fn digit_text(d: u64) -> (r: &'static str)
    requires
        d < 10,
    ensures
        r@ == seq![digit_char(d as nat)],
{
    proof {
        reveal_strlit("0");
        reveal_strlit("1");
        reveal_strlit("2");
        reveal_strlit("3");
        reveal_strlit("4");
        reveal_strlit("5");
        reveal_strlit("6");
        reveal_strlit("7");
        reveal_strlit("8");
        reveal_strlit("9");
    }
    let r = if d == 0 {
        "0"
    } else if d == 1 {
        "1"
    } else if d == 2 {
        "2"
    } else if d == 3 {
        "3"
    } else if d == 4 {
        "4"
    } else if d == 5 {
        "5"
    } else if d == 6 {
        "6"
    } else if d == 7 {
        "7"
    } else if d == 8 {
        "8"
    } else {
        "9"
    };
    assert(r@ =~= seq![digit_char(d as nat)]);
    r
}

/// Writes a number in decimal.
pub fn decimal(n: u64) -> (r: String)
    ensures
        r@ == decimal_text(n as nat),
    decreases n,
{
    if n < 10 {
        digit_text(n).to_owned()
    } else {
        let mut r = decimal(n / 10);
        r.append(digit_text(n % 10));
        assert(r@ =~= decimal_text(n as nat));
        r
    }
}

} // verus!
