//! Object identifiers: twelve bytes, written as twenty-four hexadecimal digits.

use vstd::prelude::*;
use vstd::string::StringExecFns;

verus! {

/// Whether `c` is a hexadecimal digit, in either case.
pub open spec fn is_hex_digit(c: char) -> bool {
    ('0' <= c && c <= '9') || ('a' <= c && c <= 'f') || ('A' <= c && c <= 'F')
}

/// The number that a hexadecimal digit stands for.
pub open spec fn hex_value(c: char) -> int {
    if '0' <= c && c <= '9' {
        c as int - '0' as int
    } else if 'a' <= c && c <= 'f' {
        c as int - 'a' as int + 10
    } else {
        c as int - 'A' as int + 10
    }
}

/// Whether `s` is the text of an object identifier: twenty-four hexadecimal
/// digits.
pub open spec fn is_object_id_text(s: Seq<char>) -> bool {
    s.len() == 24 && forall|i: int| 0 <= i < 24 ==> is_hex_digit(#[trigger] s[i])
}

/// The twelve bytes that the text of an object identifier spells, two digits
/// to the byte, the high one first.
pub open spec fn object_id_bytes(s: Seq<char>) -> Seq<u8> {
    Seq::new(12, |i: int| (hex_value(s[2 * i]) * 16 + hex_value(s[2 * i + 1])) as u8)
}

/// Reads the text of an object identifier with `bson::oid::ObjectId::parse_str`
/// and hands out its bytes. That function decodes its argument as
/// hexadecimal, two digits to the byte and in either case, and accepts it
/// exactly when twelve bytes come out.
#[verifier::external_body]
pub(crate) fn read_object_id(s: &str) -> (r: Option<[u8; 12]>)
    ensures
        r is Some <==> is_object_id_text(s@),
        r is Some ==> r->0@ == object_id_bytes(s@),
{
    match bson::oid::ObjectId::parse_str(s) {
        Ok(id) => Some(id.bytes()),
        Err(_) => None,
    }
}

/// The hexadecimal digit, in lower case, of a number below sixteen.
pub open spec fn hex_char(n: int) -> char {
    if n == 0 {
        '0'
    } else if n == 1 {
        '1'
    } else if n == 2 {
        '2'
    } else if n == 3 {
        '3'
    } else if n == 4 {
        '4'
    } else if n == 5 {
        '5'
    } else if n == 6 {
        '6'
    } else if n == 7 {
        '7'
    } else if n == 8 {
        '8'
    } else if n == 9 {
        '9'
    } else if n == 10 {
        'a'
    } else if n == 11 {
        'b'
    } else if n == 12 {
        'c'
    } else if n == 13 {
        'd'
    } else if n == 14 {
        'e'
    } else {
        'f'
    }
}

/// The two hexadecimal digits of a byte, the high one first.
pub open spec fn byte_text(b: u8) -> Seq<char> {
    seq![hex_char(b as int / 16), hex_char(b as int % 16)]
}

/// The text of the first `n` of `bytes`, two digits to the byte.
pub open spec fn bytes_text(bytes: Seq<u8>, n: nat) -> Seq<char>
    decreases n,
{
    if n == 0 || n > bytes.len() {
        Seq::empty()
    } else {
        bytes_text(bytes, (n - 1) as nat) + byte_text(bytes[n - 1])
    }
}

/// The text of an object identifier: its bytes in lower-case hexadecimal.
pub open spec fn object_id_text(bytes: Seq<u8>) -> Seq<char> {
    bytes_text(bytes, bytes.len())
}

/// The text of the first `n` bytes has two characters to the byte, each the
/// digit of its half of the byte.
pub proof fn lemma_bytes_text(bytes: Seq<u8>, n: nat)
    requires
        n <= bytes.len(),
    ensures
        bytes_text(bytes, n).len() == 2 * n,
        forall|i: int|
            0 <= i < n ==> #[trigger] bytes_text(bytes, n)[2 * i] == hex_char(bytes[i] as int / 16)
                && bytes_text(bytes, n)[2 * i + 1] == hex_char(bytes[i] as int % 16),
    decreases n,
{
    if n > 0 {
        lemma_bytes_text(bytes, (n - 1) as nat);
        let before = bytes_text(bytes, (n - 1) as nat);
        assert forall|i: int| 0 <= i < n implies #[trigger] bytes_text(bytes, n)[2 * i]
            == hex_char(bytes[i] as int / 16) && bytes_text(bytes, n)[2 * i + 1] == hex_char(
            bytes[i] as int % 16,
        ) by {
            if i < n - 1 {
                assert(before[2 * i] == hex_char(bytes[i] as int / 16));
            }
        }
    }
}

/// A digit written by `hex_char` is read back by `hex_value`.
pub proof fn lemma_hex_char(n: int)
    requires
        0 <= n < 16,
    ensures
        is_hex_digit(hex_char(n)),
        hex_value(hex_char(n)) == n,
{
}

/// The text of twelve bytes is the text of an object identifier, and spells
/// those bytes.
pub proof fn lemma_object_id_text(bytes: Seq<u8>)
    requires
        bytes.len() == 12,
    ensures
        is_object_id_text(object_id_text(bytes)),
        object_id_bytes(object_id_text(bytes)) == bytes,
{
    let text = object_id_text(bytes);
    lemma_bytes_text(bytes, 12);
    assert forall|i: int| 0 <= i < 24 implies is_hex_digit(#[trigger] text[i]) by {
        let k = i / 2;
        assert(text[2 * k] == hex_char(bytes[k] as int / 16));
        lemma_hex_char(bytes[k] as int / 16);
        lemma_hex_char(bytes[k] as int % 16);
    }
    assert forall|i: int| 0 <= i < 12 implies #[trigger] object_id_bytes(text)[i] == bytes[i] by {
        assert(text[2 * i] == hex_char(bytes[i] as int / 16));
        lemma_hex_char(bytes[i] as int / 16);
        lemma_hex_char(bytes[i] as int % 16);
    }
    assert(object_id_bytes(text) =~= bytes);
}

/// Whether `c` is a hexadecimal digit that is no upper-case letter.
pub open spec fn is_lower_hex_digit(c: char) -> bool {
    ('0' <= c && c <= '9') || ('a' <= c && c <= 'f')
}

/// Whether `s` is the text of an object identifier as it is written out:
/// twenty-four hexadecimal digits, none an upper-case letter.
pub open spec fn is_written_object_id(s: Seq<char>) -> bool {
    s.len() == 24 && forall|i: int| 0 <= i < 24 ==> is_lower_hex_digit(#[trigger] s[i])
}

/// A lower-case digit that is read by `hex_value` is written back by
/// `hex_char`.
pub proof fn lemma_hex_value(c: char)
    requires
        is_lower_hex_digit(c),
    ensures
        0 <= hex_value(c) < 16,
        hex_char(hex_value(c)) == c,
{
}

/// The bytes that a written-out text spells are written out as that text.
pub proof fn lemma_object_id_bytes(s: Seq<char>)
    requires
        is_written_object_id(s),
    ensures
        is_object_id_text(s),
        object_id_text(object_id_bytes(s)) == s,
{
    let bytes = object_id_bytes(s);
    let text = object_id_text(bytes);
    lemma_bytes_text(bytes, 12);
    assert forall|i: int| 0 <= i < 24 implies text[i] == s[i] by {
        let k = i / 2;
        lemma_hex_value(s[2 * k]);
        lemma_hex_value(s[2 * k + 1]);
        let high = hex_value(s[2 * k]);
        let low = hex_value(s[2 * k + 1]);
        assert(bytes[k] == (high * 16 + low) as u8);
        assert(bytes[k] as int / 16 == high && bytes[k] as int % 16 == low);
        assert(text[2 * k] == hex_char(bytes[k] as int / 16));
    }
    assert(text =~= s);
}

/// The text of one hexadecimal digit.
fn hex_text(n: u8) -> (r: &'static str)
    requires
        n < 16,
    ensures
        r@ == seq![hex_char(n as int)],
{
    proof {
        reveal_strlit("0");
        reveal_strlit("1");
        reveal_strlit("2");
        reveal_strlit("3");
        reveal_strlit("4");
        reveal_strlit("5");
        reveal_strlit("6");
        reveal_strlit("7");
        reveal_strlit("8");
        reveal_strlit("9");
        reveal_strlit("a");
        reveal_strlit("b");
        reveal_strlit("c");
        reveal_strlit("d");
        reveal_strlit("e");
        reveal_strlit("f");
    }
    let r = if n == 0 {
        "0"
    } else if n == 1 {
        "1"
    } else if n == 2 {
        "2"
    } else if n == 3 {
        "3"
    } else if n == 4 {
        "4"
    } else if n == 5 {
        "5"
    } else if n == 6 {
        "6"
    } else if n == 7 {
        "7"
    } else if n == 8 {
        "8"
    } else if n == 9 {
        "9"
    } else if n == 10 {
        "a"
    } else if n == 11 {
        "b"
    } else if n == 12 {
        "c"
    } else if n == 13 {
        "d"
    } else if n == 14 {
        "e"
    } else {
        "f"
    };
    assert(r@ =~= seq![hex_char(n as int)]);
    r
}

/// Writes the text of an object identifier.
pub fn write_object_id(bytes: &[u8; 12]) -> (r: String)
    ensures
        r@ == object_id_text(bytes@),
{
    let mut r = String::new();
    let mut i: usize = 0;
    while i < 12
        invariant
            0 <= i <= 12,
            r@ == bytes_text(bytes@, i as nat),
        decreases 12 - i,
    {
        let b = bytes[i];
        r.append(hex_text(b / 16));
        r.append(hex_text(b % 16));
        assert(r@ =~= bytes_text(bytes@, (i + 1) as nat));
        i += 1;
    }
    r
}

} // verus!
