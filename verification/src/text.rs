//! Comparisons on text and on lists of names.

use vstd::prelude::*;
use vstd::utf8::*;

verus! {

/// The names held by a list of strings, in order.
pub open spec fn names(list: Seq<String>) -> Seq<Seq<char>> {
    list.map_values(|s: String| s@)
}

/// Two texts with the same encoding hold the same characters.
pub proof fn lemma_encoding_injective(a: Seq<char>, b: Seq<char>)
    requires
        encode_utf8(a) == encode_utf8(b),
    ensures
        a == b,
{
    encode_utf8_decode_utf8(a);
    encode_utf8_decode_utf8(b);
}

/// Different texts have different encodings.
pub proof fn lemma_encoding_differs(a: Seq<char>, b: Seq<char>)
    requires
        a != b,
    ensures
        encode_utf8(a) != encode_utf8(b),
{
    if encode_utf8(a) == encode_utf8(b) {
        lemma_encoding_injective(a, b);
    }
}

/// Exact equality of two texts.
pub fn str_eq(a: &str, b: &str) -> (r: bool)
    ensures
        r == (a@ == b@),
{
    let x = a.as_bytes();
    let y = b.as_bytes();
    if x.len() != y.len() {
        return false;
    }
    let mut i: usize = 0;
    while i < x.len()
        invariant
            i <= x.len(),
            x.len() == y.len(),
            x@ == encode_utf8(a@),
            y@ == encode_utf8(b@),
            forall|j: int| 0 <= j < i ==> x@[j] == y@[j],
        decreases x.len() - i,
    {
        if x[i] != y[i] {
            return false;
        }
        i += 1;
    }
    proof {
        assert(x@ =~= y@);
        lemma_encoding_injective(a@, b@);
    }
    true
}

/// The text with which `String::from_utf8` refuses `bytes`.
pub uninterp spec fn utf8_error_text(bytes: Seq<u8>) -> Seq<char>;

/// What decoding `bytes` as UTF-8 gives: the text they encode, or the
/// reason why they encode none.
pub open spec fn decoded(bytes: Seq<u8>) -> Result<Seq<char>, Seq<char>> {
    if valid_utf8(bytes) {
        Ok(decode_utf8(bytes))
    } else {
        Err(utf8_error_text(bytes))
    }
}

/// A decoded text, or the reason for none, as character sequences.
pub open spec fn text_result(r: Result<String, String>) -> Result<Seq<char>, Seq<char>> {
    match r {
        Ok(t) => Ok(t@),
        Err(e) => Err(e@),
    }
}

/// Calls `String::from_utf8` on a copy of `bytes`. Taken on trust: the call
/// succeeds exactly on valid UTF-8 and then yields the text that the bytes
/// encode; otherwise the error's own description comes back, which the
/// contract only names.
#[verifier::external_body]
pub(crate) fn from_utf8(bytes: &[u8]) -> (r: Result<String, String>)
    ensures
        match r {
            Ok(text) => valid_utf8(bytes@) && text@ == decode_utf8(bytes@),
            Err(reason) => !valid_utf8(bytes@) && reason@ == utf8_error_text(bytes@),
        },
{
    String::from_utf8(bytes.to_vec()).map_err(|e| e.to_string())
}

/// Position of the first entry of `list` equal to `item`, if there is one.
pub fn position(list: &Vec<String>, item: &str) -> (r: Option<usize>)
    ensures
        match r {
            Some(i) => i < list.len() && list[i as int]@ == item@ && forall|j: int|
                0 <= j < i ==> list[j]@ != item@,
            None => !names(list@).contains(item@),
        },
{
    let mut i: usize = 0;
    while i < list.len()
        invariant
            i <= list.len(),
            forall|j: int| 0 <= j < i ==> list[j]@ != item@,
        decreases list.len() - i,
    {
        if str_eq(list[i].as_str(), item) {
            return Some(i);
        }
        i += 1;
    }
    proof {
        let ns = names(list@);
        assert forall|j: int| 0 <= j < ns.len() implies ns[j] != item@ by {
            assert(ns[j] == list[j]@);
        }
    }
    None
}

/// Membership of `item` in `list`.
pub fn contains(list: &Vec<String>, item: &str) -> (r: bool)
    ensures
        r == names(list@).contains(item@),
{
    match position(list, item) {
        Some(i) => {
            proof {
                assert(names(list@)[i as int] == item@);
            }
            true
        },
        None => false,
    }
}

} // verus!
