//! The text codec that scripts find in their global scope.

use crate::text::{decoded, from_utf8, text_result};
use vstd::prelude::*;
use vstd::string::StrSliceExecFns;
use vstd::utf8::*;

verus! {

/// Turns text into its UTF-8 bytes.
#[derive(Debug, Clone, Copy, PartialEq, Eq)]
pub struct TextEncoder;

impl TextEncoder {
    /// The UTF-8 encoding of `string`.
    pub fn encode(&self, string: &str) -> (r: Vec<u8>)
        ensures
            r@ == encode_utf8(string@),
    {
        string.as_bytes_vec()
    }
}

/// Turns UTF-8 bytes into text.
#[derive(Debug, Clone, Copy, PartialEq, Eq)]
pub struct TextDecoder;

impl TextDecoder {
    /// The text that `bytes` encode, or the reason why they encode none.
    pub fn decode(&self, bytes: &[u8]) -> (r: Result<String, String>)
        ensures
            text_result(r) == decoded(bytes@),
    {
        from_utf8(bytes)
    }
}

/// Decoding what was encoded gives the text back.
pub proof fn lemma_decode_inverts_encode(text: Seq<char>)
    ensures
        decoded(encode_utf8(text)) == Ok::<Seq<char>, Seq<char>>(text),
{
    encode_utf8_valid_utf8(text);
    encode_utf8_decode_utf8(text);
}

} // verus!
