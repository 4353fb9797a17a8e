//! Bytes as text, for showing them to a person.

use vstd::prelude::*;
use vstd::utf8::{decode_utf8, valid_utf8};

verus! {

/// The text that `String::from_utf8_lossy` makes of a string of bytes.
pub uninterp spec fn lossy_decoding(bytes: Seq<u8>) -> Seq<char>;

/// Calls `String::from_utf8_lossy`. The text it returns is given the name
/// `lossy_decoding`; as std documents, bytes that are valid UTF-8 come
/// back as the text they encode. What becomes of other bytes is left to
/// std.
#[verifier::external_body]
pub(crate) fn decode_lossy(bytes: &[u8]) -> (text: String)
    ensures
        text@ == lossy_decoding(bytes@),
        valid_utf8(bytes@) ==> text@ == decode_utf8(bytes@),
{
    String::from_utf8_lossy(bytes).into_owned()
}

} // verus!
