//! What a beacon says of its host.

use crate::text::{decode_lossy, lossy_decoding};
use vstd::prelude::*;
use vstd::slice::slice_to_vec;
use vstd::std_specs::cmp::PartialEqSpecImpl;
use vstd::std_specs::convert::FromSpecImpl;
use vstd::string::StrSliceExecFns;
use vstd::utf8::{decode_utf8, encode_utf8, valid_utf8};

verus! {

/// An answer: a string of bytes that the transport does not look into. By
/// convention it is the text of a JSON object.
#[derive(Debug)]
pub struct Answer(pub Vec<u8>);

impl View for Answer {
    type V = Seq<u8>;

    open spec fn view(&self) -> Seq<u8> {
        self.0@
    }
}

impl Answer {
    /// The answer made of exactly these bytes.
    pub fn from_bytes(bytes: &[u8]) -> (answer: Answer)
        ensures
            answer@ == bytes@,
    {
        Answer(slice_to_vec(bytes))
    }

    /// The answer that a text stands for: its UTF-8 encoding.
    pub fn from_text(text: &str) -> (answer: Answer)
        ensures
            answer@ == encode_utf8(text@),
    {
        Answer(text.as_bytes_vec())
    }

    /// The bytes of the answer, as they go on the wire.
    pub fn as_bytes(&self) -> (bytes: &[u8])
        ensures
            bytes@ == self@,
    {
        self.0.as_slice()
    }
}

impl Answer {
    /// The answer as text for display. Bytes that are valid UTF-8 show as
    /// the text they encode; others are replaced as std sees fit.
    pub fn to_text(&self) -> (text: String)
        ensures
            text@ == lossy_decoding(self@),
            valid_utf8(self@) ==> text@ == decode_utf8(self@),
    {
        decode_lossy(self.0.as_slice())
    }
}

impl PartialEq for Answer {
    fn eq(&self, other: &Answer) -> (equal: bool) {
        crate::signature::same_bytes(self.0.as_slice(), other.0.as_slice())
    }
}

impl Eq for Answer {

}

impl PartialEqSpecImpl for Answer {
    open spec fn obeys_eq_spec() -> bool {
        true
    }

    open spec fn eq_spec(&self, other: &Answer) -> bool {
        self@ == other@
    }
}

impl From<&str> for Answer {
    /// Same as `from_text`.
    fn from(text: &str) -> (answer: Answer) {
        Answer::from_text(text)
    }
}

impl FromSpecImpl<&str> for Answer {
    /// Contracts speak of `from_text`, whose result is known by its bytes;
    /// nothing is claimed through this trait.
    open spec fn obeys_from_spec() -> bool {
        false
    }

    open spec fn from_spec(text: &str) -> Answer {
        arbitrary()
    }
}

impl Clone for Answer {
    fn clone(&self) -> (copy: Answer)
        ensures
            copy@ == self@,
    {
        Answer(slice_to_vec(self.0.as_slice()))
    }
}

impl Default for Answer {
    /// The empty answer.
    fn default() -> (answer: Answer)
        ensures
            answer@ == Seq::<u8>::empty(),
    {
        Answer(Vec::new())
    }
}

/// Round trip: the bytes that an answer is made from are the bytes it
/// gives back.
pub proof fn lemma_answer_round_trip(bytes: &[u8], answer: Answer, back: &[u8])
    requires
        call_ensures(Answer::from_bytes, (bytes,), answer),
        call_ensures(Answer::as_bytes, (&answer,), back),
    ensures
        back@ == bytes@,
{
}

} // verus!
