//! The token a scanner sends and a beacon recognises.

use crate::datagram::{receive_into_buffer, received_prefix};
use crate::text::{decode_lossy, lossy_decoding};
use vstd::prelude::*;
use vstd::slice::slice_to_vec;
use vstd::std_specs::cmp::PartialEqSpecImpl;
use vstd::std_specs::convert::FromSpecImpl;
use vstd::string::StrSliceExecFns;
use vstd::utf8::{decode_utf8, encode_utf8, valid_utf8};

verus! {

/// Longest signature, in bytes, that the protocol admits.
pub const MAX_SIGNATURE_LENGTH: usize = 128;

/// A signature: an opaque string of bytes, compared byte for byte.
#[derive(Debug)]
pub struct Signature(pub Vec<u8>);

impl View for Signature {
    type V = Seq<u8>;

    open spec fn view(&self) -> Seq<u8> {
        self.0@
    }
}

/// Whether two strings of bytes are the same.
pub fn same_bytes(left: &[u8], right: &[u8]) -> (same: bool)
    ensures
        same == (left@ == right@),
{
    if left.len() != right.len() {
        return false;
    }
    let mut i: usize = 0;
    while i < left.len()
        invariant
            i <= left.len(),
            left.len() == right.len(),
            forall|j: int| 0 <= j < i ==> left[j] == right[j],
        decreases left.len() - i,
    {
        if left[i] != right[i] {
            return false;
        }
        i = i + 1;
    }
    assert(left@ =~= right@);
    true
}

impl Signature {
    /// The signature made of exactly these bytes.
    pub fn from_bytes(bytes: &[u8]) -> (signature: Signature)
        ensures
            signature@ == bytes@,
    {
        Signature(slice_to_vec(bytes))
    }

    /// The signature that a text stands for: its UTF-8 encoding.
    pub fn from_text(text: &str) -> (signature: Signature)
        ensures
            signature@ == encode_utf8(text@),
    {
        Signature(text.as_bytes_vec())
    }

    /// The candidate signature that a beacon reads out of a datagram: the
    /// part of the payload that fits the receive buffer.
    pub fn from_datagram(payload: &[u8]) -> (signature: Signature)
        ensures
            signature@ == received_prefix(payload@),
    {
        Signature(receive_into_buffer(payload))
    }

    /// The bytes of the signature, as they go on the wire.
    pub fn as_bytes(&self) -> (bytes: &[u8])
        ensures
            bytes@ == self@,
    {
        self.0.as_slice()
    }

    /// The signature as text for display. Bytes that are valid UTF-8 show
    /// as the text they encode; others are replaced as std sees fit.
    pub fn to_text(&self) -> (text: String)
        ensures
            text@ == lossy_decoding(self@),
            valid_utf8(self@) ==> text@ == decode_utf8(self@),
    {
        decode_lossy(self.0.as_slice())
    }

    /// Whether the signature is within the length the protocol admits.
    pub fn is_admissible(&self) -> (admissible: bool)
        ensures
            admissible == (self@.len() <= MAX_SIGNATURE_LENGTH),
    {
        self.0.len() <= MAX_SIGNATURE_LENGTH
    }
}

impl Clone for Signature {
    fn clone(&self) -> (copy: Signature)
        ensures
            copy@ == self@,
    {
        Signature(slice_to_vec(self.0.as_slice()))
    }
}

impl PartialEq for Signature {
    fn eq(&self, other: &Signature) -> (equal: bool) {
        same_bytes(self.0.as_slice(), other.0.as_slice())
    }
}

impl Eq for Signature {

}

impl PartialEqSpecImpl for Signature {
    open spec fn obeys_eq_spec() -> bool {
        true
    }

    open spec fn eq_spec(&self, other: &Signature) -> bool {
        self@ == other@
    }
}

impl From<&str> for Signature {
    /// Same as `from_text`.
    fn from(text: &str) -> (signature: Signature) {
        Signature::from_text(text)
    }
}

impl FromSpecImpl<&str> for Signature {
    /// Contracts speak of `from_text`, whose result is known by its bytes;
    /// nothing is claimed through this trait.
    open spec fn obeys_from_spec() -> bool {
        false
    }

    open spec fn from_spec(text: &str) -> Signature {
        arbitrary()
    }
}

/// Round trip: the bytes that a signature is made from are the bytes it
/// gives back.
pub proof fn lemma_signature_round_trip(bytes: &[u8], signature: Signature, back: &[u8])
    requires
        call_ensures(Signature::from_bytes, (bytes,), signature),
        call_ensures(Signature::as_bytes, (&signature,), back),
    ensures
        back@ == bytes@,
{
}

} // verus!
