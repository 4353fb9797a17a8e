//! The beacon: which requests it answers, and with what.

use crate::answers::Answer;
use crate::datagram::{
    receive_into_buffer, received_prefix, Datagram, Endpoint, RECV_BUFFER_LENGTH,
};
use crate::hostname::get_hostname;
use crate::json::{json_object_text, write_json_object};
use crate::signature::Signature;
use vstd::prelude::*;
use vstd::slice::slice_to_vec;
use vstd::utf8::encode_utf8;

verus! {

/// How long the beacon rests after an answer, in milliseconds. The rest
/// keeps a crowd of scanners from flooding the beacon's link.
pub const REFRACTORY_PERIOD_MILLIS: u64 = 3000;

/// The one member every answer has: the name of the host.
pub const HOSTNAME_KEY: &'static str = "hostname";

/// Why the beacon stops.
#[derive(Clone, Copy, Debug, PartialEq, Eq, Structural)]
pub enum ServerError {
    /// The answer could not be written as JSON. The JSON writer does not
    /// fail on a host name, so no request meets this.
    Encoding,
}

/// What the beacon does about a request.
#[derive(Debug)]
pub enum Reaction {
    /// Nothing: no reply and no rest. The beacon listens again at once.
    Ignore,
    /// Send the datagram, then rest for so many milliseconds.
    Reply { datagram: Datagram, rest_millis: u64 },
}

/// Whether a candidate is, byte for byte, one of the expected signatures.
pub open spec fn signature_accepted(candidate: Seq<u8>, expected: Seq<Signature>) -> bool {
    exists|i: int| 0 <= i < expected.len() && (#[trigger] expected[i])@ == candidate
}

/// Whether the received signature is one of the expected ones.
pub fn is_signature_vaid(received: &Signature, expected: &[Signature]) -> (valid: bool)
    ensures
        valid == signature_accepted(received@, expected@),
{
    let mut i: usize = 0;
    while i < expected.len()
        invariant
            i <= expected.len(),
            forall|j: int| 0 <= j < i ==> (#[trigger] expected[j])@ != received@,
        decreases expected.len() - i,
    {
        if expected[i] == *received {
            return true;
        }
        i = i + 1;
    }
    false
}

/// The payload of the answer of a host of the given name: the UTF-8
/// encoding of the JSON object `{"hostname": name}`, cut to the ceiling of
/// an answer where it is longer. The ceiling is the size of the scanner's
/// receive buffer, so the cut takes away only what no scanner would keep.
pub open spec fn host_answer(hostname: Seq<char>) -> Seq<u8> {
    received_prefix(encode_utf8(json_object_text(HOSTNAME_KEY@, hostname)))
}

/// What `answer_for_host` owes for a host name: the host's answer, which
/// is within the ceiling.
pub open spec fn answered(hostname: Seq<char>, outcome: Result<Answer, ServerError>) -> bool {
    &&& outcome matches Ok(answer)
    &&& answer@ == host_answer(hostname)
    &&& answer@.len() <= RECV_BUFFER_LENGTH
}

/// The answer of a host of the given name: the JSON object with the name
/// in it, cut to the ceiling of an answer where it is longer, so that no
/// answer goes out that a scanner's buffer would not hold.
pub fn answer_for_host(hostname: &str) -> (outcome: Result<Answer, ServerError>)
    ensures
        answered(hostname@, outcome),
{
    match write_json_object(HOSTNAME_KEY, hostname) {
        Ok(text) => Ok(Answer(receive_into_buffer(text.as_str().as_bytes()))),
        Err(_) => Err(ServerError::Encoding),
    }
}

/// The answer of this host. The name is asked of the machine each time, so
/// all that is known of the result is that it is the answer for some name.
pub fn get_answer() -> (outcome: Result<Answer, ServerError>)
    ensures
        exists|hostname: Seq<char>| answered(hostname, outcome),
{
    let hostname = get_hostname();
    let outcome = answer_for_host(hostname.as_str());
    assert(answered(hostname@, outcome));
    outcome
}

/// The reaction that sends an answer back to where the request came from:
/// one datagram to that endpoint, and the refractory rest after it.
pub fn reply_to(source: Endpoint, answer: Answer) -> (reaction: Reaction)
    ensures
        reaction matches Reaction::Reply { datagram, rest_millis } && datagram.peer == source
            && datagram.payload@ == answer@ && rest_millis == REFRACTORY_PERIOD_MILLIS,
{
    Reaction::Reply {
        datagram: Datagram { peer: source, payload: slice_to_vec(answer.as_bytes()) },
        rest_millis: REFRACTORY_PERIOD_MILLIS,
    }
}

/// What `serve_single` owes for a request whose signature is accepted, on
/// a host of the given name: one reply to the source, with the host's
/// answer, which is within the ceiling, and the refractory rest.
pub open spec fn served(
    source: Endpoint,
    hostname: Seq<char>,
    outcome: Result<Reaction, ServerError>,
) -> bool {
    match outcome {
        Ok(Reaction::Reply { datagram, rest_millis }) => {
            &&& datagram.peer == source
            &&& datagram.payload@ == host_answer(hostname)
            &&& datagram.payload@.len() <= RECV_BUFFER_LENGTH
            &&& rest_millis == REFRACTORY_PERIOD_MILLIS
        },
        Ok(Reaction::Ignore) => false,
        Err(_) => false,
    }
}

/// Decides what to do about one request. The candidate signature is what
/// the receive buffer holds of the payload. A request whose candidate is
/// not among the expected signatures is ignored: no reply, no rest. Any
/// other is answered to its source, as `served` says.
pub fn serve_single(request: &Datagram, expected: &[Signature]) -> (outcome: Result<
    Reaction,
    ServerError,
>)
    ensures
        !signature_accepted(received_prefix(request.payload@), expected@) ==> outcome matches Ok(
            Reaction::Ignore,
        ),
        signature_accepted(received_prefix(request.payload@), expected@) ==> exists|
            hostname: Seq<char>,
        |
            served(request.peer, hostname, outcome),
{
    let received = Signature::from_datagram(request.payload.as_slice());
    if !is_signature_vaid(&received, expected) {
        return Ok(Reaction::Ignore);
    }
    let answer = get_answer();
    let ghost hostname = choose|hostname: Seq<char>| answered(hostname, answer);
    match answer {
        Ok(answer) => {
            let reaction = reply_to(request.peer, answer);
            assert(served(request.peer, hostname, Ok(reaction)));
            Ok(reaction)
        },
        Err(error) => {
            assert(served(request.peer, hostname, Err(error)));
            Err(error)
        },
    }
}

/// Every expected signature is answered: a request whose payload is
/// exactly one of the expected signatures, and fits the receive buffer,
/// gets one reply, to its source, within the ceiling of an answer and
/// followed by the refractory rest.
pub proof fn lemma_expected_signature_is_answered(
    request: Datagram,
    expected: &[Signature],
    i: int,
    outcome: Result<Reaction, ServerError>,
)
    requires
        0 <= i < expected@.len(),
        request.payload@ == expected@[i]@,
        request.payload@.len() <= RECV_BUFFER_LENGTH,
        call_ensures(serve_single, (&request, expected), outcome),
    ensures
        outcome matches Ok(Reaction::Reply { datagram, rest_millis }) && datagram.peer
            == request.peer && datagram.payload@.len() <= RECV_BUFFER_LENGTH && rest_millis
            == REFRACTORY_PERIOD_MILLIS,
{
    assert(received_prefix(request.payload@) == expected@[i]@);
}

/// Nothing else is answered: a request whose payload fits the receive
/// buffer and is none of the expected signatures gets no reply, and the
/// beacon does not rest.
pub proof fn lemma_unexpected_signature_is_ignored(
    request: Datagram,
    expected: &[Signature],
    outcome: Result<Reaction, ServerError>,
)
    requires
        request.payload@.len() <= RECV_BUFFER_LENGTH,
        forall|i: int| 0 <= i < expected@.len() ==> (#[trigger] expected@[i])@ != request.payload@,
        call_ensures(serve_single, (&request, expected), outcome),
    ensures
        outcome matches Ok(Reaction::Ignore),
{
}

} // verus!
