//! The listener: from a datagram to an answer on its way to the aggregator.

use crate::beacons::BeaconAnswer;
use crate::channel::{Offer, Outbox};
use crate::datagram::{received_prefix, Endpoint};
use vstd::prelude::*;

verus! {

/// Why the listener stops.
#[derive(Clone, Copy, Debug, PartialEq, Eq, Structural)]
pub enum ListenError {
    /// The input channel would not take an answer.
    InputFull,
    /// The aggregator is gone.
    InputDisconnected,
}

/// What the listener makes of an offered answer: anything but its
/// acceptance is the end.
pub fn answer_settled(outcome: Offer) -> (settled: Result<(), ListenError>)
    ensures
        settled == match outcome {
            Offer::Accepted => Ok::<(), ListenError>(()),
            Offer::Full => Err::<(), ListenError>(ListenError::InputFull),
            Offer::Disconnected => Err::<(), ListenError>(ListenError::InputDisconnected),
        },
{
    match outcome {
        Offer::Accepted => Ok(()),
        Offer::Full => Err(ListenError::InputFull),
        Offer::Disconnected => Err(ListenError::InputDisconnected),
    }
}

/// Hands the answer carried by one datagram to the aggregator, without
/// waiting. What is handed on is the sender's address, without its port,
/// and the part of the payload that fits the receive buffer. Whether the
/// channel took it is for the channel to say.
pub fn forward(source: Endpoint, payload: &[u8], input: &mut Outbox<BeaconAnswer>) -> (outcome:
    Result<(), ListenError>)
    ensures
        final(input).offered().len() == old(input).offered().len() + 1,
        final(input).offered().drop_last() == old(input).offered(),
        final(input).offered().last()@ == (source.addr, received_prefix(payload@)),
        final(input).sender() == old(input).sender(),
{
    let ghost before = input.offered();
    let outcome = answer_settled(input.offer(BeaconAnswer::from_datagram(source, payload)));
    assert(input.offered().drop_last() =~= before);
    outcome
}

} // verus!
