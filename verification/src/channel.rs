//! The channels between the scanner's workers.
//!
//! The channels are crossbeam's. What a channel holds changes under the
//! hands of other threads, so nothing here says what a receive finds or
//! whether a send gets through: the callers are proved for every outcome.
//! What does not change is the limit a channel was made with, and that is
//! what the makers of the three channels state. What the library hands to
//! a channel is the library's to say, and an `Outbox` keeps the record.

use crate::beacons::BeaconAnswer;
use vstd::prelude::*;

verus! {

/// The sending half of a crossbeam channel, carried through unopened.
#[verifier::external_type_specification]
#[verifier::external_body]
#[verifier::reject_recursive_types(T)]
pub struct ExSender<T>(crossbeam::channel::Sender<T>);

/// The receiving half of a crossbeam channel, carried through unopened.
#[verifier::external_type_specification]
#[verifier::external_body]
#[verifier::reject_recursive_types(T)]
pub struct ExReceiver<T>(crossbeam::channel::Receiver<T>);

/// What became of a message offered to a channel without waiting.
#[derive(Clone, Copy, Debug, PartialEq, Eq, Structural)]
pub enum Offer {
    /// The message is in the channel.
    Accepted,
    /// The channel was full; the message is dropped.
    Full,
    /// Every receiver is gone; the message is dropped.
    Disconnected,
}

/// What a look into the notification channel found.
#[derive(Clone, Copy, Debug, PartialEq, Eq, Structural)]
pub enum Notification {
    /// A notification was waiting and has been taken.
    Received,
    /// Nothing was waiting.
    Empty,
    /// Nothing was waiting and every sender is gone.
    Disconnected,
}

/// The most answers that the channel behind a sender holds at a time, as
/// `Sender::capacity` gives it: the limit the channel was made with, or
/// nothing where it was made without one. It is the same for as long as
/// the channel lives.
pub uninterp spec fn input_limit(sender: crossbeam::channel::Sender<BeaconAnswer>) -> Option<usize>;

/// The most snapshots that the channel behind a sender holds at a time, as
/// `Sender::capacity` gives it: the limit the channel was made with, or
/// nothing where it was made without one. It is the same for as long as
/// the channel lives.
pub uninterp spec fn output_limit(sender: crossbeam::channel::Sender<Vec<BeaconAnswer>>) -> Option<
    usize,
>;

/// Calls `crossbeam::channel::unbounded` for a channel of answers. Of the
/// two halves it is claimed that the channel has no limit, and nothing
/// else.
#[verifier::external_body]
pub(crate) fn unbounded_answers() -> (ends: (
    crossbeam::channel::Sender<BeaconAnswer>,
    crossbeam::channel::Receiver<BeaconAnswer>,
))
    ensures
        input_limit(ends.0) is None,
{
    crossbeam::channel::unbounded()
}

/// Calls `crossbeam::channel::unbounded` for a channel of snapshots. Of the
/// two halves it is claimed that the channel has no limit, and nothing
/// else.
#[verifier::external_body]
pub(crate) fn unbounded_snapshots() -> (ends: (
    crossbeam::channel::Sender<Vec<BeaconAnswer>>,
    crossbeam::channel::Receiver<Vec<BeaconAnswer>>,
))
    ensures
        output_limit(ends.0) is None,
{
    crossbeam::channel::unbounded()
}

/// The most notifications that the channel behind a sender holds at a
/// time, as `Sender::capacity` gives it: the limit the channel was made
/// with. It is the same for as long as the channel lives.
pub uninterp spec fn notification_slots(sender: crossbeam::channel::Sender<()>) -> Option<usize>;

/// Calls `crossbeam::channel::bounded` for a channel of notifications, which
/// holds at most `capacity` of them at a time. The call panics on a
/// capacity near `usize::MAX`, which the precondition keeps away. Of the
/// two halves it is claimed that the channel has the limit asked for, and
/// nothing else.
#[verifier::external_body]
pub(crate) fn bounded_channel(capacity: usize) -> (ends: (
    crossbeam::channel::Sender<()>,
    crossbeam::channel::Receiver<()>,
))
    requires
        capacity <= u16::MAX,
    ensures
        notification_slots(ends.0) == Some(capacity),
{
    crossbeam::channel::bounded(capacity)
}

/// Calls `Sender::try_send` and reports which of its three results came
/// back. Which one it is depends on the other threads: nothing is claimed.
#[verifier::external_body]
pub(crate) fn try_send<T>(sender: &crossbeam::channel::Sender<T>, message: T) -> (outcome: Offer) {
    match sender.try_send(message) {
        Ok(()) => Offer::Accepted,
        Err(crossbeam::channel::TrySendError::Full(_)) => Offer::Full,
        Err(crossbeam::channel::TrySendError::Disconnected(_)) => Offer::Disconnected,
    }
}

/// The sending half of a channel, with a record of every message that was
/// offered through it, in order. The record is there for the contracts of
/// those who offer: it says what they handed to the channel, not what the
/// channel did with it. It takes no room in the running program.
#[verifier::reject_recursive_types(T)]
pub struct Outbox<T> {
    sender: crossbeam::channel::Sender<T>,
    offered: Ghost<Seq<T>>,
}

impl<T> Outbox<T> {
    /// The sending half that the messages go through.
    pub closed spec fn sender(&self) -> crossbeam::channel::Sender<T> {
        self.sender
    }

    /// The messages offered so far, oldest first, whether the channel took
    /// them or not.
    pub closed spec fn offered(&self) -> Seq<T> {
        self.offered@
    }

    /// An outbox on a sending half, with nothing offered through it yet.
    pub fn new(sender: crossbeam::channel::Sender<T>) -> (outbox: Outbox<T>)
        ensures
            outbox.sender() == sender,
            outbox.offered() == Seq::<T>::empty(),
    {
        Outbox { sender, offered: Ghost(Seq::empty()) }
    }

    /// Offers a message to the channel without waiting, and tells what
    /// became of it. Whatever became of it, the message is on record as
    /// offered.
    pub fn offer(&mut self, message: T) -> (outcome: Offer)
        ensures
            final(self).offered() == old(self).offered().push(message),
            final(self).sender() == old(self).sender(),
    {
        let ghost handed = message;
        let outcome = try_send(&self.sender, message);
        self.offered = Ghost(self.offered@.push(handed));
        outcome
    }
}

/// Calls `Receiver::try_recv` on the notification channel and reports which
/// of its three results came back. Which one it is depends on the other
/// threads: nothing is claimed.
#[verifier::external_body]
pub(crate) fn poll_notification(receiver: &crossbeam::channel::Receiver<()>) -> (found:
    Notification) {
    match receiver.try_recv() {
        Ok(()) => Notification::Received,
        Err(crossbeam::channel::TryRecvError::Empty) => Notification::Empty,
        Err(crossbeam::channel::TryRecvError::Disconnected) => Notification::Disconnected,
    }
}

/// Calls `Receiver::try_iter` and collects what it yields: the messages that
/// were ready, oldest first, taken without waiting. The call returns when
/// it finds the channel empty, so it goes on for as long as the senders
/// keep the channel filled. How many messages there are depends on the
/// other threads: nothing is claimed.
#[verifier::external_body]
pub(crate) fn drain<T>(receiver: &crossbeam::channel::Receiver<T>) -> (ready: Vec<T>) {
    receiver.try_iter().collect()
}

} // verus!
