//! The broadcaster: what it sends each round, and how it slows down while
//! no new beacon shows up.

use crate::channel::{bounded_channel, notification_slots, poll_notification, Notification};
use crate::datagram::{Datagram, Endpoint};
use crate::signature::Signature;
use vstd::prelude::*;
use vstd::slice::slice_to_vec;

verus! {

/// Rounds without a new beacon that the broadcaster sits through before it
/// slows down.
pub const MAX_EMPTY_SCANS: u32 = 10;

/// How many times longer the slowed-down period is.
pub const SLOWDOWN_FACTOR: u64 = 10;

/// Messages the notification channel holds at most. With one slot, any
/// number of new beacons between two looks of the broadcaster leave one
/// notification.
pub const NOTIFICATION_CAPACITY: usize = 1;

/// Why the broadcaster stops.
#[derive(Clone, Copy, Debug, PartialEq, Eq, Structural)]
pub enum BroadcastError {
    /// The sending side of the notification channel is gone.
    NotificationDisconnected,
}

/// The time to wait after a round: the configured period, or
/// `SLOWDOWN_FACTOR` times that once more than `MAX_EMPTY_SCANS` rounds
/// went by without a new beacon.
pub open spec fn effective_period(scan_period: int, empty_scans: int) -> int {
    if empty_scans > MAX_EMPTY_SCANS {
        scan_period * SLOWDOWN_FACTOR
    } else {
        scan_period
    }
}

/// The count of empty rounds after one more look at the notification
/// channel: back to zero on a notification, one more on an empty look until
/// it has passed `MAX_EMPTY_SCANS`, unchanged otherwise.
pub open spec fn empty_scans_after(empty_scans: int, found: Notification) -> int {
    match found {
        Notification::Received => 0,
        Notification::Empty => if empty_scans <= MAX_EMPTY_SCANS {
            empty_scans + 1
        } else {
            empty_scans
        },
        Notification::Disconnected => empty_scans,
    }
}

/// The count after a run of looks, taken in order.
pub open spec fn empty_scans_after_all(empty_scans: int, looks: Seq<Notification>) -> int
    decreases looks.len(),
{
    if looks.len() == 0 {
        empty_scans
    } else {
        empty_scans_after(empty_scans_after_all(empty_scans, looks.drop_last()), looks.last())
    }
}

/// Looks that find nothing are counted one by one until the count has
/// passed `MAX_EMPTY_SCANS`, where it stays.
pub proof fn lemma_empty_looks_are_counted(empty_scans: int, looks: Seq<Notification>)
    requires
        0 <= empty_scans <= MAX_EMPTY_SCANS + 1,
        forall|i: int| 0 <= i < looks.len() ==> looks[i] == Notification::Empty,
    ensures
        empty_scans_after_all(empty_scans, looks) == if empty_scans + looks.len()
            <= MAX_EMPTY_SCANS + 1 {
            empty_scans + looks.len()
        } else {
            MAX_EMPTY_SCANS + 1
        },
    decreases looks.len(),
{
    if looks.len() > 0 {
        lemma_empty_looks_are_counted(empty_scans, looks.drop_last());
    }
}

/// A broadcaster that has looked in vain more than `MAX_EMPTY_SCANS`
/// times in a row waits `SLOWDOWN_FACTOR` times the configured period; one
/// that has looked in vain no more often than that, since it started or
/// since its last notification, waits the configured period.
pub proof fn lemma_silence_slows_down(looks: Seq<Notification>, scan_period: int)
    requires
        forall|i: int| 0 <= i < looks.len() ==> looks[i] == Notification::Empty,
    ensures
        effective_period(scan_period, empty_scans_after_all(0, looks)) == if looks.len()
            > MAX_EMPTY_SCANS {
            scan_period * SLOWDOWN_FACTOR
        } else {
            scan_period
        },
{
    lemma_empty_looks_are_counted(0, looks);
}

/// A notification brings the count back to zero and with it the period
/// back to the configured one, whatever the count was.
pub proof fn lemma_notification_restores_period(empty_scans: int, scan_period: int)
    ensures
        empty_scans_after(empty_scans, Notification::Received) == 0,
        effective_period(scan_period, empty_scans_after(empty_scans, Notification::Received))
            == scan_period,
{
}

/// What `record` does with a look: the count moves as `empty_scans_after`
/// says, a disconnected channel is the one error, and the flag is set on the
/// one empty look that takes the count past `MAX_EMPTY_SCANS`.
pub open spec fn recorded(
    before: int,
    found: Notification,
    after: int,
    outcome: Result<bool, BroadcastError>,
) -> bool {
    &&& after == empty_scans_after(before, found)
    &&& match outcome {
        Ok(slows_down) => found != Notification::Disconnected && slows_down == (found
            == Notification::Empty && before == MAX_EMPTY_SCANS),
        Err(error) => found == Notification::Disconnected && error
            == BroadcastError::NotificationDisconnected,
    }
}

/// The broadcaster's memory between rounds: how many rounds in a row ended
/// without a notification, counted up to `MAX_EMPTY_SCANS + 1`.
#[derive(Debug)]
pub struct Backoff {
    empty_scans: u32,
}

impl Backoff {
    #[verifier::type_invariant]
    spec fn within_bound(&self) -> bool {
        self.empty_scans <= MAX_EMPTY_SCANS + 1
    }

    /// The number of rounds in a row that ended without a notification.
    pub closed spec fn count(&self) -> int {
        self.empty_scans as int
    }

    /// A broadcaster that has not waited in vain yet.
    pub fn new() -> (backoff: Backoff)
        ensures
            backoff.count() == 0,
    {
        Backoff { empty_scans: 0 }
    }

    /// The number of rounds in a row that ended without a notification.
    pub fn empty_scans(&self) -> (count: u32)
        ensures
            count == self.count(),
            count <= MAX_EMPTY_SCANS + 1,
    {
        proof {
            use_type_invariant(self);
        }
        self.empty_scans
    }

    /// Whether the broadcaster has slowed down.
    pub fn is_slowed(&self) -> (slowed: bool)
        ensures
            slowed == (self.count() > MAX_EMPTY_SCANS),
    {
        self.empty_scans > MAX_EMPTY_SCANS
    }

    /// The time to wait after the round just sent, in the unit of
    /// `scan_period`.
    pub fn period(&self, scan_period: u64) -> (period: u64)
        requires
            scan_period * SLOWDOWN_FACTOR <= u64::MAX,
        ensures
            period == effective_period(scan_period as int, self.count()),
    {
        if self.empty_scans > MAX_EMPTY_SCANS {
            scan_period * SLOWDOWN_FACTOR
        } else {
            scan_period
        }
    }

    /// Takes in what the look at the notification channel found. A
    /// disconnected channel is an error and leaves the count alone. Otherwise
    /// the result tells whether this look is the one that slows the
    /// broadcaster down, which happens once per silence.
    pub fn record(&mut self, found: Notification) -> (outcome: Result<bool, BroadcastError>)
        ensures
            recorded(old(self).count(), found, final(self).count(), outcome),
    {
        proof {
            use_type_invariant(&*self);
        }
        match found {
            Notification::Received => {
                self.empty_scans = 0;
                Ok(false)
            },
            Notification::Empty => {
                if self.empty_scans <= MAX_EMPTY_SCANS {
                    let slows_down = self.empty_scans == MAX_EMPTY_SCANS;
                    self.empty_scans = self.empty_scans + 1;
                    Ok(slows_down)
                } else {
                    Ok(false)
                }
            },
            Notification::Disconnected => Err(BroadcastError::NotificationDisconnected),
        }
    }
}

/// Makes the channel on which the aggregator tells the broadcaster that a
/// new beacon has appeared. It holds `NOTIFICATION_CAPACITY` notifications
/// at most, so that whatever is offered while one is waiting is dropped.
pub fn init_notification_channel() -> (ends: (
    crossbeam::channel::Sender<()>,
    crossbeam::channel::Receiver<()>,
))
    ensures
        notification_slots(ends.0) == Some(NOTIFICATION_CAPACITY),
{
    bounded_channel(NOTIFICATION_CAPACITY)
}

/// Looks once into the notification channel, without waiting, and takes
/// what it finds into the count. Whatever the channel held, the count and
/// the result are those of `record` for one of the three things a look can
/// find.
pub fn look_for_notification(
    backoff: &mut Backoff,
    notifications: &crossbeam::channel::Receiver<()>,
) -> (outcome: Result<bool, BroadcastError>)
    ensures
        exists|found: Notification|
            recorded(old(backoff).count(), found, final(backoff).count(), outcome),
{
    let found = poll_notification(notifications);
    backoff.record(found)
}

/// The datagrams of one round: one per signature, in the order of the
/// signatures, each to the broadcast address and target port and holding
/// the signature's bytes and nothing else.
pub fn probe_datagrams(broadcast_addr: u32, target_port: u16, signatures: &[Signature]) -> (probes:
    Vec<Datagram>)
    ensures
        probes.len() == signatures.len(),
        forall|i: int|
            0 <= i < signatures.len() ==> (#[trigger] probes[i]).peer == (Endpoint {
                addr: broadcast_addr,
                port: target_port,
            }) && probes[i].payload@ == signatures[i]@,
{
    let mut probes: Vec<Datagram> = Vec::new();
    let mut i: usize = 0;
    while i < signatures.len()
        invariant
            i <= signatures.len(),
            probes.len() == i,
            forall|j: int|
                0 <= j < i ==> (#[trigger] probes[j]).peer == (Endpoint {
                    addr: broadcast_addr,
                    port: target_port,
                }) && probes[j].payload@ == signatures[j]@,
        decreases signatures.len() - i,
    {
        let payload = slice_to_vec(signatures[i].as_bytes());
        probes.push(Datagram { peer: Endpoint { addr: broadcast_addr, port: target_port }, payload });
        i = i + 1;
    }
    probes
}

} // verus!

