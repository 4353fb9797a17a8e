//! The aggregator: the table of beacons heard so far, keyed by the address
//! they answered from.

use crate::answers::Answer;
use crate::channel::{
    drain, input_limit, output_limit, unbounded_answers, unbounded_snapshots, Offer, Outbox,
};
use crate::datagram::{
    address_text, dotted_decimal, receive_into_buffer, received_prefix, Endpoint,
};
use crate::text::lossy_decoding;
use std::collections::HashMap;
use vstd::prelude::*;
use vstd::std_specs::cmp::PartialEqSpecImpl;
use vstd::std_specs::hash::spec_hash_map_iter;
use vstd::std_specs::iter::IteratorSpec;
use vstd::string::StringExecFns;

verus! {

broadcast use vstd::std_specs::hash::group_hash_axioms;

/// One answer as the listener hands it on: the IPv4 address it came from
/// (see `Endpoint` for how an address is held) and its payload.
#[derive(Debug)]
pub struct BeaconAnswer {
    pub addr: u32,
    pub payload: Answer,
}

impl View for BeaconAnswer {
    type V = (u32, Seq<u8>);

    open spec fn view(&self) -> (u32, Seq<u8>) {
        (self.addr, self.payload@)
    }
}

impl PartialEq for BeaconAnswer {
    fn eq(&self, other: &BeaconAnswer) -> (equal: bool) {
        self.addr == other.addr && self.payload == other.payload
    }
}

impl Eq for BeaconAnswer {

}

impl PartialEqSpecImpl for BeaconAnswer {
    open spec fn obeys_eq_spec() -> bool {
        true
    }

    open spec fn eq_spec(&self, other: &BeaconAnswer) -> bool {
        self@ == other@
    }
}

impl Clone for BeaconAnswer {
    fn clone(&self) -> (copy: BeaconAnswer)
        ensures
            copy@ == self@,
    {
        BeaconAnswer { addr: self.addr, payload: self.payload.clone() }
    }
}

impl BeaconAnswer {
    /// The answer as a line of text for display: the address in dotted
    /// decimal, a colon and a blank, and the payload as `Answer::to_text`
    /// shows it.
    pub fn to_text(&self) -> (text: String)
        ensures
            text@ == dotted_decimal(self.addr as int) + seq![':', ' '] + lossy_decoding(
                self.payload@,
            ),
    {
        proof {
            reveal_strlit(": ");
        }
        let mut text = address_text(self.addr);
        text.append(": ");
        text.append(self.payload.to_text().as_str());
        assert(": "@ =~= seq![':', ' ']);
        text
    }

    /// The answer carried by a datagram from `source`: the sender's address,
    /// without its port, and the part of the payload that fits the receive
    /// buffer.
    pub fn from_datagram(source: Endpoint, payload: &[u8]) -> (answer: BeaconAnswer)
        ensures
            answer@ == (source.addr, received_prefix(payload@)),
    {
        BeaconAnswer { addr: source.addr, payload: Answer(receive_into_buffer(payload)) }
    }
}

/// Why the aggregator stops.
#[derive(Clone, Copy, Debug, PartialEq, Eq, Structural)]
pub enum AggregatorError {
    /// The broadcaster no longer listens for notifications.
    NotificationDisconnected,
    /// The output channel would not take a snapshot.
    OutputFull,
    /// Nobody takes the snapshots any more.
    OutputDisconnected,
}

/// Each answer of a batch as an address and the bytes of a payload.
pub open spec fn views_of(batch: Seq<BeaconAnswer>) -> Seq<(u32, Seq<u8>)> {
    batch.map_values(|answer: BeaconAnswer| answer@)
}

/// The table after a batch of answers went in, in order: each answer takes
/// the place of whatever the table held for its address.
pub open spec fn table_after(table: Map<u32, Seq<u8>>, batch: Seq<(u32, Seq<u8>)>) -> Map<
    u32,
    Seq<u8>,
>
    decreases batch.len(),
{
    if batch.len() == 0 {
        table
    } else {
        table_after(table, batch.drop_last()).insert(batch.last().0, batch.last().1)
    }
}

/// How many answers of a batch come from an address that neither the table
/// nor an earlier answer of the batch has. This is the number of
/// notifications that `absorb` offers for the batch.
pub open spec fn new_peers(table: Map<u32, Seq<u8>>, batch: Seq<(u32, Seq<u8>)>) -> nat
    decreases batch.len(),
{
    if batch.len() == 0 {
        0
    } else if table_after(table, batch.drop_last()).contains_key(batch.last().0) {
        new_peers(table, batch.drop_last())
    } else {
        new_peers(table, batch.drop_last()) + 1
    }
}

/// The addresses of the table after a batch are those it had before and
/// those of the batch.
pub proof fn lemma_addresses_after(
    table: Map<u32, Seq<u8>>,
    batch: Seq<(u32, Seq<u8>)>,
    addr: u32,
)
    ensures
        table_after(table, batch).contains_key(addr) <==> table.contains_key(addr) || exists|
            i: int,
        |
            0 <= i < batch.len() && (#[trigger] batch[i]).0 == addr,
    decreases batch.len(),
{
    if batch.len() > 0 {
        let earlier = batch.drop_last();
        lemma_addresses_after(table, earlier, addr);
        if exists|i: int| 0 <= i < earlier.len() && (#[trigger] earlier[i]).0 == addr {
            let i = choose|i: int| 0 <= i < earlier.len() && (#[trigger] earlier[i]).0 == addr;
            assert(batch[i].0 == addr);
        }
        if batch.last().0 == addr {
            assert(batch[batch.len() - 1].0 == addr);
        }
        if exists|i: int| 0 <= i < batch.len() && (#[trigger] batch[i]).0 == addr {
            let i = choose|i: int| 0 <= i < batch.len() && (#[trigger] batch[i]).0 == addr;
            if i < earlier.len() {
                assert(earlier[i].0 == addr);
            }
        }
    }
}

/// Last one wins: after a batch, the table holds for an address the
/// payload of the last answer of the batch that came from it.
pub proof fn lemma_last_payload_wins(
    table: Map<u32, Seq<u8>>,
    batch: Seq<(u32, Seq<u8>)>,
    i: int,
)
    requires
        0 <= i < batch.len(),
        forall|j: int| i < j < batch.len() ==> (#[trigger] batch[j]).0 != batch[i].0,
    ensures
        table_after(table, batch).contains_pair(batch[i].0, batch[i].1),
    decreases batch.len(),
{
    if i < batch.len() - 1 {
        let earlier = batch.drop_last();
        assert forall|j: int| i < j < earlier.len() implies (#[trigger] earlier[j]).0
            != earlier[i].0 by {
            assert(batch[j].0 != batch[i].0);
        }
        lemma_last_payload_wins(table, earlier, i);
        assert(batch[batch.len() - 1].0 != batch[i].0);
    }
}

/// An address from which the batch has no answer keeps what the table held
/// for it, or stays absent.
pub proof fn lemma_silent_address_keeps_payload(
    table: Map<u32, Seq<u8>>,
    batch: Seq<(u32, Seq<u8>)>,
    addr: u32,
)
    requires
        forall|j: int| 0 <= j < batch.len() ==> (#[trigger] batch[j]).0 != addr,
    ensures
        table_after(table, batch).contains_key(addr) == table.contains_key(addr),
        table.contains_key(addr) ==> table_after(table, batch)[addr] == table[addr],
    decreases batch.len(),
{
    if batch.len() > 0 {
        let earlier = batch.drop_last();
        assert forall|j: int| 0 <= j < earlier.len() implies (#[trigger] earlier[j]).0 != addr by {
            assert(batch[j].0 != addr);
        }
        lemma_silent_address_keeps_payload(table, earlier, addr);
        assert(batch[batch.len() - 1].0 != addr);
    }
}

/// A batch holds a new peer exactly when it holds an answer from an
/// address that the table does not have.
pub proof fn lemma_notified_iff_new_address(table: Map<u32, Seq<u8>>, batch: Seq<(u32, Seq<u8>)>)
    ensures
        new_peers(table, batch) > 0 <==> exists|i: int|
            0 <= i < batch.len() && !table.contains_key((#[trigger] batch[i]).0),
    decreases batch.len(),
{
    if batch.len() > 0 {
        let earlier = batch.drop_last();
        let last = batch.last();
        lemma_notified_iff_new_address(table, earlier);
        lemma_addresses_after(table, earlier, last.0);
        if new_peers(table, batch) > 0 {
            if new_peers(table, earlier) > 0 {
                let i = choose|i: int|
                    0 <= i < earlier.len() && !table.contains_key((#[trigger] earlier[i]).0);
                assert(!table.contains_key(batch[i].0));
            } else {
                assert(!table.contains_key(batch[batch.len() - 1].0));
            }
        }
        if exists|i: int| 0 <= i < batch.len() && !table.contains_key((#[trigger] batch[i]).0) {
            let i = choose|i: int|
                0 <= i < batch.len() && !table.contains_key((#[trigger] batch[i]).0);
            if i < earlier.len() {
                assert(!table.contains_key(earlier[i].0));
            } else if table_after(table, earlier).contains_key(last.0) {
                let j = choose|j: int| 0 <= j < earlier.len() && (#[trigger] earlier[j]).0 == last.0;
                assert(!table.contains_key(earlier[j].0));
            }
        }
    }
}

/// A batch holds one new peer for each address that it adds to the table,
/// however many answers came from that address.
pub proof fn lemma_one_new_peer_per_new_address(
    table: Map<u32, Seq<u8>>,
    batch: Seq<(u32, Seq<u8>)>,
)
    requires
        table.dom().finite(),
    ensures
        table_after(table, batch).dom().finite(),
        table_after(table, batch).len() == table.len() + new_peers(table, batch),
    decreases batch.len(),
{
    if batch.len() > 0 {
        let earlier = table_after(table, batch.drop_last());
        let last = batch.last();
        lemma_one_new_peer_per_new_address(table, batch.drop_last());
        assert(earlier.insert(last.0, last.1).dom() =~= earlier.dom().insert(last.0));
    }
}

/// Two batches taken in one after the other do what the two do as one
/// batch: the table is the same, and so is the number of new peers.
pub proof fn lemma_batches_compose(
    table: Map<u32, Seq<u8>>,
    first: Seq<(u32, Seq<u8>)>,
    second: Seq<(u32, Seq<u8>)>,
)
    ensures
        table_after(table, first + second) == table_after(table_after(table, first), second),
        new_peers(table, first + second) == new_peers(table, first) + new_peers(
            table_after(table, first),
            second,
        ),
    decreases second.len(),
{
    if second.len() == 0 {
        assert(first + second =~= first);
    } else {
        lemma_batches_compose(table, first, second.drop_last());
        assert((first + second).drop_last() =~= first + second.drop_last());
        assert((first + second).last() == second.last());
    }
}

/// An address from which a batch has an answer has a last one.
pub proof fn lemma_last_answer_exists(batch: Seq<(u32, Seq<u8>)>, addr: u32) -> (i: int)
    requires
        exists|k: int| 0 <= k < batch.len() && (#[trigger] batch[k]).0 == addr,
    ensures
        0 <= i < batch.len(),
        batch[i].0 == addr,
        forall|j: int| i < j < batch.len() ==> (#[trigger] batch[j]).0 != addr,
    decreases batch.len(),
{
    if batch.last().0 == addr {
        batch.len() - 1
    } else {
        let earlier = batch.drop_last();
        let k = choose|k: int| 0 <= k < batch.len() && (#[trigger] batch[k]).0 == addr;
        assert(earlier[k].0 == addr);
        let i = lemma_last_answer_exists(earlier, addr);
        assert forall|j: int| i < j < batch.len() implies (#[trigger] batch[j]).0 != addr by {
            if j < earlier.len() {
                assert(earlier[j].0 != addr);
            }
        }
        i
    }
}

/// A batch that has gone in once changes nothing when it goes in again,
/// and holds no new peer then.
pub proof fn lemma_repeated_batch_is_silent(table: Map<u32, Seq<u8>>, batch: Seq<(u32, Seq<u8>)>)
    ensures
        table_after(table_after(table, batch), batch) == table_after(table, batch),
        new_peers(table_after(table, batch), batch) == 0,
{
    let once = table_after(table, batch);
    let twice = table_after(once, batch);
    assert forall|i: int| 0 <= i < batch.len() implies once.contains_key(
        (#[trigger] batch[i]).0,
    ) by {
        lemma_addresses_after(table, batch, batch[i].0);
    }
    lemma_notified_iff_new_address(once, batch);
    assert forall|addr: u32|
        #![trigger twice.dom().contains(addr)]
        #![trigger once.dom().contains(addr)]
        #![trigger twice[addr]]
        #![trigger once[addr]]
        twice.dom().contains(addr) == once.dom().contains(addr) && (once.dom().contains(addr)
            ==> twice[addr] == once[addr]) by {
        if exists|k: int| 0 <= k < batch.len() && (#[trigger] batch[k]).0 == addr {
            let i = lemma_last_answer_exists(batch, addr);
            lemma_last_payload_wins(table, batch, i);
            lemma_last_payload_wins(once, batch, i);
        } else {
            lemma_silent_address_keeps_payload(once, batch, addr);
        }
    }
    assert(twice =~= once);
}

/// A batch holds at least as many new peers as any of its beginnings.
pub proof fn lemma_new_peers_grow(table: Map<u32, Seq<u8>>, batch: Seq<(u32, Seq<u8>)>, k: int)
    requires
        0 <= k <= batch.len(),
    ensures
        new_peers(table, batch.take(k)) <= new_peers(table, batch),
    decreases batch.len(),
{
    if k == batch.len() {
        assert(batch.take(k) =~= batch);
    } else {
        lemma_new_peers_grow(table, batch.drop_last(), k);
        assert(batch.drop_last().take(k) =~= batch.take(k));
    }
}

/// What `absorb` owes for a batch, given how many notifications had been
/// offered to the broadcaster before it and how many after. Either the
/// whole batch is in the table and one notification was offered for each
/// answer whose address the table did not have yet; or the broadcaster was
/// found gone, which takes an offer, and no offer is made but for such an
/// answer.
pub open spec fn absorbed(
    before: Map<u32, Seq<u8>>,
    batch: Seq<(u32, Seq<u8>)>,
    offered_before: nat,
    offered_after: nat,
    outcome: Result<BeaconTable, AggregatorError>,
) -> bool {
    let offers = offered_after - offered_before;
    match outcome {
        Ok(table) => table@ == table_after(before, batch) && offers == new_peers(before, batch),
        Err(error) => error == AggregatorError::NotificationDisconnected && 0 < offers
            <= new_peers(before, batch),
    }
}

/// A notification is offered exactly when the batch holds an answer from
/// an address that the table does not have. A batch without one offers
/// nothing and cannot fail, whatever has become of the broadcaster.
pub proof fn lemma_offers_only_for_new_addresses(
    before: Map<u32, Seq<u8>>,
    batch: Seq<(u32, Seq<u8>)>,
    offered_before: nat,
    offered_after: nat,
    outcome: Result<BeaconTable, AggregatorError>,
)
    requires
        absorbed(before, batch, offered_before, offered_after, outcome),
    ensures
        offered_after > offered_before <==> exists|i: int|
            0 <= i < batch.len() && !before.contains_key((#[trigger] batch[i]).0),
        offered_after >= offered_before,
        offered_after == offered_before ==> outcome is Ok,
        batch.len() == 0 ==> offered_after == offered_before,
{
    lemma_notified_iff_new_address(before, batch);
}

/// What the aggregator makes of an offered notification: a full channel is
/// fine, since a notification is then waiting already; a channel without a
/// receiver is the end.
pub fn notification_settled(outcome: Offer) -> (settled: Result<(), AggregatorError>)
    ensures
        settled == (if outcome == Offer::Disconnected {
            Err::<(), AggregatorError>(AggregatorError::NotificationDisconnected)
        } else {
            Ok::<(), AggregatorError>(())
        }),
{
    match outcome {
        Offer::Accepted => Ok(()),
        Offer::Full => Ok(()),
        Offer::Disconnected => Err(AggregatorError::NotificationDisconnected),
    }
}

/// Takes a batch of answers into the table, oldest first, and offers the
/// broadcaster one notification for each answer whose address the table
/// did not have yet. Stops with an error at the first notification that
/// finds the broadcaster gone.
pub fn absorb(beacons: BeaconTable, batch: Vec<BeaconAnswer>, notifier: &mut Outbox<()>) -> (outcome:
    Result<BeaconTable, AggregatorError>)
    ensures
        absorbed(
            beacons@,
            views_of(batch@),
            old(notifier).offered().len(),
            final(notifier).offered().len(),
            outcome,
        ),
        final(notifier).sender() == old(notifier).sender(),
{
    let ghost before = beacons@;
    let ghost all = views_of(batch@);
    let ghost offered_before = notifier.offered().len();
    let ghost sender = notifier.sender();
    let mut table = beacons;
    assert(all.take(0) =~= Seq::<(u32, Seq<u8>)>::empty());
    for answer in it: batch
        invariant
            it.seq() == batch@,
            all == views_of(batch@),
            before == beacons@,
            table@ == table_after(before, all.take(it.index())),
            offered_before == old(notifier).offered().len(),
            sender == old(notifier).sender(),
            notifier.offered().len() == offered_before + new_peers(before, all.take(it.index())),
            notifier.sender() == sender,
    {
        let ghost done = it.index();
        assert(all.take(done + 1).drop_last() =~= all.take(done));
        assert(all.take(done + 1).last() == answer@);
        let was_new = table.update(answer);
        if was_new {
            match notification_settled(notifier.offer(())) {
                Ok(()) => {},
                Err(error) => {
                    proof {
                        lemma_new_peers_grow(before, all, done + 1);
                    }
                    return Err(error);
                },
            }
        }
    }
    assert(all.take(all.len() as int) =~= all);
    Ok(table)
}

/// Takes whatever answers are waiting on the input channel into the table,
/// as `absorb` does. Which answers were waiting is for the channel to say:
/// the result, and the number of notifications offered, are those of
/// `absorb` for some batch.
pub fn beacons_update(
    beacons: BeaconTable,
    input: &crossbeam::channel::Receiver<BeaconAnswer>,
    notifier: &mut Outbox<()>,
) -> (outcome: Result<BeaconTable, AggregatorError>)
    ensures
        exists|batch: Seq<(u32, Seq<u8>)>|
            absorbed(
                beacons@,
                batch,
                old(notifier).offered().len(),
                final(notifier).offered().len(),
                outcome,
            ),
        final(notifier).sender() == old(notifier).sender(),
{
    let ghost offered_before = notifier.offered().len();
    let batch = drain(input);
    let ghost taken = views_of(batch@);
    let outcome = absorb(beacons, batch, notifier);
    assert(absorbed(beacons@, taken, offered_before, notifier.offered().len(), outcome));
    outcome
}

/// Whether a list of answers is a copy of a table: one answer for each
/// address of the table, with the payload the table holds for it, and
/// nothing else. The order is left open.
pub open spec fn is_snapshot_of(snapshot: Seq<(u32, Seq<u8>)>, table: Map<u32, Seq<u8>>) -> bool {
    &&& table.dom().finite()
    &&& snapshot.len() == table.len()
    &&& forall|i: int|
        0 <= i < snapshot.len() ==> table.contains_pair(
            (#[trigger] snapshot[i]).0,
            snapshot[i].1,
        )
    &&& forall|i: int, j: int|
        0 <= i < j < snapshot.len() ==> (#[trigger] snapshot[i]).0 != (#[trigger] snapshot[j]).0
    &&& forall|addr: u32| #[trigger]
        table.contains_key(addr) ==> snapshot.contains((addr, table[addr]))
}

/// What the aggregator makes of an offered snapshot: anything but its
/// acceptance is the end.
pub fn snapshot_settled(outcome: Offer) -> (settled: Result<(), AggregatorError>)
    ensures
        settled == match outcome {
            Offer::Accepted => Ok::<(), AggregatorError>(()),
            Offer::Full => Err::<(), AggregatorError>(AggregatorError::OutputFull),
            Offer::Disconnected => Err::<(), AggregatorError>(AggregatorError::OutputDisconnected),
        },
{
    match outcome {
        Offer::Accepted => Ok(()),
        Offer::Full => Err(AggregatorError::OutputFull),
        Offer::Disconnected => Err(AggregatorError::OutputDisconnected),
    }
}

/// What `publish` hands to the output channel: the record of what was
/// offered grows by one list, and that list is a copy of the table.
pub open spec fn published(
    table: Map<u32, Seq<u8>>,
    before: Seq<Vec<BeaconAnswer>>,
    after: Seq<Vec<BeaconAnswer>>,
) -> bool {
    &&& after.len() == before.len() + 1
    &&& after.drop_last() == before
    &&& is_snapshot_of(views_of(after.last()@), table)
}

/// Offers a snapshot of the table to the output channel, without waiting.
/// What is offered is a copy of the table. Whether the channel takes it is
/// for the channel to say; an error is one of the two that
/// `snapshot_settled` gives.
pub fn publish(beacons: &BeaconTable, output: &mut Outbox<Vec<BeaconAnswer>>) -> (outcome: Result<
    (),
    AggregatorError,
>)
    ensures
        published(beacons@, old(output).offered(), final(output).offered()),
        final(output).sender() == old(output).sender(),
        outcome matches Err(error) ==> error == AggregatorError::OutputFull || error
            == AggregatorError::OutputDisconnected,
{
    let ghost before = output.offered();
    let snapshot = beacons.snapshot();
    let outcome = snapshot_settled(output.offer(snapshot));
    assert(output.offered().drop_last() =~= before);
    outcome
}

/// What one turn of the aggregator owes for the batch it found waiting,
/// given how many notifications had been offered before it and how many
/// after, and the records `before` and `after` of the snapshots offered. Where the broadcaster is
/// found gone, no snapshot is offered. In every other case the batch has
/// gone in as `absorbed` says and one snapshot of the table with the batch
/// in it was offered; the turn succeeds if the channel took it.
pub open spec fn aggregated(
    table: Map<u32, Seq<u8>>,
    batch: Seq<(u32, Seq<u8>)>,
    offered_before: nat,
    offered_after: nat,
    before: Seq<Vec<BeaconAnswer>>,
    after: Seq<Vec<BeaconAnswer>>,
    outcome: Result<BeaconTable, AggregatorError>,
) -> bool {
    let offers = offered_after - offered_before;
    match outcome {
        Ok(updated) => {
            &&& updated@ == table_after(table, batch)
            &&& offers == new_peers(table, batch)
            &&& published(table_after(table, batch), before, after)
        },
        Err(AggregatorError::NotificationDisconnected) => {
            &&& 0 < offers <= new_peers(table, batch)
            &&& after == before
        },
        Err(_) => {
            &&& offers == new_peers(table, batch)
            &&& published(table_after(table, batch), before, after)
        },
    }
}

/// One turn of the aggregator: takes in the answers that are waiting, then
/// publishes a snapshot of the table.
pub fn aggregate(
    beacons: BeaconTable,
    input: &crossbeam::channel::Receiver<BeaconAnswer>,
    notifier: &mut Outbox<()>,
    output: &mut Outbox<Vec<BeaconAnswer>>,
) -> (outcome: Result<BeaconTable, AggregatorError>)
    ensures
        exists|batch: Seq<(u32, Seq<u8>)>|
            aggregated(
                beacons@,
                batch,
                old(notifier).offered().len(),
                final(notifier).offered().len(),
                old(output).offered(),
                final(output).offered(),
                outcome,
            ),
        final(notifier).sender() == old(notifier).sender(),
        final(output).sender() == old(output).sender(),
{
    let ghost offered_before = notifier.offered().len();
    let ghost published_before = output.offered();
    let updated = beacons_update(beacons, input, notifier);
    let ghost offered_after = notifier.offered().len();
    let ghost batch = choose|batch: Seq<(u32, Seq<u8>)>|
        absorbed(beacons@, batch, offered_before, offered_after, updated);
    match updated {
        Ok(table) => match publish(&table, output) {
            Ok(()) => {
                assert(aggregated(
                    beacons@,
                    batch,
                    offered_before,
                    offered_after,
                    published_before,
                    output.offered(),
                    Ok(table),
                ));
                Ok(table)
            },
            Err(error) => {
                assert(aggregated(
                    beacons@,
                    batch,
                    offered_before,
                    offered_after,
                    published_before,
                    output.offered(),
                    Err(error),
                ));
                Err(error)
            },
        },
        Err(error) => {
            assert(aggregated(
                beacons@,
                batch,
                offered_before,
                offered_after,
                published_before,
                output.offered(),
                Err(error),
            ));
            Err(error)
        },
    }
}

/// Makes the channel on which the listener hands answers to the
/// aggregator. It is made without a limit.
pub fn init_input_channel() -> (ends: (
    crossbeam::channel::Sender<BeaconAnswer>,
    crossbeam::channel::Receiver<BeaconAnswer>,
))
    ensures
        input_limit(ends.0) is None,
{
    unbounded_answers()
}

/// Makes the channel on which the aggregator publishes snapshots. It is
/// made without a limit.
pub fn init_output_channel() -> (ends: (
    crossbeam::channel::Sender<Vec<BeaconAnswer>>,
    crossbeam::channel::Receiver<Vec<BeaconAnswer>>,
))
    ensures
        output_limit(ends.0) is None,
{
    unbounded_snapshots()
}

/// The beacons heard so far: for each address the latest answer from it.
#[derive(Debug)]
pub struct BeaconTable {
    answers: HashMap<u32, BeaconAnswer>,
}

impl View for BeaconTable {
    type V = Map<u32, Seq<u8>>;

    /// The payload held for each address.
    closed spec fn view(&self) -> Map<u32, Seq<u8>> {
        Map::new(
            |addr: u32| self.answers@.contains_key(addr),
            |addr: u32| self.answers@[addr].payload@,
        )
    }
}

impl BeaconTable {
    #[verifier::type_invariant]
    spec fn keyed_by_address(&self) -> bool {
        forall|addr: u32| #[trigger]
            self.answers@.contains_key(addr) ==> self.answers@[addr].addr == addr
    }

    /// The empty table.
    pub fn new() -> (table: BeaconTable)
        ensures
            table@ == Map::<u32, Seq<u8>>::empty(),
    {
        let table = BeaconTable { answers: HashMap::new() };
        assert(table@ =~= Map::<u32, Seq<u8>>::empty());
        table
    }

    /// The number of beacons in the table.
    pub fn len(&self) -> (count: usize)
        ensures
            count == self@.len(),
            self@.dom().finite(),
    {
        assert(self@.dom() =~= self.answers@.dom());
        self.answers.len()
    }

    /// The answer held for an address, if there is one.
    pub fn get(&self, addr: u32) -> (found: Option<&BeaconAnswer>)
        ensures
            match found {
                Some(answer) => self@.contains_key(addr) && answer@ == (addr, self@[addr]),
                None => !self@.contains_key(addr),
            },
    {
        proof {
            use_type_invariant(self);
        }
        self.answers.get(&addr)
    }

    /// A copy of what the table holds, in no particular order.
    pub fn snapshot(&self) -> (snapshot: Vec<BeaconAnswer>)
        ensures
            is_snapshot_of(views_of(snapshot@), self@),
    {
        proof {
            use_type_invariant(self);
        }
        let ghost all = spec_hash_map_iter(&self.answers).remaining();
        let mut snapshot: Vec<BeaconAnswer> = Vec::new();
        for entry in it: self.answers.iter()
            invariant
                it.seq() == all,
                all == spec_hash_map_iter(&self.answers).remaining(),
                all.no_duplicates(),
                self.keyed_by_address(),
                snapshot.len() == it.index(),
                forall|j: int|
                    0 <= j < snapshot.len() ==> (#[trigger] snapshot[j])@ == (
                        *all[j].0,
                        all[j].1.payload@,
                    ),
        {
            let (addr, answer) = entry;
            assert(self.answers@.contains_key(*all[it.index()].0));
            snapshot.push(answer.clone());
        }
        proof {
            let listed = views_of(snapshot@);
            let held = self.answers@;
            assert(self@.dom() =~= held.dom());
            assert(listed.len() == self@.len());
            assert forall|i: int| 0 <= i < listed.len() implies self@.contains_pair(
                (#[trigger] listed[i]).0,
                listed[i].1,
            ) by {
                assert(held.contains_key(*all[i].0));
                assert(listed[i] == snapshot[i]@);
            }
            assert forall|i: int, j: int| 0 <= i < j < listed.len() implies (#[trigger] listed[i]).0
                != (#[trigger] listed[j]).0 by {
                assert(held.contains_key(*all[i].0) && held[*all[i].0] == *all[i].1);
                assert(held.contains_key(*all[j].0) && held[*all[j].0] == *all[j].1);
                assert(listed[i] == snapshot[i]@ && listed[j] == snapshot[j]@);
                if listed[i].0 == listed[j].0 {
                    assert(all[i] == all[j]);
                }
            }
            assert forall|addr: u32| #[trigger] self@.contains_key(addr) implies listed.contains(
                (addr, self@[addr]),
            ) by {
                assert(held.contains_key(addr));
                let entry = (&addr, &held[addr]);
                assert(all.contains(entry));
                let i = choose|i: int| 0 <= i < all.len() && all[i] == entry;
                assert(listed[i] == snapshot[i]@);
            }
        }
        snapshot
    }

    /// Puts an answer into the table, in place of whatever the table held
    /// for its address, and tells whether the address is new to the table.
    pub fn update(&mut self, answer: BeaconAnswer) -> (was_new: bool)
        ensures
            final(self)@ == old(self)@.insert(answer.addr, answer.payload@),
            was_new == !old(self)@.contains_key(answer.addr),
    {
        proof {
            use_type_invariant(&*self);
        }
        let ghost entry = answer;
        let mut answers: HashMap<u32, BeaconAnswer> = HashMap::new();
        std::mem::swap(&mut answers, &mut self.answers);
        let previous = answers.insert(answer.addr, answer);
        std::mem::swap(&mut answers, &mut self.answers);
        assert(self@ =~= old(self)@.insert(entry.addr, entry.payload@));
        previous.is_none()
    }
}

} // verus!
