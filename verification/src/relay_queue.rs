//! Packets that wait for a relay session.

use vstd::prelude::*;
use crate::packet::{Packet, PeerId};
use crate::relay_wire::{RelayConfirmationIdentity, RelayError};
use crate::route_trait::NextHopPolicy;

verus! {

pub const MAX_PENDING_PACKETS_PER_PEER: usize = 32;

pub const RELAY_QUEUE_PACKET_OVERHEAD: usize = 128;

pub const RELAY_QUEUE_MAX_BYTES_PER_PEER: usize = 262_144;

pub const RELAY_QUEUE_MAX_BYTES_GLOBAL: usize = 1_048_576;

pub const RELAY_QUEUE_MAX_PACKETS_GLOBAL: usize = 4096;

pub const RELAY_FLUSH_RETRY_MAX_ATTEMPTS: u32 = 8;

/// How far a relay peer has come.
#[derive(Clone, Copy, Debug, PartialEq, Eq, Structural)]
pub enum RelaySendPhase {
    AwaitingSession,
    Confirming,
    Draining,
    Ready,
}

/// What all relay queues of a process hold together.
#[derive(Clone, Copy, Debug, PartialEq, Eq, Structural)]
pub struct RelayBudget {
    pub bytes: usize,
    pub packets: usize,
    pub memory_used: usize,
    pub memory_limit: usize,
}

impl RelayBudget {
    /// An empty budget under a memory limit.
    pub fn with_limit(memory_limit: usize) -> (budget: Self)
        ensures
            budget == (RelayBudget { bytes: 0, packets: 0, memory_used: 0, memory_limit }),
    {
        RelayBudget { bytes: 0, packets: 0, memory_used: 0, memory_limit }
    }

    pub open spec fn admits(self, bytes: int, packets: int) -> bool {
        &&& self.memory_used + bytes <= self.memory_limit
        &&& self.bytes + bytes <= RELAY_QUEUE_MAX_BYTES_GLOBAL
        &&& self.packets + packets <= RELAY_QUEUE_MAX_PACKETS_GLOBAL
    }

    pub open spec fn charged(self, bytes: int, packets: int) -> RelayBudget {
        RelayBudget {
            bytes: (self.bytes + bytes) as usize,
            packets: (self.packets + packets) as usize,
            memory_used: (self.memory_used + bytes) as usize,
            ..self
        }
    }

    pub open spec fn released(self, bytes: int, packets: int) -> RelayBudget {
        RelayBudget {
            bytes: less(self.bytes, bytes),
            packets: less(self.packets, packets),
            memory_used: less(self.memory_used, bytes),
            ..self
        }
    }

    fn release(&mut self, bytes: usize, packets: usize)
        ensures
            *final(self) == old(self).released(bytes as int, packets as int),
    {
        self.bytes = self.bytes.saturating_sub(bytes);
        self.packets = self.packets.saturating_sub(packets);
        self.memory_used = self.memory_used.saturating_sub(bytes);
    }
}

/// What is left of an amount.
pub open spec fn less(amount: usize, by: int) -> usize {
    if amount >= by {
        (amount - by) as usize
    } else {
        0
    }
}

/// The authority under which a complete Ethernet packet entered a relay path.
///
/// The descriptor stands for everything that the authority was decided by; the
/// destination cannot change while the packet waits.
#[derive(Clone, Copy, Debug, PartialEq, Eq, Structural)]
pub struct FullEthernetAuthorizationToken {
    pub descriptor: u64,
    pub destination_peer_id: PeerId,
}

/// A packet that can be sent.
pub struct RelayReadyPacket {
    pub packet: Packet,
    pub policy: NextHopPolicy,
    pub authorization: Option<FullEthernetAuthorizationToken>,
}

/// A packet that waits, with what it counts in the budgets.
pub struct RelayQueuedPacket {
    pub packet: Packet,
    pub policy: NextHopPolicy,
    pub charge: usize,
    pub authorization: Option<FullEthernetAuthorizationToken>,
}

impl RelayReadyPacket {
    /// What the packet counts in the budgets.
    pub open spec fn charge(self) -> usize {
        let whole = self.packet@.buf_len() + RELAY_QUEUE_PACKET_OVERHEAD;
        if whole <= usize::MAX {
            whole as usize
        } else {
            usize::MAX
        }
    }

    pub open spec fn queued(self) -> RelayQueuedPacket {
        RelayQueuedPacket {
            packet: self.packet,
            policy: self.policy,
            charge: self.charge(),
            authorization: self.authorization,
        }
    }

    fn charge_of(&self) -> (charge: usize)
        ensures
            charge == self.charge(),
    {
        self.packet.buf_len().saturating_add(RELAY_QUEUE_PACKET_OVERHEAD)
    }

    fn into_queued(self) -> (queued: RelayQueuedPacket)
        ensures
            queued == self.queued(),
    {
        let charge: usize = self.charge_of();
        RelayQueuedPacket {
            packet: self.packet,
            policy: self.policy,
            charge,
            authorization: self.authorization,
        }
    }
}

/// What some queued packets count in the budgets together.
pub open spec fn charges(packets: Seq<RelayQueuedPacket>) -> nat
    decreases packets.len(),
{
    if packets.len() == 0 {
        0
    } else {
        charges(packets.drop_last()) + packets.last().charge as nat
    }
}

/// The packets of a batch as they wait.
pub open spec fn queued_all(items: Seq<RelayReadyPacket>) -> Seq<RelayQueuedPacket> {
    Seq::new(items.len(), |i: int| items[i].queued())
}

/// The outcome of handing a packet to the queue.
pub enum EnqueueResult {
    Queued,
    Ready { item: RelayReadyPacket },
}

pub enum EnqueueBatchResult {
    Queued,
    Ready { items: Vec<RelayReadyPacket> },
}

/// What a relay peer has to send, and how far its session is.
pub struct RelaySendState {
    pub phase: RelaySendPhase,
    pub closed: bool,
    pub packets: Vec<RelayQueuedPacket>,
    pub in_flight: usize,
    pub in_flight_bytes: usize,
    pub queued_bytes: usize,
    pub retry_scheduled: bool,
    pub retry_attempt: u32,
    pub confirmation: Option<RelayConfirmationIdentity>,
}

impl RelaySendState {
    /// The packets count what they are charged, and are few enough.
    pub open spec fn wf(self) -> bool {
        &&& self.queued_bytes == charges(self.packets@) + self.in_flight_bytes
        &&& self.queued_bytes <= RELAY_QUEUE_MAX_BYTES_PER_PEER
        &&& self.packets@.len() + self.in_flight <= MAX_PENDING_PACKETS_PER_PEER
    }

    pub fn new(phase: RelaySendPhase) -> (state: Self)
        ensures
            state.wf(),
            state.phase == phase,
            !state.closed,
            state.packets@.len() == 0,
            state.in_flight == 0,
            state.in_flight_bytes == 0,
            state.queued_bytes == 0,
            !state.retry_scheduled,
            state.retry_attempt == 0,
            state.confirmation is None,
    {
        RelaySendState {
            phase,
            closed: false,
            packets: Vec::new(),
            in_flight: 0,
            in_flight_bytes: 0,
            queued_bytes: 0,
            retry_scheduled: false,
            retry_attempt: 0,
            confirmation: None,
        }
    }

    /// Whether more packets fit the budgets of the peer and of the process.
    pub open spec fn fits(self, budget: RelayBudget, bytes: int, packets: int) -> bool {
        self.queued_bytes + bytes <= RELAY_QUEUE_MAX_BYTES_PER_PEER && budget.admits(bytes, packets)
    }

    /// Takes bytes and packets out of all budgets, or out of none.
    fn charge(&mut self, budget: &mut RelayBudget, bytes: usize, packets: usize) -> (charged: bool)
        ensures
            charged == old(self).fits(*old(budget), bytes as int, packets as int),
            charged ==> *final(budget) == old(budget).charged(bytes as int, packets as int)
                && *final(self) == (RelaySendState {
                queued_bytes: (old(self).queued_bytes + bytes) as usize,
                ..*old(self)
            }),
            !charged ==> *final(budget) == *old(budget) && *final(self) == *old(self),
    {
        let queued_bytes: usize = match self.queued_bytes.checked_add(bytes) {
            Some(sum) => sum,
            None => {
                return false;
            },
        };
        if queued_bytes > RELAY_QUEUE_MAX_BYTES_PER_PEER {
            return false;
        }
        let memory_used: usize = match budget.memory_used.checked_add(bytes) {
            Some(sum) => sum,
            None => {
                return false;
            },
        };
        if memory_used > budget.memory_limit {
            return false;
        }
        let global_bytes: usize = match budget.bytes.checked_add(bytes) {
            Some(sum) => sum,
            None => {
                return false;
            },
        };
        if global_bytes > RELAY_QUEUE_MAX_BYTES_GLOBAL {
            return false;
        }
        let global_packets: usize = match budget.packets.checked_add(packets) {
            Some(sum) => sum,
            None => {
                return false;
            },
        };
        if global_packets > RELAY_QUEUE_MAX_PACKETS_GLOBAL {
            return false;
        }
        self.queued_bytes = queued_bytes;
        budget.memory_used = memory_used;
        budget.bytes = global_bytes;
        budget.packets = global_packets;
        true
    }

    pub fn phase(&self) -> (phase: RelaySendPhase)
        ensures
            phase == self.phase,
    {
        self.phase
    }

    pub fn set_phase(&mut self, phase: RelaySendPhase)
        requires
            old(self).wf(),
        ensures
            final(self).wf(),
            *final(self) == (RelaySendState { phase, ..*old(self) }),
    {
        self.phase = phase;
    }

    /// Drops all packets and gives their budget back.
    pub fn close(&mut self, budget: &mut RelayBudget)
        requires
            old(self).wf(),
        ensures
            final(self).wf(),
            final(self).closed,
            final(self).phase == RelaySendPhase::AwaitingSession,
            final(self).packets@.len() == 0,
            final(self).in_flight == 0,
            final(self).in_flight_bytes == 0,
            final(self).queued_bytes == 0,
            final(self).retry_scheduled == old(self).retry_scheduled,
            final(self).retry_attempt == old(self).retry_attempt,
            final(self).confirmation == old(self).confirmation,
            *final(budget) == old(budget).released(
                old(self).queued_bytes as int,
                old(self).packets@.len() + old(self).in_flight,
            ),
    {
        self.closed = true;
        self.phase = RelaySendPhase::AwaitingSession;
        budget.release(self.queued_bytes, self.packets.len() + self.in_flight);
        self.packets = Vec::new();
        self.in_flight = 0;
        self.in_flight_bytes = 0;
        self.queued_bytes = 0;
    }

    pub fn set_confirmation(&mut self, identity: RelayConfirmationIdentity)
        requires
            old(self).wf(),
        ensures
            final(self).wf(),
            *final(self) == (RelaySendState {
                confirmation: Some(identity),
                phase: RelaySendPhase::Confirming,
                ..*old(self)
            }),
    {
        self.confirmation = Some(identity);
        self.phase = RelaySendPhase::Confirming;
    }

    pub fn clear_confirmation(&mut self, identity: RelayConfirmationIdentity) -> (cleared: bool)
        requires
            old(self).wf(),
        ensures
            final(self).wf(),
            cleared == (old(self).confirmation == Some(identity)),
            *final(self) == old(self).without_confirmation(identity),
    {
        if self.confirmation != Some(identity) {
            return false;
        }
        self.confirmation = None;
        true
    }

    pub open spec fn without_confirmation(self, identity: RelayConfirmationIdentity) -> RelaySendState {
        if self.confirmation == Some(identity) {
            RelaySendState { confirmation: None, ..self }
        } else {
            self
        }
    }

    /// What becomes of a packet that is handed to the queue.
    pub open spec fn enqueue_check(self, budget: RelayBudget, item: RelayReadyPacket) -> Result<
        bool,
        RelayError,
    > {
        if self.closed {
            Err(RelayError::QueueClosed)
        } else if self.phase == RelaySendPhase::Ready {
            Ok(false)
        } else if self.packets@.len() + self.in_flight >= MAX_PENDING_PACKETS_PER_PEER {
            Err(RelayError::QueueFull)
        } else if !self.fits(budget, item.charge() as int, 1) {
            Err(RelayError::QueueBudgetFull)
        } else {
            Ok(true)
        }
    }

    /// Queues a packet, unless the session is ready for it.
    pub fn enqueue(&mut self, budget: &mut RelayBudget, item: RelayReadyPacket) -> (result: Result<
        EnqueueResult,
        RelayError,
    >)
        requires
            old(self).wf(),
        ensures
            final(self).wf(),
            match old(self).enqueue_check(*old(budget), item) {
                Err(e) => result == Err::<EnqueueResult, RelayError>(e) && *final(self)
                    == *old(self) && *final(budget) == *old(budget),
                Ok(false) => result == Ok::<EnqueueResult, RelayError>(
                    EnqueueResult::Ready { item },
                ) && *final(self) == *old(self) && *final(budget) == *old(budget),
                Ok(true) => {
                    &&& result == Ok::<EnqueueResult, RelayError>(EnqueueResult::Queued)
                    &&& final(self).packets@ == old(self).packets@.push(item.queued())
                    &&& final(self).same_but_queue(*old(self))
                    &&& final(self).in_flight == old(self).in_flight
                    &&& final(self).in_flight_bytes == old(self).in_flight_bytes
                    &&& *final(budget) == old(budget).charged(item.charge() as int, 1)
                },
            },
    {
        if self.closed {
            return Err(RelayError::QueueClosed);
        }
        if self.phase == RelaySendPhase::Ready {
            return Ok(EnqueueResult::Ready { item });
        }
        if self.packets.len() + self.in_flight >= MAX_PENDING_PACKETS_PER_PEER {
            return Err(RelayError::QueueFull);
        }
        let charge: usize = item.charge_of();
        if !self.charge(budget, charge, 1) {
            return Err(RelayError::QueueBudgetFull);
        }
        let queued = item.into_queued();
        let ghost before = self.packets@;
        self.packets.push(queued);
        assert(self.packets@.drop_last() =~= before);
        Ok(EnqueueResult::Queued)
    }

    /// Everything but the queue and its counts is as before.
    pub open spec fn same_but_queue(self, before: RelaySendState) -> bool {
        &&& self.phase == before.phase
        &&& self.closed == before.closed
        &&& self.retry_scheduled == before.retry_scheduled
        &&& self.retry_attempt == before.retry_attempt
        &&& self.confirmation == before.confirmation
    }

    pub open spec fn enqueue_batch_check(self, budget: RelayBudget, items: Seq<RelayReadyPacket>) -> Result<
        bool,
        RelayError,
    > {
        if self.closed {
            Err(RelayError::QueueClosed)
        } else if self.phase == RelaySendPhase::Ready {
            Ok(false)
        } else if self.packets@.len() + self.in_flight + items.len() > MAX_PENDING_PACKETS_PER_PEER {
            Err(RelayError::QueueFull)
        } else if !self.fits(budget, charges(queued_all(items)) as int, items.len() as int) {
            Err(RelayError::QueueBudgetFull)
        } else {
            Ok(true)
        }
    }

    /// Queues all packets of a batch, or none.
    pub fn enqueue_batch(&mut self, budget: &mut RelayBudget, items: Vec<RelayReadyPacket>) -> (result:
        Result<EnqueueBatchResult, RelayError>)
        requires
            old(self).wf(),
        ensures
            final(self).wf(),
            match old(self).enqueue_batch_check(*old(budget), items@) {
                Err(e) => result == Err::<EnqueueBatchResult, RelayError>(e) && *final(self)
                    == *old(self) && *final(budget) == *old(budget),
                Ok(false) => result == Ok::<EnqueueBatchResult, RelayError>(
                    EnqueueBatchResult::Ready { items },
                ) && *final(self) == *old(self) && *final(budget) == *old(budget),
                Ok(true) => {
                    &&& result == Ok::<EnqueueBatchResult, RelayError>(EnqueueBatchResult::Queued)
                    &&& final(self).packets@ == old(self).packets@ + queued_all(items@)
                    &&& final(self).same_but_queue(*old(self))
                    &&& final(self).in_flight == old(self).in_flight
                    &&& final(self).in_flight_bytes == old(self).in_flight_bytes
                    &&& *final(budget) == old(budget).charged(
                        charges(queued_all(items@)) as int,
                        items@.len() as int,
                    )
                },
            },
    {
        if self.closed {
            return Err(RelayError::QueueClosed);
        }
        if self.phase == RelaySendPhase::Ready {
            return Ok(EnqueueBatchResult::Ready { items });
        }
        if items.len() > MAX_PENDING_PACKETS_PER_PEER || self.packets.len() + self.in_flight
            + items.len() > MAX_PENDING_PACKETS_PER_PEER {
            return Err(RelayError::QueueFull);
        }
        let ghost all = queued_all(items@);
        let bytes: usize = total_charge(&items);
        if !self.charge(budget, bytes, items.len()) {
            return Err(RelayError::QueueBudgetFull);
        }
        assert(bytes == charges(all));
        let ghost before = self.packets@;
        let mut items = items;
        let mut queued: Vec<RelayQueuedPacket> = Vec::new();
        let ghost given = items@;
        while items.len() > 0
            invariant
                items@.len() + queued@.len() == given.len(),
                items@ == given.skip(queued@.len() as int),
                queued@ == queued_all(given).take(queued@.len() as int),
            decreases items@.len(),
        {
            let item = items.remove(0);
            queued.push(item.into_queued());
            assert(items@ =~= given.skip(queued@.len() as int));
            assert(queued@ =~= queued_all(given).take(queued@.len() as int));
        }
        assert(queued@ =~= all);
        self.packets.append(&mut queued);
        proof {
            lemma_charges_of_sum(before, all);
        }
        Ok(EnqueueBatchResult::Queued)
    }

    /// The number of packets at the front that go out together: up to `max`
    /// with the policy of the first.
    pub open spec fn run_length(self, max: int, k: int) -> bool {
        let q = self.packets@;
        &&& 0 <= k <= q.len()
        &&& k <= max
        &&& forall|i: int| 0 <= i < k ==> (#[trigger] q[i]).policy == q[0].policy
        &&& k == max || k == q.len() || q[k].policy != q[0].policy
    }

    /// Takes the packets at the front that go out together.
    pub fn pop_batch_for_send(&mut self, max_packets: usize) -> (popped: Option<
        Vec<RelayQueuedPacket>,
    >)
        requires
            old(self).wf(),
        ensures
            final(self).wf(),
            popped is None <==> old(self).packets@.len() == 0,
            popped is None ==> *final(self) == *old(self),
            popped matches Some(batch) ==> {
                let k = batch@.len() as int;
                &&& old(self).run_length(max_packets as int, k)
                &&& batch@ == old(self).packets@.take(k)
                &&& final(self).packets@ == old(self).packets@.skip(k)
                &&& final(self).in_flight == old(self).in_flight + k
                &&& final(self).in_flight_bytes == old(self).in_flight_bytes + charges(batch@)
                &&& final(self).queued_bytes == old(self).queued_bytes
                &&& final(self).same_but_queue(*old(self))
            },
    {
        if self.packets.len() == 0 {
            return None;
        }
        let policy = self.packets[0].policy;
        let mut batch: Vec<RelayQueuedPacket> = Vec::new();
        let ghost q = self.packets@;
        assert(q.take(0) =~= Seq::<RelayQueuedPacket>::empty());
        assert(q.skip(0) =~= q);
        while batch.len() < max_packets && self.packets.len() > 0 && self.packets[0].policy
            == policy
            invariant
                q == old(self).packets@,
                q.len() > 0,
                policy == q[0].policy,
                batch@.len() <= q.len(),
                batch@.len() <= max_packets,
                batch@ == q.take(batch@.len() as int),
                self.packets@ == q.skip(batch@.len() as int),
                forall|i: int| 0 <= i < batch@.len() ==> (#[trigger] q[i]).policy == policy,
                self.in_flight == old(self).in_flight + batch@.len(),
                self.in_flight_bytes == old(self).in_flight_bytes + charges(batch@),
                self.queued_bytes == old(self).queued_bytes,
                self.same_but_queue(*old(self)),
                self.wf(),
            decreases q.len() - batch@.len(),
        {
            let ghost k = batch@.len() as int;
            let ghost rest = self.packets@;
            proof {
                lemma_charges_front(rest);
            }
            let packet = self.packets.remove(0);
            assert(packet == q[k]);
            assert(self.packets@ =~= rest.skip(1));
            self.in_flight_bytes = self.in_flight_bytes + packet.charge;
            self.in_flight = self.in_flight + 1;
            let ghost taken = batch@;
            batch.push(packet);
            assert(batch@.drop_last() =~= taken);
            assert(batch@ =~= q.take(k + 1));
            assert(self.packets@ =~= q.skip(k + 1));
        }
        Some(batch)
    }

    /// Packets that went out: their budget is given back.
    pub fn complete_send_batch(&mut self, budget: &mut RelayBudget, bytes: usize, packets: usize)
        requires
            old(self).wf(),
        ensures
            final(self).wf(),
            ({
                let done = smaller(packets, old(self).in_flight);
                let gone = smaller(bytes, old(self).in_flight_bytes);
                &&& *final(self) == (RelaySendState {
                    in_flight: (old(self).in_flight - done) as usize,
                    in_flight_bytes: (old(self).in_flight_bytes - gone) as usize,
                    queued_bytes: (old(self).queued_bytes - gone) as usize,
                    ..*old(self)
                })
                &&& *final(budget) == old(budget).released(gone as int, done as int)
            }),
    {
        let done: usize = if packets < self.in_flight {
            packets
        } else {
            self.in_flight
        };
        let gone: usize = if bytes < self.in_flight_bytes {
            bytes
        } else {
            self.in_flight_bytes
        };
        self.in_flight = self.in_flight - done;
        self.in_flight_bytes = self.in_flight_bytes - gone;
        self.queued_bytes = self.queued_bytes - gone;
        budget.release(gone, done);
    }

    /// Whether packets are still counted as in flight. They are not after the
    /// state was closed.
    pub open spec fn counts_in_flight(self, packets: Seq<RelayQueuedPacket>) -> bool {
        packets.len() <= self.in_flight && charges(packets) <= self.in_flight_bytes
    }

    /// Packets that could not go out come back to the front in their order.
    /// Packets that are not in flight any more are dropped.
    pub fn requeue_failed_batch(&mut self, packets: Vec<RelayQueuedPacket>)
        requires
            old(self).wf(),
        ensures
            final(self).wf(),
            if old(self).counts_in_flight(packets@) {
                &&& final(self).packets@ == packets@ + old(self).packets@
                &&& final(self).in_flight == old(self).in_flight - packets@.len()
                &&& final(self).in_flight_bytes == old(self).in_flight_bytes - charges(packets@)
                &&& final(self).queued_bytes == old(self).queued_bytes
                &&& final(self).same_but_queue(*old(self))
            } else {
                *final(self) == *old(self)
            },
    {
        let count: usize = packets.len();
        if count > self.in_flight {
            return ;
        }
        let bytes: usize = match total_queued(&packets, self.in_flight_bytes) {
            Some(bytes) => bytes,
            None => {
                return ;
            },
        };
        self.in_flight = self.in_flight - count;
        self.in_flight_bytes = self.in_flight_bytes - bytes;
        let mut front = packets;
        proof {
            lemma_charges_of_sum(front@, self.packets@);
        }
        front.append(&mut self.packets);
        self.packets = front;
    }

    pub fn is_empty(&self) -> (empty: bool)
        ensures
            empty == (self.packets@.len() == 0 && self.in_flight == 0),
    {
        self.packets.len() == 0 && self.in_flight == 0
    }

    /// Declares the session ready once nothing waits any more.
    pub fn finish_draining(&mut self) -> (finished: bool)
        requires
            old(self).wf(),
        ensures
            final(self).wf(),
            finished == (old(self).packets@.len() == 0 && old(self).in_flight == 0),
            *final(self) == (if finished {
                RelaySendState { phase: RelaySendPhase::Ready, ..*old(self) }
            } else {
                *old(self)
            }),
    {
        if self.packets.len() != 0 || self.in_flight != 0 {
            return false;
        }
        self.phase = RelaySendPhase::Ready;
        true
    }

    pub fn packet_count(&self) -> (count: usize)
        requires
            self.wf(),
        ensures
            count == self.packets@.len() + self.in_flight,
    {
        self.packets.len() + self.in_flight
    }
}

pub open spec fn smaller(a: usize, b: usize) -> usize {
    if a < b {
        a
    } else {
        b
    }
}

/// What a batch counts; the largest number where it counts more.
fn total_charge(items: &Vec<RelayReadyPacket>) -> (total: usize)
    ensures
        total as nat == if charges(queued_all(items@)) <= usize::MAX {
            charges(queued_all(items@))
        } else {
            usize::MAX as nat
        },
{
    let ghost all = queued_all(items@);
    let mut total: usize = 0;
    let mut i: usize = 0;
    assert(all.take(0) =~= Seq::<RelayQueuedPacket>::empty());
    while i < items.len()
        invariant
            all == queued_all(items@),
            i <= items@.len(),
            total as nat == if charges(all.take(i as int)) <= usize::MAX {
                charges(all.take(i as int))
            } else {
                usize::MAX as nat
            },
        decreases items@.len() - i,
    {
        assert(all.take(i + 1).drop_last() =~= all.take(i as int));
        total = total.saturating_add(items[i].charge_of());
        i = i + 1;
    }
    assert(all.take(i as int) =~= all);
    total
}

/// What some packets count, if that is at most `limit`.
fn total_queued(packets: &Vec<RelayQueuedPacket>, limit: usize) -> (total: Option<usize>)
    ensures
        total is Some <==> charges(packets@) <= limit,
        total matches Some(t) ==> t == charges(packets@),
{
    let mut total: usize = 0;
    let mut i: usize = 0;
    assert(packets@.take(0) =~= Seq::<RelayQueuedPacket>::empty());
    while i < packets.len()
        invariant
            i <= packets@.len(),
            total == charges(packets@.take(i as int)),
            total <= limit,
        decreases packets@.len() - i,
    {
        assert(packets@.take(i + 1).drop_last() =~= packets@.take(i as int));
        let charge: usize = packets[i].charge;
        if charge > limit - total {
            proof {
                lemma_charges_of_sum(packets@.take(i + 1), packets@.skip(i + 1));
                assert(packets@.take(i + 1) + packets@.skip(i + 1) =~= packets@);
            }
            return None;
        }
        total = total + charge;
        i = i + 1;
    }
    assert(packets@.take(i as int) =~= packets@);
    Some(total)
}

/// The bytes that packets in flight count.
pub fn batch_bytes(packets: &Vec<RelayQueuedPacket>) -> (total: usize)
    ensures
        total as nat == if charges(packets@) <= usize::MAX {
            charges(packets@)
        } else {
            usize::MAX as nat
        },
{
    match total_queued(packets, usize::MAX) {
        Some(total) => total,
        None => usize::MAX,
    }
}

proof fn lemma_charges_front(packets: Seq<RelayQueuedPacket>)
    requires
        packets.len() > 0,
    ensures
        charges(packets) == packets[0].charge + charges(packets.skip(1)),
{
    assert(packets =~= packets.take(1) + packets.skip(1));
    lemma_charges_of_sum(packets.take(1), packets.skip(1));
    assert(packets.take(1).drop_last() =~= Seq::<RelayQueuedPacket>::empty());
    reveal_with_fuel(charges, 2);
}

/// What two groups of packets count adds up.
pub proof fn lemma_charges_of_sum(a: Seq<RelayQueuedPacket>, b: Seq<RelayQueuedPacket>)
    ensures
        charges(a + b) == charges(a) + charges(b),
    decreases b.len(),
{
    if b.len() == 0 {
        assert(a + b =~= a);
    } else {
        assert((a + b).drop_last() =~= a + b.drop_last());
        lemma_charges_of_sum(a, b.drop_last());
    }
}

/// What is taken out of the budgets for packets is given back in full when they
/// leave.
pub proof fn lemma_budget_is_conserved(budget: RelayBudget, bytes: int, packets: int)
    requires
        budget.admits(bytes, packets),
        0 <= bytes,
        0 <= packets,
    ensures
        budget.charged(bytes, packets).released(bytes, packets) == budget,
        budget.charged(bytes, packets).bytes <= RELAY_QUEUE_MAX_BYTES_GLOBAL,
        budget.charged(bytes, packets).packets <= RELAY_QUEUE_MAX_PACKETS_GLOBAL,
        budget.charged(bytes, packets).memory_used <= budget.memory_limit,
{
}

/// Packets that were taken and come back leave the queue as it was.
pub proof fn lemma_requeue_undoes_pop(
    before: RelaySendState,
    popped: Seq<RelayQueuedPacket>,
    taken: RelaySendState,
    back: RelaySendState,
)
    requires
        before.wf(),
        popped == before.packets@.take(popped.len() as int),
        popped.len() <= before.packets@.len(),
        taken.packets@ == before.packets@.skip(popped.len() as int),
        taken.in_flight == before.in_flight + popped.len(),
        taken.in_flight_bytes == before.in_flight_bytes + charges(popped),
        back.packets@ == popped + taken.packets@,
        back.in_flight == taken.in_flight - popped.len(),
        back.in_flight_bytes == taken.in_flight_bytes - charges(popped),
    ensures
        taken.counts_in_flight(popped),
        back.packets@ == before.packets@,
        back.in_flight == before.in_flight,
        back.in_flight_bytes == before.in_flight_bytes,
{
    assert(popped + before.packets@.skip(popped.len() as int) =~= before.packets@);
}

} // verus!
