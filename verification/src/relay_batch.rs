//! Sending batches over relay sessions, and letting queued packets go.

use vstd::prelude::*;
use crate::packet::{Packet, PeerId, PACKET_ETHERNET};
use crate::relay_peer::{RelayPeer, HANDSHAKE_CONFIRM_RETRY_MS};
use crate::relay_queue::{
    batch_bytes, EnqueueBatchResult, FullEthernetAuthorizationToken, RelayBudget,
    RelayQueuedPacket, RelayReadyPacket, RelaySendPhase, RelaySendState,
    RELAY_FLUSH_RETRY_MAX_ATTEMPTS,
};
use crate::relay_send::{full_ethernet_authorization_is_current, packet_authorization_token};
use crate::relay_wire::{attach_relay_origin_proof, is_handshake_packet_type, RelayError};
use crate::replay_window::MAX_PACKET_BATCH_SIZE;
use crate::route_trait::NextHopPolicy;
use crate::session_store::{PeerSessionStore, SessionId};
use crate::session_types::SessionKey;

verus! {

/// What becomes of a batch that is to be sent.
pub enum BatchDecision {
    Nothing,
    /// The packets go out as they are.
    Forward { packets: Vec<Packet> },
    /// The packets wait for a session.
    Queued,
    /// The packets need a session.
    NeedsSession { items: Vec<RelayReadyPacket> },
    /// The packets are sealed under a session and go out.
    Encrypt { items: Vec<RelayReadyPacket>, session: SessionId },
}

/// Whether all packets of a batch are of the same make as the first: sealed or
/// not, part of a handshake or not.
pub open spec fn alike(batch: Seq<Packet>) -> bool {
    forall|i: int|
        0 <= i < batch.len() ==> {
            &&& (#[trigger] batch[i]).header is Some
            &&& batch[i].header->0.encrypted() == batch[0].header->0.encrypted()
            &&& crate::relay_wire::is_handshake_type(batch[i].header->0.packet_type)
                == crate::relay_wire::is_handshake_type(batch[0].header->0.packet_type)
        }
}

/// The packets of a batch as they were prepared for sending.
pub open spec fn all_prepared(
    items: Seq<RelayReadyPacket>,
    batch: Seq<Packet>,
    policy: NextHopPolicy,
    provided: Option<FullEthernetAuthorizationToken>,
    fresh: FullEthernetAuthorizationToken,
) -> bool {
    &&& items.len() == batch.len()
    &&& forall|i: int|
        0 <= i < batch.len() ==> crate::relay_send::prepared_as(
            #[trigger] items[i],
            crate::relay_wire::proven(batch[i]@),
            policy,
            crate::relay_send::token_for(batch[i]@, provided, fresh),
        )
}

/// Whether every complete Ethernet packet of a batch may go to its destination.
pub open spec fn batch_authorized(items: Seq<RelayReadyPacket>, dst_peer_id: PeerId, current: Seq<u64>) -> bool {
    forall|i: int|
        0 <= i < items.len() && (#[trigger] items[i]).packet@.has_type(PACKET_ETHERNET)
            ==> crate::relay_send::token_current(items[i].authorization, dst_peer_id, current)
}

/// The effect of queueing a batch.
pub open spec fn all_queued_up(
    before: RelaySendState,
    budget: RelayBudget,
    items: Seq<RelayReadyPacket>,
    after: RelaySendState,
    budget_after: RelayBudget,
) -> bool {
    let queued = crate::relay_queue::queued_all(items);
    &&& after.packets@ == before.packets@ + queued
    &&& after.same_but_queue(before)
    &&& after.in_flight == before.in_flight
    &&& after.in_flight_bytes == before.in_flight_bytes
    &&& budget_after == budget.charged(
        crate::relay_queue::charges(queued) as int,
        items.len() as int,
    )
}

fn batch_is_authorized(items: &Vec<RelayReadyPacket>, dst_peer_id: PeerId, current: &Vec<u64>) -> (authorized:
    bool)
    ensures
        authorized == batch_authorized(items@, dst_peer_id, current@),
{
    let mut i: usize = 0;
    while i < items.len()
        invariant
            i <= items@.len(),
            forall|k: int|
                0 <= k < i && (#[trigger] items@[k]).packet@.has_type(PACKET_ETHERNET)
                    ==> crate::relay_send::token_current(
                    items@[k].authorization,
                    dst_peer_id,
                    current@,
                ),
        decreases items@.len() - i,
    {
        let ethernet = match items[i].packet.header {
            Some(header) => header.packet_type == PACKET_ETHERNET,
            None => false,
        };
        if ethernet && !full_ethernet_authorization_is_current(
            items[i].authorization,
            dst_peer_id,
            current,
        ) {
            assert(items@[i as int].packet@.has_type(PACKET_ETHERNET));
            return false;
        }
        i = i + 1;
    }
    true
}

fn batch_is_alike(batch: &Vec<Packet>) -> (is: bool)
    requires
        batch@.len() > 0,
        batch@[0].header is Some,
    ensures
        is == alike(batch@),
{
    let first = batch[0].header.unwrap();
    let encrypted = first.is_encrypted();
    let handshake = is_handshake_packet_type(first.packet_type);
    let mut i: usize = 0;
    while i < batch.len()
        invariant
            i <= batch@.len(),
            batch@.len() > 0,
            batch@[0].header is Some,
            encrypted == batch@[0].header->0.encrypted(),
            handshake == crate::relay_wire::is_handshake_type(batch@[0].header->0.packet_type),
            forall|k: int|
                0 <= k < i ==> {
                    &&& (#[trigger] batch@[k]).header is Some
                    &&& batch@[k].header->0.encrypted() == encrypted
                    &&& crate::relay_wire::is_handshake_type(batch@[k].header->0.packet_type)
                        == handshake
                },
        decreases batch@.len() - i,
    {
        let same = match batch[i].header {
            Some(header) => header.is_encrypted() == encrypted && is_handshake_packet_type(
                header.packet_type,
            ) == handshake,
            None => false,
        };
        if !same {
            assert(!({
                &&& batch@[i as int].header is Some
                &&& batch@[i as int].header->0.encrypted() == encrypted
                &&& crate::relay_wire::is_handshake_type(batch@[i as int].header->0.packet_type)
                    == handshake
            }));
            return false;
        }
        i = i + 1;
    }
    true
}

fn prepare_batch(
    batch: Vec<Packet>,
    policy: NextHopPolicy,
    provided: Option<FullEthernetAuthorizationToken>,
    fresh: FullEthernetAuthorizationToken,
) -> (items: Vec<RelayReadyPacket>)
    requires
        alike(batch@),
    ensures
        all_prepared(items@, batch@, policy, provided, fresh),
{
    let mut rest = batch;
    let mut items: Vec<RelayReadyPacket> = Vec::new();
    let ghost given = rest@;
    while rest.len() > 0
        invariant
            alike(given),
            items@.len() + rest@.len() == given.len(),
            rest@ == given.skip(items@.len() as int),
            forall|i: int|
                0 <= i < items@.len() ==> crate::relay_send::prepared_as(
                    #[trigger] items@[i],
                    crate::relay_wire::proven(given[i]@),
                    policy,
                    crate::relay_send::token_for(given[i]@, provided, fresh),
                ),
        decreases rest@.len(),
    {
        let ghost n = items@.len() as int;
        let mut packet = rest.remove(0);
        assert(packet == given[n]);
        assert(rest@ =~= given.skip(n + 1));
        let authorization = packet_authorization_token(&packet, provided, fresh);
        let _ = attach_relay_origin_proof(&mut packet);
        items.push(RelayReadyPacket { packet, policy, authorization });
    }
    items
}

/// What handing a batch over for sending gives and changes.
pub open spec fn batch_admitted(
    peer: RelayPeer,
    budget: RelayBudget,
    batch: Seq<Packet>,
    dst_peer_id: PeerId,
    policy: NextHopPolicy,
    provided: Option<FullEthernetAuthorizationToken>,
    fresh: FullEthernetAuthorizationToken,
    current: Seq<u64>,
    now_ms: u64,
    decision: Result<BatchDecision, RelayError>,
    peer_after: RelayPeer,
    budget_after: RelayBudget,
) -> bool {
    let unchanged = peer_after == peer && budget_after == budget;
    if batch.len() == 0 {
        (decision matches Ok(BatchDecision::Nothing)) && unchanged
    } else if batch[0].header is None {
        decision is Err && decision->Err_0 == RelayError::NoHeader && unchanged
    } else if !alike(batch) {
        decision is Err && decision->Err_0 == RelayError::MixedBatch && unchanged
    } else if crate::relay_send::forwards(batch[0]@) {
        &&& decision matches Ok(BatchDecision::Forward { packets })
        &&& packets@ == batch
        &&& unchanged
    } else {
        exists|items: Seq<RelayReadyPacket>|
            {
                &&& #[trigger] all_prepared(items, batch, policy, provided, fresh)
                &&& peer_after == crate::relay_send::active_with(peer, peer_after.send, now_ms)
                &&& if !batch_authorized(items, dst_peer_id, current) {
                    &&& decision is Err
                    &&& decision->Err_0 == RelayError::AuthorityChangedBeforeEncryption
                    &&& peer_after.send == peer.send
                    &&& budget_after == budget
                } else if peer.send is None || peer.phase_is(RelaySendPhase::Ready) {
                    &&& decision matches Ok(BatchDecision::NeedsSession { items: given })
                    &&& given@ == items
                    &&& peer_after.send == peer.send
                    &&& budget_after == budget
                } else {
                    match peer.send->0.enqueue_batch_check(budget, items) {
                        Err(e) => {
                            &&& decision is Err
                            &&& decision->Err_0 == e
                            &&& peer_after.send == peer.send
                            &&& budget_after == budget
                        },
                        Ok(_) => {
                            &&& decision matches Ok(BatchDecision::Queued)
                            &&& peer_after.send is Some
                            &&& all_queued_up(
                                peer.send->0,
                                budget,
                                items,
                                peer_after.send->0,
                                budget_after,
                            )
                        },
                    }
                }
            }
    }
}

/// What a batch that needed a session gives and changes once one was looked for.
pub open spec fn batch_session_found(
    peer: RelayPeer,
    budget: RelayBudget,
    items: Vec<RelayReadyPacket>,
    session: Result<SessionId, RelayError>,
    dst_peer_id: PeerId,
    current: Seq<u64>,
    decision: Result<BatchDecision, RelayError>,
    peer_after: RelayPeer,
    budget_after: RelayBudget,
) -> bool {
    &&& peer_after == (RelayPeer { send: peer_after.send, ..peer })
    &&& if session is Err || (peer.send is Some && !peer.phase_is(RelaySendPhase::Ready)) {
        exists|state: RelaySendState|
            {
                &&& session is Err && peer.send is Some ==> state == (RelaySendState {
                    phase: RelaySendPhase::AwaitingSession,
                    ..peer.send->0
                })
                &&& session is Ok ==> state == peer.send->0
                &&& peer.send is None ==> crate::relay_peer::fresh_send_state(
                    state,
                    RelaySendPhase::AwaitingSession,
                )
                &&& peer_after.send is Some
                &&& match #[trigger] state.enqueue_batch_check(budget, items@) {
                    Err(e) => {
                        &&& decision is Err
                        &&& decision->Err_0 == e
                        &&& peer_after.send == Some(state)
                        &&& budget_after == budget
                    },
                    Ok(_) => {
                        &&& decision matches Ok(BatchDecision::Queued)
                        &&& all_queued_up(state, budget, items@, peer_after.send->0, budget_after)
                    },
                }
            }
    } else {
        &&& peer_after == peer
        &&& budget_after == budget
        &&& if !batch_authorized(items@, dst_peer_id, current) {
            &&& decision is Err
            &&& decision->Err_0 == RelayError::AuthorityChangedBeforeEncryption
        } else {
            &&& decision matches Ok(BatchDecision::Encrypt { items: same, session: under })
            &&& same == items
            &&& under == session->Ok_0
        }
    }
}

impl RelayPeer {
    /// Takes a batch for sending: it goes out as it is, waits, or needs a
    /// session.
    pub fn admit_batch(
        &mut self,
        budget: &mut RelayBudget,
        batch: Vec<Packet>,
        dst_peer_id: PeerId,
        policy: NextHopPolicy,
        provided: Option<FullEthernetAuthorizationToken>,
        fresh: FullEthernetAuthorizationToken,
        current: &Vec<u64>,
        now_ms: u64,
    ) -> (decision: Result<BatchDecision, RelayError>)
        requires
            old(self).send is Some ==> old(self).send->0.wf(),
        ensures
            final(self).send is Some ==> final(self).send->0.wf(),
            batch_admitted(
                *old(self),
                *old(budget),
                batch@,
                dst_peer_id,
                policy,
                provided,
                fresh,
                current@,
                now_ms,
                decision,
                *final(self),
                *final(budget),
            ),
    {
        if batch.len() == 0 {
            return Ok(BatchDecision::Nothing);
        }
        let first = match batch[0].header {
            Some(header) => header,
            None => {
                return Err(RelayError::NoHeader);
            },
        };
        if !batch_is_alike(&batch) {
            return Err(RelayError::MixedBatch);
        }
        if first.is_encrypted() || is_handshake_packet_type(first.packet_type) {
            return Ok(BatchDecision::Forward { packets: batch });
        }
        self.touch(now_ms);
        let items = prepare_batch(batch, policy, provided, fresh);
        let ghost prepared = items@;
        assert(all_prepared(prepared, batch@, policy, provided, fresh));
        if !batch_is_authorized(&items, dst_peer_id, current) {
            return Err(RelayError::AuthorityChangedBeforeEncryption);
        }
        match self.send.take() {
            None => Ok(BatchDecision::NeedsSession { items }),
            Some(mut state) => {
                if state.phase == RelaySendPhase::Ready {
                    self.send = Some(state);
                    return Ok(BatchDecision::NeedsSession { items });
                }
                let result = state.enqueue_batch(budget, items);
                self.send = Some(state);
                match result {
                    Err(e) => Err(e),
                    Ok(EnqueueBatchResult::Queued) => Ok(BatchDecision::Queued),
                    Ok(EnqueueBatchResult::Ready { items }) => Ok(
                        BatchDecision::NeedsSession { items },
                    ),
                }
            },
        }
    }

    /// Goes on with a batch that needed a session.
    pub fn admit_batch_with_session(
        &mut self,
        budget: &mut RelayBudget,
        items: Vec<RelayReadyPacket>,
        session: Result<SessionId, RelayError>,
        dst_peer_id: PeerId,
        current: &Vec<u64>,
    ) -> (decision: Result<BatchDecision, RelayError>)
        requires
            old(self).send is Some ==> old(self).send->0.wf(),
        ensures
            final(self).send is Some ==> final(self).send->0.wf(),
            batch_session_found(
                *old(self),
                *old(budget),
                items,
                session,
                dst_peer_id,
                current@,
                decision,
                *final(self),
                *final(budget),
            ),
    {
        let waits = match &self.send {
            Some(state) => state.phase != RelaySendPhase::Ready,
            None => false,
        };
        if session.is_err() || waits {
            self.ensure_send_state(RelaySendPhase::AwaitingSession);
            let mut state = self.send.take().unwrap();
            if session.is_err() {
                state.set_phase(RelaySendPhase::AwaitingSession);
            }
            let ghost before = state;
            let ghost checked = before.enqueue_batch_check(*budget, items@);
            let result = state.enqueue_batch(budget, items);
            self.send = Some(state);
            return match result {
                Err(e) => Err(e),
                Ok(EnqueueBatchResult::Queued) => Ok(BatchDecision::Queued),
                Ok(EnqueueBatchResult::Ready { items: _ }) => Err(RelayError::ReadyBeforeSession),
            };
        }
        if !batch_is_authorized(&items, dst_peer_id, current) {
            return Err(RelayError::AuthorityChangedBeforeEncryption);
        }
        match session {
            Ok(session) => Ok(BatchDecision::Encrypt { items, session }),
            Err(e) => Err(e),
        }
    }
}

/// Checks the authority of a batch once more, right before it is sent.
pub fn batch_authority_before_send(
    items: &Vec<RelayReadyPacket>,
    dst_peer_id: PeerId,
    current: &Vec<u64>,
) -> (checked: Result<(), RelayError>)
    ensures
        checked == (if batch_authorized(items@, dst_peer_id, current@) {
            Ok::<(), RelayError>(())
        } else {
            Err(RelayError::AuthorityChangedBeforeSend)
        }),
{
    if batch_is_authorized(items, dst_peer_id, current) {
        Ok(())
    } else {
        Err(RelayError::AuthorityChangedBeforeSend)
    }
}

/// Whether queued packets may go out.
#[derive(Clone, Copy, Debug, PartialEq, Eq, Structural)]
pub enum FlushStart {
    /// The session is not ready for them.
    NotYet,
    /// Nothing waits.
    Ready,
    Drain,
}

/// What goes out next.
pub enum FlushGroup {
    /// Nothing waits any more.
    Done,
    /// Packets are in flight that this drain has not taken.
    Stalled,
    /// The authority of some packets has ended: they were dropped.
    Dropped,
    /// These packets go out together.
    Send { pending: Vec<RelayQueuedPacket> },
}

/// Whether every complete Ethernet packet of a group may go to its destination.
pub open spec fn group_authorized(group: Seq<RelayQueuedPacket>, dst_peer_id: PeerId, current: Seq<u64>) -> bool {
    forall|i: int|
        0 <= i < group.len() && (#[trigger] group[i]).packet@.has_type(PACKET_ETHERNET)
            ==> crate::relay_send::token_current(group[i].authorization, dst_peer_id, current)
}

fn group_is_authorized(group: &Vec<RelayQueuedPacket>, dst_peer_id: PeerId, current: &Vec<u64>) -> (authorized:
    bool)
    ensures
        authorized == group_authorized(group@, dst_peer_id, current@),
{
    let mut i: usize = 0;
    while i < group.len()
        invariant
            i <= group@.len(),
            forall|k: int|
                0 <= k < i && (#[trigger] group@[k]).packet@.has_type(PACKET_ETHERNET)
                    ==> crate::relay_send::token_current(
                    group@[k].authorization,
                    dst_peer_id,
                    current@,
                ),
        decreases group@.len() - i,
    {
        let ethernet = match group[i].packet.header {
            Some(header) => header.packet_type == PACKET_ETHERNET,
            None => false,
        };
        if ethernet && !full_ethernet_authorization_is_current(
            group[i].authorization,
            dst_peer_id,
            current,
        ) {
            assert(group@[i as int].packet@.has_type(PACKET_ETHERNET));
            return false;
        }
        i = i + 1;
    }
    true
}

/// Copies of the packets of a group, to be sealed.
pub fn group_packets(group: &Vec<RelayQueuedPacket>) -> (packets: Vec<Packet>)
    ensures
        packets@.len() == group@.len(),
        forall|i: int| 0 <= i < packets@.len() ==> (#[trigger] packets@[i])@ == group@[i].packet@,
{
    let mut packets: Vec<Packet> = Vec::new();
    let mut i: usize = 0;
    while i < group.len()
        invariant
            i <= group@.len(),
            packets@.len() == i,
            forall|k: int| 0 <= k < i ==> (#[trigger] packets@[k])@ == group@[k].packet@,
        decreases group@.len() - i,
    {
        packets.push(group[i].packet.duplicate());
        i = i + 1;
    }
    packets
}

/// What taking the next group of a queue gives and changes.
pub open spec fn drain_step(
    state: RelaySendState,
    budget: RelayBudget,
    dst_peer_id: PeerId,
    current: Seq<u64>,
    group: FlushGroup,
    after: RelaySendState,
    budget_after: RelayBudget,
) -> bool {
    let q = state.packets@;
    if q.len() == 0 {
        if state.in_flight == 0 {
            &&& group is Done
            &&& after == (RelaySendState {
                phase: RelaySendPhase::Ready,
                retry_attempt: 0,
                ..state
            })
            &&& budget_after == budget
        } else {
            group is Stalled && after == state && budget_after == budget
        }
    } else {
        exists|k: int|
            {
                let taken = q.take(k);
                &&& #[trigger] state.run_length(MAX_PACKET_BATCH_SIZE as int, k)
                &&& k > 0
                &&& after.packets@ == q.skip(k)
                &&& after.same_but_queue(state)
                &&& if group_authorized(taken, dst_peer_id, current) {
                    &&& group matches FlushGroup::Send { pending }
                    &&& pending@ == taken
                    &&& after.in_flight == state.in_flight + k
                    &&& after.in_flight_bytes == state.in_flight_bytes
                        + crate::relay_queue::charges(taken)
                    &&& after.queued_bytes == state.queued_bytes
                    &&& budget_after == budget
                } else {
                    &&& group is Dropped
                    &&& after.in_flight == state.in_flight
                    &&& after.in_flight_bytes == state.in_flight_bytes
                    &&& after.queued_bytes == state.queued_bytes - crate::relay_queue::charges(
                        taken,
                    )
                    &&& budget_after == budget.released(
                        crate::relay_queue::charges(taken) as int,
                        k,
                    )
                }
            }
    }
}

impl RelaySendState {
    /// Takes the next group of packets that go out together.
    pub fn flush_next(&mut self, budget: &mut RelayBudget, dst_peer_id: PeerId, current: &Vec<u64>) -> (group:
        FlushGroup)
        requires
            old(self).wf(),
        ensures
            final(self).wf(),
            drain_step(
                *old(self),
                *old(budget),
                dst_peer_id,
                current@,
                group,
                *final(self),
                *final(budget),
            ),
    {
        match self.pop_batch_for_send(MAX_PACKET_BATCH_SIZE) {
            None => {
                if self.finish_draining() {
                    self.retry_attempt = 0;
                    FlushGroup::Done
                } else {
                    FlushGroup::Stalled
                }
            },
            Some(pending) => {
                let ghost k = pending@.len() as int;
                assert(old(self).run_length(MAX_PACKET_BATCH_SIZE as int, k));
                if !group_is_authorized(&pending, dst_peer_id, current) {
                    let bytes: usize = batch_bytes(&pending);
                    self.complete_send_batch(budget, bytes, pending.len());
                    return FlushGroup::Dropped;
                }
                FlushGroup::Send { pending }
            },
        }
    }

    /// Checks the authority of a group once more. A group whose authority has
    /// ended is dropped.
    pub fn flush_recheck(
        &mut self,
        budget: &mut RelayBudget,
        pending: &Vec<RelayQueuedPacket>,
        dst_peer_id: PeerId,
        current: &Vec<u64>,
    ) -> (authorized: bool)
        requires
            old(self).wf(),
        ensures
            final(self).wf(),
            authorized == group_authorized(pending@, dst_peer_id, current@),
            authorized ==> *final(self) == *old(self) && *final(budget) == *old(budget),
            !authorized ==> group_left(*old(self), *old(budget), pending@, *final(self), *final(budget)),
    {
        if group_is_authorized(pending, dst_peer_id, current) {
            return true;
        }
        self.flush_sent(budget, pending);
        false
    }

    /// Ends a group that went out.
    pub fn flush_sent(&mut self, budget: &mut RelayBudget, pending: &Vec<RelayQueuedPacket>)
        requires
            old(self).wf(),
        ensures
            final(self).wf(),
            group_left(*old(self), *old(budget), pending@, *final(self), *final(budget)),
    {
        let bytes: usize = batch_bytes(pending);
        self.complete_send_batch(budget, bytes, pending.len());
    }

    /// Takes a group back that could not be sealed or sent.
    pub fn flush_failed(&mut self, pending: Vec<RelayQueuedPacket>, session_is_valid: bool)
        requires
            old(self).wf(),
        ensures
            final(self).wf(),
            final(self).phase == (if session_is_valid {
                old(self).phase
            } else {
                RelaySendPhase::AwaitingSession
            }),
            ({
                let after = RelaySendState { phase: old(self).phase, ..*final(self) };
                if old(self).counts_in_flight(pending@) {
                    &&& after.packets@ == pending@ + old(self).packets@
                    &&& after.in_flight == old(self).in_flight - pending@.len()
                    &&& after.in_flight_bytes == old(self).in_flight_bytes
                        - crate::relay_queue::charges(pending@)
                    &&& after.queued_bytes == old(self).queued_bytes
                    &&& after.same_but_queue(*old(self))
                } else {
                    after == *old(self)
                }
            }),
    {
        self.requeue_failed_batch(pending);
        if !session_is_valid {
            self.set_phase(RelaySendPhase::AwaitingSession);
        }
    }

    /// Plans another attempt at letting queued packets go: how long to wait for
    /// it. After too many a new session is needed.
    pub fn schedule_flush_retry(&mut self) -> (wait_ms: Option<u64>)
        requires
            old(self).wf(),
        ensures
            final(self).wf(),
            ({
                let idle = old(self).closed || old(self).retry_scheduled;
                let spent = old(self).retry_attempt >= RELAY_FLUSH_RETRY_MAX_ATTEMPTS;
                &&& wait_ms == (if idle || spent {
                    None
                } else {
                    Some(flush_delay(old(self).retry_attempt))
                })
                &&& *final(self) == (if idle {
                    *old(self)
                } else if spent {
                    RelaySendState {
                        retry_attempt: next_attempt(old(self).retry_attempt),
                        phase: RelaySendPhase::AwaitingSession,
                        ..*old(self)
                    }
                } else {
                    RelaySendState {
                        retry_attempt: next_attempt(old(self).retry_attempt),
                        retry_scheduled: true,
                        ..*old(self)
                    }
                })
            }),
    {
        if self.closed || self.retry_scheduled {
            return None;
        }
        let attempt: u32 = self.retry_attempt;
        self.retry_attempt = attempt.wrapping_add(1);
        if attempt >= RELAY_FLUSH_RETRY_MAX_ATTEMPTS {
            self.phase = RelaySendPhase::AwaitingSession;
            return None;
        }
        self.retry_scheduled = true;
        let wait_ms: u64 = if attempt == 0 {
            HANDSHAKE_CONFIRM_RETRY_MS
        } else if attempt == 1 {
            HANDSHAKE_CONFIRM_RETRY_MS * 2
        } else if attempt == 2 {
            HANDSHAKE_CONFIRM_RETRY_MS * 4
        } else if attempt == 3 {
            HANDSHAKE_CONFIRM_RETRY_MS * 8
        } else {
            HANDSHAKE_CONFIRM_RETRY_MS * 16
        };
        Some(wait_ms)
    }

    /// What a planned attempt does when its time has come.
    pub fn flush_retry_due(&mut self) -> (next: FlushRetry)
        requires
            old(self).wf(),
        ensures
            final(self).wf(),
            *final(self) == (RelaySendState { retry_scheduled: false, ..*old(self) }),
            next == (match old(self).phase {
                RelaySendPhase::AwaitingSession => FlushRetry::EnsureSession,
                RelaySendPhase::Draining => FlushRetry::Flush,
                _ => FlushRetry::Nothing,
            }),
    {
        self.retry_scheduled = false;
        match self.phase {
            RelaySendPhase::AwaitingSession => FlushRetry::EnsureSession,
            RelaySendPhase::Draining => FlushRetry::Flush,
            _ => FlushRetry::Nothing,
        }
    }
}

#[derive(Clone, Copy, Debug, PartialEq, Eq, Structural)]
pub enum FlushRetry {
    Nothing,
    EnsureSession,
    Flush,
}

pub open spec fn next_attempt(attempt: u32) -> u32 {
    if attempt == u32::MAX {
        0
    } else {
        (attempt + 1) as u32
    }
}

/// The wait before an attempt: twice as long each time, up to a bound.
pub open spec fn flush_delay(attempt: u32) -> u64 {
    if attempt == 0 {
        200
    } else if attempt == 1 {
        400
    } else if attempt == 2 {
        800
    } else if attempt == 3 {
        1_600
    } else {
        3_200
    }
}

/// The state after a group left the queue for good: what is still counted of it
/// is given back.
pub open spec fn group_left(
    state: RelaySendState,
    budget: RelayBudget,
    group: Seq<RelayQueuedPacket>,
    after: RelaySendState,
    budget_after: RelayBudget,
) -> bool {
    let bytes = crate::relay_queue::charges(group);
    let done = if group.len() < state.in_flight {
        group.len() as int
    } else {
        state.in_flight as int
    };
    let gone = if bytes < state.in_flight_bytes {
        bytes as int
    } else {
        state.in_flight_bytes as int
    };
    &&& after == (RelaySendState {
        in_flight: (state.in_flight - done) as usize,
        in_flight_bytes: (state.in_flight_bytes - gone) as usize,
        queued_bytes: (state.queued_bytes - gone) as usize,
        ..state
    })
    &&& budget_after == budget.released(gone, done)
}

impl RelayPeer {
    /// Decides whether queued packets may go out.
    pub fn flush_begin(&mut self) -> (start: FlushStart)
        requires
            old(self).send is Some ==> old(self).send->0.wf(),
        ensures
            final(self).send is Some,
            final(self).send->0.wf(),
            *final(self) == (RelayPeer { send: final(self).send, ..*old(self) }),
            match old(self).send {
                None => {
                    &&& start == FlushStart::NotYet
                    &&& crate::relay_peer::fresh_send_state(
                        final(self).send->0,
                        RelaySendPhase::AwaitingSession,
                    )
                },
                Some(state) => if state.closed || state.phase == RelaySendPhase::AwaitingSession
                    || state.phase == RelaySendPhase::Confirming {
                    start == FlushStart::NotYet && final(self).send == old(self).send
                } else if state.packets@.len() == 0 && state.in_flight == 0 {
                    &&& start == FlushStart::Ready
                    &&& final(self).send == Some(
                        RelaySendState { phase: RelaySendPhase::Ready, ..state },
                    )
                } else {
                    &&& start == FlushStart::Drain
                    &&& final(self).send == Some(
                        RelaySendState { phase: RelaySendPhase::Draining, ..state },
                    )
                },
            },
    {
        self.ensure_send_state(RelaySendPhase::AwaitingSession);
        let mut state = self.send.take().unwrap();
        if state.closed || state.phase == RelaySendPhase::AwaitingSession || state.phase
            == RelaySendPhase::Confirming {
            self.send = Some(state);
            return FlushStart::NotYet;
        }
        state.set_phase(RelaySendPhase::Draining);
        let finished = state.finish_draining();
        self.send = Some(state);
        if finished {
            FlushStart::Ready
        } else {
            FlushStart::Drain
        }
    }

    /// The session under which queued packets may go out right away, if they
    /// may.
    pub fn flush_session(&self, store: &mut PeerSessionStore, key: &SessionKey, now_ms: u64) -> (session:
        Option<SessionId>)
        requires
            old(store).wf(),
        ensures
            final(store).wf(),
            final(store)@ == old(store)@.after_get(key@, now_ms),
            session == (if self.phase_is(RelaySendPhase::Draining) {
                old(store)@.published(key@)
            } else {
                None
            }),
    {
        let session = store.get(key, now_ms);
        match &self.send {
            Some(state) => {
                if state.phase == RelaySendPhase::Draining {
                    session
                } else {
                    None
                }
            },
            None => None,
        }
    }

    pub fn pending_packet_count(&self) -> (count: usize)
        requires
            self.send is Some ==> self.send->0.wf(),
        ensures
            count == (match self.send {
                Some(state) => state.packets@.len() + state.in_flight,
                None => 0,
            }),
    {
        match &self.send {
            Some(state) => state.packet_count(),
            None => 0,
        }
    }

    /// Queues a packet without looking for a session.
    pub fn buffer_pending_packet(
        &mut self,
        budget: &mut RelayBudget,
        packet: Packet,
        policy: NextHopPolicy,
        fresh: FullEthernetAuthorizationToken,
    ) -> (buffered: Result<(), RelayError>)
        requires
            old(self).send is Some ==> old(self).send->0.wf(),
        ensures
            final(self).send is Some,
            final(self).send->0.wf(),
            *final(self) == (RelayPeer { send: final(self).send, ..*old(self) }),
            exists|state: RelaySendState, item: RelayReadyPacket|
                {
                    &&& old(self).send is Some ==> state == old(self).send->0
                    &&& old(self).send is None ==> crate::relay_peer::fresh_send_state(
                        state,
                        RelaySendPhase::AwaitingSession,
                    )
                    &&& crate::relay_send::prepared_as(
                        item,
                        packet@,
                        policy,
                        crate::relay_send::token_for(packet@, None, fresh),
                    )
                    &&& match #[trigger] state.enqueue_check(*old(budget), item) {
                        Err(e) => {
                            &&& buffered == Err::<(), RelayError>(e)
                            &&& final(self).send == Some(state)
                            &&& *final(budget) == *old(budget)
                        },
                        Ok(false) => {
                            &&& buffered == Ok::<(), RelayError>(())
                            &&& final(self).send == Some(state)
                            &&& *final(budget) == *old(budget)
                        },
                        Ok(true) => {
                            &&& buffered == Ok::<(), RelayError>(())
                            &&& crate::relay_send::queued_up(
                                state,
                                *old(budget),
                                item,
                                final(self).send->0,
                                *final(budget),
                            )
                        },
                    }
                },
    {
        self.ensure_send_state(RelaySendPhase::AwaitingSession);
        let mut state = self.send.take().unwrap();
        let authorization = packet_authorization_token(&packet, None, fresh);
        let item = RelayReadyPacket { packet, policy, authorization };
        let ghost before = state;
        let ghost checked = before.enqueue_check(*budget, item);
        let result = state.enqueue(budget, item);
        self.send = Some(state);
        match result {
            Ok(_) => Ok(()),
            Err(e) => Err(e),
        }
    }
}

/// A drain ends: every step that does not end it takes packets off the queue.
pub proof fn lemma_drain_makes_progress(
    state: RelaySendState,
    budget: RelayBudget,
    dst_peer_id: PeerId,
    current: Seq<u64>,
    group: FlushGroup,
    after: RelaySendState,
    budget_after: RelayBudget,
)
    requires
        drain_step(state, budget, dst_peer_id, current, group, after, budget_after),
        !(group is Done),
        !(group is Stalled),
    ensures
        after.packets@.len() < state.packets@.len(),
{
}

} // verus!
