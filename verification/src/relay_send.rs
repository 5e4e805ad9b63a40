//! Sending over relay sessions.

use vstd::prelude::*;
use crate::packet::{Packet, PacketModel, PeerId, PACKET_ETHERNET};
use crate::relay_peer::RelayPeer;
use crate::relay_queue::{
    EnqueueResult, FullEthernetAuthorizationToken, RelayBudget, RelayReadyPacket, RelaySendPhase,
    RelaySendState,
};
use crate::relay_wire::{attach_relay_origin_proof, is_handshake_packet_type, RelayError};
use crate::route_trait::NextHopPolicy;
use crate::session_store::SessionId;

verus! {

/// Whether an authority to send complete Ethernet packets holds for a
/// destination. `current` names the descriptors that still hold there.
pub open spec fn token_current(
    token: Option<FullEthernetAuthorizationToken>,
    dst_peer_id: PeerId,
    current: Seq<u64>,
) -> bool {
    token matches Some(t) && t.destination_peer_id == dst_peer_id && current.contains(t.descriptor)
}

pub fn full_ethernet_authorization_is_current(
    token: Option<FullEthernetAuthorizationToken>,
    dst_peer_id: PeerId,
    current: &Vec<u64>,
) -> (is: bool)
    ensures
        is == token_current(token, dst_peer_id, current@),
{
    let held = match token {
        Some(held) => held,
        None => {
            return false;
        },
    };
    if held.destination_peer_id != dst_peer_id {
        return false;
    }
    let mut i: usize = 0;
    while i < current.len()
        invariant
            token == Some(held),
            held.destination_peer_id == dst_peer_id,
            i <= current@.len(),
            forall|k: int| 0 <= k < i ==> current@[k] != held.descriptor,
        decreases current@.len() - i,
    {
        if current[i] == held.descriptor {
            return true;
        }
        i = i + 1;
    }
    false
}

/// The authority that a packet is queued with: only complete Ethernet has one.
pub open spec fn token_for(
    packet: PacketModel,
    provided: Option<FullEthernetAuthorizationToken>,
    fresh: FullEthernetAuthorizationToken,
) -> Option<FullEthernetAuthorizationToken> {
    if packet.has_type(PACKET_ETHERNET) {
        match provided {
            Some(token) => Some(token),
            None => Some(fresh),
        }
    } else {
        None
    }
}

pub fn packet_authorization_token(
    packet: &Packet,
    provided: Option<FullEthernetAuthorizationToken>,
    fresh: FullEthernetAuthorizationToken,
) -> (token: Option<FullEthernetAuthorizationToken>)
    ensures
        token == token_for(packet@, provided, fresh),
{
    match packet.header {
        Some(header) => {
            if header.packet_type == PACKET_ETHERNET {
                if provided.is_some() {
                    provided
                } else {
                    Some(fresh)
                }
            } else {
                None
            }
        },
        None => None,
    }
}

/// What becomes of a packet that is to be sent.
pub enum SendDecision {
    /// It goes out as it is.
    Forward { packet: Packet },
    /// It waits for a session.
    Queued,
    /// It needs a session.
    NeedsSession { item: RelayReadyPacket },
    /// It is sealed under a session and goes out.
    Encrypt { item: RelayReadyPacket, session: SessionId },
}

/// Whether a packet goes out as it is.
pub open spec fn forwards(packet: PacketModel) -> bool {
    packet.header matches Some(header) && (header.encrypted()
        || crate::relay_wire::is_handshake_type(header.packet_type))
}

/// The effect of queueing a packet.
pub open spec fn queued_up(
    before: RelaySendState,
    budget: RelayBudget,
    item: RelayReadyPacket,
    after: RelaySendState,
    budget_after: RelayBudget,
) -> bool {
    &&& after.packets@ == before.packets@.push(item.queued())
    &&& after.same_but_queue(before)
    &&& after.in_flight == before.in_flight
    &&& after.in_flight_bytes == before.in_flight_bytes
    &&& budget_after == budget.charged(item.charge() as int, 1)
}

/// A packet as it was prepared for sending.
pub open spec fn prepared_as(
    item: RelayReadyPacket,
    packet: PacketModel,
    policy: NextHopPolicy,
    token: Option<FullEthernetAuthorizationToken>,
) -> bool {
    item.packet@ == packet && item.policy == policy && item.authorization == token
}

/// The peer with another send state, active now.
pub open spec fn active_with(peer: RelayPeer, send: Option<RelaySendState>, now_ms: u64) -> RelayPeer {
    RelayPeer {
        send,
        state: Some(
            crate::relay_peer::RelayPeerState {
                last_active_at: now_ms,
                ..peer.state_or_new(now_ms)
            },
        ),
        ..peer
    }
}

/// What handing a packet over for sending gives and changes.
pub open spec fn message_admitted(
    peer: RelayPeer,
    budget: RelayBudget,
    packet: PacketModel,
    dst_peer_id: PeerId,
    policy: NextHopPolicy,
    provided: Option<FullEthernetAuthorizationToken>,
    fresh: FullEthernetAuthorizationToken,
    current: Seq<u64>,
    now_ms: u64,
    decision: Result<SendDecision, RelayError>,
    peer_after: RelayPeer,
    budget_after: RelayBudget,
) -> bool {
    let sealed = crate::relay_wire::proven(packet);
    let token = token_for(packet, provided, fresh);
    if packet.header is None {
        &&& decision is Err
        &&& decision->Err_0 == RelayError::NoHeader
        &&& peer_after == peer
        &&& budget_after == budget
    } else if forwards(packet) {
        &&& decision matches Ok(SendDecision::Forward { packet: same }) && same@ == packet
        &&& peer_after == peer
        &&& budget_after == budget
    } else if packet.has_type(PACKET_ETHERNET) && !token_current(token, dst_peer_id, current) {
        &&& decision is Err
        &&& decision->Err_0 == RelayError::AuthorityChangedBeforeEncryption
        &&& peer_after == active_with(peer, peer.send, now_ms)
        &&& budget_after == budget
    } else if peer.send is None || peer.phase_is(RelaySendPhase::Ready) {
        &&& decision matches Ok(SendDecision::NeedsSession { item })
        &&& prepared_as(item, sealed, policy, token)
        &&& peer_after == active_with(peer, peer.send, now_ms)
        &&& budget_after == budget
    } else {
        exists|item: RelayReadyPacket|
            {
                &&& prepared_as(item, sealed, policy, token)
                &&& peer_after == active_with(peer, peer_after.send, now_ms)
                &&& match #[trigger] peer.send->0.enqueue_check(budget, item) {
                    Err(e) => {
                        &&& decision is Err
                        &&& decision->Err_0 == e
                        &&& peer_after.send == peer.send
                        &&& budget_after == budget
                    },
                    Ok(_) => {
                        &&& decision matches Ok(SendDecision::Queued)
                        &&& peer_after.send is Some
                        &&& queued_up(peer.send->0, budget, item, peer_after.send->0, budget_after)
                    },
                }
            }
    }
}

impl RelayPeer {
    /// Takes a packet for sending: it goes out as it is, waits, or needs a
    /// session.
    pub fn admit_message(
        &mut self,
        budget: &mut RelayBudget,
        packet: Packet,
        dst_peer_id: PeerId,
        policy: NextHopPolicy,
        provided: Option<FullEthernetAuthorizationToken>,
        fresh: FullEthernetAuthorizationToken,
        current: &Vec<u64>,
        now_ms: u64,
    ) -> (decision: Result<SendDecision, RelayError>)
        requires
            old(self).send is Some ==> old(self).send->0.wf(),
        ensures
            final(self).send is Some ==> final(self).send->0.wf(),
            message_admitted(
                *old(self),
                *old(budget),
                packet@,
                dst_peer_id,
                policy,
                provided,
                fresh,
                current@,
                now_ms,
                decision,
                *final(self),
                *final(budget),
            ),
    {
        let header = match packet.header {
            Some(header) => header,
            None => {
                return Err(RelayError::NoHeader);
            },
        };
        if header.is_encrypted() || is_handshake_packet_type(header.packet_type) {
            return Ok(SendDecision::Forward { packet });
        }
        self.touch(now_ms);
        let mut packet = packet;
        let authorization = packet_authorization_token(&packet, provided, fresh);
        let _ = attach_relay_origin_proof(&mut packet);
        if header.packet_type == PACKET_ETHERNET && !full_ethernet_authorization_is_current(
            authorization,
            dst_peer_id,
            current,
        ) {
            return Err(RelayError::AuthorityChangedBeforeEncryption);
        }
        let item = RelayReadyPacket { packet, policy, authorization };
        match self.send.take() {
            None => Ok(SendDecision::NeedsSession { item }),
            Some(mut state) => {
                if state.phase == RelaySendPhase::Ready {
                    self.send = Some(state);
                    return Ok(SendDecision::NeedsSession { item });
                }
                let ghost before = state;
                let ghost checked = before.enqueue_check(*budget, item);
                let result = state.enqueue(budget, item);
                self.send = Some(state);
                match result {
                    Err(e) => Err(e),
                    Ok(EnqueueResult::Queued) => Ok(SendDecision::Queued),
                    Ok(EnqueueResult::Ready { item }) => Ok(SendDecision::NeedsSession { item }),
                }
            },
        }
    }
}

/// What a packet that needed a session gives and changes once one was looked
/// for.
pub open spec fn session_found(
    peer: RelayPeer,
    budget: RelayBudget,
    item: RelayReadyPacket,
    session: Result<SessionId, RelayError>,
    dst_peer_id: PeerId,
    current: Seq<u64>,
    decision: Result<SendDecision, RelayError>,
    peer_after: RelayPeer,
    budget_after: RelayBudget,
) -> bool {
    let ethernet = item.packet@.has_type(PACKET_ETHERNET);
    &&& peer_after == (RelayPeer { send: peer_after.send, ..peer })
    &&& if session is Err || (peer.send is Some && !peer.phase_is(RelaySendPhase::Ready)) {
        exists|state: RelaySendState|
            {
                &&& peer.send is Some ==> state == peer.send->0
                &&& peer.send is None ==> crate::relay_peer::fresh_send_state(
                    state,
                    RelaySendPhase::AwaitingSession,
                )
                &&& peer_after.send is Some
                &&& match #[trigger] state.enqueue_check(budget, item) {
                    Err(e) => {
                        &&& decision is Err
                        &&& decision->Err_0 == e
                        &&& peer_after.send == Some(state)
                        &&& budget_after == budget
                    },
                    Ok(false) => {
                        &&& decision is Err
                        &&& decision->Err_0 == RelayError::ReadyBeforeSession
                        &&& peer_after.send == Some(state)
                        &&& budget_after == budget
                    },
                    Ok(true) => {
                        &&& decision matches Ok(SendDecision::Queued)
                        &&& queued_up(state, budget, item, peer_after.send->0, budget_after)
                    },
                }
            }
    } else {
        &&& peer_after == peer
        &&& budget_after == budget
        &&& if ethernet && !token_current(item.authorization, dst_peer_id, current) {
            &&& decision is Err
            &&& decision->Err_0 == RelayError::AuthorityChangedBeforeEncryption
        } else {
            &&& decision matches Ok(SendDecision::Encrypt { item: same, session: under })
            &&& same == item
            &&& under == session->Ok_0
        }
    }
}

impl RelayPeer {
    /// Goes on with a packet that needed a session.
    pub fn admit_with_session(
        &mut self,
        budget: &mut RelayBudget,
        item: RelayReadyPacket,
        session: Result<SessionId, RelayError>,
        dst_peer_id: PeerId,
        current: &Vec<u64>,
    ) -> (decision: Result<SendDecision, RelayError>)
        requires
            old(self).send is Some ==> old(self).send->0.wf(),
        ensures
            final(self).send is Some ==> final(self).send->0.wf(),
            session_found(
                *old(self),
                *old(budget),
                item,
                session,
                dst_peer_id,
                current@,
                decision,
                *final(self),
                *final(budget),
            ),
    {
        let waits = match &self.send {
            Some(state) => state.phase != RelaySendPhase::Ready,
            None => false,
        };
        if session.is_err() || waits {
            self.ensure_send_state(RelaySendPhase::AwaitingSession);
            let mut state = self.send.take().unwrap();
            let ghost before = state;
            let ghost checked = before.enqueue_check(*budget, item);
            let result = state.enqueue(budget, item);
            self.send = Some(state);
            return match result {
                Err(e) => Err(e),
                Ok(EnqueueResult::Queued) => Ok(SendDecision::Queued),
                Ok(EnqueueResult::Ready { item: _ }) => Err(RelayError::ReadyBeforeSession),
            };
        }
        let ethernet = match item.packet.header {
            Some(header) => header.packet_type == PACKET_ETHERNET,
            None => false,
        };
        if ethernet && !full_ethernet_authorization_is_current(
            item.authorization,
            dst_peer_id,
            current,
        ) {
            return Err(RelayError::AuthorityChangedBeforeEncryption);
        }
        match session {
            Ok(session) => Ok(SendDecision::Encrypt { item, session }),
            Err(e) => Err(e),
        }
    }
}

/// Checks the authority of a packet once more, right before it is sent.
pub fn authority_before_send(
    packet: &Packet,
    authorization: Option<FullEthernetAuthorizationToken>,
    dst_peer_id: PeerId,
    current: &Vec<u64>,
) -> (checked: Result<(), RelayError>)
    ensures
        checked == (if packet@.has_type(PACKET_ETHERNET) && !token_current(
            authorization,
            dst_peer_id,
            current@,
        ) {
            Err::<(), RelayError>(RelayError::AuthorityChangedBeforeSend)
        } else {
            Ok(())
        }),
{
    let ethernet = match packet.header {
        Some(header) => header.packet_type == PACKET_ETHERNET,
        None => false,
    };
    if ethernet && !full_ethernet_authorization_is_current(authorization, dst_peer_id, current) {
        return Err(RelayError::AuthorityChangedBeforeSend);
    }
    Ok(())
}

/// Where the next hop of a packet leads.
#[derive(Clone, Copy, Debug, PartialEq, Eq, Structural)]
pub enum Delivery {
    /// To a peer that is connected.
    Direct { next_hop: PeerId },
    /// Through the client of another network.
    ForeignClient { next_hop: PeerId },
    /// Wrapped, over the transport to another network.
    ForeignTransport { next_hop: PeerId },
}

/// What is known of the way to a destination.
#[derive(Clone, Copy, Debug, PartialEq, Eq, Structural)]
pub struct Reachability {
    pub has_foreign_transport: bool,
    pub has_foreign_client: bool,
    /// Whether the destination is connected.
    pub destination_is_direct: bool,
    /// Whether the client of another network knows the destination.
    pub destination_is_foreign: bool,
}

/// The next hop towards a destination: one that was selected, else the gateway,
/// else the destination itself where some transport may know it.
pub open spec fn next_hop_of(
    dst_peer_id: PeerId,
    selected: Option<PeerId>,
    gateway: Option<PeerId>,
    ways: Reachability,
) -> Option<PeerId> {
    if selected is Some {
        selected
    } else if gateway is Some {
        gateway
    } else if ways.destination_is_direct || (ways.has_foreign_client
        && ways.destination_is_foreign) || ways.has_foreign_transport {
        Some(dst_peer_id)
    } else {
        None
    }
}

pub fn choose_next_hop(
    dst_peer_id: PeerId,
    selected: Option<PeerId>,
    gateway: Option<PeerId>,
    ways: Reachability,
) -> (next_hop: Result<PeerId, RelayError>)
    ensures
        next_hop == (match next_hop_of(dst_peer_id, selected, gateway, ways) {
            Some(hop) => Ok::<PeerId, RelayError>(hop),
            None => Err(RelayError::NextHopNotFound),
        }),
{
    if let Some(hop) = selected {
        return Ok(hop);
    }
    if let Some(hop) = gateway {
        return Ok(hop);
    }
    if ways.destination_is_direct || (ways.has_foreign_client && ways.destination_is_foreign)
        || ways.has_foreign_transport {
        return Ok(dst_peer_id);
    }
    Err(RelayError::NextHopNotFound)
}

/// Whether a packet is wrapped for another network without looking at routes.
pub open spec fn bypasses_routes(ways: Reachability) -> bool {
    ways.has_foreign_transport && !ways.destination_is_direct
}

/// How a packet reaches its next hop. `next_hop_is_direct` tells whether that
/// hop is connected.
pub fn deliver(
    dst_peer_id: PeerId,
    selected: Option<PeerId>,
    gateway: Option<PeerId>,
    ways: Reachability,
    next_hop_is_direct: bool,
) -> (delivery: Result<Delivery, RelayError>)
    ensures
        delivery == (if bypasses_routes(ways) {
            Ok::<Delivery, RelayError>(Delivery::ForeignTransport { next_hop: dst_peer_id })
        } else {
            match next_hop_of(dst_peer_id, selected, gateway, ways) {
                None => Err(RelayError::NextHopNotFound),
                Some(next_hop) => if next_hop_is_direct {
                    Ok(Delivery::Direct { next_hop })
                } else if ways.has_foreign_client {
                    Ok(Delivery::ForeignClient { next_hop })
                } else if ways.has_foreign_transport {
                    Ok(Delivery::ForeignTransport { next_hop })
                } else {
                    Err(RelayError::NextHopNotDirect)
                },
            }
        }),
{
    if ways.has_foreign_transport && !ways.destination_is_direct {
        return Ok(Delivery::ForeignTransport { next_hop: dst_peer_id });
    }
    let next_hop: PeerId = match choose_next_hop(dst_peer_id, selected, gateway, ways) {
        Ok(hop) => hop,
        Err(e) => {
            return Err(e);
        },
    };
    if next_hop_is_direct {
        Ok(Delivery::Direct { next_hop })
    } else if ways.has_foreign_client {
        Ok(Delivery::ForeignClient { next_hop })
    } else if ways.has_foreign_transport {
        Ok(Delivery::ForeignTransport { next_hop })
    } else {
        Err(RelayError::NextHopNotDirect)
    }
}

/// No packet leaves unsealed unless it is part of a handshake, which protects
/// itself: whatever else is handed over waits or needs a session.
pub proof fn lemma_data_never_leaves_unsealed(
    peer: RelayPeer,
    budget: RelayBudget,
    packet: PacketModel,
    dst_peer_id: PeerId,
    policy: NextHopPolicy,
    provided: Option<FullEthernetAuthorizationToken>,
    fresh: FullEthernetAuthorizationToken,
    current: Seq<u64>,
    now_ms: u64,
    decision: Result<SendDecision, RelayError>,
    peer_after: RelayPeer,
    budget_after: RelayBudget,
)
    requires
        message_admitted(
            peer,
            budget,
            packet,
            dst_peer_id,
            policy,
            provided,
            fresh,
            current,
            now_ms,
            decision,
            peer_after,
            budget_after,
        ),
        decision matches Ok(SendDecision::Forward { .. }),
    ensures
        packet.is_encrypted() || crate::relay_wire::is_handshake_type(
            packet.header->0.packet_type,
        ),
{
}

} // verus!
