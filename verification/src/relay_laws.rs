//! What holds of the relay operations together: which packets wait, in what
//! order and under whose authority they leave, and how long things are
//! remembered.

use crate::packet::{PacketModel, PeerId, SecureAuthLevel, PACKET_ETHERNET};
use crate::peer_session::PeerSessionModel;
use crate::relay_auth::{RelayAuthority, RelaySessionAuthBinding, ValidatedAuthority};
use crate::relay_batch::FlushGroup;
use crate::relay_peer::RelayPeer;
use crate::relay_queue::{
    FullEthernetAuthorizationToken, RelayBudget, RelayQueuedPacket, RelayReadyPacket,
    RelaySendPhase, RelaySendState,
};
use crate::relay_send::{Reachability, SendDecision};
use crate::relay_wire::{RelayConfirmationIdentity, RelayError, RelayReadyReceiptIdentity};
use crate::route_trait::NextHopPolicy;
use crate::session_store::SessionId;
use vstd::prelude::*;

verus! {

/// A packet waits if and only if its peer has no session yet, fewer than
/// thirty-two packets wait for the peer, and the packet with its overhead stays
/// within the bytes of the peer, of the process and of the memory.
pub proof fn lemma_packets_wait_within_the_limits(
    state: RelaySendState,
    budget: RelayBudget,
    item: RelayReadyPacket,
)
    ensures
        state.enqueue_check(budget, item) == Ok::<bool, RelayError>(true) <==> {
            let size = item.packet@.buf_len() + 128;
            &&& !state.closed
            &&& state.phase != RelaySendPhase::Ready
            &&& state.packets@.len() + state.in_flight < 32
            &&& state.queued_bytes + size <= 262_144
            &&& budget.bytes + size <= 1_048_576
            &&& budget.packets < 4096
            &&& budget.memory_used + size <= budget.memory_limit
        },
        state.enqueue_check(budget, item) == Ok::<bool, RelayError>(false) <==> !state.closed
            && state.phase == RelaySendPhase::Ready,
        state.closed ==> state.enqueue_check(budget, item) == Err::<bool, RelayError>(
            RelayError::QueueClosed,
        ),
        state.enqueue_check(budget, item) == Err::<bool, RelayError>(RelayError::QueueFull) ==>
            state.packets@.len() + state.in_flight >= 32,
{
}

/// A batch of one packet is treated as that packet alone.
pub proof fn lemma_batch_of_one_is_the_packet(
    state: RelaySendState,
    budget: RelayBudget,
    item: RelayReadyPacket,
)
    ensures
        state.enqueue_batch_check(budget, seq![item]) == state.enqueue_check(budget, item),
        crate::relay_queue::queued_all(seq![item]) =~= seq![item.queued()],
        crate::relay_queue::charges(seq![item.queued()]) == item.charge(),
{
    assert(crate::relay_queue::queued_all(seq![item]) =~= seq![item.queued()]);
    assert(seq![item.queued()].drop_last() =~= Seq::<RelayQueuedPacket>::empty());
    assert(crate::relay_queue::charges(Seq::<RelayQueuedPacket>::empty()) == 0);
    assert(crate::relay_queue::charges(seq![item.queued()]) == item.charge());
}

/// A batch that waits would also wait packet by packet: its first packet fits,
/// and the rest fits after it.
pub proof fn lemma_waiting_batch_fits_one_by_one(
    state: RelaySendState,
    budget: RelayBudget,
    first: RelayReadyPacket,
    rest: Seq<RelayReadyPacket>,
    after: RelaySendState,
)
    requires
        state.enqueue_batch_check(budget, seq![first] + rest) == Ok::<bool, RelayError>(true),
        after.same_but_queue(state),
        after.packets@ == state.packets@.push(first.queued()),
        after.in_flight == state.in_flight,
        after.queued_bytes == state.queued_bytes + first.charge(),
    ensures
        state.enqueue_check(budget, first) == Ok::<bool, RelayError>(true),
        after.enqueue_batch_check(budget.charged(first.charge() as int, 1), rest) == Ok::<
            bool,
            RelayError,
        >(true),
{
    let all = crate::relay_queue::queued_all(seq![first] + rest);
    let tail = crate::relay_queue::queued_all(rest);
    assert(all =~= seq![first.queued()] + tail);
    crate::relay_queue::lemma_charges_of_sum(seq![first.queued()], tail);
    lemma_batch_of_one_is_the_packet(state, budget, first);
}

/// The packets that go out together are the longest run at the front that goes
/// the same way; there is always one where anything waits.
pub proof fn lemma_longest_run_goes_out(state: RelaySendState, max: int, k: int)
    requires
        state.run_length(max, k),
        max > 0,
    ensures
        state.packets@.len() > 0 ==> k > 0,
        k <= max,
        forall|i: int, j: int|
            0 <= i < k && 0 <= j < k ==> (#[trigger] state.packets@[i]).policy == (
            #[trigger] state.packets@[j]).policy,
        k < max && k < state.packets@.len() ==> state.packets@[k].policy
            != state.packets@[0].policy,
        forall|other: int| #[trigger] state.run_length(max, other) ==> other == k,
{
    assert forall|other: int| #[trigger] state.run_length(max, other) implies other == k by {
        if other < k {
            assert(state.packets@[other].policy == state.packets@[0].policy);
        }
        if k < other {
            assert(state.packets@[k].policy == state.packets@[0].policy);
        }
    }
}

/// Packets that went out give back to the peer and to the process what they
/// were charged, and nothing else.
pub proof fn lemma_sent_packets_free_their_room(
    state: RelaySendState,
    budget: RelayBudget,
    group: Seq<RelayQueuedPacket>,
    after: RelaySendState,
    budget_after: RelayBudget,
)
    requires
        state.wf(),
        state.counts_in_flight(group),
        budget.bytes >= state.queued_bytes,
        budget.memory_used >= state.queued_bytes,
        budget.packets >= state.in_flight,
        crate::relay_batch::group_left(state, budget, group, after, budget_after),
    ensures
        after.packets@ == state.packets@,
        after.in_flight + group.len() == state.in_flight,
        after.queued_bytes + crate::relay_queue::charges(group) == state.queued_bytes,
        budget_after.bytes + crate::relay_queue::charges(group) == budget.bytes,
        budget_after.memory_used + crate::relay_queue::charges(group) == budget.memory_used,
        budget_after.packets + group.len() == budget.packets,
        budget_after.memory_limit == budget.memory_limit,
        after.wf(),
{
}

/// What a drain takes leaves the queue from the front and in order; nothing is
/// lost, and nothing leaves whose authority has ended.
pub proof fn lemma_drain_sends_in_order(
    state: RelaySendState,
    budget: RelayBudget,
    dst_peer_id: PeerId,
    current: Seq<u64>,
    pending: Vec<RelayQueuedPacket>,
    after: RelaySendState,
    budget_after: RelayBudget,
)
    requires
        crate::relay_batch::drain_step(
            state,
            budget,
            dst_peer_id,
            current,
            FlushGroup::Send { pending },
            after,
            budget_after,
        ),
    ensures
        pending@.len() > 0,
        pending@ + after.packets@ == state.packets@,
        after.in_flight == state.in_flight + pending@.len(),
        budget_after == budget,
        forall|i: int|
            0 <= i < pending@.len() ==> {
                (#[trigger] pending@[i]).packet@.has_type(PACKET_ETHERNET) ==> {
                    &&& pending@[i].authorization is Some
                    &&& pending@[i].authorization->0.destination_peer_id == dst_peer_id
                    &&& current.contains(pending@[i].authorization->0.descriptor)
                }
            },
{
    let q = state.packets@;
    let k = choose|k: int|
        {
            let taken = q.take(k);
            &&& #[trigger] state.run_length(crate::replay_window::MAX_PACKET_BATCH_SIZE as int, k)
            &&& k > 0
            &&& after.packets@ == q.skip(k)
            &&& pending@ == taken
        };
    assert(q.take(k) + q.skip(k) =~= q);
}

/// Packets are dropped from a queue only where one of them is complete Ethernet
/// whose authority has ended. Their room is given back, and what is behind them
/// stays in order.
pub proof fn lemma_only_revoked_packets_are_dropped(
    state: RelaySendState,
    budget: RelayBudget,
    dst_peer_id: PeerId,
    current: Seq<u64>,
    after: RelaySendState,
    budget_after: RelayBudget,
)
    requires
        state.wf(),
        budget.bytes >= state.queued_bytes,
        budget.packets >= state.packets@.len(),
        crate::relay_batch::drain_step(
            state,
            budget,
            dst_peer_id,
            current,
            FlushGroup::Dropped,
            after,
            budget_after,
        ),
    ensures
        ({
            let k = state.packets@.len() - after.packets@.len();
            &&& 0 < k <= state.packets@.len()
            &&& after.packets@ == state.packets@.skip(k)
            &&& after.in_flight == state.in_flight
            &&& exists|i: int|
                0 <= i < k && {
                    &&& (#[trigger] state.packets@[i]).packet@.has_type(PACKET_ETHERNET)
                    &&& !(state.packets@[i].authorization is Some
                        && state.packets@[i].authorization->0.destination_peer_id == dst_peer_id
                        && current.contains(state.packets@[i].authorization->0.descriptor))
                }
            &&& budget_after.bytes - after.queued_bytes == budget.bytes - state.queued_bytes
            &&& budget_after.packets == budget.packets - k
        }),
{
    let q = state.packets@;
    let k = choose|k: int|
        {
            let taken = q.take(k);
            &&& #[trigger] state.run_length(crate::replay_window::MAX_PACKET_BATCH_SIZE as int, k)
            &&& k > 0
            &&& after.packets@ == q.skip(k)
            &&& !crate::relay_batch::group_authorized(taken, dst_peer_id, current)
            &&& after.in_flight == state.in_flight
            &&& after.queued_bytes == state.queued_bytes - crate::relay_queue::charges(taken)
            &&& budget_after == budget.released(crate::relay_queue::charges(taken) as int, k)
        };
    let taken = q.take(k);
    let i = choose|i: int|
        0 <= i < taken.len() && (#[trigger] taken[i]).packet@.has_type(PACKET_ETHERNET)
            && !crate::relay_send::token_current(taken[i].authorization, dst_peer_id, current);
    assert(state.packets@[i] == taken[i]);
    assert(q.take(k) + q.skip(k) =~= q);
    crate::relay_queue::lemma_charges_of_sum(q.take(k), q.skip(k));
}

/// Complete Ethernet whose authority names another destination, or does not
/// hold any more, is refused before it is sealed or queued. Nothing else is
/// refused for its authority.
pub proof fn lemma_revoked_ethernet_is_refused(
    peer: RelayPeer,
    budget: RelayBudget,
    packet: PacketModel,
    dst_peer_id: PeerId,
    policy: NextHopPolicy,
    provided: Option<FullEthernetAuthorizationToken>,
    fresh: FullEthernetAuthorizationToken,
    current: Seq<u64>,
    now_ms: u64,
    decision: Result<SendDecision, RelayError>,
    peer_after: RelayPeer,
    budget_after: RelayBudget,
)
    requires
        crate::relay_send::message_admitted(
            peer,
            budget,
            packet,
            dst_peer_id,
            policy,
            provided,
            fresh,
            current,
            now_ms,
            decision,
            peer_after,
            budget_after,
        ),
        packet.header is Some,
        !packet.is_encrypted(),
    ensures
        ({
            let token = if provided is Some {
                provided->0
            } else {
                fresh
            };
            (decision is Err && decision->Err_0 == RelayError::AuthorityChangedBeforeEncryption)
                <==> packet.header->0.packet_type == PACKET_ETHERNET && !(
            token.destination_peer_id == dst_peer_id && current.contains(token.descriptor))
        }),
        decision is Err ==> peer_after.send == peer.send && budget_after == budget,
{
}

/// A packet is sealed under the session that was found, and as it was handed
/// over. Complete Ethernet is looked at once more before.
pub proof fn lemma_session_seals_what_was_handed_over(
    peer: RelayPeer,
    budget: RelayBudget,
    item: RelayReadyPacket,
    session: SessionId,
    dst_peer_id: PeerId,
    current: Seq<u64>,
    decision: Result<SendDecision, RelayError>,
    peer_after: RelayPeer,
    budget_after: RelayBudget,
)
    requires
        crate::relay_send::session_found(
            peer,
            budget,
            item,
            Ok(session),
            dst_peer_id,
            current,
            decision,
            peer_after,
            budget_after,
        ),
        peer.send is None || peer.send->0.phase == RelaySendPhase::Ready,
    ensures
        peer_after == peer,
        budget_after == budget,
        item.packet@.has_type(PACKET_ETHERNET) && !(item.authorization is Some
            && item.authorization->0.destination_peer_id == dst_peer_id && current.contains(
            item.authorization->0.descriptor,
        )) <==> decision is Err,
        decision is Ok ==> (decision matches Ok(SendDecision::Encrypt { item: same, session: under })
            && same == item && under == session),
{
}

/// A next hop is the selected one, else the gateway, else the destination; the
/// destination is taken only where some transport may know it, and nothing that
/// is connected is ever out of reach.
pub proof fn lemma_next_hop_is_known(
    dst_peer_id: PeerId,
    selected: Option<PeerId>,
    gateway: Option<PeerId>,
    ways: Reachability,
)
    ensures
        ({
            let hop = crate::relay_send::next_hop_of(dst_peer_id, selected, gateway, ways);
            &&& selected is Some ==> hop == selected
            &&& selected is None && gateway is Some ==> hop == gateway
            &&& selected is None && gateway is None && ways.destination_is_direct ==> hop == Some(
                dst_peer_id,
            )
            &&& selected is None && gateway is None && ways.has_foreign_transport ==> hop == Some(
                dst_peer_id,
            )
            &&& selected is None && gateway is None && ways.has_foreign_client
                && ways.destination_is_foreign ==> hop == Some(dst_peer_id)
            &&& hop is None <==> selected is None && gateway is None
                && !ways.destination_is_direct && !ways.has_foreign_transport && !(
            ways.has_foreign_client && ways.destination_is_foreign)
        }),
        crate::relay_send::bypasses_routes(ways) ==> !ways.destination_is_direct,
        ways.has_foreign_transport && !ways.destination_is_direct
            ==> crate::relay_send::bypasses_routes(ways),
{
}

/// The wait before another attempt to send starts at two hundred milliseconds
/// and doubles up to thirty-two hundred.
pub proof fn lemma_flush_delay_doubles(attempt: u32)
    requires
        attempt < u32::MAX,
    ensures
        crate::relay_batch::flush_delay(0) == 200,
        ({
            let now = crate::relay_batch::flush_delay(attempt);
            let next = crate::relay_batch::flush_delay((attempt + 1) as u32);
            &&& 2 * now <= 3_200 ==> next == 2 * now
            &&& 2 * now > 3_200 ==> next == 3_200
        }),
        crate::relay_batch::next_attempt(attempt) == attempt + 1,
{
}

/// After a failed handshake no other is tried for two hundred milliseconds,
/// twice as long after the next failure, and so on; a success ends the wait.
pub proof fn lemma_failures_wait_longer(peer: RelayPeer, attempt: u32, now_ms: u64, at: u64)
    requires
        attempt < 3,
        now_ms + 800 <= u64::MAX,
        peer.state matches Some(state) && state.next_retry_at == Some(
            crate::relay_peer::later(now_ms, crate::relay_peer::handshake_backoff(attempt)),
        ),
    ensures
        attempt == 0 ==> (peer.backoff_active(at) <==> at < now_ms + 200),
        attempt < 2 ==> crate::relay_peer::handshake_backoff((attempt + 1) as u32) == 2
            * crate::relay_peer::handshake_backoff(attempt),
        peer.backoff_active(at) <==> at < now_ms + crate::relay_peer::handshake_backoff(attempt),
        forall|after: RelayPeer|
            (#[trigger] after.state) == Some(RelayPeer::succeeded(now_ms))
                ==> !after.backoff_active(at),
{
}

/// A completed handshake is recognized for one minute, and no longer. The others
/// that were remembered stay so, unless sixty-four are: then the oldest makes
/// room. Nothing else is recognized.
pub proof fn lemma_completed_handshakes_are_remembered(
    before: RelayPeer,
    identity: RelayConfirmationIdentity,
    now_ms: u64,
    after: RelayPeer,
    other: RelayConfirmationIdentity,
    at: u64,
)
    requires
        now_ms + 60_000 <= u64::MAX,
        before.completed@.len() <= 64,
        forall|i: int|
            0 <= i < before.completed@.len() ==> (#[trigger] before.completed@[i]).identity
                != identity,
        other != identity,
        after.completed@ == RelayPeer::completed_with(before.completed@, identity, now_ms),
    ensures
        after.has_completed(identity, at) <==> at < now_ms + 60_000,
        after.has_completed(other, at) ==> before.has_completed(other, at),
        before.has_completed(other, at) && (before.completed@.len() < 64
            || before.completed@[0].identity != other) ==> after.has_completed(other, at),
        after.completed@.len() <= 64,
{
    let n = after.completed@.len() - 1;
    let was = before.completed@;
    let shift = was.len() - n;
    assert(after.completed@[n].identity == identity);
    assert forall|i: int| 0 <= i < n implies #[trigger] after.completed@[i] == was[i + shift] by {}
    if before.has_completed(other, at) && (was.len() < 64 || was[0].identity != other) {
        let i = choose|i: int|
            0 <= i < was.len() && (#[trigger] was[i]).identity == other && was[i].expires_at > at;
        assert(after.completed@[i - shift] == was[i]);
    }
}

/// The same holds of completed receipts.
pub proof fn lemma_completed_receipts_are_remembered(
    before: RelayPeer,
    identity: RelayReadyReceiptIdentity,
    now_ms: u64,
    after: RelayPeer,
    other: RelayReadyReceiptIdentity,
    at: u64,
)
    requires
        now_ms + 60_000 <= u64::MAX,
        before.completed_receipts@.len() <= 64,
        forall|i: int|
            0 <= i < before.completed_receipts@.len() ==> (
            #[trigger] before.completed_receipts@[i]).identity != identity,
        other != identity,
        after.completed_receipts@ == RelayPeer::receipts_with(
            before.completed_receipts@,
            identity,
            now_ms,
        ),
    ensures
        after.has_completed_receipt(identity, at) <==> at < now_ms + 60_000,
        after.has_completed_receipt(other, at) ==> before.has_completed_receipt(other, at),
        before.has_completed_receipt(other, at) && (before.completed_receipts@.len() < 64
            || before.completed_receipts@[0].identity != other) ==> after.has_completed_receipt(
            other,
            at,
        ),
        after.completed_receipts@.len() <= 64,
{
    let n = after.completed_receipts@.len() - 1;
    let was = before.completed_receipts@;
    let shift = was.len() - n;
    assert(after.completed_receipts@[n].identity == identity);
    assert forall|i: int| 0 <= i < n implies #[trigger] after.completed_receipts@[i] == was[i
        + shift] by {}
    if before.has_completed_receipt(other, at) && (was.len() < 64 || was[0].identity != other) {
        let i = choose|i: int|
            0 <= i < was.len() && (#[trigger] was[i]).identity == other && was[i].expires_at > at;
        assert(after.completed_receipts@[i - shift] == was[i]);
    }
}

/// A staged confirmation counts until it expires, and not from then on.
pub proof fn lemma_staged_confirmation_expires(peer: RelayPeer, now_ms: u64)
    ensures
        peer.confirmation is None ==> peer.live_confirmation(now_ms) is None,
        peer.confirmation matches Some(pending) ==> {
            &&& now_ms < pending.expires_at ==> peer.live_confirmation(now_ms) == Some(pending)
            &&& now_ms >= pending.expires_at ==> peer.live_confirmation(now_ms) is None
        },
{
}

/// Giving an answer up that is not the pending one changes nothing. Giving up
/// the pending one keeps every packet that waits.
pub proof fn lemma_giving_up_keeps_the_queue(peer: RelayPeer, expected: Option<u128>)
    ensures
        ({
            let after = peer.canceled_peer(expected);
            &&& peer.responder is None ==> after == peer
            &&& peer.responder is Some && expected is Some && expected->0
                != peer.responder->0.handshake_id ==> after == peer
            &&& expected is None || (peer.responder is Some && expected->0
                == peer.responder->0.handshake_id) ==> after.responder is None
            &&& after.send is Some <==> peer.send is Some
            &&& peer.send is Some ==> {
                &&& after.send->0.packets == peer.send->0.packets
                &&& after.send->0.queued_bytes == peer.send->0.queued_bytes
                &&& after.send->0.in_flight == peer.send->0.in_flight
                &&& after.send->0.closed == peer.send->0.closed
            }
            &&& after.completed == peer.completed
            &&& after.confirmation == peer.confirmation
            &&& after.state == peer.state
        }),
{
}

/// A bound session goes on speaking for its peer exactly as long as the peer's
/// identity, its key and the session stay what they were, and, for complete
/// Ethernet, the same grant to that key lives.
pub proof fn lemma_binding_holds_while_nothing_changes(
    before: RelayAuthority,
    after: RelayAuthority,
    peer_id: PeerId,
    session: PeerSessionModel,
    later: PeerSessionModel,
    requires_bridge_grant: bool,
)
    requires
        before.binding(peer_id, session) is Ok,
    ensures
        after.binding_check(
            peer_id,
            later,
            requires_bridge_grant,
            Some(before.binding(peer_id, session)->Ok_0),
        ) is Ok <==> {
            &&& after.generic is Some
            &&& after.generic->0.revision == before.generic->0.revision
            &&& after.generic->0.noise_static_pubkey == before.generic->0.noise_static_pubkey
            &&& later.metadata_session_id == session.metadata_session_id
            &&& later.peer_static_pubkey == session.peer_static_pubkey
            &&& requires_bridge_grant ==> {
                &&& before.bridge is Some && before.bridge->0.live
                &&& after.bridge is Some && after.bridge->0.live
                &&& after.bridge->0.revision == before.bridge->0.revision
                &&& Some(after.bridge->0.noise_static_pubkey) == session.peer_static_pubkey
            }
        },
        session.peer_static_pubkey is Some,
        before.generic is Some,
        Some(before.generic->0.noise_static_pubkey) == session.peer_static_pubkey,
        after.binding_check(peer_id, later, requires_bridge_grant, None) is Err,
{
}

/// A session can be bound if and only if it was made with the key that the peer
/// is known by.
pub proof fn lemma_sessions_are_bound_to_their_key(
    authority: RelayAuthority,
    peer_id: PeerId,
    session: PeerSessionModel,
)
    ensures
        authority.binding(peer_id, session) is Ok <==> authority.generic is Some
            && session.peer_static_pubkey == Some(authority.generic->0.noise_static_pubkey),
        authority.binding(peer_id, session) matches Ok(bound) ==> {
            &&& bound.peer_id == peer_id
            &&& bound.metadata_session_id == session.metadata_session_id
            &&& Some(bound.noise_static_pubkey) == session.peer_static_pubkey
        },
{
}

/// The grant that a binding was made under is the only one that it holds for.
pub proof fn lemma_grant_belongs_to_its_binding(
    authority: RelayAuthority,
    key: crate::bytes::Key32,
    binding: RelaySessionAuthBinding,
)
    ensures
        authority.bridge_valid(key, Some(binding)) <==> {
            &&& authority.bridge is Some
            &&& authority.bridge->0.live
            &&& authority.bridge->0.noise_static_pubkey == key
            &&& binding.bridge_revision == Some(authority.bridge->0.revision)
        },
        !authority.bridge_valid(key, None),
{
}

/// Complete Ethernet is taken only from an administrator of the network, under
/// the identity and the session that it was verified with, and, where it is not
/// made of IP packets alone, under a live grant to the same key.
pub proof fn lemma_ethernet_needs_an_administrator(
    packet: PacketModel,
    peer_id: PeerId,
    binding: Option<RelaySessionAuthBinding>,
    authority: RelayAuthority,
)
    requires
        crate::relay_auth::ethernet_authorized(packet, peer_id, binding, authority),
    ensures
        packet.header is Some,
        packet.header->0.from_peer_id == peer_id,
        packet.header->0.packet_type == PACKET_ETHERNET,
        packet.verified_origin is Some,
        packet.verified_origin->0.peer_id == peer_id,
        packet.verified_origin->0.identity_type == crate::packet::PeerIdentityType::Admin,
        packet.verified_origin->0.secure_auth_level == SecureAuthLevel::PeerVerified,
        binding is Some,
        packet.verified_origin->0.session_id == binding->0.metadata_session_id,
        authority.generic is Some,
        authority.generic->0.identity_type == crate::packet::PeerIdentityType::Admin,
        authority.generic->0.secure_auth_level != SecureAuthLevel::EncryptedUnauthenticated,
        authority.generic->0.noise_static_pubkey == binding->0.noise_static_pubkey,
        binding->0.generic_revision == Some(authority.generic->0.revision),
        !packet.header->0.hybrid() ==> {
            &&& authority.bridge is Some
            &&& authority.bridge->0.live
            &&& authority.bridge->0.noise_static_pubkey == binding->0.noise_static_pubkey
            &&& binding->0.bridge_revision == Some(authority.bridge->0.revision)
        },
{
}

/// What a relay session tells of its origin is that the peer was verified, or
/// nothing: it is verified where the identity is, or where a grant lives.
pub proof fn lemma_relayed_origin_is_verified_or_not(authority: ValidatedAuthority)
    ensures
        crate::relay_auth::relayed_level(authority) == SecureAuthLevel::PeerVerified
            || crate::relay_auth::relayed_level(authority)
            == SecureAuthLevel::EncryptedUnauthenticated,
        crate::relay_auth::relayed_level(authority) == SecureAuthLevel::PeerVerified <==> (
        authority.bridge is Some || authority.generic.secure_auth_level
            == SecureAuthLevel::PeerVerified || authority.generic.secure_auth_level
            == SecureAuthLevel::NetworkSecretConfirmed),
{
}

} // verus!
