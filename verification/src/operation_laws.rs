//! What holds of calls, one by one and one after the other: what a call leaves
//! for the next one to find.

use crate::bytes::Key32;
use crate::datagram_replay::{ReplayContext, ReplayState, SecureDatagramDirection};
use crate::forwarding_snapshot::ForwardingDecisionSnapshot;
use crate::initiator_store::InitiatorSessionReservation;
use crate::packet::{Packet, PeerId, SecureAuthLevel};
use crate::peer_session::PeerSession;
use crate::probe_budget::{ProbeBudget, ProbeReservation};
use crate::probe_wire::ProbeAck;
use crate::publish_hook::ForwardingSnapshotPublishHook;
use crate::receiver_pacing::{PacerUpdate, ReceiverPacer, ReceiverPressureReport};
use crate::relay_peer::{PendingConfirmationAck, RelayOutcome, RelayPeer};
use crate::relay_queue::{
    EnqueueResult, RelayBudget, RelayQueuedPacket, RelayReadyPacket, RelaySendPhase, RelaySendState,
};
use crate::relay_send::{Delivery, Reachability};
use crate::relay_wire::{RelayConfirmationIdentity, RelayError};
use crate::route_trait::{AuthenticatedRoutePeerEvidence, BridgeRoutePeerEvidence};
use crate::secure_datagram::{CipherRequest, DatagramError, KeyDomain, SecureDatagramSession};
use crate::service_route::{RouteSource, ServiceRoute};
use crate::service_route_store::ServiceRouteStore;
use crate::session_store::{PeerSessionStore, SessionId, SessionQuotas};
use crate::session_types::{InitiatorTransitionIdentity, SessionError, SessionKey};
use crate::snapshot_store::{
    ForwardingDecisionSnapshotSource, ForwardingDecisionSnapshotStoreInner,
    ForwardingSnapshotCommitError, ForwardingSnapshotPublishError, ForwardingSnapshotRegistration,
};
use crate::speed_probe::SpeedSample;
use vstd::prelude::*;

verus! {

/// After a datagram was recorded, another one of its epoch is accepted exactly
/// where it would have been before, is not the same, and is not more than the
/// window behind.
pub proof fn lemma_replay_state_takes_each_once(
    first: &mut ReplayState,
    second: &mut ReplayState,
    grace: bool,
    ctx: ReplayContext,
    epoch: u32,
    seq: u64,
    other: u64,
    now_ms: u64,
    later_ms: u64,
    taken: bool,
    again: bool,
)
    requires
        old(first)@.sound(),
        call_ensures(
            ReplayState::commit_replay_state,
            (first, grace, ctx, epoch, seq, now_ms),
            taken,
        ),
        old(second)@ == final(first)@,
        call_ensures(
            ReplayState::commit_replay_state,
            (second, grace, ctx, epoch, other, later_ms),
            again,
        ),
    ensures
        again <==> {
            &&& old(first)@.acceptable(grace, ctx, epoch, other)
            &&& other != seq
            &&& seq - other < 256
        },
        other == seq ==> !again,
{
    crate::datagram_replay::lemma_recording_bars_only(
        old(first)@,
        grace,
        ctx,
        epoch,
        seq,
        now_ms,
        other,
    );
}

/// After a datagram of a newer epoch was recorded, those of the epoch that was
/// the newest are accepted as they were before.
pub proof fn lemma_replay_state_rotates_without_loss(
    first: &mut ReplayState,
    second: &mut ReplayState,
    grace: bool,
    ctx: ReplayContext,
    newer: u32,
    seq: u64,
    other: u64,
    now_ms: u64,
    later_ms: u64,
    taken: bool,
    still: bool,
)
    requires
        old(first)@.sound(),
        old(first)@.rx.pair(ctx.dir).cur.valid,
        newer > old(first)@.rx.pair(ctx.dir).cur.epoch,
        call_ensures(
            ReplayState::commit_replay_state,
            (first, grace, ctx, newer, seq, now_ms),
            taken,
        ),
        old(second)@ == final(first)@,
        call_ensures(
            ReplayState::commit_replay_state,
            (second, grace, ctx, old(first)@.rx.pair(ctx.dir).cur.epoch, other, later_ms),
            still,
        ),
    ensures
        still == old(first)@.acceptable(
            grace,
            ctx,
            old(first)@.rx.pair(ctx.dir).cur.epoch,
            other,
        ),
{
    crate::datagram_replay::lemma_newest_epoch_stays_open(
        old(first)@,
        grace,
        ctx,
        newer,
        seq,
        now_ms,
        old(first)@.rx.pair(ctx.dir).cur.epoch,
        other,
    );
}

/// The epoch of the next synchronization lies above the one that is sent in and
/// above every one that a datagram was recorded of, in both domains.
pub proof fn lemma_next_sync_epoch_is_above_all(session: SecureDatagramSession, epoch: u32)
    requires
        session@.send_epoch < u32::MAX,
        !crate::secure_datagram::has_received_from(session@, u32::MAX as int),
        call_ensures(SecureDatagramSession::next_sync_epoch, (&session,), epoch),
    ensures
        epoch > session@.send_epoch,
        !crate::secure_datagram::has_received_from(session@, epoch as int),
{
    crate::secure_datagram::lemma_sync_starts_above_everything(session@);
}

/// A datagram that was recorded lies below the epoch of the next synchronization.
pub proof fn lemma_recorded_epoch_is_never_synchronized(
    session: &mut SecureDatagramSession,
    domain: KeyDomain,
    dir: SecureDatagramDirection,
    epoch: u32,
    seq: u64,
    now_ms: u64,
    next: u32,
    after: SecureDatagramSession,
)
    requires
        old(session)@.send_epoch < u32::MAX,
        epoch < u32::MAX,
        !crate::secure_datagram::has_received_from(old(session)@, u32::MAX as int),
        !old(session)@.commit_grace(domain, now_ms),
        call_ensures(
            SecureDatagramSession::commit_replay,
            (session, domain, dir, epoch, seq, now_ms),
            true,
        ),
        after@ == final(session)@,
        call_ensures(SecureDatagramSession::next_sync_epoch, (&after,), next),
    ensures
        next > epoch,
{
    crate::secure_datagram::lemma_sync_starts_above_received(
        old(session)@,
        domain,
        dir,
        epoch,
        seq,
        now_ms,
    );
}

/// A sample never claims more than was received over the time that either side
/// took for it; it is zero where fewer than two packets arrived.
pub proof fn lemma_sample_claims_no_more_than_arrived(
    ack: ProbeAck,
    local_send_duration_ns: u64,
    measured_at: u64,
    ttl_ns: u64,
    sample: SpeedSample,
)
    requires
        call_ensures(
            SpeedSample::from_ack,
            (ack, local_send_duration_ns, measured_at, ttl_ns),
            sample,
        ),
    ensures
        ({
            let bits = ack.received_bytes as int * 8 * 1_000_000_000;
            let rate = sample.delivery_bps as int;
            &&& rate * ack.duration_ns <= bits
            &&& rate * local_send_duration_ns <= bits
            &&& ack.received_packets < 2 ==> rate == 0
            &&& ack.received_packets >= 2 && (ack.duration_ns > 0 || local_send_duration_ns > 0)
                && rate < u64::MAX ==> (rate + 1) * ack.duration_ns > bits || (rate + 1)
                * local_send_duration_ns > bits
        }),
        sample.generation == ack.generation,
        sample.measured_at == measured_at,
        sample.ttl_ns == ttl_ns,
        sample.loss_ppm <= 1_000_000,
        ack.received_packets >= ack.expected_packets ==> sample.loss_ppm == 0,
{
    crate::speed_probe::lemma_rate_is_what_both_sides_saw(ack, local_send_duration_ns);
    crate::speed_probe::lemma_loss_is_what_is_missing(ack);
}

/// A sample is fresh from the time that it was measured until its time is over.
pub proof fn lemma_samples_are_fresh_for_their_time(
    sample: SpeedSample,
    now_ns: u64,
    fresh: bool,
    age: u64,
)
    requires
        call_ensures(SpeedSample::is_fresh, (&sample, now_ns), fresh),
        call_ensures(SpeedSample::age, (&sample, now_ns), age),
    ensures
        now_ns >= sample.measured_at ==> age == now_ns - sample.measured_at,
        now_ns >= sample.measured_at ==> (fresh <==> age < sample.ttl_ns),
        now_ns < sample.measured_at ==> !fresh && age == 0,
{
}

/// A report that follows the last one moves the smoothed rate a quarter of the
/// way to what was delivered in between, and is the last one from then on.
/// Without pacing, and for a report that does not follow, nothing changes.
pub proof fn lemma_reports_move_the_rate(
    pacer: &mut ReceiverPacer,
    report: ReceiverPressureReport,
    received_at: u64,
    update: PacerUpdate,
)
    requires
        old(pacer).wf(),
        call_ensures(ReceiverPacer::update_report, (pacer, report, received_at), update),
    ensures
        !old(pacer).enabled ==> *final(pacer) == *old(pacer) && !update.active,
        final(pacer).enabled == old(pacer).enabled,
        old(pacer).enabled && old(pacer).state.previous_report is Some ==> {
            let previous = old(pacer).state.previous_report->0;
            let before = old(pacer).state.smoothed_service_bytes_per_second;
            let after = final(pacer).state.smoothed_service_bytes_per_second;
            let sample = crate::receiver_pacing::service_rate(previous, report);
            let follows = crate::receiver_pacing::follows(previous, report);
            &&& !follows ==> *final(pacer) == *old(pacer)
            &&& follows ==> final(pacer).state.previous_report == Some(report)
            &&& follows && sample == 0 ==> after == before
            &&& follows && before == 0 ==> after == sample
            &&& follows && sample > before ==> before <= after <= sample
            &&& follows && 0 < sample < before ==> sample <= after < before
            &&& follows && sample > 0 && before > 0 ==> {
                let was = crate::receiver_pacing::rates_apart(before, sample);
                let is = crate::receiver_pacing::rates_apart(after, sample);
                &&& is * 4 <= was * 3 + 3
                &&& is * 4 + 3 >= was * 3
            }
            &&& update.service_bytes_per_second == after
            &&& update.target_bytes_per_second == final(pacer).state.target_bytes_per_second
            &&& update.active == final(pacer).state.active
            &&& update.active_changed == (old(pacer).state.active != final(pacer).state.active)
        },
        old(pacer).enabled && old(pacer).state.previous_report is None ==> {
            &&& final(pacer).state.previous_report == Some(report)
            &&& final(pacer).state.active == old(pacer).state.active
        },
{
    if old(pacer).enabled && old(pacer).state.previous_report is Some {
        let previous = old(pacer).state.previous_report->0;
        if crate::receiver_pacing::follows(previous, report) {
            crate::receiver_pacing::lemma_report_updates_the_rate(
                old(pacer).state,
                previous,
                report,
                received_at,
            );
            crate::receiver_pacing::lemma_sample_is_what_was_delivered(previous, report);
            crate::receiver_pacing::lemma_smoothed_rate_follows(
                old(pacer).state.smoothed_service_bytes_per_second,
                crate::receiver_pacing::service_rate(previous, report),
            );
        }
    }
}

/// Switching pacing off wins over switching it on, and it is off by itself.
pub proof fn lemma_pacing_is_asked_for(enable: Option<&str>, disable: Option<&str>, enabled: bool)
    requires
        call_ensures(
            crate::receiver_pacing::receiver_pacing_enabled_from_env,
            (enable, disable),
            enabled,
        ),
    ensures
        crate::receiver_pacing::flag_on(disable) ==> !enabled,
        enable is None ==> !enabled,
        crate::receiver_pacing::flag_on(enable) && disable is None ==> enabled,
{
}

/// A failed handshake is counted, and the next one waits: two hundred
/// milliseconds after the first attempt, four hundred after the second and eight
/// hundred after the third. That the peer was active is not claimed by it.
pub proof fn lemma_failed_handshake_is_waited_out(
    peer: &mut RelayPeer,
    attempt: u32,
    now_ms: u64,
    at: u64,
    after: RelayPeer,
    waits: bool,
)
    requires
        attempt < 3,
        now_ms + 800 <= u64::MAX,
        call_ensures(RelayPeer::register_handshake_failure, (peer, attempt, now_ms), ()),
        after == *final(peer),
        call_ensures(RelayPeer::is_backoff_active, (&after, at), waits),
    ensures
        attempt == 0 ==> (waits <==> at < now_ms + 200),
        attempt == 1 ==> (waits <==> at < now_ms + 400),
        attempt == 2 ==> (waits <==> at < now_ms + 800),
        after.state is Some,
        old(peer).state is Some && old(peer).state->0.failure_count < u32::MAX
            ==> after.state->0.failure_count == old(peer).state->0.failure_count + 1,
        old(peer).state is None ==> after.state->0.failure_count == 1,
        old(peer).state is Some ==> after.state->0.last_active_at
            == old(peer).state->0.last_active_at,
        after.send == old(peer).send,
        after.responder == old(peer).responder,
{
}

/// A successful handshake ends every wait and starts the count again.
pub proof fn lemma_successful_handshake_ends_the_wait(
    peer: &mut RelayPeer,
    now_ms: u64,
    at: u64,
    after: RelayPeer,
    waits: bool,
)
    requires
        call_ensures(RelayPeer::register_handshake_success, (peer, now_ms), ()),
        after == *final(peer),
        call_ensures(RelayPeer::is_backoff_active, (&after, at), waits),
    ensures
        !waits,
        after.state is Some,
        after.state->0.failure_count == 0,
        after.state->0.last_active_at == now_ms,
        after.send == old(peer).send,
{
}

/// A peer that is heard of is active now; its failures are still counted.
pub proof fn lemma_touched_peer_is_active(peer: &mut RelayPeer, now_ms: u64)
    requires
        call_ensures(RelayPeer::touch, (peer, now_ms), ()),
    ensures
        final(peer).state is Some,
        final(peer).state->0.last_active_at == now_ms,
        old(peer).state is Some ==> {
            &&& final(peer).state->0.failure_count == old(peer).state->0.failure_count
            &&& final(peer).state->0.next_retry_at == old(peer).state->0.next_retry_at
        },
        final(peer).send == old(peer).send,
        !crate::relay_peer_map::is_idle(*final(peer), 0, now_ms),
{
}

/// What waits for one handshake, one confirmation or one reset is removed under
/// its own name alone.
pub proof fn lemma_waiting_ends_under_its_name(
    a: &mut RelayPeer,
    b: &mut RelayPeer,
    c: &mut RelayPeer,
    handshake_id: u128,
    identity: RelayConfirmationIdentity,
)
    requires
        call_ensures(RelayPeer::remove_pending_handshake_if_matching, (a, handshake_id), ()),
        call_ensures(RelayPeer::cancel_pending_responder_reset, (b, Some(handshake_id)), ()),
        call_ensures(RelayPeer::remove_confirmation_if_matching, (c, identity), ()),
    ensures
        old(a).pending_handshake is Some && old(a).pending_handshake->0.handshake_id
            != handshake_id ==> *final(a) == *old(a),
        final(a).pending_handshake is Some ==> final(a).pending_handshake->0.handshake_id
            != handshake_id,
        final(a).responder == old(a).responder,
        old(b).responder_reset is Some && old(b).responder_reset->0.handshake_id != handshake_id
            ==> *final(b) == *old(b),
        final(b).responder_reset is Some ==> final(b).responder_reset->0.handshake_id
            != handshake_id,
        old(c).confirmation is Some && old(c).confirmation->0.identity != identity ==> *final(c)
            == *old(c),
        final(c).confirmation is Some ==> final(c).confirmation->0.identity != identity,
{
}

/// A canceled confirmation is handed out as canceled, and is waited for no more.
pub proof fn lemma_canceled_confirmation_is_handed_out(
    peer: &mut RelayPeer,
    canceled: Option<PendingConfirmationAck>,
)
    requires
        call_ensures(RelayPeer::cancel_pending_confirmation, (peer,), canceled),
    ensures
        final(peer).confirmation is None,
        canceled is Some <==> old(peer).confirmation is Some,
        canceled is Some ==> {
            &&& canceled->0.outcome == RelayOutcome::Canceled
            &&& canceled->0.identity == old(peer).confirmation->0.identity
            &&& canceled->0.transition == old(peer).confirmation->0.transition
        },
        final(peer).send == old(peer).send,
{
}

/// A packet goes straight to a next hop that is connected. One whose destination
/// is not is wrapped for the other network where there is a transport to it.
pub proof fn lemma_packets_are_delivered_where_they_can_be(
    dst_peer_id: PeerId,
    selected: Option<PeerId>,
    gateway: Option<PeerId>,
    ways: Reachability,
    next_hop_is_direct: bool,
    delivery: Result<Delivery, RelayError>,
)
    requires
        call_ensures(
            crate::relay_send::deliver,
            (dst_peer_id, selected, gateway, ways, next_hop_is_direct),
            delivery,
        ),
    ensures
        ways.has_foreign_transport && !ways.destination_is_direct ==> delivery == Ok::<
            Delivery,
            RelayError,
        >(Delivery::ForeignTransport { next_hop: dst_peer_id }),
        !(ways.has_foreign_transport && !ways.destination_is_direct) && selected is Some
            && next_hop_is_direct ==> delivery == Ok::<Delivery, RelayError>(
            Delivery::Direct { next_hop: selected->0 },
        ),
        !(ways.has_foreign_transport && !ways.destination_is_direct) && selected is None && gateway
            is Some && next_hop_is_direct ==> delivery == Ok::<Delivery, RelayError>(
            Delivery::Direct { next_hop: gateway->0 },
        ),
        selected is None && gateway is None && ways.destination_is_direct && next_hop_is_direct
            ==> delivery == Ok::<Delivery, RelayError>(Delivery::Direct { next_hop: dst_peer_id }),
        delivery is Ok && delivery->Ok_0 is ForeignClient ==> ways.has_foreign_client
            && !next_hop_is_direct,
        delivery is Ok && delivery->Ok_0 is ForeignTransport ==> ways.has_foreign_transport,
        !ways.has_foreign_transport && !ways.has_foreign_client && !next_hop_is_direct
            ==> delivery is Err,
{
}

/// A packet that was queued behind none is the first to go out, as it was handed
/// over.
pub proof fn lemma_queued_packet_goes_out(
    state: &mut RelaySendState,
    budget: &mut RelayBudget,
    item: RelayReadyPacket,
    next: &mut RelaySendState,
    max_packets: usize,
    popped: Option<Vec<RelayQueuedPacket>>,
)
    requires
        old(state).packets@.len() == 0,
        max_packets > 0,
        call_ensures(
            RelaySendState::enqueue,
            (state, budget, item),
            Ok::<EnqueueResult, RelayError>(EnqueueResult::Queued),
        ),
        *old(next) == *final(state),
        call_ensures(RelaySendState::pop_batch_for_send, (next, max_packets), popped),
    ensures
        popped is Some,
        popped->0@.len() == 1,
        popped->0@[0].packet == item.packet,
        popped->0@[0].policy == item.policy,
        popped->0@[0].authorization == item.authorization,
        popped->0@[0].charge == item.packet@.buf_len() + 128 || popped->0@[0].charge == usize::MAX,
        final(next).packets@.len() == 0,
        final(budget).packets == old(budget).packets + 1,
        final(budget).bytes >= old(budget).bytes,
{
    assert(old(next).packets@ =~= seq![item.queued()]);
    let k = popped->0@.len() as int;
    if k == 0 {
        assert(old(next).run_length(max_packets as int, 0));
    }
}

/// A closed queue is empty, takes nothing any more, and has given back all that
/// it had taken of the budget.
pub proof fn lemma_closed_queue_takes_nothing(
    state: &mut RelaySendState,
    budget: &mut RelayBudget,
    next: &mut RelaySendState,
    left: &mut RelayBudget,
    item: RelayReadyPacket,
    result: Result<EnqueueResult, RelayError>,
)
    requires
        old(budget).bytes >= old(state).queued_bytes,
        old(budget).packets >= old(state).packets@.len() + old(state).in_flight,
        call_ensures(RelaySendState::close, (state, budget), ()),
        *old(next) == *final(state),
        call_ensures(RelaySendState::enqueue, (next, left, item), result),
    ensures
        final(state).packets@.len() == 0,
        final(state).in_flight == 0,
        final(budget).bytes + old(state).queued_bytes == old(budget).bytes,
        final(budget).packets + old(state).packets@.len() + old(state).in_flight
            == old(budget).packets,
        result == Err::<EnqueueResult, RelayError>(RelayError::QueueClosed),
        *final(next) == *old(next),
        *final(left) == *old(left),
{
}

/// A queue is ready only when nothing waits in it and nothing of it is under way.
pub proof fn lemma_queue_is_ready_when_empty(state: &mut RelaySendState, finished: bool)
    requires
        call_ensures(RelaySendState::finish_draining, (state,), finished),
    ensures
        finished <==> old(state).packets@.len() == 0 && old(state).in_flight == 0,
        finished ==> final(state).phase == RelaySendPhase::Ready,
        !finished ==> *final(state) == *old(state),
        final(state).packets == old(state).packets,
{
}

/// All that there is of a budget is taken at once: right after that, nothing is
/// left.
pub proof fn lemma_budget_is_taken_whole(
    budget: &mut ProbeBudget,
    next: &mut ProbeBudget,
    now_ns: u64,
    first: u64,
    second: u64,
)
    requires
        old(budget).wf(),
        call_ensures(ProbeBudget::take_cycle_snapshot, (budget, now_ns), first),
        *old(next) == *final(budget),
        call_ensures(ProbeBudget::take_cycle_snapshot, (next, now_ns), second),
        now_ns >= old(budget).last_refill,
    ensures
        first <= old(budget).capacity_bytes,
        first >= old(budget).available_bytes,
        second == 0,
        final(budget).available_bytes == 0,
        final(budget).capacity_bytes == old(budget).capacity_bytes,
{
    let left = *final(budget);
    assert(left.rate_bps * (now_ns - left.last_refill) == 0) by (nonlinear_arith)
        requires
            now_ns - left.last_refill == 0,
    ;
}

/// What was reserved for a send is counted once it was sent, and is free again
/// where it was not.
pub proof fn lemma_sent_bytes_are_counted(
    reservation: &mut ProbeReservation,
    sent: &mut ProbeReservation,
    dropped: &mut ProbeReservation,
    bytes: u64,
    now_ns: u64,
    later_ns: u64,
)
    requires
        old(reservation).wf(),
        old(reservation).pending_bytes is None,
        call_ensures(ProbeReservation::reserve_send, (reservation, bytes, now_ns), true),
        *old(sent) == *final(reservation),
        *old(dropped) == *final(reservation),
        call_ensures(ProbeReservation::commit_send, (sent, later_ns), ()),
        call_ensures(ProbeReservation::cancel_send, (dropped,), ()),
    ensures
        final(reservation).pending_bytes == Some(bytes),
        final(sent).sent_bytes == old(reservation).sent_bytes + bytes,
        final(sent).sent_bytes <= final(sent).reserved_bytes,
        final(sent).pending_bytes is None,
        final(sent).last_sent_at == Some(later_ns),
        old(reservation).first_sent_at is None ==> final(sent).first_sent_at == Some(later_ns),
        old(reservation).first_sent_at is Some ==> final(sent).first_sent_at
            == old(reservation).first_sent_at,
        *final(dropped) == *old(reservation),
{
}

/// A session that was put under a key is found there; one that was removed, or
/// was made invalid, is not.
pub proof fn lemma_stored_session_is_found(
    store: &mut PeerSessionStore,
    removed: &mut PeerSessionStore,
    spoiled: &mut PeerSessionStore,
    key: SessionKey,
    session: PeerSession,
    now_ms: u64,
    id: SessionId,
    stored: PeerSessionStore,
    found: Option<SessionId>,
    gone: PeerSessionStore,
    without: Option<SessionId>,
    invalid: PeerSessionStore,
    none: Option<SessionId>,
)
    requires
        session@.valid(),
        call_ensures(
            PeerSessionStore::insert_session,
            (store, &key, session, now_ms),
            Ok::<SessionId, SessionError>(id),
        ),
        stored == *final(store),
        call_ensures(PeerSessionStore::peek, (&stored, &key), found),
        *old(removed) == stored,
        call_ensures(PeerSessionStore::remove, (removed, &key), ()),
        gone == *final(removed),
        call_ensures(PeerSessionStore::peek, (&gone, &key), without),
        *old(spoiled) == stored,
        call_ensures(PeerSessionStore::invalidate_session, (spoiled, id), ()),
        invalid == *final(spoiled),
        call_ensures(PeerSessionStore::peek, (&invalid, &key), none),
    ensures
        found == Some(id),
        stored@.sess(id) == session@,
        without is None,
        none is None,
{
}

/// Only the session that is meant is removed or marked as used.
pub proof fn lemma_another_session_is_left_alone(
    store: &mut PeerSessionStore,
    touched: &mut PeerSessionStore,
    key: SessionKey,
    id: SessionId,
    now_ms: u64,
)
    requires
        call_ensures(PeerSessionStore::remove_if_same, (store, &key, id), ()),
        call_ensures(PeerSessionStore::touch_if_same, (touched, &key, id, now_ms), ()),
    ensures
        old(store)@.rec(key@).active is Some && old(store)@.rec(key@).active->0.session != id
            ==> final(store)@ == old(store)@,
        old(store)@.rec(key@).active is Some && old(store)@.rec(key@).active->0.session == id
            ==> final(store)@.rec(key@).active is None,
        old(touched)@.rec(key@).active is Some && old(touched)@.rec(key@).active->0.session != id
            ==> final(touched)@ == old(touched)@,
        old(touched)@.rec(key@).active is Some && old(touched)@.rec(key@).active->0.session == id
            ==> {
            &&& final(touched)@.rec(key@).active is Some
            &&& final(touched)@.rec(key@).active->0.session == id
            &&& final(touched)@.rec(key@).active->0.last_used_at == now_ms
        },
        final(store)@.sessions == old(store)@.sessions,
        final(touched)@.sessions == old(touched)@.sessions,
{
}

/// A receipt is acknowledged once: by its own token alone, and not again.
pub proof fn lemma_receipts_are_acknowledged_once(
    store: &mut PeerSessionStore,
    quotas: &mut SessionQuotas,
    next: &mut PeerSessionStore,
    slots: &mut SessionQuotas,
    key: SessionKey,
    transition_id: u128,
    first: bool,
    again: bool,
)
    requires
        call_ensures(
            PeerSessionStore::acknowledge_initiator_receipt,
            (store, quotas, &key, transition_id),
            first,
        ),
        *old(next) == *final(store),
        call_ensures(
            PeerSessionStore::acknowledge_initiator_receipt,
            (next, slots, &key, transition_id),
            again,
        ),
    ensures
        first <==> old(store)@.rec(key@).receipt is Some
            && old(store)@.rec(key@).receipt->0.identity.transition_id == transition_id,
        !again,
        first ==> final(store)@.rec(key@).receipt is None,
        !first ==> final(store)@ == old(store)@ && *final(quotas) == *old(quotas),
        final(store)@.rec(key@).active == old(store)@.rec(key@).active,
{
}

/// A recorded receipt is the one that is told of from then on, until it is
/// acknowledged; another one is refused meanwhile, and the same one is no second
/// record.
pub proof fn lemma_recorded_receipt_is_kept(
    store: &mut PeerSessionStore,
    quotas: &mut SessionQuotas,
    next: &mut PeerSessionStore,
    slots: &mut SessionQuotas,
    identity: InitiatorTransitionIdentity,
    other: InitiatorTransitionIdentity,
    session: SessionId,
    second: Result<(), SessionError>,
    stored: PeerSessionStore,
    key: SessionKey,
    told: Option<u128>,
)
    requires
        old(store)@.rec(identity@.key).receipt is None,
        other@.key == identity@.key,
        key@ == identity@.key,
        call_ensures(
            PeerSessionStore::record_initiator_receipt,
            (store, quotas, identity, session),
            Ok::<(), SessionError>(()),
        ),
        stored == *final(store),
        call_ensures(PeerSessionStore::initiator_receipt_id, (&stored, &key), told),
        *old(next) == stored,
        *old(slots) == *final(quotas),
        call_ensures(
            PeerSessionStore::record_initiator_receipt,
            (next, slots, other, session),
            second,
        ),
    ensures
        told == Some(identity@.fields.transition_id),
        final(quotas).initiator_receipts == old(quotas).initiator_receipts + 1
            || old(quotas).initiator_receipts == usize::MAX,
        other@.fields.transition_id != identity@.fields.transition_id ==> second is Err,
        final(next)@ == stored@,
        *final(slots) == *old(slots),
{
}

/// A session that was invalidated under its revision is invalid and has another
/// revision; under another one nothing happens.
pub proof fn lemma_invalidation_needs_the_revision(
    session: &mut PeerSession,
    revision: u64,
    invalidated: bool,
)
    requires
        call_ensures(PeerSession::invalidate_if_revision, (session, revision), invalidated),
    ensures
        invalidated <==> old(session)@.revision == revision,
        invalidated ==> {
            &&& !final(session)@.valid()
            &&& final(session)@.revision != revision
            &&& final(session)@.pending_epoch is None
            &&& final(session)@.pending_peer_static_pubkey is None
        },
        !invalidated ==> final(session)@ == old(session)@,
{
}

/// A reserved synchronization bars another one until it is canceled. The epoch is
/// free again after that, and the revision is another one.
pub proof fn lemma_reserved_sync_bars_another(
    session: &mut PeerSession,
    meanwhile: &mut PeerSession,
    canceled: &mut PeerSession,
    after: &mut PeerSession,
    first: (u32, Key32, u32, u64),
    barred: Result<(u32, Key32, u32, u64), SessionError>,
    second: (u32, Key32, u32, u64),
)
    requires
        call_ensures(
            PeerSession::prepare_sync_transition,
            (session,),
            Ok::<(u32, Key32, u32, u64), SessionError>(first),
        ),
        *old(meanwhile) == *final(session),
        call_ensures(PeerSession::prepare_sync_transition, (meanwhile,), barred),
        *old(canceled) == *final(session),
        call_ensures(PeerSession::cancel_reserved_sync, (canceled, first.3, first.2), ()),
        *old(after) == *final(canceled),
        call_ensures(
            PeerSession::prepare_sync_transition,
            (after,),
            Ok::<(u32, Key32, u32, u64), SessionError>(second),
        ),
    ensures
        barred is Err,
        second.2 <= first.2,
        second.3 != first.3,
        first.0 == old(session)@.datagram.session_generation,
        first.1 == old(session)@.datagram.root_key,
{
}

/// A datagram that did not open is not recorded: it may still arrive. One that
/// opened is accepted once.
pub proof fn lemma_opened_datagrams_are_accepted_once(
    session: &mut SecureDatagramSession,
    next: &mut SecureDatagramSession,
    dir: SecureDatagramDirection,
    epoch: u32,
    seq: u64,
    now_ms: u64,
    opened: bool,
    first: Result<(), DatagramError>,
    again: Result<(), DatagramError>,
)
    requires
        old(session)@.standard.model().sound(),
        old(session)@.fec.model().sound(),
        call_ensures(
            SecureDatagramSession::finish_decrypt_payload,
            (session, dir, epoch, seq, opened, now_ms),
            first,
        ),
        old(next)@ == final(session)@,
        call_ensures(
            SecureDatagramSession::finish_decrypt_payload,
            (next, dir, epoch, seq, true, now_ms),
            again,
        ),
    ensures
        !opened ==> first == Err::<(), DatagramError>(DatagramError::DecryptFailed),
        !opened ==> final(session)@.standard == old(session)@.standard,
        opened ==> again == Err::<(), DatagramError>(DatagramError::ReplayRejected),
        opened ==> (first is Ok <==> old(session)@.commits(
            KeyDomain::Standard,
            dir,
            epoch,
            seq,
            now_ms,
        )),
{
    reveal(crate::secure_datagram::DatagramModel::commits);
    crate::secure_datagram::lemma_session_bars_only(
        old(session)@,
        KeyDomain::Standard,
        dir,
        epoch,
        seq,
        now_ms,
        seq,
    );
}

/// A transition that was kept in doubt is taken up again as it was, under the
/// identity that it was kept under, and once.
pub proof fn lemma_suspended_transition_resumes(
    store: &mut PeerSessionStore,
    quotas: &mut SessionQuotas,
    resuming: &mut PeerSessionStore,
    next: &mut PeerSessionStore,
    reservation: InitiatorSessionReservation,
    lifetime_ms: u64,
    identity: InitiatorTransitionIdentity,
    resumed: Result<InitiatorSessionReservation, SessionError>,
    again: Result<InitiatorSessionReservation, SessionError>,
)
    requires
        call_ensures(
            InitiatorSessionReservation::suspend_with_identity,
            (reservation, store, quotas, lifetime_ms, identity),
            Ok::<(), SessionError>(()),
        ),
        *old(resuming) == *final(store),
        call_ensures(
            PeerSessionStore::resume_initiator_reservation,
            (resuming, &identity),
            resumed,
        ),
        *old(next) == *final(resuming),
        call_ensures(PeerSessionStore::resume_initiator_reservation, (next, &identity), again),
    ensures
        resumed is Ok,
        resumed->Ok_0.body == reservation.body,
        resumed->Ok_0.key@ == reservation.key@,
        resumed->Ok_0.permit,
        final(resuming)@.rec(reservation.key@).in_doubt is None,
        final(resuming)@.sessions == old(store)@.sessions,
        again is Err,
{
}

/// A token that a reservation was bound to is never exchanged for another.
pub proof fn lemma_bound_token_stays(
    reservation: &mut InitiatorSessionReservation,
    next: &mut InitiatorSessionReservation,
    first: u128,
    second: u128,
    again: Result<(), SessionError>,
)
    requires
        call_ensures(
            InitiatorSessionReservation::bind_transition_id,
            (reservation, first),
            Ok::<(), SessionError>(()),
        ),
        *old(next) == *final(reservation),
        call_ensures(InitiatorSessionReservation::bind_transition_id, (next, second), again),
    ensures
        first != 0,
        final(reservation).body.transition_id == first,
        again is Ok <==> second == first,
        final(next).body.transition_id == first,
        final(reservation).key == old(reservation).key,
{
}

/// A proof is consumed once: by the transition that it names, and not again.
pub proof fn lemma_proofs_are_consumed_once(
    store: &mut PeerSessionStore,
    quotas: &mut SessionQuotas,
    next: &mut PeerSessionStore,
    slots: &mut SessionQuotas,
    identity: InitiatorTransitionIdentity,
    now_ms: u64,
    again: bool,
)
    requires
        call_ensures(
            PeerSessionStore::consume_responder_recovery,
            (store, quotas, &identity, now_ms),
            true,
        ),
        *old(next) == *final(store),
        call_ensures(
            PeerSessionStore::consume_responder_recovery,
            (next, slots, &identity, now_ms),
            again,
        ),
    ensures
        final(store)@.rec(identity@.key).recovery is None,
        old(store)@.rec(identity@.key).recovery is Some,
        old(store)@.rec(identity@.key).recovery->0.identity.transition_id
            == identity@.fields.transition_id,
        !again,
{
    let settled = old(store)@.expired(now_ms);
    assert(settled.rec(identity@.key).recovery is Some);
}

/// The key of a peer that was set is the only one that a session takes from then
/// on.
pub proof fn lemma_set_key_stays(
    session: &mut PeerSession,
    next: &mut PeerSession,
    key: Key32,
    other: Key32,
    again: Result<(), SessionError>,
)
    requires
        call_ensures(
            PeerSession::check_or_set_peer_static_pubkey,
            (session, Some(key)),
            Ok::<(), SessionError>(()),
        ),
        *old(next) == *final(session),
        call_ensures(PeerSession::check_or_set_peer_static_pubkey, (next, Some(other)), again),
    ensures
        final(session)@.peer_static_pubkey == Some(key),
        again is Ok <==> other == key,
        final(next)@.peer_static_pubkey == Some(key),
{
}

/// Two packets that a session seals one after the other never have the same
/// nonce: the sequence number goes up, in each direction by itself.
pub proof fn lemma_sealed_packets_differ_in_their_nonce(
    session: &mut PeerSession,
    next: &mut PeerSession,
    sender: PeerId,
    receiver: PeerId,
    a: Packet,
    b: Packet,
    now_ms: u64,
    later_ms: u64,
    first: CipherRequest,
    second: CipherRequest,
)
    requires
        call_ensures(
            PeerSession::encrypt_payload,
            (session, sender, receiver, &a, now_ms),
            Ok::<CipherRequest, DatagramError>(first),
        ),
        *old(next) == *final(session),
        call_ensures(
            PeerSession::encrypt_payload,
            (next, sender, receiver, &b, later_ms),
            Ok::<CipherRequest, DatagramError>(second),
        ),
    ensures
        second@.seq == first@.seq + 1,
        old(session)@.valid(),
        first@.algorithm == old(session)@.datagram.send_cipher_algorithm,
        first@.aad == a.header->0.stable_bytes(),
        second@.aad == b.header->0.stable_bytes(),
        first@.epoch == final(session)@.datagram.send_epoch,
{
    let dir = crate::peer_session::direction(sender, receiver);
    crate::secure_datagram::lemma_keys_kept(
        old(session)@.datagram,
        KeyDomain::Standard,
        1,
        now_ms,
    );
    assert(a@.header == a.header);
    assert(b@.header == b.header);
}

/// A session whose cipher failed to seal is not used any more.
pub proof fn lemma_failed_seal_ends_the_session(session: &mut PeerSession, sealed: bool)
    requires
        call_ensures(PeerSession::finish_encrypt_payload, (session, sealed), ()),
    ensures
        !sealed ==> !final(session)@.valid(),
        sealed ==> final(session)@ == old(session)@,
{
}

/// A new source takes the place of the active one: readers see nothing until it
/// publishes, and its token was never given out. One that is only prepared
/// changes nothing for readers.
pub proof fn lemma_new_source_starts_empty<H: ForwardingSnapshotPublishHook>(
    store: &mut ForwardingDecisionSnapshotStoreInner<H>,
    source: ForwardingDecisionSnapshotSource,
    prepared: &mut ForwardingDecisionSnapshotStoreInner<H>,
    registration: ForwardingSnapshotRegistration,
    after: ForwardingDecisionSnapshotStoreInner<H>,
    generation: u64,
    accepts: bool,
)
    requires
        old(store).wf(),
        old(prepared).wf(),
        call_ensures(
            ForwardingDecisionSnapshotStoreInner::<H>::register_source,
            (store,),
            Ok::<ForwardingDecisionSnapshotSource, ForwardingSnapshotCommitError>(source),
        ),
        call_ensures(
            ForwardingDecisionSnapshotStoreInner::<H>::begin_source_registration,
            (prepared,),
            Ok::<ForwardingSnapshotRegistration, ForwardingSnapshotCommitError>(registration),
        ),
        after == *final(store),
        call_ensures(
            ForwardingDecisionSnapshotStoreInner::<H>::accepts_source_generation,
            (&after, source.source_token, generation),
            accepts,
        ),
    ensures
        final(store).published is None,
        final(store).active_source_token == source.source_token,
        source.source_token != old(store).active_source_token,
        !old(store).pending_snapshots@.contains_key(source.source_token.0),
        accepts,
        final(prepared).published == old(prepared).published,
        final(prepared).active_source_token == old(prepared).active_source_token,
        registration.source.source_token != old(prepared).active_source_token,
        !old(prepared).pending_snapshots@.contains_key(registration.source.source_token.0),
        final(prepared).pending_snapshots@.contains_key(registration.source.source_token.0),
{
}

/// What the active source publishes is what is loaded, if it is taken.
pub proof fn lemma_published_snapshot_is_loaded<H: ForwardingSnapshotPublishHook>(
    store: &mut ForwardingDecisionSnapshotStoreInner<H>,
    source: ForwardingDecisionSnapshotSource,
    snapshot: ForwardingDecisionSnapshot,
    outcome: Result<(), ForwardingSnapshotPublishError>,
    after: ForwardingDecisionSnapshotStoreInner<H>,
    loaded: Option<&ForwardingDecisionSnapshot>,
)
    requires
        old(store).wf(),
        old(store).active_source_token == source.source_token,
        call_ensures(
            ForwardingDecisionSnapshotSource::publish::<H>,
            (&source, store, snapshot),
            outcome,
        ),
        after == *final(store),
        call_ensures(
            ForwardingDecisionSnapshotStoreInner::<H>::load_full,
            (&after,),
            loaded,
        ),
    ensures
        outcome is Ok ==> loaded is Some && *loaded->0 == snapshot,
        outcome is Ok && old(store).published is Some
            ==> old(store).published->0.snapshot.generation < snapshot.generation,
        outcome is Err ==> (loaded is Some <==> old(store).published is Some),
        outcome is Err && loaded is Some ==> *loaded->0 == old(store).published->0.snapshot,
{
}

/// Evidence is of the peer that it names, with a whole key, and for a bridge
/// before its deadline.
pub proof fn lemma_evidence_is_of_its_peer(
    peer: AuthenticatedRoutePeerEvidence,
    bridge: BridgeRoutePeerEvidence,
    expected: PeerId,
    now: u64,
    peer_valid: bool,
    bridge_valid: bool,
)
    requires
        call_ensures(AuthenticatedRoutePeerEvidence::validate_for, (&peer, expected), peer_valid),
        call_ensures(BridgeRoutePeerEvidence::validate_for, (&bridge, expected, now), bridge_valid),
    ensures
        peer_valid ==> peer.peer_id == expected && peer.noise_static_pubkey@.len() == 32,
        peer.peer_id == expected && peer.noise_static_pubkey@.len() == 32 && peer.secure_auth_level
            == SecureAuthLevel::PeerVerified ==> peer_valid,
        peer.secure_auth_level == SecureAuthLevel::Unauthenticated ==> !peer_valid,
        bridge_valid <==> {
            &&& bridge.peer_id == expected
            &&& bridge.noise_static_pubkey@.len() == 32
            &&& bridge.deadline is Some ==> now < bridge.deadline->0
        },
{
}

/// The routes of a source are those that it gave last, one under each name; the
/// other sources keep theirs.
pub proof fn lemma_replaced_routes_are_given(
    store: &mut ServiceRouteStore,
    source: RouteSource,
    routes: Vec<ServiceRoute>,
    after: ServiceRouteStore,
    given: Vec<ServiceRoute>,
    other: RouteSource,
    kept: Vec<ServiceRoute>,
    before: ServiceRouteStore,
    had: Vec<ServiceRoute>,
)
    requires
        other != source,
        before == *old(store),
        call_ensures(ServiceRouteStore::replace_source, (store, source, routes), ()),
        after == *final(store),
        call_ensures(ServiceRouteStore::routes_from, (&after, source), given),
        call_ensures(ServiceRouteStore::routes_from, (&after, other), kept),
        call_ensures(ServiceRouteStore::routes_from, (&before, other), had),
    ensures
        kept@ == had@,
        forall|i: int| 0 <= i < given@.len() ==> routes@.contains(#[trigger] given@[i]),
        routes@.len() > 0 ==> given@.len() > 0,
        routes@.len() == 0 ==> given@.len() == 0,
{
    if routes@.len() > 0 {
        assert(crate::service_route_store::holds_name(given@, routes@[0]));
    }
    if given@.len() > 0 {
        assert(routes@.contains(given@[0]));
    }
}

} // verus!
