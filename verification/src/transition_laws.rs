//! What holds of session transitions across the two sides of a relay: what is
//! staged, confirmed, committed and acknowledged, and what is left of each.

use crate::bytes::Key32;
use crate::initiator_store::{InitiatorSessionReservation, ReservationState};
use crate::packet::{Packet, PeerId, PACKET_ETHERNET, PACKET_RELAY_HANDSHAKE_READY};
use crate::relay_auth::RelayAuthority;
use crate::relay_batch::BatchDecision;
use crate::relay_confirmation::ConfirmationReply;
use crate::relay_dial::Msg1Draft;
use crate::relay_exchange::Msg2Step;
use crate::relay_handshake::{Msg1Plan, RelayNoiseMsg2};
use crate::relay_initiator::{ConfirmationDriver, ConfirmationStage, ConfirmationStep};
use crate::relay_peer::{RelayOutcome, RelayPeer};
use crate::relay_peer_map::RelayTotals;
use crate::relay_queue::{
    FullEthernetAuthorizationToken, RelayBudget, RelayReadyPacket, RelaySendPhase,
};
use crate::relay_wire::{RelayConfirmationIdentity, RelayError, RelayReadyReceiptIdentity};
use crate::responder_store::UpsertResponderSessionReturn;
use crate::route_trait::NextHopPolicy;
use crate::session_store::{KeyRecord, ReservationBody, SessionId, SessionQuotas, StoreModel};
use crate::session_types::{IdentityModel, PeerSessionAction, SessionError, SessionKeyModel};
use vstd::prelude::*;

verus! {

/// The packets of a batch go one way: all of them leave as they are, or none
/// does. Where they differ in being sealed, or one has no header, all are
/// refused.
pub proof fn lemma_batches_go_one_way(
    peer: RelayPeer,
    budget: RelayBudget,
    batch: Seq<Packet>,
    dst_peer_id: PeerId,
    policy: NextHopPolicy,
    provided: Option<FullEthernetAuthorizationToken>,
    fresh: FullEthernetAuthorizationToken,
    current: Seq<u64>,
    now_ms: u64,
    decision: Result<BatchDecision, RelayError>,
    peer_after: RelayPeer,
    budget_after: RelayBudget,
    i: int,
    j: int,
)
    requires
        crate::relay_batch::batch_admitted(
            peer,
            budget,
            batch,
            dst_peer_id,
            policy,
            provided,
            fresh,
            current,
            now_ms,
            decision,
            peer_after,
            budget_after,
        ),
        0 <= i < batch.len(),
        0 <= j < batch.len(),
    ensures
        batch[i].header is None ==> decision is Err,
        batch[i].header is Some && batch[j].header is Some && batch[i].header->0.encrypted()
            != batch[j].header->0.encrypted() ==> decision is Err,
        (decision matches Ok(BatchDecision::Forward { packets }) && packets@ == batch) ==> {
            &&& batch[i].header is Some
            &&& batch[i].header->0.encrypted() || crate::relay_wire::is_handshake_type(
                batch[i].header->0.packet_type,
            )
            &&& peer_after == peer
            &&& budget_after == budget
        },
        decision is Err ==> peer_after.send == peer.send && budget_after == budget,
{
    let (a, b) = (batch[i], batch[j]);
    assert(batch[0]@.header == batch[0].header);
}

/// A batch with complete Ethernet whose authority has ended is refused whole.
pub proof fn lemma_revoked_batches_are_refused(
    peer: RelayPeer,
    budget: RelayBudget,
    items: Vec<RelayReadyPacket>,
    session: SessionId,
    dst_peer_id: PeerId,
    current: Seq<u64>,
    decision: Result<BatchDecision, RelayError>,
    peer_after: RelayPeer,
    budget_after: RelayBudget,
    i: int,
)
    requires
        crate::relay_batch::batch_session_found(
            peer,
            budget,
            items,
            Ok(session),
            dst_peer_id,
            current,
            decision,
            peer_after,
            budget_after,
        ),
        peer.send is None || peer.send->0.phase == RelaySendPhase::Ready,
        0 <= i < items@.len(),
    ensures
        items@[i].packet@.has_type(PACKET_ETHERNET) && !(items@[i].authorization is Some
            && items@[i].authorization->0.destination_peer_id == dst_peer_id && current.contains(
            items@[i].authorization->0.descriptor,
        )) ==> decision is Err,
        decision is Ok ==> (decision matches Ok(BatchDecision::Encrypt { items: same, session: under })
            && same == items && under == session),
        peer_after == peer,
        budget_after == budget,
{
    let item = items@[i];
}

/// What a first message says of the transition in doubt and of the last receipt
/// is what the other side reads of it: at most one of the two is told.
pub proof fn lemma_first_message_is_read_as_meant(
    store: StoreModel,
    key: SessionKeyModel,
    algorithm: Seq<char>,
    conn_id: u128,
    draft: Msg1Draft,
)
    requires
        crate::relay_dial::drafted(store, key, algorithm, conn_id, draft),
        store.rec(key).in_doubt is Some ==> store.rec(key).in_doubt->0.identity.transition_id != 0,
        store.rec(key).receipt is Some ==> store.rec(key).receipt->0.identity.transition_id != 0,
    ensures
        draft.message.version == 2,
        draft.message.a_conn_id == Some(conn_id),
        draft.message.client_encryption_algorithm@ == algorithm,
        ({
            let read = crate::relay_dial::identity_in(draft.message.recovery);
            let told = crate::relay_handshake::acknowledged_by(
                draft.message.acknowledged_transition_id@,
            );
            &&& read is Ok
            &&& told is Ok
            &&& store.rec(key).in_doubt is None ==> read->Ok_0 is None
            &&& store.rec(key).in_doubt is Some ==> {
                &&& read->Ok_0 is Some
                &&& store.rec(key).in_doubt->0.identity.authenticated_as(read->Ok_0->0)
                &&& told->Ok_0 is None
            }
            &&& store.rec(key).in_doubt is None && store.rec(key).receipt is Some ==> told->Ok_0
                == Some(store.rec(key).receipt->0.identity.transition_id)
            &&& store.rec(key).receipt is None ==> told->Ok_0 is None
        }),
        store.published(key) is Some ==> draft.message.a_session_generation == Some(
            store.sess(store.published(key)->0).datagram.session_generation,
        ),
        store.published(key) is None ==> draft.message.a_session_generation is None,
{
    if store.rec(key).in_doubt is Some {
        crate::handshake_laws::lemma_named_transition_arrives(
            draft.message.recovery->0,
            store.rec(key).in_doubt->0.identity,
        );
    } else if store.rec(key).receipt is Some {
        crate::handshake_laws::lemma_tokens_arrive(
            store.rec(key).receipt->0.identity.transition_id,
            Seq::empty(),
        );
    }
}

/// A transition that the responder has committed is answered as it was; one that
/// it does not know is reset, unless something of that key would be lost by it.
pub proof fn lemma_recovery_loses_nothing(
    settled: StoreModel,
    identity: IdentityModel,
    plan: Result<Msg1Plan, RelayError>,
)
    requires
        crate::relay_handshake::recovery_staged(settled, identity, plan),
    ensures
        (plan matches Ok(Msg1Plan::Reset { identity: named }) && named@ == identity) ==> {
            &&& settled.reconciled(identity) is None
            &&& settled.rec(identity.key).recovery is None
            &&& settled.rec(identity.key).pending_create is None
            &&& settled.published(identity.key) is None
        },
        settled.reconciled(identity) is None && settled.rec(identity.key).recovery is None
            && settled.rec(identity.key).pending_create is None && settled.published(identity.key)
            is None ==> plan is Ok && plan->Ok_0 is Reset,
        plan is Ok && plan->Ok_0 is Respond ==> {
            let known = settled.reconciled(identity);
            let prepared = plan->Ok_0->prepared;
            &&& known is Some
            &&& prepared.session == known->0.session
            &&& prepared.action == identity.fields.action
            &&& prepared.session_generation == identity.fields.session_generation
            &&& prepared.initial_epoch == identity.fields.initial_epoch
            &&& prepared.transition_id == identity.fields.transition_id
            &&& prepared.root_key == Some(known->0.root_key)
            &&& plan->Ok_0->recovery_active
        },
{
}

/// While the proof of a transition is pending, another one is staged only with
/// the acknowledgement of exactly that transition.
pub proof fn lemma_pending_proof_is_acknowledged_first(
    settled: StoreModel,
    key: SessionKeyModel,
    send_algorithm: Seq<char>,
    recv_algorithm: Seq<char>,
    remote_key: Option<Key32>,
    acknowledged: Option<u128>,
    now_ms: u64,
    plan: Result<Msg1Plan, RelayError>,
    store_after: StoreModel,
)
    requires
        crate::relay_handshake::transition_staged(
            settled,
            key,
            send_algorithm,
            recv_algorithm,
            remote_key,
            acknowledged,
            now_ms,
            plan,
            store_after,
        ),
        settled.rec(key).recovery is Some,
    ensures
        acknowledged != Some(settled.rec(key).recovery->0.identity.transition_id) ==> plan is Err
            && store_after == settled,
        plan is Ok ==> (plan matches Ok(Msg1Plan::Respond {
            prepared,
            recovery_active,
            acknowledged: echoed,
        }) && !recovery_active && echoed == acknowledged && prepared.proof_dependency
            == acknowledged && prepared.proof_cleared && prepared.proof_backup is Some),
        plan is Ok ==> store_after.rec(key).recovery is None,
{
    if plan is Ok {
        lemma_staging_keeps_the_proof(
            settled,
            key,
            send_algorithm,
            recv_algorithm,
            remote_key,
            acknowledged,
            now_ms,
            plan,
            store_after,
        );
    }
}

proof fn lemma_staging_keeps_the_proof(
    settled: StoreModel,
    key: SessionKeyModel,
    send_algorithm: Seq<char>,
    recv_algorithm: Seq<char>,
    remote_key: Option<Key32>,
    acknowledged: Option<u128>,
    now_ms: u64,
    plan: Result<Msg1Plan, RelayError>,
    store_after: StoreModel,
)
    requires
        crate::relay_handshake::newly_staged(
            settled,
            key,
            send_algorithm,
            recv_algorithm,
            remote_key,
            acknowledged,
            acknowledged,
            now_ms,
            plan,
            store_after,
        ),
        acknowledged is Some,
        settled.rec(key).recovery is Some,
        plan is Ok,
    ensures
        (plan matches Ok(Msg1Plan::Respond { prepared, recovery_active, acknowledged: echoed })
            && !recovery_active && echoed == acknowledged && prepared.proof_dependency
            == acknowledged && prepared.proof_cleared && prepared.proof_backup
            == settled.rec(key).recovery),
        store_after.rec(key).recovery is None,
{
}

/// An answer is waited for as long as two stages of a confirmation take and five
/// seconds more, under the handshake and the transition that it was made for.
pub proof fn lemma_answers_wait_for_their_confirmation(
    peer: RelayPeer,
    prepared: UpsertResponderSessionReturn,
    session_metadata_id: u128,
    recovery_active: bool,
    handshake_id: u128,
    response: Seq<u8>,
    now_ms: u64,
    peer_after: RelayPeer,
    store: StoreModel,
    at: u64,
)
    requires
        crate::relay_handshake::answer_waits(
            peer,
            prepared,
            session_metadata_id,
            recovery_active,
            handshake_id,
            response,
            now_ms,
            peer_after,
        ),
        now_ms + 47_400 <= u64::MAX,
        store.sess(prepared.session).metadata_session_id == session_metadata_id,
    ensures
        crate::relay_confirmation::answer_live(
            peer_after,
            store,
            RelayConfirmationIdentity {
                handshake_id,
                session_id: session_metadata_id,
                transition_id: prepared.transition_id,
            },
            at,
        ) <==> at < now_ms + 47_400,
        crate::relay_confirmation::confirms(
            peer_after,
            RelayConfirmationIdentity {
                handshake_id,
                session_id: session_metadata_id,
                transition_id: prepared.transition_id,
            },
        ),
        peer_after.responder->0.response@ == response,
        !peer_after.backoff_active(at),
{
}

/// The message that the initiator is ready is taken only for the handshake that
/// the peer confirms, or that was completed before; any other changes nothing.
/// Taken, it is answered under the session that the initiator named.
pub proof fn lemma_ready_is_taken_for_its_handshake(
    peer: RelayPeer,
    store: StoreModel,
    quotas: SessionQuotas,
    authority: RelayAuthority,
    key: SessionKeyModel,
    peer_id: PeerId,
    identity: RelayConfirmationIdentity,
    now_ms: u64,
    reply: Result<ConfirmationReply, RelayError>,
    peer_after: RelayPeer,
    store_after: StoreModel,
    quotas_after: SessionQuotas,
)
    requires
        crate::relay_confirmation::ready_handled(
            peer,
            store,
            quotas,
            authority,
            key,
            peer_id,
            identity,
            now_ms,
            reply,
            peer_after,
            store_after,
            quotas_after,
        ),
    ensures
        !(peer.send is Some && peer.send->0.confirmation == Some(identity)) && !peer.has_completed(
            identity,
            now_ms,
        ) ==> {
            &&& reply is Err
            &&& peer_after == peer
            &&& store_after == store
            &&& quotas_after == quotas
        },
        reply is Ok ==> (reply matches Ok(ConfirmationReply::SendReadyAck {
            session,
            identity: named,
            then_drain,
        }) && named == identity && store_after.sess(session).metadata_session_id
            == identity.session_id && then_drain == (peer.send->0.confirmation == Some(identity))),
        reply is Ok ==> peer_after.auth is Some,
{
}

/// A committed answer is the session that was offered: the peer waits for it no
/// longer, it is bound to the authority of the peer, and the handshake is known
/// to be completed. A refused one is waited for no longer either.
pub proof fn lemma_committed_answer_is_completed(
    peer: RelayPeer,
    store: StoreModel,
    quotas: SessionQuotas,
    authority: RelayAuthority,
    key: SessionKeyModel,
    peer_id: PeerId,
    identity: RelayConfirmationIdentity,
    now_ms: u64,
    result: Result<SessionId, RelayError>,
    peer_after: RelayPeer,
    store_after: StoreModel,
    quotas_after: SessionQuotas,
)
    requires
        peer.responder is Some,
        crate::relay_confirmation::answer_committed(
            peer,
            store,
            quotas,
            authority,
            key,
            peer_id,
            identity,
            now_ms,
            result,
            peer_after,
            store_after,
            quotas_after,
        ),
    ensures
        peer_after.responder is None,
        result is Ok ==> {
            &&& result->Ok_0 == peer.responder->0.prepared.session
            &&& peer_after.auth is Some
            &&& peer_after.auth->0.metadata_session_id == store_after.sess(
                result->Ok_0,
            ).metadata_session_id
            &&& peer_after.auth->0.peer_id == peer_id
            &&& Some(peer_after.auth->0.noise_static_pubkey) == store_after.sess(
                result->Ok_0,
            ).peer_static_pubkey
            &&& exists|i: int|
                0 <= i < peer_after.completed@.len() && (#[trigger] peer_after.completed@[i]).identity
                    == identity
            &&& peer_after.send == peer.send
        },
        result is Err ==> peer_after.completed == peer.completed && peer_after.auth == peer.auth,
{
    if result is Ok {
        let was = peer.completed@;
        if !(exists|i: int| 0 <= i < was.len() && (#[trigger] was[i]).identity == identity) {
            let n = peer_after.completed@.len() - 1;
            assert(peer_after.completed@[n].identity == identity);
        }
    }
}

/// A confirmation is answered while its answer is waited for, and then waited
/// for longer; once the time is over it is given up, and the confirmation is
/// refused unless the handshake was completed.
pub proof fn lemma_confirmation_in_time_is_answered(
    peer: RelayPeer,
    store: StoreModel,
    quotas: SessionQuotas,
    key: SessionKeyModel,
    identity: RelayConfirmationIdentity,
    now_ms: u64,
    reply: Result<ConfirmationReply, RelayError>,
    peer_after: RelayPeer,
    store_after: StoreModel,
    quotas_after: SessionQuotas,
)
    requires
        crate::relay_confirmation::confirm_handled(
            peer,
            store,
            quotas,
            key,
            identity,
            now_ms,
            reply,
            peer_after,
            store_after,
            quotas_after,
        ),
        now_ms + 26_200 <= u64::MAX,
        peer.responder is Some,
        peer.responder->0.handshake_id == identity.handshake_id,
        peer.responder->0.transition_id == identity.transition_id,
        store.sess(peer.responder->0.prepared.session).metadata_session_id == identity.session_id,
    ensures
        now_ms < peer.responder->0.deadline ==> {
            &&& reply == Ok::<ConfirmationReply, RelayError>(
                ConfirmationReply::SendConfirmAck {
                    session: peer.responder->0.prepared.session,
                    identity,
                },
            )
            &&& store_after == store
            &&& quotas_after == quotas
            &&& peer_after.responder is Some
            &&& peer_after.responder->0.deadline == now_ms + 26_200
            &&& peer_after.responder->0.prepared == peer.responder->0.prepared
        },
        now_ms >= peer.responder->0.deadline ==> {
            &&& peer_after.responder is None
            &&& !peer.has_completed(identity, now_ms) ==> reply is Err
        },
{
    let late = peer.canceled_peer(Some(identity.handshake_id));
    assert(late.completed == peer.completed);
    assert(peer.has_completed(identity, now_ms) == late.has_completed(identity, now_ms));
}

/// A session is rejoined where one is published that speaks for the peer, and is
/// withdrawn where it does not.
pub proof fn lemma_rejoined_session_speaks_for_the_peer(
    peer: RelayPeer,
    store: StoreModel,
    authority: RelayAuthority,
    key: SessionKeyModel,
    peer_id: PeerId,
    now_ms: u64,
)
    ensures
        ({
            let (joined, peer_after, store_after) = crate::relay_confirmation::rejoined(
                peer,
                store,
                authority,
                key,
                peer_id,
                now_ms,
            );
            let id = store.published(key);
            let speaks = id is Some && authority.generic is Some && store.sess(
                id->0,
            ).peer_static_pubkey == Some(authority.generic->0.noise_static_pubkey);
            &&& joined is Ok <==> speaks
            &&& joined is Ok ==> Some(joined->Ok_0) == id && peer_after.auth is Some
            &&& joined is Err ==> peer_after == peer
            &&& id is Some && !speaks ==> store_after.published(key) is None
        }),
{
}

/// The acknowledgement of a receipt removes the stored receipt exactly where the
/// peer waits for this receipt and the stored one names the same transition.
pub proof fn lemma_receipt_goes_with_its_acknowledgement(
    peer: RelayPeer,
    store: StoreModel,
    key: SessionKeyModel,
    identity: RelayReadyReceiptIdentity,
    verified_session_id: u128,
    now_ms: u64,
)
    ensures
        ({
            let checked = crate::relay_confirmation::receipt_ack_check(
                peer,
                store,
                key,
                identity,
                verified_session_id,
                now_ms,
            );
            let stored = store.after_get(key, now_ms).rec(key).receipt;
            (checked is Ok && checked->Ok_0.1) <==> {
                &&& store.published(key) is Some
                &&& store.sess(store.published(key)->0).metadata_session_id == verified_session_id
                &&& peer.receipt is Some
                &&& peer.receipt->0.identity == identity
                &&& stored is Some
                &&& stored->0.identity.session_metadata_id == identity.session_metadata_id
                &&& stored->0.identity.action == identity.action
                &&& stored->0.identity.session_generation == identity.session_generation
                &&& stored->0.identity.initial_epoch == identity.initial_epoch
                &&& stored->0.identity.transition_id == identity.transition_id
                &&& stored->0.identity.root_key_digest == crate::session_types::root_key_digest(
                    store.sess(store.published(key)->0).datagram.root_key,
                )
            }
        }),
{
}

/// A transition that the peer is ready for becomes the published session of its
/// key, bound to the authority of the peer; queued packets go out, and the
/// receipt names what was committed.
pub proof fn lemma_ready_transition_is_published(
    peer: RelayPeer,
    store: StoreModel,
    quotas: SessionQuotas,
    authority: RelayAuthority,
    key: SessionKeyModel,
    peer_id: PeerId,
    identity: RelayConfirmationIdentity,
    body: ReservationBody,
    metadata_id: u128,
    previous: Option<IdentityModel>,
    now_ms: u64,
    result: Result<(SessionId, RelayReadyReceiptIdentity), RelayError>,
    peer_after: RelayPeer,
    store_after: StoreModel,
    quotas_after: SessionQuotas,
)
    requires
        crate::relay_initiator::ready_committed(
            peer,
            store,
            quotas,
            authority,
            key,
            peer_id,
            identity,
            body,
            metadata_id,
            previous,
            now_ms,
            result,
            peer_after,
            store_after,
            quotas_after,
        ),
        result is Ok,
    ensures
        result->Ok_0.0 == body.session,
        store_after.rec(key).active is Some,
        store_after.rec(key).active->0.session == body.session,
        store_after.rec(key).receipt is Some,
        store_after.rec(key).receipt->0.identity.transition_id == body.transition_id,
        store_after.rec(key).receipt->0.session == body.session,
        result->Ok_0.1.handshake_id == identity.handshake_id,
        result->Ok_0.1.session_metadata_id == metadata_id,
        result->Ok_0.1.transition_id == identity.transition_id,
        result->Ok_0.1.action == body.action,
        result->Ok_0.1.session_generation == body.session_generation,
        result->Ok_0.1.initial_epoch == body.initial_epoch,
        peer_after.send is Some,
        peer_after.send->0.phase == RelaySendPhase::Draining,
        peer.send is Some ==> peer_after.send->0.packets == peer.send->0.packets,
        peer_after.auth is Some,
        Some(peer_after.auth->0.noise_static_pubkey) == store_after.sess(
            body.session,
        ).peer_static_pubkey,
{
}

/// Once the transition is in doubt, the message that this side is ready is sent
/// eight times at most; after that the peer still waits for the answer.
pub proof fn lemma_ready_is_sent_eight_times(
    driver: ConfirmationDriver,
    peer: RelayPeer,
    step: ConfirmationStep,
    driver_after: ConfirmationDriver,
    peer_after: RelayPeer,
)
    requires
        driver.sends <= 8,
        crate::relay_initiator::readying_step(
            driver,
            peer,
            RelayOutcome::Waiting,
            step,
            driver_after,
            peer_after,
        ),
    ensures
        step is Send <==> driver.sends < 8,
        step is Send ==> {
            &&& step->packet_type == PACKET_RELAY_HANDSHAKE_READY
            &&& step->wait_ms == crate::relay_initiator::retry_delay(driver.sends as int)
            &&& driver_after.sends == driver.sends + 1
        },
        !(step is Send) ==> step is Failed && driver_after.stage == ConfirmationStage::Ended,
        peer_after == peer,
{
}

/// An answer that cannot be taken changes neither the session store nor its
/// slots; nor does the offer of a reset, which is of the transition in doubt.
pub proof fn lemma_refused_answer_changes_no_session(
    peer: RelayPeer,
    store: StoreModel,
    quotas: SessionQuotas,
    key: SessionKeyModel,
    draft: Msg1Draft,
    msg2: RelayNoiseMsg2,
    algorithm: Seq<char>,
    remote_key: Key32,
    now_ms: u64,
    step: Result<Msg2Step, RelayError>,
    peer_after: RelayPeer,
    store_after: StoreModel,
    quotas_after: SessionQuotas,
)
    requires
        crate::relay_exchange::msg2_handled(
            peer,
            store,
            quotas,
            key,
            draft,
            msg2,
            algorithm,
            remote_key,
            now_ms,
            step,
            peer_after,
            store_after,
            quotas_after,
        ),
    ensures
        msg2.version != 2 || msg2.a_conn_id_echo != Some(draft.conn_id) ==> {
            &&& step is Err
            &&& peer_after == peer
            &&& store_after == store
            &&& quotas_after == quotas
        },
        step is Ok && step->Ok_0 is NotReady ==> {
            &&& !msg2.accepted
            &&& step->Ok_0->deferred == peer.deferred
            &&& peer_after.deferred is None
            &&& store_after == store
            &&& quotas_after == quotas
        },
        step is Ok && step->Ok_0 is Reset ==> {
            &&& draft.recovery == Some(step->Ok_0->identity)
            &&& store_after == store
            &&& quotas_after == quotas
        },
        step is Ok && step->Ok_0 is Confirm ==> {
            let driver = step->Ok_0->driver;
            &&& msg2.accepted
            &&& driver.sends == 0
            &&& driver.pending.identity.handshake_id == draft.conn_id
            &&& peer_after.confirmation == Some(driver.pending)
            &&& driver.reservation is Some
            &&& driver.pending.identity.transition_id
                == driver.reservation->0.body.transition_id
        },
{
}

/// A receipt takes a slot of its own where none is stored, while fewer than two
/// hundred and fifty-six are; it replaces a stored one only where that one is
/// named.
pub proof fn lemma_receipts_take_a_slot(
    store: StoreModel,
    quotas: SessionQuotas,
    key: SessionKeyModel,
    body: ReservationBody,
    receipt: IdentityModel,
    previous: Option<IdentityModel>,
)
    ensures
        ({
            let slot = store.receipt_slot(quotas, key, body, receipt, previous);
            let own = receipt.fields.transition_id != 0 && receipt.key == key && body.identified_by(
                receipt.fields,
            );
            let stored = store.rec(key).receipt;
            &&& slot == Ok::<bool, SessionError>(true) <==> own && stored is None
                && quotas.initiator_receipts < 256
            &&& slot == Ok::<bool, SessionError>(false) <==> own && stored is Some && previous
                is Some && previous->0.key == key && previous->0.fields == stored->0.identity
        }),
{
}

/// A transition is kept in doubt for two minutes at most, by the reservation that
/// holds its slot, under its own identity, and beside no other of its key.
pub proof fn lemma_doubt_is_kept_once(
    store: StoreModel,
    reservation: InitiatorSessionReservation,
    lifetime_ms: u64,
    identity: IdentityModel,
)
    ensures
        store.suspend_check(reservation, lifetime_ms, identity) is Ok <==> {
            &&& 0 < lifetime_ms <= 120_000
            &&& identity.key == reservation.key@
            &&& reservation.body.identified_by(identity.fields)
            &&& identity.fields.transition_id != 0
            &&& reservation.state == ReservationState::Pending
            &&& reservation.permit
            &&& store.rec(reservation.key@).in_doubt is None
        },
{
}

/// A proof is kept for a peer whose key is known, one at a time for a network and
/// two at most for one key, and two hundred and fifty-six in all.
pub proof fn lemma_proofs_are_few(
    store: StoreModel,
    quotas: SessionQuotas,
    key: SessionKeyModel,
    session: SessionId,
)
    ensures
        store.proof_slot(quotas, key, session) is Ok <==> {
            let principal = store.sess(session).static_key_with_pending();
            &&& store.rec(key).recovery is None
            &&& principal is Some
            &&& store.proofs_of(principal->0).len() < 2
            &&& quotas.responder_recoveries < 256
        },
{
}

/// Giving a record up frees a slot for each thing that it kept, and no other.
pub proof fn lemma_records_free_their_slots(quotas: SessionQuotas, record: KeyRecord)
    requires
        quotas.in_doubt > 0,
        quotas.responder_recoveries > 0,
        quotas.initiator_receipts > 0,
    ensures
        ({
            let after = crate::initiator_records::record_released(quotas, record);
            &&& record.in_doubt is Some ==> after.in_doubt == quotas.in_doubt - 1
            &&& record.in_doubt is None ==> after.in_doubt == quotas.in_doubt
            &&& record.recovery is Some ==> after.responder_recoveries
                == quotas.responder_recoveries - 1
            &&& record.recovery is None ==> after.responder_recoveries
                == quotas.responder_recoveries
            &&& record.receipt is Some ==> after.initiator_receipts == quotas.initiator_receipts - 1
            &&& record.receipt is None ==> after.initiator_receipts == quotas.initiator_receipts
        }),
{
}

/// A canceled creation leaves no claim and no other key changed; a canceled claim
/// of another session changes nothing.
pub proof fn lemma_canceled_creation_frees_the_key(
    store: StoreModel,
    key: SessionKeyModel,
    session: SessionId,
    revision: Option<u64>,
    epoch: u32,
    other: SessionKeyModel,
)
    requires
        other != key,
    ensures
        ({
            let after = store.plan_canceled(
                key,
                session,
                PeerSessionAction::Create,
                revision,
                epoch,
            );
            &&& store.rec(key).pending_create == Some(session) ==> after.rec(key).pending_create
                is None
            &&& store.rec(key).pending_create != Some(session) ==> after == store
            &&& after.rec(key).active == store.rec(key).active
            &&& after.rec(key).recovery == store.rec(key).recovery
            &&& after.rec(other) == store.rec(other)
            &&& after.sessions == store.sessions
        }),
{
}

/// A removed peer gives back the budget of everything that waited for it.
pub proof fn lemma_removed_peer_frees_its_budget(peer: RelayPeer, totals: RelayTotals)
    requires
        peer.send is Some,
        totals.budget.bytes >= peer.send->0.queued_bytes,
        totals.budget.memory_used >= peer.send->0.queued_bytes,
        totals.budget.packets >= peer.send->0.packets@.len() + peer.send->0.in_flight,
    ensures
        ({
            let after = crate::relay_peer_map::peer_given_up(peer, totals);
            &&& after.budget.bytes + peer.send->0.queued_bytes == totals.budget.bytes
            &&& after.budget.memory_used + peer.send->0.queued_bytes == totals.budget.memory_used
            &&& after.budget.packets + peer.send->0.packets@.len() + peer.send->0.in_flight
                == totals.budget.packets
            &&& after.budget.memory_limit == totals.budget.memory_limit
            &&& peer.responder is None ==> after.store == totals.store && after.quotas
                == totals.quotas
        }),
{
}

} // verus!
