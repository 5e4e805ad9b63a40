//! What holds of relay handshakes across their messages: what the two sides
//! understand of each other, what opens under which session, and how often and
//! how long things are tried.

use crate::bytes::Key32;
use crate::packet::{
    PacketModel, PeerId, VerifiedOrigin, PACKET_ETHERNET, PACKET_RELAY_HANDSHAKE_ACK,
    PACKET_RELAY_HANDSHAKE_CONFIRM, PACKET_RELAY_HANDSHAKE_CONFIRM_ACK,
    PACKET_RELAY_HANDSHAKE_RESET_ACK,
};
use crate::peer_session::PeerSessionModel;
use crate::relay_auth::RelayAuthority;
use crate::relay_confirmation::ConfirmationReply;
use crate::relay_dial::{HandshakeDispatch, Msg1Draft, Msg2Verdict};
use crate::relay_handshake::{Msg1Admission, RelayNoiseMsg1, RelayNoiseMsg2};
use crate::relay_initiator::{ConfirmationDriver, ConfirmationStep};
use crate::relay_open::{BatchChoice, GroupAuthority, OpenChoice, RelayBatchDecryptOutcome};
use crate::relay_peer::{RelayOutcome, RelayPeer};
use crate::relay_queue::RelaySendPhase;
use crate::relay_wire::{
    RecoveryMessage, RelayConfirmationIdentity, RelayError, RelayReadyReceiptIdentity,
};
use crate::responder_store::UpsertResponderSessionReturn;
use crate::session_store::{SessionId, SessionQuotas, StoreModel};
use crate::session_types::{
    InitiatorTransitionIdentity, PeerSessionAction, SessionKeyModel, TransitionFields,
};
use vstd::prelude::*;

verus! {

/// The actions have fixed numbers on the wire, and no other number is one.
pub proof fn lemma_actions_have_their_numbers(action: PeerSessionAction, code: u8)
    ensures
        crate::relay_wire::action_code(PeerSessionAction::Join) == 0,
        crate::relay_wire::action_code(PeerSessionAction::Sync) == 1,
        crate::relay_wire::action_code(PeerSessionAction::Create) == 2,
        crate::relay_wire::action_of_code(code) == Some(action) <==> code
            == crate::relay_wire::action_code(action),
        crate::relay_wire::action_of_code(code) is None <==> code > 2,
{
}

/// Where the parts of a receipt stand in its fifty-seven bytes.
pub proof fn lemma_receipt_layout(identity: RelayReadyReceiptIdentity)
    ensures
        ({
            let bytes = crate::relay_wire::receipt_bytes(identity);
            &&& bytes.len() == 57
            &&& crate::bytes::be_value(bytes.subrange(0, 16)) == identity.handshake_id
            &&& crate::bytes::be_value(bytes.subrange(16, 32)) == identity.session_metadata_id
            &&& crate::bytes::be_value(bytes.subrange(32, 48)) == identity.transition_id
            &&& crate::bytes::be_value(bytes.subrange(48, 49)) == crate::relay_wire::action_code(
                identity.action,
            )
            &&& crate::bytes::be_value(bytes.subrange(49, 53)) == identity.session_generation
            &&& crate::bytes::be_value(bytes.subrange(53, 57)) == identity.initial_epoch
        }),
{
    let payload = crate::relay_wire::receipt_bytes(identity);
    let code = crate::relay_wire::action_code(identity.action) as nat;
    crate::bytes::lemma_pow256();
    broadcast use crate::bytes::lemma_be_bytes_len;

    crate::bytes::lemma_be_value_of_bytes(identity.handshake_id as nat, 16);
    crate::bytes::lemma_be_value_of_bytes(identity.session_metadata_id as nat, 16);
    crate::bytes::lemma_be_value_of_bytes(identity.transition_id as nat, 16);
    crate::bytes::lemma_be_value_of_bytes(code, 1);
    crate::bytes::lemma_be_value_of_bytes(identity.session_generation as nat, 4);
    crate::bytes::lemma_be_value_of_bytes(identity.initial_epoch as nat, 4);
    let generation = crate::bytes::be_bytes(identity.session_generation as nat, 4);
    let epoch = crate::bytes::be_bytes(identity.initial_epoch as nat, 4);
    let metadata = crate::bytes::be_bytes(identity.session_metadata_id as nat, 16);
    assert(payload.subrange(0, 16) =~= crate::bytes::be_bytes(identity.handshake_id as nat, 16));
    assert(payload.subrange(16, 32) =~= metadata);
    assert(payload.subrange(32, 48) =~= crate::bytes::be_bytes(identity.transition_id as nat, 16));
    assert(payload.subrange(48, 49) =~= crate::bytes::be_bytes(code, 1));
    assert(payload.subrange(49, 53) =~= generation);
    assert(payload.subrange(53, 57) =~= epoch);
}

/// Receipts that are read alike are alike: no two say the same under different
/// bytes.
pub proof fn lemma_receipts_are_read_in_one_way(a: Seq<u8>, b: Seq<u8>)
    requires
        crate::relay_wire::receipt_of_bytes(a) is Ok,
        crate::relay_wire::receipt_of_bytes(a) == crate::relay_wire::receipt_of_bytes(b),
    ensures
        a == b,
        crate::relay_wire::receipt_of_bytes(a)->Ok_0.transition_id != 0,
{
    crate::bytes::lemma_pow256();
    lemma_parts_of_receipt(a);
    lemma_parts_of_receipt(b);
    assert(a == b);
}

/// A payload that is a receipt is the one that its receipt is sent as.
proof fn lemma_parts_of_receipt(payload: Seq<u8>)
    requires
        crate::relay_wire::receipt_of_bytes(payload) is Ok,
    ensures
        payload == crate::relay_wire::receipt_bytes(
            crate::relay_wire::receipt_of_bytes(payload)->Ok_0,
        ),
        crate::relay_wire::receipt_of_bytes(payload)->Ok_0.transition_id != 0,
{
    let identity = crate::relay_wire::receipt_of_bytes(payload)->Ok_0;
    crate::bytes::lemma_pow256();
    crate::bytes::lemma_be_bytes_of_value(payload.subrange(0, 16));
    crate::bytes::lemma_be_bytes_of_value(payload.subrange(16, 32));
    crate::bytes::lemma_be_bytes_of_value(payload.subrange(32, 48));
    crate::bytes::lemma_be_bytes_of_value(payload.subrange(48, 49));
    crate::bytes::lemma_be_bytes_of_value(payload.subrange(49, 53));
    crate::bytes::lemma_be_bytes_of_value(payload.subrange(53, 57));
    assert(payload =~= payload.subrange(0, 16) + payload.subrange(16, 32) + payload.subrange(32, 48)
        + payload.subrange(48, 49) + payload.subrange(49, 53) + payload.subrange(53, 57));
}

/// The packet types that belong to a handshake, and those that confirm one: no
/// type is both.
pub proof fn lemma_packet_types_are_apart(packet_type: u8)
    ensures
        crate::relay_wire::is_handshake_type(packet_type) <==> (packet_type == 20 || packet_type
            == 21 || packet_type == 28 || packet_type == 29),
        crate::relay_wire::is_confirmation_type(packet_type) <==> 22 <= packet_type <= 27,
        !(crate::relay_wire::is_handshake_type(packet_type)
            && crate::relay_wire::is_confirmation_type(packet_type)),
{
}

/// A token that is sent is the token that arrives. One of another length, or all
/// zero, is refused; that none was sent is seen too.
pub proof fn lemma_tokens_arrive(id: u128, bytes: Seq<u8>)
    ensures
        crate::relay_handshake::token_bytes(Some(id)).len() == 16,
        id != 0 ==> crate::relay_handshake::acknowledged_by(
            crate::relay_handshake::token_bytes(Some(id)),
        ) == Ok::<Option<u128>, RelayError>(Some(id)),
        id != 0 ==> crate::relay_wire::transition_id_of(
            crate::relay_handshake::token_bytes(Some(id)),
        ) == Ok::<u128, RelayError>(id),
        crate::relay_handshake::acknowledged_by(crate::relay_handshake::token_bytes(None)) == Ok::<
            Option<u128>,
            RelayError,
        >(None),
        bytes.len() != 16 ==> crate::relay_wire::transition_id_of(bytes) is Err,
        bytes.len() != 16 && bytes.len() != 0 ==> crate::relay_handshake::acknowledged_by(bytes)
            is Err,
        crate::relay_wire::transition_id_of(crate::relay_handshake::token_bytes(Some(0))) is Err,
        crate::relay_handshake::acknowledged_by(crate::relay_handshake::token_bytes(Some(0)))
            is Err,
{
    crate::bytes::lemma_pow256();
    broadcast use crate::bytes::lemma_be_bytes_len;

    crate::bytes::lemma_be_value_of_bytes(id as nat, 16);
    crate::bytes::lemma_be_value_of_bytes(0, 16);
}

/// A message that names a transition.
pub open spec fn names(message: RecoveryMessage, fields: TransitionFields) -> bool {
    &&& message.session_metadata_id == Some(fields.session_metadata_id)
    &&& message.action == Some(fields.action)
    &&& message.session_generation == fields.session_generation
    &&& message.initial_epoch == fields.initial_epoch
    &&& message.root_key_digest@ == fields.root_key_digest.bytes()
    &&& message.transition_id@ == crate::bytes::be_bytes(fields.transition_id as nat, 16)
}

/// A transition that is named in a message is the one that is read from it; only
/// its local revision is not sent.
pub proof fn lemma_named_transition_arrives(message: RecoveryMessage, fields: TransitionFields)
    requires
        names(message, fields),
        fields.transition_id != 0,
    ensures
        crate::relay_wire::recovery_check(message) is Ok,
        crate::relay_wire::recovery_fields(message).session_metadata_id
            == fields.session_metadata_id,
        crate::relay_wire::recovery_fields(message).action == fields.action,
        crate::relay_wire::recovery_fields(message).session_generation
            == fields.session_generation,
        crate::relay_wire::recovery_fields(message).initial_epoch == fields.initial_epoch,
        crate::relay_wire::recovery_fields(message).transition_id == fields.transition_id,
        crate::relay_wire::recovery_fields(message).root_key_digest == fields.root_key_digest,
        fields.authenticated_as(crate::relay_wire::recovery_fields(message)),
{
    let key = fields.root_key_digest;
    crate::bytes::lemma_pow256();
    broadcast use crate::bytes::lemma_be_bytes_len;

    crate::bytes::lemma_be_value_of_bytes(fields.transition_id as nat, 16);
    crate::bytes::lemma_be_value_of_bytes(key.hi as nat, 16);
    crate::bytes::lemma_be_value_of_bytes(key.lo as nat, 16);
    assert(key.bytes().subrange(0, 16) =~= crate::bytes::be_bytes(key.hi as nat, 16));
    assert(key.bytes().subrange(16, 32) =~= crate::bytes::be_bytes(key.lo as nat, 16));
}

/// The offer of a reset is understood by the side that asked to recover the
/// transition: it gives the transition up, and none other.
pub proof fn lemma_reset_is_understood(
    draft: Msg1Draft,
    msg2: RelayNoiseMsg2,
    identity: InitiatorTransitionIdentity,
    fields: TransitionFields,
    algorithm: Seq<char>,
    b_conn_id: u128,
)
    requires
        draft.recovery == Some(fields),
        draft.expected_echo is None,
        draft.message.a_conn_id == Some(draft.conn_id),
        fields.transition_id != 0,
        crate::relay_handshake::offers_reset(msg2, identity, draft.message, algorithm, b_conn_id),
    ensures
        (identity.session_metadata_id == fields.session_metadata_id && identity.action
            == fields.action && identity.session_generation == fields.session_generation
            && identity.initial_epoch == fields.initial_epoch && identity.transition_id
            == fields.transition_id && identity.root_key_digest == fields.root_key_digest)
            <==> crate::relay_dial::msg2_verdict(draft, msg2) == Ok::<Msg2Verdict, RelayError>(
            Msg2Verdict::Reset,
        ),
{
    let other = TransitionFields {
        session_metadata_id: identity.session_metadata_id,
        action: identity.action,
        session_generation: identity.session_generation,
        initial_epoch: identity.initial_epoch,
        transition_id: identity.transition_id,
        transition_revision: fields.transition_revision,
        root_key_digest: identity.root_key_digest,
    };
    lemma_tokens_arrive(identity.transition_id, Seq::empty());
    crate::bytes::lemma_pow256();
    crate::bytes::lemma_be_value_of_bytes(identity.transition_id as nat, 16);
    assert(msg2.acknowledged_transition_id@ =~= Seq::<u8>::empty());
    if identity.transition_id != 0 {
        lemma_named_transition_arrives(msg2.recovery->0, other);
    }
}

/// A recovered transition is answered with what it was, and the side that asked
/// goes on with it.
pub proof fn lemma_recovery_is_understood(
    draft: Msg1Draft,
    msg2: RelayNoiseMsg2,
    prepared: UpsertResponderSessionReturn,
    fields: TransitionFields,
    session_metadata_id: u128,
    algorithm: Seq<char>,
    b_conn_id: u128,
)
    requires
        draft.recovery == Some(fields),
        draft.expected_echo is None,
        draft.message.a_conn_id == Some(draft.conn_id),
        draft.message.recovery is Some,
        names(draft.message.recovery->0, fields),
        fields.transition_id != 0,
        prepared.transition_id == fields.transition_id,
        prepared.root_key is Some,
        crate::relay_handshake::answers(
            msg2,
            prepared,
            session_metadata_id,
            draft.message,
            algorithm,
            b_conn_id,
            true,
            None,
        ),
    ensures
        crate::relay_dial::msg2_verdict(draft, msg2) == Ok::<Msg2Verdict, RelayError>(
            Msg2Verdict::Proceed {
                action: prepared.action,
                session_generation: prepared.session_generation,
                root_key: prepared.root_key,
                initial_epoch: prepared.initial_epoch,
                transition_id: fields.transition_id,
                responder_metadata_id: session_metadata_id,
            },
        ),
{
    lemma_named_transition_arrives(msg2.recovery->0, fields);
    lemma_tokens_arrive(prepared.transition_id, Seq::empty());
    assert(msg2.acknowledged_transition_id@ =~= Seq::<u8>::empty());
    let key = prepared.root_key->0;
    crate::bytes::lemma_pow256();
    broadcast use crate::bytes::lemma_be_bytes_len;

    crate::bytes::lemma_be_value_of_bytes(key.hi as nat, 16);
    crate::bytes::lemma_be_value_of_bytes(key.lo as nat, 16);
    assert(key.bytes().subrange(0, 16) =~= crate::bytes::be_bytes(key.hi as nat, 16));
    assert(key.bytes().subrange(16, 32) =~= crate::bytes::be_bytes(key.lo as nat, 16));
}

/// Nothing follows from an answer that is of another protocol version, that was
/// made for another first message, or that does not repeat the acknowledged
/// transition.
pub proof fn lemma_only_the_own_answer_counts(draft: Msg1Draft, msg2: RelayNoiseMsg2)
    requires
        crate::relay_dial::msg2_verdict(draft, msg2) is Ok,
    ensures
        msg2.version == 2,
        msg2.a_conn_id_echo == Some(draft.conn_id),
        crate::relay_dial::msg2_verdict(draft, msg2)->Ok_0 is NotReady <==> !msg2.accepted,
        !msg2.accepted ==> msg2.acknowledged_transition_id@.len() == 0,
        msg2.accepted && draft.expected_echo is None ==> msg2.acknowledged_transition_id@.len()
            == 0,
        msg2.accepted && draft.expected_echo is Some ==> {
            &&& msg2.acknowledged_transition_id@.len() == 16
            &&& crate::bytes::be_value(msg2.acknowledged_transition_id@)
                == draft.expected_echo->0
        },
        crate::relay_dial::msg2_verdict(draft, msg2)->Ok_0 is Proceed && draft.recovery is Some
            ==> msg2.recovery is Some,
        crate::relay_dial::msg2_verdict(draft, msg2)->Ok_0 is Reset ==> draft.recovery is Some
            && msg2.recovery_reset,
{
    crate::bytes::lemma_pow256();
    crate::bytes::lemma_be_bytes_of_value(msg2.acknowledged_transition_id@);
}

/// A transition in doubt is taken up only with the peer that it was started
/// with. Without one any peer whose key is known can be dialed.
pub proof fn lemma_doubt_is_settled_with_the_same_peer(
    store: StoreModel,
    key: SessionKeyModel,
    remote_key: Option<Key32>,
)
    ensures
        crate::relay_dial::dial_check(store, key, remote_key) is Ok <==> {
            &&& remote_key is Some
            &&& store.rec(key).in_doubt is Some ==> store.in_doubt_static_key(key) == remote_key
        },
{
}

/// Data has a session exactly where one is published, the peer does not wait for
/// another, and the session speaks for the peer.
pub proof fn lemma_data_has_the_published_session(
    peer: RelayPeer,
    store: StoreModel,
    authority: RelayAuthority,
    key: SessionKeyModel,
    peer_id: PeerId,
    id: SessionId,
)
    ensures
        crate::relay_dial::session_ensured(peer, store, authority, key, peer_id).0 == Ok::<
            SessionId,
            RelayError,
        >(id) <==> {
            &&& store.published(key) == Some(id)
            &&& !(peer.send is Some && peer.send->0.phase == RelaySendPhase::AwaitingSession)
            &&& peer.auth is Some || authority.binding(peer_id, store.sess(id)) is Ok
        },
        ({
            let after = crate::relay_dial::session_ensured(peer, store, authority, key, peer_id).1;
            &&& after.send == peer.send
            &&& after.responder == peer.responder
            &&& peer.auth is Some ==> after.auth == peer.auth
            &&& after.auth is Some && peer.auth is None ==> store.published(key) is Some
                && authority.binding(peer_id, store.sess(store.published(key)->0)) == Ok::<
                crate::relay_auth::RelaySessionAuthBinding,
                RelayError,
            >(after.auth->0)
        }),
{
}

/// A handshake is started only where no session is ready, and not while an
/// earlier failure is waited out.
pub proof fn lemma_handshakes_are_not_hurried(
    peer: RelayPeer,
    store: StoreModel,
    authority: RelayAuthority,
    key: SessionKeyModel,
    peer_id: PeerId,
    now_ms: u64,
)
    ensures
        ({
            let needed = crate::relay_dial::handshake_needed(
                peer,
                store,
                authority,
                key,
                peer_id,
                now_ms,
            );
            let ready = store.published(key) is Some && (peer.send is None || peer.send->0.phase
                == RelaySendPhase::Ready);
            let waits = peer.state is Some && peer.state->0.next_retry_at is Some && now_ms
                < peer.state->0.next_retry_at->0;
            &&& needed.0 == Ok::<Option<SessionId>, RelayError>(None) <==> !ready && !waits
            &&& needed.0 == Err::<Option<SessionId>, RelayError>(RelayError::HandshakeBackoff)
                ==> !ready && waits
            &&& !ready && waits ==> needed.0 == Err::<Option<SessionId>, RelayError>(
                RelayError::HandshakeBackoff,
            )
            &&& needed.0 matches Ok(Some(id)) ==> store.published(key) == Some(id)
        }),
{
}

/// A packet of a handshake goes to the one who waits for exactly this handshake,
/// and is ignored where nobody does; nothing else of the peer changes.
pub proof fn lemma_answers_go_to_their_handshake(peer: RelayPeer, packet: PacketModel)
    requires
        packet.header is Some,
        packet.payload.len() >= 16,
    ensures
        ({
            let sent = crate::relay_dial::dispatched(peer, packet);
            let id = crate::bytes::be_value(packet.payload.subrange(0, 16)) as u128;
            let kind = packet.header->0.packet_type;
            &&& sent.0 is Ok
            &&& kind == PACKET_RELAY_HANDSHAKE_ACK ==> {
                let waited = peer.pending_handshake is Some
                    && peer.pending_handshake->0.handshake_id == id
                    && peer.pending_handshake->0.waiting;
                &&& waited ==> sent.0->Ok_0 == (HandshakeDispatch::Answer { handshake_id: id })
                &&& !waited ==> sent.0->Ok_0 == HandshakeDispatch::Ignore
            }
            &&& kind == PACKET_RELAY_HANDSHAKE_RESET_ACK ==> {
                let waited = peer.reset_ack is Some && peer.reset_ack->0.handshake_id == id
                    && peer.reset_ack->0.waiting;
                &&& waited ==> sent.0->Ok_0 == (HandshakeDispatch::ResetAnswer {
                    handshake_id: id,
                })
                &&& !waited ==> sent.0->Ok_0 == HandshakeDispatch::Ignore
            }
            &&& kind == 20 ==> sent.0->Ok_0 == (HandshakeDispatch::Msg1 { handshake_id: id })
            &&& kind == 28 ==> sent.0->Ok_0 == (HandshakeDispatch::Reset { handshake_id: id })
            &&& kind != 20 && kind != 21 && kind != 28 && kind != 29 ==> sent.0->Ok_0
                == HandshakeDispatch::Ignore
            &&& sent.0->Ok_0 == HandshakeDispatch::Ignore ==> sent.1 == peer
            &&& sent.1.send == peer.send
            &&& sent.1.responder == peer.responder
        }),
{
}

/// A first message is taken only in the right version, under the identifier that
/// its packet carries, and from the holder of the key that the sender is known
/// by.
pub proof fn lemma_first_message_is_its_senders(
    msg1: RelayNoiseMsg1,
    handshake_id: u128,
    expected_key: Key32,
    remote_static: Seq<u8>,
)
    ensures
        crate::relay_handshake::msg1_check(msg1, handshake_id, expected_key, remote_static) is Ok
            <==> {
            &&& msg1.version == 2
            &&& msg1.a_conn_id == Some(handshake_id)
            &&& remote_static == expected_key.bytes()
        },
{
}

/// While an answer is pending and in time, the same first message gets the same
/// answer again, and another one is refused.
pub proof fn lemma_one_answer_at_a_time(
    peer: RelayPeer,
    store: StoreModel,
    quotas: SessionQuotas,
    my_peer_id: PeerId,
    remote_peer_id: PeerId,
    handshake_id: u128,
    key: Key32,
    remote_static: Seq<u8>,
    msg1: RelayNoiseMsg1,
    packet: PacketModel,
    now_ms: u64,
    admission: Result<Msg1Admission, RelayError>,
    peer_after: RelayPeer,
    store_after: StoreModel,
    quotas_after: SessionQuotas,
)
    requires
        crate::relay_handshake::msg1_admitted(
            peer,
            store,
            quotas,
            my_peer_id,
            remote_peer_id,
            handshake_id,
            Some(key),
            remote_static,
            msg1,
            packet,
            now_ms,
            admission,
            peer_after,
            store_after,
            quotas_after,
        ),
        msg1.version == 2,
        msg1.a_conn_id == Some(handshake_id),
        remote_static == key.bytes(),
        peer.pending_handshake is None,
        !peer.has_completed_handshake(handshake_id, now_ms),
        peer.responder is Some,
        now_ms < peer.responder->0.deadline,
    ensures
        store_after == store,
        quotas_after == quotas,
        peer_after.responder == peer.responder,
        handshake_id == peer.responder->0.handshake_id ==> (admission matches Ok(
            Msg1Admission::Resend { response },
        ) && response@ == peer.responder->0.response@),
        handshake_id != peer.responder->0.handshake_id ==> admission is Err,
{
}

/// The sum of the waits after the first `sends` sends of a confirmation.
pub open spec fn waited(sends: int) -> int
    decreases sends,
{
    if sends <= 0 {
        0
    } else {
        waited(sends - 1) + crate::relay_initiator::retry_delay(sends - 1)
    }
}

/// The wait for an answer starts at two hundred milliseconds and doubles up to
/// five seconds. All eight attempts of a stage fit the time that the other side
/// leaves for it, for both stages before the answer and for one after it.
pub proof fn lemma_confirmation_fits_its_window(sends: int)
    ensures
        crate::relay_initiator::retry_delay(0) == 200,
        sends >= 0 ==> {
            let now = crate::relay_initiator::retry_delay(sends);
            let next = crate::relay_initiator::retry_delay(sends + 1);
            &&& 2 * now <= 5_000 ==> next == 2 * now
            &&& 2 * now > 5_000 ==> next == 5_000
        },
        waited(8) == 21_200,
        2 * waited(8) < crate::relay_peer::answer_lifetime(),
        waited(8) < crate::relay_peer::confirmed_lifetime(),
{
    reveal_with_fuel(crate::relay_initiator::retry_delay, 9);
    reveal_with_fuel(waited, 9);
}

/// A confirmation is sent again, with a longer wait, until eight were sent; a
/// ninth is never sent.
pub proof fn lemma_confirmation_is_sent_eight_times(
    driver: ConfirmationDriver,
    peer: RelayPeer,
    store: StoreModel,
    quotas: SessionQuotas,
    step: ConfirmationStep,
    driver_after: ConfirmationDriver,
    peer_after: RelayPeer,
    store_after: StoreModel,
    quotas_after: SessionQuotas,
)
    requires
        driver.sends <= 8,
        crate::relay_initiator::confirming_step(
            driver,
            peer,
            store,
            quotas,
            RelayOutcome::Waiting,
            step,
            driver_after,
            peer_after,
            store_after,
            quotas_after,
        ),
    ensures
        step is Send <==> driver.sends < 8,
        step is Send ==> {
            &&& step->packet_type == PACKET_RELAY_HANDSHAKE_CONFIRM
            &&& step->wait_ms == crate::relay_initiator::retry_delay(driver.sends as int)
            &&& driver_after.sends == driver.sends + 1
            &&& peer_after == peer
            &&& store_after == store
            &&& quotas_after == quotas
        },
        !(step is Send) ==> step is Failed,
{
}

/// Data opens under the published session alone. Under a pending answer only
/// its own confirmations open, and under a staged transition only the
/// acknowledgements of it, while they are waited for.
pub proof fn lemma_data_opens_under_the_published_session(
    peer: RelayPeer,
    store: StoreModel,
    key: SessionKeyModel,
    packet_type: u8,
    now_ms: u64,
)
    ensures
        ({
            let choice = crate::relay_open::session_choice(peer, store, key, packet_type, now_ms);
            &&& packet_type < 22 || packet_type > 25 ==> match store.published(key) {
                Some(id) => choice == (OpenChoice::Active { session: id }),
                None => if 20 <= packet_type <= 29 {
                    choice == OpenChoice::NeedsSession
                } else {
                    choice == OpenChoice::Refused
                },
            }
            &&& choice is Answered <==> peer.responder is Some && (packet_type == 22 || packet_type
                == 24)
            &&& choice is Answered ==> choice->Answered_session
                == peer.responder->0.prepared.session
            &&& choice is Staged <==> (packet_type == 23 || packet_type == 25)
                && peer.confirmation is Some && now_ms < peer.confirmation->0.expires_at
            &&& choice is Staged ==> choice->Staged_session == peer.confirmation->0.session
                && choice->identity == peer.confirmation->0.identity
            &&& choice is Active ==> store.published(key) == Some(choice->Active_session)
        }),
{
}

/// What opens under a staged session is the acknowledgement of its own
/// transition, and carries the proof of its origin.
pub proof fn lemma_staged_session_opens_its_own(
    packet: PacketModel,
    staged: SessionId,
    identity: RelayConfirmationIdentity,
    session: PeerSessionModel,
)
    requires
        crate::relay_open::opened_check(
            packet,
            OpenChoice::Staged { session: staged, identity },
            session,
        ) is Ok,
    ensures
        packet.header is Some,
        session.metadata_session_id == identity.session_id,
        packet.payload.len() == 48,
        crate::bytes::be_value(packet.payload.subrange(0, 16)) == identity.handshake_id,
        crate::bytes::be_value(packet.payload.subrange(16, 32)) == identity.transition_id,
        crate::bytes::be_value(packet.payload.subrange(32, 36)) == 0x4c52_5031,
        packet.payload.subrange(36, 48) == packet.header->0.stable_fields(),
{
    let bare = packet.payload.take(packet.payload.len() - 16);
    crate::bytes::lemma_pow256();
    crate::bytes::lemma_be_bytes_of_value(bare.subrange(0, 16));
    crate::bytes::lemma_be_bytes_of_value(bare.subrange(16, 32));
    assert(packet.payload.subrange(0, 16) =~= bare.subrange(0, 16));
    assert(packet.payload.subrange(16, 32) =~= bare.subrange(16, 32));
}

/// A packet that was opened in a batch is either refused, or it is what its
/// sender sealed, without the proof, and known to be from them: a verified peer
/// and no more. Complete Ethernet needs the grant.
pub proof fn lemma_batch_packet_is_its_senders(
    packet: PacketModel,
    was_opened: bool,
    peer_id: PeerId,
    group: GroupAuthority,
    outcome: RelayBatchDecryptOutcome,
    packet_after: PacketModel,
)
    requires
        crate::relay_open::batch_opened(
            packet,
            was_opened,
            peer_id,
            group,
            outcome,
            packet_after,
        ),
    ensures
        outcome == RelayBatchDecryptOutcome::Decrypted <==> {
            &&& was_opened
            &&& crate::relay_wire::origin_proof_check(packet) is Ok
            &&& packet.has_type(PACKET_ETHERNET) ==> group.bridge_valid
            &&& packet.verified_origin is Some ==> packet.verified_origin->0 == (VerifiedOrigin {
                peer_id,
                identity_type: group.identity,
                secure_auth_level: crate::packet::SecureAuthLevel::PeerVerified,
                session_id: group.session_id,
            })
        },
        outcome == RelayBatchDecryptOutcome::Decrypted || outcome
            == RelayBatchDecryptOutcome::Failed,
        outcome == RelayBatchDecryptOutcome::Decrypted ==> {
            &&& packet_after.header == packet.header
            &&& packet.payload.len() == packet_after.payload.len() + 16
            &&& packet_after.payload == packet.payload.take(packet_after.payload.len() as int)
            &&& packet_after.verified_origin is Some
            &&& packet_after.verified_origin->0.peer_id == peer_id
            &&& packet_after.verified_origin->0.session_id == group.session_id
        },
        outcome == RelayBatchDecryptOutcome::Failed ==> packet_after.verified_origin
            == packet.verified_origin,
{
}

/// Only sealed packets that belong to no handshake are opened in a batch, and
/// each under the published session of its own sender.
pub proof fn lemma_batch_opens_under_the_senders_session(
    packet: PacketModel,
    store: StoreModel,
    network_name: Seq<char>,
)
    ensures
        ({
            let choice = crate::relay_open::batch_choice(packet, store, network_name);
            let sealed = packet.header is Some && packet.header->0.encrypted() && !(20
                <= packet.header->0.packet_type <= 29);
            let session = store.published(
                SessionKeyModel { network_name, peer_id: packet.header->0.from_peer_id },
            );
            &&& choice is NotAttempted <==> !sealed
            &&& sealed && session is None ==> choice is Failed
            &&& sealed && session is Some ==> choice == (BatchChoice::Open {
                peer_id: packet.header->0.from_peer_id,
                session: session->0,
                requires_grant: packet.header->0.packet_type == PACKET_ETHERNET
                    && !packet.header->0.hybrid(),
            })
        }),
{
}

/// An acknowledgement counts once: after it was taken, the same one is ignored.
pub proof fn lemma_acknowledgement_counts_once(
    peer: RelayPeer,
    store: StoreModel,
    quotas: SessionQuotas,
    authority: RelayAuthority,
    key: SessionKeyModel,
    peer_id: PeerId,
    identity: RelayConfirmationIdentity,
    now_ms: u64,
    reply: Result<ConfirmationReply, RelayError>,
    peer_after: RelayPeer,
    store_after: StoreModel,
    quotas_after: SessionQuotas,
)
    requires
        crate::relay_confirmation::ack_handled(
            peer,
            store,
            quotas,
            authority,
            key,
            peer_id,
            PACKET_RELAY_HANDSHAKE_CONFIRM_ACK,
            identity,
            now_ms,
            reply,
            peer_after,
            store_after,
            quotas_after,
        ),
    ensures
        store_after == store,
        quotas_after == quotas,
        reply is Ok,
        reply->Ok_0 is Accepted <==> {
            &&& peer.confirmation is Some
            &&& peer.confirmation->0.identity == identity
            &&& peer.confirmation->0.expected_packet_type == PACKET_RELAY_HANDSHAKE_CONFIRM_ACK
            &&& peer.confirmation->0.outcome == RelayOutcome::Waiting
        },
        !(reply->Ok_0 is Accepted) ==> reply->Ok_0 is Ignore && peer_after == peer,
        !crate::relay_confirmation::ack_expected(
            peer_after,
            PACKET_RELAY_HANDSHAKE_CONFIRM_ACK,
            identity,
        ) || peer_after.confirmation->0.outcome == RelayOutcome::Canceled,
{
}

/// A receipt is taken only for the session that is published, and only for the
/// committed transition whose proof is pending; it is answered again, without any
/// change, while it is remembered.
pub proof fn lemma_receipts_are_of_the_pending_proof(
    peer: RelayPeer,
    store: StoreModel,
    settled: StoreModel,
    key: SessionKeyModel,
    identity: RelayReadyReceiptIdentity,
    now_ms: u64,
)
    requires
        crate::relay_confirmation::receipt_check(peer, store, settled, key, identity, now_ms)
            is Ok,
    ensures
        store.published(key) is Some,
        store.sess(store.published(key)->0).metadata_session_id == identity.session_metadata_id,
        ({
            let first = crate::relay_confirmation::receipt_check(
                peer,
                store,
                settled,
                key,
                identity,
                now_ms,
            )->Ok_0;
            &&& first <==> !peer.has_completed_receipt(identity, now_ms)
            &&& first ==> {
                &&& settled.rec(key).recovery is Some
                &&& settled.rec(key).recovery->0.identity.transition_id == identity.transition_id
            }
        }),
{
}

/// The answer that a peer waits with is confirmed only under its own handshake,
/// transition and session, and before its time is over.
pub proof fn lemma_answers_are_confirmed_in_time(
    peer: RelayPeer,
    store: StoreModel,
    identity: RelayConfirmationIdentity,
    now_ms: u64,
)
    ensures
        crate::relay_confirmation::answer_live(peer, store, identity, now_ms) <==> {
            &&& peer.responder is Some
            &&& now_ms < peer.responder->0.deadline
            &&& peer.responder->0.handshake_id == identity.handshake_id
            &&& peer.responder->0.transition_id == identity.transition_id
            &&& store.sess(peer.responder->0.prepared.session).metadata_session_id
                == identity.session_id
        },
        crate::relay_peer_map::is_late(peer, now_ms) <==> peer.responder is Some
            && peer.responder->0.deadline <= now_ms,
        crate::relay_handshake::answer_late(peer, now_ms) == crate::relay_peer_map::is_late(
            peer,
            now_ms,
        ),
{
}

/// A peer is idle once it was not active for longer than the given time; a clock
/// that went back makes none idle.
pub proof fn lemma_active_peers_are_kept(peer: RelayPeer, idle_ms: u64, now_ms: u64, left: Option<RelayPeer>)
    requires
        crate::relay_peer_map::swept_as(peer, idle_ms, now_ms, left),
    ensures
        crate::relay_peer_map::is_idle(peer, idle_ms, now_ms) <==> peer.state is Some && now_ms
            > peer.state->0.last_active_at + idle_ms,
        peer.state is Some && now_ms <= peer.state->0.last_active_at + idle_ms ==> left == Some(
            peer,
        ),
        peer.state is None ==> left == Some(peer),
        peer.state is Some && now_ms > peer.state->0.last_active_at + idle_ms && left is Some ==> {
            &&& left->0.send is None
            &&& left->0.responder is None
            &&& left->0.receipt == peer.receipt
            &&& left->0.reset_ack == peer.reset_ack
        },
        peer.receipt is Some || peer.reset_ack is Some ==> left is Some,
{
}

} // verus!
