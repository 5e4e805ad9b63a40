//! The initiator of a relay handshake.

use vstd::prelude::*;
use crate::bytes::Key32;
use crate::initiator_store::{InitiatorAsk, InitiatorSessionReservation, ReservationState};
use crate::outside::new_uuid;
use crate::packet::{
    Packet, PacketModel, PeerId, PACKET_RELAY_HANDSHAKE, PACKET_RELAY_HANDSHAKE_ACK,
    PACKET_RELAY_HANDSHAKE_RESET, PACKET_RELAY_HANDSHAKE_RESET_ACK,
};
use crate::relay_auth::RelayAuthority;
use crate::relay_handshake::{
    acknowledged_transition, token_to_wire, RelayNoiseMsg1, RelayNoiseMsg2,
};
use crate::relay_peer::{
    DeferredHandshake, PendingHandshake, PendingReadyReceipt, PendingResetAck, RelayPeer,
    HANDSHAKE_MAX_ATTEMPTS,
};
use crate::relay_queue::{RelaySendPhase, RelaySendState};
use crate::relay_wire::{
    recovery_identity_from_pb, recovery_pb_from_identity, transition_id_from_wire,
    validate_relay_protocol_version, RecoveryMessage, RelayError, RELAY_HANDSHAKE_ID_SIZE,
    RELAY_NOISE_VERSION,
};
use crate::route_trait::NextHopPolicy;
use crate::session_store::{PeerSessionStore, SessionId, SessionQuotas, StoreModel};
use crate::session_types::{
    IdentityModel, InitiatorTransitionIdentity, PeerSessionAction, SessionError, SessionKey,
    SessionKeyModel, TransitionFields,
};

verus! {

/// What an initiator remembers of its first message.
pub struct Msg1Draft {
    pub conn_id: u128,
    /// The transition in doubt that is to be recovered.
    pub recovery: Option<TransitionFields>,
    /// The receipt that this transition is to replace.
    pub previous_receipt: Option<TransitionFields>,
    /// The token that the answer has to repeat.
    pub expected_echo: Option<u128>,
    pub message: RelayNoiseMsg1,
}

/// Whether a first message can be sent, or why not. A transition in doubt is
/// only recovered with the peer that it was started with.
pub open spec fn dial_check(store: StoreModel, key: SessionKeyModel, remote_key: Option<Key32>) -> Result<
    (),
    RelayError,
> {
    if remote_key is None {
        Err(RelayError::PeerKeyNotReady)
    } else if store.rec(key).in_doubt is Some {
        match store.in_doubt_static_key(key) {
            None => Err(RelayError::RetainedKeyMissing),
            Some(retained) => if remote_key != Some(retained) {
                Err(RelayError::RetainedKeyMismatch)
            } else {
                Ok(())
            },
        }
    } else {
        Ok(())
    }
}

/// What a first message says.
pub open spec fn drafted(
    store: StoreModel,
    key: SessionKeyModel,
    algorithm: Seq<char>,
    conn_id: u128,
    draft: Msg1Draft,
) -> bool {
    let record = store.rec(key);
    &&& draft.conn_id == conn_id
    &&& draft.recovery == (match record.in_doubt {
        Some(kept) => Some(kept.identity),
        None => None,
    })
    &&& draft.previous_receipt == (match record.receipt {
        Some(receipt) => Some(receipt.identity),
        None => None,
    })
    &&& draft.expected_echo == (if record.in_doubt is None && record.receipt is Some {
        Some((record.receipt->0).identity.transition_id)
    } else {
        None
    })
    &&& draft.message.version == RELAY_NOISE_VERSION
    &&& draft.message.a_session_generation == (match store.published(key) {
        Some(id) => Some(store.sess(id).datagram.session_generation),
        None => None,
    })
    &&& draft.message.a_conn_id == Some(conn_id)
    &&& draft.message.client_encryption_algorithm@ == algorithm
    &&& draft.message.recovery is Some <==> record.in_doubt is Some
    &&& draft.message.recovery matches Some(recovery) ==> {
        let fields = record.in_doubt->0.identity;
        &&& recovery.session_metadata_id == Some(fields.session_metadata_id)
        &&& recovery.action == Some(fields.action)
        &&& recovery.session_generation == fields.session_generation
        &&& recovery.initial_epoch == fields.initial_epoch
        &&& recovery.root_key_digest@ == fields.root_key_digest.bytes()
        &&& recovery.transition_id@ == crate::relay_handshake::token_bytes(
            Some(fields.transition_id),
        )
    }
    &&& draft.message.acknowledged_transition_id@ == crate::relay_handshake::token_bytes(
        draft.expected_echo,
    )
}

impl RelayPeer {
    /// Drafts the first message of a handshake under a given connection
    /// identifier.
    pub fn draft_msg1_as(
        store: &mut PeerSessionStore,
        key: &SessionKey,
        remote_key: Option<Key32>,
        algorithm: &String,
        conn_id: u128,
        now_ms: u64,
    ) -> (draft: Result<Msg1Draft, RelayError>)
        requires
            old(store).wf(),
        ensures
            final(store).wf(),
            crate::relay_peer::keeps_sessions(old(store)@, final(store)@),
            match dial_check(old(store)@, key@, remote_key) {
                Err(e) => draft is Err && draft->Err_0 == e,
                Ok(_) => draft matches Ok(d) && drafted(old(store)@, key@, algorithm@, conn_id, d),
            },
            final(store)@ == (if remote_key is None {
                old(store)@
            } else {
                old(store)@.after_get(key@, now_ms)
            }),
    {
        let remote = match remote_key {
            Some(remote) => remote,
            None => {
                return Err(RelayError::PeerKeyNotReady);
            },
        };
        proof {
            crate::session_store::lemma_sound_record(store@, key@);
        }
        let a_session_generation = match store.get(key, now_ms) {
            Some(id) => match store.session(id) {
                Some(session) => Some(session.session_generation()),
                None => None,
            },
            None => None,
        };
        let recovery = store.in_doubt_identity(key);
        if recovery.is_some() {
            match store.in_doubt_peer_static_pubkey(key) {
                None => {
                    return Err(RelayError::RetainedKeyMissing);
                },
                Some(retained) => {
                    if retained != remote {
                        return Err(RelayError::RetainedKeyMismatch);
                    }
                },
            }
        }
        // The exact earlier receipt is replaced after this transition. Its token
        // is sent only when this handshake does not recover another one.
        let previous_receipt = match store.receipt_of(key) {
            Some(receipt) => Some(receipt.identity),
            None => None,
        };
        let expected_echo = match (&recovery, previous_receipt) {
            (None, Some(previous)) => Some(previous.transition_id),
            _ => None,
        };
        let acknowledged_transition_id = token_to_wire(expected_echo);
        let message_recovery = match &recovery {
            Some(identity) => Some(recovery_pb_from_identity(identity)),
            None => None,
        };
        let recovery_fields = match &recovery {
            Some(identity) => Some(identity.fields()),
            None => None,
        };
        Ok(
            Msg1Draft {
                conn_id,
                recovery: recovery_fields,
                previous_receipt,
                expected_echo,
                message: RelayNoiseMsg1 {
                    version: RELAY_NOISE_VERSION,
                    a_session_generation,
                    a_conn_id: Some(conn_id),
                    client_encryption_algorithm: algorithm.clone(),
                    recovery: message_recovery,
                    acknowledged_transition_id,
                },
            },
        )
    }

    /// Drafts the first message of a handshake under a fresh connection
    /// identifier. The system may have no random bytes for one.
    pub fn draft_msg1(
        store: &mut PeerSessionStore,
        key: &SessionKey,
        remote_key: Option<Key32>,
        algorithm: &String,
        now_ms: u64,
    ) -> (draft: Result<Msg1Draft, RelayError>)
        requires
            old(store).wf(),
        ensures
            final(store).wf(),
            crate::relay_peer::keeps_sessions(old(store)@, final(store)@),
            match dial_check(old(store)@, key@, remote_key) {
                Err(e) => draft is Err && draft->Err_0 == e,
                Ok(_) => {
                    ||| draft is Err && draft->Err_0 == RelayError::HandshakeFailed
                    ||| draft is Ok && exists|conn_id: u128|
                        crate::outside::is_v4_identifier(conn_id) && #[trigger] drafted(
                            old(store)@,
                            key@,
                            algorithm@,
                            conn_id,
                            draft->Ok_0,
                        )
                },
            },
            final(store)@ == (if remote_key is None {
                old(store)@
            } else {
                old(store)@.after_get(key@, now_ms)
            }),
    {
        let mut draft = match RelayPeer::draft_msg1_as(store, key, remote_key, algorithm, 0, now_ms) {
            Ok(draft) => draft,
            Err(e) => {
                return Err(e);
            },
        };
        match new_uuid() {
            Some(conn_id) => {
                draft.conn_id = conn_id;
                draft.message.a_conn_id = Some(conn_id);
                let named: Result<Msg1Draft, RelayError> = Ok(draft);
                assert(crate::outside::is_v4_identifier(conn_id) && drafted(
                    old(store)@,
                    key@,
                    algorithm@,
                    conn_id,
                    named->Ok_0,
                ));
                named
            },
            None => Err(RelayError::HandshakeFailed),
        }
    }

    /// Notes that a first message is on its way.
    pub fn begin_handshake(&mut self, handshake_id: u128, payload: Vec<u8>, policy: NextHopPolicy)
        ensures
            *final(self) == (RelayPeer {
                pending_handshake: Some(
                    PendingHandshake { handshake_id, payload, policy, waiting: true },
                ),
                ..*old(self)
            }),
    {
        self.pending_handshake = Some(
            PendingHandshake { handshake_id, payload, policy, waiting: true },
        );
    }
}

/// What an accepted answer leads to.
#[derive(Clone, Copy, PartialEq, Eq, Structural)]
pub enum Msg2Verdict {
    /// The peer cannot answer yet.
    NotReady,
    /// The peer knows nothing of the transition in doubt: it is given up once
    /// the peer has confirmed that.
    Reset,
    Proceed {
        action: PeerSessionAction,
        session_generation: u32,
        root_key: Option<Key32>,
        initial_epoch: u32,
        transition_id: u128,
        responder_metadata_id: u128,
    },
}

/// The identity in a message, if there is one.
pub open spec fn identity_in(recovery: Option<RecoveryMessage>) -> Result<
    Option<TransitionFields>,
    RelayError,
> {
    match recovery {
        None => Ok(None),
        Some(message) => match crate::relay_wire::recovery_check(message) {
            Err(e) => Err(e),
            Ok(_) => Ok(Some(crate::relay_wire::recovery_fields(message))),
        },
    }
}

/// The part of an answer that comes before the other side is known to be ready.
pub open spec fn msg2_accepted(draft: Msg1Draft, msg2: RelayNoiseMsg2) -> Result<bool, RelayError> {
    if msg2.version != RELAY_NOISE_VERSION {
        Err(RelayError::UnsupportedProtocolVersion)
    } else if msg2.a_conn_id_echo != Some(draft.conn_id) {
        Err(RelayError::ConnIdEchoMismatch)
    } else if !msg2.accepted {
        if msg2.acknowledged_transition_id@.len() > 0 {
            Err(RelayError::RejectedWithAcknowledgement)
        } else {
            Ok(false)
        }
    } else {
        match crate::relay_handshake::acknowledged_by(msg2.acknowledged_transition_id@) {
            Err(e) => Err(e),
            Ok(echoed) => if draft.expected_echo is Some && echoed != draft.expected_echo {
                Err(RelayError::AcknowledgementMismatch)
            } else if draft.expected_echo is None && echoed is Some {
                Err(RelayError::UnexpectedAcknowledgement)
            } else {
                Ok(true)
            },
        }
    }
}

/// Whether an answer names the transition in doubt that is to be recovered.
pub open spec fn recovery_answered(
    local: Option<TransitionFields>,
    wire: Option<TransitionFields>,
    reset: bool,
) -> Result<(), RelayError> {
    if reset {
        match (local, wire) {
            (None, _) => Err(RelayError::ResetWithoutLocalIdentity),
            (Some(_), None) => Err(RelayError::ResetIdentityMissing),
            (Some(local), Some(wire)) => if local.authenticated_as(wire) {
                Ok(())
            } else {
                Err(RelayError::ResetIdentityMismatch)
            },
        }
    } else {
        match (local, wire) {
            (None, None) => Ok(()),
            (Some(local), Some(wire)) => if local.authenticated_as(wire) {
                Ok(())
            } else {
                Err(RelayError::RecoveryIdentityMismatch)
            },
            _ => Err(RelayError::RecoveryIdentityMismatch),
        }
    }
}

/// What an answer that was accepted says.
pub open spec fn msg2_read(draft: Msg1Draft, msg2: RelayNoiseMsg2) -> Result<Msg2Verdict, RelayError> {
    if msg2.b_session_metadata_id is None {
        Err(RelayError::SessionMetadataMissing)
    } else {
        match crate::relay_wire::transition_id_of(msg2.transition_id@) {
            Err(e) => Err(e),
            Ok(transition_id) => match identity_in(msg2.recovery) {
                Err(e) => Err(e),
                Ok(wire) => match recovery_answered(draft.recovery, wire, msg2.recovery_reset) {
                    Err(e) => Err(e),
                    Ok(_) => if draft.recovery is Some && draft.recovery->0.transition_id
                        != transition_id {
                        Err(RelayError::TransitionIdMismatch)
                    } else if msg2.recovery_reset {
                        reset_read(draft.recovery->0, msg2)
                    } else {
                        match msg2.action {
                            None => Err(RelayError::InvalidSessionAction),
                            Some(action) => Ok(
                                Msg2Verdict::Proceed {
                                    action,
                                    session_generation: msg2.b_session_generation,
                                    root_key: root_key_in(msg2.root_key_32),
                                    initial_epoch: msg2.initial_epoch,
                                    transition_id,
                                    responder_metadata_id: msg2.b_session_metadata_id->0,
                                },
                            ),
                        }
                    },
                },
            },
        }
    }
}

/// The root key in a message. One of another length than thirty-two bytes is
/// none.
pub open spec fn root_key_in(bytes: Option<Vec<u8>>) -> Option<Key32> {
    match bytes {
        Some(bytes) => if bytes@.len() == 32 {
            Some(Key32::of_bytes(bytes@))
        } else {
            None
        },
        None => None,
    }
}

/// Whether the offer of a reset repeats the transition in doubt.
pub open spec fn reset_read(local: TransitionFields, msg2: RelayNoiseMsg2) -> Result<
    Msg2Verdict,
    RelayError,
> {
    if msg2.b_session_metadata_id != Some(local.session_metadata_id) || msg2.action != Some(
        local.action,
    ) || msg2.b_session_generation != local.session_generation || msg2.initial_epoch
        != local.initial_epoch || msg2.root_key_32 is Some
        || msg2.acknowledged_transition_id@.len() > 0 {
        Err(RelayError::ResetTransitionMismatch)
    } else {
        Ok(Msg2Verdict::Reset)
    }
}

/// What an answer leads to.
pub open spec fn msg2_verdict(draft: Msg1Draft, msg2: RelayNoiseMsg2) -> Result<Msg2Verdict, RelayError> {
    match msg2_accepted(draft, msg2) {
        Err(e) => Err(e),
        Ok(false) => Ok(Msg2Verdict::NotReady),
        Ok(true) => msg2_read(draft, msg2),
    }
}

fn check_accepted(draft: &Msg1Draft, msg2: &RelayNoiseMsg2) -> (accepted: Result<bool, RelayError>)
    ensures
        accepted == msg2_accepted(*draft, *msg2),
{
    if let Err(e) = validate_relay_protocol_version(msg2.version) {
        return Err(e);
    }
    if msg2.a_conn_id_echo != Some(draft.conn_id) {
        return Err(RelayError::ConnIdEchoMismatch);
    }
    if !msg2.accepted {
        if msg2.acknowledged_transition_id.len() != 0 {
            return Err(RelayError::RejectedWithAcknowledgement);
        }
        return Ok(false);
    }
    let echoed = match acknowledged_transition(&msg2.acknowledged_transition_id) {
        Ok(echoed) => echoed,
        Err(e) => {
            return Err(e);
        },
    };
    if draft.expected_echo.is_some() {
        if echoed != draft.expected_echo {
            return Err(RelayError::AcknowledgementMismatch);
        }
    } else if echoed.is_some() {
        return Err(RelayError::UnexpectedAcknowledgement);
    }
    Ok(true)
}

fn check_recovery(
    local: Option<TransitionFields>,
    wire: Option<TransitionFields>,
    reset: bool,
) -> (checked: Result<(), RelayError>)
    ensures
        checked == recovery_answered(local, wire, reset),
{
    match (local, wire) {
        (None, None) => {
            if reset {
                Err(RelayError::ResetWithoutLocalIdentity)
            } else {
                Ok(())
            }
        },
        (None, Some(_)) => {
            if reset {
                Err(RelayError::ResetWithoutLocalIdentity)
            } else {
                Err(RelayError::RecoveryIdentityMismatch)
            }
        },
        (Some(_), None) => {
            if reset {
                Err(RelayError::ResetIdentityMissing)
            } else {
                Err(RelayError::RecoveryIdentityMismatch)
            }
        },
        (Some(local), Some(wire)) => {
            if local.matches_authenticated_fields(&wire) {
                Ok(())
            } else if reset {
                Err(RelayError::ResetIdentityMismatch)
            } else {
                Err(RelayError::RecoveryIdentityMismatch)
            }
        },
    }
}

fn read_msg2(draft: &Msg1Draft, msg2: &RelayNoiseMsg2, key: &SessionKey) -> (verdict: Result<
    Msg2Verdict,
    RelayError,
>)
    ensures
        verdict == msg2_read(*draft, *msg2),
{
    let responder_metadata_id: u128 = match msg2.b_session_metadata_id {
        Some(id) => id,
        None => {
            return Err(RelayError::SessionMetadataMissing);
        },
    };
    let transition_id: u128 = match transition_id_from_wire(msg2.transition_id.as_slice()) {
        Ok(id) => id,
        Err(e) => {
            return Err(e);
        },
    };
    let wire = match &msg2.recovery {
        Some(message) => match recovery_identity_from_pb(message, key.duplicate()) {
            Ok(identity) => Some(identity.fields()),
            Err(e) => {
                return Err(e);
            },
        },
        None => None,
    };
    if let Err(e) = check_recovery(draft.recovery, wire, msg2.recovery_reset) {
        return Err(e);
    }
    if let Some(local) = draft.recovery {
        if local.transition_id != transition_id {
            return Err(RelayError::TransitionIdMismatch);
        }
        if msg2.recovery_reset {
            if responder_metadata_id != local.session_metadata_id || msg2.action != Some(
                local.action,
            ) || msg2.b_session_generation != local.session_generation || msg2.initial_epoch
                != local.initial_epoch || msg2.root_key_32.is_some()
                || msg2.acknowledged_transition_id.len() != 0 {
                return Err(RelayError::ResetTransitionMismatch);
            }
            return Ok(Msg2Verdict::Reset);
        }
    }
    let action = match msg2.action {
        Some(action) => action,
        None => {
            return Err(RelayError::InvalidSessionAction);
        },
    };
    let root_key = match &msg2.root_key_32 {
        Some(bytes) => {
            if bytes.len() == 32 {
                Some(Key32::from_bytes(bytes.as_slice()))
            } else {
                None
            }
        },
        None => None,
    };
    Ok(
        Msg2Verdict::Proceed {
            action,
            session_generation: msg2.b_session_generation,
            root_key,
            initial_epoch: msg2.initial_epoch,
            transition_id,
            responder_metadata_id,
        },
    )
}

impl RelayPeer {
    /// Reads the answer to a first message. A handshake of the peer that was put
    /// aside is dropped once the peer has accepted this one.
    pub fn accept_msg2(&mut self, draft: &Msg1Draft, msg2: &RelayNoiseMsg2, key: &SessionKey) -> (verdict:
        Result<Msg2Verdict, RelayError>)
        ensures
            verdict == msg2_verdict(*draft, *msg2),
            *final(self) == (if msg2_accepted(*draft, *msg2) == Ok::<bool, RelayError>(true) {
                RelayPeer { deferred: None, ..*old(self) }
            } else {
                *old(self)
            }),
    {
        match check_accepted(draft, msg2) {
            Err(e) => Err(e),
            Ok(accepted) => {
                if !accepted {
                    return Ok(Msg2Verdict::NotReady);
                }
                self.deferred = None;
                read_msg2(draft, msg2, key)
            },
        }
    }

    /// Takes the handshake of the peer that was put aside.
    pub fn take_deferred(&mut self) -> (deferred: Option<DeferredHandshake>)
        ensures
            deferred == old(self).deferred,
            *final(self) == (RelayPeer { deferred: None, ..*old(self) }),
    {
        self.deferred.take()
    }
}

/// What staging the transition of an answer gives and changes.
pub open spec fn initiator_staged(
    peer: RelayPeer,
    store: StoreModel,
    quotas: SessionQuotas,
    key: SessionKeyModel,
    recovery: Option<TransitionFields>,
    ask: InitiatorAsk,
    now_ms: u64,
    reservation: Result<InitiatorSessionReservation, RelayError>,
    peer_after: RelayPeer,
    store_after: StoreModel,
    quotas_after: SessionQuotas,
) -> bool {
    let phase = if reservation is Ok {
        RelaySendPhase::Confirming
    } else {
        RelaySendPhase::AwaitingSession
    };
    &&& peer_after == (RelayPeer { send: peer_after.send, ..peer })
    &&& peer_after.send is Some
    &&& peer_after.send->0.phase == phase
    &&& peer.send matches Some(state) ==> peer_after.send == Some(RelaySendState { phase, ..state })
    &&& peer.send is None ==> crate::relay_peer::fresh_send_state(peer_after.send->0, phase)
    &&& match recovery {
        Some(fields) => {
            &&& quotas_after == quotas
            &&& match store.in_doubt_check(IdentityModel { key, fields }) {
                Err(error) => {
                    &&& reservation is Err
                    &&& reservation->Err_0 == (RelayError::Session { error })
                    &&& store_after == store
                },
                Ok(_) => {
                    &&& store_after == store.with_in_doubt(key, None)
                    &&& reservation matches Ok(r)
                    &&& r.key@ == key
                    &&& r.body == store.rec(key).in_doubt->0.body
                    &&& r.permit
                    &&& r.state == ReservationState::Pending
                },
            }
        },
        None => exists|made: Result<InitiatorSessionReservation, SessionError>|
            {
                &&& #[trigger] crate::initiator_store::freshly_reserved(
                    store,
                    quotas,
                    store_after,
                    quotas_after,
                    key,
                    ask,
                    now_ms,
                    made,
                )
                &&& match made {
                    Ok(r) => reservation is Ok && reservation->Ok_0 == r,
                    Err(error) => reservation is Err && reservation->Err_0
                        == (RelayError::Session { error }),
                }
            },
    }
}

impl RelayPeer {
    /// Stages the transition of an answer, or goes on with the one in doubt.
    /// Data waits from now on.
    pub fn stage_initiator(
        &mut self,
        store: &mut PeerSessionStore,
        quotas: &mut SessionQuotas,
        key: &SessionKey,
        recovery: Option<TransitionFields>,
        ask: InitiatorAsk,
        now_ms: u64,
    ) -> (reservation: Result<InitiatorSessionReservation, RelayError>)
        requires
            old(store).wf(),
            old(self).wf(old(store)@),
        ensures
            final(store).wf(),
            final(self).wf(final(store)@),
            crate::relay_peer::keeps_sessions(old(store)@, final(store)@),
            reservation matches Ok(r) ==> r.held_in(final(store)@),
            initiator_staged(
                *old(self),
                old(store)@,
                *old(quotas),
                key@,
                recovery,
                ask,
                now_ms,
                reservation,
                *final(self),
                final(store)@,
                *final(quotas),
            ),
    {
        self.set_send_phase(RelaySendPhase::Confirming);
        proof {
            crate::session_store::lemma_sound_record(store@, key@);
        }
        let reserved = match recovery {
            Some(fields) => {
                let identity = InitiatorTransitionIdentity::from_fields(key.duplicate(), fields);
                store.resume_initiator_reservation(&identity)
            },
            None => {
                let made = store.prepare_initiator_action_with_transition_id(
                    quotas,
                    key,
                    ask.action,
                    ask.session_generation,
                    ask.root_key,
                    ask.initial_epoch,
                    ask.send_algorithm,
                    ask.recv_algorithm,
                    ask.peer_static_pubkey,
                    ask.transition_id,
                    now_ms,
                );
                made
            },
        };
        match reserved {
            Ok(reservation) => Ok(reservation),
            Err(error) => {
                self.set_existing_phase(RelaySendPhase::AwaitingSession);
                Err(RelayError::Session { error })
            },
        }
    }

    /// Notes that a reset was asked for.
    pub fn begin_reset(&mut self, handshake_id: u128, identity: TransitionFields)
        ensures
            *final(self) == (RelayPeer {
                reset_ack: Some(PendingResetAck { handshake_id, identity, waiting: true }),
                ..*old(self)
            }),
    {
        self.reset_ack = Some(PendingResetAck { handshake_id, identity, waiting: true });
    }

    /// Notes that a reset is not waited for any more.
    pub fn end_reset(&mut self, handshake_id: u128)
        ensures
            *final(self) == (RelayPeer {
                reset_ack: if old(self).reset_ack is Some && old(self).reset_ack->0.handshake_id
                    == handshake_id {
                    None
                } else {
                    old(self).reset_ack
                },
                ..*old(self)
            }),
    {
        if let Some(pending) = self.reset_ack {
            if pending.handshake_id == handshake_id {
                self.reset_ack = None;
            }
        }
    }

    /// Gives a transition in doubt up after the peer has confirmed that it knows
    /// nothing of it.
    pub fn finish_reset(
        &mut self,
        store: &mut PeerSessionStore,
        quotas: &mut SessionQuotas,
        key: &SessionKey,
        identity: TransitionFields,
        handshake_id: u128,
        answered_handshake_id: u128,
        answered: &TransitionFields,
    ) -> (result: Result<(), RelayError>)
        requires
            old(store).wf(),
            old(self).wf(old(store)@),
        ensures
            final(store).wf(),
            final(self).wf(final(store)@),
            crate::relay_peer::keeps_sessions(old(store)@, final(store)@),
            ({
                let named = IdentityModel { key: key@, fields: identity };
                let confirmed = answered_handshake_id == handshake_id && identity.authenticated_as(
                    *answered,
                );
                let kept = old(store)@.in_doubt_check(named) is Ok;
                &&& result == (if !confirmed {
                    Err::<(), RelayError>(RelayError::ResetAcknowledgementMismatch)
                } else if !kept {
                    Err(RelayError::ResetNotRetained)
                } else {
                    Ok(())
                })
                &&& if result is Ok {
                    &&& final(store)@ == old(store)@.with_in_doubt(
                        key@,
                        None,
                    ).reservation_canceled(key@, old(store)@.rec(key@).in_doubt->0.body)
                    &&& *final(quotas) == old(quotas).without_in_doubt()
                    &&& *final(self) == (RelayPeer {
                        receipt: if old(self).receipt is Some
                            && old(self).receipt->0.identity.transition_id
                            == identity.transition_id {
                            None
                        } else {
                            old(self).receipt
                        },
                        ..*old(self)
                    })
                } else {
                    &&& final(store)@ == old(store)@
                    &&& *final(quotas) == *old(quotas)
                    &&& *final(self) == *old(self)
                }
            }),
    {
        if answered_handshake_id != handshake_id || !identity.matches_authenticated_fields(
            answered,
        ) {
            return Err(RelayError::ResetAcknowledgementMismatch);
        }
        proof {
            crate::session_store::lemma_sound_record(store@, key@);
        }
        let named = InitiatorTransitionIdentity::from_fields(key.duplicate(), identity);
        if !store.cancel_initiator_reservation_exact(quotas, &named) {
            return Err(RelayError::ResetNotRetained);
        }
        if let Some(pending) = self.receipt {
            if pending.identity.transition_id == identity.transition_id {
                self.receipt = None;
            }
        }
        Ok(())
    }
}

/// The peer with its receipt sent under another session.
pub open spec fn receipt_moved(peer: RelayPeer, session: SessionId) -> RelayPeer {
    RelayPeer {
        receipt: match peer.receipt {
            Some(pending) => Some(PendingReadyReceipt { session, ..pending }),
            None => None,
        },
        ..peer
    }
}

/// A session that was established before is bound to the authority of its peer,
/// unless it is bound already.
pub open spec fn bound_if_missing(
    peer: RelayPeer,
    store: StoreModel,
    authority: RelayAuthority,
    peer_id: PeerId,
    session: SessionId,
) -> (Result<(), RelayError>, RelayPeer) {
    if peer.auth is Some {
        (Ok(()), peer)
    } else {
        match authority.binding(peer_id, store.sess(session)) {
            Ok(binding) => (Ok(()), RelayPeer { auth: Some(binding), ..peer }),
            Err(e) => (Err(e), peer),
        }
    }
}

/// Whether a session for data is at hand, and what looking for one changes.
pub open spec fn session_ensured(
    peer: RelayPeer,
    store: StoreModel,
    authority: RelayAuthority,
    key: SessionKeyModel,
    peer_id: PeerId,
) -> (Result<SessionId, RelayError>, RelayPeer) {
    let missing = |p: RelayPeer|
        if p.responder is Some {
            (Err::<SessionId, RelayError>(RelayError::ResponderConfirmationPending), p)
        } else {
            (Err(RelayError::HandshakeInProgress), p)
        };
    match store.published(key) {
        None => missing(peer),
        Some(id) => {
            let moved = receipt_moved(peer, id);
            if peer.phase_is(RelaySendPhase::AwaitingSession) {
                missing(moved)
            } else {
                match bound_if_missing(moved, store, authority, peer_id, id) {
                    (Ok(_), bound) => (Ok(id), bound),
                    (Err(e), bound) => (Err(e), bound),
                }
            }
        },
    }
}

/// Whether a handshake is needed, and what finding out changes.
pub open spec fn handshake_needed(
    peer: RelayPeer,
    store: StoreModel,
    authority: RelayAuthority,
    key: SessionKeyModel,
    peer_id: PeerId,
    now_ms: u64,
) -> (Result<Option<SessionId>, RelayError>, RelayPeer) {
    match store.published(key) {
        Some(id) if peer.send is None || peer.phase_is(RelaySendPhase::Ready) => {
            match bound_if_missing(peer, store, authority, peer_id, id) {
                (Ok(_), bound) => (Ok(Some(id)), receipt_moved(bound, id)),
                (Err(e), bound) => (Err(e), bound),
            }
        },
        _ => if peer.backoff_active(now_ms) {
            (Err(RelayError::HandshakeBackoff), peer)
        } else {
            (Ok(None), peer)
        },
    }
}

/// What one attempt at a handshake finds before it sends anything.
pub open spec fn attempt_started(
    peer: RelayPeer,
    store: StoreModel,
    authority: RelayAuthority,
    key: SessionKeyModel,
    peer_id: PeerId,
    now_ms: u64,
) -> (Result<Option<SessionId>, RelayError>, RelayPeer) {
    match store.published(key) {
        None => (Ok(None), peer),
        Some(id) => match bound_if_missing(peer, store, authority, peer_id, id) {
            (Err(e), bound) => (Err(e), bound),
            (Ok(_), bound) => {
                let draining = RelayPeer {
                    send: if bound.phase_is(RelaySendPhase::AwaitingSession) {
                        RelayPeer::send_in_phase(bound.send, RelaySendPhase::Draining)
                    } else {
                        bound.send
                    },
                    state: Some(RelayPeer::succeeded(now_ms)),
                    ..bound
                };
                (Ok(Some(id)), receipt_moved(draining, id))
            },
        },
    }
}

impl RelayPeer {
    fn has_phase(&self, phase: RelaySendPhase) -> (is: bool)
        ensures
            is == self.phase_is(phase),
    {
        match &self.send {
            Some(state) => state.phase == phase,
            None => false,
        }
    }

    pub fn bind_existing_relay_session_auth_if_missing(
        &mut self,
        store: &PeerSessionStore,
        authority: &RelayAuthority,
        peer_id: PeerId,
        session: SessionId,
    ) -> (bound: Result<(), RelayError>)
        requires
            store.wf(),
            store@.has(session),
            old(self).wf(store@),
        ensures
            final(self).wf(store@),
            (bound, *final(self)) == bound_if_missing(
                *old(self),
                store@,
                *authority,
                peer_id,
                session,
            ),
    {
        if self.auth.is_some() {
            return Ok(());
        }
        let bound = match store.session(session) {
            Some(held) => authority.bind_relay_session_auth(peer_id, held),
            None => Err(RelayError::SessionWithoutPeerKey),
        };
        match bound {
            Ok(binding) => {
                self.auth = Some(binding);
                Ok(())
            },
            Err(e) => Err(e),
        }
    }

    /// Looks for a session to send data under. `HandshakeInProgress` asks for a
    /// handshake, unless one is under way.
    pub fn ensure_session(
        &mut self,
        store: &mut PeerSessionStore,
        authority: &RelayAuthority,
        key: &SessionKey,
        peer_id: PeerId,
        now_ms: u64,
    ) -> (session: Result<SessionId, RelayError>)
        requires
            old(store).wf(),
            old(self).wf(old(store)@),
        ensures
            final(store).wf(),
            final(self).wf(final(store)@),
            crate::relay_peer::keeps_sessions(old(store)@, final(store)@),
            final(store)@ == old(store)@.after_get(key@, now_ms),
            (session, *final(self)) == session_ensured(
                *old(self),
                old(store)@,
                *authority,
                key@,
                peer_id,
            ),
            session matches Ok(id) ==> final(store)@.has(id),
    {
        proof {
            crate::session_store::lemma_sound_record(store@, key@);
        }
        if let Some(id) = store.get(key, now_ms) {
            let awaiting = self.has_phase(RelaySendPhase::AwaitingSession);
            let _ = self.retry_pending_ready_receipt(id);
            if !awaiting {
                return match self.bind_existing_relay_session_auth_if_missing(
                    store,
                    authority,
                    peer_id,
                    id,
                ) {
                    Ok(()) => Ok(id),
                    Err(e) => Err(e),
                };
            }
        }
        if self.responder.is_some() {
            return Err(RelayError::ResponderConfirmationPending);
        }
        Err(RelayError::HandshakeInProgress)
    }

    /// Decides whether a handshake is needed: none while a session is ready, and
    /// none too soon after a failed one.
    pub fn need_handshake(
        &mut self,
        store: &mut PeerSessionStore,
        authority: &RelayAuthority,
        key: &SessionKey,
        peer_id: PeerId,
        now_ms: u64,
    ) -> (session: Result<Option<SessionId>, RelayError>)
        requires
            old(store).wf(),
            old(self).wf(old(store)@),
        ensures
            final(store).wf(),
            final(self).wf(final(store)@),
            crate::relay_peer::keeps_sessions(old(store)@, final(store)@),
            final(store)@ == old(store)@.after_get(key@, now_ms),
            (session, *final(self)) == handshake_needed(
                *old(self),
                old(store)@,
                *authority,
                key@,
                peer_id,
                now_ms,
            ),
    {
        proof {
            crate::session_store::lemma_sound_record(store@, key@);
        }
        if let Some(id) = store.get(key, now_ms) {
            if self.send.is_none() || self.has_phase(RelaySendPhase::Ready) {
                if let Err(e) = self.bind_existing_relay_session_auth_if_missing(
                    store,
                    authority,
                    peer_id,
                    id,
                ) {
                    return Err(e);
                }
                let _ = self.retry_pending_ready_receipt(id);
                return Ok(Some(id));
            }
        }
        if self.is_backoff_active(now_ms) {
            return Err(RelayError::HandshakeBackoff);
        }
        Ok(None)
    }

    /// Starts one attempt at a handshake: a session that has come up meanwhile
    /// makes it unnecessary.
    pub fn start_attempt(
        &mut self,
        store: &mut PeerSessionStore,
        authority: &RelayAuthority,
        key: &SessionKey,
        peer_id: PeerId,
        now_ms: u64,
    ) -> (session: Result<Option<SessionId>, RelayError>)
        requires
            old(store).wf(),
            old(self).wf(old(store)@),
        ensures
            final(store).wf(),
            final(self).wf(final(store)@),
            crate::relay_peer::keeps_sessions(old(store)@, final(store)@),
            final(store)@ == old(store)@.after_get(key@, now_ms),
            (session, *final(self)) == attempt_started(
                *old(self),
                old(store)@,
                *authority,
                key@,
                peer_id,
                now_ms,
            ),
    {
        proof {
            crate::session_store::lemma_sound_record(store@, key@);
        }
        match store.get(key, now_ms) {
            None => Ok(None),
            Some(id) => {
                if let Err(e) = self.bind_existing_relay_session_auth_if_missing(
                    store,
                    authority,
                    peer_id,
                    id,
                ) {
                    return Err(e);
                }
                if self.has_phase(RelaySendPhase::AwaitingSession) {
                    self.set_existing_phase(RelaySendPhase::Draining);
                }
                self.register_handshake_success(now_ms);
                let _ = self.retry_pending_ready_receipt(id);
                Ok(Some(id))
            },
        }
    }

    /// Ends an attempt that has established a session.
    pub fn attempt_succeeded(&mut self, session: SessionId, now_ms: u64)
        ensures
            *final(self) == receipt_moved(
                RelayPeer { state: Some(RelayPeer::succeeded(now_ms)), ..*old(self) },
                session,
            ),
    {
        self.register_handshake_success(now_ms);
        let _ = self.retry_pending_ready_receipt(session);
    }

    /// Ends an attempt that has failed: how long to wait before the next one, if
    /// there is one.
    pub fn attempt_failed(&mut self, attempt: u32, now_ms: u64) -> (wait_ms: Option<u64>)
        requires
            attempt < HANDSHAKE_MAX_ATTEMPTS,
        ensures
            wait_ms == (if attempt + 1 < HANDSHAKE_MAX_ATTEMPTS {
                Some(crate::relay_peer::handshake_backoff(attempt))
            } else {
                None
            }),
            final(self).state matches Some(state) && state.next_retry_at == Some(
                crate::relay_peer::later(now_ms, crate::relay_peer::handshake_backoff(attempt)),
            ) && state.last_active_at == old(self).state_or_new(now_ms).last_active_at
                && state.failure_count == (if old(self).state_or_new(now_ms).failure_count
                < u32::MAX {
                old(self).state_or_new(now_ms).failure_count + 1
            } else {
                u32::MAX as int
            }),
            *final(self) == (RelayPeer { state: final(self).state, ..*old(self) }),
    {
        self.register_handshake_failure(attempt, now_ms);
        if attempt + 1 < HANDSHAKE_MAX_ATTEMPTS {
            Some(crate::relay_peer::handshake_backoff_ms(attempt))
        } else {
            None
        }
    }
}

/// Where a handshake packet goes.
#[derive(Clone, Copy, Debug, PartialEq, Eq, Structural)]
pub enum HandshakeDispatch {
    Ignore,
    Msg1 { handshake_id: u128 },
    /// To whoever waits for the answer to the first message.
    Answer { handshake_id: u128 },
    Reset { handshake_id: u128 },
    /// To whoever waits for the answer to a reset.
    ResetAnswer { handshake_id: u128 },
}

/// The identifier in front of a handshake packet's payload.
pub open spec fn handshake_id_of(payload: Seq<u8>) -> u128 {
    crate::bytes::be_value(payload.subrange(0, 16)) as u128
}

/// Where a handshake packet goes, and what that changes: an answer is handed out
/// once.
pub open spec fn dispatched(peer: RelayPeer, packet: PacketModel) -> (
    Result<HandshakeDispatch, RelayError>,
    RelayPeer,
) {
    match packet.header {
        None => (Err(RelayError::NoHeader), peer),
        Some(header) => if packet.payload.len() < RELAY_HANDSHAKE_ID_SIZE {
            (Err(RelayError::HandshakeIdMissing), peer)
        } else {
            let handshake_id = handshake_id_of(packet.payload);
            if header.packet_type == PACKET_RELAY_HANDSHAKE_RESET {
                (Ok(HandshakeDispatch::Reset { handshake_id }), peer)
            } else if header.packet_type == PACKET_RELAY_HANDSHAKE {
                (Ok(HandshakeDispatch::Msg1 { handshake_id }), peer)
            } else if header.packet_type == PACKET_RELAY_HANDSHAKE_RESET_ACK && peer.reset_ack
                is Some && peer.reset_ack->0.handshake_id == handshake_id
                && peer.reset_ack->0.waiting {
                (
                    Ok(HandshakeDispatch::ResetAnswer { handshake_id }),
                    RelayPeer {
                        reset_ack: Some(PendingResetAck { waiting: false, ..peer.reset_ack->0 }),
                        ..peer
                    },
                )
            } else if header.packet_type == PACKET_RELAY_HANDSHAKE_ACK && peer.pending_handshake
                is Some && peer.pending_handshake->0.handshake_id == handshake_id
                && peer.pending_handshake->0.waiting {
                (
                    Ok(HandshakeDispatch::Answer { handshake_id }),
                    RelayPeer {
                        pending_handshake: Some(
                            PendingHandshake { waiting: false, ..peer.pending_handshake->0 },
                        ),
                        ..peer
                    },
                )
            } else {
                (Ok(HandshakeDispatch::Ignore), peer)
            }
        },
    }
}

impl RelayPeer {
    /// Decides where a handshake packet goes.
    pub fn handle_handshake_packet(&mut self, packet: &Packet) -> (dispatch: Result<
        HandshakeDispatch,
        RelayError,
    >)
        ensures
            (dispatch, *final(self)) == dispatched(*old(self), packet@),
    {
        let header = match packet.header {
            Some(header) => header,
            None => {
                return Err(RelayError::NoHeader);
            },
        };
        if packet.payload.len() < RELAY_HANDSHAKE_ID_SIZE {
            return Err(RelayError::HandshakeIdMissing);
        }
        let handshake_id: u128 = crate::bytes::read_be(packet.payload.as_slice(), 0, 16);
        if header.packet_type == PACKET_RELAY_HANDSHAKE_RESET {
            return Ok(HandshakeDispatch::Reset { handshake_id });
        }
        if header.packet_type == PACKET_RELAY_HANDSHAKE {
            return Ok(HandshakeDispatch::Msg1 { handshake_id });
        }
        if header.packet_type == PACKET_RELAY_HANDSHAKE_RESET_ACK {
            if let Some(pending) = self.reset_ack {
                if pending.handshake_id == handshake_id && pending.waiting {
                    let mut taken = pending;
                    taken.waiting = false;
                    self.reset_ack = Some(taken);
                    return Ok(HandshakeDispatch::ResetAnswer { handshake_id });
                }
            }
            return Ok(HandshakeDispatch::Ignore);
        }
        if header.packet_type == PACKET_RELAY_HANDSHAKE_ACK {
            let waited_for = match &self.pending_handshake {
                Some(pending) => pending.handshake_id == handshake_id && pending.waiting,
                None => false,
            };
            if waited_for {
                let mut pending = self.pending_handshake.take().unwrap();
                pending.waiting = false;
                self.pending_handshake = Some(pending);
                return Ok(HandshakeDispatch::Answer { handshake_id });
            }
        }
        Ok(HandshakeDispatch::Ignore)
    }
}

/// An answer is handed to the one who waits for it at most once.
pub proof fn lemma_answer_is_delivered_once(peer: RelayPeer, packet: PacketModel, again: PacketModel)
    requires
        dispatched(peer, packet).0 matches Ok(dispatch) && dispatch is Answer,
    ensures
        !(dispatched(dispatched(peer, packet).1, again).0 matches Ok(dispatch) && dispatch is Answer),
{
}

/// The answer to a reset is handed to the one who waits for it at most once.
pub proof fn lemma_reset_answer_is_delivered_once(
    peer: RelayPeer,
    packet: PacketModel,
    again: PacketModel,
)
    requires
        dispatched(peer, packet).0 matches Ok(dispatch) && dispatch is ResetAnswer,
    ensures
        !(dispatched(dispatched(peer, packet).1, again).0 matches Ok(dispatch)
            && dispatch is ResetAnswer),
{
}

/// An offered answer is taken by the side that made the first message, if both
/// use the same protocol version: what a responder says in its answer is what
/// the initiator stages.
pub proof fn lemma_answer_is_understood(
    draft: Msg1Draft,
    msg2: RelayNoiseMsg2,
    prepared: crate::responder_store::UpsertResponderSessionReturn,
    session_metadata_id: u128,
    algorithm: Seq<char>,
    b_conn_id: u128,
)
    requires
        draft.recovery is None,
        draft.message.a_conn_id == Some(draft.conn_id),
        draft.message.recovery is None,
        draft.expected_echo is Some ==> draft.expected_echo->0 != 0,
        prepared.transition_id != 0,
        crate::relay_handshake::answers(
            msg2,
            prepared,
            session_metadata_id,
            draft.message,
            algorithm,
            b_conn_id,
            false,
            draft.expected_echo,
        ),
    ensures
        msg2_verdict(draft, msg2) == Ok::<Msg2Verdict, RelayError>(
            Msg2Verdict::Proceed {
                action: prepared.action,
                session_generation: prepared.session_generation,
                root_key: prepared.root_key,
                initial_epoch: prepared.initial_epoch,
                transition_id: prepared.transition_id,
                responder_metadata_id: session_metadata_id,
            },
        ),
{
    crate::bytes::lemma_pow256();
    broadcast use crate::bytes::lemma_be_bytes_len;

    crate::bytes::lemma_be_value_of_bytes(prepared.transition_id as nat, 16);
    if draft.expected_echo is Some {
        crate::bytes::lemma_be_value_of_bytes(draft.expected_echo->0 as nat, 16);
    }
    if prepared.root_key is Some {
        let key = prepared.root_key->0;
        crate::bytes::lemma_be_value_of_bytes(key.hi as nat, 16);
        crate::bytes::lemma_be_value_of_bytes(key.lo as nat, 16);
        assert(key.bytes().subrange(0, 16) =~= crate::bytes::be_bytes(key.hi as nat, 16));
        assert(key.bytes().subrange(16, 32) =~= crate::bytes::be_bytes(key.lo as nat, 16));
    }
}

} // verus!
