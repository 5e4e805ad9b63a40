//! The responder of a relay handshake.

use vstd::prelude::*;
use crate::bytes::{copy_range, push_be, same_bytes, Key32};
use crate::noise::NoiseHandshake;
use crate::packet::{Packet, PacketModel, PeerId};
use crate::relay_peer::{
    DeferredHandshake, PendingResponderHandshake, PendingResponderReset, RelayPeer,
    RELAY_CONFIRM_WINDOW_MS, RESPONDER_CONFIRM_DEADLINE_MS,
};
use crate::relay_wire::{
    recovery_identity_from_pb, recovery_pb_from_identity, transition_id_from_wire,
    validate_relay_protocol_version, RecoveryMessage, RelayConfirmationIdentity, RelayError,
    RELAY_NOISE_VERSION, RELAY_TRANSITION_ID_SIZE,
};
use crate::responder_store::{ResponderPlan, ResponderSeeds, UpsertResponderSessionReturn};
use crate::route_trait::NextHopPolicy;
use crate::session_store::{
    PeerSessionStore, ResponderTransitionRecovery, SessionQuotas, StoreModel,
};
use crate::session_types::{
    IdentityModel, InitiatorTransitionIdentity, PeerSessionAction, SessionError, SessionKey,
    SessionKeyModel, TransitionFields,
};

verus! {

/// The first message of a relay handshake.
pub struct RelayNoiseMsg1 {
    pub version: u32,
    pub a_session_generation: Option<u32>,
    pub a_conn_id: Option<u128>,
    pub client_encryption_algorithm: String,
    pub recovery: Option<RecoveryMessage>,
    pub acknowledged_transition_id: Vec<u8>,
}

/// The second message of a relay handshake. The action is absent where its code
/// is unknown.
pub struct RelayNoiseMsg2 {
    pub action: Option<PeerSessionAction>,
    pub b_session_generation: u32,
    pub root_key_32: Option<Vec<u8>>,
    pub initial_epoch: u32,
    pub b_conn_id: Option<u128>,
    pub a_conn_id_echo: Option<u128>,
    pub server_encryption_algorithm: String,
    pub version: u32,
    pub accepted: bool,
    pub b_session_metadata_id: Option<u128>,
    pub recovery: Option<RecoveryMessage>,
    pub transition_id: Vec<u8>,
    pub acknowledged_transition_id: Vec<u8>,
    pub recovery_reset: bool,
}

/// How a first message goes on.
pub enum Msg1Admission {
    Proceed,
    /// The handshake was completed before.
    AlreadyCompleted,
    /// The answer to the same handshake is sent again.
    Resend { response: Vec<u8> },
    /// The peer yields: this side sends its own first message again.
    Deferred { payload: Vec<u8>, handshake_id: u128, policy: NextHopPolicy },
}

/// Whether a first message is for this side, and from whom it says to be.
pub open spec fn msg1_check(
    msg1: RelayNoiseMsg1,
    handshake_id: u128,
    expected_key: Key32,
    remote_static: Seq<u8>,
) -> Result<(), RelayError> {
    if msg1.version != RELAY_NOISE_VERSION {
        Err(RelayError::UnsupportedProtocolVersion)
    } else if msg1.a_conn_id is None {
        Err(RelayError::ConnIdMissing)
    } else if msg1.a_conn_id != Some(handshake_id) {
        Err(RelayError::ConnIdMismatch)
    } else if remote_static != expected_key.bytes() {
        Err(RelayError::PeerKeyMismatch)
    } else {
        Ok(())
    }
}

/// The peer with an offered reset removed that was waited for too long.
pub open spec fn reset_expired(peer: RelayPeer, now_ms: u64) -> RelayPeer {
    if peer.responder_reset is Some && peer.responder_reset->0.deadline <= now_ms {
        RelayPeer { responder_reset: None, ..peer }
    } else {
        peer
    }
}

pub open spec fn answer_late(peer: RelayPeer, now_ms: u64) -> bool {
    peer.responder is Some && peer.responder->0.deadline <= now_ms
}

/// What a first message gives and changes before a transition is staged. Where
/// both sides have started a handshake, the one with the smaller identifier goes
/// on with its own.
pub open spec fn msg1_admitted(
    peer: RelayPeer,
    store: StoreModel,
    quotas: SessionQuotas,
    my_peer_id: PeerId,
    remote_peer_id: PeerId,
    handshake_id: u128,
    expected_key: Option<Key32>,
    remote_static: Seq<u8>,
    msg1: RelayNoiseMsg1,
    packet: PacketModel,
    now_ms: u64,
    admission: Result<Msg1Admission, RelayError>,
    peer_after: RelayPeer,
    store_after: StoreModel,
    quotas_after: SessionQuotas,
) -> bool {
    let same_store = store_after == store && quotas_after == quotas;
    let checked = match expected_key {
        None => Err(RelayError::PeerKeyNotReady),
        Some(key) => msg1_check(msg1, handshake_id, key, remote_static),
    };
    match checked {
        Err(e) => admission is Err && admission->Err_0 == e && peer_after == peer && same_store,
        Ok(_) => if peer.pending_handshake is Some && remote_peer_id >= my_peer_id {
            let mine = peer.pending_handshake->0;
            &&& same_store
            &&& peer_after == (RelayPeer { deferred: peer_after.deferred, ..peer })
            &&& peer_after.deferred matches Some(deferred) && deferred.handshake_id == handshake_id
                && deferred.packet@ == packet
            &&& admission matches Ok(Msg1Admission::Deferred {
                payload,
                handshake_id: own,
                policy,
            }) && payload@ == mine.payload@ && own == mine.handshake_id && policy == mine.policy
        } else {
            let yielded = RelayPeer { pending_handshake: None, ..peer };
            if peer.has_completed_handshake(handshake_id, now_ms) {
                &&& same_store
                &&& peer_after == yielded
                &&& admission matches Ok(Msg1Admission::AlreadyCompleted)
            } else {
                let late = answer_late(peer, now_ms);
                let in_time = if late {
                    yielded.canceled_peer(None)
                } else {
                    yielded
                };
                let settled = reset_expired(in_time, now_ms);
                &&& peer_after == settled
                &&& store_after == (if late {
                    yielded.canceled_store(store, None)
                } else {
                    store
                })
                &&& quotas_after == (if late {
                    yielded.canceled_quotas(store, quotas, None)
                } else {
                    quotas
                })
                &&& match (settled.responder, settled.responder_reset) {
                    (Some(pending), _) => if pending.handshake_id != handshake_id {
                        admission is Err && admission->Err_0 == RelayError::ResponderBusy
                    } else {
                        admission matches Ok(Msg1Admission::Resend { response }) && response@
                            == pending.response@
                    },
                    (None, Some(reset)) => if reset.handshake_id != handshake_id {
                        admission is Err && admission->Err_0 == RelayError::ResponderResetBusy
                    } else {
                        admission matches Ok(Msg1Admission::Resend { response }) && response@
                            == reset.response@
                    },
                    (None, None) => admission matches Ok(Msg1Admission::Proceed),
                }
            }
        },
    }
}

fn check_msg1(
    msg1: &RelayNoiseMsg1,
    handshake_id: u128,
    expected_key: Key32,
    remote_static: &Vec<u8>,
) -> (checked: Result<(), RelayError>)
    ensures
        checked == msg1_check(*msg1, handshake_id, expected_key, remote_static@),
{
    if let Err(e) = validate_relay_protocol_version(msg1.version) {
        return Err(e);
    }
    let conn_id: u128 = match msg1.a_conn_id {
        Some(id) => id,
        None => {
            return Err(RelayError::ConnIdMissing);
        },
    };
    if conn_id != handshake_id {
        return Err(RelayError::ConnIdMismatch);
    }
    let expected = expected_key.to_bytes();
    if !same_bytes(remote_static.as_slice(), expected.as_slice()) {
        return Err(RelayError::PeerKeyMismatch);
    }
    Ok(())
}

fn copy_bytes(bytes: &Vec<u8>) -> (copy: Vec<u8>)
    ensures
        copy@ == bytes@,
{
    let copy = copy_range(bytes.as_slice(), 0, bytes.len());
    assert(copy@ =~= bytes@);
    copy
}

impl RelayPeer {
    /// Decides how a first message goes on.
    pub fn admit_msg1(
        &mut self,
        store: &mut PeerSessionStore,
        quotas: &mut SessionQuotas,
        my_peer_id: PeerId,
        remote_peer_id: PeerId,
        handshake_id: u128,
        expected_key: Option<Key32>,
        remote_static: &Vec<u8>,
        msg1: &RelayNoiseMsg1,
        packet: &Packet,
        now_ms: u64,
    ) -> (admission: Result<Msg1Admission, RelayError>)
        requires
            old(store).wf(),
            old(self).wf(old(store)@),
        ensures
            final(store).wf(),
            final(self).wf(final(store)@),
            crate::relay_peer::keeps_sessions(old(store)@, final(store)@),
            msg1_admitted(
                *old(self),
                old(store)@,
                *old(quotas),
                my_peer_id,
                remote_peer_id,
                handshake_id,
                expected_key,
                remote_static@,
                *msg1,
                packet@,
                now_ms,
                admission,
                *final(self),
                final(store)@,
                *final(quotas),
            ),
    {
        let expected = match expected_key {
            Some(key) => key,
            None => {
                return Err(RelayError::PeerKeyNotReady);
            },
        };
        if let Err(e) = check_msg1(msg1, handshake_id, expected, remote_static) {
            return Err(e);
        }
        if remote_peer_id >= my_peer_id {
            let mine = match &self.pending_handshake {
                Some(pending) => Some(
                    (copy_bytes(&pending.payload), pending.handshake_id, pending.policy),
                ),
                None => None,
            };
            if let Some((payload, own, policy)) = mine {
                self.deferred = Some(
                    DeferredHandshake { packet: packet.duplicate(), handshake_id },
                );
                return Ok(Msg1Admission::Deferred { payload, handshake_id: own, policy });
            }
        }
        self.pending_handshake = None;
        if self.responder_handshake_completed(handshake_id, now_ms) {
            return Ok(Msg1Admission::AlreadyCompleted);
        }
        let late = match &self.responder {
            Some(pending) => pending.deadline <= now_ms,
            None => false,
        };
        if late {
            self.cancel_pending_responder_handshake(store, quotas, None);
        }
        let reset_late = match &self.responder_reset {
            Some(pending) => pending.deadline <= now_ms,
            None => false,
        };
        if reset_late {
            self.cancel_pending_responder_reset(None);
        }
        if let Some(pending) = &self.responder {
            if pending.handshake_id != handshake_id {
                return Err(RelayError::ResponderBusy);
            }
            return Ok(Msg1Admission::Resend { response: copy_bytes(&pending.response) });
        }
        if let Some(pending) = &self.responder_reset {
            if pending.handshake_id != handshake_id {
                return Err(RelayError::ResponderResetBusy);
            }
            return Ok(Msg1Admission::Resend { response: copy_bytes(&pending.response) });
        }
        Ok(Msg1Admission::Proceed)
    }
}

/// What a responder goes on with.
pub enum Msg1Plan {
    /// Nothing is known of the transition that the initiator asks for: it may
    /// give it up.
    Reset { identity: InitiatorTransitionIdentity },
    Respond {
        prepared: UpsertResponderSessionReturn,
        recovery_active: bool,
        acknowledged: Option<u128>,
    },
}

/// The transition that a first message acknowledges.
pub open spec fn acknowledged_by(bytes: Seq<u8>) -> Result<Option<u128>, RelayError> {
    if bytes.len() == 0 {
        Ok(None)
    } else if bytes.len() == RELAY_TRANSITION_ID_SIZE {
        match crate::relay_wire::transition_id_of(bytes) {
            Ok(id) => Ok(Some(id)),
            Err(e) => Err(e),
        }
    } else {
        Err(RelayError::InvalidAcknowledgement)
    }
}

pub fn acknowledged_transition(bytes: &Vec<u8>) -> (acknowledged: Result<Option<u128>, RelayError>)
    ensures
        acknowledged == acknowledged_by(bytes@),
{
    if bytes.len() == 0 {
        return Ok(None);
    }
    if bytes.len() != RELAY_TRANSITION_ID_SIZE {
        return Err(RelayError::InvalidAcknowledgement);
    }
    match transition_id_from_wire(bytes.as_slice()) {
        Ok(id) => Ok(Some(id)),
        Err(e) => Err(e),
    }
}

/// Whether a committed transition is the one that an identity names.
pub open spec fn recovered_as(
    store: StoreModel,
    recovered: ResponderTransitionRecovery,
    fields: TransitionFields,
) -> bool {
    &&& recovered.action == fields.action
    &&& recovered.session_generation == fields.session_generation
    &&& recovered.initial_epoch == fields.initial_epoch
    &&& recovered.transition_id == fields.transition_id
    &&& store.sess(recovered.session).metadata_session_id == fields.session_metadata_id
}

pub open spec fn recovery_plan(recovered: ResponderTransitionRecovery) -> ResponderPlan {
    ResponderPlan {
        session: recovered.session,
        action: recovered.action,
        session_generation: recovered.session_generation,
        root_key: Some(recovered.root_key),
        initial_epoch: recovered.initial_epoch,
        transition_revision: if recovered.action == PeerSessionAction::Create {
            None
        } else {
            Some(recovered.transition_revision)
        },
        transition_id: recovered.transition_id,
    }
}

/// What the recovery of a transition gives. `settled` has no outlived proofs.
pub open spec fn recovery_staged(
    settled: StoreModel,
    identity: IdentityModel,
    plan: Result<Msg1Plan, RelayError>,
) -> bool {
    match settled.reconciled(identity) {
        None => if settled.rec(identity.key).recovery is Some || settled.rec(
            identity.key,
        ).pending_create is Some || settled.published(identity.key) is Some {
            plan is Err && plan->Err_0 == RelayError::RecoveryResetConflict
        } else {
            plan matches Ok(Msg1Plan::Reset { identity: named }) && named@ == identity
        },
        Some(recovered) => if !recovered_as(settled, recovered, identity.fields) {
            plan is Err && plan->Err_0 == RelayError::ResponderRecoveryMismatch
        } else {
            plan matches Ok(Msg1Plan::Respond { prepared, recovery_active, acknowledged })
                && recovery_active && acknowledged is None && prepared.just_staged(
                identity.key,
                recovery_plan(recovered),
                None,
            )
        },
    }
}

pub open spec fn plan_refused(plan: Result<Msg1Plan, RelayError>, error: RelayError) -> bool {
    plan is Err && plan->Err_0 == error
}

/// What staging a new transition gives and changes. `settled` has no outlived
/// proofs. A pending proof is cleared by the acknowledgement of its transition,
/// and the staged transition holds it.
pub open spec fn transition_staged(
    settled: StoreModel,
    key: SessionKeyModel,
    send_algorithm: Seq<char>,
    recv_algorithm: Seq<char>,
    remote_key: Option<Key32>,
    acknowledged: Option<u128>,
    now_ms: u64,
    plan: Result<Msg1Plan, RelayError>,
    store_after: StoreModel,
) -> bool {
    let proof_pending = settled.rec(key).recovery is Some;
    if proof_pending && acknowledged is None {
        plan_refused(plan, RelayError::AcknowledgementMissing) && store_after == settled
    } else if proof_pending && settled.proof_id(key) != acknowledged {
        &&& plan_refused(plan, RelayError::Session { error: SessionError::ProofAcknowledgementMismatch },
        )
        &&& store_after == settled
    } else if proof_pending {
        newly_staged(
            settled,
            key,
            send_algorithm,
            recv_algorithm,
            remote_key,
            acknowledged,
            acknowledged,
            now_ms,
            plan,
            store_after,
        )
    } else {
        newly_staged(
            settled,
            key,
            send_algorithm,
            recv_algorithm,
            remote_key,
            None,
            acknowledged,
            now_ms,
            plan,
            store_after,
        )
    }
}

/// What staging a transition gives and changes that depends on the proof of
/// another one, or on none.
pub open spec fn newly_staged(
    settled: StoreModel,
    key: SessionKeyModel,
    send_algorithm: Seq<char>,
    recv_algorithm: Seq<char>,
    remote_key: Option<Key32>,
    dependency: Option<u128>,
    acknowledged: Option<u128>,
    now_ms: u64,
    plan: Result<Msg1Plan, RelayError>,
    store_after: StoreModel,
) -> bool {
    ||| {
        &&& plan_refused(plan, RelayError::Session { error: SessionError::RandomUnavailable })
        &&& store_after == settled
        &&& !settled.responder_refuses(
            key,
            send_algorithm,
            recv_algorithm,
            remote_key,
            dependency is Some,
        )
    }
    ||| exists|
        seeds: ResponderSeeds,
        staged: Result<UpsertResponderSessionReturn, SessionError>,
        between: StoreModel,
    |
        {
            &&& #[trigger] crate::responder_recovery::staged_with(
                settled,
                key,
                send_algorithm,
                recv_algorithm,
                remote_key,
                dependency,
                seeds,
                now_ms,
                staged,
                between,
            )
            &&& seeds.transition_id != 0
            &&& crate::outside::is_v4_identifier(seeds.metadata_id)
            &&& match staged {
                Err(error) => plan_refused(plan, RelayError::Session { error }) && store_after
                    == between,
                Ok(first) => {
                    &&& plan matches Ok(Msg1Plan::Respond {
                        prepared,
                        recovery_active,
                        acknowledged: echoed,
                    })
                    &&& !recovery_active
                    &&& echoed == acknowledged
                    &&& prepared.plan() == first.plan()
                    &&& prepared.prepared_key@ == key
                    &&& prepared.proof_dependency == dependency
                    &&& !prepared.committed
                    &&& if dependency is Some {
                        &&& prepared.proof_cleared
                        &&& prepared.proof_backup == between.rec(key).recovery
                        &&& store_after == between.with_recovery(key, None)
                    } else {
                        &&& !prepared.proof_cleared
                        &&& prepared.proof_backup is None
                        &&& store_after == between
                    }
                },
            }
        }
}

/// What a first message that may proceed gives and changes.
pub open spec fn msg1_staged(
    store: StoreModel,
    quotas: SessionQuotas,
    key: SessionKeyModel,
    algorithm: Seq<char>,
    msg1: RelayNoiseMsg1,
    remote_key: Option<Key32>,
    now_ms: u64,
    plan: Result<Msg1Plan, RelayError>,
    store_after: StoreModel,
    quotas_after: SessionQuotas,
) -> bool {
    let settled = store.expired(now_ms);
    let slots = crate::responder_recovery::proofs_released(
        quotas,
        store.expired_keys(now_ms).len(),
    );
    let unchanged = store_after == store && quotas_after == quotas;
    match msg1.recovery {
        Some(recovery) => match crate::relay_wire::recovery_check(recovery) {
            Err(e) => plan is Err && plan->Err_0 == e && unchanged,
            Ok(_) => if msg1.acknowledged_transition_id@.len() > 0 {
                &&& plan is Err
                &&& plan->Err_0 == RelayError::RecoveryWithAcknowledgement
                &&& unchanged
            } else {
                &&& store_after == settled
                &&& quotas_after == slots
                &&& recovery_staged(
                    settled,
                    IdentityModel { key, fields: crate::relay_wire::recovery_fields(recovery) },
                    plan,
                )
            },
        },
        None => {
            &&& quotas_after == slots
            &&& match acknowledged_by(msg1.acknowledged_transition_id@) {
                Err(e) => plan is Err && plan->Err_0 == e && store_after == settled,
                Ok(acknowledged) => transition_staged(
                    settled,
                    key,
                    algorithm,
                    msg1.client_encryption_algorithm@,
                    remote_key,
                    acknowledged,
                    now_ms,
                    plan,
                    store_after,
                ),
            }
        },
    }
}

/// A plan holds sessions of the store.
pub open spec fn plan_held(plan: Result<Msg1Plan, RelayError>, store: StoreModel) -> bool {
    plan matches Ok(Msg1Plan::Respond { prepared, recovery_active, acknowledged }) ==> (
    prepared.held_in(store) && (recovery_active ==> prepared.proof_dependency is None))
}

fn stage_recovery(
    store: &mut PeerSessionStore,
    quotas: &mut SessionQuotas,
    identity: InitiatorTransitionIdentity,
    now_ms: u64,
) -> (plan: Result<Msg1Plan, RelayError>)
    requires
        old(store).wf(),
    ensures
        final(store).wf(),
        final(store)@ == old(store)@.expired(now_ms),
        *final(quotas) == crate::responder_recovery::proofs_released(
            *old(quotas),
            old(store)@.expired_keys(now_ms).len(),
        ),
        recovery_staged(final(store)@, identity@, plan),
        plan_held(plan, final(store)@),
{
    let recovered = store.reconcile_active_responder_transition(quotas, &identity, now_ms);
    proof {
        crate::session_store::lemma_sound_record(store@, identity@.key);
    }
    match recovered {
        None => {
            let key = &identity.session_key;
            if store.recovery_of(key).is_some() || store.pending_create_of(key).is_some()
                || store.peek(key).is_some() {
                return Err(RelayError::RecoveryResetConflict);
            }
            Ok(Msg1Plan::Reset { identity })
        },
        Some(recovered) => {
            let metadata = match store.session(recovered.session) {
                Some(session) => Some(session.metadata_session_id()),
                None => None,
            };
            if recovered.action != identity.action || recovered.session_generation
                != identity.session_generation || recovered.initial_epoch != identity.initial_epoch
                || recovered.transition_id != identity.transition_id || metadata != Some(
                identity.session_metadata_id,
            ) {
                return Err(RelayError::ResponderRecoveryMismatch);
            }
            let transition_revision = if recovered.action == PeerSessionAction::Create {
                None
            } else {
                Some(recovered.transition_revision)
            };
            let prepared = UpsertResponderSessionReturn::for_recovery(
                recovered.session,
                recovered.action,
                recovered.session_generation,
                recovered.root_key,
                recovered.initial_epoch,
                recovered.transition_id,
                transition_revision,
                identity.session_key.duplicate(),
            );
            Ok(Msg1Plan::Respond { prepared, recovery_active: true, acknowledged: None })
        },
    }
}

fn stage_transition(
    store: &mut PeerSessionStore,
    quotas: &mut SessionQuotas,
    key: &SessionKey,
    algorithm: &String,
    client_algorithm: &String,
    remote_key: Option<Key32>,
    acknowledged: Option<u128>,
    now_ms: u64,
) -> (plan: Result<Msg1Plan, RelayError>)
    requires
        old(store).wf(),
        old(store)@.expired(now_ms) == old(store)@,
        old(store)@.expired_keys(now_ms) == Set::<SessionKeyModel>::empty(),
    ensures
        final(store).wf(),
        *final(quotas) == *old(quotas),
        transition_staged(
            old(store)@,
            key@,
            algorithm@,
            client_algorithm@,
            remote_key,
            acknowledged,
            now_ms,
            plan,
            final(store)@,
        ),
        plan_held(plan, final(store)@),
        crate::relay_peer::keeps_sessions(old(store)@, final(store)@),
{
    let pending = match store.recovery_of(key) {
        Some(record) => Some(record.identity.transition_id),
        None => None,
    };
    let ghost settled = store@;
    proof {
        crate::session_store::lemma_sound_record(settled, key@);
    }
    let prepared = match pending {
        Some(_) => {
            let id: u128 = match acknowledged {
                Some(id) => id,
                None => {
                    return Err(RelayError::AcknowledgementMissing);
                },
            };
            store.acknowledge_and_prepare_responder_session(
                quotas,
                key,
                id,
                algorithm.clone(),
                client_algorithm.clone(),
                remote_key,
                now_ms,
            )
        },
        None => store.prepare_responder_session(
            key,
            algorithm.clone(),
            client_algorithm.clone(),
            remote_key,
            now_ms,
        ),
    };
    match prepared {
        Err(error) => Err(RelayError::Session { error }),
        Ok(mut prepared) => {
            if prepared.proof_dependency.is_some() {
                if let Err(error) = prepared.authenticate_recovery(store) {
                    prepared.cancel(store);
                    return Err(RelayError::Session { error });
                }
            }
            let plan: Result<Msg1Plan, RelayError> = Ok(
                Msg1Plan::Respond { prepared, recovery_active: false, acknowledged },
            );
            plan
        },
    }
}

impl RelayPeer {
    /// Stages the transition that a first message asks for.
    pub fn stage_msg1(
        store: &mut PeerSessionStore,
        quotas: &mut SessionQuotas,
        key: &SessionKey,
        algorithm: &String,
        msg1: &RelayNoiseMsg1,
        remote_key: Option<Key32>,
        now_ms: u64,
    ) -> (plan: Result<Msg1Plan, RelayError>)
        requires
            old(store).wf(),
        ensures
            final(store).wf(),
            plan_held(plan, final(store)@),
            crate::relay_peer::keeps_sessions(old(store)@, final(store)@),
            msg1_staged(
                old(store)@,
                *old(quotas),
                key@,
                algorithm@,
                *msg1,
                remote_key,
                now_ms,
                plan,
                final(store)@,
                *final(quotas),
            ),
    {
        match &msg1.recovery {
            Some(recovery) => {
                let identity = match recovery_identity_from_pb(recovery, key.duplicate()) {
                    Ok(identity) => identity,
                    Err(e) => {
                        return Err(e);
                    },
                };
                if msg1.acknowledged_transition_id.len() != 0 {
                    return Err(RelayError::RecoveryWithAcknowledgement);
                }
                stage_recovery(store, quotas, identity, now_ms)
            },
            None => {
                let _ = store.has_responder_recovery(quotas, key, now_ms);
                proof {
                    crate::responder_recovery::lemma_expired_once(old(store)@, now_ms);
                }
                let acknowledged = match acknowledged_transition(&msg1.acknowledged_transition_id) {
                    Ok(acknowledged) => acknowledged,
                    Err(e) => {
                        return Err(e);
                    },
                };
                stage_transition(
                    store,
                    quotas,
                    key,
                    algorithm,
                    &msg1.client_encryption_algorithm,
                    remote_key,
                    acknowledged,
                    now_ms,
                )
            },
        }
    }
}

/// The bytes of a token, or none.
pub open spec fn token_bytes(id: Option<u128>) -> Seq<u8> {
    match id {
        Some(id) => crate::bytes::be_bytes(id as nat, 16),
        None => Seq::empty(),
    }
}

pub fn token_to_wire(id: Option<u128>) -> (bytes: Vec<u8>)
    ensures
        bytes@ == token_bytes(id),
{
    let mut bytes: Vec<u8> = Vec::new();
    if let Some(id) = id {
        push_be(&mut bytes, id, 16);
        assert(bytes@ =~= token_bytes(Some(id)));
    }
    bytes
}

/// What an answer to a first message says.
pub open spec fn answers(
    msg2: RelayNoiseMsg2,
    prepared: UpsertResponderSessionReturn,
    session_metadata_id: u128,
    msg1: RelayNoiseMsg1,
    algorithm: Seq<char>,
    b_conn_id: u128,
    recovery_active: bool,
    acknowledged: Option<u128>,
) -> bool {
    &&& msg2.action == Some(prepared.action)
    &&& msg2.b_session_generation == prepared.session_generation
    &&& msg2.root_key_32 is Some <==> prepared.root_key is Some
    &&& msg2.root_key_32 is Some ==> msg2.root_key_32->0@ == prepared.root_key->0.bytes()
    &&& msg2.initial_epoch == prepared.initial_epoch
    &&& msg2.b_conn_id == Some(b_conn_id)
    &&& msg2.a_conn_id_echo == msg1.a_conn_id
    &&& msg2.server_encryption_algorithm@ == algorithm
    &&& msg2.version == RELAY_NOISE_VERSION
    &&& msg2.accepted
    &&& msg2.b_session_metadata_id == Some(session_metadata_id)
    &&& msg2.recovery is Some <==> recovery_active && msg1.recovery is Some
    &&& msg2.recovery is Some ==> msg2.recovery->0.same(msg1.recovery->0)
    &&& msg2.transition_id@ == token_bytes(Some(prepared.transition_id))
    &&& msg2.acknowledged_transition_id@ == token_bytes(acknowledged)
    &&& !msg2.recovery_reset
}

/// The answer to a first message.
pub fn answer_message(
    store: &PeerSessionStore,
    prepared: &UpsertResponderSessionReturn,
    msg1: &RelayNoiseMsg1,
    algorithm: &String,
    b_conn_id: u128,
    recovery_active: bool,
    acknowledged: Option<u128>,
) -> (msg2: RelayNoiseMsg2)
    requires
        store.wf(),
        store@.has(prepared.session),
    ensures
        answers(
            msg2,
            *prepared,
            store@.sess(prepared.session).metadata_session_id,
            *msg1,
            algorithm@,
            b_conn_id,
            recovery_active,
            acknowledged,
        ),
{
    let session = store.session(prepared.session).unwrap();
    let recovery = match &msg1.recovery {
        Some(recovery) => {
            if recovery_active {
                Some(recovery.duplicate())
            } else {
                None
            }
        },
        None => None,
    };
    let root_key_32 = match prepared.root_key {
        Some(key) => Some(key.to_bytes()),
        None => None,
    };
    RelayNoiseMsg2 {
        action: Some(prepared.action),
        b_session_generation: prepared.session_generation,
        root_key_32,
        initial_epoch: prepared.initial_epoch,
        b_conn_id: Some(b_conn_id),
        a_conn_id_echo: msg1.a_conn_id,
        server_encryption_algorithm: algorithm.clone(),
        version: RELAY_NOISE_VERSION,
        accepted: true,
        b_session_metadata_id: Some(session.metadata_session_id()),
        recovery,
        transition_id: token_to_wire(Some(prepared.transition_id)),
        acknowledged_transition_id: token_to_wire(acknowledged),
        recovery_reset: false,
    }
}

/// What the offer of a reset says.
pub open spec fn offers_reset(
    msg2: RelayNoiseMsg2,
    identity: InitiatorTransitionIdentity,
    msg1: RelayNoiseMsg1,
    algorithm: Seq<char>,
    b_conn_id: u128,
) -> bool {
    &&& msg2.action == Some(identity.action)
    &&& msg2.b_session_generation == identity.session_generation
    &&& msg2.root_key_32 is None
    &&& msg2.initial_epoch == identity.initial_epoch
    &&& msg2.b_conn_id == Some(b_conn_id)
    &&& msg2.a_conn_id_echo == msg1.a_conn_id
    &&& msg2.server_encryption_algorithm@ == algorithm
    &&& msg2.version == RELAY_NOISE_VERSION
    &&& msg2.accepted
    &&& msg2.b_session_metadata_id == Some(identity.session_metadata_id)
    &&& msg2.recovery matches Some(recovery)
    &&& recovery.session_metadata_id == Some(identity.session_metadata_id)
    &&& recovery.action == Some(identity.action)
    &&& recovery.session_generation == identity.session_generation
    &&& recovery.initial_epoch == identity.initial_epoch
    &&& recovery.root_key_digest@ == identity.root_key_digest.bytes()
    &&& recovery.transition_id@ == token_bytes(Some(identity.transition_id))
    &&& msg2.transition_id@ == token_bytes(Some(identity.transition_id))
    &&& msg2.acknowledged_transition_id@.len() == 0
    &&& msg2.recovery_reset
}

/// The offer of a reset.
pub fn reset_message(
    identity: &InitiatorTransitionIdentity,
    msg1: &RelayNoiseMsg1,
    algorithm: &String,
    b_conn_id: u128,
) -> (msg2: RelayNoiseMsg2)
    ensures
        offers_reset(msg2, *identity, *msg1, algorithm@, b_conn_id),
{
    RelayNoiseMsg2 {
        action: Some(identity.action),
        b_session_generation: identity.session_generation,
        root_key_32: None,
        initial_epoch: identity.initial_epoch,
        b_conn_id: Some(b_conn_id),
        a_conn_id_echo: msg1.a_conn_id,
        server_encryption_algorithm: algorithm.clone(),
        version: RELAY_NOISE_VERSION,
        accepted: true,
        b_session_metadata_id: Some(identity.session_metadata_id),
        recovery: Some(recovery_pb_from_identity(identity)),
        transition_id: token_to_wire(Some(identity.transition_id)),
        acknowledged_transition_id: Vec::new(),
        recovery_reset: true,
    }
}

/// The peer after its answer was made: it waits for the confirmation.
pub open spec fn answer_waits(
    peer: RelayPeer,
    prepared: UpsertResponderSessionReturn,
    session_metadata_id: u128,
    recovery_active: bool,
    handshake_id: u128,
    response: Seq<u8>,
    now_ms: u64,
    peer_after: RelayPeer,
) -> bool {
    &&& peer_after.send_confirming(
        peer.send,
        RelayConfirmationIdentity {
            handshake_id,
            session_id: session_metadata_id,
            transition_id: prepared.transition_id,
        },
    )
    &&& peer_after == (RelayPeer {
        send: peer_after.send,
        responder: peer_after.responder,
        state: Some(RelayPeer::succeeded(now_ms)),
        ..peer
    })
    &&& peer_after.responder matches Some(pending)
    &&& pending.handshake_id == handshake_id
    &&& pending.response@ == response
    &&& pending.prepared == prepared
    &&& pending.recovery_active == recovery_active
    &&& pending.transition_id == prepared.transition_id
    &&& pending.deadline == crate::relay_peer::later(
        now_ms,
        crate::relay_peer::answer_lifetime(),
    )
}

impl RelayPeer {
    /// Makes the answer to a first message out of its encoded contents. Where
    /// that fails the transition is given up.
    pub fn send_answer(
        &mut self,
        store: &mut PeerSessionStore,
        quotas: &mut SessionQuotas,
        handshake: NoiseHandshake,
        contents: &Vec<u8>,
        prepared: UpsertResponderSessionReturn,
        recovery_active: bool,
        handshake_id: u128,
        now_ms: u64,
    ) -> (response: Result<Vec<u8>, RelayError>)
        requires
            old(store).wf(),
            old(self).wf(old(store)@),
            prepared.held_in(old(store)@),
            recovery_active ==> prepared.proof_dependency is None,
        ensures
            final(store).wf(),
            final(self).wf(final(store)@),
            crate::relay_peer::keeps_sessions(old(store)@, final(store)@),
            match response {
                Ok(response) => {
                    &&& answer_waits(
                        *old(self),
                        prepared,
                        old(store)@.sess(prepared.session).metadata_session_id,
                        recovery_active,
                        handshake_id,
                        response@,
                        now_ms,
                        *final(self),
                    )
                    &&& crate::noise::can_write(contents@, Some(response@))
                    &&& response@.len() <= crate::noise::NOISE_MESSAGE_CAPACITY
                    &&& final(store)@ == old(store)@
                    &&& *final(quotas) == *old(quotas)
                },
                Err(e) => crate::noise::can_write(contents@, None) && exists|pending: PendingResponderHandshake|
                    {
                        &&& pending.prepared == prepared
                        &&& pending.recovery_active == recovery_active
                        &&& e == RelayError::NoiseFailed
                        &&& *final(self) == *old(self)
                        &&& final(store)@ == #[trigger] RelayPeer::responder_dropped(
                            old(store)@,
                            pending,
                        )
                        &&& *final(quotas) == RelayPeer::responder_dropped_quotas(
                            old(store)@,
                            *old(quotas),
                            pending,
                        )
                    },
            },
    {
        let mut handshake = handshake;
        let transition_id: u128 = prepared.transition_id;
        let session_id: u128 = match store.session(prepared.session) {
            Some(session) => session.metadata_session_id(),
            None => 0,
        };
        let deadline: u64 = now_ms.saturating_add(
            RESPONDER_CONFIRM_DEADLINE_MS + RELAY_CONFIRM_WINDOW_MS * 2,
        );
        let mut pending = PendingResponderHandshake {
            handshake_id,
            response: Vec::new(),
            prepared,
            recovery_active,
            transition_id,
            deadline,
        };
        match handshake.write(contents) {
            Err(e) => {
                let ghost given_up = pending;
                if !recovery_active {
                    pending.prepared.cancel(store);
                }
                pending.prepared.restore_uncommitted_proof(store, quotas);
                assert(store@ == RelayPeer::responder_dropped(old(store)@, given_up));
                Err(e)
            },
            Ok(message) => {
                pending.response = copy_bytes(&message);
                self.set_confirmation_identity(
                    RelayConfirmationIdentity { handshake_id, session_id, transition_id },
                );
                self.responder = Some(pending);
                self.register_handshake_success(now_ms);
                Ok(message)
            },
        }
    }

    /// Makes the offer of a reset out of its encoded contents.
    pub fn send_reset_offer(
        &mut self,
        handshake: NoiseHandshake,
        contents: &Vec<u8>,
        identity: TransitionFields,
        handshake_id: u128,
        now_ms: u64,
    ) -> (response: Result<Vec<u8>, RelayError>)
        ensures
            match response {
                Ok(response) => {
                    &&& final(self).responder_reset matches Some(pending)
                    &&& pending.handshake_id == handshake_id
                    &&& pending.identity == identity
                    &&& pending.response@ == response@
                    &&& crate::noise::can_write(contents@, Some(response@))
                    &&& crate::noise::can_end(true)
                    &&& response@.len() <= crate::noise::NOISE_MESSAGE_CAPACITY
                    &&& pending.deadline == crate::relay_peer::later(
                        now_ms,
                        crate::relay_peer::answer_lifetime(),
                    )
                    &&& *final(self) == (RelayPeer {
                        responder_reset: final(self).responder_reset,
                        state: Some(RelayPeer::succeeded(now_ms)),
                        ..*old(self)
                    })
                },
                Err(e) => {
                    &&& e == RelayError::NoiseFailed
                    &&& crate::noise::can_write(contents@, None) || crate::noise::can_end(false)
                    &&& *final(self) == *old(self)
                },
            },
    {
        let mut handshake = handshake;
        let message = match handshake.write(contents) {
            Ok(message) => message,
            Err(e) => {
                return Err(e);
            },
        };
        let transport = match handshake.into_transport() {
            Ok(transport) => transport,
            Err(e) => {
                return Err(e);
            },
        };
        self.responder_reset = Some(
            PendingResponderReset {
                handshake_id,
                identity,
                response: copy_bytes(&message),
                transport,
                deadline: now_ms.saturating_add(
                    RESPONDER_CONFIRM_DEADLINE_MS + RELAY_CONFIRM_WINDOW_MS * 2,
                ),
            },
        );
        self.register_handshake_success(now_ms);
        Ok(message)
    }

    /// Opens the request for an offered reset. The contents name the transition.
    pub fn open_reset(&mut self, packet: &Packet, handshake_id: u128) -> (contents: Result<
        Vec<u8>,
        RelayError,
    >)
        ensures
            match old(self).responder_reset {
                None => contents == Err::<Vec<u8>, RelayError>(RelayError::ResetNotPending)
                    && *final(self) == *old(self),
                Some(pending) => if pending.handshake_id != handshake_id {
                    contents == Err::<Vec<u8>, RelayError>(RelayError::ResetHandshakeIdMismatch)
                        && *final(self) == *old(self)
                } else {
                    &&& final(self).responder_reset matches Some(after)
                    &&& after == (PendingResponderReset { transport: after.transport, ..pending })
                    &&& *final(self) == (RelayPeer {
                        responder_reset: final(self).responder_reset,
                        ..*old(self)
                    })
                    &&& match crate::noise::handshake_packet_check(
                        packet@,
                        crate::packet::PACKET_RELAY_HANDSHAKE_RESET,
                    ) {
                        Err(e) => contents == Err::<Vec<u8>, RelayError>(e),
                        Ok(_) => {
                            &&& crate::noise::can_unseal(
                                crate::noise::noise_part(packet@),
                                crate::noise::bytes_of(contents),
                            )
                            &&& contents is Err ==> contents->Err_0 == RelayError::NoiseFailed
                            &&& contents is Ok ==> contents->Ok_0@.len() + 16
                                == crate::noise::noise_part(packet@).len()
                        },
                    }
                },
            },
    {
        let matching = match &self.responder_reset {
            Some(pending) => pending.handshake_id == handshake_id,
            None => {
                return Err(RelayError::ResetNotPending);
            },
        };
        if !matching {
            return Err(RelayError::ResetHandshakeIdMismatch);
        }
        let mut pending = self.responder_reset.take().unwrap();
        let contents = pending.transport.read_packet(
            crate::packet::PACKET_RELAY_HANDSHAKE_RESET,
            packet,
        );
        self.responder_reset = Some(pending);
        contents
    }

    /// Answers the request for an offered reset, if it names the transition of
    /// the offer. `contents` is the encoded identity of that transition.
    pub fn answer_reset(&mut self, named: &TransitionFields, contents: &Vec<u8>) -> (message: Result<
        Vec<u8>,
        RelayError,
    >)
        ensures
            match old(self).responder_reset {
                None => message == Err::<Vec<u8>, RelayError>(RelayError::ResetNotPending)
                    && *final(self) == *old(self),
                Some(pending) => if !pending.identity.authenticated_as(*named) {
                    message == Err::<Vec<u8>, RelayError>(RelayError::ResetIdentityMismatch)
                        && *final(self) == *old(self)
                } else {
                    &&& final(self).responder_reset matches Some(after)
                    &&& after == (PendingResponderReset { transport: after.transport, ..pending })
                    &&& *final(self) == (RelayPeer {
                        responder_reset: final(self).responder_reset,
                        ..*old(self)
                    })
                    &&& crate::noise::can_seal(contents@, crate::noise::bytes_of(message))
                    &&& message is Err ==> message->Err_0 == RelayError::NoiseFailed
                    &&& message is Ok ==> message->Ok_0@.len() == contents@.len() + 16
                    &&& contents@.len() + 16 > crate::noise::NOISE_MESSAGE_CAPACITY ==> message is Err
                },
            },
    {
        let matching = match &self.responder_reset {
            Some(pending) => pending.identity.matches_authenticated_fields(named),
            None => {
                return Err(RelayError::ResetNotPending);
            },
        };
        if !matching {
            return Err(RelayError::ResetIdentityMismatch);
        }
        let mut pending = self.responder_reset.take().unwrap();
        let message = pending.transport.write(contents);
        self.responder_reset = Some(pending);
        message
    }
}

/// Where two peers start a handshake with each other at the same time, exactly
/// one of them puts the other's aside: the one with the smaller identifier goes
/// on with its own.
pub proof fn lemma_one_side_defers(
    a: PeerId,
    b: PeerId,
    peer_of_a: RelayPeer,
    peer_of_b: RelayPeer,
    store_a: StoreModel,
    store_b: StoreModel,
    quotas_a: SessionQuotas,
    quotas_b: SessionQuotas,
    id_of_a: u128,
    id_of_b: u128,
    key_of_a: Key32,
    key_of_b: Key32,
    msg_of_a: RelayNoiseMsg1,
    msg_of_b: RelayNoiseMsg1,
    packet_of_a: PacketModel,
    packet_of_b: PacketModel,
    now_ms: u64,
    at_a: Result<Msg1Admission, RelayError>,
    at_b: Result<Msg1Admission, RelayError>,
    peer_of_a_after: RelayPeer,
    peer_of_b_after: RelayPeer,
    store_a_after: StoreModel,
    store_b_after: StoreModel,
    quotas_a_after: SessionQuotas,
    quotas_b_after: SessionQuotas,
)
    requires
        a != b,
        peer_of_a.pending_handshake is Some,
        peer_of_b.pending_handshake is Some,
        msg1_check(msg_of_a, id_of_a, key_of_a, key_of_a.bytes()) is Ok,
        msg1_check(msg_of_b, id_of_b, key_of_b, key_of_b.bytes()) is Ok,
        msg1_admitted(
            peer_of_a,
            store_b,
            quotas_b,
            b,
            a,
            id_of_a,
            Some(key_of_a),
            key_of_a.bytes(),
            msg_of_a,
            packet_of_a,
            now_ms,
            at_b,
            peer_of_a_after,
            store_b_after,
            quotas_b_after,
        ),
        msg1_admitted(
            peer_of_b,
            store_a,
            quotas_a,
            a,
            b,
            id_of_b,
            Some(key_of_b),
            key_of_b.bytes(),
            msg_of_b,
            packet_of_b,
            now_ms,
            at_a,
            peer_of_b_after,
            store_a_after,
            quotas_a_after,
        ),
    ensures
        (at_a matches Ok(Msg1Admission::Deferred { .. })) <==> a < b,
        (at_b matches Ok(Msg1Admission::Deferred { .. })) <==> b < a,
        a < b ==> peer_of_b_after.pending_handshake == peer_of_b.pending_handshake
            && peer_of_a_after.pending_handshake is None,
        b < a ==> peer_of_a_after.pending_handshake == peer_of_a.pending_handshake
            && peer_of_b_after.pending_handshake is None,
{
}

} // verus!
