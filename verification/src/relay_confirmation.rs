//! Confirmation packets of relay peers.

use vstd::prelude::*;
use crate::packet::{
    Packet, PacketModel, PeerId, PACKET_RELAY_HANDSHAKE_CONFIRM,
    PACKET_RELAY_HANDSHAKE_CONFIRM_ACK, PACKET_RELAY_HANDSHAKE_READY,
    PACKET_RELAY_HANDSHAKE_READY_ACK, PACKET_RELAY_HANDSHAKE_READY_RECEIPT,
    PACKET_RELAY_HANDSHAKE_READY_RECEIPT_ACK,
};
use crate::peer_session::PeerSessionModel;
use crate::relay_auth::RelayAuthority;
use crate::relay_peer::{
    PendingConfirmationAck, PendingReadyReceipt, PendingResponderHandshake, RelayOutcome, RelayPeer,
};
use crate::relay_queue::{RelaySendPhase, RelaySendState};
use crate::relay_wire::{
    decode_confirmation, decode_relay_ready_receipt, RelayConfirmationIdentity, RelayError,
    RelayReadyReceiptIdentity,
};
use crate::responder_store::UpsertResponderSessionReturn;
use crate::session_store::{PeerSessionStore, SessionId, SessionQuotas, StoreModel};
use crate::session_types::{
    IdentityModel, InitiatorTransitionIdentity, SessionKey, SessionKeyModel, TransitionFields,
};

verus! {

/// What to do after a confirmation packet.
#[derive(Clone, Copy, Debug, PartialEq, Eq, Structural)]
pub enum ConfirmationReply {
    Ignore,
    /// The confirmation was accepted: whoever drives it goes on.
    Accepted,
    /// The staged transition is active. Queued packets go out, and the receipt
    /// is sent.
    Committed { session: SessionId, receipt: RelayReadyReceiptIdentity },
    SendConfirmAck { session: SessionId, identity: RelayConfirmationIdentity },
    /// Answer, and let queued packets go out once the answer is on its way.
    SendReadyAck { session: SessionId, identity: RelayConfirmationIdentity, then_drain: bool },
    SendReceiptAck { session: SessionId, identity: RelayReadyReceiptIdentity },
    /// The receipt arrived: whoever sends it stops.
    ReceiptAcknowledged,
}

/// The transition that a receipt names, if a session has this root key.
pub open spec fn receipt_transition(
    identity: RelayReadyReceiptIdentity,
    session: PeerSessionModel,
) -> TransitionFields {
    TransitionFields {
        session_metadata_id: identity.session_metadata_id,
        action: identity.action,
        session_generation: identity.session_generation,
        initial_epoch: identity.initial_epoch,
        transition_id: identity.transition_id,
        transition_revision: 0,
        root_key_digest: crate::session_types::root_key_digest(session.datagram.root_key),
    }
}

/// What a receipt leads to before anything is changed. `settled` is the store
/// without outlived proofs.
pub open spec fn receipt_check(
    peer: RelayPeer,
    store: StoreModel,
    settled: StoreModel,
    key: SessionKeyModel,
    identity: RelayReadyReceiptIdentity,
    now_ms: u64,
) -> Result<bool, RelayError> {
    match store.published(key) {
        None => Err(RelayError::ReceiptWithoutSession),
        Some(id) => {
            let session = store.sess(id);
            if session.metadata_session_id != identity.session_metadata_id {
                Err(RelayError::ReceiptMetadataMismatch)
            } else if peer.has_completed_receipt(identity, now_ms) {
                Ok(false)
            } else {
                match settled.reconciled(
                    IdentityModel { key, fields: receipt_transition(identity, session) },
                ) {
                    None => Err(RelayError::ReceiptNotCommitted),
                    Some(committed) => if committed.action != identity.action
                        || committed.session_generation != identity.session_generation
                        || committed.initial_epoch != identity.initial_epoch
                        || committed.transition_id != identity.transition_id {
                        Err(RelayError::ReceiptTransitionMismatch)
                    } else if settled.proof_id(key) != Some(identity.transition_id) {
                        Err(RelayError::ReceiptProofNotPending)
                    } else {
                        Ok(true)
                    },
                }
            }
        },
    }
}

/// Whether the pending answer of a peer depends on the proof of a transition.
pub open spec fn depends_on(peer: RelayPeer, transition_id: u128) -> bool {
    peer.responder is Some && peer.responder->0.prepared.proof_dependency == Some(transition_id)
}

/// What a receipt gives and changes.
pub open spec fn receipt_handled(
    peer: RelayPeer,
    store: StoreModel,
    quotas: SessionQuotas,
    key: SessionKeyModel,
    identity: RelayReadyReceiptIdentity,
    now_ms: u64,
    reply: Result<ConfirmationReply, RelayError>,
    peer_after: RelayPeer,
    store_after: StoreModel,
    quotas_after: SessionQuotas,
) -> bool {
    let looked_up = store.after_get(key, now_ms);
    let settled = looked_up.expired(now_ms);
    let settled_quotas = crate::responder_recovery::proofs_released(
        quotas,
        looked_up.expired_keys(now_ms).len(),
    );
    let answer = Ok::<ConfirmationReply, RelayError>(
        ConfirmationReply::SendReceiptAck { session: store.published(key)->0, identity },
    );
    match receipt_check(peer, store, settled, key, identity, now_ms) {
        Err(e) => {
            &&& reply == Err::<ConfirmationReply, RelayError>(e)
            &&& peer_after == peer
            &&& if e == RelayError::ReceiptWithoutSession || e
                == RelayError::ReceiptMetadataMismatch {
                store_after == looked_up && quotas_after == quotas
            } else {
                store_after == settled && quotas_after == settled_quotas
            }
        },
        Ok(false) => {
            &&& reply == answer
            &&& peer_after == peer
            &&& store_after == looked_up
            &&& quotas_after == quotas
        },
        Ok(true) => if depends_on(peer, identity.transition_id) {
            let prepared = peer.responder->0.prepared;
            &&& quotas_after == settled_quotas
            &&& match settled.authenticate_check(
                prepared.prepared_key@,
                prepared,
                identity.transition_id,
            ) {
                Err(error) => {
                    &&& reply == Err::<ConfirmationReply, RelayError>(RelayError::Session { error })
                    &&& peer_after == peer
                    &&& store_after == settled
                },
                Ok(_) => {
                    &&& reply == answer
                    &&& peer_after.completed_receipts@ == RelayPeer::receipts_with(
                        peer.completed_receipts@,
                        identity,
                        now_ms,
                    )
                    &&& peer_after == (RelayPeer {
                        responder: peer_after.responder,
                        completed_receipts: peer_after.completed_receipts,
                        ..peer
                    })
                    &&& peer_after.responder == Some(
                        PendingResponderHandshake {
                            prepared: if prepared.proof_cleared {
                                prepared
                            } else {
                                UpsertResponderSessionReturn {
                                    proof_cleared: true,
                                    proof_backup: settled.rec(prepared.prepared_key@).recovery,
                                    ..prepared
                                }
                            },
                            ..peer.responder->0
                        },
                    )
                    &&& store_after == (if prepared.proof_cleared {
                        settled
                    } else {
                        settled.with_recovery(prepared.prepared_key@, None)
                    })
                },
            }
        } else {
            &&& reply == answer
            &&& peer_after.completed_receipts@ == RelayPeer::receipts_with(
                peer.completed_receipts@,
                identity,
                now_ms,
            )
            &&& peer_after == (RelayPeer {
                completed_receipts: peer_after.completed_receipts,
                ..peer
            })
            &&& store_after == settled.with_recovery(key, None)
            &&& quotas_after == settled_quotas.without_recovery()
        },
    }
}

/// Whether an acknowledged receipt is of a commit that the session remembers and
/// that nothing waits for any more.
pub open spec fn receipt_already_acknowledged(store: StoreModel, key: SessionKeyModel, fields: TransitionFields) -> bool {
    &&& store.rec(key).receipt is None
    &&& store.rec(key).active is Some
    &&& store.sess((store.rec(key).active->0).session).committed_as(fields) is Some
}

/// What the acknowledgement of a receipt leads to: `true` if the stored receipt
/// is removed by it.
pub open spec fn receipt_ack_check(
    peer: RelayPeer,
    store: StoreModel,
    key: SessionKeyModel,
    identity: RelayReadyReceiptIdentity,
    verified_session_id: u128,
    now_ms: u64,
) -> Result<(ConfirmationReply, bool), RelayError> {
    let looked_up = store.after_get(key, now_ms);
    match store.published(key) {
        None => Err(RelayError::ReceiptWithoutSession),
        Some(id) => {
            let session = store.sess(id);
            let fields = receipt_transition(identity, session);
            let stored = looked_up.rec(key).receipt;
            if session.metadata_session_id != verified_session_id {
                Err(RelayError::ReceiptAckUnexpectedSession)
            } else {
                match peer.receipt {
                    None => if receipt_already_acknowledged(looked_up, key, fields) {
                        Ok((ConfirmationReply::Ignore, false))
                    } else {
                        Err(RelayError::ReceiptAckOwnerMissing)
                    },
                    Some(pending) => if pending.identity != identity {
                        Err(RelayError::ReceiptAckMismatch)
                    } else if stored is Some && (stored->0).identity.authenticated_as(fields) {
                        Ok((ConfirmationReply::ReceiptAcknowledged, true))
                    } else if receipt_already_acknowledged(looked_up, key, fields) {
                        Ok((ConfirmationReply::ReceiptAcknowledged, false))
                    } else {
                        Err(RelayError::ReceiptNotPending)
                    },
                }
            }
        },
    }
}

/// What the acknowledgement of a receipt gives and changes.
pub open spec fn receipt_ack_handled(
    peer: RelayPeer,
    store: StoreModel,
    quotas: SessionQuotas,
    key: SessionKeyModel,
    identity: RelayReadyReceiptIdentity,
    verified_session_id: u128,
    now_ms: u64,
    reply: Result<ConfirmationReply, RelayError>,
    peer_after: RelayPeer,
    store_after: StoreModel,
    quotas_after: SessionQuotas,
) -> bool {
    let looked_up = store.after_get(key, now_ms);
    match receipt_ack_check(peer, store, key, identity, verified_session_id, now_ms) {
        Err(e) => {
            &&& reply == Err::<ConfirmationReply, RelayError>(e)
            &&& peer_after == peer
            &&& store_after == looked_up
            &&& quotas_after == quotas
        },
        Ok((answer, removed)) => {
            &&& reply == Ok::<ConfirmationReply, RelayError>(answer)
            &&& peer_after == (if answer == ConfirmationReply::ReceiptAcknowledged {
                RelayPeer {
                    receipt: Some(PendingReadyReceipt { acknowledged: true, ..peer.receipt->0 }),
                    ..peer
                }
            } else {
                peer
            })
            &&& store_after == (if removed {
                looked_up.with_receipt(key, None)
            } else {
                looked_up
            })
            &&& quotas_after == (if removed {
                quotas.without_receipt()
            } else {
                quotas
            })
        },
    }
}

impl RelayPeer {
    fn fields_of_receipt(
        identity: RelayReadyReceiptIdentity,
        store: &PeerSessionStore,
        session: SessionId,
    ) -> (fields: TransitionFields)
        requires
            store.wf(),
            store@.has(session),
        ensures
            fields == receipt_transition(identity, store@.sess(session)),
    {
        let session = store.session(session).unwrap();
        TransitionFields {
            session_metadata_id: identity.session_metadata_id,
            action: identity.action,
            session_generation: identity.session_generation,
            initial_epoch: identity.initial_epoch,
            transition_id: identity.transition_id,
            transition_revision: 0,
            root_key_digest: session.root_key_digest(),
        }
    }

    /// The other side has committed a transition: its proof is no longer needed.
    pub fn handle_ready_receipt(
        &mut self,
        store: &mut PeerSessionStore,
        quotas: &mut SessionQuotas,
        key: &SessionKey,
        identity: RelayReadyReceiptIdentity,
        now_ms: u64,
    ) -> (reply: Result<ConfirmationReply, RelayError>)
        requires
            old(store).wf(),
            old(self).wf(old(store)@),
        ensures
            final(store).wf(),
            final(self).wf(final(store)@),
            crate::relay_peer::keeps_sessions(old(store)@, final(store)@),
            receipt_handled(
                *old(self),
                old(store)@,
                *old(quotas),
                key@,
                identity,
                now_ms,
                reply,
                *final(self),
                final(store)@,
                *final(quotas),
            ),
    {
        proof {
            crate::session_store::lemma_sound_record(store@, key@);
        }
        let session: SessionId = match store.get(key, now_ms) {
            Some(id) => id,
            None => {
                return Err(RelayError::ReceiptWithoutSession);
            },
        };
        let metadata = match store.session(session) {
            Some(held) => Some(held.metadata_session_id()),
            None => None,
        };
        if metadata != Some(identity.session_metadata_id) {
            return Err(RelayError::ReceiptMetadataMismatch);
        }
        // A duplicate can arrive after a later transition changed the root key.
        // The completed identity is authenticated by the current session, so the
        // answer is repeated without looking at old keys.
        if self.completed_ready_receipt(identity, now_ms) {
            return Ok(ConfirmationReply::SendReceiptAck { session, identity });
        }
        let fields = RelayPeer::fields_of_receipt(identity, store, session);
        let transition = InitiatorTransitionIdentity::from_fields(key.duplicate(), fields);
        let committed = match store.reconcile_active_responder_transition(
            quotas,
            &transition,
            now_ms,
        ) {
            Some(committed) => committed,
            None => {
                return Err(RelayError::ReceiptNotCommitted);
            },
        };
        if committed.action != identity.action || committed.session_generation
            != identity.session_generation || committed.initial_epoch != identity.initial_epoch
            || committed.transition_id != identity.transition_id {
            return Err(RelayError::ReceiptTransitionMismatch);
        }
        let proof_id = match store.recovery_of(key) {
            Some(record) => Some(record.identity.transition_id),
            None => None,
        };
        if proof_id != Some(identity.transition_id) {
            return Err(RelayError::ReceiptProofNotPending);
        }
        let depends = match &self.responder {
            Some(pending) => pending.prepared.proof_dependency == Some(identity.transition_id),
            None => false,
        };
        if depends {
            let mut pending = self.responder.take().unwrap();
            let authenticated = pending.prepared.authenticate_recovery(store);
            self.responder = Some(pending);
            if let Err(error) = authenticated {
                return Err(RelayError::Session { error });
            }
        } else {
            store.drop_proof(quotas, key);
        }
        self.record_completed_ready_receipt(identity, now_ms);
        Ok(ConfirmationReply::SendReceiptAck { session, identity })
    }

    /// The other side has the receipt of a commit.
    pub fn handle_ready_receipt_ack(
        &mut self,
        store: &mut PeerSessionStore,
        quotas: &mut SessionQuotas,
        key: &SessionKey,
        identity: RelayReadyReceiptIdentity,
        verified_session_id: u128,
        now_ms: u64,
    ) -> (reply: Result<ConfirmationReply, RelayError>)
        requires
            old(store).wf(),
            old(self).wf(old(store)@),
        ensures
            final(store).wf(),
            final(self).wf(final(store)@),
            crate::relay_peer::keeps_sessions(old(store)@, final(store)@),
            receipt_ack_handled(
                *old(self),
                old(store)@,
                *old(quotas),
                key@,
                identity,
                verified_session_id,
                now_ms,
                reply,
                *final(self),
                final(store)@,
                *final(quotas),
            ),
    {
        proof {
            crate::session_store::lemma_sound_record(store@, key@);
        }
        let session: SessionId = match store.get(key, now_ms) {
            Some(id) => id,
            None => {
                return Err(RelayError::ReceiptWithoutSession);
            },
        };
        let metadata = match store.session(session) {
            Some(held) => Some(held.metadata_session_id()),
            None => None,
        };
        if metadata != Some(verified_session_id) {
            return Err(RelayError::ReceiptAckUnexpectedSession);
        }
        let fields = RelayPeer::fields_of_receipt(identity, store, session);
        let transition = InitiatorTransitionIdentity::from_fields(key.duplicate(), fields);
        let already = store.receipt_of(key).is_none() && store.active_transition_matches(
            &transition,
        );
        let pending = match self.receipt {
            Some(pending) => pending,
            None => {
                if already {
                    return Ok(ConfirmationReply::Ignore);
                }
                return Err(RelayError::ReceiptAckOwnerMissing);
            },
        };
        if pending.identity != identity {
            return Err(RelayError::ReceiptAckMismatch);
        }
        if !store.acknowledge_initiator_receipt_exact(quotas, &transition) && !already {
            return Err(RelayError::ReceiptNotPending);
        }
        let mut acknowledged = pending;
        acknowledged.acknowledged = true;
        self.receipt = Some(acknowledged);
        Ok(ConfirmationReply::ReceiptAcknowledged)
    }
}

/// The published session of a key is bound to the authority of its peer again,
/// or withdrawn where that fails.
pub open spec fn rejoined(
    peer: RelayPeer,
    store: StoreModel,
    authority: RelayAuthority,
    key: SessionKeyModel,
    peer_id: PeerId,
    now_ms: u64,
) -> (Result<SessionId, RelayError>, RelayPeer, StoreModel) {
    let looked_up = store.after_get(key, now_ms);
    match store.published(key) {
        None => (Err(RelayError::ReadyWithoutSession), peer, looked_up),
        Some(id) => match authority.binding(peer_id, store.sess(id)) {
            Err(e) => (
                Err(e),
                peer,
                crate::relay_initiator::withdrawn_if_same(looked_up, key, id),
            ),
            Ok(binding) => (Ok(id), RelayPeer { auth: Some(binding), ..peer }, looked_up),
        },
    }
}

/// What committing the pending answer of a peer gives and changes.
pub open spec fn answer_committed(
    peer: RelayPeer,
    store: StoreModel,
    quotas: SessionQuotas,
    authority: RelayAuthority,
    key: SessionKeyModel,
    peer_id: PeerId,
    identity: RelayConfirmationIdentity,
    now_ms: u64,
    result: Result<SessionId, RelayError>,
    peer_after: RelayPeer,
    store_after: StoreModel,
    quotas_after: SessionQuotas,
) -> bool {
    let pending = peer.responder->0;
    let (activated, outcome) = if pending.recovery_active {
        (store, Ok(()))
    } else {
        store.responder_committed(quotas, key, pending.prepared, now_ms)
    };
    let refused = RelayPeer {
        responder: None,
        send: RelayPeer::confirmation_reset(peer.send, identity),
        ..peer
    };
    match outcome {
        Err(error) => {
            &&& result == Err::<SessionId, RelayError>(RelayError::Session { error })
            &&& peer_after == refused
            &&& store_after == RelayPeer::responder_dropped(activated, pending)
            &&& quotas_after == RelayPeer::responder_dropped_quotas(activated, quotas, pending)
        },
        Ok(_) => {
            let id = pending.prepared.session;
            &&& quotas_after == (if pending.recovery_active {
                quotas
            } else {
                store.proof_slots_after(quotas, key, pending.prepared)
            })
            &&& match authority.binding(peer_id, activated.sess(id)) {
                Err(e) => {
                    &&& result == Err::<SessionId, RelayError>(e)
                    &&& peer_after == refused
                    &&& store_after == crate::relay_initiator::withdrawn_if_same(activated, key, id)
                },
                Ok(binding) => {
                    &&& result == Ok::<SessionId, RelayError>(id)
                    &&& peer_after.completed@ == RelayPeer::completed_with(
                        peer.completed@,
                        identity,
                        now_ms,
                    )
                    &&& peer_after == (RelayPeer {
                        responder: None,
                        auth: Some(binding),
                        completed: peer_after.completed,
                        ..peer
                    })
                    &&& store_after == activated
                },
            }
        },
    }
}

/// Whether a peer waits for the confirmation of an identity.
pub open spec fn confirms(peer: RelayPeer, identity: RelayConfirmationIdentity) -> bool {
    peer.send matches Some(state) && state.confirmation == Some(identity)
}

/// Whether the pending answer of a peer is the one of an identity and in time.
pub open spec fn answer_live(
    peer: RelayPeer,
    store: StoreModel,
    identity: RelayConfirmationIdentity,
    now_ms: u64,
) -> bool {
    peer.responder_is(store, identity) && peer.responder->0.deadline > now_ms
}

/// What the message that the initiator is ready gives and changes.
pub open spec fn ready_handled(
    peer: RelayPeer,
    store: StoreModel,
    quotas: SessionQuotas,
    authority: RelayAuthority,
    key: SessionKeyModel,
    peer_id: PeerId,
    identity: RelayConfirmationIdentity,
    now_ms: u64,
    reply: Result<ConfirmationReply, RelayError>,
    peer_after: RelayPeer,
    store_after: StoreModel,
    quotas_after: SessionQuotas,
) -> bool {
    let current = confirms(peer, identity);
    let unchanged = peer_after == peer && store_after == store && quotas_after == quotas;
    let refusal = |e: RelayError| reply == Err::<ConfirmationReply, RelayError>(e);
    let answer = |id: SessionId|
        {
            if store_after.sess(id).metadata_session_id != identity.session_id {
                refusal(RelayError::ReadySessionMismatch)
            } else {
                reply == Ok::<ConfirmationReply, RelayError>(
                    ConfirmationReply::SendReadyAck { session: id, identity, then_drain: current },
                )
            }
        };
    if peer.send is None {
        refusal(RelayError::ReadyWithoutState) && unchanged
    } else if !current && !peer.has_completed(identity, now_ms) {
        refusal(RelayError::ReadyMismatch) && unchanged
    } else if current && answer_live(peer, store, identity, now_ms) {
        exists|committed: Result<SessionId, RelayError>|
            {
                &&& #[trigger] answer_committed(
                    peer,
                    store,
                    quotas,
                    authority,
                    key,
                    peer_id,
                    identity,
                    now_ms,
                    committed,
                    peer_after,
                    store_after,
                    quotas_after,
                )
                &&& match committed {
                    Ok(id) => answer(id),
                    Err(e) => refusal(e),
                }
            }
    } else if current && !peer.has_completed(identity, now_ms) {
        refusal(RelayError::ReadyWithoutPending) && unchanged
    } else {
        let (joined, joined_peer, joined_store) = rejoined(
            peer,
            store,
            authority,
            key,
            peer_id,
            now_ms,
        );
        &&& peer_after == joined_peer
        &&& store_after == joined_store
        &&& quotas_after == quotas
        &&& match joined {
            Ok(id) => answer(id),
            Err(e) => refusal(e),
        }
    }
}

/// What a confirmation gives and changes. An answer that was waited for too long
/// is given up first.
pub open spec fn confirm_handled(
    peer: RelayPeer,
    store: StoreModel,
    quotas: SessionQuotas,
    key: SessionKeyModel,
    identity: RelayConfirmationIdentity,
    now_ms: u64,
    reply: Result<ConfirmationReply, RelayError>,
    peer_after: RelayPeer,
    store_after: StoreModel,
    quotas_after: SessionQuotas,
) -> bool {
    let late = peer.responder is Some && peer.responder->0.deadline <= now_ms;
    let expected = Some(identity.handshake_id);
    let p = if late {
        peer.canceled_peer(expected)
    } else {
        peer
    };
    let s = if late {
        peer.canceled_store(store, expected)
    } else {
        store
    };
    let looked_up = s.after_get(key, now_ms);
    let refusal = |e: RelayError| reply == Err::<ConfirmationReply, RelayError>(e);
    let extended = |at: StoreModel|
        if p.responder_is(at, identity) {
            RelayPeer {
                responder: Some(
                    PendingResponderHandshake {
                        deadline: crate::relay_peer::later(
                            now_ms,
                            crate::relay_peer::confirmed_lifetime(),
                        ),
                        ..p.responder->0
                    },
                ),
                ..p
            }
        } else {
            p
        };
    &&& quotas_after == (if late {
        peer.canceled_quotas(store, quotas, expected)
    } else {
        quotas
    })
    &&& if answer_live(p, s, identity, now_ms) {
        &&& reply == Ok::<ConfirmationReply, RelayError>(
            ConfirmationReply::SendConfirmAck {
                session: p.responder->0.prepared.session,
                identity,
            },
        )
        &&& peer_after == extended(s)
        &&& store_after == s
    } else if !p.has_completed(identity, now_ms) {
        refusal(RelayError::ConfirmationMismatch) && peer_after == p && store_after == s
    } else {
        &&& store_after == looked_up
        &&& match s.published(key) {
            None => refusal(RelayError::ConfirmationSessionMissing) && peer_after == p,
            Some(id) => if s.sess(id).metadata_session_id != identity.session_id {
                refusal(RelayError::ConfirmationSessionMismatch) && peer_after == p
            } else {
                &&& reply == Ok::<ConfirmationReply, RelayError>(
                    ConfirmationReply::SendConfirmAck { session: id, identity },
                )
                &&& peer_after == extended(looked_up)
            },
        }
    }
}

impl RelayPeer {
    fn rejoin(
        &mut self,
        store: &mut PeerSessionStore,
        authority: &RelayAuthority,
        key: &SessionKey,
        peer_id: PeerId,
        now_ms: u64,
    ) -> (joined: Result<SessionId, RelayError>)
        requires
            old(store).wf(),
            old(self).wf(old(store)@),
        ensures
            final(store).wf(),
            final(self).wf(final(store)@),
            crate::relay_peer::keeps_sessions(old(store)@, final(store)@),
            (joined, *final(self), final(store)@) == rejoined(
                *old(self),
                old(store)@,
                *authority,
                key@,
                peer_id,
                now_ms,
            ),
            joined matches Ok(id) ==> final(store)@.has(id),
    {
        proof {
            crate::session_store::lemma_sound_record(store@, key@);
        }
        let id: SessionId = match store.get(key, now_ms) {
            Some(id) => id,
            None => {
                return Err(RelayError::ReadyWithoutSession);
            },
        };
        let bound = match store.session(id) {
            Some(session) => authority.bind_relay_session_auth(peer_id, session),
            None => Err(RelayError::ReadyWithoutSession),
        };
        match bound {
            Ok(binding) => {
                self.auth = Some(binding);
                Ok(id)
            },
            Err(e) => {
                store.remove_if_same(key, id);
                Err(e)
            },
        }
    }

    fn commit_answer(
        &mut self,
        store: &mut PeerSessionStore,
        quotas: &mut SessionQuotas,
        authority: &RelayAuthority,
        key: &SessionKey,
        peer_id: PeerId,
        identity: RelayConfirmationIdentity,
        now_ms: u64,
    ) -> (result: Result<SessionId, RelayError>)
        requires
            old(store).wf(),
            old(self).wf(old(store)@),
            old(self).responder is Some,
        ensures
            final(store).wf(),
            final(self).wf(final(store)@),
            crate::relay_peer::keeps_sessions(old(store)@, final(store)@),
            result matches Ok(id) ==> final(store)@.has(id),
            answer_committed(
                *old(self),
                old(store)@,
                *old(quotas),
                *authority,
                key@,
                peer_id,
                identity,
                now_ms,
                result,
                *final(self),
                final(store)@,
                *final(quotas),
            ),
    {
        let mut pending = self.responder.take().unwrap();
        if !pending.recovery_active {
            let outcome = store.commit_prepared_responder_transition(
                quotas,
                key,
                &mut pending.prepared,
                now_ms,
            );
            if let Err(error) = outcome {
                pending.prepared.cancel(store);
                pending.prepared.restore_uncommitted_proof(store, quotas);
                self.reset_confirmation_state(identity);
                return Err(RelayError::Session { error });
            }
        }
        let id: SessionId = pending.prepared.session;
        let bound = match store.session(id) {
            Some(session) => authority.bind_relay_session_auth(peer_id, session),
            None => Err(RelayError::ReadyWithoutSession),
        };
        match bound {
            Ok(binding) => {
                self.auth = Some(binding);
                self.record_completed_responder_handshake(identity, now_ms);
                Ok(id)
            },
            Err(e) => {
                store.remove_if_same(key, id);
                self.reset_confirmation_state(identity);
                Err(e)
            },
        }
    }

    fn handle_ready(
        &mut self,
        store: &mut PeerSessionStore,
        quotas: &mut SessionQuotas,
        authority: &RelayAuthority,
        key: &SessionKey,
        peer_id: PeerId,
        identity: RelayConfirmationIdentity,
        now_ms: u64,
    ) -> (reply: Result<ConfirmationReply, RelayError>)
        requires
            old(store).wf(),
            old(self).wf(old(store)@),
        ensures
            final(store).wf(),
            final(self).wf(final(store)@),
            crate::relay_peer::keeps_sessions(old(store)@, final(store)@),
            ready_handled(
                *old(self),
                old(store)@,
                *old(quotas),
                *authority,
                key@,
                peer_id,
                identity,
                now_ms,
                reply,
                *final(self),
                final(store)@,
                *final(quotas),
            ),
    {
        let current = match &self.send {
            Some(state) => state.confirmation == Some(identity),
            None => {
                return Err(RelayError::ReadyWithoutState);
            },
        };
        let completed = self.responder_handshake_completed_identity(identity, now_ms);
        if !current && !completed {
            return Err(RelayError::ReadyMismatch);
        }
        let live = self.responder_matches(store, identity) && match &self.responder {
            Some(pending) => pending.deadline > now_ms,
            None => false,
        };
        let established = if current && live {
            self.commit_answer(store, quotas, authority, key, peer_id, identity, now_ms)
        } else if current && !completed {
            return Err(RelayError::ReadyWithoutPending);
        } else {
            self.rejoin(store, authority, key, peer_id, now_ms)
        };
        let session: SessionId = match established {
            Ok(id) => id,
            Err(e) => {
                return Err(e);
            },
        };
        let metadata = match store.session(session) {
            Some(held) => Some(held.metadata_session_id()),
            None => None,
        };
        if metadata != Some(identity.session_id) {
            return Err(RelayError::ReadySessionMismatch);
        }
        Ok(ConfirmationReply::SendReadyAck { session, identity, then_drain: current })
    }

    /// Lets queued packets go out once the answer to a ready initiator is on its
    /// way.
    pub fn finish_ready_ack(&mut self, identity: RelayConfirmationIdentity)
        requires
            old(self).send is Some ==> old(self).send->0.wf(),
        ensures
            final(self).send is Some ==> final(self).send->0.wf(),
            *final(self) == (RelayPeer {
                send: match old(self).send {
                    Some(state) => Some(
                        RelaySendState {
                            phase: RelaySendPhase::Draining,
                            ..state.without_confirmation(identity)
                        },
                    ),
                    None => None,
                },
                ..*old(self)
            }),
    {
        match self.send.take() {
            Some(mut state) => {
                let _ = state.clear_confirmation(identity);
                state.set_phase(RelaySendPhase::Draining);
                self.send = Some(state);
            },
            None => {},
        }
    }

    fn handle_confirm(
        &mut self,
        store: &mut PeerSessionStore,
        quotas: &mut SessionQuotas,
        key: &SessionKey,
        identity: RelayConfirmationIdentity,
        now_ms: u64,
    ) -> (reply: Result<ConfirmationReply, RelayError>)
        requires
            old(store).wf(),
            old(self).wf(old(store)@),
        ensures
            final(store).wf(),
            final(self).wf(final(store)@),
            crate::relay_peer::keeps_sessions(old(store)@, final(store)@),
            confirm_handled(
                *old(self),
                old(store)@,
                *old(quotas),
                key@,
                identity,
                now_ms,
                reply,
                *final(self),
                final(store)@,
                *final(quotas),
            ),
    {
        let late = match &self.responder {
            Some(pending) => pending.deadline <= now_ms,
            None => false,
        };
        if late {
            self.cancel_pending_responder_handshake(store, quotas, Some(identity.handshake_id));
        }
        proof {
            crate::session_store::lemma_sound_record(store@, key@);
        }
        let live = self.responder_matches(store, identity) && match &self.responder {
            Some(pending) => pending.deadline > now_ms,
            None => false,
        };
        let session: SessionId = if live {
            match &self.responder {
                Some(pending) => pending.prepared.session,
                None => {
                    return Err(RelayError::ConfirmationMismatch);
                },
            }
        } else if self.responder_handshake_completed_identity(identity, now_ms) {
            let id: SessionId = match store.get(key, now_ms) {
                Some(id) => id,
                None => {
                    return Err(RelayError::ConfirmationSessionMissing);
                },
            };
            let metadata = match store.session(id) {
                Some(held) => Some(held.metadata_session_id()),
                None => None,
            };
            if metadata != Some(identity.session_id) {
                return Err(RelayError::ConfirmationSessionMismatch);
            }
            id
        } else {
            return Err(RelayError::ConfirmationMismatch);
        };
        self.extend_pending_responder_deadline(store, identity, now_ms);
        // The responder keeps its barrier until the authenticated ready message.
        Ok(ConfirmationReply::SendConfirmAck { session, identity })
    }
}

/// Whether an acknowledgement is the one that a peer's confirmation waits for.
pub open spec fn ack_expected(
    peer: RelayPeer,
    packet_type: u8,
    identity: RelayConfirmationIdentity,
) -> bool {
    &&& peer.confirmation matches Some(pending)
    &&& pending.identity == identity
    &&& pending.expected_packet_type == packet_type
    &&& pending.outcome != RelayOutcome::Accepted
}

/// What an acknowledgement of a staged transition gives and changes.
pub open spec fn ack_handled(
    peer: RelayPeer,
    store: StoreModel,
    quotas: SessionQuotas,
    authority: RelayAuthority,
    key: SessionKeyModel,
    peer_id: PeerId,
    packet_type: u8,
    identity: RelayConfirmationIdentity,
    now_ms: u64,
    reply: Result<ConfirmationReply, RelayError>,
    peer_after: RelayPeer,
    store_after: StoreModel,
    quotas_after: SessionQuotas,
) -> bool {
    let pending = peer.confirmation->0;
    let same_store = store_after == store && quotas_after == quotas;
    if !ack_expected(peer, packet_type, identity) {
        &&& reply == Ok::<ConfirmationReply, RelayError>(ConfirmationReply::Ignore)
        &&& peer_after == peer
        &&& same_store
    } else if packet_type == PACKET_RELAY_HANDSHAKE_READY_ACK {
        match store.in_doubt_check(IdentityModel { key, fields: pending.transition }) {
            Err(error) => {
                &&& reply == Err::<ConfirmationReply, RelayError>(RelayError::Session { error })
                &&& peer_after == peer
                &&& same_store
            },
            Ok(_) => exists|result: Result<(SessionId, RelayReadyReceiptIdentity), RelayError>|
                {
                    &&& #[trigger] crate::relay_initiator::ready_committed(
                        peer,
                        store.with_in_doubt(key, None),
                        quotas,
                        authority,
                        key,
                        peer_id,
                        identity,
                        store.rec(key).in_doubt->0.body,
                        pending.transition.session_metadata_id,
                        crate::relay_initiator::under_key(key, pending.previous_receipt),
                        now_ms,
                        result,
                        peer_after,
                        store_after,
                        quotas_after,
                    )
                    &&& reply == (match result {
                        Ok((session, receipt)) => Ok::<ConfirmationReply, RelayError>(
                            ConfirmationReply::Committed { session, receipt },
                        ),
                        Err(e) => Err(e),
                    })
                },
        }
    } else if pending.outcome == RelayOutcome::Canceled {
        &&& reply == Ok::<ConfirmationReply, RelayError>(ConfirmationReply::Ignore)
        &&& peer_after == peer
        &&& same_store
    } else {
        &&& reply == Ok::<ConfirmationReply, RelayError>(ConfirmationReply::Accepted)
        &&& peer_after == (RelayPeer {
            confirmation: Some(
                PendingConfirmationAck { outcome: RelayOutcome::Accepted, ..pending },
            ),
            ..peer
        })
        &&& same_store
    }
}

pub open spec fn is_staged_ack(packet_type: u8) -> bool {
    packet_type == PACKET_RELAY_HANDSHAKE_CONFIRM_ACK || packet_type
        == PACKET_RELAY_HANDSHAKE_READY_ACK
}

/// What a confirmation packet gives and changes.
pub open spec fn confirmation_handled(
    packet: PacketModel,
    peer: RelayPeer,
    store: StoreModel,
    quotas: SessionQuotas,
    authority: RelayAuthority,
    key: SessionKeyModel,
    now_ms: u64,
    reply: Result<ConfirmationReply, RelayError>,
    peer_after: RelayPeer,
    store_after: StoreModel,
    quotas_after: SessionQuotas,
) -> bool {
    let same_store = store_after == store && quotas_after == quotas;
    let refusal = |e: RelayError| reply == Err::<ConfirmationReply, RelayError>(e);
    match packet.header {
        None => refusal(RelayError::NoHeader) && peer_after == peer && same_store,
        Some(header) => {
            let peer_id = header.from_peer_id;
            let packet_type = header.packet_type;
            let session_id = packet.verified_origin->0.session_id;
            if is_staged_ack(packet_type) && peer.confirmation is Some
                && peer.confirmation->0.expires_at <= now_ms {
                &&& refusal(RelayError::ConfirmationExpired)
                &&& peer_after == (RelayPeer { confirmation: None, ..peer })
                &&& same_store
            } else if packet.verified_origin is None || packet.verified_origin->0.peer_id
                != peer_id {
                &&& refusal(RelayError::ConfirmationUnauthenticated)
                &&& peer_after == peer
                &&& same_store
            } else if packet_type == PACKET_RELAY_HANDSHAKE_READY_RECEIPT || packet_type
                == PACKET_RELAY_HANDSHAKE_READY_RECEIPT_ACK {
                match crate::relay_wire::receipt_of_bytes(packet.payload) {
                    Err(e) => refusal(e) && peer_after == peer && same_store,
                    Ok(identity) => if packet_type == PACKET_RELAY_HANDSHAKE_READY_RECEIPT {
                        receipt_handled(
                            peer,
                            store,
                            quotas,
                            key,
                            identity,
                            now_ms,
                            reply,
                            peer_after,
                            store_after,
                            quotas_after,
                        )
                    } else {
                        receipt_ack_handled(
                            peer,
                            store,
                            quotas,
                            key,
                            identity,
                            session_id,
                            now_ms,
                            reply,
                            peer_after,
                            store_after,
                            quotas_after,
                        )
                    },
                }
            } else {
                match crate::relay_wire::confirmation_of_bytes(packet.payload) {
                    None => {
                        &&& refusal(RelayError::InvalidConfirmationPayload)
                        &&& peer_after == peer
                        &&& same_store
                    },
                    Some((handshake_id, transition_id)) => {
                        let identity = RelayConfirmationIdentity {
                            handshake_id,
                            session_id,
                            transition_id,
                        };
                        if is_staged_ack(packet_type) {
                            ack_handled(
                                peer,
                                store,
                                quotas,
                                authority,
                                key,
                                peer_id,
                                packet_type,
                                identity,
                                now_ms,
                                reply,
                                peer_after,
                                store_after,
                                quotas_after,
                            )
                        } else if packet_type == PACKET_RELAY_HANDSHAKE_READY {
                            ready_handled(
                                peer,
                                store,
                                quotas,
                                authority,
                                key,
                                peer_id,
                                identity,
                                now_ms,
                                reply,
                                peer_after,
                                store_after,
                                quotas_after,
                            )
                        } else if packet_type == PACKET_RELAY_HANDSHAKE_CONFIRM {
                            confirm_handled(
                                peer,
                                store,
                                quotas,
                                key,
                                identity,
                                now_ms,
                                reply,
                                peer_after,
                                store_after,
                                quotas_after,
                            )
                        } else {
                            &&& refusal(RelayError::InvalidConfirmationType)
                            &&& peer_after == peer
                            &&& same_store
                        }
                    },
                }
            }
        },
    }
}

impl RelayPeer {
    fn handle_ack(
        &mut self,
        store: &mut PeerSessionStore,
        quotas: &mut SessionQuotas,
        authority: &RelayAuthority,
        key: &SessionKey,
        peer_id: PeerId,
        packet_type: u8,
        identity: RelayConfirmationIdentity,
        now_ms: u64,
    ) -> (reply: Result<ConfirmationReply, RelayError>)
        requires
            old(store).wf(),
            old(self).wf(old(store)@),
        ensures
            final(store).wf(),
            final(self).wf(final(store)@),
            crate::relay_peer::keeps_sessions(old(store)@, final(store)@),
            ack_handled(
                *old(self),
                old(store)@,
                *old(quotas),
                *authority,
                key@,
                peer_id,
                packet_type,
                identity,
                now_ms,
                reply,
                *final(self),
                final(store)@,
                *final(quotas),
            ),
    {
        let pending = match self.confirmation {
            Some(pending) => pending,
            None => {
                return Ok(ConfirmationReply::Ignore);
            },
        };
        if pending.identity != identity || pending.expected_packet_type != packet_type
            || pending.outcome == RelayOutcome::Accepted {
            return Ok(ConfirmationReply::Ignore);
        }
        if packet_type == PACKET_RELAY_HANDSHAKE_READY_ACK {
            let transition = InitiatorTransitionIdentity::from_fields(
                key.duplicate(),
                pending.transition,
            );
            let reservation = match store.resume_initiator_reservation(&transition) {
                Ok(reservation) => reservation,
                Err(error) => {
                    return Err(RelayError::Session { error });
                },
            };
            return match self.commit_initiator_after_ready(
                store,
                quotas,
                authority,
                peer_id,
                identity,
                reservation,
                pending.transition.session_metadata_id,
                pending.previous_receipt,
                now_ms,
            ) {
                Ok((session, receipt)) => Ok(ConfirmationReply::Committed { session, receipt }),
                Err(e) => Err(e),
            };
        }
        if pending.outcome == RelayOutcome::Canceled {
            return Ok(ConfirmationReply::Ignore);
        }
        let mut accepted = pending;
        accepted.outcome = RelayOutcome::Accepted;
        self.confirmation = Some(accepted);
        Ok(ConfirmationReply::Accepted)
    }

    /// Handles a confirmation packet that a session has opened and verified.
    pub fn handle_handshake_confirmation(
        &mut self,
        store: &mut PeerSessionStore,
        quotas: &mut SessionQuotas,
        authority: &RelayAuthority,
        key: &SessionKey,
        packet: &Packet,
        now_ms: u64,
    ) -> (reply: Result<ConfirmationReply, RelayError>)
        requires
            old(store).wf(),
            old(self).wf(old(store)@),
        ensures
            final(store).wf(),
            final(self).wf(final(store)@),
            crate::relay_peer::keeps_sessions(old(store)@, final(store)@),
            confirmation_handled(
                packet@,
                *old(self),
                old(store)@,
                *old(quotas),
                *authority,
                key@,
                now_ms,
                reply,
                *final(self),
                final(store)@,
                *final(quotas),
            ),
    {
        let header = match packet.header {
            Some(header) => header,
            None => {
                return Err(RelayError::NoHeader);
            },
        };
        let peer_id: PeerId = header.from_peer_id;
        let packet_type: u8 = header.packet_type;
        let staged_ack = packet_type == PACKET_RELAY_HANDSHAKE_CONFIRM_ACK || packet_type
            == PACKET_RELAY_HANDSHAKE_READY_ACK;
        if staged_ack {
            if let Some(pending) = self.confirmation {
                if pending.expires_at <= now_ms {
                    let _ = self.cancel_pending_confirmation();
                    return Err(RelayError::ConfirmationExpired);
                }
            }
        }
        let origin = match packet.verified_origin {
            Some(origin) => origin,
            None => {
                return Err(RelayError::ConfirmationUnauthenticated);
            },
        };
        if origin.peer_id != peer_id {
            return Err(RelayError::ConfirmationUnauthenticated);
        }
        if packet_type == PACKET_RELAY_HANDSHAKE_READY_RECEIPT || packet_type
            == PACKET_RELAY_HANDSHAKE_READY_RECEIPT_ACK {
            let identity = match decode_relay_ready_receipt(packet.payload.as_slice()) {
                Ok(identity) => identity,
                Err(e) => {
                    return Err(e);
                },
            };
            if packet_type == PACKET_RELAY_HANDSHAKE_READY_RECEIPT {
                return self.handle_ready_receipt(store, quotas, key, identity, now_ms);
            }
            return self.handle_ready_receipt_ack(
                store,
                quotas,
                key,
                identity,
                origin.session_id,
                now_ms,
            );
        }
        let (handshake_id, transition_id) = match decode_confirmation(packet.payload.as_slice()) {
            Some(ids) => ids,
            None => {
                return Err(RelayError::InvalidConfirmationPayload);
            },
        };
        let identity = RelayConfirmationIdentity {
            handshake_id,
            session_id: origin.session_id,
            transition_id,
        };
        if staged_ack {
            return self.handle_ack(
                store,
                quotas,
                authority,
                key,
                peer_id,
                packet_type,
                identity,
                now_ms,
            );
        }
        if packet_type == PACKET_RELAY_HANDSHAKE_READY {
            return self.handle_ready(store, quotas, authority, key, peer_id, identity, now_ms);
        }
        if packet_type != PACKET_RELAY_HANDSHAKE_CONFIRM {
            return Err(RelayError::InvalidConfirmationType);
        }
        self.handle_confirm(store, quotas, key, identity, now_ms)
    }
}

/// A confirmation packet that no session has verified as its sender's is refused
/// and changes nothing in the session store; at most it ends a confirmation
/// whose time is over.
pub proof fn lemma_unverified_confirmation_is_refused(
    packet: PacketModel,
    peer: RelayPeer,
    store: StoreModel,
    quotas: SessionQuotas,
    authority: RelayAuthority,
    key: SessionKeyModel,
    now_ms: u64,
    reply: Result<ConfirmationReply, RelayError>,
    peer_after: RelayPeer,
    store_after: StoreModel,
    quotas_after: SessionQuotas,
)
    requires
        packet.verified_origin is None || packet.header is None
            || packet.verified_origin->0.peer_id != packet.header->0.from_peer_id,
        confirmation_handled(
            packet,
            peer,
            store,
            quotas,
            authority,
            key,
            now_ms,
            reply,
            peer_after,
            store_after,
            quotas_after,
        ),
    ensures
        reply is Err,
        store_after == store,
        quotas_after == quotas,
        peer_after == peer || peer_after == (RelayPeer { confirmation: None, ..peer }),
{
}

} // verus!
