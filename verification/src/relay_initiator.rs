//! The initiator of a relay session: confirmation of a staged transition, and
//! the receipt of its commit.

use vstd::prelude::*;
use crate::initiator_store::{InitiatorSessionReservation, ReservationState};
use crate::packet::{
    PeerId, PACKET_RELAY_HANDSHAKE_CONFIRM, PACKET_RELAY_HANDSHAKE_CONFIRM_ACK,
    PACKET_RELAY_HANDSHAKE_READY, PACKET_RELAY_HANDSHAKE_READY_ACK,
};
use crate::relay_auth::RelayAuthority;
use crate::relay_peer::{
    PendingConfirmationAck, PendingReadyReceipt, RelayOutcome, RelayPeer,
    HANDSHAKE_CONFIRM_MAX_ATTEMPTS, HANDSHAKE_CONFIRM_RETRY_MAX_MS, HANDSHAKE_CONFIRM_RETRY_MS,
};
use crate::relay_queue::{RelaySendPhase, RelaySendState};
use crate::relay_wire::{RelayConfirmationIdentity, RelayError, RelayReadyReceiptIdentity};
use crate::session_store::{
    PeerSessionStore, ReservationBody, SessionId, SessionQuotas, StoreModel,
    INITIATOR_RECOVERY_LIFETIME_MS,
};
use crate::session_types::{
    IdentityModel, InitiatorTransitionIdentity, SessionKeyModel, TransitionFields,
};

verus! {

/// How long to wait for an answer after so many sends: twice as long each time,
/// up to a bound.
pub open spec fn retry_delay(sends: int) -> u64
    decreases sends,
{
    if sends <= 0 {
        HANDSHAKE_CONFIRM_RETRY_MS
    } else if 2 * retry_delay(sends - 1) > HANDSHAKE_CONFIRM_RETRY_MAX_MS {
        HANDSHAKE_CONFIRM_RETRY_MAX_MS
    } else {
        (2 * retry_delay(sends - 1)) as u64
    }
}

fn retry_delay_ms(sends: u32) -> (ms: u64)
    requires
        sends <= HANDSHAKE_CONFIRM_MAX_ATTEMPTS,
    ensures
        ms == retry_delay(sends as int),
{
    let mut ms: u64 = HANDSHAKE_CONFIRM_RETRY_MS;
    let mut i: u32 = 0;
    while i < sends
        invariant
            i <= sends,
            ms == retry_delay(i as int),
            ms <= HANDSHAKE_CONFIRM_RETRY_MAX_MS,
        decreases sends - i,
    {
        ms = if 2 * ms > HANDSHAKE_CONFIRM_RETRY_MAX_MS {
            HANDSHAKE_CONFIRM_RETRY_MAX_MS
        } else {
            2 * ms
        };
        i = i + 1;
    }
    ms
}

/// What is being confirmed.
#[derive(Clone, Copy, Debug, PartialEq, Eq, Structural)]
pub enum ConfirmationStage {
    Confirming,
    Readying,
    Ended,
}

/// Takes a staged transition through its confirmation.
pub struct ConfirmationDriver {
    pub stage: ConfirmationStage,
    pub sends: u32,
    pub pending: PendingConfirmationAck,
    pub reservation: Option<InitiatorSessionReservation>,
}

/// What to do next.
#[derive(Clone, Copy, Debug, PartialEq, Eq, Structural)]
pub enum ConfirmationStep {
    /// Send a confirmation packet and wait for the answer.
    Send { packet_type: u8, wait_ms: u64 },
    Confirmed,
    Failed { error: RelayError },
}

impl ConfirmationDriver {
    /// The driver holds its reservation until the transition is in doubt.
    pub open spec fn wf(self, store: StoreModel) -> bool {
        &&& self.sends <= HANDSHAKE_CONFIRM_MAX_ATTEMPTS
        &&& self.stage == ConfirmationStage::Confirming ==> {
            &&& self.reservation is Some
            &&& self.reservation->0.state == ReservationState::Pending
            &&& self.reservation->0.held_in(store)
        }
    }

    /// The acknowledgement that is waited for once the transition is in doubt.
    pub open spec fn ready_pending(self) -> PendingConfirmationAck {
        PendingConfirmationAck {
            expected_packet_type: PACKET_RELAY_HANDSHAKE_READY_ACK,
            outcome: RelayOutcome::Waiting,
            ..self.pending
        }
    }
}

/// The peer after a confirmation was given up.
pub open spec fn confirmation_given_up(peer: RelayPeer, identity: RelayConfirmationIdentity) -> RelayPeer {
    RelayPeer {
        confirmation: RelayPeer::confirmation_without(peer.confirmation, identity),
        send: RelayPeer::confirmation_reset(peer.send, identity),
        ..peer
    }
}

/// The acknowledgement that a started confirmation waits for.
pub open spec fn confirmation_pending(
    reservation: InitiatorSessionReservation,
    session_id: u128,
    handshake_id: u128,
    responder_metadata_id: u128,
    previous_receipt: Option<TransitionFields>,
    now_ms: u64,
) -> PendingConfirmationAck {
    PendingConfirmationAck {
        identity: RelayConfirmationIdentity {
            handshake_id,
            session_id,
            transition_id: reservation.body.transition_id,
        },
        expected_packet_type: PACKET_RELAY_HANDSHAKE_CONFIRM_ACK,
        transition: reservation.body.fields(responder_metadata_id),
        previous_receipt,
        expires_at: crate::relay_peer::later(now_ms, INITIATOR_RECOVERY_LIFETIME_MS),
        session: reservation.body.session,
        outcome: RelayOutcome::Waiting,
    }
}

impl RelayPeer {
    /// Starts the confirmation of a staged transition: data waits for it.
    pub fn begin_confirmation(
        &mut self,
        store: &PeerSessionStore,
        reservation: InitiatorSessionReservation,
        handshake_id: u128,
        responder_metadata_id: u128,
        previous_receipt: Option<TransitionFields>,
        now_ms: u64,
    ) -> (driver: ConfirmationDriver)
        requires
            store.wf(),
            old(self).wf(store@),
            reservation.held_in(store@),
            reservation.state == ReservationState::Pending,
        ensures
            final(self).wf(store@),
            driver.wf(store@),
            driver.stage == ConfirmationStage::Confirming,
            driver.sends == 0,
            driver.reservation == Some(reservation),
            driver.pending == confirmation_pending(
                reservation,
                store@.sess(reservation.body.session).metadata_session_id,
                handshake_id,
                responder_metadata_id,
                previous_receipt,
                now_ms,
            ),
            final(self).send_confirming(old(self).send, driver.pending.identity),
            *final(self) == (RelayPeer {
                send: final(self).send,
                confirmation: Some(driver.pending),
                ..*old(self)
            }),
    {
        let session_id: u128 = match store.session(reservation.body.session) {
            Some(session) => session.metadata_session_id(),
            None => 0,
        };
        let identity = RelayConfirmationIdentity {
            handshake_id,
            session_id,
            transition_id: reservation.body.transition_id,
        };
        let pending = PendingConfirmationAck {
            identity,
            expected_packet_type: PACKET_RELAY_HANDSHAKE_CONFIRM_ACK,
            transition: reservation.body.identity_fields(responder_metadata_id),
            previous_receipt,
            expires_at: now_ms.saturating_add(INITIATOR_RECOVERY_LIFETIME_MS),
            session: reservation.body.session,
            outcome: RelayOutcome::Waiting,
        };
        self.set_confirmation_identity(identity);
        self.confirmation = Some(pending);
        ConfirmationDriver {
            stage: ConfirmationStage::Confirming,
            sends: 0,
            pending,
            reservation: Some(reservation),
        }
    }

    /// What has become of a confirmation. It is forgotten once its transition is
    /// committed; one that is gone otherwise was canceled.
    pub fn confirmation_outcome(&self, identity: RelayConfirmationIdentity, committed: bool) -> (outcome:
        RelayOutcome)
        ensures
            outcome == (match self.confirmation {
                Some(pending) if pending.identity == identity => pending.outcome,
                _ => if committed {
                    RelayOutcome::Accepted
                } else {
                    RelayOutcome::Canceled
                },
            }),
    {
        if let Some(pending) = self.confirmation {
            if pending.identity == identity {
                return pending.outcome;
            }
        }
        if committed {
            RelayOutcome::Accepted
        } else {
            RelayOutcome::Canceled
        }
    }

    fn give_up_confirmation(&mut self, identity: RelayConfirmationIdentity)
        requires
            old(self).send is Some ==> old(self).send->0.wf(),
        ensures
            final(self).send is Some ==> final(self).send->0.wf(),
            *final(self) == confirmation_given_up(*old(self), identity),
    {
        self.remove_confirmation_if_matching(identity);
        self.reset_confirmation_state(identity);
    }
}

/// What the first stage of a confirmation gives and changes.
pub open spec fn confirming_step(
    driver: ConfirmationDriver,
    peer: RelayPeer,
    store: StoreModel,
    quotas: SessionQuotas,
    observed: RelayOutcome,
    step: ConfirmationStep,
    driver_after: ConfirmationDriver,
    peer_after: RelayPeer,
    store_after: StoreModel,
    quotas_after: SessionQuotas,
) -> bool {
    let reservation = driver.reservation->0;
    let identity = driver.pending.identity;
    let canceled = store.reservation_canceled(reservation.key@, reservation.body);
    let released = crate::initiator_store::permit_released(quotas, reservation.permit);
    let kept_as = IdentityModel {
        key: reservation.key@,
        fields: reservation.body.fields(driver.pending.transition.session_metadata_id),
    };
    match observed {
        RelayOutcome::Accepted => {
            let kept = store.suspend_check(reservation, INITIATOR_RECOVERY_LIFETIME_MS, kept_as);
            &&& crate::initiator_records::suspended(
                reservation,
                store,
                quotas,
                INITIATOR_RECOVERY_LIFETIME_MS,
                kept_as,
                kept,
                store_after,
                quotas_after,
            )
            &&& match kept {
                Ok(_) => {
                    &&& step == (ConfirmationStep::Send {
                        packet_type: PACKET_RELAY_HANDSHAKE_READY,
                        wait_ms: retry_delay(0),
                    })
                    &&& driver_after == (ConfirmationDriver {
                        stage: ConfirmationStage::Readying,
                        sends: 1,
                        pending: driver.ready_pending(),
                        reservation: None,
                    })
                    &&& peer_after == (RelayPeer {
                        confirmation: Some(driver.ready_pending()),
                        ..peer
                    })
                },
                Err(error) => {
                    &&& step == (ConfirmationStep::Failed { error: RelayError::Session { error } })
                    &&& peer_after == confirmation_given_up(peer, identity)
                    &&& driver_after.stage == ConfirmationStage::Ended
                },
            }
        },
        RelayOutcome::Waiting if driver.sends < HANDSHAKE_CONFIRM_MAX_ATTEMPTS => {
            &&& step == (ConfirmationStep::Send {
                packet_type: PACKET_RELAY_HANDSHAKE_CONFIRM,
                wait_ms: retry_delay(driver.sends as int),
            })
            &&& driver_after == (ConfirmationDriver { sends: (driver.sends + 1) as u32, ..driver })
            &&& peer_after == peer
            &&& store_after == store
            &&& quotas_after == quotas
        },
        _ => {
            &&& step == (ConfirmationStep::Failed {
                error: if observed == RelayOutcome::Canceled {
                    RelayError::ConfirmationCanceled
                } else {
                    RelayError::ConfirmationTimedOut
                },
            })
            &&& driver_after.stage == ConfirmationStage::Ended
            &&& peer_after == confirmation_given_up(peer, identity)
            &&& store_after == canceled
            &&& quotas_after == released
        },
    }
}

/// What the second stage of a confirmation gives and changes. A transition that
/// is in doubt stays in the session store.
pub open spec fn readying_step(
    driver: ConfirmationDriver,
    peer: RelayPeer,
    observed: RelayOutcome,
    step: ConfirmationStep,
    driver_after: ConfirmationDriver,
    peer_after: RelayPeer,
) -> bool {
    match observed {
        RelayOutcome::Accepted => {
            &&& step == ConfirmationStep::Confirmed
            &&& driver_after.stage == ConfirmationStage::Ended
            &&& peer_after == peer
        },
        RelayOutcome::Canceled => {
            &&& step == (ConfirmationStep::Failed { error: RelayError::ReadyCanceled })
            &&& driver_after.stage == ConfirmationStage::Ended
            &&& peer_after == confirmation_given_up(peer, driver.pending.identity)
        },
        RelayOutcome::Waiting => if driver.sends < HANDSHAKE_CONFIRM_MAX_ATTEMPTS {
            &&& step == (ConfirmationStep::Send {
                packet_type: PACKET_RELAY_HANDSHAKE_READY,
                wait_ms: retry_delay(driver.sends as int),
            })
            &&& driver_after == (ConfirmationDriver { sends: (driver.sends + 1) as u32, ..driver })
            &&& peer_after == peer
        } else {
            &&& step == (ConfirmationStep::Failed { error: RelayError::ReadyTimedOut })
            &&& driver_after.stage == ConfirmationStage::Ended
            &&& peer_after == peer
        },
    }
}

impl ConfirmationDriver {
    fn confirm(
        &mut self,
        peer: &mut RelayPeer,
        store: &mut PeerSessionStore,
        quotas: &mut SessionQuotas,
        observed: RelayOutcome,
    ) -> (step: ConfirmationStep)
        requires
            old(store).wf(),
            old(peer).wf(old(store)@),
            old(self).wf(old(store)@),
            old(self).stage == ConfirmationStage::Confirming,
        ensures
            final(store).wf(),
            final(peer).wf(final(store)@),
            final(self).wf(final(store)@),
            crate::relay_peer::keeps_sessions(old(store)@, final(store)@),
            confirming_step(
                *old(self),
                *old(peer),
                old(store)@,
                *old(quotas),
                observed,
                step,
                *final(self),
                *final(peer),
                final(store)@,
                *final(quotas),
            ),
    {
        if observed == RelayOutcome::Waiting && self.sends < HANDSHAKE_CONFIRM_MAX_ATTEMPTS {
            let wait_ms: u64 = retry_delay_ms(self.sends);
            self.sends = self.sends + 1;
            return ConfirmationStep::Send { packet_type: PACKET_RELAY_HANDSHAKE_CONFIRM, wait_ms };
        }
        let mut reservation = self.reservation.take().unwrap();
        let identity = self.pending.identity;
        if observed == RelayOutcome::Accepted {
            let result = reservation.suspend_with_session_metadata(
                store,
                quotas,
                self.pending.transition.session_metadata_id,
                INITIATOR_RECOVERY_LIFETIME_MS,
            );
            match result {
                Ok(()) => {
                    let mut ready = self.pending;
                    ready.expected_packet_type = PACKET_RELAY_HANDSHAKE_READY_ACK;
                    ready.outcome = RelayOutcome::Waiting;
                    self.pending = ready;
                    self.stage = ConfirmationStage::Readying;
                    self.sends = 1;
                    peer.confirmation = Some(ready);
                    return ConfirmationStep::Send {
                        packet_type: PACKET_RELAY_HANDSHAKE_READY,
                        wait_ms: retry_delay_ms(0),
                    };
                },
                Err(error) => {
                    self.stage = ConfirmationStage::Ended;
                    peer.give_up_confirmation(identity);
                    return ConfirmationStep::Failed { error: RelayError::Session { error } };
                },
            }
        }
        self.stage = ConfirmationStage::Ended;
        peer.give_up_confirmation(identity);
        reservation.cancel(store, quotas);
        if observed == RelayOutcome::Canceled {
            ConfirmationStep::Failed { error: RelayError::ConfirmationCanceled }
        } else {
            ConfirmationStep::Failed { error: RelayError::ConfirmationTimedOut }
        }
    }

    fn ready(&mut self, peer: &mut RelayPeer, observed: RelayOutcome) -> (step: ConfirmationStep)
        requires
            old(peer).send is Some ==> old(peer).send->0.wf(),
            old(self).sends <= HANDSHAKE_CONFIRM_MAX_ATTEMPTS,
            old(self).stage == ConfirmationStage::Readying,
        ensures
            final(self).sends <= HANDSHAKE_CONFIRM_MAX_ATTEMPTS,
            final(self).stage != ConfirmationStage::Confirming,
            final(peer).send is Some ==> final(peer).send->0.wf(),
            readying_step(*old(self), *old(peer), observed, step, *final(self), *final(peer)),
    {
        match observed {
            RelayOutcome::Accepted => {
                self.stage = ConfirmationStage::Ended;
                ConfirmationStep::Confirmed
            },
            RelayOutcome::Canceled => {
                self.stage = ConfirmationStage::Ended;
                peer.give_up_confirmation(self.pending.identity);
                ConfirmationStep::Failed { error: RelayError::ReadyCanceled }
            },
            RelayOutcome::Waiting => {
                if self.sends < HANDSHAKE_CONFIRM_MAX_ATTEMPTS {
                    let wait_ms: u64 = retry_delay_ms(self.sends);
                    self.sends = self.sends + 1;
                    ConfirmationStep::Send { packet_type: PACKET_RELAY_HANDSHAKE_READY, wait_ms }
                } else {
                    self.stage = ConfirmationStage::Ended;
                    ConfirmationStep::Failed { error: RelayError::ReadyTimedOut }
                }
            },
        }
    }

    /// Goes on with a confirmation after `observed` was seen of it.
    pub fn step(
        &mut self,
        peer: &mut RelayPeer,
        store: &mut PeerSessionStore,
        quotas: &mut SessionQuotas,
        observed: RelayOutcome,
    ) -> (step: ConfirmationStep)
        requires
            old(store).wf(),
            old(peer).wf(old(store)@),
            old(self).wf(old(store)@),
            old(self).stage != ConfirmationStage::Ended,
        ensures
            final(store).wf(),
            final(peer).wf(final(store)@),
            final(self).wf(final(store)@),
            crate::relay_peer::keeps_sessions(old(store)@, final(store)@),
            old(self).stage == ConfirmationStage::Confirming ==> confirming_step(
                *old(self),
                *old(peer),
                old(store)@,
                *old(quotas),
                observed,
                step,
                *final(self),
                *final(peer),
                final(store)@,
                *final(quotas),
            ),
            old(self).stage == ConfirmationStage::Readying ==> {
                &&& readying_step(*old(self), *old(peer), observed, step, *final(self), *final(peer))
                &&& final(store)@ == old(store)@
                &&& *final(quotas) == *old(quotas)
            },
    {
        match self.stage {
            ConfirmationStage::Confirming => self.confirm(peer, store, quotas, observed),
            _ => self.ready(peer, observed),
        }
    }
}

/// The identity of a transition of a key.
pub open spec fn under_key(key: SessionKeyModel, fields: Option<TransitionFields>) -> Option<
    IdentityModel,
> {
    match fields {
        Some(fields) => Some(IdentityModel { key, fields }),
        None => None,
    }
}

/// The store without the published session of a key, if it is the given one.
pub open spec fn withdrawn_if_same(store: StoreModel, key: SessionKeyModel, id: SessionId) -> StoreModel {
    if store.rec(key).active is Some && (store.rec(key).active->0).session == id {
        store.with_active(key, None)
    } else {
        store
    }
}

/// The receipt of a commit, as it is sent.
pub open spec fn receipt_of(
    identity: RelayConfirmationIdentity,
    body: ReservationBody,
    metadata_id: u128,
) -> RelayReadyReceiptIdentity {
    RelayReadyReceiptIdentity {
        handshake_id: identity.handshake_id,
        session_metadata_id: metadata_id,
        transition_id: identity.transition_id,
        action: body.action,
        session_generation: body.session_generation,
        initial_epoch: body.initial_epoch,
    }
}

/// What committing a transition that the peer is ready for gives and changes.
pub open spec fn ready_committed(
    peer: RelayPeer,
    store: StoreModel,
    quotas: SessionQuotas,
    authority: RelayAuthority,
    key: SessionKeyModel,
    peer_id: PeerId,
    identity: RelayConfirmationIdentity,
    body: ReservationBody,
    metadata_id: u128,
    previous: Option<IdentityModel>,
    now_ms: u64,
    result: Result<(SessionId, RelayReadyReceiptIdentity), RelayError>,
    peer_after: RelayPeer,
    store_after: StoreModel,
    quotas_after: SessionQuotas,
) -> bool {
    let receipt = IdentityModel { key, fields: body.fields(metadata_id) };
    let released = quotas.without_in_doubt();
    &&& peer_after.send is Some
    &&& peer.send matches Some(state) ==> peer_after.send == Some(
        RelaySendState { phase: peer_after.send->0.phase, ..state.without_confirmation(identity) },
    )
    &&& peer.send is None ==> crate::relay_peer::fresh_send_state(
        peer_after.send->0,
        peer_after.send->0.phase,
    )
    &&& match store.receipt_commit_check(quotas, key, body, receipt, previous) {
        Err(error) => {
            &&& result == Err::<(SessionId, RelayReadyReceiptIdentity), RelayError>(
                RelayError::Session { error },
            )
            &&& store_after == store.reservation_canceled(key, body)
            &&& quotas_after == released
            &&& peer_after.send->0.phase == RelaySendPhase::AwaitingSession
            &&& peer_after == (RelayPeer { send: peer_after.send, ..peer })
        },
        Ok(own_slot) => {
            let committed = store.committed_with_receipt(key, body, receipt.fields, now_ms);
            &&& quotas_after == (if own_slot {
                released.with_receipt()
            } else {
                released
            })
            &&& match authority.binding(peer_id, committed.sess(body.session)) {
                Err(error) => {
                    &&& result == Err::<(SessionId, RelayReadyReceiptIdentity), RelayError>(error)
                    &&& store_after == withdrawn_if_same(committed, key, body.session)
                    &&& peer_after.send->0.phase == RelaySendPhase::AwaitingSession
                    &&& peer_after == (RelayPeer { send: peer_after.send, ..peer })
                },
                Ok(binding) => {
                    &&& result == Ok::<(SessionId, RelayReadyReceiptIdentity), RelayError>(
                        (body.session, receipt_of(identity, body, metadata_id)),
                    )
                    &&& store_after == committed
                    &&& peer_after.send->0.phase == RelaySendPhase::Draining
                    &&& peer_after == (RelayPeer {
                        send: peer_after.send,
                        auth: Some(binding),
                        confirmation: RelayPeer::confirmation_without(peer.confirmation, identity),
                        ..peer
                    })
                },
            }
        },
    }
}

impl RelayPeer {
    /// Commits a transition once the peer is ready for it. Queued packets may go
    /// out afterwards, and the receipt has to be sent.
    pub fn commit_initiator_after_ready(
        &mut self,
        store: &mut PeerSessionStore,
        quotas: &mut SessionQuotas,
        authority: &RelayAuthority,
        peer_id: PeerId,
        identity: RelayConfirmationIdentity,
        reservation: InitiatorSessionReservation,
        receipt_session_metadata_id: u128,
        previous_receipt: Option<TransitionFields>,
        now_ms: u64,
    ) -> (result: Result<(SessionId, RelayReadyReceiptIdentity), RelayError>)
        requires
            old(store).wf(),
            old(self).wf(old(store)@),
            reservation.held_in(old(store)@),
            reservation.state == ReservationState::Pending,
            reservation.permit,
        ensures
            final(store).wf(),
            final(self).wf(final(store)@),
            crate::relay_peer::keeps_sessions(old(store)@, final(store)@),
            ready_committed(
                *old(self),
                old(store)@,
                *old(quotas),
                *authority,
                reservation.key@,
                peer_id,
                identity,
                reservation.body,
                receipt_session_metadata_id,
                under_key(reservation.key@, previous_receipt),
                now_ms,
                result,
                *final(self),
                final(store)@,
                *final(quotas),
            ),
    {
        let mut reservation = reservation;
        let receipt = RelayReadyReceiptIdentity {
            handshake_id: identity.handshake_id,
            session_metadata_id: receipt_session_metadata_id,
            transition_id: identity.transition_id,
            action: reservation.body.action,
            session_generation: reservation.body.session_generation,
            initial_epoch: reservation.body.initial_epoch,
        };
        let mut state = match self.send.take() {
            Some(state) => state,
            None => RelaySendState::new(RelaySendPhase::Confirming),
        };
        let _ = state.clear_confirmation(identity);
        let stored = reservation.transition_identity_with_session_metadata(
            receipt_session_metadata_id,
        );
        let previous = match previous_receipt {
            Some(fields) => Some(
                InitiatorTransitionIdentity::from_fields(reservation.key.duplicate(), fields),
            ),
            None => None,
        };
        let committed = reservation.commit_with_receipt_replacing(
            store,
            quotas,
            stored,
            previous,
            now_ms,
        );
        match committed {
            Err(error) => {
                state.set_phase(RelaySendPhase::AwaitingSession);
                self.send = Some(state);
                Err(RelayError::Session { error })
            },
            Ok(id) => {
                let bound = match store.session(id) {
                    Some(session) => authority.bind_relay_session_auth(peer_id, session),
                    None => Err(RelayError::SessionWithoutPeerKey),
                };
                match bound {
                    Err(error) => {
                        store.remove_if_same(&reservation.key, id);
                        state.set_phase(RelaySendPhase::AwaitingSession);
                        self.send = Some(state);
                        Err(error)
                    },
                    Ok(binding) => {
                        state.set_phase(RelaySendPhase::Draining);
                        self.send = Some(state);
                        self.auth = Some(binding);
                        self.remove_confirmation_if_matching(identity);
                        Ok((id, receipt))
                    },
                }
            },
        }
    }

    /// Keeps a receipt to be sent. True if someone has to start sending it; a
    /// receipt that is already being sent is woken instead.
    pub fn start_ready_receipt(
        &mut self,
        identity: RelayReadyReceiptIdentity,
        session: SessionId,
        now_ms: u64,
    ) -> (start_owner: bool)
        ensures
            start_owner == !(old(self).receipt is Some && old(self).receipt->0.identity == identity),
            *final(self) == (if start_owner {
                RelayPeer {
                    receipt: Some(
                        PendingReadyReceipt {
                            identity,
                            session,
                            expires_at: crate::relay_peer::later(
                                now_ms,
                                INITIATOR_RECOVERY_LIFETIME_MS,
                            ),
                            acknowledged: false,
                            owner_running: true,
                        },
                    ),
                    ..*old(self)
                }
            } else {
                *old(self)
            }),
    {
        if let Some(existing) = self.receipt {
            if existing.identity == identity {
                return false;
            }
        }
        self.receipt = Some(
            PendingReadyReceipt {
                identity,
                session,
                expires_at: now_ms.saturating_add(INITIATOR_RECOVERY_LIFETIME_MS),
                acknowledged: false,
                owner_running: true,
            },
        );
        true
    }

    /// Claims the sending of a receipt that nobody sends. True if there is one.
    pub fn ensure_ready_receipt_owner(&mut self) -> (start_owner: bool)
        ensures
            start_owner == (old(self).receipt is Some && !old(self).receipt->0.owner_running),
            *final(self) == (if start_owner {
                RelayPeer {
                    receipt: Some(
                        PendingReadyReceipt { owner_running: true, ..old(self).receipt->0 },
                    ),
                    ..*old(self)
                }
            } else {
                *old(self)
            }),
    {
        match self.receipt {
            Some(pending) => {
                if pending.owner_running {
                    return false;
                }
                let mut claimed = pending;
                claimed.owner_running = true;
                self.receipt = Some(claimed);
                true
            },
            None => false,
        }
    }

    /// Sends a waiting receipt under another session from now on. True if its
    /// sender has to be woken.
    pub fn retry_pending_ready_receipt(&mut self, session: SessionId) -> (wake: bool)
        ensures
            wake == (old(self).receipt is Some),
            *final(self) == (RelayPeer {
                receipt: match old(self).receipt {
                    Some(pending) => Some(PendingReadyReceipt { session, ..pending }),
                    None => None,
                },
                ..*old(self)
            }),
    {
        match self.receipt {
            Some(pending) => {
                let mut moved = pending;
                moved.session = session;
                self.receipt = Some(moved);
                true
            },
            None => false,
        }
    }
}

/// Sends a receipt until it is acknowledged.
#[derive(Clone, Copy, Debug, PartialEq, Eq, Structural)]
pub struct ReadyReceiptDriver {
    pub identity: RelayReadyReceiptIdentity,
    pub sends: u32,
}

#[derive(Clone, Copy, Debug, PartialEq, Eq, Structural)]
pub enum ReadyReceiptStep {
    Stop,
    Send { session: SessionId, wait_ms: u64 },
    /// Wait until someone wakes the sender: a new schedule starts then.
    WaitForWake,
}

impl ReadyReceiptDriver {
    /// Goes on with a receipt: an acknowledged one is removed, and one that is
    /// not the given one any more is left alone.
    pub fn step(&mut self, peer: &mut RelayPeer) -> (step: ReadyReceiptStep)
        requires
            old(self).sends <= HANDSHAKE_CONFIRM_MAX_ATTEMPTS,
        ensures
            final(self).sends <= HANDSHAKE_CONFIRM_MAX_ATTEMPTS,
            final(self).identity == old(self).identity,
            ({
                let mine = old(peer).receipt is Some && old(peer).receipt->0.identity
                    == old(self).identity;
                let acknowledged = mine && old(peer).receipt->0.acknowledged;
                &&& *final(peer) == (if acknowledged {
                    RelayPeer { receipt: None, ..*old(peer) }
                } else {
                    *old(peer)
                })
                &&& if !mine || acknowledged {
                    step == ReadyReceiptStep::Stop && *final(self) == *old(self)
                } else if old(self).sends < HANDSHAKE_CONFIRM_MAX_ATTEMPTS {
                    &&& step == (ReadyReceiptStep::Send {
                        session: old(peer).receipt->0.session,
                        wait_ms: retry_delay(old(self).sends as int),
                    })
                    &&& final(self).sends == old(self).sends + 1
                } else {
                    step == ReadyReceiptStep::WaitForWake && final(self).sends == 0
                }
            }),
    {
        let pending = match peer.receipt {
            Some(pending) => pending,
            None => {
                return ReadyReceiptStep::Stop;
            },
        };
        if pending.identity != self.identity {
            return ReadyReceiptStep::Stop;
        }
        if pending.acknowledged {
            peer.receipt = None;
            return ReadyReceiptStep::Stop;
        }
        if self.sends < HANDSHAKE_CONFIRM_MAX_ATTEMPTS {
            let wait_ms: u64 = retry_delay_ms(self.sends);
            self.sends = self.sends + 1;
            return ReadyReceiptStep::Send { session: pending.session, wait_ms };
        }
        self.sends = 0;
        ReadyReceiptStep::WaitForWake
    }
}

/// A confirmation ends: after `HANDSHAKE_CONFIRM_MAX_ATTEMPTS` sends without an
/// answer the transition is given up, and its session, if it was to be created,
/// is free again.
pub proof fn lemma_unanswered_confirmation_is_given_up(
    driver: ConfirmationDriver,
    peer: RelayPeer,
    store: StoreModel,
    quotas: SessionQuotas,
    step: ConfirmationStep,
    driver_after: ConfirmationDriver,
    peer_after: RelayPeer,
    store_after: StoreModel,
    quotas_after: SessionQuotas,
)
    requires
        driver.sends == HANDSHAKE_CONFIRM_MAX_ATTEMPTS,
        driver.reservation is Some,
        confirming_step(
            driver,
            peer,
            store,
            quotas,
            RelayOutcome::Waiting,
            step,
            driver_after,
            peer_after,
            store_after,
            quotas_after,
        ),
    ensures
        step == (ConfirmationStep::Failed { error: RelayError::ConfirmationTimedOut }),
        peer_after.confirmation is Some ==> peer_after.confirmation->0.identity
            != driver.pending.identity,
        driver.reservation->0.body.action == crate::session_types::PeerSessionAction::Create
            ==> store_after.rec(driver.reservation->0.key@).pending_create != Some(
            driver.reservation->0.body.session,
        ),
{
}

/// Once a transition is in doubt, nothing that the confirmation does afterwards
/// removes it from the session store.
pub proof fn lemma_doubt_outlives_confirmation(
    driver: ConfirmationDriver,
    peer: RelayPeer,
    store: StoreModel,
    quotas: SessionQuotas,
    step: ConfirmationStep,
    driver_after: ConfirmationDriver,
    peer_after: RelayPeer,
    store_after: StoreModel,
    quotas_after: SessionQuotas,
)
    requires
        driver.reservation is Some,
        confirming_step(
            driver,
            peer,
            store,
            quotas,
            RelayOutcome::Accepted,
            step,
            driver_after,
            peer_after,
            store_after,
            quotas_after,
        ),
        !(step is Failed),
    ensures
        driver_after.stage == ConfirmationStage::Readying,
        driver_after.reservation is None,
        store_after.rec(driver.reservation->0.key@).in_doubt matches Some(kept)
            && kept.body == driver.reservation->0.body,
{
}

} // verus!
