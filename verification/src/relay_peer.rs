//! What is kept for one relay peer.

use vstd::prelude::*;
use crate::packet::Packet;
use crate::relay_auth::RelaySessionAuthBinding;
use crate::noise::NoiseTransport;
use crate::relay_queue::{RelaySendPhase, RelaySendState};
use crate::relay_wire::{RelayConfirmationIdentity, RelayError, RelayReadyReceiptIdentity};
use crate::responder_store::UpsertResponderSessionReturn;
use crate::route_trait::NextHopPolicy;
use crate::session_store::{PeerSessionStore, SessionId, SessionQuotas, StoreModel};
use crate::session_types::TransitionFields;

verus! {

pub const HANDSHAKE_TIMEOUT_MS: u64 = 5_000;

pub const HANDSHAKE_RETRY_BASE_MS: u64 = 200;

pub const HANDSHAKE_MAX_ATTEMPTS: u32 = 3;

pub const HANDSHAKE_CONFIRM_RETRY_MS: u64 = 200;

pub const HANDSHAKE_CONFIRM_RETRY_MAX_MS: u64 = 5_000;

pub const HANDSHAKE_CONFIRM_MAX_ATTEMPTS: u32 = 8;

pub const MAX_COMPLETED_HANDSHAKES_PER_PEER: usize = 64;

pub const COMPLETED_HANDSHAKE_LIFETIME_MS: u64 = 60_000;

pub const RESPONDER_CONFIRM_DEADLINE_MS: u64 = 5_000;

pub const RELAY_CONFIRM_WINDOW_MS: u64 = 21_200;

/// The point in time some milliseconds after another; the last one where that
/// lies beyond all.
pub open spec fn later(now_ms: u64, by: u64) -> u64 {
    if now_ms + by > u64::MAX {
        u64::MAX
    } else {
        (now_ms + by) as u64
    }
}

/// How long an answer waits for its confirmation, in milliseconds.
pub open spec fn answer_lifetime() -> u64 {
    (RESPONDER_CONFIRM_DEADLINE_MS + RELAY_CONFIRM_WINDOW_MS * 2) as u64
}

/// How long a confirmed answer waits to become active, in milliseconds.
pub open spec fn confirmed_lifetime() -> u64 {
    (RESPONDER_CONFIRM_DEADLINE_MS + RELAY_CONFIRM_WINDOW_MS) as u64
}

/// When a peer was last active, and when a handshake may be tried again.
#[derive(Clone, Copy, Debug, PartialEq, Eq, Structural)]
pub struct RelayPeerState {
    pub last_active_at: u64,
    pub failure_count: u32,
    pub next_retry_at: Option<u64>,
}

/// A handshake that this side has started.
pub struct PendingHandshake {
    pub handshake_id: u128,
    pub payload: Vec<u8>,
    pub policy: NextHopPolicy,
    /// Whether someone still waits for the answer.
    pub waiting: bool,
}

/// A handshake of the peer that has to wait for one of this side.
pub struct DeferredHandshake {
    pub packet: Packet,
    pub handshake_id: u128,
}

/// What has become of a confirmation.
#[derive(Clone, Copy, Debug, PartialEq, Eq, Structural)]
pub enum RelayOutcome {
    Waiting,
    Accepted,
    Canceled,
}

/// A confirmation that the peer has to acknowledge. The staged session stays
/// private until then; it only opens matching confirmation packets.
#[derive(Clone, Copy, PartialEq, Eq, Structural)]
pub struct PendingConfirmationAck {
    pub identity: RelayConfirmationIdentity,
    pub expected_packet_type: u8,
    pub transition: TransitionFields,
    pub previous_receipt: Option<TransitionFields>,
    pub expires_at: u64,
    pub session: SessionId,
    pub outcome: RelayOutcome,
}

/// A receipt that is sent until the peer acknowledges it.
#[derive(Clone, Copy, PartialEq, Eq, Structural)]
pub struct PendingReadyReceipt {
    pub identity: RelayReadyReceiptIdentity,
    pub session: SessionId,
    pub expires_at: u64,
    pub acknowledged: bool,
    pub owner_running: bool,
}

/// A handshake that this side has answered and the peer has to confirm.
pub struct PendingResponderHandshake {
    pub handshake_id: u128,
    pub response: Vec<u8>,
    pub prepared: UpsertResponderSessionReturn,
    pub recovery_active: bool,
    pub transition_id: u128,
    pub deadline: u64,
}

/// A reset that this side has offered and the peer has to ask for.
pub struct PendingResponderReset {
    pub handshake_id: u128,
    pub identity: TransitionFields,
    pub response: Vec<u8>,
    pub transport: NoiseTransport,
    pub deadline: u64,
}

/// A reset that this side has asked for.
#[derive(Clone, Copy, PartialEq, Eq, Structural)]
pub struct PendingResetAck {
    pub handshake_id: u128,
    pub identity: TransitionFields,
    pub waiting: bool,
}

#[derive(Clone, Copy, Debug, PartialEq, Eq, Structural)]
pub struct CompletedRelayHandshake {
    pub identity: RelayConfirmationIdentity,
    pub expires_at: u64,
}

#[derive(Clone, Copy, Debug, PartialEq, Eq, Structural)]
pub struct CompletedReadyReceipt {
    pub identity: RelayReadyReceiptIdentity,
    pub expires_at: u64,
}

/// Everything that is kept for one relay peer.
pub struct RelayPeer {
    pub state: Option<RelayPeerState>,
    pub pending_handshake: Option<PendingHandshake>,
    pub deferred: Option<DeferredHandshake>,
    pub send: Option<RelaySendState>,
    pub responder: Option<PendingResponderHandshake>,
    pub responder_reset: Option<PendingResponderReset>,
    pub reset_ack: Option<PendingResetAck>,
    pub completed: Vec<CompletedRelayHandshake>,
    pub confirmation: Option<PendingConfirmationAck>,
    pub receipt: Option<PendingReadyReceipt>,
    pub completed_receipts: Vec<CompletedReadyReceipt>,
    pub auth: Option<RelaySessionAuthBinding>,
}

/// Every session that was in the store still is.
pub open spec fn keeps_sessions(before: StoreModel, after: StoreModel) -> bool {
    forall|id: SessionId| #[trigger] before.has(id) ==> after.has(id)
}

/// A send state that was just made.
pub open spec fn fresh_send_state(state: RelaySendState, phase: RelaySendPhase) -> bool {
    &&& state.wf()
    &&& state.phase == phase
    &&& !state.closed
    &&& state.packets@.len() == 0
    &&& state.in_flight == 0
    &&& state.in_flight_bytes == 0
    &&& state.queued_bytes == 0
    &&& !state.retry_scheduled
    &&& state.retry_attempt == 0
    &&& state.confirmation is None
}

impl RelayPeer {
    /// The parts agree with each other and with the session store.
    pub open spec fn wf(self, store: StoreModel) -> bool {
        &&& self.send is Some ==> self.send->0.wf()
        &&& self.responder is Some ==> self.responder->0.prepared.held_in(store) && (
        self.responder->0.recovery_active ==> self.responder->0.prepared.proof_dependency is None)
        &&& self.completed@.len() <= MAX_COMPLETED_HANDSHAKES_PER_PEER
        &&& self.completed_receipts@.len() <= MAX_COMPLETED_HANDSHAKES_PER_PEER
    }

    pub open spec fn is_blank(self) -> bool {
        &&& self.state is None
        &&& self.pending_handshake is None
        &&& self.deferred is None
        &&& self.send is None
        &&& self.responder is None
        &&& self.responder_reset is None
        &&& self.reset_ack is None
        &&& self.completed@.len() == 0
        &&& self.confirmation is None
        &&& self.receipt is None
        &&& self.completed_receipts@.len() == 0
        &&& self.auth is None
    }

    /// A peer of which nothing is known.
    pub fn new() -> (peer: Self)
        ensures
            peer.is_blank(),
            forall|store: StoreModel| #[trigger] peer.wf(store),
    {
        RelayPeer {
            state: None,
            pending_handshake: None,
            deferred: None,
            send: None,
            responder: None,
            responder_reset: None,
            reset_ack: None,
            completed: Vec::new(),
            confirmation: None,
            receipt: None,
            completed_receipts: Vec::new(),
            auth: None,
        }
    }

    /// Whether nothing is known of the peer.
    pub fn blank(&self) -> (blank: bool)
        ensures
            blank == self.is_blank(),
    {
        self.state.is_none() && self.pending_handshake.is_none() && self.deferred.is_none()
            && self.send.is_none() && self.responder.is_none() && self.responder_reset.is_none()
            && self.reset_ack.is_none() && self.completed.len() == 0 && self.confirmation.is_none()
            && self.receipt.is_none() && self.completed_receipts.len() == 0 && self.auth.is_none()
    }

    pub open spec fn phase_is(self, phase: RelaySendPhase) -> bool {
        self.send matches Some(state) && state.phase == phase
    }

    /// The send state is the one that was there, or a fresh one.
    pub open spec fn send_ensured(self, before: Option<RelaySendState>, phase: RelaySendPhase) -> bool {
        &&& self.send is Some
        &&& before is Some ==> self.send == before
        &&& before is None ==> fresh_send_state(self.send->0, phase)
    }

    /// Makes a send state where there is none.
    pub fn ensure_send_state(&mut self, phase: RelaySendPhase)
        requires
            old(self).send is Some ==> old(self).send->0.wf(),
        ensures
            final(self).send->0.wf(),
            final(self).send_ensured(old(self).send, phase),
            *final(self) == (RelayPeer { send: final(self).send, ..*old(self) }),
    {
        if self.send.is_none() {
            self.send = Some(RelaySendState::new(phase));
        }
    }

    /// Sets the phase of the send state, where there is one.
    pub open spec fn send_in_phase(send: Option<RelaySendState>, phase: RelaySendPhase) -> Option<
        RelaySendState,
    > {
        match send {
            Some(state) => Some(RelaySendState { phase, ..state }),
            None => None,
        }
    }

    pub fn set_existing_phase(&mut self, phase: RelaySendPhase)
        requires
            old(self).send is Some ==> old(self).send->0.wf(),
        ensures
            final(self).send is Some ==> final(self).send->0.wf(),
            *final(self) == (RelayPeer {
                send: RelayPeer::send_in_phase(old(self).send, phase),
                ..*old(self)
            }),
    {
        match self.send.take() {
            Some(mut state) => {
                state.set_phase(phase);
                self.send = Some(state);
            },
            None => {},
        }
    }

    /// Makes a send state where there is none, and sets its phase.
    pub fn set_send_phase(&mut self, phase: RelaySendPhase)
        requires
            old(self).send is Some ==> old(self).send->0.wf(),
        ensures
            final(self).send->0.wf(),
            final(self).send_ensured(RelayPeer::send_in_phase(old(self).send, phase), phase),
            *final(self) == (RelayPeer { send: final(self).send, ..*old(self) }),
    {
        self.ensure_send_state(phase);
        self.set_existing_phase(phase);
    }

    /// The send state waits for the confirmation of an identity.
    pub open spec fn send_confirming(self, before: Option<RelaySendState>, identity: RelayConfirmationIdentity) -> bool {
        &&& self.send is Some
        &&& self.send->0.confirmation == Some(identity)
        &&& self.send->0.phase == RelaySendPhase::Confirming
        &&& before matches Some(state) ==> self.send == Some(
            RelaySendState {
                confirmation: Some(identity),
                phase: RelaySendPhase::Confirming,
                ..state
            },
        )
        &&& before is None ==> fresh_send_state(
            RelaySendState { confirmation: None, ..self.send->0 },
            RelaySendPhase::Confirming,
        )
    }

    pub fn set_confirmation_identity(&mut self, identity: RelayConfirmationIdentity)
        requires
            old(self).send is Some ==> old(self).send->0.wf(),
        ensures
            final(self).send->0.wf(),
            final(self).send_confirming(old(self).send, identity),
            *final(self) == (RelayPeer { send: final(self).send, ..*old(self) }),
    {
        let mut state = match self.send.take() {
            Some(state) => state,
            None => RelaySendState::new(RelaySendPhase::Confirming),
        };
        state.set_confirmation(identity);
        self.send = Some(state);
    }

    /// The send state after a confirmation was given up.
    pub open spec fn confirmation_reset(send: Option<RelaySendState>, identity: RelayConfirmationIdentity) -> Option<
        RelaySendState,
    > {
        match send {
            Some(state) => Some(
                RelaySendState {
                    phase: RelaySendPhase::AwaitingSession,
                    ..state.without_confirmation(identity)
                },
            ),
            None => None,
        }
    }

    pub fn reset_confirmation_state(&mut self, identity: RelayConfirmationIdentity)
        requires
            old(self).send is Some ==> old(self).send->0.wf(),
        ensures
            final(self).send is Some ==> final(self).send->0.wf(),
            *final(self) == (RelayPeer {
                send: RelayPeer::confirmation_reset(old(self).send, identity),
                ..*old(self)
            }),
    {
        match self.send.take() {
            Some(mut state) => {
                let _ = state.clear_confirmation(identity);
                state.set_phase(RelaySendPhase::AwaitingSession);
                self.send = Some(state);
            },
            None => {},
        }
    }

    /// The pending confirmation, unless it is the one of an identity.
    pub open spec fn confirmation_without(
        confirmation: Option<PendingConfirmationAck>,
        identity: RelayConfirmationIdentity,
    ) -> Option<PendingConfirmationAck> {
        match confirmation {
            Some(pending) => if pending.identity == identity {
                None
            } else {
                Some(pending)
            },
            None => None,
        }
    }

    pub fn remove_confirmation_if_matching(&mut self, identity: RelayConfirmationIdentity)
        ensures
            *final(self) == (RelayPeer {
                confirmation: RelayPeer::confirmation_without(old(self).confirmation, identity),
                ..*old(self)
            }),
    {
        if let Some(pending) = self.confirmation {
            if pending.identity == identity {
                self.confirmation = None;
            }
        }
    }

    /// Ends a local cancellation after the initiator reservation is in doubt.
    ///
    /// The hidden reservation stays in the session store. Only an authenticated
    /// recovery or reset may remove it.
    pub fn reject_canceled_suspended_ready_confirmation(
        &mut self,
        identity: RelayConfirmationIdentity,
    ) -> (error: RelayError)
        requires
            old(self).send is Some ==> old(self).send->0.wf(),
        ensures
            error == RelayError::ReadyCanceledRecoveryPending,
            final(self).send is Some ==> final(self).send->0.wf(),
            *final(self) == (RelayPeer {
                confirmation: RelayPeer::confirmation_without(old(self).confirmation, identity),
                send: RelayPeer::confirmation_reset(old(self).send, identity),
                ..*old(self)
            }),
    {
        self.remove_confirmation_if_matching(identity);
        self.reset_confirmation_state(identity);
        RelayError::ReadyCanceledRecoveryPending
    }

    /// The state of the peer, or that of one that just became active.
    pub open spec fn state_or_new(self, now_ms: u64) -> RelayPeerState {
        match self.state {
            Some(state) => state,
            None => RelayPeerState { last_active_at: now_ms, failure_count: 0, next_retry_at: None },
        }
    }

    fn state_of(&self, now_ms: u64) -> (state: RelayPeerState)
        ensures
            state == self.state_or_new(now_ms),
    {
        match self.state {
            Some(state) => state,
            None => RelayPeerState { last_active_at: now_ms, failure_count: 0, next_retry_at: None },
        }
    }

    /// Marks the peer as active.
    pub fn touch(&mut self, now_ms: u64)
        ensures
            *final(self) == (RelayPeer {
                state: Some(
                    RelayPeerState { last_active_at: now_ms, ..old(self).state_or_new(now_ms) },
                ),
                ..*old(self)
            }),
    {
        let mut state = self.state_of(now_ms);
        state.last_active_at = now_ms;
        self.state = Some(state);
    }

    pub open spec fn succeeded(now_ms: u64) -> RelayPeerState {
        RelayPeerState { last_active_at: now_ms, failure_count: 0, next_retry_at: None }
    }

    pub fn register_handshake_success(&mut self, now_ms: u64)
        ensures
            *final(self) == (RelayPeer {
                state: Some(RelayPeer::succeeded(now_ms)),
                ..*old(self)
            }),
    {
        self.state = Some(
            RelayPeerState { last_active_at: now_ms, failure_count: 0, next_retry_at: None },
        );
    }

    /// Notes a failed attempt: the next one waits, twice as long each time.
    pub fn register_handshake_failure(&mut self, attempt: u32, now_ms: u64)
        requires
            attempt < HANDSHAKE_MAX_ATTEMPTS,
        ensures
            *final(self) == (RelayPeer {
                state: Some(
                    RelayPeerState {
                        last_active_at: old(self).state_or_new(now_ms).last_active_at,
                        failure_count: if old(self).state_or_new(now_ms).failure_count < u32::MAX {
                            (old(self).state_or_new(now_ms).failure_count + 1) as u32
                        } else {
                            u32::MAX
                        },
                        next_retry_at: Some(later(now_ms, handshake_backoff(attempt))),
                    },
                ),
                ..*old(self)
            }),
    {
        let mut state = self.state_of(now_ms);
        state.failure_count = state.failure_count.saturating_add(1);
        state.next_retry_at = Some(now_ms.saturating_add(handshake_backoff_ms(attempt)));
        self.state = Some(state);
    }

    pub open spec fn backoff_active(self, now_ms: u64) -> bool {
        self.state matches Some(state) && state.next_retry_at matches Some(at) && now_ms < at
    }

    pub fn is_backoff_active(&self, now_ms: u64) -> (active: bool)
        ensures
            active == self.backoff_active(now_ms),
    {
        match self.state {
            Some(state) => match state.next_retry_at {
                Some(at) => now_ms < at,
                None => false,
            },
            None => false,
        }
    }

    pub open spec fn has_completed(self, identity: RelayConfirmationIdentity, now_ms: u64) -> bool {
        exists|i: int|
            0 <= i < self.completed@.len() && (#[trigger] self.completed@[i]).identity == identity
                && self.completed@[i].expires_at > now_ms
    }

    pub open spec fn has_completed_handshake(self, handshake_id: u128, now_ms: u64) -> bool {
        exists|i: int|
            0 <= i < self.completed@.len() && (#[trigger] self.completed@[i]).identity.handshake_id
                == handshake_id && self.completed@[i].expires_at > now_ms
    }

    pub fn responder_handshake_completed(&self, handshake_id: u128, now_ms: u64) -> (completed: bool)
        ensures
            completed == self.has_completed_handshake(handshake_id, now_ms),
    {
        let mut i: usize = 0;
        while i < self.completed.len()
            invariant
                i <= self.completed@.len(),
                forall|k: int|
                    0 <= k < i ==> !((#[trigger] self.completed@[k]).identity.handshake_id
                        == handshake_id && self.completed@[k].expires_at > now_ms),
            decreases self.completed@.len() - i,
        {
            let entry = self.completed[i];
            if entry.identity.handshake_id == handshake_id && entry.expires_at > now_ms {
                return true;
            }
            i = i + 1;
        }
        false
    }

    pub fn responder_handshake_completed_identity(
        &self,
        identity: RelayConfirmationIdentity,
        now_ms: u64,
    ) -> (completed: bool)
        ensures
            completed == self.has_completed(identity, now_ms),
    {
        let mut i: usize = 0;
        while i < self.completed.len()
            invariant
                i <= self.completed@.len(),
                forall|k: int|
                    0 <= k < i ==> !((#[trigger] self.completed@[k]).identity == identity
                        && self.completed@[k].expires_at > now_ms),
            decreases self.completed@.len() - i,
        {
            let entry = self.completed[i];
            if entry.identity == identity && entry.expires_at > now_ms {
                return true;
            }
            i = i + 1;
        }
        false
    }

    pub open spec fn has_completed_receipt(self, identity: RelayReadyReceiptIdentity, now_ms: u64) -> bool {
        exists|i: int|
            0 <= i < self.completed_receipts@.len() && (#[trigger] self.completed_receipts@[i]).identity
                == identity && self.completed_receipts@[i].expires_at > now_ms
    }

    pub fn completed_ready_receipt(&self, identity: RelayReadyReceiptIdentity, now_ms: u64) -> (completed:
        bool)
        ensures
            completed == self.has_completed_receipt(identity, now_ms),
    {
        let mut i: usize = 0;
        while i < self.completed_receipts.len()
            invariant
                i <= self.completed_receipts@.len(),
                forall|k: int|
                    0 <= k < i ==> !((#[trigger] self.completed_receipts@[k]).identity == identity
                        && self.completed_receipts@[k].expires_at > now_ms),
            decreases self.completed_receipts@.len() - i,
        {
            let entry = self.completed_receipts[i];
            if entry.identity == identity && entry.expires_at > now_ms {
                return true;
            }
            i = i + 1;
        }
        false
    }

    /// The completed handshakes with one more: it is added once, and the oldest
    /// makes room.
    pub open spec fn completed_with(
        completed: Seq<CompletedRelayHandshake>,
        identity: RelayConfirmationIdentity,
        now_ms: u64,
    ) -> Seq<CompletedRelayHandshake> {
        let entry = CompletedRelayHandshake {
            identity,
            expires_at: later(now_ms, COMPLETED_HANDSHAKE_LIFETIME_MS),
        };
        if exists|i: int| 0 <= i < completed.len() && (#[trigger] completed[i]).identity == identity {
            completed
        } else if completed.len() >= MAX_COMPLETED_HANDSHAKES_PER_PEER {
            completed.skip(1).push(entry)
        } else {
            completed.push(entry)
        }
    }

    pub fn record_completed_responder_handshake(
        &mut self,
        identity: RelayConfirmationIdentity,
        now_ms: u64,
    )
        requires
            old(self).completed@.len() <= MAX_COMPLETED_HANDSHAKES_PER_PEER,
        ensures
            final(self).completed@ == RelayPeer::completed_with(
                old(self).completed@,
                identity,
                now_ms,
            ),
            final(self).completed@.len() <= MAX_COMPLETED_HANDSHAKES_PER_PEER,
            *final(self) == (RelayPeer { completed: final(self).completed, ..*old(self) }),
    {
        let mut i: usize = 0;
        while i < self.completed.len()
            invariant
                i <= self.completed@.len(),
                forall|k: int| 0 <= k < i ==> (#[trigger] self.completed@[k]).identity != identity,
                *self == *old(self),
                old(self).completed@.len() <= MAX_COMPLETED_HANDSHAKES_PER_PEER,
            decreases self.completed@.len() - i,
        {
            if self.completed[i].identity == identity {
                return ;
            }
            i = i + 1;
        }
        if self.completed.len() >= MAX_COMPLETED_HANDSHAKES_PER_PEER {
            let _ = self.completed.remove(0);
            assert(self.completed@ =~= old(self).completed@.skip(1));
        }
        self.completed.push(
            CompletedRelayHandshake {
                identity,
                expires_at: now_ms.saturating_add(COMPLETED_HANDSHAKE_LIFETIME_MS),
            },
        );
    }

    pub open spec fn receipts_with(
        completed: Seq<CompletedReadyReceipt>,
        identity: RelayReadyReceiptIdentity,
        now_ms: u64,
    ) -> Seq<CompletedReadyReceipt> {
        let entry = CompletedReadyReceipt {
            identity,
            expires_at: later(now_ms, COMPLETED_HANDSHAKE_LIFETIME_MS),
        };
        if exists|i: int| 0 <= i < completed.len() && (#[trigger] completed[i]).identity == identity {
            completed
        } else if completed.len() >= MAX_COMPLETED_HANDSHAKES_PER_PEER {
            completed.skip(1).push(entry)
        } else {
            completed.push(entry)
        }
    }

    pub fn record_completed_ready_receipt(&mut self, identity: RelayReadyReceiptIdentity, now_ms: u64)
        requires
            old(self).completed_receipts@.len() <= MAX_COMPLETED_HANDSHAKES_PER_PEER,
        ensures
            final(self).completed_receipts@ == RelayPeer::receipts_with(
                old(self).completed_receipts@,
                identity,
                now_ms,
            ),
            final(self).completed_receipts@.len() <= MAX_COMPLETED_HANDSHAKES_PER_PEER,
            *final(self) == (RelayPeer {
                completed_receipts: final(self).completed_receipts,
                ..*old(self)
            }),
    {
        let mut i: usize = 0;
        while i < self.completed_receipts.len()
            invariant
                i <= self.completed_receipts@.len(),
                forall|k: int|
                    0 <= k < i ==> (#[trigger] self.completed_receipts@[k]).identity != identity,
                *self == *old(self),
                old(self).completed_receipts@.len() <= MAX_COMPLETED_HANDSHAKES_PER_PEER,
            decreases self.completed_receipts@.len() - i,
        {
            if self.completed_receipts[i].identity == identity {
                return ;
            }
            i = i + 1;
        }
        if self.completed_receipts.len() >= MAX_COMPLETED_HANDSHAKES_PER_PEER {
            let _ = self.completed_receipts.remove(0);
            assert(self.completed_receipts@ =~= old(self).completed_receipts@.skip(1));
        }
        self.completed_receipts.push(
            CompletedReadyReceipt {
                identity,
                expires_at: now_ms.saturating_add(COMPLETED_HANDSHAKE_LIFETIME_MS),
            },
        );
    }

    /// Removes the handshake of this side, if it is the given one.
    pub fn remove_pending_handshake_if_matching(&mut self, handshake_id: u128)
        ensures
            *final(self) == (RelayPeer {
                pending_handshake: if old(self).pending_handshake is Some
                    && old(self).pending_handshake->0.handshake_id == handshake_id {
                    None
                } else {
                    old(self).pending_handshake
                },
                ..*old(self)
            }),
    {
        let matching = match &self.pending_handshake {
            Some(pending) => pending.handshake_id == handshake_id,
            None => false,
        };
        if matching {
            self.pending_handshake = None;
        }
    }

    /// Removes the pending confirmation. Whoever waits for it learns that it
    /// was canceled.
    pub fn cancel_pending_confirmation(&mut self) -> (canceled: Option<PendingConfirmationAck>)
        ensures
            canceled == (match old(self).confirmation {
                Some(pending) => Some(
                    PendingConfirmationAck { outcome: RelayOutcome::Canceled, ..pending },
                ),
                None => None,
            }),
            *final(self) == (RelayPeer { confirmation: None, ..*old(self) }),
    {
        match self.confirmation {
            Some(pending) => {
                self.confirmation = None;
                let mut canceled = pending;
                canceled.outcome = RelayOutcome::Canceled;
                Some(canceled)
            },
            None => None,
        }
    }

    /// The pending confirmation, as long as it has time left. One that has not
    /// is removed.
    pub fn get_live_staged_confirmation(&mut self, now_ms: u64) -> (live: Option<
        PendingConfirmationAck,
    >)
        ensures
            live == old(self).live_confirmation(now_ms),
            *final(self) == (RelayPeer {
                confirmation: old(self).live_confirmation(now_ms),
                ..*old(self)
            }),
    {
        match self.confirmation {
            Some(pending) => {
                if pending.expires_at <= now_ms {
                    let _ = self.cancel_pending_confirmation();
                    return None;
                }
                Some(pending)
            },
            None => None,
        }
    }

    pub open spec fn live_confirmation(self, now_ms: u64) -> Option<PendingConfirmationAck> {
        match self.confirmation {
            Some(pending) => if pending.expires_at <= now_ms {
                None
            } else {
                Some(pending)
            },
            None => None,
        }
    }

    /// Removes the offered reset, if it is the given one or none is given.
    pub fn cancel_pending_responder_reset(&mut self, expected_handshake_id: Option<u128>)
        ensures
            *final(self) == (RelayPeer {
                responder_reset: if old(self).responder_reset is Some && (expected_handshake_id
                    is None || expected_handshake_id == Some(
                    old(self).responder_reset->0.handshake_id,
                )) {
                    None
                } else {
                    old(self).responder_reset
                },
                ..*old(self)
            }),
    {
        let matching = match &self.responder_reset {
            Some(pending) => match expected_handshake_id {
                Some(id) => pending.handshake_id == id,
                None => true,
            },
            None => false,
        };
        if matching {
            self.responder_reset = None;
        }
    }

    /// Whether a pending answer is the one that is meant.
    pub open spec fn responder_meant(self, expected_handshake_id: Option<u128>) -> bool {
        self.responder is Some && (expected_handshake_id is None || expected_handshake_id == Some(
            self.responder->0.handshake_id,
        ))
    }

    /// The store after a pending answer was given up: its transition, unless it
    /// recovers a committed one, is canceled, and a proof that it cleared is
    /// back.
    pub open spec fn responder_dropped(store: StoreModel, pending: PendingResponderHandshake) -> StoreModel {
        let prepared = pending.prepared;
        let canceled = if pending.recovery_active {
            store
        } else {
            store.plan_canceled(
                prepared.prepared_key@,
                prepared.session,
                prepared.action,
                prepared.transition_revision,
                prepared.initial_epoch,
            )
        };
        if crate::responder_recovery::owes_proof(prepared) && prepared.proof_backup is Some
            && canceled.rec(prepared.prepared_key@).recovery is None {
            canceled.with_recovery(prepared.prepared_key@, prepared.proof_backup)
        } else {
            canceled
        }
    }

    /// The quotas after a pending answer was given up: a proof that cannot come
    /// back gives its slot up.
    pub open spec fn responder_dropped_quotas(
        store: StoreModel,
        quotas: SessionQuotas,
        pending: PendingResponderHandshake,
    ) -> SessionQuotas {
        let prepared = pending.prepared;
        if crate::responder_recovery::owes_proof(prepared) && prepared.proof_backup is Some
            && store.rec(prepared.prepared_key@).recovery is Some {
            quotas.without_recovery()
        } else {
            quotas
        }
    }

    /// The peer after a pending answer was given up.
    pub open spec fn canceled_peer(self, expected_handshake_id: Option<u128>) -> RelayPeer {
        if self.responder_meant(expected_handshake_id) {
            RelayPeer {
                responder: None,
                send: match self.send {
                    Some(state) => Some(
                        RelaySendState {
                            phase: RelaySendPhase::AwaitingSession,
                            confirmation: None,
                            ..state
                        },
                    ),
                    None => None,
                },
                ..self
            }
        } else {
            self
        }
    }

    pub open spec fn canceled_store(self, store: StoreModel, expected_handshake_id: Option<u128>) -> StoreModel {
        if self.responder_meant(expected_handshake_id) {
            RelayPeer::responder_dropped(store, self.responder->0)
        } else {
            store
        }
    }

    pub open spec fn canceled_quotas(
        self,
        store: StoreModel,
        quotas: SessionQuotas,
        expected_handshake_id: Option<u128>,
    ) -> SessionQuotas {
        if self.responder_meant(expected_handshake_id) {
            RelayPeer::responder_dropped_quotas(store, quotas, self.responder->0)
        } else {
            quotas
        }
    }

    /// Gives the pending answer up, if it is the given one or none is given.
    pub fn cancel_pending_responder_handshake(
        &mut self,
        store: &mut PeerSessionStore,
        quotas: &mut SessionQuotas,
        expected_handshake_id: Option<u128>,
    )
        requires
            old(store).wf(),
            old(self).wf(old(store)@),
        ensures
            final(store).wf(),
            final(self).wf(final(store)@),
            keeps_sessions(old(store)@, final(store)@),
            *final(self) == old(self).canceled_peer(expected_handshake_id),
            final(store)@ == old(self).canceled_store(old(store)@, expected_handshake_id),
            *final(quotas) == old(self).canceled_quotas(
                old(store)@,
                *old(quotas),
                expected_handshake_id,
            ),
    {
        let meant = match &self.responder {
            Some(pending) => match expected_handshake_id {
                Some(id) => pending.handshake_id == id,
                None => true,
            },
            None => false,
        };
        if !meant {
            return ;
        }
        let mut pending = self.responder.take().unwrap();
        if !pending.recovery_active {
            pending.prepared.cancel(store);
        }
        pending.prepared.restore_uncommitted_proof(store, quotas);
        match self.send.take() {
            Some(mut state) => {
                state.phase = RelaySendPhase::AwaitingSession;
                state.confirmation = None;
                self.send = Some(state);
            },
            None => {},
        }
    }

    /// Whether a pending answer belongs to an identity.
    pub open spec fn responder_is(self, store: StoreModel, identity: RelayConfirmationIdentity) -> bool {
        &&& self.responder is Some
        &&& self.responder->0.handshake_id == identity.handshake_id
        &&& self.responder->0.transition_id == identity.transition_id
        &&& store.sess(self.responder->0.prepared.session).metadata_session_id
            == identity.session_id
    }

    pub fn responder_matches(&self, store: &PeerSessionStore, identity: RelayConfirmationIdentity) -> (matches:
        bool)
        requires
            store.wf(),
            self.wf(store@),
        ensures
            matches == self.responder_is(store@, identity),
    {
        match &self.responder {
            Some(pending) => {
                let metadata = match store.session(pending.prepared.session) {
                    Some(session) => Some(session.metadata_session_id()),
                    None => None,
                };
                pending.handshake_id == identity.handshake_id && pending.transition_id
                    == identity.transition_id && metadata == Some(identity.session_id)
            },
            None => false,
        }
    }

    /// How long the answer to a handshake, or the reset that was offered in it,
    /// may still wait, if there is one.
    pub fn answer_time_left(&self, handshake_id: u128, now_ms: u64) -> (left_ms: Option<u64>)
        ensures
            left_ms == (if self.responder is Some && self.responder->0.handshake_id
                == handshake_id {
                Some(crate::clock::elapsed(now_ms, self.responder->0.deadline) as u64)
            } else if self.responder_reset is Some && self.responder_reset->0.handshake_id
                == handshake_id {
                Some(crate::clock::elapsed(now_ms, self.responder_reset->0.deadline) as u64)
            } else {
                None
            }),
    {
        if let Some(pending) = &self.responder {
            if pending.handshake_id == handshake_id {
                return Some(crate::clock::time_since(now_ms, pending.deadline));
            }
        }
        if let Some(pending) = &self.responder_reset {
            if pending.handshake_id == handshake_id {
                return Some(crate::clock::time_since(now_ms, pending.deadline));
            }
        }
        None
    }

    /// Gives a confirmed answer more time.
    pub fn extend_pending_responder_deadline(
        &mut self,
        store: &PeerSessionStore,
        identity: RelayConfirmationIdentity,
        now_ms: u64,
    )
        requires
            store.wf(),
            old(self).wf(store@),
        ensures
            final(self).wf(store@),
            *final(self) == (if old(self).responder_is(store@, identity) {
                RelayPeer {
                    responder: Some(
                        PendingResponderHandshake {
                            deadline: later(
                                now_ms,
                                (RESPONDER_CONFIRM_DEADLINE_MS + RELAY_CONFIRM_WINDOW_MS) as u64,
                            ),
                            ..old(self).responder->0
                        },
                    ),
                    ..*old(self)
                }
            } else {
                *old(self)
            }),
    {
        if self.responder_matches(store, identity) {
            let mut pending = self.responder.take().unwrap();
            pending.deadline = now_ms.saturating_add(
                RESPONDER_CONFIRM_DEADLINE_MS + RELAY_CONFIRM_WINDOW_MS,
            );
            self.responder = Some(pending);
        }
    }
}

/// The wait after a failed attempt.
pub open spec fn handshake_backoff(attempt: u32) -> u64 {
    if attempt == 0 {
        200
    } else if attempt == 1 {
        400
    } else {
        800
    }
}

pub fn handshake_backoff_ms(attempt: u32) -> (ms: u64)
    requires
        attempt < HANDSHAKE_MAX_ATTEMPTS,
    ensures
        ms == handshake_backoff(attempt),
{
    if attempt == 0 {
        HANDSHAKE_RETRY_BASE_MS
    } else if attempt == 1 {
        HANDSHAKE_RETRY_BASE_MS * 2
    } else {
        HANDSHAKE_RETRY_BASE_MS * 4
    }
}

} // verus!
