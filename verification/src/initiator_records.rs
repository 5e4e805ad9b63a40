//! What an initiator keeps beyond one call: receipts of commits that the peer
//! has to acknowledge, and transitions whose outcome is in doubt.

use vstd::prelude::*;
use crate::bytes::Key32;
use crate::initiator_store::{InitiatorAsk, InitiatorSessionReservation, ReservationState};
use crate::session_store::{
    InitiatorReceiptRecord, KeyRecord, PeerSessionStore, ReservationBody, SessionId, SessionQuotas,
    StoreModel, SuspendedInitiatorReservation, INITIATOR_RECOVERY_LIFETIME_MS,
    MAX_INITIATOR_RECEIPT_RECORDS,
};
use crate::session_types::{
    IdentityModel, InitiatorTransitionIdentity, PeerSessionAction, SessionError, SessionKey,
    SessionKeyModel, TransitionFields,
};

verus! {

impl StoreModel {
    /// Whether the receipt of a commit can be kept: `true` if it takes a slot
    /// of its own, `false` if it takes over the slot of the previous receipt.
    pub open spec fn receipt_slot(
        self,
        quotas: SessionQuotas,
        key: SessionKeyModel,
        body: ReservationBody,
        receipt: IdentityModel,
        previous: Option<IdentityModel>,
    ) -> Result<bool, SessionError> {
        if receipt.fields.transition_id == 0 {
            Err(SessionError::ReceiptWithoutTransitionId)
        } else if !(receipt.key == key && body.identified_by(receipt.fields)) {
            Err(SessionError::ReceiptIdentityMismatch)
        } else {
            match (self.rec(key).receipt, previous) {
                (Some(_), None) => Err(SessionError::ReceiptAwaitingAcknowledgement),
                (Some(existing), Some(previous)) => if previous == (IdentityModel {
                    key,
                    fields: existing.identity,
                }) {
                    Ok(false)
                } else {
                    Err(SessionError::ReceiptChanged)
                },
                (None, _) => if quotas.initiator_receipts >= MAX_INITIATOR_RECEIPT_RECORDS {
                    Err(SessionError::ReceiptCapacityFull)
                } else {
                    Ok(true)
                },
            }
        }
    }

    /// Whether a reservation can become active together with its receipt.
    pub open spec fn receipt_commit_check(
        self,
        quotas: SessionQuotas,
        key: SessionKeyModel,
        body: ReservationBody,
        receipt: IdentityModel,
        previous: Option<IdentityModel>,
    ) -> Result<bool, SessionError> {
        match self.receipt_slot(quotas, key, body, receipt, previous) {
            Err(e) => Err(e),
            Ok(own_slot) => match self.commit_check(key, body) {
                Err(e) => Err(e),
                Ok(_) => Ok(own_slot),
            },
        }
    }

    /// The store after a reservation became active and its receipt was kept.
    pub open spec fn committed_with_receipt(
        self,
        key: SessionKeyModel,
        body: ReservationBody,
        receipt: TransitionFields,
        now_ms: u64,
    ) -> StoreModel {
        self.reservation_committed(key, body, now_ms).with_receipt(
            key,
            Some(InitiatorReceiptRecord { identity: receipt, session: body.session }),
        )
    }
}

impl PeerSessionStore {
    fn find_receipt_slot(
        &self,
        quotas: &SessionQuotas,
        key: &SessionKey,
        body: &ReservationBody,
        receipt: &InitiatorTransitionIdentity,
        previous: &Option<InitiatorTransitionIdentity>,
    ) -> (own_slot: Result<bool, SessionError>)
        requires
            self.wf(),
        ensures
            own_slot == self@.receipt_slot(
                *quotas,
                key@,
                *body,
                receipt@,
                (match *previous {
                    Some(p) => Some(p@),
                    None => None,
                }),
            ),
    {
        let fields = receipt.fields();
        if fields.transition_id == 0 {
            return Err(SessionError::ReceiptWithoutTransitionId);
        }
        if !receipt.session_key.same(key) || !body.is_identified_by(&fields) {
            return Err(SessionError::ReceiptIdentityMismatch);
        }
        match self.receipt_of(key) {
            Some(existing) => match previous {
                None => Err(SessionError::ReceiptAwaitingAcknowledgement),
                Some(previous) => {
                    if previous.session_key.same(key) && existing.identity == previous.fields() {
                        Ok(false)
                    } else {
                        Err(SessionError::ReceiptChanged)
                    }
                },
            },
            None => {
                if quotas.initiator_receipts >= MAX_INITIATOR_RECEIPT_RECORDS {
                    Err(SessionError::ReceiptCapacityFull)
                } else {
                    Ok(true)
                }
            },
        }
    }
}

/// What committing a pending reservation together with its receipt gives and
/// changes.
pub open spec fn receipt_committed(
    reservation: InitiatorSessionReservation,
    store: StoreModel,
    quotas: SessionQuotas,
    receipt: IdentityModel,
    previous: Option<IdentityModel>,
    now_ms: u64,
    result: Result<SessionId, SessionError>,
    reservation_after: InitiatorSessionReservation,
    store_after: StoreModel,
    quotas_after: SessionQuotas,
) -> bool {
    let key = reservation.key@;
    let body = reservation.body;
    let released = crate::initiator_store::permit_released(quotas, reservation.permit);
    match store.receipt_commit_check(quotas, key, body, receipt, previous) {
        Ok(own_slot) => {
            &&& result == Ok::<SessionId, SessionError>(body.session)
            &&& store_after == store.committed_with_receipt(key, body, receipt.fields, now_ms)
            &&& quotas_after == (if own_slot {
                released.with_receipt()
            } else {
                released
            })
            &&& reservation_after == reservation.settled(ReservationState::Committed)
        },
        Err(e) => {
            &&& result == Err::<SessionId, SessionError>(e)
            &&& store_after == store.reservation_canceled(key, body)
            &&& quotas_after == released
            &&& reservation_after == reservation.settled(ReservationState::Canceled)
        },
    }
}

impl InitiatorSessionReservation {
    /// Commits and keeps the exact receipt of the responder in one step.
    pub fn commit_with_receipt(
        &mut self,
        store: &mut PeerSessionStore,
        quotas: &mut SessionQuotas,
        receipt_identity: InitiatorTransitionIdentity,
        now_ms: u64,
    ) -> (committed: Result<SessionId, SessionError>)
        requires
            old(store).wf(),
            old(self).held_in(old(store)@),
        ensures
            final(store).wf(),
            old(self).state == ReservationState::Pending ==> receipt_committed(
                *old(self),
                old(store)@,
                *old(quotas),
                receipt_identity@,
                None,
                now_ms,
                committed,
                *final(self),
                final(store)@,
                *final(quotas),
            ),
            old(self).state != ReservationState::Pending ==> {
                &&& committed == Err::<SessionId, SessionError>(SessionError::TransitionNotPending)
                &&& final(store)@ == old(store)@
                &&& *final(quotas) == *old(quotas)
                &&& *final(self) == *old(self)
            },
    {
        self.commit_with_receipt_replacing(store, quotas, receipt_identity, None, now_ms)
    }

    /// Commits and replaces one exact earlier receipt in one step.
    ///
    /// The earlier receipt stays if this commit fails. The new receipt takes
    /// over its slot after a successful commit.
    pub fn commit_with_receipt_replacing(
        &mut self,
        store: &mut PeerSessionStore,
        quotas: &mut SessionQuotas,
        receipt_identity: InitiatorTransitionIdentity,
        previous_receipt_identity: Option<InitiatorTransitionIdentity>,
        now_ms: u64,
    ) -> (committed: Result<SessionId, SessionError>)
        requires
            old(store).wf(),
            old(self).held_in(old(store)@),
        ensures
            final(store).wf(),
            old(self).state == ReservationState::Pending ==> receipt_committed(
                *old(self),
                old(store)@,
                *old(quotas),
                receipt_identity@,
                (match previous_receipt_identity {
                    Some(p) => Some(p@),
                    None => None,
                }),
                now_ms,
                committed,
                *final(self),
                final(store)@,
                *final(quotas),
            ),
            old(self).state != ReservationState::Pending ==> {
                &&& committed == Err::<SessionId, SessionError>(SessionError::TransitionNotPending)
                &&& final(store)@ == old(store)@
                &&& *final(quotas) == *old(quotas)
                &&& *final(self) == *old(self)
            },
    {
        if self.state != ReservationState::Pending {
            return Err(SessionError::TransitionNotPending);
        }
        // The slot and conflict checks run before the reservation can publish
        // keys. The receipt becomes visible only after the commit works.
        let slot = store.find_receipt_slot(
            quotas,
            &self.key,
            &self.body,
            &receipt_identity,
            &previous_receipt_identity,
        );
        let outcome = match slot {
            Ok(own_slot) => match store.commit_initiator_reservation(&self.key, &self.body, now_ms) {
                Ok(()) => Ok(own_slot),
                Err(e) => Err(e),
            },
            Err(e) => Err(e),
        };
        match outcome {
            Ok(own_slot) => {
                proof {
                    crate::session_store::lemma_sound_record(store@, self.key@);
                    broadcast use crate::session_store::group_sound;

                }
                store.set_receipt(
                    &self.key,
                    Some(
                        InitiatorReceiptRecord {
                            identity: receipt_identity.fields(),
                            session: self.body.session,
                        },
                    ),
                );
                self.state = ReservationState::Committed;
                self.release_recovery_quota(quotas);
                if own_slot {
                    quotas.initiator_receipts = quotas.initiator_receipts + 1;
                }
                Ok(self.body.session)
            },
            Err(e) => {
                store.cancel_initiator_reservation(&self.key, &self.body);
                self.state = ReservationState::Canceled;
                self.release_recovery_quota(quotas);
                Err(e)
            },
        }
    }
}

impl StoreModel {
    /// Whether a reservation can be kept as in doubt, or why not.
    pub open spec fn suspend_check(
        self,
        reservation: InitiatorSessionReservation,
        lifetime_ms: u64,
        identity: IdentityModel,
    ) -> Result<(), SessionError> {
        if lifetime_ms == 0 || lifetime_ms > INITIATOR_RECOVERY_LIFETIME_MS {
            Err(SessionError::InvalidRecoveryLifetime)
        } else if !(identity.key == reservation.key@ && reservation.body.identified_by(
            identity.fields,
        )) {
            Err(SessionError::RecoveryIdentityMismatch)
        } else if identity.fields.transition_id == 0 {
            Err(SessionError::RecoveryWithoutTransitionId)
        } else if reservation.state != ReservationState::Pending {
            Err(SessionError::TransitionNotPending)
        } else if !reservation.permit {
            Err(SessionError::RecoveryPermitMissing)
        } else if self.rec(reservation.key@).in_doubt is Some {
            Err(SessionError::TransitionAlreadyInDoubt)
        } else {
            Ok(())
        }
    }
}

/// What suspending a reservation gives and changes. The permit moves into the
/// record; a reservation that cannot be kept is given up.
pub open spec fn suspended(
    reservation: InitiatorSessionReservation,
    store: StoreModel,
    quotas: SessionQuotas,
    lifetime_ms: u64,
    identity: IdentityModel,
    result: Result<(), SessionError>,
    store_after: StoreModel,
    quotas_after: SessionQuotas,
) -> bool {
    &&& result == store.suspend_check(reservation, lifetime_ms, identity)
    &&& if result is Ok {
        &&& store_after == store.with_in_doubt(
            reservation.key@,
            Some(
                SuspendedInitiatorReservation { identity: identity.fields, body: reservation.body },
            ),
        )
        &&& quotas_after == quotas
    } else if reservation.state == ReservationState::Pending {
        &&& store_after == store.reservation_canceled(reservation.key@, reservation.body)
        &&& quotas_after == crate::initiator_store::permit_released(quotas, reservation.permit)
    } else {
        store_after == store && quotas_after == quotas
    }
}

impl InitiatorSessionReservation {
    /// Keeps the reservation under an identity that names it.
    pub fn suspend_with_identity(
        self,
        store: &mut PeerSessionStore,
        quotas: &mut SessionQuotas,
        lifetime_ms: u64,
        identity: InitiatorTransitionIdentity,
    ) -> (result: Result<(), SessionError>)
        requires
            old(store).wf(),
            self.held_in(old(store)@),
        ensures
            final(store).wf(),
            suspended(
                self,
                old(store)@,
                *old(quotas),
                lifetime_ms,
                identity@,
                result,
                final(store)@,
                *final(quotas),
            ),
    {
        let mut reservation = self;
        let fields = identity.fields();
        let refused = if lifetime_ms == 0 || lifetime_ms > INITIATOR_RECOVERY_LIFETIME_MS {
            Some(SessionError::InvalidRecoveryLifetime)
        } else if !identity.session_key.same(&reservation.key)
            || !reservation.body.is_identified_by(&fields) {
            Some(SessionError::RecoveryIdentityMismatch)
        } else if fields.transition_id == 0 {
            Some(SessionError::RecoveryWithoutTransitionId)
        } else if reservation.state != ReservationState::Pending {
            Some(SessionError::TransitionNotPending)
        } else if !reservation.permit {
            Some(SessionError::RecoveryPermitMissing)
        } else if store.in_doubt_of(&reservation.key).is_some() {
            Some(SessionError::TransitionAlreadyInDoubt)
        } else {
            None
        };
        match refused {
            Some(e) => {
                reservation.cancel(store, quotas);
                Err(e)
            },
            None => {
                proof {
                    crate::session_store::lemma_sound_record(store@, self.key@);
                    broadcast use crate::session_store::group_sound;

                }
                let kept = SuspendedInitiatorReservation {
                    identity: fields,
                    body: reservation.body,
                };
                let _ = store.replace_in_doubt(&reservation.key, Some(kept));
                Ok(())
            },
        }
    }

    /// Keeps this reservation after an ambiguous confirmation result.
    pub fn suspend(
        self,
        store: &mut PeerSessionStore,
        quotas: &mut SessionQuotas,
        lifetime_ms: u64,
    ) -> (result: Result<(), SessionError>)
        requires
            old(store).wf(),
            self.held_in(old(store)@),
        ensures
            final(store).wf(),
            suspended(
                self,
                old(store)@,
                *old(quotas),
                lifetime_ms,
                (IdentityModel {
                    key: self.key@,
                    fields: self.body.fields(
                        old(store)@.sess(self.body.session).metadata_session_id,
                    ),
                }),
                result,
                final(store)@,
                *final(quotas),
            ),
    {
        let identity = self.transition_identity(store);
        self.suspend_with_identity(store, quotas, lifetime_ms, identity)
    }

    /// Keeps this reservation with the authenticated session metadata of the
    /// peer.
    ///
    /// The metadata of the peer differs from that of a session that was just
    /// made here. The other identity fields come from this reservation.
    pub fn suspend_with_session_metadata(
        self,
        store: &mut PeerSessionStore,
        quotas: &mut SessionQuotas,
        session_metadata_id: u128,
        lifetime_ms: u64,
    ) -> (result: Result<(), SessionError>)
        requires
            old(store).wf(),
            self.held_in(old(store)@),
        ensures
            final(store).wf(),
            suspended(
                self,
                old(store)@,
                *old(quotas),
                lifetime_ms,
                (IdentityModel { key: self.key@, fields: self.body.fields(session_metadata_id) }),
                result,
                final(store)@,
                *final(quotas),
            ),
    {
        let identity = self.transition_identity_with_session_metadata(session_metadata_id);
        self.suspend_with_identity(store, quotas, lifetime_ms, identity)
    }

    /// The identity of the reserved transition.
    pub fn transition_identity(&self, store: &PeerSessionStore) -> (identity:
        InitiatorTransitionIdentity)
        requires
            store.wf(),
            self.held_in(store@),
        ensures
            identity@ == (IdentityModel {
                key: self.key@,
                fields: self.body.fields(store@.sess(self.body.session).metadata_session_id),
            }),
    {
        let session_metadata_id: u128 = match store.session(self.body.session) {
            Some(session) => session.metadata_session_id(),
            None => 0,
        };
        self.transition_identity_with_session_metadata(session_metadata_id)
    }

    pub fn transition_identity_with_session_metadata(&self, session_metadata_id: u128) -> (identity:
        InitiatorTransitionIdentity)
        ensures
            identity@ == (IdentityModel {
                key: self.key@,
                fields: self.body.fields(session_metadata_id),
            }),
    {
        InitiatorTransitionIdentity::from_fields(
            self.key.duplicate(),
            self.body.identity_fields(session_metadata_id),
        )
    }

    pub fn action(&self) -> (action: PeerSessionAction)
        ensures
            action == self.body.action,
    {
        self.body.action
    }

    pub fn session(&self) -> (id: SessionId)
        ensures
            id == self.body.session,
    {
        self.body.session
    }

    pub fn session_generation(&self) -> (generation: u32)
        ensures
            generation == self.body.session_generation,
    {
        self.body.session_generation
    }

    pub fn root_key(&self) -> (key: Key32)
        ensures
            key == self.body.root_key,
    {
        self.body.root_key
    }

    pub fn initial_epoch(&self) -> (epoch: u32)
        ensures
            epoch == self.body.initial_epoch,
    {
        self.body.initial_epoch
    }

    /// The local transition token for confirmation and timeout checks.
    pub fn transition_revision(&self) -> (revision: u64)
        ensures
            revision == self.body.transition_revision,
    {
        self.body.transition_revision
    }

    pub fn transition_id(&self) -> (id: u128)
        ensures
            id == self.body.transition_id,
    {
        self.body.transition_id
    }

    /// Gives the reservation its token. A token that is set cannot change.
    pub fn bind_transition_id(&mut self, transition_id: u128) -> (bound: Result<(), SessionError>)
        ensures
            bound == (if transition_id == 0 {
                Err::<(), SessionError>(SessionError::TransitionIdZero)
            } else if old(self).body.transition_id != 0 && old(self).body.transition_id
                != transition_id {
                Err(SessionError::TransitionIdChanged)
            } else {
                Ok(())
            }),
            *final(self) == (if bound is Ok {
                InitiatorSessionReservation {
                    body: ReservationBody { transition_id, ..old(self).body },
                    ..*old(self)
                }
            } else {
                *old(self)
            }),
    {
        if transition_id == 0 {
            return Err(SessionError::TransitionIdZero);
        }
        if self.body.transition_id != 0 && self.body.transition_id != transition_id {
            return Err(SessionError::TransitionIdChanged);
        }
        self.body.transition_id = transition_id;
        Ok(())
    }

    pub fn verify_transition_revision(&self, expected: u64) -> (verified: Result<(), SessionError>)
        ensures
            verified == (if self.body.transition_revision != expected {
                Err::<(), SessionError>(SessionError::TransitionRevisionMismatch)
            } else {
                Ok(())
            }),
    {
        if self.body.transition_revision != expected {
            return Err(SessionError::TransitionRevisionMismatch);
        }
        Ok(())
    }
}

impl StoreModel {
    /// Whether the transition in doubt of the identity's key is the identified
    /// one, or why not.
    pub open spec fn in_doubt_check(self, identity: IdentityModel) -> Result<(), SessionError> {
        match self.rec(identity.key).in_doubt {
            None => Err(SessionError::NoInDoubtTransition),
            Some(kept) => if kept.identity.authenticated_as(identity.fields) {
                Ok(())
            } else {
                Err(SessionError::InDoubtIdentityMismatch)
            },
        }
    }

    /// The static key of the peer of a transition in doubt.
    pub open spec fn in_doubt_static_key(self, key: SessionKeyModel) -> Option<Key32> {
        match self.rec(key).in_doubt {
            None => None,
            Some(kept) => match kept.body.peer_static_pubkey {
                Some(known) => Some(known),
                None => self.sess(kept.body.session).static_key_with_pending(),
            },
        }
    }

    pub open spec fn static_key_of(self, id: SessionId) -> Option<Key32> {
        self.sess(id).static_key_with_pending()
    }

    /// Whether every record of a key belongs to the peer with this static key.
    pub open spec fn records_owned_by(self, key: SessionKeyModel, static_key: Key32) -> bool {
        let record = self.rec(key);
        let owner = Some(static_key);
        &&& record.active is Some ==> self.static_key_of((record.active->0).session) == owner
        &&& record.pending_create is Some ==> self.static_key_of(record.pending_create->0) == owner
        &&& record.in_doubt is Some ==> self.in_doubt_static_key(key) == owner
        &&& record.recovery is Some ==> self.static_key_of((record.recovery->0).recovery.session)
            == owner
        &&& record.receipt is Some ==> self.static_key_of((record.receipt->0).session) == owner
    }

    pub open spec fn has_records(self, key: SessionKeyModel) -> bool {
        let record = self.rec(key);
        record.active is Some || record.pending_create is Some || record.in_doubt is Some
            || record.recovery is Some || record.receipt is Some
    }

    pub open spec fn invalidated(self, id: Option<SessionId>) -> StoreModel {
        match id {
            Some(id) => self.with_sess(id, self.sess(id).invalid_now()),
            None => self,
        }
    }

    /// The store after every record of a key was removed: the sessions that the
    /// records owned are invalid, and a transition in doubt is given up.
    pub open spec fn cleared(self, key: SessionKeyModel) -> StoreModel {
        let record = self.rec(key);
        let removed = self.with_rec(key, KeyRecord::empty_record()).invalidated(
            record.pending_create,
        );
        let canceled = match record.in_doubt {
            Some(kept) => removed.reservation_canceled(key, kept.body),
            None => removed,
        };
        canceled.invalidated(
            match record.active {
                Some(entry) => Some(entry.session),
                None => None,
            },
        )
    }

    /// The keys of all transitions in doubt.
    pub open spec fn in_doubt_keys(self) -> Set<SessionKeyModel> {
        Set::new(|key: SessionKeyModel| self.rec(key).in_doubt is Some)
    }
}

/// The quotas after the slots of a record were given back.
pub open spec fn record_released(quotas: SessionQuotas, record: KeyRecord) -> SessionQuotas {
    let a = if record.in_doubt is Some {
        quotas.without_in_doubt()
    } else {
        quotas
    };
    let b = if record.recovery is Some {
        a.without_recovery()
    } else {
        a
    };
    if record.receipt is Some {
        b.without_receipt()
    } else {
        b
    }
}

impl PeerSessionStore {
    fn check_in_doubt(&self, identity: &InitiatorTransitionIdentity) -> (result: Result<
        (),
        SessionError,
    >)
        requires
            self.wf(),
        ensures
            result == self@.in_doubt_check(identity@),
    {
        match self.in_doubt_of(&identity.session_key) {
            None => Err(SessionError::NoInDoubtTransition),
            Some(kept) => {
                if kept.identity.matches_authenticated_fields(&identity.fields()) {
                    Ok(())
                } else {
                    Err(SessionError::InDoubtIdentityMismatch)
                }
            },
        }
    }

    /// Resumes one hidden initiator transition, only after an exact identity
    /// match.
    pub fn resume_initiator_reservation(&mut self, identity: &InitiatorTransitionIdentity) -> (resumed:
        Result<InitiatorSessionReservation, SessionError>)
        requires
            old(self).wf(),
        ensures
            final(self).wf(),
            match old(self)@.in_doubt_check(identity@) {
                Err(e) => final(self)@ == old(self)@ && resumed == Err::<
                    InitiatorSessionReservation,
                    SessionError,
                >(e),
                Ok(_) => {
                    &&& final(self)@ == old(self)@.with_in_doubt(identity@.key, None)
                    &&& resumed matches Ok(r) && r.key@ == identity@.key && r.body == old(self)@.rec(
                        identity@.key,
                    ).in_doubt->0.body && r.permit && r.state == ReservationState::Pending
                        && r.held_in(final(self)@)
                },
            },
    {
        proof {
            crate::session_store::lemma_sound_record(self@, identity@.key);
            broadcast use crate::session_store::group_sound;

        }
        if let Err(e) = self.check_in_doubt(identity) {
            return Err(e);
        }
        match self.replace_in_doubt(&identity.session_key, None) {
            Some(kept) => Ok(
                InitiatorSessionReservation {
                    key: identity.session_key.duplicate(),
                    body: kept.body,
                    permit: true,
                    state: ReservationState::Pending,
                },
            ),
            None => Err(SessionError::NoInDoubtTransition),
        }
    }

    /// Gives one hidden initiator transition up, only after an exact identity
    /// match.
    pub fn cancel_initiator_reservation_exact(
        &mut self,
        quotas: &mut SessionQuotas,
        identity: &InitiatorTransitionIdentity,
    ) -> (canceled: bool)
        requires
            old(self).wf(),
        ensures
            final(self).wf(),
            canceled == (old(self)@.in_doubt_check(identity@) is Ok),
            canceled ==> {
                &&& final(self)@ == old(self)@.with_in_doubt(
                    identity@.key,
                    None,
                ).reservation_canceled(
                    identity@.key,
                    old(self)@.rec(identity@.key).in_doubt->0.body,
                )
                &&& *final(quotas) == old(quotas).without_in_doubt()
            },
            !canceled ==> final(self)@ == old(self)@ && *final(quotas) == *old(quotas),
    {
        match self.resume_initiator_reservation(identity) {
            Ok(mut reservation) => {
                reservation.cancel(self, quotas);
                true
            },
            Err(_) => false,
        }
    }

    fn session_key_is(&self, id: SessionId, static_key: Key32) -> (same: bool)
        requires
            self.wf(),
            self@.has(id),
        ensures
            same == (self@.static_key_of(id) == Some(static_key)),
    {
        match self.session(id) {
            Some(session) => session.peer_static_pubkey_with_pending() == Some(static_key),
            None => false,
        }
    }

    fn records_belong_to(&self, key: &SessionKey, static_key: Key32) -> (owned: bool)
        requires
            self.wf(),
        ensures
            owned == (self@.has_records(key@) && self@.records_owned_by(key@, static_key)),
    {
        proof {
            crate::session_store::lemma_sound_record(self@, key@);
        }
        let mut any = false;
        if let Some(entry) = self.active_of(key) {
            any = true;
            if !self.session_key_is(entry.session, static_key) {
                return false;
            }
        }
        if let Some(id) = self.pending_create_of(key) {
            any = true;
            if !self.session_key_is(id, static_key) {
                return false;
            }
        }
        if self.in_doubt_of(key).is_some() {
            any = true;
            if self.in_doubt_peer_static_pubkey(key) != Some(static_key) {
                return false;
            }
        }
        if let Some(proof_record) = self.recovery_of(key) {
            any = true;
            if !self.session_key_is(proof_record.recovery.session, static_key) {
                return false;
            }
        }
        if let Some(receipt) = self.receipt_of(key) {
            any = true;
            if !self.session_key_is(receipt.session, static_key) {
                return false;
            }
        }
        any
    }

    fn remove_records(&mut self, quotas: &mut SessionQuotas, key: &SessionKey) -> (in_doubt: Option<
        SuspendedInitiatorReservation,
    >)
        requires
            old(self).wf(),
        ensures
            final(self).wf(),
            final(self)@ == old(self)@.with_rec(key@, KeyRecord::empty_record()),
            in_doubt == old(self)@.rec(key@).in_doubt,
            *final(quotas) == record_released(*old(quotas), old(self)@.rec(key@)),
    {
        proof {
            broadcast use crate::session_store::group_sound;

        }
        if self.in_doubt_of(key).is_some() {
            quotas.release_in_doubt();
        }
        if self.recovery_of(key).is_some() {
            quotas.release_recovery();
        }
        if self.receipt_of(key).is_some() {
            quotas.release_receipt();
        }
        let in_doubt = self.replace_in_doubt(key, None);
        self.set_active(key, None);
        self.set_pending_create(key, None);
        self.set_recovery(key, None);
        self.set_receipt(key, None);
        assert(self@.rec(key@) == KeyRecord::empty_record());
        assert(self@.records =~= old(self)@.records.insert(key@, KeyRecord::empty_record()));
        assert(self@ == old(self)@.with_rec(key@, KeyRecord::empty_record()));
        in_doubt
    }

    /// Clears the durable records of a peer after its authenticated removal.
    ///
    /// The static key that was kept is required. With another key every record
    /// stays, so a peer cannot clear the recovery state of another peer.
    pub fn clear_peer_records_if_static_key_matches(
        &mut self,
        quotas: &mut SessionQuotas,
        key: &SessionKey,
        peer_static_pubkey: Key32,
    ) -> (cleared: bool)
        requires
            old(self).wf(),
        ensures
            final(self).wf(),
            cleared == (old(self)@.has_records(key@) && old(self)@.records_owned_by(
                key@,
                peer_static_pubkey,
            )),
            cleared ==> {
                &&& final(self)@ == old(self)@.cleared(key@)
                &&& *final(quotas) == record_released(*old(quotas), old(self)@.rec(key@))
            },
            !cleared ==> final(self)@ == old(self)@ && *final(quotas) == *old(quotas),
    {
        if !self.records_belong_to(key, peer_static_pubkey) {
            return false;
        }
        proof {
            crate::session_store::lemma_sound_record(self@, key@);
        }
        let pending_create = self.pending_create_of(key);
        let active = self.active_of(key);
        let in_doubt = self.remove_records(quotas, key);
        if let Some(id) = pending_create {
            self.invalidate_session(id);
        }
        if let Some(kept) = in_doubt {
            self.cancel_initiator_reservation(key, &kept.body);
        }
        if let Some(entry) = active {
            self.invalidate_session(entry.session);
        }
        true
    }

    /// No timer may give an ambiguous hidden initiator transition up: the
    /// authenticated retry or an explicit authenticated reset owns the cleanup.
    pub fn expire_in_doubt_sessions(&self) -> (expired: usize)
        ensures
            expired == 0,
    {
        0
    }

    pub fn in_doubt_reservation_count(&self) -> (count: usize)
        requires
            self.wf(),
        ensures
            self@.in_doubt_keys().finite(),
            count == self@.in_doubt_keys().len(),
    {
        let keys = self.keys();
        let mut count: usize = 0;
        let mut i: usize = 0;
        let ghost mut counted = Set::<SessionKeyModel>::empty();
        while i < keys.len()
            invariant
                self.wf(),
                i <= keys@.len(),
                count <= i,
                counted.finite(),
                counted.len() == count,
                forall|key: SessionKeyModel| #[trigger]
                    counted.contains(key) ==> self@.rec(key).in_doubt is Some && exists|k: int|
                        0 <= k < i && (#[trigger] keys@[k])@ == key,
                forall|k: int|
                    0 <= k < i && self@.rec((#[trigger] keys@[k])@).in_doubt is Some
                        ==> counted.contains(keys@[k]@),
                forall|a: int, b: int|
                    0 <= a < b < keys@.len() ==> (#[trigger] keys@[a])@ != (#[trigger] keys@[b])@,
            decreases keys@.len() - i,
        {
            if self.in_doubt_of(&keys[i]).is_some() {
                proof {
                    if counted.contains(keys@[i as int]@) {
                        let k = choose|k: int| 0 <= k < i && (#[trigger] keys@[k])@ == keys@[i as int]@;
                        assert(keys@[k]@ != keys@[i as int]@);
                    }
                    counted = counted.insert(keys@[i as int]@);
                }
                count = count + 1;
            }
            i = i + 1;
        }
        assert(counted =~= self@.in_doubt_keys());
        count
    }

    pub fn in_doubt_identity(&self, key: &SessionKey) -> (identity: Option<
        InitiatorTransitionIdentity,
    >)
        requires
            self.wf(),
        ensures
            identity is Some <==> self@.rec(key@).in_doubt is Some,
            identity matches Some(i) ==> i@ == (IdentityModel {
                key: key@,
                fields: self@.rec(key@).in_doubt->0.identity,
            }),
    {
        match self.in_doubt_of(key) {
            Some(kept) => Some(
                InitiatorTransitionIdentity::from_fields(key.duplicate(), kept.identity),
            ),
            None => None,
        }
    }

    /// The static key of the peer of one hidden transition.
    pub fn in_doubt_peer_static_pubkey(&self, key: &SessionKey) -> (static_key: Option<Key32>)
        requires
            self.wf(),
        ensures
            static_key == self@.in_doubt_static_key(key@),
    {
        proof {
            crate::session_store::lemma_sound_record(self@, key@);
        }
        match self.in_doubt_of(key) {
            Some(kept) => match kept.body.peer_static_pubkey {
                Some(known) => Some(known),
                None => match self.session(kept.body.session) {
                    Some(session) => session.peer_static_pubkey_with_pending(),
                    None => None,
                },
            },
            None => None,
        }
    }

    /// Holds one exact transition in doubt against a static key.
    ///
    /// Only the reservation and the pending key of its session are read; the
    /// recovery state stays as it is.
    pub fn check_in_doubt_recovery_peer_static_pubkey(
        &self,
        identity: &InitiatorTransitionIdentity,
        peer_static_pubkey: Option<Key32>,
    ) -> (matches: Result<bool, SessionError>)
        requires
            self.wf(),
        ensures
            matches == (match self@.in_doubt_check(identity@) {
                Err(e) => Err::<bool, SessionError>(e),
                Ok(_) => {
                    let body = self@.rec(identity@.key).in_doubt->0.body;
                    let reserved = body.peer_static_pubkey;
                    let known = self@.static_key_of(body.session);
                    if reserved is Some && known is Some && reserved != known {
                        Err(SessionError::InDoubtStaticKeyInconsistent)
                    } else {
                        let expected = self@.in_doubt_static_key(identity@.key);
                        Ok(expected is Some && expected == peer_static_pubkey)
                    }
                },
            }),
    {
        proof {
            crate::session_store::lemma_sound_record(self@, identity@.key);
        }
        match self.in_doubt_of(&identity.session_key) {
            None => Err(SessionError::NoInDoubtTransition),
            Some(kept) => {
                if !kept.identity.matches_authenticated_fields(&identity.fields()) {
                    return Err(SessionError::InDoubtIdentityMismatch);
                }
                let reserved = kept.body.peer_static_pubkey;
                let known = match self.session(kept.body.session) {
                    Some(session) => session.peer_static_pubkey_with_pending(),
                    None => None,
                };
                if reserved.is_some() && known.is_some() && reserved != known {
                    return Err(SessionError::InDoubtStaticKeyInconsistent);
                }
                let expected = if reserved.is_some() {
                    reserved
                } else {
                    known
                };
                Ok(expected.is_some() && expected == peer_static_pubkey)
            },
        }
    }

    /// Keeps an initiator session until the responder acknowledges the commit.
    pub fn record_initiator_receipt(
        &mut self,
        quotas: &mut SessionQuotas,
        identity: InitiatorTransitionIdentity,
        session: SessionId,
    ) -> (recorded: Result<(), SessionError>)
        requires
            old(self).wf(),
            old(self)@.has(session),
        ensures
            final(self).wf(),
            ({
                let existing = old(self)@.rec(identity@.key).receipt;
                let repeated = existing is Some && (existing->0).identity.authenticated_as(
                    identity@.fields,
                ) && (existing->0).session == session;
                &&& recorded == (if identity@.fields.transition_id == 0 {
                    Err::<(), SessionError>(SessionError::ReceiptWithoutTransitionId)
                } else if repeated {
                    Ok(())
                } else if existing is Some {
                    Err(SessionError::ReceiptAwaitingAcknowledgement)
                } else if old(quotas).initiator_receipts >= MAX_INITIATOR_RECEIPT_RECORDS {
                    Err(SessionError::ReceiptCapacityFull)
                } else {
                    Ok(())
                })
                &&& if recorded is Ok && existing is None {
                    &&& final(self)@ == old(self)@.with_receipt(
                        identity@.key,
                        Some(InitiatorReceiptRecord { identity: identity@.fields, session }),
                    )
                    &&& *final(quotas) == old(quotas).with_receipt()
                } else {
                    final(self)@ == old(self)@ && *final(quotas) == *old(quotas)
                }
            }),
    {
        proof {
            crate::session_store::lemma_sound_record(self@, identity@.key);
            broadcast use crate::session_store::group_sound;

        }
        let fields = identity.fields();
        if fields.transition_id == 0 {
            return Err(SessionError::ReceiptWithoutTransitionId);
        }
        if let Some(existing) = self.receipt_of(&identity.session_key) {
            if existing.identity.matches_authenticated_fields(&fields) && existing.session
                == session {
                return Ok(());
            }
            return Err(SessionError::ReceiptAwaitingAcknowledgement);
        }
        if quotas.initiator_receipts >= MAX_INITIATOR_RECEIPT_RECORDS {
            return Err(SessionError::ReceiptCapacityFull);
        }
        quotas.initiator_receipts = quotas.initiator_receipts + 1;
        self.set_receipt(
            &identity.session_key,
            Some(InitiatorReceiptRecord { identity: fields, session }),
        );
        Ok(())
    }

    pub fn initiator_receipt_id(&self, key: &SessionKey) -> (id: Option<u128>)
        requires
            self.wf(),
        ensures
            id == (match self@.rec(key@).receipt {
                Some(receipt) => Some(receipt.identity.transition_id),
                None => None,
            }),
    {
        match self.receipt_of(key) {
            Some(receipt) => Some(receipt.identity.transition_id),
            None => None,
        }
    }

    /// The exact identity that pins an initiator session.
    ///
    /// Callers use it where an acknowledgement must match the authenticated
    /// transition fields, not only the transition token.
    pub fn initiator_receipt_identity(&self, key: &SessionKey) -> (identity: Option<
        InitiatorTransitionIdentity,
    >)
        requires
            self.wf(),
        ensures
            identity is Some <==> self@.rec(key@).receipt is Some,
            identity matches Some(i) ==> i@ == (IdentityModel {
                key: key@,
                fields: (self@.rec(key@).receipt->0).identity,
            }),
    {
        match self.receipt_of(key) {
            Some(receipt) => Some(
                InitiatorTransitionIdentity::from_fields(key.duplicate(), receipt.identity),
            ),
            None => None,
        }
    }

    fn drop_receipt(&mut self, quotas: &mut SessionQuotas, key: &SessionKey)
        requires
            old(self).wf(),
        ensures
            final(self).wf(),
            final(self)@ == old(self)@.with_receipt(key@, None),
            *final(quotas) == old(quotas).without_receipt(),
    {
        proof {
            crate::session_store::lemma_sound_record(self@, key@);
            broadcast use crate::session_store::group_sound;

        }
        self.set_receipt(key, None);
        quotas.release_receipt();
    }

    /// Removes a receipt by its token.
    pub fn acknowledge_initiator_receipt(
        &mut self,
        quotas: &mut SessionQuotas,
        key: &SessionKey,
        transition_id: u128,
    ) -> (acknowledged: bool)
        requires
            old(self).wf(),
        ensures
            final(self).wf(),
            acknowledged == (old(self)@.rec(key@).receipt is Some && (old(self)@.rec(
                key@,
            ).receipt->0).identity.transition_id == transition_id),
            acknowledged ==> final(self)@ == old(self)@.with_receipt(key@, None) && *final(quotas)
                == old(quotas).without_receipt(),
            !acknowledged ==> final(self)@ == old(self)@ && *final(quotas) == *old(quotas),
    {
        match self.receipt_of(key) {
            Some(receipt) => {
                if receipt.identity.transition_id != transition_id {
                    return false;
                }
                self.drop_receipt(quotas, key);
                true
            },
            None => false,
        }
    }

    /// Removes a receipt by its exact identity.
    pub fn acknowledge_initiator_receipt_exact(
        &mut self,
        quotas: &mut SessionQuotas,
        identity: &InitiatorTransitionIdentity,
    ) -> (acknowledged: bool)
        requires
            old(self).wf(),
        ensures
            final(self).wf(),
            acknowledged == (old(self)@.rec(identity@.key).receipt is Some && (old(self)@.rec(
                identity@.key,
            ).receipt->0).identity.authenticated_as(identity@.fields)),
            acknowledged ==> final(self)@ == old(self)@.with_receipt(identity@.key, None)
                && *final(quotas) == old(quotas).without_receipt(),
            !acknowledged ==> final(self)@ == old(self)@ && *final(quotas) == *old(quotas),
    {
        match self.receipt_of(&identity.session_key) {
            Some(receipt) => {
                if !receipt.identity.matches_authenticated_fields(&identity.fields()) {
                    return false;
                }
                self.drop_receipt(quotas, &identity.session_key);
                true
            },
            None => false,
        }
    }

    /// The token of the latest transition of the published session.
    pub fn active_transition_id(&self, key: &SessionKey) -> (id: Option<u128>)
        requires
            self.wf(),
        ensures
            id == (match self@.rec(key@).active {
                Some(entry) => {
                    let history = self@.sess(entry.session).committed_history;
                    if history.len() > 0 {
                        Some(history.last().transition_id)
                    } else {
                        None
                    }
                },
                None => None,
            }),
    {
        proof {
            crate::session_store::lemma_sound_record(self@, key@);
        }
        match self.active_of(key) {
            Some(entry) => match self.session(entry.session) {
                Some(session) => match session.last_committed_transition() {
                    Some(transition) => Some(transition.transition_id),
                    None => None,
                },
                None => None,
            },
            None => None,
        }
    }

    /// Whether the published session remembers the identified transition.
    pub fn active_transition_matches(&self, identity: &InitiatorTransitionIdentity) -> (matches:
        bool)
        requires
            self.wf(),
        ensures
            matches == (self@.rec(identity@.key).active is Some && self@.sess(
                (self@.rec(identity@.key).active->0).session,
            ).committed_as(identity@.fields) is Some),
    {
        proof {
            crate::session_store::lemma_sound_record(self@, identity@.key);
        }
        match self.active_of(&identity.session_key) {
            Some(entry) => match self.session(entry.session) {
                Some(session) => session.committed_transition(&identity.fields()).is_some(),
                None => false,
            },
            None => false,
        }
    }

    /// Prepares a transition and makes it active at once.
    pub fn apply_initiator_action(
        &mut self,
        quotas: &mut SessionQuotas,
        key: &SessionKey,
        action: PeerSessionAction,
        b_session_generation: u32,
        root_key_32: Option<Key32>,
        initial_epoch: u32,
        send_algorithm: String,
        recv_algorithm: String,
        peer_static_pubkey: Option<Key32>,
        now_ms: u64,
    ) -> (applied: Result<SessionId, SessionError>)
        requires
            old(self).wf(),
        ensures
            final(self).wf(),
            *final(quotas) == *old(quotas),
            ({
                ||| exists|metadata_id: u128, transition_id: u128|
                    {
                        &&& transition_id != 0
                        &&& crate::outside::is_v4_identifier(metadata_id)
                        &&& #[trigger] applied_at_once(
                            old(self)@,
                            *old(quotas),
                            key@,
                            InitiatorAsk::made_of(
                                action,
                                b_session_generation,
                                root_key_32,
                                initial_epoch,
                                send_algorithm,
                                recv_algorithm,
                                peer_static_pubkey,
                                transition_id,
                            ),
                            metadata_id,
                            now_ms,
                            applied,
                            final(self)@,
                        )
                    }
                ||| {
                    &&& applied == Err::<SessionId, SessionError>(SessionError::RandomUnavailable)
                    &&& final(self)@ == old(self)@
                    &&& !old(self)@.initiator_refuses(
                        *old(quotas),
                        key@,
                        InitiatorAsk::made_of(
                            action,
                            b_session_generation,
                            root_key_32,
                            initial_epoch,
                            send_algorithm,
                            recv_algorithm,
                            peer_static_pubkey,
                            0,
                        ),
                    )
                }
            }),
    {
        let prepared = self.prepare_initiator_action(
            quotas,
            key,
            action,
            b_session_generation,
            root_key_32,
            initial_epoch,
            send_algorithm,
            recv_algorithm,
            peer_static_pubkey,
            now_ms,
        );
        let ghost reserved = self@;
        let ghost taken = *quotas;
        let applied = match prepared {
            Ok(mut reservation) => {
                proof {
                    crate::session_store::lemma_sound_record(old(self)@, key@);
                }
                assert(reservation.held_in(self@));
                reservation.commit(self, quotas, now_ms)
            },
            Err(e) => Err(e),
        };
        proof {
            if exists|metadata_id: u128, transition_id: u128|
                transition_id != 0 && crate::outside::is_v4_identifier(metadata_id)
                    && #[trigger] crate::initiator_store::initiator_reserved(
                    old(self)@,
                    *old(quotas),
                    reserved,
                    taken,
                    key@,
                    InitiatorAsk::made_of(
                        action,
                        b_session_generation,
                        root_key_32,
                        initial_epoch,
                        send_algorithm,
                        recv_algorithm,
                        peer_static_pubkey,
                        transition_id,
                    ),
                    metadata_id,
                    now_ms,
                    prepared,
                ) {
                let (metadata_id, transition_id) = choose|metadata_id: u128, transition_id: u128|
                    transition_id != 0 && crate::outside::is_v4_identifier(metadata_id)
                    && #[trigger] crate::initiator_store::initiator_reserved(
                        old(self)@,
                        *old(quotas),
                        reserved,
                        taken,
                        key@,
                        InitiatorAsk::made_of(
                        action,
                        b_session_generation,
                        root_key_32,
                        initial_epoch,
                        send_algorithm,
                        recv_algorithm,
                        peer_static_pubkey,
                        transition_id,
                    ),
                        metadata_id,
                        now_ms,
                        prepared,
                    );
                assert(applied_at_once(
                    old(self)@,
                    *old(quotas),
                    key@,
                    InitiatorAsk::made_of(
                        action,
                        b_session_generation,
                        root_key_32,
                        initial_epoch,
                        send_algorithm,
                        recv_algorithm,
                        peer_static_pubkey,
                        transition_id,
                    ),
                    metadata_id,
                    now_ms,
                    applied,
                    self@,
                ));
            }
        }
        applied
    }
}

/// What applying a transition at once gives and changes.
pub open spec fn applied_at_once(
    store: StoreModel,
    quotas: SessionQuotas,
    key: SessionKeyModel,
    ask: InitiatorAsk,
    metadata_id: u128,
    now_ms: u64,
    result: Result<SessionId, SessionError>,
    store_after: StoreModel,
) -> bool {
    let (prepared, body) = store.initiator_prepared(quotas, key, ask, metadata_id, now_ms);
    match body {
        Err(e) => result == Err::<SessionId, SessionError>(e) && store_after == prepared,
        Ok(body) => match prepared.commit_check(key, body) {
            Ok(_) => result == Ok::<SessionId, SessionError>(body.session) && store_after
                == prepared.reservation_committed(key, body, now_ms),
            Err(e) => result == Err::<SessionId, SessionError>(e) && store_after
                == prepared.reservation_canceled(key, body),
        },
    }
}

} // verus!
