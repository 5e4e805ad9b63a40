//! Session transitions of the initiator: prepared out of sight, then committed,
//! canceled, or kept until the peer tells how they ended.

use vstd::prelude::*;
use crate::bytes::Key32;
use crate::outside::{new_transition_id, new_uuid};
use crate::peer_session::{CommittedTransition, PeerSession, PeerSessionModel};
use crate::session_store::{
    KeyRecord, PeerSessionEntry, PeerSessionStore, ReservationBody, SessionId, SessionQuotas,
    StoreModel, MAX_IN_DOUBT_RESERVATIONS,
};
use crate::session_types::{PeerSessionAction, SessionError, SessionKey, SessionKeyModel};

verus! {

/// What an initiator asks for.
pub struct InitiatorAsk {
    pub action: PeerSessionAction,
    pub session_generation: u32,
    pub root_key: Option<Key32>,
    pub initial_epoch: u32,
    pub send_algorithm: String,
    pub recv_algorithm: String,
    pub peer_static_pubkey: Option<Key32>,
    pub transition_id: u128,
}

impl InitiatorAsk {
    pub open spec fn made_of(
        action: PeerSessionAction,
        session_generation: u32,
        root_key: Option<Key32>,
        initial_epoch: u32,
        send_algorithm: String,
        recv_algorithm: String,
        peer_static_pubkey: Option<Key32>,
        transition_id: u128,
    ) -> InitiatorAsk {
        InitiatorAsk {
            action,
            session_generation,
            root_key,
            initial_epoch,
            send_algorithm,
            recv_algorithm,
            peer_static_pubkey,
            transition_id,
        }
    }

    /// The reservation of the asked transition on a session.
    pub open spec fn body(self, session: SessionId, root_key: Key32, revision: u64) -> ReservationBody {
        ReservationBody {
            session,
            action: self.action,
            session_generation: self.session_generation,
            root_key,
            initial_epoch: self.initial_epoch,
            transition_revision: revision,
            transition_id: self.transition_id,
            send_algorithm: self.send_algorithm,
            recv_algorithm: self.recv_algorithm,
            peer_static_pubkey: self.peer_static_pubkey,
        }
    }

    fn into_body(self, session: SessionId, root_key: Key32, revision: u64) -> (body: ReservationBody)
        ensures
            body == self.body(session, root_key, revision),
    {
        ReservationBody {
            session,
            action: self.action,
            session_generation: self.session_generation,
            root_key,
            initial_epoch: self.initial_epoch,
            transition_revision: revision,
            transition_id: self.transition_id,
            send_algorithm: self.send_algorithm,
            recv_algorithm: self.recv_algorithm,
            peer_static_pubkey: self.peer_static_pubkey,
        }
    }
}

/// Where a reservation stands.
#[derive(Clone, Copy, Debug, PartialEq, Eq, Structural)]
pub enum ReservationState {
    Pending,
    Committed,
    Canceled,
}

/// An initiator session transition that is not visible in the session store.
///
/// Create transitions reserve a new session entry. Sync transitions reserve an
/// epoch on the existing session, but do not change its traffic keys until
/// commit. Join transitions validate the current session and hold its handle.
///
/// A reservation that is given up has to be canceled: it holds a permit.
pub struct InitiatorSessionReservation {
    pub key: SessionKey,
    pub body: ReservationBody,
    /// Whether the reservation holds a permit for an in-doubt record.
    pub permit: bool,
    pub state: ReservationState,
}

impl StoreModel {
    /// What keeps an initiator from starting a transition of a key.
    pub open spec fn initiator_blocked(self, quotas: SessionQuotas, key: SessionKeyModel) -> Option<
        SessionError,
    > {
        if self.rec(key).in_doubt is Some {
            Some(SessionError::TransitionAwaitingRecovery)
        } else if self.rec(key).recovery is Some {
            Some(SessionError::ProofAwaitingRecovery)
        } else if quotas.in_doubt >= MAX_IN_DOUBT_RESERVATIONS {
            Some(SessionError::InDoubtCapacityFull)
        } else {
            None
        }
    }

    /// Joining the published session: nothing changes.
    pub open spec fn joined(self, key: SessionKeyModel, ask: InitiatorAsk) -> Result<
        ReservationBody,
        SessionError,
    > {
        match self.published(key) {
            None => Err(SessionError::NoLocalSession),
            Some(id) => {
                let session = self.sess(id);
                match session.algorithm_check(ask.send_algorithm@, ask.recv_algorithm@) {
                    Err(e) => Err(e),
                    Ok(_) => match session.static_key_check(ask.peer_static_pubkey) {
                        Err(e) => Err(e),
                        Ok(_) => if session.datagram.session_generation != ask.session_generation {
                            Err(SessionError::GenerationMismatch)
                        } else {
                            Ok(ask.body(id, session.datagram.root_key, session.revision))
                        },
                    },
                }
            },
        }
    }

    /// Reserving a synchronization of the published session. A reservation that
    /// is taken back leaves a newer revision behind.
    pub open spec fn sync_asked(self, key: SessionKeyModel, ask: InitiatorAsk) -> (
        StoreModel,
        Result<ReservationBody, SessionError>,
    ) {
        if self.rec(key).pending_create is Some {
            (self, Err(SessionError::CreationPending))
        } else {
            match self.published(key) {
                None => (self, Err(SessionError::NoLocalSession)),
                Some(id) => {
                    let session = self.sess(id);
                    match session.algorithm_check(ask.send_algorithm@, ask.recv_algorithm@) {
                        Err(e) => (self, Err(e)),
                        Ok(_) => match session.static_key_check(ask.peer_static_pubkey) {
                            Err(e) => (self, Err(e)),
                            Ok(_) => match ask.root_key {
                                None => (self, Err(SessionError::MissingRootKey)),
                                Some(root_key) => self.sync_staged(id, root_key, ask),
                            },
                        },
                    }
                },
            }
        }
    }

    /// The part of [`Self::sync_asked`] that changes the session.
    pub open spec fn sync_staged(self, id: SessionId, root_key: Key32, ask: InitiatorAsk) -> (
        StoreModel,
        Result<ReservationBody, SessionError>,
    ) {
        let session = self.sess(id);
        match session.sync_epoch(Some(ask.initial_epoch)) {
            Err(e) => (self, Err(e)),
            Ok(epoch) => {
                let reserved = session.with_sync_reserved(epoch);
                match reserved.static_key_reserve_check(ask.peer_static_pubkey) {
                    Err(e) => (
                        self.with_sess(id, reserved.with_sync_canceled(reserved.revision, epoch)),
                        Err(e),
                    ),
                    Ok(_) => {
                        let keyed = reserved.with_static_key_reserved(ask.peer_static_pubkey);
                        if session.datagram.session_generation != ask.session_generation {
                            let canceled = keyed.with_sync_canceled(keyed.revision, epoch);
                            (
                                self.with_sess(
                                    id,
                                    PeerSessionModel {
                                        pending_peer_static_pubkey: None,
                                        ..canceled
                                    },
                                ),
                                Err(SessionError::GenerationMismatch),
                            )
                        } else {
                            (
                                self.with_sess(id, keyed),
                                Ok(ask.body(id, root_key, keyed.revision)),
                            )
                        }
                    },
                }
            },
        }
    }

    /// Claiming the creation of a session.
    pub open spec fn create_asked(
        self,
        key: SessionKeyModel,
        ask: InitiatorAsk,
        metadata_id: u128,
        now_ms: u64,
    ) -> (StoreModel, Result<ReservationBody, SessionError>) {
        if self.rec(key).pending_create is Some {
            (self, Err(SessionError::CreationPending))
        } else if self.published(key) is Some {
            (self, Err(SessionError::SessionExists))
        } else {
            match ask.root_key {
                None => (self, Err(SessionError::MissingRootKey)),
                Some(root_key) => if self.next_session == u64::MAX {
                    (self, Err(SessionError::SessionIdsExhausted))
                } else {
                    let fresh = PeerSessionModel::fresh(
                        key.peer_id,
                        metadata_id,
                        root_key,
                        ask.session_generation,
                        ask.initial_epoch,
                        ask.send_algorithm@,
                        ask.recv_algorithm@,
                        ask.peer_static_pubkey,
                        now_ms,
                    );
                    let made = self.with_new(PeerSessionModel { revision: 1, ..fresh });
                    (
                        made.with_pending(key, Some(self.next_session)),
                        Ok(ask.body(self.next_session, root_key, 1)),
                    )
                },
            }
        }
    }

    /// Preparing an initiator transition: what the store becomes, and the
    /// reservation or the refusal.
    pub open spec fn initiator_prepared(
        self,
        quotas: SessionQuotas,
        key: SessionKeyModel,
        ask: InitiatorAsk,
        metadata_id: u128,
        now_ms: u64,
    ) -> (StoreModel, Result<ReservationBody, SessionError>) {
        match self.initiator_blocked(quotas, key) {
            Some(e) => (self, Err(e)),
            None => match ask.action {
                PeerSessionAction::Join => (self, self.joined(key, ask)),
                PeerSessionAction::Sync => self.sync_asked(key, ask),
                PeerSessionAction::Create => self.create_asked(key, ask, metadata_id, now_ms),
            },
        }
    }

    /// Whether an initiator transition is refused. Neither the metadata
    /// identifier nor the time matters for that.
    pub open spec fn initiator_refuses(
        self,
        quotas: SessionQuotas,
        key: SessionKeyModel,
        ask: InitiatorAsk,
    ) -> bool {
        self.initiator_prepared(quotas, key, ask, 0, 0).1 is Err
    }
}

impl PeerSessionStore {
    fn prepare_join(&self, key: &SessionKey, ask: InitiatorAsk) -> (body: Result<
        ReservationBody,
        SessionError,
    >)
        requires
            self.wf(),
            ask.action == PeerSessionAction::Join,
        ensures
            body == self@.joined(key@, ask),
    {
        proof {
            crate::session_store::lemma_sound_record(self@, key@);
        }
        let id: SessionId = match self.peek(key) {
            Some(id) => id,
            None => {
                return Err(SessionError::NoLocalSession);
            },
        };
        let session = match self.session(id) {
            Some(session) => session,
            None => {
                return Err(SessionError::NoLocalSession);
            },
        };
        if let Err(e) = session.check_encrypt_algo_same(&ask.send_algorithm, &ask.recv_algorithm) {
            return Err(e);
        }
        if let Err(e) = session.check_peer_static_pubkey(ask.peer_static_pubkey) {
            return Err(e);
        }
        if session.session_generation() != ask.session_generation {
            return Err(SessionError::GenerationMismatch);
        }
        let root_key = session.root_key();
        let revision: u64 = session.transition_revision();
        Ok(ask.into_body(id, root_key, revision))
    }

    fn stage_sync(&mut self, id: SessionId, root_key: Key32, ask: InitiatorAsk) -> (body: Result<
        ReservationBody,
        SessionError,
    >)
        requires
            old(self).wf(),
            old(self)@.has(id),
        ensures
            final(self).wf(),
            (final(self)@, body) == old(self)@.sync_staged(id, root_key, ask),
    {
        proof {
            broadcast use crate::session_store::group_sound;

        }
        let mut session = self.take_session(id);
        let ghost before = session@;
        let outcome = match session.prepare_sync_transition_at(Some(ask.initial_epoch)) {
            Err(e) => Err(e),
            Ok((generation, _root, epoch, revision)) => {
                match session.reserve_peer_static_pubkey(ask.peer_static_pubkey) {
                    Err(e) => {
                        session.cancel_reserved_sync(revision, epoch);
                        Err(e)
                    },
                    Ok(()) => {
                        if generation != ask.session_generation {
                            session.cancel_reserved_sync(revision, epoch);
                            session.cancel_reserved_peer_static_pubkey();
                            Err(SessionError::GenerationMismatch)
                        } else {
                            Ok(ask.into_body(id, root_key, revision))
                        }
                    },
                }
            },
        };
        proof {
            crate::session_store::lemma_taken_and_put(old(self)@, id, session@);
            assert(old(self)@.with_sess(id, before).sessions =~= old(self)@.sessions);
        }
        self.put_session(id, session);
        outcome
    }

    fn prepare_sync(&mut self, key: &SessionKey, ask: InitiatorAsk) -> (body: Result<
        ReservationBody,
        SessionError,
    >)
        requires
            old(self).wf(),
        ensures
            final(self).wf(),
            (final(self)@, body) == old(self)@.sync_asked(key@, ask),
    {
        proof {
            crate::session_store::lemma_sound_record(self@, key@);
        }
        if self.pending_create_of(key).is_some() {
            return Err(SessionError::CreationPending);
        }
        let id: SessionId = match self.peek(key) {
            Some(id) => id,
            None => {
                return Err(SessionError::NoLocalSession);
            },
        };
        match self.session(id) {
            Some(session) => {
                if let Err(e) = session.check_encrypt_algo_same(
                    &ask.send_algorithm,
                    &ask.recv_algorithm,
                ) {
                    return Err(e);
                }
                if let Err(e) = session.check_peer_static_pubkey(ask.peer_static_pubkey) {
                    return Err(e);
                }
            },
            None => {
                return Err(SessionError::NoLocalSession);
            },
        }
        match ask.root_key {
            Some(root_key) => self.stage_sync(id, root_key, ask),
            None => Err(SessionError::MissingRootKey),
        }
    }

    fn prepare_create(
        &mut self,
        key: &SessionKey,
        ask: InitiatorAsk,
        metadata_id: u128,
        now_ms: u64,
    ) -> (body: Result<ReservationBody, SessionError>)
        requires
            old(self).wf(),
        ensures
            final(self).wf(),
            (final(self)@, body) == old(self)@.create_asked(key@, ask, metadata_id, now_ms),
    {
        proof {
            crate::session_store::lemma_sound_record(self@, key@);
            broadcast use crate::session_store::group_sound;

        }
        if self.pending_create_of(key).is_some() {
            return Err(SessionError::CreationPending);
        }
        if self.peek(key).is_some() {
            return Err(SessionError::SessionExists);
        }
        let root_key = match ask.root_key {
            Some(root_key) => root_key,
            None => {
                return Err(SessionError::MissingRootKey);
            },
        };
        let mut session = PeerSession::with_metadata_id(
            key.peer_id,
            metadata_id,
            root_key,
            ask.session_generation,
            ask.initial_epoch,
            ask.send_algorithm.clone(),
            ask.recv_algorithm.clone(),
            ask.peer_static_pubkey,
            now_ms,
        );
        session.initialize_transition_revision(1);
        match self.add_session(session) {
            Some(id) => {
                self.set_pending_create(key, Some(id));
                Ok(ask.into_body(id, root_key, 1))
            },
            None => Err(SessionError::SessionIdsExhausted),
        }
    }

    /// Prepares an initiator transition under a given metadata identifier for a
    /// session that has to be made.
    pub fn prepare_initiator(
        &mut self,
        quotas: &mut SessionQuotas,
        key: &SessionKey,
        ask: InitiatorAsk,
        metadata_id: u128,
        now_ms: u64,
    ) -> (reservation: Result<InitiatorSessionReservation, SessionError>)
        requires
            old(self).wf(),
        ensures
            final(self).wf(),
            initiator_reserved(
                old(self)@,
                *old(quotas),
                final(self)@,
                *final(quotas),
                key@,
                ask,
                metadata_id,
                now_ms,
                reservation,
            ),
    {
        if self.in_doubt_of(key).is_some() {
            return Err(SessionError::TransitionAwaitingRecovery);
        }
        if self.recovery_of(key).is_some() {
            return Err(SessionError::ProofAwaitingRecovery);
        }
        if quotas.in_doubt >= MAX_IN_DOUBT_RESERVATIONS {
            return Err(SessionError::InDoubtCapacityFull);
        }
        let body = match ask.action {
            PeerSessionAction::Join => self.prepare_join(key, ask),
            PeerSessionAction::Sync => self.prepare_sync(key, ask),
            PeerSessionAction::Create => self.prepare_create(key, ask, metadata_id, now_ms),
        };
        match body {
            Ok(body) => {
                // The slot is taken before any message can make the responder
                // commit this transition.
                quotas.in_doubt = quotas.in_doubt + 1;
                Ok(
                    InitiatorSessionReservation {
                        key: key.duplicate(),
                        body,
                        permit: true,
                        state: ReservationState::Pending,
                    },
                )
            },
            Err(e) => Err(e),
        }
    }

    fn refuses_sync(&self, id: SessionId, ask: &InitiatorAsk) -> (refuses: bool)
        requires
            self.wf(),
            self@.has(id),
        ensures
            refuses == {
                let session = self@.sess(id);
                ||| session.algorithm_check(ask.send_algorithm@, ask.recv_algorithm@) is Err
                ||| session.static_key_check(ask.peer_static_pubkey) is Err
                ||| ask.root_key is None
                ||| session.sync_epoch(Some(ask.initial_epoch)) is Err
                ||| session.static_key_reserve_check(ask.peer_static_pubkey) is Err
                ||| session.datagram.session_generation != ask.session_generation
            },
    {
        match self.session(id) {
            Some(session) => session.check_encrypt_algo_same(
                &ask.send_algorithm,
                &ask.recv_algorithm,
            ).is_err() || session.check_peer_static_pubkey(ask.peer_static_pubkey).is_err()
                || ask.root_key.is_none() || !session.sync_is_free(Some(ask.initial_epoch))
                || !session.static_key_is_free(ask.peer_static_pubkey)
                || session.session_generation() != ask.session_generation,
            None => true,
        }
    }

    /// Whether an initiator transition is refused. Nothing changes.
    fn refuses_initiator(&self, quotas: &SessionQuotas, key: &SessionKey, ask: &InitiatorAsk) -> (refuses:
        bool)
        requires
            self.wf(),
        ensures
            refuses == self@.initiator_refuses(*quotas, key@, *ask),
    {
        proof {
            crate::session_store::lemma_sound_record(self@, key@);
        }
        if self.in_doubt_of(key).is_some() || self.recovery_of(key).is_some() || quotas.in_doubt
            >= MAX_IN_DOUBT_RESERVATIONS {
            return true;
        }
        match ask.action {
            PeerSessionAction::Join => match self.peek(key) {
                Some(id) => match self.session(id) {
                    Some(session) => session.check_encrypt_algo_same(
                        &ask.send_algorithm,
                        &ask.recv_algorithm,
                    ).is_err() || session.check_peer_static_pubkey(
                        ask.peer_static_pubkey,
                    ).is_err() || session.session_generation() != ask.session_generation,
                    None => true,
                },
                None => true,
            },
            PeerSessionAction::Sync => self.pending_create_of(key).is_some() || match self.peek(
                key,
            ) {
                Some(id) => self.refuses_sync(id, ask),
                None => true,
            },
            PeerSessionAction::Create => self.pending_create_of(key).is_some() || self.peek(
                key,
            ).is_some() || ask.root_key.is_none() || !self.has_room(),
        }
    }

    /// Prepares an initiator transition bound to the responder's token, without
    /// publishing anything or changing traffic keys. Only a session that has to
    /// be made needs random bytes.
    pub fn prepare_initiator_action_with_transition_id(
        &mut self,
        quotas: &mut SessionQuotas,
        key: &SessionKey,
        action: PeerSessionAction,
        b_session_generation: u32,
        root_key_32: Option<Key32>,
        initial_epoch: u32,
        send_algorithm: String,
        recv_algorithm: String,
        peer_static_pubkey: Option<Key32>,
        transition_id: u128,
        now_ms: u64,
    ) -> (reservation: Result<InitiatorSessionReservation, SessionError>)
        requires
            old(self).wf(),
        ensures
            final(self).wf(),
            freshly_reserved(
                old(self)@,
                *old(quotas),
                final(self)@,
                *final(quotas),
                key@,
                InitiatorAsk::made_of(
                    action,
                    b_session_generation,
                    root_key_32,
                    initial_epoch,
                    send_algorithm,
                    recv_algorithm,
                    peer_static_pubkey,
                    transition_id,
                ),
                now_ms,
                reservation,
            ),
    {
        let ask = InitiatorAsk {
            action,
            session_generation: b_session_generation,
            root_key: root_key_32,
            initial_epoch,
            send_algorithm,
            recv_algorithm,
            peer_static_pubkey,
            transition_id,
        };
        let ghost asked = ask;
        let drawn = match ask.action {
            PeerSessionAction::Create => new_uuid(),
            _ => None,
        };
        let metadata_id: u128 = match drawn {
            Some(id) => id,
            None => {
                if ask.action == PeerSessionAction::Create && !self.refuses_initiator(
                    quotas,
                    key,
                    &ask,
                ) {
                    return Err(SessionError::RandomUnavailable);
                }
                0
            },
        };
        let reservation = self.prepare_initiator(quotas, key, ask, metadata_id, now_ms);
        proof {
            let witness = if drawn is Some {
                metadata_id
            } else {
                crate::outside::v4_identifier(0)
            };
            assert(crate::outside::is_v4_identifier(witness));
            assert(initiator_reserved(
                old(self)@,
                *old(quotas),
                self@,
                *quotas,
                key@,
                asked,
                witness,
                now_ms,
                reservation,
            ));
        }
        reservation
    }

    /// Prepares an initiator transition under a token of its own.
    pub fn prepare_initiator_action(
        &mut self,
        quotas: &mut SessionQuotas,
        key: &SessionKey,
        action: PeerSessionAction,
        b_session_generation: u32,
        root_key_32: Option<Key32>,
        initial_epoch: u32,
        send_algorithm: String,
        recv_algorithm: String,
        peer_static_pubkey: Option<Key32>,
        now_ms: u64,
    ) -> (reservation: Result<InitiatorSessionReservation, SessionError>)
        requires
            old(self).wf(),
        ensures
            final(self).wf(),
            ({
                ||| exists|metadata_id: u128, transition_id: u128|
                    {
                        &&& transition_id != 0
                        &&& crate::outside::is_v4_identifier(metadata_id)
                        &&& #[trigger] initiator_reserved(
                            old(self)@,
                            *old(quotas),
                            final(self)@,
                            *final(quotas),
                            key@,
                            InitiatorAsk::made_of(
                                action,
                                b_session_generation,
                                root_key_32,
                                initial_epoch,
                                send_algorithm,
                                recv_algorithm,
                                peer_static_pubkey,
                                transition_id,
                            ),
                            metadata_id,
                            now_ms,
                            reservation,
                        )
                    }
                ||| {
                    &&& final(self)@ == old(self)@
                    &&& *final(quotas) == *old(quotas)
                    &&& reservation == Err::<InitiatorSessionReservation, SessionError>(
                        SessionError::RandomUnavailable,
                    )
                    &&& !old(self)@.initiator_refuses(
                        *old(quotas),
                        key@,
                        InitiatorAsk::made_of(
                            action,
                            b_session_generation,
                            root_key_32,
                            initial_epoch,
                            send_algorithm,
                            recv_algorithm,
                            peer_static_pubkey,
                            0,
                        ),
                    )
                }
            }),
    {
        let transition_id: u128 = match new_transition_id() {
            Some(id) => id,
            None => {
                let ask = InitiatorAsk {
                    action,
                    session_generation: b_session_generation,
                    root_key: root_key_32,
                    initial_epoch,
                    send_algorithm: send_algorithm.clone(),
                    recv_algorithm: recv_algorithm.clone(),
                    peer_static_pubkey,
                    transition_id: 0,
                };
                if !self.refuses_initiator(quotas, key, &ask) {
                    return Err(SessionError::RandomUnavailable);
                }
                // The refusal does not depend on the token.
                1
            },
        };
        self.prepare_initiator_action_with_transition_id(
            quotas,
            key,
            action,
            b_session_generation,
            root_key_32,
            initial_epoch,
            send_algorithm,
            recv_algorithm,
            peer_static_pubkey,
            transition_id,
            now_ms,
        )
    }
}

/// What preparing an initiator transition gives and changes, where a session
/// that is made gets a fresh metadata identifier. The system may have no random
/// bytes for one; that matters only to a creation that nothing else refuses.
pub open spec fn freshly_reserved(
    before: StoreModel,
    quotas_before: SessionQuotas,
    after: StoreModel,
    quotas_after: SessionQuotas,
    key: SessionKeyModel,
    ask: InitiatorAsk,
    now_ms: u64,
    reservation: Result<InitiatorSessionReservation, SessionError>,
) -> bool {
    ||| exists|metadata_id: u128|
        {
            &&& crate::outside::is_v4_identifier(metadata_id)
            &&& #[trigger] initiator_reserved(
                before,
                quotas_before,
                after,
                quotas_after,
                key,
                ask,
                metadata_id,
                now_ms,
                reservation,
            )
        }
    ||| {
        &&& after == before
        &&& quotas_after == quotas_before
        &&& reservation == Err::<InitiatorSessionReservation, SessionError>(
            SessionError::RandomUnavailable,
        )
        &&& ask.action == PeerSessionAction::Create
        &&& !before.initiator_refuses(quotas_before, key, ask)
    }
}

/// What preparing an initiator transition gives and changes.
pub open spec fn initiator_reserved(
    before: StoreModel,
    quotas_before: SessionQuotas,
    after: StoreModel,
    quotas_after: SessionQuotas,
    key: SessionKeyModel,
    ask: InitiatorAsk,
    metadata_id: u128,
    now_ms: u64,
    reservation: Result<InitiatorSessionReservation, SessionError>,
) -> bool {
    let (store, body) = before.initiator_prepared(quotas_before, key, ask, metadata_id, now_ms);
    &&& after == store
    &&& match body {
        Ok(body) => {
            &&& quotas_after == quotas_before.with_in_doubt()
            &&& reservation matches Ok(r) && r.key@ == key && r.body == body && r.permit && r.state
                == ReservationState::Pending
        },
        Err(e) => quotas_after == quotas_before && reservation == Err::<
            InitiatorSessionReservation,
            SessionError,
        >(e),
    }
}

/// The quotas after a reservation gave its permit back.
pub open spec fn permit_released(quotas: SessionQuotas, permit: bool) -> SessionQuotas {
    if permit {
        quotas.without_in_doubt()
    } else {
        quotas
    }
}

impl StoreModel {
    /// The store after a reservation was given up.
    pub open spec fn reservation_canceled(self, key: SessionKeyModel, body: ReservationBody) -> StoreModel {
        match body.action {
            PeerSessionAction::Create => if self.rec(key).pending_create == Some(body.session) {
                self.with_pending(key, None)
            } else {
                self
            },
            PeerSessionAction::Sync => self.with_sess(
                body.session,
                self.sess(body.session).with_sync_canceled(
                    body.transition_revision,
                    body.initial_epoch,
                ),
            ),
            PeerSessionAction::Join => self,
        }
    }

    /// Whether a reservation can still become active, or why not.
    pub open spec fn commit_check(self, key: SessionKeyModel, body: ReservationBody) -> Result<
        (),
        SessionError,
    > {
        let record = self.rec(key);
        let session = self.sess(body.session);
        match body.action {
            PeerSessionAction::Create => if record.pending_create != Some(body.session) {
                Err(SessionError::CreationClaimChanged)
            } else if !session.valid() || session.revision != body.transition_revision {
                Err(SessionError::SessionChanged)
            } else if self.published(key) is Some {
                Err(SessionError::SessionChanged)
            } else {
                Ok(())
            },
            PeerSessionAction::Sync => match record.active {
                None => Err(SessionError::SessionDisappeared),
                Some(entry) => if entry.session != body.session {
                    Err(SessionError::SessionChanged)
                } else {
                    session.sync_commit_check(body.transition_revision, body.initial_epoch)
                },
            },
            PeerSessionAction::Join => match record.active {
                None => Err(SessionError::SessionDisappeared),
                Some(entry) => if entry.session != body.session || session.revision
                    != body.transition_revision {
                    Err(SessionError::SessionChanged)
                } else {
                    match session.algorithm_check(body.send_algorithm@, body.recv_algorithm@) {
                        Err(e) => Err(e),
                        Ok(_) => session.static_key_set_check(body.peer_static_pubkey),
                    }
                },
            },
        }
    }

    /// The store after a reservation became active.
    pub open spec fn reservation_committed(
        self,
        key: SessionKeyModel,
        body: ReservationBody,
        now_ms: u64,
    ) -> StoreModel {
        let session = self.sess(body.session);
        let entry = PeerSessionEntry { session: body.session, last_used_at: now_ms };
        match body.action {
            PeerSessionAction::Create => self.with_sess(
                body.session,
                session.with_committed(body.committed(body.root_key)),
            ).with_rec(
                key,
                KeyRecord { active: Some(entry), pending_create: None, ..self.rec(key) },
            ),
            PeerSessionAction::Sync => self.with_sess(
                body.session,
                session.with_sync_committed(
                    body.transition_revision,
                    body.root_key,
                    body.session_generation,
                    body.initial_epoch,
                    body.transition_id,
                    now_ms,
                ),
            ),
            PeerSessionAction::Join => self.with_sess(
                body.session,
                session.with_static_key_set(body.peer_static_pubkey).with_committed(
                    body.committed(session.datagram.root_key),
                ),
            ).with_active(key, Some(entry)),
        }
    }
}

impl ReservationBody {
    /// The transition that the reservation stands for, once it is active.
    pub open spec fn committed(self, root_key: Key32) -> CommittedTransition {
        CommittedTransition {
            action: self.action,
            session_generation: self.session_generation,
            root_key,
            initial_epoch: self.initial_epoch,
            transition_id: self.transition_id,
            transition_revision: self.transition_revision,
        }
    }

    fn committed_with(&self, root_key: Key32) -> (committed: CommittedTransition)
        ensures
            committed == self.committed(root_key),
    {
        CommittedTransition {
            action: self.action,
            session_generation: self.session_generation,
            root_key,
            initial_epoch: self.initial_epoch,
            transition_id: self.transition_id,
            transition_revision: self.transition_revision,
        }
    }
}

impl PeerSessionStore {
    pub(crate) fn cancel_initiator_reservation(&mut self, key: &SessionKey, body: &ReservationBody)
        requires
            old(self).wf(),
            old(self)@.has(body.session),
        ensures
            final(self).wf(),
            final(self)@ == old(self)@.reservation_canceled(key@, *body),
    {
        proof {
            crate::session_store::lemma_sound_record(self@, key@);
            broadcast use crate::session_store::group_sound;

        }
        match body.action {
            PeerSessionAction::Create => {
                if self.pending_create_of(key) == Some(body.session) {
                    self.set_pending_create(key, None);
                }
            },
            PeerSessionAction::Sync => {
                let mut session = self.take_session(body.session);
                session.cancel_reserved_sync(body.transition_revision, body.initial_epoch);
                proof {
                    crate::session_store::lemma_taken_and_put(old(self)@, body.session, session@);
                }
                self.put_session(body.session, session);
            },
            PeerSessionAction::Join => {},
        }
    }

    fn commit_create(&mut self, key: &SessionKey, body: &ReservationBody, now_ms: u64) -> (result:
        Result<(), SessionError>)
        requires
            old(self).wf(),
            old(self)@.has(body.session),
            body.action == PeerSessionAction::Create,
        ensures
            final(self).wf(),
            result == old(self)@.commit_check(key@, *body),
            final(self)@ == (if result is Ok {
                old(self)@.reservation_committed(key@, *body, now_ms)
            } else {
                old(self)@
            }),
    {
        proof {
            crate::session_store::lemma_sound_record(self@, key@);
            broadcast use crate::session_store::group_sound;

        }
        let id: SessionId = body.session;
        if self.pending_create_of(key) != Some(id) {
            return Err(SessionError::CreationClaimChanged);
        }
        match self.session(id) {
            Some(session) => {
                if !session.is_valid() || session.transition_revision() != body.transition_revision {
                    return Err(SessionError::SessionChanged);
                }
            },
            None => {
                return Err(SessionError::SessionChanged);
            },
        }
        if self.peek(key).is_some() {
            return Err(SessionError::SessionChanged);
        }
        let mut session = self.take_session(id);
        session.record_committed_transition(body.committed_with(body.root_key));
        proof {
            crate::session_store::lemma_taken_and_put(old(self)@, id, session@);
        }
        self.put_session(id, session);
        let ghost recorded = self@;
        self.set_pending_create(key, None);
        self.set_active(key, Some(PeerSessionEntry { session: id, last_used_at: now_ms }));
        assert(self@.records =~= recorded.records.insert(key@, self@.rec(key@)));
        assert(self@ == recorded.with_rec(key@, self@.rec(key@)));
        Ok(())
    }

    fn commit_sync(&mut self, key: &SessionKey, body: &ReservationBody, now_ms: u64) -> (result:
        Result<(), SessionError>)
        requires
            old(self).wf(),
            old(self)@.has(body.session),
            body.action == PeerSessionAction::Sync,
        ensures
            final(self).wf(),
            result == old(self)@.commit_check(key@, *body),
            final(self)@ == (if result is Ok {
                old(self)@.reservation_committed(key@, *body, now_ms)
            } else {
                old(self)@
            }),
    {
        proof {
            crate::session_store::lemma_sound_record(self@, key@);
            broadcast use crate::session_store::group_sound;

        }
        let id: SessionId = body.session;
        match self.active_of(key) {
            Some(entry) => {
                if entry.session != id {
                    return Err(SessionError::SessionChanged);
                }
            },
            None => {
                return Err(SessionError::SessionDisappeared);
            },
        }
        let mut session = self.take_session(id);
        let result = session.commit_reserved_sync(
            body.transition_revision,
            body.root_key,
            body.session_generation,
            body.initial_epoch,
            body.transition_id,
            now_ms,
        );
        proof {
            crate::session_store::lemma_taken_and_put(old(self)@, id, session@);
            assert(old(self)@.with_sess(id, old(self)@.sess(id)).sessions
                =~= old(self)@.sessions);
        }
        self.put_session(id, session);
        result
    }

    fn commit_join(&mut self, key: &SessionKey, body: &ReservationBody, now_ms: u64) -> (result:
        Result<(), SessionError>)
        requires
            old(self).wf(),
            old(self)@.has(body.session),
            body.action == PeerSessionAction::Join,
        ensures
            final(self).wf(),
            result == old(self)@.commit_check(key@, *body),
            final(self)@ == (if result is Ok {
                old(self)@.reservation_committed(key@, *body, now_ms)
            } else {
                old(self)@
            }),
    {
        proof {
            crate::session_store::lemma_sound_record(self@, key@);
            broadcast use crate::session_store::group_sound;

        }
        let id: SessionId = body.session;
        match self.active_of(key) {
            Some(entry) => {
                if entry.session != id {
                    return Err(SessionError::SessionChanged);
                }
            },
            None => {
                return Err(SessionError::SessionDisappeared);
            },
        }
        match self.session(id) {
            Some(session) => {
                if session.transition_revision() != body.transition_revision {
                    return Err(SessionError::SessionChanged);
                }
                if let Err(e) = session.check_encrypt_algo_same(
                    &body.send_algorithm,
                    &body.recv_algorithm,
                ) {
                    return Err(e);
                }
            },
            None => {
                return Err(SessionError::SessionChanged);
            },
        }
        let mut session = self.take_session(id);
        let result = session.check_or_set_peer_static_pubkey(body.peer_static_pubkey);
        if result.is_ok() {
            let root_key = session.root_key();
            session.record_committed_transition(body.committed_with(root_key));
        }
        proof {
            crate::session_store::lemma_taken_and_put(old(self)@, id, session@);
            assert(old(self)@.with_sess(id, old(self)@.sess(id)).sessions
                =~= old(self)@.sessions);
        }
        self.put_session(id, session);
        if result.is_ok() {
            self.set_active(key, Some(PeerSessionEntry { session: id, last_used_at: now_ms }));
        }
        result
    }

    pub(crate) fn commit_initiator_reservation(
        &mut self,
        key: &SessionKey,
        body: &ReservationBody,
        now_ms: u64,
    ) -> (result: Result<(), SessionError>)
        requires
            old(self).wf(),
            old(self)@.has(body.session),
        ensures
            final(self).wf(),
            result == old(self)@.commit_check(key@, *body),
            final(self)@ == (if result is Ok {
                old(self)@.reservation_committed(key@, *body, now_ms)
            } else {
                old(self)@
            }),
    {
        match body.action {
            PeerSessionAction::Create => self.commit_create(key, body, now_ms),
            PeerSessionAction::Sync => self.commit_sync(key, body, now_ms),
            PeerSessionAction::Join => self.commit_join(key, body, now_ms),
        }
    }
}

impl InitiatorSessionReservation {
    /// The reserved transition is of a session that the store holds.
    pub open spec fn held_in(self, store: StoreModel) -> bool {
        store.has(self.body.session)
    }

    /// The reservation once it is settled.
    pub open spec fn settled(self, state: ReservationState) -> InitiatorSessionReservation {
        InitiatorSessionReservation { permit: false, state, ..self }
    }

    pub(crate) fn release_recovery_quota(&mut self, quotas: &mut SessionQuotas)
        ensures
            *final(self) == (InitiatorSessionReservation { permit: false, ..*old(self) }),
            *final(quotas) == permit_released(*old(quotas), old(self).permit),
    {
        if self.permit {
            quotas.release_in_doubt();
            self.permit = false;
        }
    }

    /// Gives the reservation up, if it is still pending.
    pub fn cancel(&mut self, store: &mut PeerSessionStore, quotas: &mut SessionQuotas)
        requires
            old(store).wf(),
            old(self).held_in(old(store)@),
        ensures
            final(store).wf(),
            old(self).state == ReservationState::Pending ==> {
                &&& final(store)@ == old(store)@.reservation_canceled(old(self).key@, old(self).body)
                &&& *final(quotas) == permit_released(*old(quotas), old(self).permit)
                &&& *final(self) == old(self).settled(ReservationState::Canceled)
            },
            old(self).state != ReservationState::Pending ==> {
                &&& final(store)@ == old(store)@
                &&& *final(quotas) == *old(quotas)
                &&& *final(self) == *old(self)
            },
    {
        if self.state != ReservationState::Pending {
            return ;
        }
        self.state = ReservationState::Canceled;
        store.cancel_initiator_reservation(&self.key, &self.body);
        self.release_recovery_quota(quotas);
    }

    /// Makes the reserved transition active. A transition that can no longer
    /// become active is given up.
    pub fn commit(
        &mut self,
        store: &mut PeerSessionStore,
        quotas: &mut SessionQuotas,
        now_ms: u64,
    ) -> (committed: Result<SessionId, SessionError>)
        requires
            old(store).wf(),
            old(self).held_in(old(store)@),
        ensures
            final(store).wf(),
            ({
                let check = old(store)@.commit_check(old(self).key@, old(self).body);
                if old(self).state != ReservationState::Pending {
                    &&& committed == Err::<SessionId, SessionError>(
                        SessionError::TransitionNotPending,
                    )
                    &&& final(store)@ == old(store)@
                    &&& *final(quotas) == *old(quotas)
                    &&& *final(self) == *old(self)
                } else {
                    &&& *final(quotas) == permit_released(*old(quotas), old(self).permit)
                    &&& match check {
                        Ok(_) => {
                            &&& committed == Ok::<SessionId, SessionError>(old(self).body.session)
                            &&& final(store)@ == old(store)@.reservation_committed(
                                old(self).key@,
                                old(self).body,
                                now_ms,
                            )
                            &&& *final(self) == old(self).settled(ReservationState::Committed)
                        },
                        Err(e) => {
                            &&& committed == Err::<SessionId, SessionError>(e)
                            &&& final(store)@ == old(store)@.reservation_canceled(
                                old(self).key@,
                                old(self).body,
                            )
                            &&& *final(self) == old(self).settled(ReservationState::Canceled)
                        },
                    }
                }
            }),
    {
        if self.state != ReservationState::Pending {
            return Err(SessionError::TransitionNotPending);
        }
        match store.commit_initiator_reservation(&self.key, &self.body, now_ms) {
            Ok(()) => {
                self.state = ReservationState::Committed;
                self.release_recovery_quota(quotas);
                Ok(self.body.session)
            },
            Err(e) => {
                store.cancel_initiator_reservation(&self.key, &self.body);
                self.state = ReservationState::Canceled;
                self.release_recovery_quota(quotas);
                Err(e)
            },
        }
    }
}

} // verus!
