//! Session transitions of the responder: staged, committed with a proof that
//! the peer has to acknowledge, and recovered.

use vstd::prelude::*;
use crate::bytes::Key32;
use crate::peer_session::{CommittedTransition, PeerSession, PeerSessionModel};
use crate::session_store::{
    KeyRecord, PeerSessionEntry, PeerSessionStore, ResponderRecoveryRecord,
    ResponderTransitionRecovery, SessionId, SessionQuotas, StoreModel,
    MAX_RESPONDER_RECOVERIES_PER_PRINCIPAL, MAX_RESPONDER_RECOVERY_RECORDS,
};
use crate::session_types::{
    InitiatorTransitionIdentity, PeerSessionAction, SessionError, SessionKey, SessionKeyModel,
    TransitionFields,
};

verus! {

/// What a responder has staged.
#[derive(Clone, Copy, PartialEq, Eq, Structural)]
pub struct ResponderPlan {
    pub session: SessionId,
    pub action: PeerSessionAction,
    pub session_generation: u32,
    pub root_key: Option<Key32>,
    pub initial_epoch: u32,
    pub transition_revision: Option<u64>,
    pub transition_id: u128,
}

/// A responder transition that is staged and not active yet.
///
/// One that is given up after its previous proof was cleared has to restore
/// that proof.
pub struct UpsertResponderSessionReturn {
    pub session: SessionId,
    pub action: PeerSessionAction,
    pub session_generation: u32,
    pub root_key: Option<Key32>,
    pub initial_epoch: u32,
    pub transition_revision: Option<u64>,
    pub transition_id: u128,
    /// Previous responder proof that must be authenticated before commit.
    pub proof_dependency: Option<u128>,
    pub proof_cleared: bool,
    pub committed: bool,
    pub proof_backup: Option<ResponderRecoveryRecord>,
    pub prepared_key: SessionKey,
}

/// The random values that staging a responder transition may use.
pub struct ResponderSeeds {
    pub root_key: Key32,
    pub transition_id: u128,
    pub metadata_id: u128,
}

impl ResponderPlan {
    /// The transition once it is active.
    pub open spec fn committed_transition(self, root_key: Key32, revision: u64) -> CommittedTransition {
        CommittedTransition {
            action: self.action,
            session_generation: self.session_generation,
            root_key,
            initial_epoch: self.initial_epoch,
            transition_id: self.transition_id,
            transition_revision: revision,
        }
    }

    fn committed_with(&self, root_key: Key32, revision: u64) -> (committed: CommittedTransition)
        ensures
            committed == self.committed_transition(root_key, revision),
    {
        CommittedTransition {
            action: self.action,
            session_generation: self.session_generation,
            root_key,
            initial_epoch: self.initial_epoch,
            transition_id: self.transition_id,
            transition_revision: revision,
        }
    }
}

impl StoreModel {
    /// Staging a synchronization of a published session.
    pub open spec fn responder_sync_staged(
        self,
        id: SessionId,
        send_algorithm: Seq<char>,
        recv_algorithm: Seq<char>,
        peer_static_pubkey: Option<Key32>,
        transition_id: u128,
    ) -> (StoreModel, Result<ResponderPlan, SessionError>) {
        let session = self.sess(id);
        match session.algorithm_check(send_algorithm, recv_algorithm) {
            Err(e) => (self, Err(e)),
            Ok(_) => match session.sync_epoch(None) {
                Err(e) => (self, Err(e)),
                Ok(epoch) => {
                    let reserved = session.with_sync_reserved(epoch);
                    match reserved.static_key_reserve_check(peer_static_pubkey) {
                        Err(e) => (
                            self.with_sess(
                                id,
                                reserved.with_sync_canceled(reserved.revision, epoch),
                            ),
                            Err(e),
                        ),
                        Ok(_) => (
                            self.with_sess(id, reserved.with_static_key_reserved(peer_static_pubkey)),
                            Ok(
                                ResponderPlan {
                                    session: id,
                                    action: PeerSessionAction::Sync,
                                    session_generation: session.datagram.session_generation,
                                    root_key: Some(session.datagram.root_key),
                                    initial_epoch: epoch,
                                    transition_revision: Some(reserved.revision),
                                    transition_id,
                                },
                            ),
                        ),
                    }
                },
            },
        }
    }

    /// Staging a new session.
    pub open spec fn responder_create_staged(
        self,
        key: SessionKeyModel,
        send_algorithm: Seq<char>,
        recv_algorithm: Seq<char>,
        peer_static_pubkey: Option<Key32>,
        seeds: ResponderSeeds,
        now_ms: u64,
    ) -> (StoreModel, Result<ResponderPlan, SessionError>) {
        if self.rec(key).pending_create is Some {
            (self, Err(SessionError::CreationPending))
        } else if self.next_session == u64::MAX {
            (self, Err(SessionError::SessionIdsExhausted))
        } else {
            let fresh = PeerSessionModel::fresh(
                key.peer_id,
                seeds.metadata_id,
                seeds.root_key,
                1,
                0,
                send_algorithm,
                recv_algorithm,
                peer_static_pubkey,
                now_ms,
            );
            (
                self.with_new(PeerSessionModel { revision: 1, ..fresh }).with_pending(
                    key,
                    Some(self.next_session),
                ),
                Ok(
                    ResponderPlan {
                        session: self.next_session,
                        action: PeerSessionAction::Create,
                        session_generation: 1,
                        root_key: Some(seeds.root_key),
                        initial_epoch: 0,
                        transition_revision: None,
                        transition_id: seeds.transition_id,
                    },
                ),
            )
        }
    }

    /// Staging a responder transition: what the store becomes, and the plan or
    /// the refusal.
    pub open spec fn responder_staged(
        self,
        key: SessionKeyModel,
        send_algorithm: Seq<char>,
        recv_algorithm: Seq<char>,
        peer_static_pubkey: Option<Key32>,
        allow_existing_proof: bool,
        seeds: ResponderSeeds,
        now_ms: u64,
    ) -> (StoreModel, Result<ResponderPlan, SessionError>) {
        if self.rec(key).in_doubt is Some {
            (self, Err(SessionError::TransitionAwaitingRecovery))
        } else if !allow_existing_proof && self.rec(key).recovery is Some {
            (self, Err(SessionError::ProofAwaitingRecovery))
        } else {
            let looked_up = self.after_get(key, now_ms);
            match self.published(key) {
                Some(id) => looked_up.responder_sync_staged(
                    id,
                    send_algorithm,
                    recv_algorithm,
                    peer_static_pubkey,
                    seeds.transition_id,
                ),
                None => looked_up.responder_create_staged(
                    key,
                    send_algorithm,
                    recv_algorithm,
                    peer_static_pubkey,
                    seeds,
                    now_ms,
                ),
            }
        }
    }

    /// Whether a responder transition is refused. Neither the random values nor
    /// the time matters for that.
    pub open spec fn responder_refuses(
        self,
        key: SessionKeyModel,
        send_algorithm: Seq<char>,
        recv_algorithm: Seq<char>,
        peer_static_pubkey: Option<Key32>,
        allow_existing_proof: bool,
    ) -> bool {
        let seeds = ResponderSeeds {
            root_key: Key32 { hi: 0, lo: 0 },
            transition_id: 0,
            metadata_id: 0,
        };
        self.responder_staged(
            key,
            send_algorithm,
            recv_algorithm,
            peer_static_pubkey,
            allow_existing_proof,
            seeds,
            0,
        ).1 is Err
    }

    /// The store after a staged transition was given up.
    pub open spec fn plan_canceled(
        self,
        key: SessionKeyModel,
        session: SessionId,
        action: PeerSessionAction,
        transition_revision: Option<u64>,
        initial_epoch: u32,
    ) -> StoreModel {
        match action {
            PeerSessionAction::Create => if self.rec(key).pending_create == Some(session) {
                self.with_pending(key, None)
            } else {
                self
            },
            PeerSessionAction::Sync => match transition_revision {
                Some(revision) => self.with_sess(
                    session,
                    self.sess(session).with_sync_canceled(revision, initial_epoch),
                ),
                None => self,
            },
            PeerSessionAction::Join => self.with_sess(
                session,
                PeerSessionModel { pending_peer_static_pubkey: None, ..self.sess(session) },
            ),
        }
    }
}

impl UpsertResponderSessionReturn {
    pub open spec fn plan(self) -> ResponderPlan {
        ResponderPlan {
            session: self.session,
            action: self.action,
            session_generation: self.session_generation,
            root_key: self.root_key,
            initial_epoch: self.initial_epoch,
            transition_revision: self.transition_revision,
            transition_id: self.transition_id,
        }
    }

    /// The transition was just staged: no proof was looked at yet.
    pub open spec fn just_staged(
        self,
        key: SessionKeyModel,
        plan: ResponderPlan,
        proof_dependency: Option<u128>,
    ) -> bool {
        &&& self.plan() == plan
        &&& self.prepared_key@ == key
        &&& self.proof_dependency == proof_dependency
        &&& !self.proof_cleared
        &&& !self.committed
        &&& self.proof_backup is None
    }

    /// The sessions of the transition and of the proof it holds are in the
    /// store.
    pub open spec fn held_in(self, store: StoreModel) -> bool {
        &&& store.has(self.session)
        &&& self.proof_backup is Some ==> store.has((self.proof_backup->0).recovery.session)
    }

    pub(crate) fn staged(key: &SessionKey, plan: ResponderPlan, proof_dependency: Option<u128>) -> (prepared:
        Self)
        ensures
            prepared.just_staged(key@, plan, proof_dependency),
    {
        UpsertResponderSessionReturn {
            session: plan.session,
            action: plan.action,
            session_generation: plan.session_generation,
            root_key: plan.root_key,
            initial_epoch: plan.initial_epoch,
            transition_revision: plan.transition_revision,
            transition_id: plan.transition_id,
            proof_dependency,
            proof_cleared: false,
            committed: false,
            proof_backup: None,
            prepared_key: key.duplicate(),
        }
    }

    /// A transition that was already committed, staged again for its peer.
    pub fn for_recovery(
        session: SessionId,
        action: PeerSessionAction,
        session_generation: u32,
        root_key: Key32,
        initial_epoch: u32,
        transition_id: u128,
        transition_revision: Option<u64>,
        prepared_key: SessionKey,
    ) -> (prepared: Self)
        ensures
            prepared.just_staged(
                prepared_key@,
                (ResponderPlan {
                    session,
                    action,
                    session_generation,
                    root_key: Some(root_key),
                    initial_epoch,
                    transition_revision,
                    transition_id,
                }),
                None,
            ),
    {
        UpsertResponderSessionReturn::staged(
            &prepared_key,
            ResponderPlan {
                session,
                action,
                session_generation,
                root_key: Some(root_key),
                initial_epoch,
                transition_revision,
                transition_id,
            },
            None,
        )
    }

    fn plan_of(&self) -> (plan: ResponderPlan)
        ensures
            plan == self.plan(),
    {
        ResponderPlan {
            session: self.session,
            action: self.action,
            session_generation: self.session_generation,
            root_key: self.root_key,
            initial_epoch: self.initial_epoch,
            transition_revision: self.transition_revision,
            transition_id: self.transition_id,
        }
    }

    /// The local token of the transition. A synchronization always has a
    /// revision of its own.
    pub fn transition_token(&self, store: &PeerSessionStore) -> (token: u64)
        requires
            store.wf(),
            store@.has(self.session),
            self.action == PeerSessionAction::Sync ==> self.transition_revision is Some,
        ensures
            token == store@.plan_token(self.plan()),
    {
        store.token_of(&self.plan_of())
    }

    pub fn transition_id(&self) -> (id: u128)
        ensures
            id == self.transition_id,
    {
        self.transition_id
    }

    pub fn proof_dependency(&self) -> (dependency: Option<u128>)
        ensures
            dependency == self.proof_dependency,
    {
        self.proof_dependency
    }

    pub fn proof_dependency_cleared(&self) -> (cleared: bool)
        ensures
            cleared == self.proof_cleared,
    {
        self.proof_cleared
    }

    /// Gives the staged transition up.
    pub fn cancel(&self, store: &mut PeerSessionStore)
        requires
            old(store).wf(),
            old(store)@.has(self.session),
        ensures
            final(store).wf(),
            final(store)@ == old(store)@.plan_canceled(
                self.prepared_key@,
                self.session,
                self.action,
                self.transition_revision,
                self.initial_epoch,
            ),
    {
        store.cancel_prepared_session(
            &self.prepared_key,
            self.session,
            self.action,
            self.transition_revision,
            self.initial_epoch,
        );
    }
}

impl StoreModel {
    pub open spec fn plan_token(self, plan: ResponderPlan) -> u64 {
        match plan.action {
            PeerSessionAction::Sync => plan.transition_revision->0,
            _ => self.sess(plan.session).revision,
        }
    }
}

impl PeerSessionStore {
    fn token_of(&self, plan: &ResponderPlan) -> (token: u64)
        requires
            self.wf(),
            self@.has(plan.session),
            plan.action == PeerSessionAction::Sync ==> plan.transition_revision is Some,
        ensures
            token == self@.plan_token(*plan),
    {
        match plan.action {
            PeerSessionAction::Sync => plan.transition_revision.unwrap(),
            _ => match self.session(plan.session) {
                Some(session) => session.transition_revision(),
                None => 0,
            },
        }
    }

    /// Gives a staged transition up.
    pub fn cancel_prepared_session(
        &mut self,
        key: &SessionKey,
        session: SessionId,
        action: PeerSessionAction,
        transition_revision: Option<u64>,
        initial_epoch: u32,
    )
        requires
            old(self).wf(),
            old(self)@.has(session),
        ensures
            final(self).wf(),
            final(self)@ == old(self)@.plan_canceled(
                key@,
                session,
                action,
                transition_revision,
                initial_epoch,
            ),
    {
        proof {
            crate::session_store::lemma_sound_record(self@, key@);
            broadcast use crate::session_store::group_sound;

        }
        match action {
            PeerSessionAction::Create => {
                if self.pending_create_of(key) == Some(session) {
                    self.set_pending_create(key, None);
                }
            },
            PeerSessionAction::Sync => {
                if let Some(revision) = transition_revision {
                    let mut held = self.take_session(session);
                    held.cancel_reserved_sync(revision, initial_epoch);
                    proof {
                        crate::session_store::lemma_taken_and_put(old(self)@, session, held@);
                    }
                    self.put_session(session, held);
                }
            },
            PeerSessionAction::Join => {
                let mut held = self.take_session(session);
                held.cancel_reserved_peer_static_pubkey();
                proof {
                    crate::session_store::lemma_taken_and_put(old(self)@, session, held@);
                }
                self.put_session(session, held);
            },
        }
    }

    fn stage_responder_sync(
        &mut self,
        id: SessionId,
        send_algorithm: &String,
        recv_algorithm: &String,
        peer_static_pubkey: Option<Key32>,
        transition_id: u128,
    ) -> (plan: Result<ResponderPlan, SessionError>)
        requires
            old(self).wf(),
            old(self)@.has(id),
        ensures
            final(self).wf(),
            (final(self)@, plan) == old(self)@.responder_sync_staged(
                id,
                send_algorithm@,
                recv_algorithm@,
                peer_static_pubkey,
                transition_id,
            ),
    {
        proof {
            broadcast use crate::session_store::group_sound;

        }
        let mut session = self.take_session(id);
        let ghost before = session@;
        let outcome = match session.check_encrypt_algo_same(send_algorithm, recv_algorithm) {
            Err(e) => Err(e),
            Ok(()) => match session.prepare_sync_transition() {
                Err(e) => Err(e),
                Ok((session_generation, root_key, initial_epoch, transition_revision)) => {
                    match session.reserve_peer_static_pubkey(peer_static_pubkey) {
                        Err(e) => {
                            session.cancel_reserved_sync(transition_revision, initial_epoch);
                            Err(e)
                        },
                        Ok(()) => Ok(
                            ResponderPlan {
                                session: id,
                                action: PeerSessionAction::Sync,
                                session_generation,
                                root_key: Some(root_key),
                                initial_epoch,
                                transition_revision: Some(transition_revision),
                                transition_id,
                            },
                        ),
                    }
                },
            },
        };
        proof {
            crate::session_store::lemma_taken_and_put(old(self)@, id, session@);
            assert(old(self)@.with_sess(id, before).sessions =~= old(self)@.sessions);
        }
        self.put_session(id, session);
        outcome
    }

    fn stage_responder_create(
        &mut self,
        key: &SessionKey,
        send_algorithm: String,
        recv_algorithm: String,
        peer_static_pubkey: Option<Key32>,
        seeds: ResponderSeeds,
        now_ms: u64,
    ) -> (plan: Result<ResponderPlan, SessionError>)
        requires
            old(self).wf(),
        ensures
            final(self).wf(),
            (final(self)@, plan) == old(self)@.responder_create_staged(
                key@,
                send_algorithm@,
                recv_algorithm@,
                peer_static_pubkey,
                seeds,
                now_ms,
            ),
    {
        proof {
            crate::session_store::lemma_sound_record(self@, key@);
            broadcast use crate::session_store::group_sound;

        }
        if self.pending_create_of(key).is_some() {
            return Err(SessionError::CreationPending);
        }
        let mut session = PeerSession::with_metadata_id(
            key.peer_id,
            seeds.metadata_id,
            seeds.root_key,
            1,
            0,
            send_algorithm,
            recv_algorithm,
            peer_static_pubkey,
            now_ms,
        );
        session.initialize_transition_revision(1);
        match self.add_session(session) {
            Some(id) => {
                self.set_pending_create(key, Some(id));
                Ok(
                    ResponderPlan {
                        session: id,
                        action: PeerSessionAction::Create,
                        session_generation: 1,
                        root_key: Some(seeds.root_key),
                        initial_epoch: 0,
                        transition_revision: None,
                        transition_id: seeds.transition_id,
                    },
                )
            },
            None => Err(SessionError::SessionIdsExhausted),
        }
    }

    /// Whether a responder transition is refused. Nothing changes.
    pub fn refuses_responder(
        &self,
        key: &SessionKey,
        send_algorithm: &String,
        recv_algorithm: &String,
        peer_static_pubkey: Option<Key32>,
        allow_existing_proof: bool,
    ) -> (refuses: bool)
        requires
            self.wf(),
        ensures
            refuses == self@.responder_refuses(
                key@,
                send_algorithm@,
                recv_algorithm@,
                peer_static_pubkey,
                allow_existing_proof,
            ),
    {
        proof {
            crate::session_store::lemma_sound_record(self@, key@);
        }
        if self.in_doubt_of(key).is_some() || (!allow_existing_proof && self.recovery_of(
            key,
        ).is_some()) {
            return true;
        }
        match self.peek(key) {
            Some(id) => match self.session(id) {
                Some(session) => session.check_encrypt_algo_same(
                    send_algorithm,
                    recv_algorithm,
                ).is_err() || !session.sync_is_free(None) || !session.static_key_is_free(
                    peer_static_pubkey,
                ),
                None => true,
            },
            None => self.pending_create_of(key).is_some() || !self.has_room(),
        }
    }

    /// Stages a responder transition with given random values.
    pub fn stage_responder(
        &mut self,
        key: &SessionKey,
        send_algorithm: String,
        recv_algorithm: String,
        peer_static_pubkey: Option<Key32>,
        allow_existing_proof: bool,
        seeds: ResponderSeeds,
        now_ms: u64,
    ) -> (plan: Result<ResponderPlan, SessionError>)
        requires
            old(self).wf(),
        ensures
            final(self).wf(),
            (final(self)@, plan) == old(self)@.responder_staged(
                key@,
                send_algorithm@,
                recv_algorithm@,
                peer_static_pubkey,
                allow_existing_proof,
                seeds,
                now_ms,
            ),
            plan matches Ok(p) ==> final(self)@.has(p.session),
    {
        proof {
            crate::session_store::lemma_sound_record(self@, key@);
        }
        if self.in_doubt_of(key).is_some() {
            return Err(SessionError::TransitionAwaitingRecovery);
        }
        if !allow_existing_proof && self.recovery_of(key).is_some() {
            return Err(SessionError::ProofAwaitingRecovery);
        }
        match self.get(key, now_ms) {
            Some(id) => self.stage_responder_sync(
                id,
                &send_algorithm,
                &recv_algorithm,
                peer_static_pubkey,
                seeds.transition_id,
            ),
            None => self.stage_responder_create(
                key,
                send_algorithm,
                recv_algorithm,
                peer_static_pubkey,
                seeds,
                now_ms,
            ),
        }
    }
}

impl StoreModel {
    /// The effect of a staged transition becoming active, and the refusal where
    /// it cannot. A creation that is refused late has taken over its static key,
    /// and its history, already.
    pub open spec fn plan_activated(self, key: SessionKeyModel, plan: ResponderPlan, now_ms: u64) -> (
        StoreModel,
        Result<(), SessionError>,
    ) {
        let record = self.rec(key);
        let session = self.sess(plan.session);
        match plan.action {
            PeerSessionAction::Create => if record.pending_create != Some(plan.session) {
                (self, Err(SessionError::CreationClaimChanged))
            } else if !session.valid() {
                (self, Err(SessionError::SessionChanged))
            } else {
                self.create_activated(key, plan, now_ms)
            },
            PeerSessionAction::Sync => match record.active {
                None => (self, Err(SessionError::SessionDisappeared)),
                Some(entry) => if entry.session != plan.session {
                    (self, Err(SessionError::SessionChanged))
                } else {
                    match (plan.root_key, plan.transition_revision) {
                        (None, _) => (self, Err(SessionError::MissingRootKey)),
                        (Some(_), None) => (self, Err(SessionError::MissingTransitionRevision)),
                        (Some(root_key), Some(revision)) => match session.sync_commit_check(
                            revision,
                            plan.initial_epoch,
                        ) {
                            Err(e) => (self, Err(e)),
                            Ok(_) => (
                                self.with_sess(
                                    plan.session,
                                    session.with_sync_committed(
                                        revision,
                                        root_key,
                                        plan.session_generation,
                                        plan.initial_epoch,
                                        plan.transition_id,
                                        now_ms,
                                    ),
                                ),
                                Ok(()),
                            ),
                        },
                    }
                },
            },
            PeerSessionAction::Join => match record.active {
                None => (self, Err(SessionError::SessionDisappeared)),
                Some(entry) => if entry.session != plan.session || !session.valid() {
                    (self, Err(SessionError::SessionChanged))
                } else {
                    match session.static_key_commit_check() {
                        Err(e) => (self, Err(e)),
                        Ok(_) => (
                            self.with_sess(
                                plan.session,
                                session.with_static_key_committed().with_committed(
                                    plan.committed_transition(
                                        session.datagram.root_key,
                                        session.revision,
                                    ),
                                ),
                            ),
                            Ok(()),
                        ),
                    }
                },
            },
        }
    }

    /// The part of [`Self::plan_activated`] for a creation that still has its
    /// claim.
    pub open spec fn create_activated(self, key: SessionKeyModel, plan: ResponderPlan, now_ms: u64) -> (
        StoreModel,
        Result<(), SessionError>,
    ) {
        let session = self.sess(plan.session);
        match session.static_key_commit_check() {
            Err(e) => (self, Err(e)),
            Ok(_) => {
                let keyed = session.with_static_key_committed();
                match plan.root_key {
                    None => (self.with_sess(plan.session, keyed), Err(SessionError::MissingRootKey)),
                    Some(root_key) => {
                        let recorded = self.with_sess(
                            plan.session,
                            keyed.with_committed(
                                plan.committed_transition(root_key, session.revision),
                            ),
                        );
                        if recorded.published(key) is Some {
                            (recorded, Err(SessionError::SessionChanged))
                        } else {
                            (
                                recorded.with_rec(
                                    key,
                                    KeyRecord {
                                        active: Some(
                                            PeerSessionEntry {
                                                session: plan.session,
                                                last_used_at: now_ms,
                                            },
                                        ),
                                        pending_create: None,
                                        ..self.rec(key)
                                    },
                                ),
                                Ok(()),
                            )
                        }
                    },
                }
            },
        }
    }

    /// The proof of an active transition.
    pub open spec fn proof_of(self, plan: ResponderPlan, now_ms: u64) -> ResponderRecoveryRecord {
        let session = self.sess(plan.session);
        let root_key = match plan.root_key {
            Some(root_key) => root_key,
            None => session.datagram.root_key,
        };
        ResponderRecoveryRecord {
            identity: TransitionFields {
                session_metadata_id: session.metadata_session_id,
                action: plan.action,
                session_generation: plan.session_generation,
                initial_epoch: plan.initial_epoch,
                transition_id: plan.transition_id,
                transition_revision: self.plan_token(plan),
                root_key_digest: crate::session_types::root_key_digest(root_key),
            },
            recovery: ResponderTransitionRecovery {
                session: plan.session,
                action: plan.action,
                session_generation: plan.session_generation,
                root_key,
                initial_epoch: plan.initial_epoch,
                transition_id: plan.transition_id,
                transition_revision: self.plan_token(plan),
            },
            created_at: now_ms,
        }
    }

    /// The keys whose proofs belong to a principal.
    pub open spec fn proofs_of(self, principal: Key32) -> Set<SessionKeyModel> {
        Set::new(
            |key: SessionKeyModel|
                self.rec(key).recovery is Some && self.sess(
                    (self.rec(key).recovery->0).recovery.session,
                ).static_key_with_pending() == Some(principal),
        )
    }

    /// Whether a transition may have a proof of its own, or why not.
    pub open spec fn proof_slot(self, quotas: SessionQuotas, key: SessionKeyModel, session: SessionId) -> Result<
        (),
        SessionError,
    > {
        if self.rec(key).recovery is Some {
            Err(SessionError::RecoveryProofAlreadyPending)
        } else {
            match self.sess(session).static_key_with_pending() {
                None => Err(SessionError::RecoveryPrincipalMissing),
                Some(principal) => if self.proofs_of(principal).len()
                    >= MAX_RESPONDER_RECOVERIES_PER_PRINCIPAL {
                    Err(SessionError::RecoveryPrincipalCapacityFull)
                } else if quotas.responder_recoveries >= MAX_RESPONDER_RECOVERY_RECORDS {
                    Err(SessionError::RecoveryCapacityFull)
                } else {
                    Ok(())
                },
            }
        }
    }

    /// What a commit asks for before it looks at the sessions.
    pub open spec fn proof_check(
        self,
        quotas: SessionQuotas,
        key: SessionKeyModel,
        prepared: UpsertResponderSessionReturn,
    ) -> Result<(), SessionError> {
        if prepared.proof_dependency is Some {
            if !prepared.proof_cleared {
                Err(SessionError::ProofNotAuthenticated)
            } else if prepared.proof_backup is None {
                Err(SessionError::ProofBackupMissing)
            } else {
                Ok(())
            }
        } else {
            self.proof_slot(quotas, key, prepared.session)
        }
    }

    /// Committing a staged transition: the store afterwards and the outcome.
    pub open spec fn responder_committed(
        self,
        quotas: SessionQuotas,
        key: SessionKeyModel,
        prepared: UpsertResponderSessionReturn,
        now_ms: u64,
    ) -> (StoreModel, Result<(), SessionError>) {
        match self.proof_check(quotas, key, prepared) {
            Err(e) => (self, Err(e)),
            Ok(_) => {
                let (activated, result) = self.plan_activated(key, prepared.plan(), now_ms);
                match result {
                    Err(e) => (activated, Err(e)),
                    Ok(_) => (
                        activated.with_recovery(
                            key,
                            Some(activated.proof_of(prepared.plan(), now_ms)),
                        ),
                        Ok(()),
                    ),
                }
            },
        }
    }

    /// The quotas after a staged transition was committed: its proof takes a
    /// slot of its own, or that of the proof it depends on. A proof that it
    /// replaces gives its slot back.
    pub open spec fn proof_slots_after(
        self,
        quotas: SessionQuotas,
        key: SessionKeyModel,
        prepared: UpsertResponderSessionReturn,
    ) -> SessionQuotas {
        if prepared.proof_dependency is None {
            quotas.with_recovery()
        } else if self.rec(key).recovery is Some {
            quotas.without_recovery()
        } else {
            quotas
        }
    }
}

impl PeerSessionStore {
    fn activate_create(&mut self, key: &SessionKey, plan: &ResponderPlan, now_ms: u64) -> (result:
        Result<(), SessionError>)
        requires
            old(self).wf(),
            old(self)@.has(plan.session),
        ensures
            final(self).wf(),
            (final(self)@, result) == old(self)@.create_activated(key@, *plan, now_ms),
    {
        proof {
            crate::session_store::lemma_sound_record(self@, key@);
            broadcast use crate::session_store::group_sound;

        }
        let id: SessionId = plan.session;
        let mut session = self.take_session(id);
        let ghost before = session@;
        let outcome = match session.commit_reserved_peer_static_pubkey() {
            Err(e) => Err(e),
            Ok(()) => match plan.root_key {
                None => Err(SessionError::MissingRootKey),
                Some(root_key) => {
                    let revision: u64 = session.transition_revision();
                    session.record_committed_transition(plan.committed_with(root_key, revision));
                    Ok(())
                },
            },
        };
        proof {
            crate::session_store::lemma_taken_and_put(old(self)@, id, session@);
            assert(old(self)@.with_sess(id, before).sessions =~= old(self)@.sessions);
        }
        self.put_session(id, session);
        if let Err(e) = outcome {
            return Err(e);
        }
        let ghost recorded = self@;
        if self.peek(key).is_some() {
            return Err(SessionError::SessionChanged);
        }
        self.set_pending_create(key, None);
        self.set_active(key, Some(PeerSessionEntry { session: id, last_used_at: now_ms }));
        assert(self@.records =~= recorded.records.insert(key@, self@.rec(key@)));
        assert(self@ == recorded.with_rec(key@, self@.rec(key@)));
        Ok(())
    }

    fn activate_plan(&mut self, key: &SessionKey, plan: &ResponderPlan, now_ms: u64) -> (result:
        Result<(), SessionError>)
        requires
            old(self).wf(),
            old(self)@.has(plan.session),
        ensures
            final(self).wf(),
            (final(self)@, result) == old(self)@.plan_activated(key@, *plan, now_ms),
    {
        proof {
            crate::session_store::lemma_sound_record(self@, key@);
            broadcast use crate::session_store::group_sound;

        }
        let id: SessionId = plan.session;
        match plan.action {
            PeerSessionAction::Create => {
                if self.pending_create_of(key) != Some(id) {
                    return Err(SessionError::CreationClaimChanged);
                }
                if !self.session_is_valid(id) {
                    return Err(SessionError::SessionChanged);
                }
                self.activate_create(key, plan, now_ms)
            },
            PeerSessionAction::Sync => {
                match self.active_of(key) {
                    None => {
                        return Err(SessionError::SessionDisappeared);
                    },
                    Some(entry) => {
                        if entry.session != id {
                            return Err(SessionError::SessionChanged);
                        }
                    },
                }
                let root_key = match plan.root_key {
                    None => {
                        return Err(SessionError::MissingRootKey);
                    },
                    Some(root_key) => root_key,
                };
                let revision: u64 = match plan.transition_revision {
                    None => {
                        return Err(SessionError::MissingTransitionRevision);
                    },
                    Some(revision) => revision,
                };
                let mut session = self.take_session(id);
                let result = session.commit_reserved_sync(
                    revision,
                    root_key,
                    plan.session_generation,
                    plan.initial_epoch,
                    plan.transition_id,
                    now_ms,
                );
                proof {
                    crate::session_store::lemma_taken_and_put(old(self)@, id, session@);
                    assert(old(self)@.with_sess(id, old(self)@.sess(id)).sessions
                        =~= old(self)@.sessions);
                }
                self.put_session(id, session);
                result
            },
            PeerSessionAction::Join => {
                match self.active_of(key) {
                    None => {
                        return Err(SessionError::SessionDisappeared);
                    },
                    Some(entry) => {
                        if entry.session != id || !self.session_is_valid(id) {
                            return Err(SessionError::SessionChanged);
                        }
                    },
                }
                let mut session = self.take_session(id);
                let result = session.commit_reserved_peer_static_pubkey();
                if result.is_ok() {
                    let root_key = session.root_key();
                    let revision: u64 = session.transition_revision();
                    session.record_committed_transition(plan.committed_with(root_key, revision));
                }
                proof {
                    crate::session_store::lemma_taken_and_put(old(self)@, id, session@);
                    assert(old(self)@.with_sess(id, old(self)@.sess(id)).sessions
                        =~= old(self)@.sessions);
                }
                self.put_session(id, session);
                result
            },
        }
    }

    fn make_proof(&self, plan: &ResponderPlan, now_ms: u64) -> (record: ResponderRecoveryRecord)
        requires
            self.wf(),
            self@.has(plan.session),
            plan.action == PeerSessionAction::Sync ==> plan.transition_revision is Some,
        ensures
            record == self@.proof_of(*plan, now_ms),
    {
        let token: u64 = self.token_of(plan);
        let session = self.session(plan.session).unwrap();
        let root_key = match plan.root_key {
            Some(root_key) => root_key,
            None => session.root_key(),
        };
        ResponderRecoveryRecord {
            identity: TransitionFields {
                session_metadata_id: session.metadata_session_id(),
                action: plan.action,
                session_generation: plan.session_generation,
                initial_epoch: plan.initial_epoch,
                transition_id: plan.transition_id,
                transition_revision: token,
                root_key_digest: InitiatorTransitionIdentity::digest_root_key(&root_key),
            },
            recovery: ResponderTransitionRecovery {
                session: plan.session,
                action: plan.action,
                session_generation: plan.session_generation,
                root_key,
                initial_epoch: plan.initial_epoch,
                transition_id: plan.transition_id,
                transition_revision: token,
            },
            created_at: now_ms,
        }
    }

    fn count_proofs_of(&self, principal: Key32) -> (count: usize)
        requires
            self.wf(),
        ensures
            self@.proofs_of(principal).finite(),
            count == self@.proofs_of(principal).len(),
    {
        let keys = self.keys();
        let mut count: usize = 0;
        let mut i: usize = 0;
        let ghost mut counted = Set::<SessionKeyModel>::empty();
        while i < keys.len()
            invariant
                self.wf(),
                i <= keys@.len(),
                count <= i,
                counted.finite(),
                counted.len() == count,
                forall|key: SessionKeyModel| #[trigger]
                    counted.contains(key) ==> self@.proofs_of(principal).contains(key) && exists|
                        k: int,
                    |
                        0 <= k < i && (#[trigger] keys@[k])@ == key,
                forall|k: int|
                    0 <= k < i && self@.proofs_of(principal).contains((#[trigger] keys@[k])@)
                        ==> counted.contains(keys@[k]@),
                forall|a: int, b: int|
                    0 <= a < b < keys@.len() ==> (#[trigger] keys@[a])@ != (#[trigger] keys@[b])@,
            decreases keys@.len() - i,
        {
            proof {
                crate::session_store::lemma_sound_record(self@, keys@[i as int]@);
            }
            let mut belongs = false;
            if let Some(record) = self.recovery_of(&keys[i]) {
                if let Some(session) = self.session(record.recovery.session) {
                    belongs = session.peer_static_pubkey_with_pending() == Some(principal);
                }
            }
            assert(belongs == self@.proofs_of(principal).contains(keys@[i as int]@));
            if belongs {
                proof {
                    if counted.contains(keys@[i as int]@) {
                        let k = choose|k: int|
                            0 <= k < i && (#[trigger] keys@[k])@ == keys@[i as int]@;
                        assert(keys@[k]@ != keys@[i as int]@);
                    }
                    counted = counted.insert(keys@[i as int]@);
                }
                count = count + 1;
            }
            i = i + 1;
        }
        assert(counted =~= self@.proofs_of(principal));
        count
    }

    fn check_proof_slot(&self, quotas: &SessionQuotas, key: &SessionKey, session: SessionId) -> (result:
        Result<(), SessionError>)
        requires
            self.wf(),
            self@.has(session),
        ensures
            result == self@.proof_slot(*quotas, key@, session),
    {
        if self.recovery_of(key).is_some() {
            return Err(SessionError::RecoveryProofAlreadyPending);
        }
        let known = match self.session(session) {
            Some(held) => held.peer_static_pubkey_with_pending(),
            None => None,
        };
        match known {
            None => Err(SessionError::RecoveryPrincipalMissing),
            Some(principal) => {
                if self.count_proofs_of(principal) >= MAX_RESPONDER_RECOVERIES_PER_PRINCIPAL {
                    Err(SessionError::RecoveryPrincipalCapacityFull)
                } else if quotas.responder_recoveries >= MAX_RESPONDER_RECOVERY_RECORDS {
                    Err(SessionError::RecoveryCapacityFull)
                } else {
                    Ok(())
                }
            },
        }
    }

    /// Commits one responder transition. The exact session and the transition
    /// revision are checked before traffic keys or the store entry become
    /// active.
    pub fn commit_prepared_responder_transition(
        &mut self,
        quotas: &mut SessionQuotas,
        key: &SessionKey,
        prepared: &mut UpsertResponderSessionReturn,
        now_ms: u64,
    ) -> (result: Result<(), SessionError>)
        requires
            old(self).wf(),
            old(self)@.has(old(prepared).session),
        ensures
            final(self).wf(),
            (final(self)@, result) == old(self)@.responder_committed(
                *old(quotas),
                key@,
                *old(prepared),
                now_ms,
            ),
            result is Ok ==> {
                &&& *final(quotas) == old(self)@.proof_slots_after(
                    *old(quotas),
                    key@,
                    *old(prepared),
                )
                &&& *final(prepared) == (UpsertResponderSessionReturn {
                    committed: true,
                    proof_backup: if old(prepared).proof_dependency is Some {
                        None
                    } else {
                        old(prepared).proof_backup
                    },
                    ..*old(prepared)
                })
            },
            result is Err ==> *final(quotas) == *old(quotas) && *final(prepared) == *old(prepared),
    {
        if prepared.proof_dependency.is_some() {
            if !prepared.proof_cleared {
                return Err(SessionError::ProofNotAuthenticated);
            }
            if prepared.proof_backup.is_none() {
                return Err(SessionError::ProofBackupMissing);
            }
        } else if let Err(e) = self.check_proof_slot(quotas, key, prepared.session) {
            return Err(e);
        }
        let plan = prepared.plan_of();
        if let Err(e) = self.activate_plan(key, &plan, now_ms) {
            return Err(e);
        }
        let record = self.make_proof(&plan, now_ms);
        if prepared.proof_dependency.is_none() {
            quotas.responder_recoveries = quotas.responder_recoveries + 1;
        } else {
            if self.recovery_of(key).is_some() {
                quotas.release_recovery();
            }
            prepared.proof_backup = None;
        }
        proof {
            crate::session_store::lemma_sound_record(self@, key@);
            broadcast use crate::session_store::group_sound;

        }
        self.set_recovery(key, Some(record));
        prepared.committed = true;
        Ok(())
    }
}

} // verus!
