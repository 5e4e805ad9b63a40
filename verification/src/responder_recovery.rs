//! Proofs of committed responder transitions, and what time does to a store.

use vstd::prelude::*;
use crate::bytes::Key32;
use crate::outside::{new_transition_id, new_uuid};
use crate::peer_session::PeerSession;
use crate::responder_store::{ResponderPlan, ResponderSeeds, UpsertResponderSessionReturn};
use crate::session_store::{
    KeyRecord, PeerSessionStore, ResponderTransitionRecovery, SessionId, SessionQuotas, StoreModel,
    INITIATOR_RECOVERY_LIFETIME_MS,
};
use crate::session_types::{
    IdentityModel, InitiatorTransitionIdentity, PeerSessionAction, SessionError, SessionKey,
    SessionKeyModel,
};

verus! {

impl KeyRecord {
    /// Whether the proof of the record has outlived its time.
    pub open spec fn proof_expired(self, now_ms: u64) -> bool {
        self.recovery is Some && crate::clock::elapsed((self.recovery->0).created_at, now_ms)
            >= INITIATOR_RECOVERY_LIFETIME_MS
    }
}

impl StoreModel {
    /// The keys among `among` whose proofs have outlived their time.
    pub open spec fn expired_among(self, among: Set<SessionKeyModel>, now_ms: u64) -> Set<
        SessionKeyModel,
    > {
        Set::new(|key: SessionKeyModel| among.contains(key) && self.rec(key).proof_expired(now_ms))
    }

    /// Whether an outlived proof, of a key among `among`, is about a session.
    pub open spec fn proof_expired_of(self, among: Set<SessionKeyModel>, now_ms: u64, id: SessionId) -> bool {
        exists|key: SessionKeyModel| #[trigger]
            among.contains(key) && self.rec(key).proof_expired(now_ms) && (self.rec(
                key,
            ).recovery->0).recovery.session == id
    }

    /// The store after the outlived proofs of some keys were removed: the
    /// sessions that they were about are invalid.
    pub open spec fn expired_for(self, among: Set<SessionKeyModel>, now_ms: u64) -> StoreModel {
        StoreModel {
            records: Map::new(
                |key: SessionKeyModel| true,
                |key: SessionKeyModel|
                    if among.contains(key) && self.rec(key).proof_expired(now_ms) {
                        KeyRecord { recovery: None, ..self.rec(key) }
                    } else {
                        self.rec(key)
                    },
            ),
            sessions: Map::new(
                |id: SessionId| self.has(id),
                |id: SessionId|
                    if self.proof_expired_of(among, now_ms, id) {
                        self.sess(id).invalid_now()
                    } else {
                        self.sess(id)
                    },
            ),
            ..self
        }
    }

    /// The store after all outlived proofs were removed.
    pub open spec fn expired(self, now_ms: u64) -> StoreModel {
        self.expired_for(Set::full(), now_ms)
    }

    /// The keys of all outlived proofs.
    pub open spec fn expired_keys(self, now_ms: u64) -> Set<SessionKeyModel> {
        self.expired_among(Set::full(), now_ms)
    }
}

/// The quotas after some proofs gave their slots back.
pub open spec fn proofs_released(quotas: SessionQuotas, count: nat) -> SessionQuotas {
    SessionQuotas {
        responder_recoveries: if quotas.responder_recoveries >= count {
            (quotas.responder_recoveries - count) as usize
        } else {
            0
        },
        ..quotas
    }
}

/// One more key is looked at: its outlived proof is removed.
proof fn lemma_one_more_expired(
    store: StoreModel,
    among: Set<SessionKeyModel>,
    key: SessionKeyModel,
    now_ms: u64,
)
    requires
        store.sound(),
    ensures
        ({
            let partial = store.expired_for(among, now_ms);
            let more = store.expired_for(among.insert(key), now_ms);
            let record = store.rec(key);
            if record.proof_expired(now_ms) && !among.contains(key) {
                let id = (record.recovery->0).recovery.session;
                let invalid = partial.with_sess(id, partial.sess(id).invalid_now());
                partial.has(id) && more.records =~= invalid.with_recovery(key, None).records
                    && more.sessions =~= invalid.sessions
            } else {
                more.records =~= partial.records && more.sessions =~= partial.sessions
            }
        }),
{
    crate::session_store::lemma_sound_record(store, key);
    let partial = store.expired_for(among, now_ms);
    let more_among = among.insert(key);
    let more = store.expired_for(more_among, now_ms);
    let record = store.rec(key);
    assert forall|id: SessionId| #[trigger]
        store.proof_expired_of(more_among, now_ms, id) == (store.proof_expired_of(
            among,
            now_ms,
            id,
        ) || (record.proof_expired(now_ms) && (record.recovery->0).recovery.session == id)) by {
        if store.proof_expired_of(more_among, now_ms, id) {
            let k = choose|k: SessionKeyModel| #[trigger]
                more_among.contains(k) && store.rec(k).proof_expired(now_ms) && (store.rec(
                    k,
                ).recovery->0).recovery.session == id;
            if k != key {
                assert(among.contains(k));
            }
        }
        if store.proof_expired_of(among, now_ms, id) {
            let k = choose|k: SessionKeyModel| #[trigger]
                among.contains(k) && store.rec(k).proof_expired(now_ms) && (store.rec(
                    k,
                ).recovery->0).recovery.session == id;
            assert(more_among.contains(k));
        }
        if record.proof_expired(now_ms) && (record.recovery->0).recovery.session == id {
            assert(more_among.contains(key));
        }
    }
    if record.proof_expired(now_ms) && !among.contains(key) {
        let id = (record.recovery->0).recovery.session;
        let invalid = partial.with_sess(id, partial.sess(id).invalid_now());
        assert(store.proof_expired_of(more_among, now_ms, id));
        assert(partial.sess(id).invalid_now() == store.sess(id).invalid_now());
        assert(more.records =~= invalid.with_recovery(key, None).records);
        assert(more.sessions =~= invalid.sessions);
    } else {
        if record.proof_expired(now_ms) {
            assert(among.contains(key));
            assert(store.proof_expired_of(among, now_ms, (record.recovery->0).recovery.session));
        }
        assert(more.records =~= partial.records);
        assert(more.sessions =~= partial.sessions);
    }
}

impl PeerSessionStore {
    /// Removes the proofs that have outlived their time.
    pub fn expire_responder_recoveries(&mut self, quotas: &mut SessionQuotas, now_ms: u64) -> (removed:
        usize)
        requires
            old(self).wf(),
        ensures
            final(self).wf(),
            final(self)@ == old(self)@.expired(now_ms),
            old(self)@.expired_keys(now_ms).finite(),
            removed == old(self)@.expired_keys(now_ms).len(),
            *final(quotas) == proofs_released(*old(quotas), removed as nat),
    {
        let keys = self.keys();
        let mut removed: usize = 0;
        let mut i: usize = 0;
        let ghost mut seen = Set::<SessionKeyModel>::empty();
        let ghost mut gone = Set::<SessionKeyModel>::empty();
        let ghost before = self@;
        proof {
            self.lemma_total();
            assert(before.expired_for(seen, now_ms).records =~= before.records);
            assert(before.expired_for(seen, now_ms).sessions =~= before.sessions);
        }
        while i < keys.len()
            invariant
                self.wf(),
                before.sound(),
                self@ == before.expired_for(seen, now_ms),
                i <= keys@.len(),
                removed <= i,
                gone.finite(),
                gone.len() == removed,
                gone == before.expired_among(seen, now_ms),
                *quotas == proofs_released(*old(quotas), removed as nat),
                forall|key: SessionKeyModel| #[trigger]
                    seen.contains(key) <==> exists|k: int|
                        0 <= k < i && (#[trigger] keys@[k])@ == key,
                forall|a: int, b: int|
                    0 <= a < b < keys@.len() ==> (#[trigger] keys@[a])@ != (#[trigger] keys@[b])@,
            decreases keys@.len() - i,
        {
            let key = &keys[i];
            let ghost now_seen = seen.insert(key@);
            proof {
                if seen.contains(key@) {
                    let k = choose|k: int| 0 <= k < i && (#[trigger] keys@[k])@ == key@;
                    assert(keys@[k]@ != keys@[i as int]@);
                }
                lemma_one_more_expired(before, seen, key@, now_ms);
                crate::session_store::lemma_sound_record(before, key@);
                crate::session_store::lemma_sound_record(self@, key@);
                broadcast use crate::session_store::group_sound;

                assert(self@.rec(key@) == before.rec(key@));
            }
            if let Some(record) = self.recovery_of(key) {
                if crate::clock::time_since(record.created_at, now_ms) >= INITIATOR_RECOVERY_LIFETIME_MS {
                    self.invalidate_session(record.recovery.session);
                    self.set_recovery(key, None);
                    quotas.release_recovery();
                    removed = removed + 1;
                    proof {
                        gone = gone.insert(key@);
                    }
                }
            }
            proof {
                assert(gone =~= before.expired_among(now_seen, now_ms));
                seen = now_seen;
                assert forall|k: SessionKeyModel| #[trigger] seen.contains(k) <==> exists|n: int|
                    0 <= n < i + 1 && (#[trigger] keys@[n])@ == k by {
                    if seen.contains(k) && k != key@ {
                        let n = choose|n: int| 0 <= n < i && (#[trigger] keys@[n])@ == k;
                        assert(keys@[n]@ == k);
                    }
                    if k == key@ {
                        assert(keys@[i as int]@ == k);
                    }
                }
            }
            i = i + 1;
        }
        proof {
            assert forall|key: SessionKeyModel| !seen.contains(key) implies before.rec(key)
                == KeyRecord::empty_record() by {}
            assert(before.expired_among(seen, now_ms) =~= before.expired_keys(now_ms));
            assert forall|id: SessionId| before.proof_expired_of(seen, now_ms, id)
                == before.proof_expired_of(Set::full(), now_ms, id) by {
                if before.proof_expired_of(Set::full(), now_ms, id) {
                    let k = choose|k: SessionKeyModel| #[trigger]
                        Set::<SessionKeyModel>::full().contains(k) && before.rec(k).proof_expired(
                            now_ms,
                        ) && (before.rec(k).recovery->0).recovery.session == id;
                    assert(seen.contains(k));
                }
                if before.proof_expired_of(seen, now_ms, id) {
                    let k = choose|k: SessionKeyModel| #[trigger]
                        seen.contains(k) && before.rec(k).proof_expired(now_ms) && (before.rec(
                            k,
                        ).recovery->0).recovery.session == id;
                    assert(Set::<SessionKeyModel>::full().contains(k));
                }
            }
            assert(before.expired_for(seen, now_ms).records =~= before.expired(now_ms).records);
            assert(before.expired_for(seen, now_ms).sessions =~= before.expired(now_ms).sessions);
        }
        removed
    }
}

impl StoreModel {
    pub open spec fn proof_id(self, key: SessionKeyModel) -> Option<u128> {
        match self.rec(key).recovery {
            Some(record) => Some(record.identity.transition_id),
            None => None,
        }
    }

    /// A committed transition that the identity names: by its proof, or by the
    /// history of the published session.
    pub open spec fn reconciled(self, identity: IdentityModel) -> Option<ResponderTransitionRecovery> {
        let record = self.rec(identity.key);
        if record.recovery is Some && (record.recovery->0).identity.authenticated_as(
            identity.fields,
        ) {
            Some((record.recovery->0).recovery)
        } else {
            match self.published(identity.key) {
                None => None,
                Some(id) => {
                    let session = self.sess(id);
                    if session.metadata_session_id != identity.fields.session_metadata_id {
                        None
                    } else {
                        match session.committed_as(identity.fields) {
                            None => None,
                            Some(committed) => Some(
                                ResponderTransitionRecovery {
                                    session: id,
                                    action: committed.action,
                                    session_generation: committed.session_generation,
                                    root_key: committed.root_key,
                                    initial_epoch: committed.initial_epoch,
                                    transition_id: committed.transition_id,
                                    transition_revision: committed.transition_revision,
                                },
                            ),
                        }
                    }
                },
            }
        }
    }

    /// Whether a staged transition is still the one that the store knows.
    pub open spec fn plan_live(self, key: SessionKeyModel, plan: ResponderPlan) -> bool {
        match plan.action {
            PeerSessionAction::Create => self.rec(key).pending_create == Some(plan.session),
            _ => self.rec(key).active is Some && (self.rec(key).active->0).session == plan.session,
        }
    }

    /// Whether the proof that a staged transition depends on can be cleared.
    pub open spec fn authenticate_check(
        self,
        key: SessionKeyModel,
        prepared: UpsertResponderSessionReturn,
        acknowledged: u128,
    ) -> Result<(), SessionError> {
        if prepared.prepared_key@ != key || prepared.proof_dependency != Some(acknowledged) {
            Err(SessionError::ProofDependencyMismatch)
        } else if prepared.proof_cleared {
            Ok(())
        } else if !self.plan_live(key, prepared.plan()) {
            Err(SessionError::TransitionNotPending)
        } else {
            match self.proof_id(key) {
                None => Err(SessionError::NoProofPending),
                Some(id) => if id != acknowledged {
                    Err(SessionError::ProofAcknowledgementMismatch)
                } else {
                    Ok(())
                },
            }
        }
    }
}

impl PeerSessionStore {
    pub(crate) fn drop_proof(&mut self, quotas: &mut SessionQuotas, key: &SessionKey)
        requires
            old(self).wf(),
        ensures
            final(self).wf(),
            final(self)@ == old(self)@.with_recovery(key@, None),
            *final(quotas) == old(quotas).without_recovery(),
    {
        proof {
            crate::session_store::lemma_sound_record(self@, key@);
            broadcast use crate::session_store::group_sound;

        }
        self.set_recovery(key, None);
        quotas.release_recovery();
    }

    /// Removes a proof by its exact identity.
    pub fn consume_responder_recovery(
        &mut self,
        quotas: &mut SessionQuotas,
        identity: &InitiatorTransitionIdentity,
        now_ms: u64,
    ) -> (consumed: bool)
        requires
            old(self).wf(),
        ensures
            final(self).wf(),
            ({
                let store = old(self)@.expired(now_ms);
                let slots = proofs_released(
                    *old(quotas),
                    old(self)@.expired_keys(now_ms).len(),
                );
                let record = store.rec(identity@.key);
                &&& consumed == (record.recovery is Some
                    && (record.recovery->0).identity.authenticated_as(identity@.fields))
                &&& consumed ==> final(self)@ == store.with_recovery(identity@.key, None)
                    && *final(quotas) == slots.without_recovery()
                &&& !consumed ==> final(self)@ == store && *final(quotas) == slots
            }),
    {
        let _ = self.expire_responder_recoveries(quotas, now_ms);
        match self.recovery_of(&identity.session_key) {
            Some(record) => {
                if !record.identity.matches_authenticated_fields(&identity.fields()) {
                    return false;
                }
                self.drop_proof(quotas, &identity.session_key);
                true
            },
            None => false,
        }
    }

    /// Removes one committed responder proof after the authenticated retry.
    pub fn acknowledge_responder_recovery(
        &mut self,
        quotas: &mut SessionQuotas,
        key: &SessionKey,
        transition_id: u128,
        now_ms: u64,
    ) -> (acknowledged: bool)
        requires
            old(self).wf(),
        ensures
            final(self).wf(),
            ({
                let store = old(self)@.expired(now_ms);
                let slots = proofs_released(
                    *old(quotas),
                    old(self)@.expired_keys(now_ms).len(),
                );
                &&& acknowledged == (store.proof_id(key@) == Some(transition_id))
                &&& acknowledged ==> final(self)@ == store.with_recovery(key@, None)
                    && *final(quotas) == slots.without_recovery()
                &&& !acknowledged ==> final(self)@ == store && *final(quotas) == slots
            }),
    {
        let _ = self.expire_responder_recoveries(quotas, now_ms);
        match self.recovery_of(key) {
            Some(record) => {
                if record.identity.transition_id != transition_id {
                    return false;
                }
                self.drop_proof(quotas, key);
                true
            },
            None => false,
        }
    }

    pub fn has_responder_recovery(
        &mut self,
        quotas: &mut SessionQuotas,
        key: &SessionKey,
        now_ms: u64,
    ) -> (present: bool)
        requires
            old(self).wf(),
        ensures
            final(self).wf(),
            final(self)@ == old(self)@.expired(now_ms),
            *final(quotas) == proofs_released(
                *old(quotas),
                old(self)@.expired_keys(now_ms).len(),
            ),
            present == (final(self)@.rec(key@).recovery is Some),
    {
        let _ = self.expire_responder_recoveries(quotas, now_ms);
        self.recovery_of(key).is_some()
    }

    pub fn has_pending_create(&self, key: &SessionKey) -> (pending: bool)
        requires
            self.wf(),
        ensures
            pending == (self@.rec(key@).pending_create is Some),
    {
        self.pending_create_of(key).is_some()
    }

    pub fn responder_recovery_id(
        &mut self,
        quotas: &mut SessionQuotas,
        key: &SessionKey,
        now_ms: u64,
    ) -> (id: Option<u128>)
        requires
            old(self).wf(),
        ensures
            final(self).wf(),
            final(self)@ == old(self)@.expired(now_ms),
            *final(quotas) == proofs_released(
                *old(quotas),
                old(self)@.expired_keys(now_ms).len(),
            ),
            id == final(self)@.proof_id(key@),
    {
        let _ = self.expire_responder_recoveries(quotas, now_ms);
        match self.recovery_of(key) {
            Some(record) => Some(record.identity.transition_id),
            None => None,
        }
    }

    /// An already committed responder transition. No keys are staged.
    pub fn reconcile_active_responder_transition(
        &mut self,
        quotas: &mut SessionQuotas,
        identity: &InitiatorTransitionIdentity,
        now_ms: u64,
    ) -> (found: Option<ResponderTransitionRecovery>)
        requires
            old(self).wf(),
        ensures
            final(self).wf(),
            final(self)@ == old(self)@.expired(now_ms),
            *final(quotas) == proofs_released(
                *old(quotas),
                old(self)@.expired_keys(now_ms).len(),
            ),
            found == final(self)@.reconciled(identity@),
    {
        let _ = self.expire_responder_recoveries(quotas, now_ms);
        proof {
            crate::session_store::lemma_sound_record(self@, identity@.key);
        }
        let fields = identity.fields();
        if let Some(record) = self.recovery_of(&identity.session_key) {
            if record.identity.matches_authenticated_fields(&fields) {
                return Some(record.recovery);
            }
        }
        let id: SessionId = match self.peek(&identity.session_key) {
            Some(id) => id,
            None => {
                return None;
            },
        };
        let session = match self.session(id) {
            Some(session) => session,
            None => {
                return None;
            },
        };
        if session.metadata_session_id() != identity.session_metadata_id {
            return None;
        }
        match session.committed_transition(&fields) {
            Some(committed) => Some(
                ResponderTransitionRecovery {
                    session: id,
                    action: committed.action,
                    session_generation: committed.session_generation,
                    root_key: committed.root_key,
                    initial_epoch: committed.initial_epoch,
                    transition_id: committed.transition_id,
                    transition_revision: committed.transition_revision,
                },
            ),
            None => None,
        }
    }

    /// Removes the previous proof after authenticated final handshake data. The
    /// staged transition holds it until its commit.
    pub fn authenticate_prepared_responder_transition(
        &mut self,
        key: &SessionKey,
        prepared: &mut UpsertResponderSessionReturn,
        acknowledged_transition_id: u128,
    ) -> (result: Result<(), SessionError>)
        requires
            old(self).wf(),
            old(prepared).held_in(old(self)@),
        ensures
            final(self).wf(),
            final(prepared).held_in(final(self)@),
            result == old(self)@.authenticate_check(
                key@,
                *old(prepared),
                acknowledged_transition_id,
            ),
            if result is Ok && !old(prepared).proof_cleared {
                &&& final(self)@ == old(self)@.with_recovery(key@, None)
                &&& *final(prepared) == (UpsertResponderSessionReturn {
                    proof_cleared: true,
                    proof_backup: old(self)@.rec(key@).recovery,
                    ..*old(prepared)
                })
            } else {
                final(self)@ == old(self)@ && *final(prepared) == *old(prepared)
            },
    {
        proof {
            crate::session_store::lemma_sound_record(self@, key@);
            broadcast use crate::session_store::group_sound;

        }
        if !prepared.prepared_key.same(key) || prepared.proof_dependency != Some(
            acknowledged_transition_id,
        ) {
            return Err(SessionError::ProofDependencyMismatch);
        }
        if prepared.proof_cleared {
            return Ok(());
        }
        let live = match prepared.action {
            PeerSessionAction::Create => self.pending_create_of(key) == Some(prepared.session),
            _ => match self.active_of(key) {
                Some(entry) => entry.session == prepared.session,
                None => false,
            },
        };
        if !live {
            return Err(SessionError::TransitionNotPending);
        }
        match self.recovery_of(key) {
            None => Err(SessionError::NoProofPending),
            Some(record) => {
                if record.identity.transition_id != acknowledged_transition_id {
                    return Err(SessionError::ProofAcknowledgementMismatch);
                }
                self.set_recovery(key, None);
                prepared.proof_backup = Some(record);
                prepared.proof_cleared = true;
                Ok(())
            },
        }
    }
}

/// Whether a staged transition that is given up owes its proof back.
pub open spec fn owes_proof(prepared: UpsertResponderSessionReturn) -> bool {
    prepared.proof_dependency is Some && prepared.proof_cleared && !prepared.committed
}

impl UpsertResponderSessionReturn {
    /// Clears the previous proof after authenticated peer confirmation.
    pub fn authenticate_recovery(&mut self, store: &mut PeerSessionStore) -> (result: Result<
        (),
        SessionError,
    >)
        requires
            old(store).wf(),
            old(self).held_in(old(store)@),
        ensures
            final(store).wf(),
            final(self).held_in(final(store)@),
            old(self).proof_dependency is None ==> {
                &&& result == Ok::<(), SessionError>(())
                &&& final(store)@ == old(store)@
                &&& *final(self) == *old(self)
            },
            old(self).proof_dependency matches Some(acknowledged) ==> {
                &&& result == old(store)@.authenticate_check(
                    old(self).prepared_key@,
                    *old(self),
                    acknowledged,
                )
                &&& if result is Ok && !old(self).proof_cleared {
                    &&& final(store)@ == old(store)@.with_recovery(old(self).prepared_key@, None)
                    &&& *final(self) == (UpsertResponderSessionReturn {
                        proof_cleared: true,
                        proof_backup: old(store)@.rec(old(self).prepared_key@).recovery,
                        ..*old(self)
                    })
                } else {
                    final(store)@ == old(store)@ && *final(self) == *old(self)
                }
            },
    {
        match self.proof_dependency {
            None => Ok(()),
            Some(acknowledged) => {
                let key = self.prepared_key.duplicate();
                store.authenticate_prepared_responder_transition(&key, self, acknowledged)
            },
        }
    }

    /// Gives a cleared proof back to the store when the transition is given up
    /// before its commit.
    pub fn restore_uncommitted_proof(
        &mut self,
        store: &mut PeerSessionStore,
        quotas: &mut SessionQuotas,
    )
        requires
            old(store).wf(),
            old(self).held_in(old(store)@),
        ensures
            final(store).wf(),
            if owes_proof(*old(self)) {
                let key = old(self).prepared_key@;
                let occupied = old(store)@.rec(key).recovery is Some;
                &&& *final(self) == (UpsertResponderSessionReturn {
                    proof_cleared: false,
                    proof_backup: None,
                    ..*old(self)
                })
                &&& final(store)@ == (if old(self).proof_backup is Some && !occupied {
                    old(store)@.with_recovery(key, old(self).proof_backup)
                } else {
                    old(store)@
                })
                &&& *final(quotas) == (if old(self).proof_backup is Some && occupied {
                    old(quotas).without_recovery()
                } else {
                    *old(quotas)
                })
            } else {
                &&& *final(self) == *old(self)
                &&& final(store)@ == old(store)@
                &&& *final(quotas) == *old(quotas)
            },
    {
        if self.proof_dependency.is_none() || !self.proof_cleared || self.committed {
            return ;
        }
        proof {
            crate::session_store::lemma_sound_record(store@, self.prepared_key@);
            broadcast use crate::session_store::group_sound;

        }
        self.proof_cleared = false;
        match self.proof_backup {
            None => {},
            Some(backup) => {
                self.proof_backup = None;
                if store.recovery_of(&self.prepared_key).is_some() {
                    quotas.release_recovery();
                } else {
                    store.set_recovery(&self.prepared_key, Some(backup));
                }
            },
        }
    }
}

/// What staging a responder transition gives and changes.
pub open spec fn staged_with(
    store: StoreModel,
    key: SessionKeyModel,
    send_algorithm: Seq<char>,
    recv_algorithm: Seq<char>,
    peer_static_pubkey: Option<Key32>,
    acknowledged: Option<u128>,
    seeds: ResponderSeeds,
    now_ms: u64,
    prepared: Result<UpsertResponderSessionReturn, SessionError>,
    store_after: StoreModel,
) -> bool {
    let (staged, plan) = store.responder_staged(
        key,
        send_algorithm,
        recv_algorithm,
        peer_static_pubkey,
        acknowledged is Some,
        seeds,
        now_ms,
    );
    &&& store_after == staged
    &&& match plan {
        Ok(plan) => prepared matches Ok(p) && p.just_staged(key, plan, acknowledged) && p.held_in(
            store_after,
        ),
        Err(e) => prepared == Err::<UpsertResponderSessionReturn, SessionError>(e),
    }
}

impl ResponderSeeds {
    /// The random values of a responder transition, if all of them were drawn.
    pub fn of_draws(
        root_key: Option<Key32>,
        transition_id: Option<u128>,
        metadata_id: Option<u128>,
    ) -> (seeds: Option<ResponderSeeds>)
        ensures
            seeds == (if root_key is Some && transition_id is Some && metadata_id is Some {
                Some(
                    ResponderSeeds {
                        root_key: root_key->0,
                        transition_id: transition_id->0,
                        metadata_id: metadata_id->0,
                    },
                )
            } else {
                None
            }),
    {
        match (root_key, transition_id, metadata_id) {
            (Some(root_key), Some(transition_id), Some(metadata_id)) => Some(
                ResponderSeeds { root_key, transition_id, metadata_id },
            ),
            _ => None,
        }
    }

    /// Draws the random values of a responder transition. Which values come, and
    /// when there are none, rests on the system.
    fn draw() -> (seeds: Option<ResponderSeeds>)
        ensures
            seeds matches Some(s) ==> s.transition_id != 0,
            seeds matches Some(s) ==> crate::outside::is_v4_identifier(s.metadata_id),
    {
        let root_key = PeerSession::new_root_key();
        let transition_id = new_transition_id();
        let metadata_id = new_uuid();
        ResponderSeeds::of_draws(root_key, transition_id, metadata_id)
    }
}

impl PeerSessionStore {
    fn stage_with_seeds(
        &mut self,
        key: &SessionKey,
        send_algorithm: String,
        recv_algorithm: String,
        peer_static_pubkey: Option<Key32>,
        acknowledged: Option<u128>,
        seeds: ResponderSeeds,
        now_ms: u64,
    ) -> (prepared: Result<UpsertResponderSessionReturn, SessionError>)
        requires
            old(self).wf(),
        ensures
            final(self).wf(),
            staged_with(
                old(self)@,
                key@,
                send_algorithm@,
                recv_algorithm@,
                peer_static_pubkey,
                acknowledged,
                seeds,
                now_ms,
                prepared,
                final(self)@,
            ),
    {
        let plan = self.stage_responder(
            key,
            send_algorithm,
            recv_algorithm,
            peer_static_pubkey,
            acknowledged.is_some(),
            seeds,
            now_ms,
        );
        match plan {
            Ok(plan) => Ok(UpsertResponderSessionReturn::staged(key, plan, acknowledged)),
            Err(e) => Err(e),
        }
    }

    fn stage_freshly(
        &mut self,
        key: &SessionKey,
        send_algorithm: String,
        recv_algorithm: String,
        peer_static_pubkey: Option<Key32>,
        acknowledged: Option<u128>,
        now_ms: u64,
    ) -> (prepared: Result<UpsertResponderSessionReturn, SessionError>)
        requires
            old(self).wf(),
        ensures
            final(self).wf(),
            freshly_staged(
                old(self)@,
                key@,
                send_algorithm@,
                recv_algorithm@,
                peer_static_pubkey,
                acknowledged,
                now_ms,
                prepared,
                final(self)@,
            ),
    {
        let drawn = ResponderSeeds::draw();
        let seeds = match drawn {
            Some(seeds) => seeds,
            None => {
                if !self.refuses_responder(
                    key,
                    &send_algorithm,
                    &recv_algorithm,
                    peer_static_pubkey,
                    acknowledged.is_some(),
                ) {
                    return Err(SessionError::RandomUnavailable);
                }
                // The refusal does not depend on the random values.
                ResponderSeeds { root_key: Key32 { hi: 0, lo: 0 }, transition_id: 1, metadata_id: 0 }
            },
        };
        let ghost used = seeds;
        let prepared = self.stage_with_seeds(
            key,
            send_algorithm,
            recv_algorithm,
            peer_static_pubkey,
            acknowledged,
            seeds,
            now_ms,
        );
        proof {
            let witness = if drawn is Some {
                used
            } else {
                ResponderSeeds { metadata_id: crate::outside::v4_identifier(0), ..used }
            };
            assert(crate::outside::is_v4_identifier(witness.metadata_id));
            assert(staged_with(
                old(self)@,
                key@,
                send_algorithm@,
                recv_algorithm@,
                peer_static_pubkey,
                acknowledged,
                witness,
                now_ms,
                prepared,
                self@,
            ));
        }
        prepared
    }

    /// Stages one responder transition. No proof may be pending.
    pub fn prepare_responder_session(
        &mut self,
        key: &SessionKey,
        send_algorithm: String,
        recv_algorithm: String,
        peer_static_pubkey: Option<Key32>,
        now_ms: u64,
    ) -> (prepared: Result<UpsertResponderSessionReturn, SessionError>)
        requires
            old(self).wf(),
        ensures
            final(self).wf(),
            freshly_staged(
                old(self)@,
                key@,
                send_algorithm@,
                recv_algorithm@,
                peer_static_pubkey,
                None,
                now_ms,
                prepared,
                final(self)@,
            ),
    {
        self.stage_freshly(
            key,
            send_algorithm,
            recv_algorithm,
            peer_static_pubkey,
            None,
            now_ms,
        )
    }

    /// Stages one responder transition while the previous proof stays. The
    /// proof is removed only after authenticated peer confirmation.
    pub fn acknowledge_and_prepare_responder_session(
        &mut self,
        quotas: &mut SessionQuotas,
        key: &SessionKey,
        acknowledged_transition_id: u128,
        send_algorithm: String,
        recv_algorithm: String,
        peer_static_pubkey: Option<Key32>,
        now_ms: u64,
    ) -> (prepared: Result<UpsertResponderSessionReturn, SessionError>)
        requires
            old(self).wf(),
        ensures
            final(self).wf(),
            *final(quotas) == proofs_released(
                *old(quotas),
                old(self)@.expired_keys(now_ms).len(),
            ),
            staged_with_proof(
                old(self)@.expired(now_ms),
                key@,
                acknowledged_transition_id,
                send_algorithm@,
                recv_algorithm@,
                peer_static_pubkey,
                now_ms,
                prepared,
                final(self)@,
            ),
    {
        self.prepare_responder_session_with_recovery_proof(
            quotas,
            key,
            acknowledged_transition_id,
            send_algorithm,
            recv_algorithm,
            peer_static_pubkey,
            now_ms,
        )
    }

    /// Stages one responder transition that depends on the pending proof.
    pub fn prepare_responder_session_with_recovery_proof(
        &mut self,
        quotas: &mut SessionQuotas,
        key: &SessionKey,
        acknowledged_transition_id: u128,
        send_algorithm: String,
        recv_algorithm: String,
        peer_static_pubkey: Option<Key32>,
        now_ms: u64,
    ) -> (prepared: Result<UpsertResponderSessionReturn, SessionError>)
        requires
            old(self).wf(),
        ensures
            final(self).wf(),
            *final(quotas) == proofs_released(
                *old(quotas),
                old(self)@.expired_keys(now_ms).len(),
            ),
            staged_with_proof(
                old(self)@.expired(now_ms),
                key@,
                acknowledged_transition_id,
                send_algorithm@,
                recv_algorithm@,
                peer_static_pubkey,
                now_ms,
                prepared,
                final(self)@,
            ),
    {
        let _ = self.expire_responder_recoveries(quotas, now_ms);
        match self.recovery_of(key) {
            None => {
                return Err(SessionError::NoProofPending);
            },
            Some(record) => {
                if record.identity.transition_id != acknowledged_transition_id {
                    return Err(SessionError::ProofAcknowledgementMismatch);
                }
            },
        }
        self.stage_freshly(
            key,
            send_algorithm,
            recv_algorithm,
            peer_static_pubkey,
            Some(acknowledged_transition_id),
            now_ms,
        )
    }
}

/// What staging a responder transition with fresh random values gives and
/// changes. The system may have none; that matters only to a transition that
/// nothing else refuses.
pub open spec fn freshly_staged(
    store: StoreModel,
    key: SessionKeyModel,
    send_algorithm: Seq<char>,
    recv_algorithm: Seq<char>,
    peer_static_pubkey: Option<Key32>,
    acknowledged: Option<u128>,
    now_ms: u64,
    prepared: Result<UpsertResponderSessionReturn, SessionError>,
    store_after: StoreModel,
) -> bool {
    ||| exists|seeds: ResponderSeeds|
        {
            &&& seeds.transition_id != 0
            &&& crate::outside::is_v4_identifier(seeds.metadata_id)
            &&& #[trigger] staged_with(
                store,
                key,
                send_algorithm,
                recv_algorithm,
                peer_static_pubkey,
                acknowledged,
                seeds,
                now_ms,
                prepared,
                store_after,
            )
        }
    ||| {
        &&& store_after == store
        &&& prepared == Err::<UpsertResponderSessionReturn, SessionError>(
            SessionError::RandomUnavailable,
        )
        &&& !store.responder_refuses(
            key,
            send_algorithm,
            recv_algorithm,
            peer_static_pubkey,
            acknowledged is Some,
        )
    }
}

/// What staging a transition on a pending proof gives and changes. `store` has
/// no outlived proofs.
pub open spec fn staged_with_proof(
    store: StoreModel,
    key: SessionKeyModel,
    acknowledged: u128,
    send_algorithm: Seq<char>,
    recv_algorithm: Seq<char>,
    peer_static_pubkey: Option<Key32>,
    now_ms: u64,
    prepared: Result<UpsertResponderSessionReturn, SessionError>,
    store_after: StoreModel,
) -> bool {
    match store.proof_id(key) {
        None => store_after == store && prepared == Err::<
            UpsertResponderSessionReturn,
            SessionError,
        >(SessionError::NoProofPending),
        Some(id) => if id != acknowledged {
            store_after == store && prepared == Err::<UpsertResponderSessionReturn, SessionError>(
                SessionError::ProofAcknowledgementMismatch,
            )
        } else {
            freshly_staged(
                store,
                key,
                send_algorithm,
                recv_algorithm,
                peer_static_pubkey,
                Some(acknowledged),
                now_ms,
                prepared,
                store_after,
            )
        },
    }
}

/// Removing outlived proofs a second time changes nothing.
pub proof fn lemma_expired_once(store: StoreModel, now_ms: u64)
    ensures
        store.expired(now_ms).expired(now_ms) == store.expired(now_ms),
        store.expired(now_ms).expired_keys(now_ms) == Set::<SessionKeyModel>::empty(),
{
    let once = store.expired(now_ms);
    assert(once.expired_keys(now_ms) =~= Set::<SessionKeyModel>::empty());
    assert forall|id: SessionId| !once.proof_expired_of(Set::full(), now_ms, id) by {}
    assert(once.expired(now_ms).records =~= once.records);
    assert(once.expired(now_ms).sessions =~= once.sessions);
}

} // verus!
