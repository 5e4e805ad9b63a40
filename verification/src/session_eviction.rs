//! Eviction of idle sessions.

use vstd::prelude::*;
use crate::session_store::{
    KeyRecord, PeerSessionEntry, PeerSessionStore, SessionId, SessionQuotas, StoreModel,
    SESSION_IDLE_TIMEOUT_MS,
};
use crate::session_types::{SessionKey, SessionKeyModel};

verus! {

impl StoreModel {
    /// Whether some record names a session other than as an active one.
    pub open spec fn pinned(self, id: SessionId) -> bool {
        exists|key: SessionKeyModel| #[trigger] self.rec(key).pins(id)
    }

    /// Whether an active session outlives an eviction: it is valid, and in use
    /// or used lately.
    pub open spec fn outlives(
        self,
        entry: PeerSessionEntry,
        in_use: Seq<SessionId>,
        idle_ms: u64,
        now_ms: u64,
    ) -> bool {
        &&& self.sess(entry.session).valid()
        &&& in_use.contains(entry.session) || self.pinned(entry.session)
            || crate::clock::elapsed(entry.last_used_at, now_ms) < idle_ms
    }

    /// The store after idle sessions of some keys were withdrawn.
    pub open spec fn idle_withdrawn(
        self,
        among: Set<SessionKeyModel>,
        in_use: Seq<SessionId>,
        idle_ms: u64,
        now_ms: u64,
    ) -> StoreModel {
        StoreModel {
            records: Map::new(
                |key: SessionKeyModel| true,
                |key: SessionKeyModel|
                    if among.contains(key) && self.rec(key).active is Some && !self.outlives(
                        self.rec(key).active->0,
                        in_use,
                        idle_ms,
                        now_ms,
                    ) {
                        KeyRecord { active: None, ..self.rec(key) }
                    } else {
                        self.rec(key)
                    },
            ),
            ..self
        }
    }

    /// Whether a session is named by a record or used from outside.
    pub open spec fn referenced(self, in_use: Seq<SessionId>, id: SessionId) -> bool {
        in_use.contains(id) || exists|key: SessionKeyModel| #[trigger] self.rec(key).names(id)
    }

    /// The store without the sessions that nothing refers to.
    pub open spec fn collected(self, in_use: Seq<SessionId>) -> StoreModel {
        StoreModel {
            sessions: Map::new(
                |id: SessionId| self.has(id) && self.referenced(in_use, id),
                |id: SessionId| self.sess(id),
            ),
            ..self
        }
    }

    /// The store after an eviction.
    pub open spec fn evicted(self, in_use: Seq<SessionId>, idle_ms: u64, now_ms: u64) -> StoreModel {
        self.idle_withdrawn(Set::full(), in_use, idle_ms, now_ms).collected(in_use)
    }
}

fn contains_id(ids: &Vec<SessionId>, id: SessionId) -> (present: bool)
    ensures
        present == ids@.contains(id),
{
    let mut i: usize = 0;
    while i < ids.len()
        invariant
            i <= ids@.len(),
            forall|k: int| 0 <= k < i ==> ids@[k] != id,
        decreases ids@.len() - i,
    {
        if ids[i] == id {
            assert(ids@.contains(id));
            return true;
        }
        i = i + 1;
    }
    false
}

impl PeerSessionStore {
    fn push_pins(&self, key: &SessionKey, ids: &mut Vec<SessionId>)
        requires
            self.wf(),
        ensures
            forall|id: SessionId| #[trigger]
                final(ids)@.contains(id) <==> old(ids)@.contains(id) || self@.rec(key@).pins(id),
    {
        if let Some(id) = self.pending_create_of(key) {
            ids.push(id);
            proof {
                lemma_pushed(old(ids)@, id);
            }
        }
        let ghost a = ids@;
        if let Some(kept) = self.in_doubt_of(key) {
            ids.push(kept.body.session);
            proof {
                lemma_pushed(a, kept.body.session);
            }
        }
        let ghost b = ids@;
        if let Some(record) = self.recovery_of(key) {
            ids.push(record.recovery.session);
            proof {
                lemma_pushed(b, record.recovery.session);
            }
        }
        let ghost c = ids@;
        if let Some(receipt) = self.receipt_of(key) {
            ids.push(receipt.session);
            proof {
                lemma_pushed(c, receipt.session);
            }
        }
    }

    /// The sessions that records name other than as active ones, and the active
    /// ones too where they are asked for.
    fn named_sessions(&self, with_active: bool) -> (ids: Vec<SessionId>)
        requires
            self.wf(),
        ensures
            forall|id: SessionId| #[trigger]
                ids@.contains(id) <==> exists|key: SessionKeyModel|
                    (#[trigger] self@.rec(key)).pins(id) || (with_active && self@.rec(key).names(id)),
    {
        let keys = self.keys();
        let mut ids: Vec<SessionId> = Vec::new();
        let mut i: usize = 0;
        while i < keys.len()
            invariant
                self.wf(),
                i <= keys@.len(),
                forall|id: SessionId| #[trigger]
                    ids@.contains(id) <==> exists|k: int|
                        0 <= k < i && {
                            let record = self@.rec((#[trigger] keys@[k])@);
                            record.pins(id) || (with_active && record.names(id))
                        },
            decreases keys@.len() - i,
        {
            let ghost before = ids@;
            let ghost record = self@.rec(keys@[i as int]@);
            self.push_pins(&keys[i], &mut ids);
            let ghost pins = ids@;
            if with_active {
                if let Some(entry) = self.active_of(&keys[i]) {
                    ids.push(entry.session);
                    proof {
                        lemma_pushed(pins, entry.session);
                    }
                }
            }
            proof {
                assert forall|id: SessionId| #[trigger] ids@.contains(id) <==> exists|k: int|
                    0 <= k < i + 1 && {
                        let record = self@.rec((#[trigger] keys@[k])@);
                        record.pins(id) || (with_active && record.names(id))
                    } by {
                    let of_this = record.pins(id) || (with_active && record.names(id));
                    assert(ids@.contains(id) <==> before.contains(id) || of_this);
                    if before.contains(id) {
                        let k = choose|k: int|
                            0 <= k < i && {
                                let record = self@.rec((#[trigger] keys@[k])@);
                                record.pins(id) || (with_active && record.names(id))
                            };
                        assert(0 <= k < i + 1);
                    }
                    if of_this {
                        assert(self@.rec(keys@[i as int]@) == record);
                    }
                }
            }
            i = i + 1;
        }
        proof {
            assert forall|id: SessionId| #[trigger] ids@.contains(id) <==> exists|
                key: SessionKeyModel,
            |
                (#[trigger] self@.rec(key)).pins(id) || (with_active && self@.rec(key).names(id)) by {
                if exists|key: SessionKeyModel|
                    (#[trigger] self@.rec(key)).pins(id) || (with_active && self@.rec(key).names(id)) {
                    let key = choose|key: SessionKeyModel|
                        (#[trigger] self@.rec(key)).pins(id) || (with_active && self@.rec(
                            key,
                        ).names(id));
                    assert(self@.rec(key) != KeyRecord::empty_record());
                    let k = choose|k: int| 0 <= k < keys@.len() && #[trigger] keys@[k]@ == key;
                    assert(self@.rec(keys@[k]@) == self@.rec(key));
                }
            }
        }
        ids
    }

    fn withdraw_idle(&mut self, in_use: &Vec<SessionId>, idle_ms: u64, now_ms: u64)
        requires
            old(self).wf(),
        ensures
            final(self).wf(),
            final(self)@ == old(self)@.idle_withdrawn(Set::full(), in_use@, idle_ms, now_ms),
    {
        let pins = self.named_sessions(false);
        let keys = self.keys();
        let ghost before = self@;
        let ghost mut seen = Set::<SessionKeyModel>::empty();
        let mut i: usize = 0;
        proof {
            self.lemma_total();
            assert(before.idle_withdrawn(seen, in_use@, idle_ms, now_ms).records
                =~= before.records);
            assert forall|id: SessionId| #[trigger] pins@.contains(id) <==> before.pinned(id) by {
                if before.pinned(id) {
                    let key = choose|key: SessionKeyModel| #[trigger] before.rec(key).pins(id);
                    assert(before.rec(key).pins(id));
                }
            }
        }
        while i < keys.len()
            invariant
                self.wf(),
                before.sound(),
                self@ == before.idle_withdrawn(seen, in_use@, idle_ms, now_ms),
                forall|id: SessionId| #[trigger] pins@.contains(id) <==> before.pinned(id),
                i <= keys@.len(),
                forall|key: SessionKeyModel| #[trigger]
                    seen.contains(key) <==> exists|k: int|
                        0 <= k < i && (#[trigger] keys@[k])@ == key,
                forall|a: int, b: int|
                    0 <= a < b < keys@.len() ==> (#[trigger] keys@[a])@ != (#[trigger] keys@[b])@,
            decreases keys@.len() - i,
        {
            let key = &keys[i];
            let ghost now_seen = seen.insert(key@);
            proof {
                if seen.contains(key@) {
                    let k = choose|k: int| 0 <= k < i && (#[trigger] keys@[k])@ == key@;
                    assert(keys@[k]@ != keys@[i as int]@);
                }
                crate::session_store::lemma_sound_record(before, key@);
                broadcast use crate::session_store::group_sound;

                assert(self@.rec(key@) == before.rec(key@));
            }
            if let Some(entry) = self.active_of(key) {
                let used = contains_id(in_use, entry.session) || contains_id(&pins, entry.session)
                    || crate::clock::time_since(entry.last_used_at, now_ms) < idle_ms;
                if !self.session_is_valid(entry.session) || !used {
                    self.set_active(key, None);
                }
            }
            proof {
                assert(self@.records =~= before.idle_withdrawn(
                    now_seen,
                    in_use@,
                    idle_ms,
                    now_ms,
                ).records);
                seen = now_seen;
                assert forall|k: SessionKeyModel| #[trigger] seen.contains(k) <==> exists|n: int|
                    0 <= n < i + 1 && (#[trigger] keys@[n])@ == k by {
                    if seen.contains(k) && k != key@ {
                        let n = choose|n: int| 0 <= n < i && (#[trigger] keys@[n])@ == k;
                        assert(keys@[n]@ == k);
                    }
                    if k == key@ {
                        assert(keys@[i as int]@ == k);
                    }
                }
            }
            i = i + 1;
        }
        proof {
            assert forall|key: SessionKeyModel| !seen.contains(key) implies before.rec(key)
                == KeyRecord::empty_record() by {}
            assert(before.idle_withdrawn(seen, in_use@, idle_ms, now_ms).records
                =~= before.idle_withdrawn(Set::full(), in_use@, idle_ms, now_ms).records);
        }
    }

    fn collect(&mut self, in_use: &Vec<SessionId>)
        requires
            old(self).wf(),
        ensures
            final(self).wf(),
            final(self)@ == old(self)@.collected(in_use@),
    {
        let named = self.named_sessions(true);
        let ids = self.session_ids();
        let ghost before = self@;
        let mut i: usize = 0;
        proof {
            assert forall|id: SessionId| #[trigger] before.referenced(in_use@, id) <==> in_use@.contains(
                id,
            ) || named@.contains(id) by {
                if exists|key: SessionKeyModel| #[trigger] before.rec(key).names(id) {
                    let key = choose|key: SessionKeyModel| #[trigger] before.rec(key).names(id);
                    assert(before.rec(key).names(id));
                }
                if named@.contains(id) {
                    let key = choose|key: SessionKeyModel|
                        (#[trigger] before.rec(key)).pins(id) || (true && before.rec(key).names(id));
                    assert(before.rec(key).names(id));
                }
            }
        }
        while i < ids.len()
            invariant
                self.tables_wf(),
                i <= ids@.len(),
                forall|id: SessionId| #[trigger]
                    before.referenced(in_use@, id) <==> in_use@.contains(id) || named@.contains(id),
                forall|id: SessionId| #[trigger] before.has(id) <==> ids@.contains(id),
                self@.records == before.records,
                self@.next_session == before.next_session,
                forall|id: SessionId| #[trigger]
                    self@.has(id) ==> before.has(id) && self@.sess(id) == before.sess(id),
                forall|id: SessionId| #[trigger]
                    before.has(id) && before.referenced(in_use@, id) ==> self@.has(id),
                forall|k: int|
                    0 <= k < i && !before.referenced(in_use@, #[trigger] ids@[k]) ==> !self@.has(
                        ids@[k],
                    ),
            decreases ids@.len() - i,
        {
            let id: SessionId = ids[i];
            let ghost held = self@;
            if !contains_id(in_use, id) && !contains_id(&named, id) {
                self.drop_session(id);
                assert(forall|other: SessionId| #[trigger]
                    self@.has(other) <==> held.has(other) && other != id);
            }
            i = i + 1;
        }
        proof {
            let after = before.collected(in_use@);
            assert(self@.sessions =~= after.sessions) by {
                assert forall|id: SessionId| self@.sessions.contains_key(id)
                    == after.sessions.contains_key(id) by {
                    if self@.has(id) {
                        assert(before.has(id));
                        let k = choose|k: int| 0 <= k < ids@.len() && ids@[k] == id;
                        assert(before.referenced(in_use@, ids@[k]));
                    }
                    if after.sessions.contains_key(id) {
                        assert(before.has(id));
                        assert(self@.has(id));
                    }
                }
                assert forall|id: SessionId| self@.sessions.contains_key(id) implies self@.sessions[id]
                    == after.sessions[id] by {
                    assert(self@.has(id));
                }
            }
            reveal(StoreModel::sound);
            assert forall|key: SessionKeyModel, id: SessionId| #[trigger]
                after.rec(key).names(id) implies after.has(id) by {
                assert(before.rec(key).names(id));
                assert(before.referenced(in_use@, id));
                assert(before.has(id));
            }
            assert forall|key: SessionKeyModel| (#[trigger] after.rec(key)).in_doubt is Some implies after.rec(
                key,
            ).in_doubt->0.body.identified_by(after.rec(key).in_doubt->0.identity) by {
                assert(after.rec(key) == before.rec(key));
            }
            assert forall|id: SessionId| #[trigger] after.has(id) implies id < after.next_session by {
                assert(before.has(id));
            }
        }
    }

    /// Evicts the sessions that nobody uses.
    pub fn evict_unused_sessions(
        &mut self,
        quotas: &mut SessionQuotas,
        in_use: &Vec<SessionId>,
        now_ms: u64,
    )
        requires
            old(self).wf(),
        ensures
            final(self).wf(),
            final(self)@ == old(self)@.expired(now_ms).evicted(
                in_use@,
                SESSION_IDLE_TIMEOUT_MS,
                now_ms,
            ),
            *final(quotas) == crate::responder_recovery::proofs_released(
                *old(quotas),
                old(self)@.expired_keys(now_ms).len(),
            ),
    {
        self.evict_unused_sessions_idle(quotas, in_use, SESSION_IDLE_TIMEOUT_MS, now_ms);
    }

    /// Evicts invalid sessions, and those that were not used for `idle_ms` and
    /// that neither a record nor `in_use` refers to.
    pub fn evict_unused_sessions_idle(
        &mut self,
        quotas: &mut SessionQuotas,
        in_use: &Vec<SessionId>,
        idle_ms: u64,
        now_ms: u64,
    )
        requires
            old(self).wf(),
        ensures
            final(self).wf(),
            final(self)@ == old(self)@.expired(now_ms).evicted(in_use@, idle_ms, now_ms),
            *final(quotas) == crate::responder_recovery::proofs_released(
                *old(quotas),
                old(self)@.expired_keys(now_ms).len(),
            ),
    {
        let _ = self.expire_responder_recoveries(quotas, now_ms);
        self.withdraw_idle(in_use, idle_ms, now_ms);
        self.collect(in_use);
    }
}

proof fn lemma_pushed(ids: Seq<SessionId>, id: SessionId)
    ensures
        forall|other: SessionId| #[trigger]
            ids.push(id).contains(other) <==> ids.contains(other) || other == id,
{
    let longer = ids.push(id);
    assert forall|other: SessionId| #[trigger] longer.contains(other) <==> ids.contains(other)
        || other == id by {
        if ids.contains(other) {
            let k = choose|k: int| 0 <= k < ids.len() && ids[k] == other;
            assert(longer[k] == other);
        }
        if other == id {
            assert(longer[ids.len() as int] == other);
        }
    }
}

} // verus!
