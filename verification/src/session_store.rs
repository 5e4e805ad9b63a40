//! The store of peer sessions.
//!
//! Sessions are held under handles. For every session key the store records
//! which session is active, which one is being created, and what a peer still
//! has to confirm.

use vstd::prelude::*;
use crate::bytes::Key32;
use crate::code_table::CodeTable;
use crate::key_table::KeyTable;
use crate::peer_session::{PeerSession, PeerSessionModel};
use crate::session_types::{
    PeerSessionAction, SessionError, SessionKey, SessionKeyModel, TransitionFields,
};

verus! {

/// Handle of a session in its store.
pub type SessionId = u64;

/// Sessions without users are dropped after this long.
pub const SESSION_IDLE_TIMEOUT_MS: u64 = 60_000;

/// Longest recovery window that a caller may ask for. The store does not roll
/// an ambiguous transition back when the window ends.
pub const INITIATOR_RECOVERY_LIFETIME_MS: u64 = 120_000;

pub const MAX_IN_DOUBT_RESERVATIONS: usize = 256;

pub const MAX_RESPONDER_RECOVERY_RECORDS: usize = 256;

pub const MAX_RESPONDER_RECOVERIES_PER_PRINCIPAL: usize = 2;

pub const MAX_INITIATOR_RECEIPT_RECORDS: usize = 256;

/// How many records of each bounded kind exist over all stores of a process.
#[derive(Clone, Copy, Debug, PartialEq, Eq, Structural)]
pub struct SessionQuotas {
    pub in_doubt: usize,
    pub responder_recoveries: usize,
    pub initiator_receipts: usize,
}

impl SessionQuotas {
    pub fn new() -> (quotas: Self)
        ensures
            quotas == (SessionQuotas { in_doubt: 0, responder_recoveries: 0, initiator_receipts: 0 }),
    {
        SessionQuotas { in_doubt: 0, responder_recoveries: 0, initiator_receipts: 0 }
    }

    /// The quotas after a permit for an in-doubt reservation was given back.
    pub open spec fn without_in_doubt(self) -> SessionQuotas {
        SessionQuotas {
            in_doubt: if self.in_doubt > 0 {
                (self.in_doubt - 1) as usize
            } else {
                0
            },
            ..self
        }
    }

    pub open spec fn without_recovery(self) -> SessionQuotas {
        SessionQuotas {
            responder_recoveries: if self.responder_recoveries > 0 {
                (self.responder_recoveries - 1) as usize
            } else {
                0
            },
            ..self
        }
    }

    pub open spec fn without_receipt(self) -> SessionQuotas {
        SessionQuotas {
            initiator_receipts: if self.initiator_receipts > 0 {
                (self.initiator_receipts - 1) as usize
            } else {
                0
            },
            ..self
        }
    }

    pub open spec fn with_in_doubt(self) -> SessionQuotas {
        SessionQuotas { in_doubt: (self.in_doubt + 1) as usize, ..self }
    }

    pub open spec fn with_recovery(self) -> SessionQuotas {
        SessionQuotas { responder_recoveries: (self.responder_recoveries + 1) as usize, ..self }
    }

    pub open spec fn with_receipt(self) -> SessionQuotas {
        SessionQuotas { initiator_receipts: (self.initiator_receipts + 1) as usize, ..self }
    }

    pub fn release_in_doubt(&mut self)
        ensures
            *final(self) == old(self).without_in_doubt(),
    {
        if self.in_doubt > 0 {
            self.in_doubt = self.in_doubt - 1;
        }
    }

    pub fn release_recovery(&mut self)
        ensures
            *final(self) == old(self).without_recovery(),
    {
        if self.responder_recoveries > 0 {
            self.responder_recoveries = self.responder_recoveries - 1;
        }
    }

    pub fn release_receipt(&mut self)
        ensures
            *final(self) == old(self).without_receipt(),
    {
        if self.initiator_receipts > 0 {
            self.initiator_receipts = self.initiator_receipts - 1;
        }
    }
}

/// The published session of a key.
#[derive(Clone, Copy, PartialEq, Eq, Structural)]
pub struct PeerSessionEntry {
    pub session: SessionId,
    pub last_used_at: u64,
}

/// What an initiator has reserved: a transition that is not visible yet.
#[derive(Clone)]
pub struct ReservationBody {
    pub session: SessionId,
    pub action: PeerSessionAction,
    pub session_generation: u32,
    pub root_key: Key32,
    pub initial_epoch: u32,
    pub transition_revision: u64,
    pub transition_id: u128,
    pub send_algorithm: String,
    pub recv_algorithm: String,
    pub peer_static_pubkey: Option<Key32>,
}

impl ReservationBody {
    /// Whether the fields identify this reservation. A revision of zero stands
    /// for any.
    pub open spec fn identified_by(self, fields: TransitionFields) -> bool {
        &&& fields.action == self.action
        &&& fields.session_generation == self.session_generation
        &&& fields.initial_epoch == self.initial_epoch
        &&& fields.transition_id == self.transition_id
        &&& fields.transition_revision == 0 || fields.transition_revision
            == self.transition_revision
        &&& fields.root_key_digest == crate::session_types::root_key_digest(self.root_key)
    }

    /// The identity of the reservation under a session metadata identifier.
    pub open spec fn fields(self, session_metadata_id: u128) -> TransitionFields {
        TransitionFields {
            session_metadata_id,
            action: self.action,
            session_generation: self.session_generation,
            initial_epoch: self.initial_epoch,
            transition_id: self.transition_id,
            transition_revision: self.transition_revision,
            root_key_digest: crate::session_types::root_key_digest(self.root_key),
        }
    }

    pub fn is_identified_by(&self, fields: &TransitionFields) -> (same: bool)
        ensures
            same == self.identified_by(*fields),
    {
        fields.action == self.action && fields.session_generation == self.session_generation
            && fields.initial_epoch == self.initial_epoch && fields.transition_id
            == self.transition_id && (fields.transition_revision == 0 || fields.transition_revision
            == self.transition_revision) && fields.root_key_digest
            == crate::session_types::InitiatorTransitionIdentity::digest_root_key(&self.root_key)
    }

    pub fn identity_fields(&self, session_metadata_id: u128) -> (fields: TransitionFields)
        ensures
            fields == self.fields(session_metadata_id),
    {
        TransitionFields {
            session_metadata_id,
            action: self.action,
            session_generation: self.session_generation,
            initial_epoch: self.initial_epoch,
            transition_id: self.transition_id,
            transition_revision: self.transition_revision,
            root_key_digest: crate::session_types::InitiatorTransitionIdentity::digest_root_key(
                &self.root_key,
            ),
        }
    }
}

/// A reservation whose outcome the initiator does not know.
pub struct SuspendedInitiatorReservation {
    pub identity: TransitionFields,
    pub body: ReservationBody,
}

/// A responder transition that a peer may ask for again.
#[derive(Clone, Copy, PartialEq, Eq, Structural)]
pub struct ResponderTransitionRecovery {
    pub session: SessionId,
    pub action: PeerSessionAction,
    pub session_generation: u32,
    pub root_key: Key32,
    pub initial_epoch: u32,
    pub transition_id: u128,
    pub transition_revision: u64,
}

/// The proof that a responder has committed a transition.
#[derive(Clone, Copy, PartialEq, Eq, Structural)]
pub struct ResponderRecoveryRecord {
    pub identity: TransitionFields,
    pub recovery: ResponderTransitionRecovery,
    pub created_at: u64,
}

/// A commit that the responder has not acknowledged yet.
#[derive(Clone, Copy, PartialEq, Eq, Structural)]
pub struct InitiatorReceiptRecord {
    pub identity: TransitionFields,
    pub session: SessionId,
}

/// Everything that the store records for one key.
pub struct KeyRecord {
    pub active: Option<PeerSessionEntry>,
    pub pending_create: Option<SessionId>,
    pub in_doubt: Option<SuspendedInitiatorReservation>,
    pub recovery: Option<ResponderRecoveryRecord>,
    pub receipt: Option<InitiatorReceiptRecord>,
}

impl KeyRecord {
    pub open spec fn empty_record() -> KeyRecord {
        KeyRecord { active: None, pending_create: None, in_doubt: None, recovery: None, receipt: None }
    }

    /// Whether the record names a session other than as the active one.
    pub open spec fn pins(self, id: SessionId) -> bool {
        ||| self.pending_create == Some(id)
        ||| (self.in_doubt is Some && self.in_doubt->0.body.session == id)
        ||| (self.recovery is Some && (self.recovery->0).recovery.session == id)
        ||| (self.receipt is Some && (self.receipt->0).session == id)
    }

    /// Whether the record names a session.
    pub open spec fn names(self, id: SessionId) -> bool {
        (self.active is Some && (self.active->0).session == id) || self.pins(id)
    }

    fn empty() -> (record: Self)
        ensures
            record == KeyRecord::empty_record(),
    {
        KeyRecord { active: None, pending_create: None, in_doubt: None, recovery: None, receipt: None }
    }
}

/// The store of peer sessions.
pub struct PeerSessionStore {
    records: KeyTable<KeyRecord>,
    sessions: CodeTable<PeerSession>,
    next_session: SessionId,
}

/// The value of a session store. Every key has a record; most are empty.
pub struct StoreModel {
    pub records: Map<SessionKeyModel, KeyRecord>,
    pub sessions: Map<SessionId, PeerSessionModel>,
    pub next_session: SessionId,
}

impl StoreModel {
    pub open spec fn rec(self, key: SessionKeyModel) -> KeyRecord {
        self.records[key]
    }

    pub open spec fn with_rec(self, key: SessionKeyModel, record: KeyRecord) -> StoreModel {
        StoreModel { records: self.records.insert(key, record), ..self }
    }

    pub open spec fn has(self, id: SessionId) -> bool {
        self.sessions.contains_key(id)
    }

    pub open spec fn sess(self, id: SessionId) -> PeerSessionModel {
        self.sessions[id]
    }

    pub open spec fn with_sess(self, id: SessionId, session: PeerSessionModel) -> StoreModel {
        StoreModel { sessions: self.sessions.insert(id, session), ..self }
    }

    /// The store with one more session.
    pub open spec fn with_new(self, session: PeerSessionModel) -> StoreModel {
        StoreModel {
            sessions: self.sessions.insert(self.next_session, session),
            next_session: (self.next_session + 1) as u64,
            ..self
        }
    }

    /// The active session of a key, as long as it is valid.
    pub open spec fn published(self, key: SessionKeyModel) -> Option<SessionId> {
        match self.rec(key).active {
            Some(entry) => if self.sess(entry.session).valid() {
                Some(entry.session)
            } else {
                None
            },
            None => None,
        }
    }

    pub open spec fn with_active(self, key: SessionKeyModel, active: Option<PeerSessionEntry>) -> StoreModel {
        self.with_rec(key, KeyRecord { active, ..self.rec(key) })
    }

    pub open spec fn with_pending(self, key: SessionKeyModel, pending_create: Option<SessionId>) -> StoreModel {
        self.with_rec(key, KeyRecord { pending_create, ..self.rec(key) })
    }

    pub open spec fn with_recovery(self, key: SessionKeyModel, recovery: Option<ResponderRecoveryRecord>) -> StoreModel {
        self.with_rec(key, KeyRecord { recovery, ..self.rec(key) })
    }

    pub open spec fn with_receipt(self, key: SessionKeyModel, receipt: Option<InitiatorReceiptRecord>) -> StoreModel {
        self.with_rec(key, KeyRecord { receipt, ..self.rec(key) })
    }

    pub open spec fn with_in_doubt(self, key: SessionKeyModel, in_doubt: Option<SuspendedInitiatorReservation>) -> StoreModel {
        self.with_rec(key, KeyRecord { in_doubt, ..self.rec(key) })
    }

    /// Every session that a record names is in the store, and a suspended
    /// reservation has the identity under which it is kept.
    #[verifier::opaque]
    pub open spec fn sound(self) -> bool {
        &&& forall|key: SessionKeyModel, id: SessionId| #[trigger]
            self.rec(key).names(id) ==> self.has(id)
        &&& forall|key: SessionKeyModel|
            (#[trigger] self.rec(key)).in_doubt is Some ==> self.rec(key).in_doubt->0.body.identified_by(
                self.rec(key).in_doubt->0.identity,
            )
        &&& forall|id: SessionId| #[trigger] self.has(id) ==> id < self.next_session
    }
}

impl View for PeerSessionStore {
    type V = StoreModel;

    closed spec fn view(&self) -> StoreModel {
        StoreModel {
            records: Map::new(|key: SessionKeyModel| true, |key: SessionKeyModel| self.record_of(key)),
            sessions: Map::new(
                |id: SessionId| self.sessions@.contains_key(id),
                |id: SessionId| self.sessions@[id]@,
            ),
            next_session: self.next_session,
        }
    }
}

impl PeerSessionStore {
    spec fn record_of(self, key: SessionKeyModel) -> KeyRecord {
        if self.records@.contains_key(key) {
            self.records@[key]
        } else {
            KeyRecord::empty_record()
        }
    }

    pub closed spec fn tables_wf(self) -> bool {
        &&& self.records.wf()
        &&& self.sessions.wf()
        &&& forall|id: SessionId| #[trigger]
            self.sessions@.contains_key(id) ==> self.sessions@[id].wf()
    }

    pub open spec fn wf(self) -> bool {
        self.tables_wf() && self@.sound()
    }

    pub fn new() -> (store: Self)
        ensures
            store.wf(),
            forall|key: SessionKeyModel| #[trigger] store@.rec(key) == KeyRecord::empty_record(),
            store@.sessions == Map::<SessionId, PeerSessionModel>::empty(),
            store@.next_session == 0,
    {
        proof {
            reveal(StoreModel::sound);
        }
        let store = PeerSessionStore {
            records: KeyTable::new(),
            sessions: CodeTable::new(),
            next_session: 0,
        };
        assert(store@.sessions =~= Map::<SessionId, PeerSessionModel>::empty());
        store
    }

    /// Every key has a record.
    pub proof fn lemma_total(&self)
        ensures
            forall|key: SessionKeyModel| #[trigger] self@.records.contains_key(key),
    {
    }

    fn take_record(&mut self, key: &SessionKey) -> (record: KeyRecord)
        requires
            old(self).tables_wf(),
        ensures
            final(self).tables_wf(),
            record == old(self)@.rec(key@),
            final(self)@ == old(self)@.with_rec(key@, KeyRecord::empty_record()),
    {
        let record = match self.records.remove(key) {
            Some(record) => record,
            None => KeyRecord::empty(),
        };
        assert(self@.records =~= old(self)@.records.insert(key@, KeyRecord::empty_record()));
        assert(self@.sessions =~= old(self)@.sessions);
        record
    }

    fn put_record(&mut self, key: &SessionKey, record: KeyRecord)
        requires
            old(self).tables_wf(),
        ensures
            final(self).tables_wf(),
            final(self)@ == old(self)@.with_rec(key@, record),
    {
        let _ = self.records.insert(key, record);
        assert(self@.records =~= old(self)@.records.insert(key@, record));
        assert(self@.sessions =~= old(self)@.sessions);
    }

    /// The published entry of a key.
    pub fn active_of(&self, key: &SessionKey) -> (active: Option<PeerSessionEntry>)
        requires
            self.tables_wf(),
        ensures
            active == self@.rec(key@).active,
    {
        match self.records.get(key) {
            Some(record) => record.active,
            None => None,
        }
    }

    pub fn pending_create_of(&self, key: &SessionKey) -> (pending: Option<SessionId>)
        requires
            self.tables_wf(),
        ensures
            pending == self@.rec(key@).pending_create,
    {
        match self.records.get(key) {
            Some(record) => record.pending_create,
            None => None,
        }
    }

    pub fn recovery_of(&self, key: &SessionKey) -> (recovery: Option<ResponderRecoveryRecord>)
        requires
            self.tables_wf(),
        ensures
            recovery == self@.rec(key@).recovery,
    {
        match self.records.get(key) {
            Some(record) => record.recovery,
            None => None,
        }
    }

    pub fn receipt_of(&self, key: &SessionKey) -> (receipt: Option<InitiatorReceiptRecord>)
        requires
            self.tables_wf(),
        ensures
            receipt == self@.rec(key@).receipt,
    {
        match self.records.get(key) {
            Some(record) => record.receipt,
            None => None,
        }
    }

    pub fn in_doubt_of(&self, key: &SessionKey) -> (in_doubt: Option<&SuspendedInitiatorReservation>)
        requires
            self.tables_wf(),
        ensures
            in_doubt is Some <==> self@.rec(key@).in_doubt is Some,
            in_doubt matches Some(suspended) ==> *suspended == self@.rec(key@).in_doubt->0,
    {
        match self.records.get(key) {
            Some(record) => record.in_doubt.as_ref(),
            None => None,
        }
    }

    pub(crate) fn set_active(&mut self, key: &SessionKey, active: Option<PeerSessionEntry>)
        requires
            old(self).tables_wf(),
        ensures
            final(self).tables_wf(),
            final(self)@ == old(self)@.with_active(key@, active),
    {
        let mut record = self.take_record(key);
        record.active = active;
        self.put_record(key, record);
        assert(self@.records =~= old(self)@.records.insert(key@, record));
    }

    pub(crate) fn set_pending_create(&mut self, key: &SessionKey, pending_create: Option<SessionId>)
        requires
            old(self).tables_wf(),
        ensures
            final(self).tables_wf(),
            final(self)@ == old(self)@.with_pending(key@, pending_create),
    {
        let mut record = self.take_record(key);
        record.pending_create = pending_create;
        self.put_record(key, record);
        assert(self@.records =~= old(self)@.records.insert(key@, record));
    }

    pub(crate) fn set_recovery(&mut self, key: &SessionKey, recovery: Option<ResponderRecoveryRecord>)
        requires
            old(self).tables_wf(),
        ensures
            final(self).tables_wf(),
            final(self)@ == old(self)@.with_recovery(key@, recovery),
    {
        let mut record = self.take_record(key);
        record.recovery = recovery;
        self.put_record(key, record);
        assert(self@.records =~= old(self)@.records.insert(key@, record));
    }

    pub(crate) fn set_receipt(&mut self, key: &SessionKey, receipt: Option<InitiatorReceiptRecord>)
        requires
            old(self).tables_wf(),
        ensures
            final(self).tables_wf(),
            final(self)@ == old(self)@.with_receipt(key@, receipt),
    {
        let mut record = self.take_record(key);
        record.receipt = receipt;
        self.put_record(key, record);
        assert(self@.records =~= old(self)@.records.insert(key@, record));
    }

    pub(crate) fn replace_in_doubt(&mut self, key: &SessionKey, in_doubt: Option<SuspendedInitiatorReservation>) -> (replaced: Option<SuspendedInitiatorReservation>)
        requires
            old(self).tables_wf(),
        ensures
            final(self).tables_wf(),
            replaced == old(self)@.rec(key@).in_doubt,
            final(self)@ == old(self)@.with_in_doubt(key@, in_doubt),
    {
        let record = self.take_record(key);
        let replaced = record.in_doubt;
        let record = KeyRecord {
            active: record.active,
            pending_create: record.pending_create,
            in_doubt,
            recovery: record.recovery,
            receipt: record.receipt,
        };
        self.put_record(key, record);
        assert(self@.records =~= old(self)@.records.insert(key@, record));
        replaced
    }

    /// All keys that the store may have records of.
    pub(crate) fn keys(&self) -> (keys: Vec<SessionKey>)
        requires
            self.tables_wf(),
        ensures
            forall|key: SessionKeyModel|
                self@.rec(key) != KeyRecord::empty_record() ==> exists|k: int|
                    0 <= k < keys@.len() && #[trigger] keys@[k]@ == key,
            forall|a: int, b: int|
                0 <= a < b < keys@.len() ==> (#[trigger] keys@[a])@ != (#[trigger] keys@[b])@,
    {
        let keys = self.records.keys();
        proof {
            assert forall|key: SessionKeyModel|
                self@.rec(key) != KeyRecord::empty_record() implies exists|k: int|
                0 <= k < keys@.len() && #[trigger] keys@[k]@ == key by {
                assert(self.records@.contains_key(key));
            }
        }
        keys
    }

    /// Whether there is an identifier left for one more session.
    pub(crate) fn has_room(&self) -> (room: bool)
        ensures
            room == (self@.next_session < u64::MAX),
    {
        self.next_session < u64::MAX
    }

    /// A session of the store.
    pub fn session(&self, id: SessionId) -> (session: Option<&PeerSession>)
        requires
            self.tables_wf(),
        ensures
            session is Some <==> self@.has(id),
            session matches Some(s) ==> s.wf() && s@ == self@.sess(id),
    {
        self.sessions.get(id)
    }

    /// Hands a session out. It has to be put back.
    pub fn take_session(&mut self, id: SessionId) -> (session: PeerSession)
        requires
            old(self).tables_wf(),
            old(self)@.has(id),
        ensures
            final(self).tables_wf(),
            session.wf(),
            session@ == old(self)@.sess(id),
            final(self)@ == (StoreModel { sessions: old(self)@.sessions.remove(id), ..old(self)@ }),
    {
        let taken = self.sessions.remove(id);
        assert(self@.records =~= old(self)@.records);
        assert(self@.sessions =~= old(self)@.sessions.remove(id));
        taken.unwrap()
    }

    /// Puts a session back under its handle.
    pub fn put_session(&mut self, id: SessionId, session: PeerSession)
        requires
            old(self).tables_wf(),
            session.wf(),
        ensures
            final(self).tables_wf(),
            final(self)@ == old(self)@.with_sess(id, session@),
    {
        let _ = self.sessions.insert(id, session);
        assert(self@.records =~= old(self)@.records);
        assert(self@.sessions =~= old(self)@.sessions.insert(id, session@));
    }

    /// Adds a session under a new handle, unless all handles are used up.
    pub(crate) fn add_session(&mut self, session: PeerSession) -> (id: Option<SessionId>)
        requires
            old(self).tables_wf(),
            session.wf(),
        ensures
            final(self).tables_wf(),
            id is Some <==> old(self)@.next_session < u64::MAX,
            id matches Some(i) ==> i == old(self)@.next_session && final(self)@ == old(self)@.with_new(
                session@,
            ),
            id is None ==> final(self)@ == old(self)@,
    {
        if self.next_session == u64::MAX {
            return None;
        }
        let id: SessionId = self.next_session;
        self.next_session = id + 1;
        let ghost numbered = self@;
        assert(numbered.records =~= old(self)@.records);
        assert(numbered.sessions =~= old(self)@.sessions);
        self.put_session(id, session);
        Some(id)
    }

    /// Drops a session out of the store.
    pub(crate) fn drop_session(&mut self, id: SessionId)
        requires
            old(self).tables_wf(),
        ensures
            final(self).tables_wf(),
            final(self)@ == (StoreModel { sessions: old(self)@.sessions.remove(id), ..old(self)@ }),
    {
        let _ = self.sessions.remove(id);
        assert(self@.records =~= old(self)@.records);
        assert(self@.sessions =~= old(self)@.sessions.remove(id));
    }

    /// The handles of all sessions.
    pub(crate) fn session_ids(&self) -> (ids: Vec<SessionId>)
        requires
            self.tables_wf(),
        ensures
            forall|id: SessionId| #[trigger] self@.has(id) <==> ids@.contains(id),
    {
        let mut ids: Vec<SessionId> = Vec::new();
        proof {
            self.sessions.lemma_codes();
        }
        let mut i: usize = 0;
        while i < self.sessions.len()
            invariant
                self.tables_wf(),
                i <= self.sessions.codes().len(),
                ids@ == self.sessions.codes().take(i as int),
            decreases self.sessions.codes().len() - i,
        {
            ids.push(self.sessions.code_at(i));
            i = i + 1;
            assert(ids@ =~= self.sessions.codes().take(i as int));
        }
        assert(ids@ =~= self.sessions.codes());
        ids
    }
}

/// Writing the value of a session back after it was taken out.
pub proof fn lemma_taken_and_put(store: StoreModel, id: SessionId, session: PeerSessionModel)
    requires
        store.has(id),
    ensures
        (StoreModel { sessions: store.sessions.remove(id), ..store }).with_sess(id, session)
            == store.with_sess(id, session),
{
    assert(store.sessions.remove(id).insert(id, session) =~= store.sessions.insert(id, session));
}

/// A record may be replaced by one that names only sessions of the store.
pub broadcast proof fn lemma_rec_sound(store: StoreModel, key: SessionKeyModel, record: KeyRecord)
    requires
        store.sound(),
        record.active is Some ==> store.has((record.active->0).session),
        record.pending_create is Some ==> store.has(record.pending_create->0),
        record.in_doubt is Some ==> store.has(record.in_doubt->0.body.session)
            && record.in_doubt->0.body.identified_by(record.in_doubt->0.identity),
        record.recovery is Some ==> store.has((record.recovery->0).recovery.session),
        record.receipt is Some ==> store.has((record.receipt->0).session),
    ensures
        #[trigger] store.with_rec(key, record).sound(),
{
    reveal(StoreModel::sound);
    let after = store.with_rec(key, record);
    assert forall|k: SessionKeyModel, id: SessionId| #[trigger] after.rec(k).names(id) implies after.has(
        id,
    ) by {
        if k != key {
            assert(after.rec(k) == store.rec(k));
            assert(store.rec(k).names(id));
        }
        assert(store.has(id));
    }
    assert forall|k: SessionKeyModel| (#[trigger] after.rec(k)).in_doubt is Some implies after.rec(
        k,
    ).in_doubt->0.body.identified_by(after.rec(k).in_doubt->0.identity) by {
        if k != key {
            assert(after.rec(k) == store.rec(k));
        }
    }
    assert forall|id: SessionId| #[trigger] after.has(id) implies id < after.next_session by {
        assert(store.has(id));
    }
}

/// A session of the store may change its value.
pub broadcast proof fn lemma_sess_sound(store: StoreModel, id: SessionId, session: PeerSessionModel)
    requires
        store.sound(),
        store.has(id),
    ensures
        #[trigger] store.with_sess(id, session).sound(),
{
    reveal(StoreModel::sound);
    let after = store.with_sess(id, session);
    assert forall|k: SessionKeyModel, i: SessionId| #[trigger] after.rec(k).names(i) implies after.has(
        i,
    ) by {
        assert(store.rec(k).names(i));
        assert(store.has(i));
    }
    assert forall|k: SessionKeyModel| (#[trigger] after.rec(k)).in_doubt is Some implies after.rec(
        k,
    ).in_doubt->0.body.identified_by(after.rec(k).in_doubt->0.identity) by {
        assert(after.rec(k) == store.rec(k));
    }
    assert forall|i: SessionId| #[trigger] after.has(i) implies i < after.next_session by {
        assert(store.has(i));
    }
}

/// A session may be added.
pub broadcast proof fn lemma_new_sound(store: StoreModel, session: PeerSessionModel)
    requires
        store.sound(),
        store.next_session < u64::MAX,
    ensures
        #[trigger] store.with_new(session).sound(),
{
    reveal(StoreModel::sound);
    let after = store.with_new(session);
    assert forall|k: SessionKeyModel, i: SessionId| #[trigger] after.rec(k).names(i) implies after.has(
        i,
    ) by {
        assert(store.rec(k).names(i));
        assert(store.has(i));
    }
    assert forall|k: SessionKeyModel| (#[trigger] after.rec(k)).in_doubt is Some implies after.rec(
        k,
    ).in_doubt->0.body.identified_by(after.rec(k).in_doubt->0.identity) by {
        assert(after.rec(k) == store.rec(k));
    }
    assert forall|i: SessionId| #[trigger] after.has(i) implies i < after.next_session by {
        if i != store.next_session {
            assert(store.has(i));
        }
    }
}

/// What a sound store knows of the record of a key.
pub proof fn lemma_sound_record(store: StoreModel, key: SessionKeyModel)
    requires
        store.sound(),
    ensures
        ({
            let record = store.rec(key);
            &&& record.active is Some ==> store.has((record.active->0).session)
            &&& record.pending_create is Some ==> store.has(record.pending_create->0)
            &&& record.in_doubt is Some ==> store.has(record.in_doubt->0.body.session)
                && record.in_doubt->0.body.identified_by(record.in_doubt->0.identity)
            &&& record.recovery is Some ==> store.has((record.recovery->0).recovery.session)
            &&& record.receipt is Some ==> store.has((record.receipt->0).session)
        }),
        !store.has(store.next_session),
{
    reveal(StoreModel::sound);
    let record = store.rec(key);
    if record.active is Some {
        assert(record.names((record.active->0).session));
    }
    if record.pending_create is Some {
        assert(record.names(record.pending_create->0));
    }
    if record.in_doubt is Some {
        assert(record.names(record.in_doubt->0.body.session));
    }
    if record.recovery is Some {
        assert(record.names((record.recovery->0).recovery.session));
    }
    if record.receipt is Some {
        assert(record.names((record.receipt->0).session));
    }
    if store.has(store.next_session) {
        assert(false);
    }
}

pub broadcast group group_sound {
    lemma_rec_sound,
    lemma_sess_sound,
    lemma_new_sound,
}

impl StoreModel {
    /// The store after the session of a key was looked up for use: a valid one
    /// is marked as used, an invalid one is withdrawn.
    pub open spec fn after_get(self, key: SessionKeyModel, now_ms: u64) -> StoreModel {
        match self.rec(key).active {
            Some(entry) => if self.sess(entry.session).valid() {
                self.with_active(key, Some(PeerSessionEntry { last_used_at: now_ms, ..entry }))
            } else {
                self.with_active(key, None)
            },
            None => self,
        }
    }
}

impl PeerSessionStore {
    /// The session of a key, marked as used now. An invalid session is
    /// withdrawn.
    pub fn get(&mut self, key: &SessionKey, now_ms: u64) -> (id: Option<SessionId>)
        requires
            old(self).wf(),
        ensures
            final(self).wf(),
            id == old(self)@.published(key@),
            final(self)@ == old(self)@.after_get(key@, now_ms),
    {
        proof {
            lemma_sound_record(self@, key@);
            broadcast use group_sound;

        }
        match self.active_of(key) {
            Some(entry) => {
                if self.session_is_valid(entry.session) {
                    self.set_active(
                        key,
                        Some(PeerSessionEntry { session: entry.session, last_used_at: now_ms }),
                    );
                    Some(entry.session)
                } else {
                    self.set_active(key, None);
                    None
                }
            },
            None => None,
        }
    }

    /// Whether a session of the store is valid.
    pub fn session_is_valid(&self, id: SessionId) -> (valid: bool)
        requires
            self.wf(),
        ensures
            valid == (self@.has(id) && self@.sess(id).valid()),
    {
        match self.session(id) {
            Some(session) => session.is_valid(),
            None => false,
        }
    }

    /// The session of a key, as long as it is valid.
    pub fn peek(&self, key: &SessionKey) -> (id: Option<SessionId>)
        requires
            self.wf(),
        ensures
            id == self@.published(key@),
    {
        proof {
            lemma_sound_record(self@, key@);
        }
        match self.active_of(key) {
            Some(entry) => {
                if self.session_is_valid(entry.session) {
                    Some(entry.session)
                } else {
                    None
                }
            },
            None => None,
        }
    }

    /// Marks the session of a key as used, if it is the given one.
    pub fn touch_if_same(&mut self, key: &SessionKey, id: SessionId, now_ms: u64)
        requires
            old(self).wf(),
        ensures
            final(self).wf(),
            final(self)@ == (if old(self)@.rec(key@).active is Some && (old(self)@.rec(
                key@,
            ).active->0).session == id {
                old(self)@.with_active(
                    key@,
                    Some(PeerSessionEntry { session: id, last_used_at: now_ms }),
                )
            } else {
                old(self)@
            }),
    {
        proof {
            lemma_sound_record(self@, key@);
            broadcast use group_sound;

        }
        if let Some(entry) = self.active_of(key) {
            if entry.session == id {
                self.set_active(key, Some(PeerSessionEntry { session: id, last_used_at: now_ms }));
            }
        }
    }

    /// Withdraws the session of a key.
    pub fn remove(&mut self, key: &SessionKey)
        requires
            old(self).wf(),
        ensures
            final(self).wf(),
            final(self)@ == old(self)@.with_active(key@, None),
    {
        proof {
            lemma_sound_record(self@, key@);
            broadcast use group_sound;

        }
        self.set_active(key, None);
    }

    /// Withdraws the session of a key, if it is the given one.
    pub fn remove_if_same(&mut self, key: &SessionKey, id: SessionId)
        requires
            old(self).wf(),
        ensures
            final(self).wf(),
            final(self)@ == (if old(self)@.rec(key@).active is Some && (old(self)@.rec(
                key@,
            ).active->0).session == id {
                old(self)@.with_active(key@, None)
            } else {
                old(self)@
            }),
    {
        proof {
            lemma_sound_record(self@, key@);
            broadcast use group_sound;

        }
        if let Some(entry) = self.active_of(key) {
            if entry.session == id {
                self.set_active(key, None);
            }
        }
    }

    /// Publishes a session and ends a creation that was pending.
    pub fn insert_session(&mut self, key: &SessionKey, session: PeerSession, now_ms: u64) -> (id:
        Result<SessionId, SessionError>)
        requires
            old(self).wf(),
            session.wf(),
        ensures
            final(self).wf(),
            id == (if old(self)@.next_session < u64::MAX {
                Ok::<SessionId, SessionError>(old(self)@.next_session)
            } else {
                Err(SessionError::SessionIdsExhausted)
            }),
            final(self)@ == (if id is Ok {
                let added = old(self)@.with_new(session@);
                added.with_rec(
                    key@,
                    KeyRecord {
                        active: Some(
                            PeerSessionEntry {
                                session: old(self)@.next_session,
                                last_used_at: now_ms,
                            },
                        ),
                        pending_create: None,
                        ..added.rec(key@)
                    },
                )
            } else {
                old(self)@
            }),
    {
        proof {
            lemma_sound_record(self@, key@);
            broadcast use group_sound;

        }
        match self.add_session(session) {
            Some(id) => {
                let ghost added = self@;
                self.set_pending_create(key, None);
                self.set_active(key, Some(PeerSessionEntry { session: id, last_used_at: now_ms }));
                assert(self@.records =~= added.records.insert(key@, self@.rec(key@)));
                assert(self@ == added.with_rec(key@, self@.rec(key@)));
                Ok(id)
            },
            None => Err(SessionError::SessionIdsExhausted),
        }
    }

    /// Invalidates a session.
    pub fn invalidate_session(&mut self, id: SessionId)
        requires
            old(self).wf(),
        ensures
            final(self).wf(),
            final(self)@ == (if old(self)@.has(id) {
                old(self)@.with_sess(id, old(self)@.sess(id).invalid_now())
            } else {
                old(self)@
            }),
    {
        proof {
            broadcast use group_sound;

        }
        if self.session(id).is_some() {
            let mut session = self.take_session(id);
            session.invalidate();
            proof {
                lemma_taken_and_put(old(self)@, id, session@);
            }
            self.put_session(id, session);
        }
    }
}

} // verus!
