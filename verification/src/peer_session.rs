//! A session with one peer: the datagram session, and the transitions that
//! change its keys.

use vstd::prelude::*;
use crate::bytes::Key32;
use crate::datagram_replay::SecureDatagramDirection;
use crate::outside::new_uuid;
use crate::packet::{Packet, PeerId};
use crate::secure_datagram::{
    CipherRequest, DatagramError, DatagramModel, DecryptBatch, KeyDomain, SecureDatagramSession,
};
use crate::session_types::{
    InitiatorTransitionIdentity, PeerSessionAction, SessionError, TransitionFields,
};

verus! {

/// How many committed transitions a session remembers.
pub const MAX_COMMITTED_TRANSITIONS_PER_SESSION: usize = 8;

/// A transition that has become active.
#[derive(Clone, Copy, PartialEq, Eq, Structural)]
pub struct CommittedTransition {
    pub action: PeerSessionAction,
    pub session_generation: u32,
    pub root_key: Key32,
    pub initial_epoch: u32,
    pub transition_id: u128,
    pub transition_revision: u64,
}

impl CommittedTransition {
    /// Whether the transition is the one that the fields identify. The session
    /// metadata and the local revision are not looked at.
    pub open spec fn identified_by(self, fields: TransitionFields) -> bool {
        &&& self.action == fields.action
        &&& self.session_generation == fields.session_generation
        &&& self.initial_epoch == fields.initial_epoch
        &&& self.transition_id == fields.transition_id
        &&& crate::session_types::root_key_digest(self.root_key) == fields.root_key_digest
    }

    fn is_identified_by(&self, fields: &TransitionFields) -> (same: bool)
        ensures
            same == self.identified_by(*fields),
    {
        self.action == fields.action && self.session_generation == fields.session_generation
            && self.initial_epoch == fields.initial_epoch && self.transition_id
            == fields.transition_id && InitiatorTransitionIdentity::digest_root_key(&self.root_key)
            == fields.root_key_digest
    }
}

/// A session with one peer.
pub struct PeerSession {
    peer_id: PeerId,
    metadata_session_id: u128,
    peer_static_pubkey: Option<Key32>,
    datagram: SecureDatagramSession,
    revision: u64,
    reserved_epoch: u32,
    pending_epoch: Option<u32>,
    pending_peer_static_pubkey: Option<Key32>,
    committed_history: Vec<CommittedTransition>,
    invalidated: bool,
}

/// The value of a peer session.
pub struct PeerSessionModel {
    pub peer_id: PeerId,
    pub metadata_session_id: u128,
    pub peer_static_pubkey: Option<Key32>,
    pub datagram: DatagramModel,
    pub revision: u64,
    pub reserved_epoch: u32,
    pub pending_epoch: Option<u32>,
    pub pending_peer_static_pubkey: Option<Key32>,
    pub committed_history: Seq<CommittedTransition>,
    pub invalidated: bool,
}

impl View for PeerSession {
    type V = PeerSessionModel;

    closed spec fn view(&self) -> PeerSessionModel {
        PeerSessionModel {
            peer_id: self.peer_id,
            metadata_session_id: self.metadata_session_id,
            peer_static_pubkey: self.peer_static_pubkey,
            datagram: self.datagram@,
            revision: self.revision,
            reserved_epoch: self.reserved_epoch,
            pending_epoch: self.pending_epoch,
            pending_peer_static_pubkey: self.pending_peer_static_pubkey,
            committed_history: self.committed_history@,
            invalidated: self.invalidated,
        }
    }
}

/// The revision after `revision`; the last one is followed by zero.
pub open spec fn next_revision(revision: u64) -> u64 {
    if revision == u64::MAX {
        0
    } else {
        (revision + 1) as u64
    }
}

impl PeerSessionModel {
    /// A session that was just made.
    pub open spec fn fresh(
        peer_id: PeerId,
        metadata_session_id: u128,
        root_key: Key32,
        session_generation: u32,
        initial_epoch: u32,
        send_algorithm: Seq<char>,
        recv_algorithm: Seq<char>,
        peer_static_pubkey: Option<Key32>,
        now_ms: u64,
    ) -> PeerSessionModel {
        PeerSessionModel {
            peer_id,
            metadata_session_id,
            peer_static_pubkey,
            datagram: DatagramModel::fresh(
                root_key,
                session_generation,
                initial_epoch,
                send_algorithm,
                recv_algorithm,
                now_ms,
            ),
            revision: 0,
            reserved_epoch: initial_epoch,
            pending_epoch: None,
            pending_peer_static_pubkey: None,
            committed_history: Seq::empty(),
            invalidated: false,
        }
    }

    pub open spec fn valid(self) -> bool {
        !self.invalidated && !self.datagram.invalidated
    }

    pub open spec fn invalid_now(self) -> PeerSessionModel {
        PeerSessionModel {
            invalidated: true,
            datagram: DatagramModel { invalidated: true, ..self.datagram },
            ..self
        }
    }

    /// The static key that the session has or is about to have.
    pub open spec fn static_key_with_pending(self) -> Option<Key32> {
        match self.pending_peer_static_pubkey {
            Some(key) => Some(key),
            None => self.peer_static_pubkey,
        }
    }

    /// The lowest epoch that a synchronization may start.
    pub open spec fn minimum_sync_epoch(self) -> u32 {
        let a = self.datagram.next_sync_epoch();
        let b = crate::secure_datagram::next_epoch(self.reserved_epoch);
        if a >= b {
            a
        } else {
            b
        }
    }

    /// The epoch that a synchronization would start, or why it cannot.
    pub open spec fn sync_epoch(self, requested: Option<u32>) -> Result<u32, SessionError> {
        if self.pending_epoch is Some {
            Err(SessionError::SyncPending)
        } else {
            match requested {
                Some(epoch) => if epoch < self.minimum_sync_epoch() {
                    Err(SessionError::SyncEpochStale)
                } else {
                    Ok(epoch)
                },
                None => Ok(self.minimum_sync_epoch()),
            }
        }
    }

    /// The session with a synchronization to `epoch` reserved.
    pub open spec fn with_sync_reserved(self, epoch: u32) -> PeerSessionModel {
        PeerSessionModel {
            reserved_epoch: epoch,
            pending_epoch: Some(epoch),
            revision: next_revision(self.revision),
            ..self
        }
    }

    /// Whether the reservation that a revision and an epoch name is pending.
    pub open spec fn sync_reserved_as(self, revision: u64, epoch: u32) -> bool {
        self.revision == revision && self.pending_epoch == Some(epoch)
    }

    /// The session after a reserved synchronization was given up.
    pub open spec fn with_sync_canceled(self, revision: u64, epoch: u32) -> PeerSessionModel {
        if self.sync_reserved_as(revision, epoch) {
            PeerSessionModel {
                pending_epoch: None,
                pending_peer_static_pubkey: None,
                reserved_epoch: self.datagram.highest_epoch(),
                revision: next_revision(self.revision),
                ..self
            }
        } else {
            self
        }
    }

    /// The history with one more transition: the oldest is forgotten when there
    /// are too many.
    pub open spec fn history_with(self, committed: CommittedTransition) -> Seq<CommittedTransition> {
        let longer = self.committed_history.push(committed);
        if longer.len() > MAX_COMMITTED_TRANSITIONS_PER_SESSION {
            longer.subrange(
                longer.len() - MAX_COMMITTED_TRANSITIONS_PER_SESSION,
                longer.len() as int,
            )
        } else {
            longer
        }
    }

    pub open spec fn with_committed(self, committed: CommittedTransition) -> PeerSessionModel {
        PeerSessionModel { committed_history: self.history_with(committed), ..self }
    }

    /// Whether a reserved synchronization can become active, or why not.
    pub open spec fn sync_commit_check(self, revision: u64, epoch: u32) -> Result<(), SessionError> {
        if !self.valid() {
            Err(SessionError::SessionInvalidated)
        } else if !self.sync_reserved_as(revision, epoch) {
            Err(SessionError::SessionChanged)
        } else {
            Ok(())
        }
    }

    /// The session after a reserved synchronization became active.
    pub open spec fn with_sync_committed(
        self,
        revision: u64,
        root_key: Key32,
        session_generation: u32,
        initial_epoch: u32,
        transition_id: u128,
        now_ms: u64,
    ) -> PeerSessionModel {
        PeerSessionModel {
            datagram: self.datagram.synchronized(
                root_key,
                session_generation,
                initial_epoch,
                true,
                now_ms,
            ),
            peer_static_pubkey: self.static_key_with_pending(),
            pending_peer_static_pubkey: None,
            committed_history: self.history_with(
                CommittedTransition {
                    action: PeerSessionAction::Sync,
                    session_generation,
                    root_key,
                    initial_epoch,
                    transition_id,
                    transition_revision: revision,
                },
            ),
            revision: next_revision(self.revision),
            reserved_epoch: if self.reserved_epoch >= initial_epoch {
                self.reserved_epoch
            } else {
                initial_epoch
            },
            pending_epoch: None,
            ..self
        }
    }

    /// Whether a static key can be reserved, or why not.
    pub open spec fn static_key_reserve_check(self, key: Option<Key32>) -> Result<(), SessionError> {
        if key is Some && self.peer_static_pubkey is Some && self.peer_static_pubkey != key {
            Err(SessionError::StaticKeyMismatch)
        } else if key is Some && self.pending_peer_static_pubkey is Some
            && self.pending_peer_static_pubkey != key {
            Err(SessionError::StaticKeyTransitionPending)
        } else {
            Ok(())
        }
    }

    pub open spec fn with_static_key_reserved(self, key: Option<Key32>) -> PeerSessionModel {
        if key is Some {
            PeerSessionModel { pending_peer_static_pubkey: key, ..self }
        } else {
            self
        }
    }

    /// Whether the reserved static key can become the key of the session.
    pub open spec fn static_key_commit_check(self) -> Result<(), SessionError> {
        if self.pending_peer_static_pubkey is Some && self.peer_static_pubkey is Some
            && self.peer_static_pubkey != self.pending_peer_static_pubkey {
            Err(SessionError::StaticKeyMismatch)
        } else {
            Ok(())
        }
    }

    pub open spec fn with_static_key_committed(self) -> PeerSessionModel {
        PeerSessionModel {
            peer_static_pubkey: self.static_key_with_pending(),
            pending_peer_static_pubkey: None,
            ..self
        }
    }

    /// Whether a static key agrees with what the session knows.
    pub open spec fn static_key_check(self, key: Option<Key32>) -> Result<(), SessionError> {
        if key is Some && ((self.peer_static_pubkey is Some && self.peer_static_pubkey != key) || (
        self.pending_peer_static_pubkey is Some && self.pending_peer_static_pubkey != key)) {
            Err(SessionError::StaticKeyMismatch)
        } else {
            Ok(())
        }
    }

    /// Whether a static key is or can become the key of the session at once.
    pub open spec fn static_key_set_check(self, key: Option<Key32>) -> Result<(), SessionError> {
        if key is None {
            Ok(())
        } else if self.pending_peer_static_pubkey is Some && self.peer_static_pubkey is None {
            Err(SessionError::StaticKeyTransitionPending)
        } else if self.peer_static_pubkey is Some && self.peer_static_pubkey != key {
            Err(SessionError::StaticKeyMismatch)
        } else {
            Ok(())
        }
    }

    pub open spec fn with_static_key_set(self, key: Option<Key32>) -> PeerSessionModel {
        if key is Some {
            PeerSessionModel { peer_static_pubkey: key, ..self }
        } else {
            self
        }
    }

    pub open spec fn algorithm_check(self, send: Seq<char>, recv: Seq<char>) -> Result<(), SessionError> {
        if self.datagram.send_cipher_algorithm == send && self.datagram.recv_cipher_algorithm
            == recv {
            Ok(())
        } else {
            Err(SessionError::AlgorithmMismatch)
        }
    }

    /// The latest remembered transition that the fields identify.
    pub open spec fn committed_as(self, fields: TransitionFields) -> Option<CommittedTransition> {
        latest_identified(self.committed_history, fields)
    }
}

/// The latest transition of a history that the fields identify.
pub open spec fn latest_identified(history: Seq<CommittedTransition>, fields: TransitionFields) -> Option<
    CommittedTransition,
>
    decreases history.len(),
{
    if history.len() == 0 {
        None
    } else if history.last().identified_by(fields) {
        Some(history.last())
    } else {
        latest_identified(history.drop_last(), fields)
    }
}

impl PeerSession {
    /// How long old epochs stay readable after a synchronization, in milliseconds.
    pub const SYNC_RX_GRACE_AFTER_MS: u64 = crate::secure_datagram::SYNC_RX_GRACE_AFTER_MS;

    pub closed spec fn wf(self) -> bool {
        self.datagram.wf() && self.committed_history@.len()
            <= MAX_COMMITTED_TRANSITIONS_PER_SESSION
    }

    /// A session under a fresh metadata identifier, or none when the system has
    /// no random bytes.
    pub fn new(
        peer_id: PeerId,
        root_key: Key32,
        session_generation: u32,
        initial_epoch: u32,
        send_cipher_algorithm: String,
        recv_cipher_algorithm: String,
        peer_static_pubkey: Option<Key32>,
        now_ms: u64,
    ) -> (session: Option<Self>)
        ensures
            session matches Some(s) ==> crate::outside::is_v4_identifier(s@.metadata_session_id),
            session matches Some(s) ==> s.wf() && s@ == PeerSessionModel::fresh(
                peer_id,
                s@.metadata_session_id,
                root_key,
                session_generation,
                initial_epoch,
                send_cipher_algorithm@,
                recv_cipher_algorithm@,
                peer_static_pubkey,
                now_ms,
            ),
    {
        match new_uuid() {
            Some(metadata_session_id) => Some(
                PeerSession::with_metadata_id(
                    peer_id,
                    metadata_session_id,
                    root_key,
                    session_generation,
                    initial_epoch,
                    send_cipher_algorithm,
                    recv_cipher_algorithm,
                    peer_static_pubkey,
                    now_ms,
                ),
            ),
            None => None,
        }
    }

    /// A session under a given metadata identifier.
    pub fn with_metadata_id(
        peer_id: PeerId,
        metadata_session_id: u128,
        root_key: Key32,
        session_generation: u32,
        initial_epoch: u32,
        send_cipher_algorithm: String,
        recv_cipher_algorithm: String,
        peer_static_pubkey: Option<Key32>,
        now_ms: u64,
    ) -> (session: Self)
        ensures
            session.wf(),
            session@ == PeerSessionModel::fresh(
                peer_id,
                metadata_session_id,
                root_key,
                session_generation,
                initial_epoch,
                send_cipher_algorithm@,
                recv_cipher_algorithm@,
                peer_static_pubkey,
                now_ms,
            ),
    {
        PeerSession {
            peer_id,
            metadata_session_id,
            peer_static_pubkey,
            datagram: SecureDatagramSession::new(
                root_key,
                session_generation,
                initial_epoch,
                send_cipher_algorithm,
                recv_cipher_algorithm,
                now_ms,
            ),
            revision: 0,
            reserved_epoch: initial_epoch,
            pending_epoch: None,
            pending_peer_static_pubkey: None,
            committed_history: Vec::new(),
            invalidated: false,
        }
    }

    pub fn peer_id(&self) -> (id: PeerId)
        ensures
            id == self@.peer_id,
    {
        self.peer_id
    }

    pub fn metadata_session_id(&self) -> (id: u128)
        ensures
            id == self@.metadata_session_id,
    {
        self.metadata_session_id
    }

    pub fn invalidate(&mut self)
        requires
            old(self).wf(),
        ensures
            final(self).wf(),
            final(self)@ == old(self)@.invalid_now(),
    {
        self.invalidated = true;
        self.datagram.invalidate();
    }

    pub fn is_valid(&self) -> (valid: bool)
        ensures
            valid == self@.valid(),
    {
        !self.invalidated && self.datagram.is_valid()
    }

    pub fn session_generation(&self) -> (generation: u32)
        ensures
            generation == self@.datagram.session_generation,
    {
        self.datagram.session_generation()
    }

    pub fn root_key(&self) -> (key: Key32)
        ensures
            key == self@.datagram.root_key,
    {
        self.datagram.root_key()
    }

    /// A root key of random bytes, or none when the system has none to give.
    pub fn new_root_key() -> (key: Option<Key32>)
        ensures
            key matches Some(k) ==> crate::secure_datagram::is_drawn_key(k),
    {
        SecureDatagramSession::new_root_key()
    }

    pub fn next_sync_epoch(&self) -> (epoch: u32)
        ensures
            epoch == self@.datagram.next_sync_epoch(),
    {
        self.datagram.next_sync_epoch()
    }

    /// Reserves a synchronization to the lowest free epoch.
    pub fn prepare_sync_transition(&mut self) -> (reserved: Result<
        (u32, Key32, u32, u64),
        SessionError,
    >)
        requires
            old(self).wf(),
        ensures
            final(self).wf(),
            sync_reserved(old(self)@, final(self)@, None, reserved),
    {
        self.prepare_sync_transition_at(None)
    }

    /// Reserves a synchronization to an epoch and gives the generation, the
    /// root key, the epoch and the new revision.
    pub fn prepare_sync_transition_at(&mut self, requested_epoch: Option<u32>) -> (reserved: Result<
        (u32, Key32, u32, u64),
        SessionError,
    >)
        requires
            old(self).wf(),
        ensures
            final(self).wf(),
            sync_reserved(old(self)@, final(self)@, requested_epoch, reserved),
    {
        if self.pending_epoch.is_some() {
            return Err(SessionError::SyncPending);
        }
        let session_generation: u32 = self.datagram.session_generation();
        let root_key = self.datagram.root_key();
        let minimum_epoch: u32 = crate::datagram_replay::max_u32(
            self.datagram.next_sync_epoch(),
            self.reserved_epoch.wrapping_add(1),
        );
        let next_epoch: u32 = match requested_epoch {
            Some(epoch) => {
                if epoch < minimum_epoch {
                    return Err(SessionError::SyncEpochStale);
                }
                epoch
            },
            None => minimum_epoch,
        };
        self.reserved_epoch = next_epoch;
        self.pending_epoch = Some(next_epoch);
        self.revision = self.revision.wrapping_add(1);
        Ok((session_generation, root_key, next_epoch, self.revision))
    }

    /// Whether a synchronization could be reserved now.
    pub fn sync_is_free(&self, requested_epoch: Option<u32>) -> (free: bool)
        requires
            self.wf(),
        ensures
            free == (self@.sync_epoch(requested_epoch) is Ok),
    {
        if self.pending_epoch.is_some() {
            return false;
        }
        match requested_epoch {
            Some(epoch) => epoch >= crate::datagram_replay::max_u32(
                self.datagram.next_sync_epoch(),
                self.reserved_epoch.wrapping_add(1),
            ),
            None => true,
        }
    }

    /// Whether a static key could be reserved now.
    pub fn static_key_is_free(&self, peer_static_pubkey: Option<Key32>) -> (free: bool)
        ensures
            free == (self@.static_key_reserve_check(peer_static_pubkey) is Ok),
    {
        let key = match peer_static_pubkey {
            Some(key) => key,
            None => {
                return true;
            },
        };
        let known = match self.peer_static_pubkey {
            Some(existing) => existing == key,
            None => true,
        };
        let pending = match self.pending_peer_static_pubkey {
            Some(pending) => pending == key,
            None => true,
        };
        known && pending
    }

    fn push_committed(&mut self, committed: CommittedTransition)
        requires
            old(self).wf(),
        ensures
            final(self).wf(),
            final(self)@ == old(self)@.with_committed(committed),
    {
        self.committed_history.push(committed);
        if self.committed_history.len() > MAX_COMMITTED_TRANSITIONS_PER_SESSION {
            let _ = self.committed_history.remove(0);
        }
        assert(self.committed_history@ =~= old(self)@.history_with(committed));
    }

    /// Makes a reserved synchronization active.
    pub fn commit_reserved_sync(
        &mut self,
        expected_revision: u64,
        root_key: Key32,
        session_generation: u32,
        initial_epoch: u32,
        transition_id: u128,
        now_ms: u64,
    ) -> (committed: Result<(), SessionError>)
        requires
            old(self).wf(),
        ensures
            final(self).wf(),
            committed == old(self)@.sync_commit_check(expected_revision, initial_epoch),
            final(self)@ == (if committed is Ok {
                old(self)@.with_sync_committed(
                    expected_revision,
                    root_key,
                    session_generation,
                    initial_epoch,
                    transition_id,
                    now_ms,
                )
            } else {
                old(self)@
            }),
    {
        if !self.is_valid() {
            return Err(SessionError::SessionInvalidated);
        }
        if self.revision != expected_revision || self.pending_epoch != Some(initial_epoch) {
            return Err(SessionError::SessionChanged);
        }
        self.datagram.sync_root_key(root_key, session_generation, initial_epoch, true, now_ms);
        if self.pending_peer_static_pubkey.is_some() {
            self.peer_static_pubkey = self.pending_peer_static_pubkey;
            self.pending_peer_static_pubkey = None;
        }
        self.push_committed(
            CommittedTransition {
                action: PeerSessionAction::Sync,
                session_generation,
                root_key,
                initial_epoch,
                transition_id,
                transition_revision: expected_revision,
            },
        );
        self.revision = self.revision.wrapping_add(1);
        self.reserved_epoch = crate::datagram_replay::max_u32(self.reserved_epoch, initial_epoch);
        self.pending_epoch = None;
        Ok(())
    }

    /// Gives a reserved synchronization up. Its epoch is free again.
    pub fn cancel_reserved_sync(&mut self, expected_revision: u64, initial_epoch: u32)
        requires
            old(self).wf(),
        ensures
            final(self).wf(),
            final(self)@ == old(self)@.with_sync_canceled(expected_revision, initial_epoch),
    {
        if self.revision == expected_revision && self.pending_epoch == Some(initial_epoch) {
            self.pending_epoch = None;
            self.pending_peer_static_pubkey = None;
            self.reserved_epoch = self.datagram.next_sync_epoch().wrapping_sub(1);
            self.revision = self.revision.wrapping_add(1);
        }
    }

    pub fn transition_revision(&self) -> (revision: u64)
        ensures
            revision == self@.revision,
    {
        self.revision
    }

    pub fn root_key_digest(&self) -> (digest: Key32)
        ensures
            digest == crate::session_types::root_key_digest(self@.datagram.root_key),
    {
        InitiatorTransitionIdentity::digest_root_key(&self.root_key())
    }

    /// Remembers a transition that has become active.
    pub fn record_committed_transition(&mut self, committed: CommittedTransition)
        requires
            old(self).wf(),
        ensures
            final(self).wf(),
            final(self)@ == old(self)@.with_committed(committed),
    {
        self.push_committed(committed);
    }

    /// The latest remembered transition that the fields identify.
    pub fn committed_transition(&self, fields: &TransitionFields) -> (found: Option<
        CommittedTransition,
    >)
        ensures
            found == self@.committed_as(*fields),
    {
        let mut i: usize = self.committed_history.len();
        assert(self.committed_history@.take(i as int) =~= self.committed_history@);
        while i > 0
            invariant
                i <= self.committed_history@.len(),
                latest_identified(self.committed_history@.take(i as int), *fields)
                    == self@.committed_as(*fields),
            decreases i,
        {
            let ghost part = self.committed_history@.take(i as int);
            assert(part.drop_last() =~= self.committed_history@.take(i - 1));
            let committed = self.committed_history[i - 1];
            if committed.is_identified_by(fields) {
                return Some(committed);
            }
            i = i - 1;
        }
        None
    }

    /// The latest remembered transition.
    pub fn last_committed_transition(&self) -> (last: Option<CommittedTransition>)
        ensures
            last == (if self@.committed_history.len() == 0 {
                None
            } else {
                Some(self@.committed_history.last())
            }),
    {
        let n: usize = self.committed_history.len();
        if n == 0 {
            None
        } else {
            Some(self.committed_history[n - 1])
        }
    }

    /// Sets the revision of a session that was just made.
    pub fn initialize_transition_revision(&mut self, revision: u64)
        requires
            old(self).wf(),
        ensures
            final(self).wf(),
            final(self)@ == (PeerSessionModel { revision, ..old(self)@ }),
    {
        self.revision = revision;
    }

    pub fn has_pending_transition(&self) -> (pending: bool)
        ensures
            pending == (self@.pending_epoch is Some),
    {
        self.pending_epoch.is_some()
    }

    /// Reserves a static key that becomes the session's key at the next commit.
    pub fn reserve_peer_static_pubkey(&mut self, peer_static_pubkey: Option<Key32>) -> (reserved:
        Result<(), SessionError>)
        requires
            old(self).wf(),
        ensures
            final(self).wf(),
            reserved == old(self)@.static_key_reserve_check(peer_static_pubkey),
            final(self)@ == (if reserved is Ok {
                old(self)@.with_static_key_reserved(peer_static_pubkey)
            } else {
                old(self)@
            }),
    {
        let key = match peer_static_pubkey {
            Some(key) => key,
            None => {
                return Ok(());
            },
        };
        if let Some(existing) = self.peer_static_pubkey {
            if existing != key {
                return Err(SessionError::StaticKeyMismatch);
            }
        }
        if let Some(pending) = self.pending_peer_static_pubkey {
            if pending != key {
                return Err(SessionError::StaticKeyTransitionPending);
            }
        }
        self.pending_peer_static_pubkey = Some(key);
        Ok(())
    }

    /// Makes the reserved static key the key of the session.
    pub fn commit_reserved_peer_static_pubkey(&mut self) -> (committed: Result<(), SessionError>)
        requires
            old(self).wf(),
        ensures
            final(self).wf(),
            committed == old(self)@.static_key_commit_check(),
            final(self)@ == (if committed is Ok {
                old(self)@.with_static_key_committed()
            } else {
                old(self)@
            }),
    {
        if let Some(key) = self.pending_peer_static_pubkey {
            if let Some(existing) = self.peer_static_pubkey {
                if existing != key {
                    return Err(SessionError::StaticKeyMismatch);
                }
            }
            self.peer_static_pubkey = Some(key);
            self.pending_peer_static_pubkey = None;
        }
        Ok(())
    }

    pub fn cancel_reserved_peer_static_pubkey(&mut self)
        requires
            old(self).wf(),
        ensures
            final(self).wf(),
            final(self)@ == (PeerSessionModel { pending_peer_static_pubkey: None, ..old(self)@ }),
    {
        self.pending_peer_static_pubkey = None;
    }

    /// Invalidates the session unless it has changed since `expected_revision`.
    pub fn invalidate_if_revision(&mut self, expected_revision: u64) -> (invalidated: bool)
        requires
            old(self).wf(),
        ensures
            final(self).wf(),
            invalidated == (old(self)@.revision == expected_revision),
            final(self)@ == (if invalidated {
                PeerSessionModel {
                    revision: next_revision(old(self)@.revision),
                    pending_epoch: None,
                    pending_peer_static_pubkey: None,
                    ..old(self)@.invalid_now()
                }
            } else {
                old(self)@
            }),
    {
        if self.revision != expected_revision {
            return false;
        }
        self.invalidate();
        self.revision = self.revision.wrapping_add(1);
        self.pending_epoch = None;
        self.pending_peer_static_pubkey = None;
        true
    }

    pub fn check_encrypt_algo_same(
        &self,
        send_algorithm: &String,
        recv_algorithm: &String,
    ) -> (checked: Result<(), SessionError>)
        ensures
            checked == self@.algorithm_check(send_algorithm@, recv_algorithm@),
    {
        match self.datagram.check_encrypt_algo_same(send_algorithm, recv_algorithm) {
            Ok(()) => Ok(()),
            Err(_) => Err(SessionError::AlgorithmMismatch),
        }
    }

    /// Accepts a static key that is the session's key, and sets it where the
    /// session has none yet.
    pub fn check_or_set_peer_static_pubkey(&mut self, peer_static_pubkey: Option<Key32>) -> (checked:
        Result<(), SessionError>)
        requires
            old(self).wf(),
        ensures
            final(self).wf(),
            checked == old(self)@.static_key_set_check(peer_static_pubkey),
            final(self)@ == (if checked is Ok {
                old(self)@.with_static_key_set(peer_static_pubkey)
            } else {
                old(self)@
            }),
    {
        let key = match peer_static_pubkey {
            Some(key) => key,
            None => {
                return Ok(());
            },
        };
        match self.peer_static_pubkey {
            Some(existing) => {
                if existing != key {
                    return Err(SessionError::StaticKeyMismatch);
                }
            },
            None => {
                if self.pending_peer_static_pubkey.is_some() {
                    return Err(SessionError::StaticKeyTransitionPending);
                }
                self.peer_static_pubkey = Some(key);
            },
        }
        Ok(())
    }

    pub fn check_peer_static_pubkey(&self, peer_static_pubkey: Option<Key32>) -> (checked: Result<
        (),
        SessionError,
    >)
        ensures
            checked == self@.static_key_check(peer_static_pubkey),
    {
        let key = match peer_static_pubkey {
            Some(key) => key,
            None => {
                return Ok(());
            },
        };
        if let Some(existing) = self.peer_static_pubkey {
            if existing != key {
                return Err(SessionError::StaticKeyMismatch);
            }
        }
        if let Some(pending) = self.pending_peer_static_pubkey {
            if pending != key {
                return Err(SessionError::StaticKeyMismatch);
            }
        }
        Ok(())
    }

    pub fn peer_static_pubkey(&self) -> (key: Option<Key32>)
        ensures
            key == self@.peer_static_pubkey,
    {
        self.peer_static_pubkey
    }

    pub fn peer_static_pubkey_with_pending(&self) -> (key: Option<Key32>)
        ensures
            key == self@.static_key_with_pending(),
    {
        if self.pending_peer_static_pubkey.is_some() {
            self.pending_peer_static_pubkey
        } else {
            self.peer_static_pubkey
        }
    }

    /// Synchronizes the session at once and drops what was pending.
    pub fn sync_root_key(
        &mut self,
        root_key: Key32,
        session_generation: u32,
        initial_epoch: u32,
        preserve_rx_grace: bool,
        now_ms: u64,
    )
        requires
            old(self).wf(),
        ensures
            final(self).wf(),
            final(self)@ == (PeerSessionModel {
                datagram: old(self)@.datagram.synchronized(
                    root_key,
                    session_generation,
                    initial_epoch,
                    preserve_rx_grace,
                    now_ms,
                ),
                revision: next_revision(old(self)@.revision),
                reserved_epoch: if old(self)@.reserved_epoch >= initial_epoch {
                    old(self)@.reserved_epoch
                } else {
                    initial_epoch
                },
                pending_epoch: None,
                pending_peer_static_pubkey: None,
                ..old(self)@
            }),
    {
        self.datagram.sync_root_key(
            root_key,
            session_generation,
            initial_epoch,
            preserve_rx_grace,
            now_ms,
        );
        self.revision = self.revision.wrapping_add(1);
        self.reserved_epoch = crate::datagram_replay::max_u32(self.reserved_epoch, initial_epoch);
        self.pending_epoch = None;
        self.pending_peer_static_pubkey = None;
    }
}

/// What reserving a synchronization gives, and what it changes.
pub open spec fn sync_reserved(
    before: PeerSessionModel,
    after: PeerSessionModel,
    requested: Option<u32>,
    reserved: Result<(u32, Key32, u32, u64), SessionError>,
) -> bool {
    match before.sync_epoch(requested) {
        Ok(epoch) => {
            &&& after == before.with_sync_reserved(epoch)
            &&& reserved == Ok::<_, SessionError>(
                (
                    before.datagram.session_generation,
                    before.datagram.root_key,
                    epoch,
                    after.revision,
                ),
            )
        },
        Err(error) => after == before && reserved == Err::<(u32, Key32, u32, u64), _>(error),
    }
}

/// The direction of a packet: the peer with the smaller identifier is side A.
pub open spec fn direction(sender_peer_id: PeerId, receiver_peer_id: PeerId) -> SecureDatagramDirection {
    if sender_peer_id < receiver_peer_id {
        SecureDatagramDirection::AToB
    } else {
        SecureDatagramDirection::BToA
    }
}

impl PeerSession {
    pub fn dir_for_sender(sender_peer_id: PeerId, receiver_peer_id: PeerId) -> (dir:
        SecureDatagramDirection)
        ensures
            dir == direction(sender_peer_id, receiver_peer_id),
    {
        if sender_peer_id < receiver_peer_id {
            SecureDatagramDirection::AToB
        } else {
            SecureDatagramDirection::BToA
        }
    }

    /// Decides what a packet to the peer is sealed with.
    pub fn encrypt_payload(
        &mut self,
        sender_peer_id: PeerId,
        receiver_peer_id: PeerId,
        packet: &Packet,
        now_ms: u64,
    ) -> (request: Result<CipherRequest, DatagramError>)
        requires
            old(self).wf(),
        ensures
            final(self).wf(),
            final(self)@ == (if old(self)@.valid() {
                PeerSessionModel {
                    datagram: old(self)@.datagram.reserved(
                        KeyDomain::Standard,
                        direction(sender_peer_id, receiver_peer_id),
                        1,
                        now_ms,
                    ),
                    ..old(self)@
                }
            } else {
                old(self)@
            }),
            !old(self)@.valid() ==> request == Err::<CipherRequest, DatagramError>(
                DatagramError::SessionInvalidated,
            ),
            old(self)@.valid() ==> {
                let dir = direction(sender_peer_id, receiver_peer_id);
                let checked = crate::secure_datagram::seals(
                    old(self)@.datagram,
                    KeyDomain::Standard,
                    dir,
                    packet@,
                );
                &&& request is Ok <==> checked is Ok
                &&& request matches Ok(r) ==> r@ == old(self)@.datagram.seal_request(
                    KeyDomain::Standard,
                    dir,
                    final(self)@.datagram.send_epoch,
                    old(self)@.datagram.sequences(KeyDomain::Standard).next(dir),
                    packet@,
                )
                &&& request matches Err(e) ==> checked == Err::<(), DatagramError>(e)
            },
    {
        if !self.is_valid() {
            return Err(DatagramError::SessionInvalidated);
        }
        let dir = PeerSession::dir_for_sender(sender_peer_id, receiver_peer_id);
        self.datagram.encrypt_payload(dir, packet, now_ms)
    }

    /// Takes in whether the cipher sealed what it was asked to seal. A session
    /// whose cipher cannot seal is over.
    pub fn finish_encrypt_payload(&mut self, sealed: bool)
        requires
            old(self).wf(),
        ensures
            final(self).wf(),
            final(self)@ == (if sealed {
                old(self)@
            } else {
                PeerSessionModel {
                    datagram: DatagramModel { invalidated: true, ..old(self)@.datagram },
                    ..old(self)@
                }
            }),
            final(self)@.valid() == (sealed && old(self)@.valid()),
    {
        self.datagram.finish_encrypt_payload(sealed);
    }

    /// Decides what a batch of packets to the peer is sealed with.
    pub fn encrypt_payload_batch(
        &mut self,
        sender_peer_id: PeerId,
        receiver_peer_id: PeerId,
        packets: &Vec<Packet>,
        now_ms: u64,
    ) -> (requests: Result<Vec<CipherRequest>, DatagramError>)
        requires
            old(self).wf(),
        ensures
            final(self).wf(),
            final(self)@ == (if old(self)@.valid() {
                PeerSessionModel {
                    datagram: old(self)@.datagram.reserved(
                        KeyDomain::Standard,
                        direction(sender_peer_id, receiver_peer_id),
                        packets@.len() as u64,
                        now_ms,
                    ),
                    ..old(self)@
                }
            } else {
                old(self)@
            }),
            !old(self)@.valid() ==> requests == Err::<Vec<CipherRequest>, DatagramError>(
                DatagramError::SessionInvalidated,
            ),
            old(self)@.valid() ==> {
                let dir = direction(sender_peer_id, receiver_peer_id);
                let checked = crate::secure_datagram::sealable(
                    old(self)@.datagram,
                    KeyDomain::Standard,
                    dir,
                    packets@,
                );
                &&& requests is Ok <==> checked is Ok
                &&& requests matches Ok(rs) ==> crate::secure_datagram::sealed_with(
                    old(self)@.datagram,
                    final(self)@.datagram,
                    KeyDomain::Standard,
                    dir,
                    packets@,
                    rs@,
                )
                &&& requests matches Err(e) ==> checked == Err::<(), DatagramError>(e)
            },
    {
        if !self.is_valid() {
            return Err(DatagramError::SessionInvalidated);
        }
        let dir = PeerSession::dir_for_sender(sender_peer_id, receiver_peer_id);
        self.datagram.encrypt_payload_batch(dir, packets, now_ms)
    }

    /// Decides what a packet to the peer is sealed with in the FEC domain.
    pub fn encrypt_fec_payload(
        &mut self,
        sender_peer_id: PeerId,
        receiver_peer_id: PeerId,
        packet: &Packet,
        now_ms: u64,
    ) -> (request: Result<CipherRequest, DatagramError>)
        requires
            old(self).wf(),
        ensures
            final(self).wf(),
            final(self)@ == (if old(self)@.valid() {
                PeerSessionModel {
                    datagram: old(self)@.datagram.reserved(
                        KeyDomain::Fec,
                        direction(sender_peer_id, receiver_peer_id),
                        1,
                        now_ms,
                    ),
                    ..old(self)@
                }
            } else {
                old(self)@
            }),
            !old(self)@.valid() ==> request == Err::<CipherRequest, DatagramError>(
                DatagramError::SessionInvalidated,
            ),
            old(self)@.valid() ==> {
                let dir = direction(sender_peer_id, receiver_peer_id);
                let checked = crate::secure_datagram::seals(
                    old(self)@.datagram,
                    KeyDomain::Fec,
                    dir,
                    packet@,
                );
                &&& request is Ok <==> checked is Ok
                &&& request matches Ok(r) ==> r@ == old(self)@.datagram.seal_request(
                    KeyDomain::Fec,
                    dir,
                    final(self)@.datagram.send_epoch,
                    old(self)@.datagram.sequences(KeyDomain::Fec).next(dir),
                    packet@,
                )
                &&& request matches Err(e) ==> checked == Err::<(), DatagramError>(e)
            },
    {
        if !self.is_valid() {
            return Err(DatagramError::SessionInvalidated);
        }
        let dir = PeerSession::dir_for_sender(sender_peer_id, receiver_peer_id);
        self.datagram.encrypt_fec_payload(dir, packet, now_ms)
    }

    /// Decides what a batch of packets to the peer is sealed with in the FEC domain.
    pub fn encrypt_fec_payload_batch(
        &mut self,
        sender_peer_id: PeerId,
        receiver_peer_id: PeerId,
        packets: &Vec<Packet>,
        now_ms: u64,
    ) -> (requests: Result<Vec<CipherRequest>, DatagramError>)
        requires
            old(self).wf(),
        ensures
            final(self).wf(),
            final(self)@ == (if old(self)@.valid() {
                PeerSessionModel {
                    datagram: old(self)@.datagram.reserved(
                        KeyDomain::Fec,
                        direction(sender_peer_id, receiver_peer_id),
                        packets@.len() as u64,
                        now_ms,
                    ),
                    ..old(self)@
                }
            } else {
                old(self)@
            }),
            !old(self)@.valid() ==> requests == Err::<Vec<CipherRequest>, DatagramError>(
                DatagramError::SessionInvalidated,
            ),
            old(self)@.valid() ==> {
                let dir = direction(sender_peer_id, receiver_peer_id);
                let checked = crate::secure_datagram::sealable(
                    old(self)@.datagram,
                    KeyDomain::Fec,
                    dir,
                    packets@,
                );
                &&& requests is Ok <==> checked is Ok
                &&& requests matches Ok(rs) ==> crate::secure_datagram::sealed_with(
                    old(self)@.datagram,
                    final(self)@.datagram,
                    KeyDomain::Fec,
                    dir,
                    packets@,
                    rs@,
                )
                &&& requests matches Err(e) ==> checked == Err::<(), DatagramError>(e)
            },
    {
        if !self.is_valid() {
            return Err(DatagramError::SessionInvalidated);
        }
        let dir = PeerSession::dir_for_sender(sender_peer_id, receiver_peer_id);
        self.datagram.encrypt_fec_payload_batch(dir, packets, now_ms)
    }

    /// Decides what a packet from the peer is opened with, or why it is
    /// refused.
    pub fn decrypt_payload(
        &mut self,
        sender_peer_id: PeerId,
        receiver_peer_id: PeerId,
        packet: &Packet,
        now_ms: u64,
    ) -> (request: Result<CipherRequest, DatagramError>)
        requires
            old(self).wf(),
        ensures
            final(self).wf(),
            !old(self)@.valid() ==> final(self)@ == old(self)@ && request == Err::<
                CipherRequest,
                DatagramError,
            >(DatagramError::SessionInvalidated),
            old(self)@.valid() ==> {
                let dir = direction(sender_peer_id, receiver_peer_id);
                let checked = crate::secure_datagram::opens(
                    old(self)@.datagram,
                    KeyDomain::Standard,
                    dir,
                    packet@,
                    now_ms,
                );
                &&& final(self)@ == (PeerSessionModel {
                    datagram: if crate::secure_datagram::batch_nonce(packet@) is None {
                        old(self)@.datagram
                    } else {
                        old(self)@.datagram.checked(KeyDomain::Standard, now_ms)
                    },
                    ..old(self)@
                })
                &&& request is Ok <==> checked is Ok
                &&& request matches Ok(r) ==> r@ == old(self)@.datagram.open_request(
                    KeyDomain::Standard,
                    dir,
                    packet@,
                )
                &&& request matches Err(e) ==> checked == Err::<(), DatagramError>(e)
            },
    {
        if !self.is_valid() {
            return Err(DatagramError::SessionInvalidated);
        }
        let dir = PeerSession::dir_for_sender(sender_peer_id, receiver_peer_id);
        self.datagram.decrypt_payload(dir, packet, now_ms)
    }

    /// Takes the cipher's answer for a packet.
    pub fn finish_decrypt_payload(
        &mut self,
        sender_peer_id: PeerId,
        receiver_peer_id: PeerId,
        epoch: u32,
        seq: u64,
        opened: bool,
        now_ms: u64,
    ) -> (accepted: Result<(), DatagramError>)
        requires
            old(self).wf(),
        ensures
            final(self).wf(),
            ({
                let dir = direction(sender_peer_id, receiver_peer_id);
                let before = old(self)@.datagram;
                let new = before.commits(KeyDomain::Standard, dir, epoch, seq, now_ms);
                let after = before.committed(KeyDomain::Standard, dir, epoch, seq, now_ms);
                &&& accepted == (if !opened {
                    Err::<(), DatagramError>(DatagramError::DecryptFailed)
                } else if !new {
                    Err(DatagramError::ReplayRejected)
                } else {
                    Ok(())
                })
                &&& final(self)@ == (PeerSessionModel {
                    datagram: if !opened {
                        before.with_failure(KeyDomain::Standard)
                    } else if !new {
                        after
                    } else {
                        after.with_success(KeyDomain::Standard)
                    },
                    ..old(self)@
                })
            }),
    {
        let dir = PeerSession::dir_for_sender(sender_peer_id, receiver_peer_id);
        self.datagram.finish_decrypt_payload(dir, epoch, seq, opened, now_ms)
    }

    /// Decides what a packet from the peer is opened with in the FEC domain, or why it is
    /// refused.
    pub fn decrypt_fec_payload(
        &mut self,
        sender_peer_id: PeerId,
        receiver_peer_id: PeerId,
        packet: &Packet,
        now_ms: u64,
    ) -> (request: Result<CipherRequest, DatagramError>)
        requires
            old(self).wf(),
        ensures
            final(self).wf(),
            !old(self)@.valid() ==> final(self)@ == old(self)@ && request == Err::<
                CipherRequest,
                DatagramError,
            >(DatagramError::SessionInvalidated),
            old(self)@.valid() ==> {
                let dir = direction(sender_peer_id, receiver_peer_id);
                let checked = crate::secure_datagram::opens(
                    old(self)@.datagram,
                    KeyDomain::Fec,
                    dir,
                    packet@,
                    now_ms,
                );
                &&& final(self)@ == (PeerSessionModel {
                    datagram: if crate::secure_datagram::batch_nonce(packet@) is None {
                        old(self)@.datagram
                    } else {
                        old(self)@.datagram.checked(KeyDomain::Fec, now_ms)
                    },
                    ..old(self)@
                })
                &&& request is Ok <==> checked is Ok
                &&& request matches Ok(r) ==> r@ == old(self)@.datagram.open_request(
                    KeyDomain::Fec,
                    dir,
                    packet@,
                )
                &&& request matches Err(e) ==> checked == Err::<(), DatagramError>(e)
            },
    {
        if !self.is_valid() {
            return Err(DatagramError::SessionInvalidated);
        }
        let dir = PeerSession::dir_for_sender(sender_peer_id, receiver_peer_id);
        self.datagram.decrypt_fec_payload(dir, packet, now_ms)
    }

    /// Takes the cipher's answer for a packet of the FEC domain.
    pub fn finish_decrypt_fec_payload(
        &mut self,
        sender_peer_id: PeerId,
        receiver_peer_id: PeerId,
        epoch: u32,
        seq: u64,
        opened: bool,
        now_ms: u64,
    ) -> (accepted: Result<(), DatagramError>)
        requires
            old(self).wf(),
        ensures
            final(self).wf(),
            ({
                let dir = direction(sender_peer_id, receiver_peer_id);
                let before = old(self)@.datagram;
                let new = before.commits(KeyDomain::Fec, dir, epoch, seq, now_ms);
                let after = before.committed(KeyDomain::Fec, dir, epoch, seq, now_ms);
                &&& accepted == (if !opened {
                    Err::<(), DatagramError>(DatagramError::DecryptFailed)
                } else if !new {
                    Err(DatagramError::ReplayRejected)
                } else {
                    Ok(())
                })
                &&& final(self)@ == (PeerSessionModel {
                    datagram: if !opened {
                        before.with_failure(KeyDomain::Fec)
                    } else if !new {
                        after
                    } else {
                        after.with_success(KeyDomain::Fec)
                    },
                    ..old(self)@
                })
            }),
    {
        let dir = PeerSession::dir_for_sender(sender_peer_id, receiver_peer_id);
        self.datagram.finish_decrypt_fec_payload(dir, epoch, seq, opened, now_ms)
    }

    /// Checks a batch of packets from the peer.
    pub fn decrypt_payload_batch(
        &mut self,
        sender_peer_id: PeerId,
        receiver_peer_id: PeerId,
        packets: &Vec<Packet>,
        now_ms: u64,
    ) -> (batch: DecryptBatch)
        requires
            old(self).wf(),
        ensures
            final(self).wf(),
            batch.checked == (old(self)@.valid() && packets@.len() > 0),
            batch.items@.len() == packets@.len(),
            final(self)@ == (if batch.checked {
                PeerSessionModel {
                    datagram: DatagramModel {
                        fec: old(self)@.datagram.fec.after_expiry_look(now_ms),
                        standard: old(self)@.datagram.standard.after_snapshot(now_ms),
                        ..old(self)@.datagram
                    },
                    ..old(self)@
                }
            } else {
                old(self)@
            }),
            batch.checked ==> batch.cross_domain_epoch == old(self)@.datagram.replay_context(
                KeyDomain::Standard,
                direction(sender_peer_id, receiver_peer_id),
                now_ms,
            ).cross_domain_epoch,
            forall|i: int|
                0 <= i < packets@.len() ==> if old(self)@.valid() {
                    crate::secure_datagram::item_follows(
                        old(self)@.datagram,
                        direction(sender_peer_id, receiver_peer_id),
                        packets@,
                        i,
                        now_ms,
                        #[trigger] batch.items@[i],
                    )
                } else {
                    batch.items@[i] == crate::secure_datagram::BatchItem::Reject(
                        DatagramError::SessionInvalidated,
                    )
                },
    {
        if !self.is_valid() {
            let mut items: Vec<crate::secure_datagram::BatchItem> = Vec::new();
            let mut k: usize = 0;
            while k < packets.len()
                invariant
                    k <= packets@.len(),
                    items@.len() == k,
                    forall|i: int|
                        0 <= i < k ==> #[trigger] items@[i]
                            == crate::secure_datagram::BatchItem::Reject(
                            DatagramError::SessionInvalidated,
                        ),
                decreases packets@.len() - k,
            {
                items.push(
                    crate::secure_datagram::BatchItem::Reject(DatagramError::SessionInvalidated),
                );
                k = k + 1;
            }
            return DecryptBatch { items, cross_domain_epoch: 0, checked: false };
        }
        let dir = PeerSession::dir_for_sender(sender_peer_id, receiver_peer_id);
        self.datagram.decrypt_payload_batch(dir, packets, now_ms)
    }

    /// Takes the cipher's answers for a checked batch.
    pub fn finish_decrypt_payload_batch(
        &mut self,
        sender_peer_id: PeerId,
        receiver_peer_id: PeerId,
        batch: &DecryptBatch,
        opened: &Vec<bool>,
        now_ms: u64,
    ) -> (results: Vec<Result<(), DatagramError>>)
        requires
            old(self).wf(),
            opened@.len() == batch.items@.len(),
        ensures
            final(self).wf(),
            results@.len() == batch.items@.len(),
            final(self)@ == (PeerSessionModel {
                datagram: final(self)@.datagram,
                ..old(self)@
            }),
            !batch.checked ==> final(self)@ == old(self)@ && forall|i: int|
                0 <= i < results@.len() ==> #[trigger] results@[i]
                    == crate::secure_datagram::result_before_record(
                    batch.items@[i],
                    opened@[i],
                ),
            batch.checked ==> exists|order: Seq<int>| #[trigger]
                crate::secure_datagram::is_commit_order(order, batch.items@, opened@)
                    && crate::secure_datagram::batch_recorded(
                    old(self)@.datagram,
                    final(self)@.datagram,
                    direction(sender_peer_id, receiver_peer_id),
                    *batch,
                    opened@,
                    order,
                    results@,
                    now_ms,
                ),
    {
        let dir = PeerSession::dir_for_sender(sender_peer_id, receiver_peer_id);
        self.datagram.finish_decrypt_payload_batch(dir, batch, opened, now_ms)
    }
}

/// A synchronization that is only reserved, or was given up, changes neither
/// the traffic keys nor the static key of the session.
pub proof fn lemma_reserved_sync_keeps_keys(session: PeerSessionModel, epoch: u32, key: Option<Key32>)
    ensures
        ({
            let reserved = session.with_sync_reserved(epoch).with_static_key_reserved(key);
            let canceled = reserved.with_sync_canceled(reserved.revision, epoch);
            &&& reserved.datagram == session.datagram
            &&& reserved.peer_static_pubkey == session.peer_static_pubkey
            &&& canceled.datagram == session.datagram
            &&& canceled.peer_static_pubkey == session.peer_static_pubkey
        }),
{
}

/// A synchronization that was given up does not use its epoch up, and its
/// revision never names a later reservation.
pub proof fn lemma_canceled_sync_frees_epoch(session: PeerSessionModel, revision: u64, epoch: u32)
    requires
        session.sync_reserved_as(revision, epoch),
    ensures
        ({
            let canceled = session.with_sync_canceled(revision, epoch);
            &&& canceled.sync_epoch(None) == Ok::<u32, SessionError>(
                session.datagram.next_sync_epoch(),
            )
            &&& canceled.revision != revision
            &&& canceled.with_sync_reserved(session.datagram.next_sync_epoch()).revision != revision
        }),
{
}

/// The two ends of a session agree on the direction of every packet.
pub proof fn lemma_direction_shared(a: PeerId, b: PeerId)
    requires
        a != b,
    ensures
        direction(a, b) != direction(b, a),
{
}

/// A synchronization can start at every epoch above all that the session sends
/// in, has received in or has reserved, and at no other; asked for none, it starts
/// at the lowest of those. While one is pending, none can start.
pub proof fn lemma_sync_epochs_are_new(session: PeerSessionModel, requested: u32)
    requires
        session.datagram.send_epoch < u32::MAX,
        session.reserved_epoch < u32::MAX,
        !crate::secure_datagram::has_received_from(session.datagram, u32::MAX as int),
    ensures
        session.pending_epoch is Some ==> session.sync_epoch(None) == Err::<u32, SessionError>(
            SessionError::SyncPending,
        ) && session.sync_epoch(Some(requested)) == Err::<u32, SessionError>(
            SessionError::SyncPending,
        ),
        session.pending_epoch is None ==> session.sync_epoch(Some(requested)) == (if requested
            > session.datagram.send_epoch && requested > session.reserved_epoch
            && !crate::secure_datagram::has_received_from(session.datagram, requested as int) {
            Ok::<u32, SessionError>(requested)
        } else {
            Err(SessionError::SyncEpochStale)
        }),
        session.pending_epoch is None ==> session.sync_epoch(None) is Ok && ({
            let lowest = session.sync_epoch(None)->Ok_0;
            &&& lowest > session.datagram.send_epoch
            &&& lowest > session.reserved_epoch
            &&& !crate::secure_datagram::has_received_from(session.datagram, lowest as int)
            &&& requested < lowest ==> requested <= session.datagram.send_epoch || requested
                <= session.reserved_epoch || crate::secure_datagram::has_received_from(
                session.datagram,
                requested as int,
            )
        }),
{
    crate::secure_datagram::lemma_sync_starts_above_everything(session.datagram);
    let next = session.datagram.next_sync_epoch() as int;
    lemma_received_from_below(session.datagram, requested as int, next - 1);
    lemma_received_from_below(session.datagram, next, requested as int);
    lemma_received_from_below(session.datagram, next, session.reserved_epoch + 1);
}

/// Whoever has received in an epoch as high as another one has received in one as
/// high as any lower one.
proof fn lemma_received_from_below(session: DatagramModel, low: int, high: int)
    ensures
        low <= high && crate::secure_datagram::has_received_from(session, high)
            ==> crate::secure_datagram::has_received_from(session, low),
{
    if low <= high && crate::secure_datagram::has_received_from(session, high) {
        let (domain, dir) = choose|domain: KeyDomain, dir: SecureDatagramDirection| #[trigger]
            crate::secure_datagram::receives_from(session, domain, dir, high);
        assert(crate::secure_datagram::receives_from(session, domain, dir, low));
    }
}

/// One synchronization at a time: a reserved one bars others, its revision and
/// epoch alone make it active, and afterwards the session sends in its epoch, under
/// the static key that was reserved with it, and is free for the next.
pub proof fn lemma_reserved_sync_becomes_active(
    session: PeerSessionModel,
    requested: Option<u32>,
    epoch: u32,
    other_revision: u64,
    other_epoch: u32,
    root_key: Key32,
    session_generation: u32,
    transition_id: u128,
    now_ms: u64,
)
    requires
        session.valid(),
        session.sync_epoch(requested) == Ok::<u32, SessionError>(epoch),
    ensures
        ({
            let reserved = session.with_sync_reserved(epoch);
            let active = reserved.with_sync_committed(
                reserved.revision,
                root_key,
                session_generation,
                epoch,
                transition_id,
                now_ms,
            );
            &&& reserved.revision != session.revision
            &&& reserved.sync_epoch(None) is Err
            &&& reserved.sync_epoch(Some(other_epoch)) is Err
            &&& reserved.datagram == session.datagram
            &&& reserved.sync_commit_check(other_revision, other_epoch) is Ok == (other_revision
                == reserved.revision && other_epoch == epoch)
            &&& active.datagram.send_epoch == epoch
            &&& active.datagram.root_key == root_key
            &&& active.datagram.session_generation == session_generation
            &&& active.pending_epoch is None
            &&& active.reserved_epoch >= epoch
            &&& active.sync_epoch(None) is Ok
            &&& active.revision != reserved.revision
            &&& active.valid()
            &&& active.peer_static_pubkey == (match session.pending_peer_static_pubkey {
                Some(key) => Some(key),
                None => session.peer_static_pubkey,
            })
            &&& active.pending_peer_static_pubkey is None
            &&& active.sync_commit_check(reserved.revision, epoch) == Err::<(), SessionError>(
                SessionError::SessionChanged,
            )
        }),
{
    crate::secure_datagram::lemma_sync_starts_again(
        session.datagram,
        root_key,
        session_generation,
        epoch,
        true,
        now_ms,
        KeyDomain::Standard,
        SecureDatagramDirection::AToB,
    );
}

/// A session whose keys are over takes no synchronization up.
pub proof fn lemma_invalid_session_commits_nothing(session: PeerSessionModel, revision: u64, epoch: u32)
    requires
        session.invalidated || session.datagram.invalidated,
    ensures
        session.sync_commit_check(revision, epoch) == Err::<(), SessionError>(
            SessionError::SessionInvalidated,
        ),
        !session.valid(),
        !session.invalid_now().valid(),
{
}

/// A static key that is known, or about to be, is never exchanged for another one;
/// a session without one takes the first that it is given.
pub proof fn lemma_static_key_is_never_exchanged(session: PeerSessionModel, key: Key32)
    ensures
        session.static_key_check(Some(key)) is Ok == ((session.peer_static_pubkey matches Some(k)
            ==> k == key) && (session.pending_peer_static_pubkey matches Some(k) ==> k == key)),
        session.static_key_reserve_check(Some(key)) is Ok == ((session.peer_static_pubkey matches Some(
            k,
        ) ==> k == key) && (session.pending_peer_static_pubkey matches Some(k) ==> k == key)),
        session.static_key_set_check(Some(key)) is Ok == (match session.peer_static_pubkey {
            Some(k) => k == key,
            None => session.pending_peer_static_pubkey is None,
        }),
        session.static_key_set_check(Some(key)) is Ok ==> session.with_static_key_set(
            Some(key),
        ).peer_static_pubkey == Some(key),
        session.static_key_check(None) is Ok,
        session.static_key_set_check(None) is Ok,
        session.with_static_key_set(None) == session,
        session.with_static_key_reserved(Some(key)).peer_static_pubkey == session.peer_static_pubkey,
        session.with_static_key_reserved(Some(key)).static_key_with_pending() == Some(key),
        session.with_static_key_reserved(Some(key)).with_static_key_committed().peer_static_pubkey
            == Some(key),
{
}

/// The latest transitions of a session are remembered, the newest last: one more
/// pushes out only the oldest, and only where there are too many.
pub proof fn lemma_latest_transitions_are_remembered(
    session: PeerSessionModel,
    committed: CommittedTransition,
    i: int,
)
    requires
        session.committed_history.len() <= MAX_COMMITTED_TRANSITIONS_PER_SESSION,
    ensures
        ({
            let before = session.committed_history;
            let after = session.history_with(committed);
            let gone = before.len() + 1 - after.len();
            &&& after.len() <= MAX_COMMITTED_TRANSITIONS_PER_SESSION
            &&& after.len() > 0
            &&& after.last() == committed
            &&& gone == 0 || (gone == 1 && before.len() == MAX_COMMITTED_TRANSITIONS_PER_SESSION)
            &&& gone <= i < before.len() ==> after[i - gone] == before[i]
        }),
{
}

/// What is found for some fields is the last transition of the history that they
/// identify, and nothing is found only where there is none.
pub proof fn lemma_latest_identified(history: Seq<CommittedTransition>, fields: TransitionFields)
    ensures
        match latest_identified(history, fields) {
            Some(found) => exists|i: int|
                {
                    &&& 0 <= i < history.len()
                    &&& #[trigger] history[i] == found
                    &&& history[i].identified_by(fields)
                    &&& forall|j: int|
                        i < j < history.len() ==> !(#[trigger] history[j]).identified_by(fields)
                },
            None => forall|i: int|
                0 <= i < history.len() ==> !(#[trigger] history[i]).identified_by(fields),
        },
    decreases history.len(),
{
    if history.len() > 0 {
        let rest = history.drop_last();
        let n = history.len() - 1;
        assert(history.last() == history[n]);
        lemma_latest_identified(rest, fields);
        assert(forall|i: int| 0 <= i < n ==> rest[i] == history[i]);
        if !history.last().identified_by(fields) {
            match latest_identified(rest, fields) {
                Some(found) => {
                    let i = choose|i: int|
                        {
                            &&& 0 <= i < rest.len()
                            &&& #[trigger] rest[i] == found
                            &&& rest[i].identified_by(fields)
                            &&& forall|j: int|
                                i < j < rest.len() ==> !(#[trigger] rest[j]).identified_by(fields)
                        };
                    assert(history[i] == found);
                    assert forall|j: int| i < j < history.len() implies !(
                    #[trigger] history[j]).identified_by(fields) by {
                        if j < n {
                            assert(rest[j] == history[j]);
                        }
                    }
                },
                None => {
                    assert forall|j: int| 0 <= j < history.len() implies !(
                    #[trigger] history[j]).identified_by(fields) by {
                        if j < n {
                            assert(rest[j] == history[j]);
                        }
                    }
                },
            }
        }
    }
}

/// The sides of a session are told apart by their identifiers: the smaller one
/// sends from A to B.
pub proof fn lemma_smaller_peer_is_side_a(a: PeerId, b: PeerId)
    requires
        a < b,
    ensures
        direction(a, b) == SecureDatagramDirection::AToB,
        direction(b, a) == SecureDatagramDirection::BToA,
{
}

} // verus!
