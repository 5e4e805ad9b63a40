//! Names and identities of peer sessions and their transitions.

use vstd::prelude::*;
use crate::bytes::Key32;
use crate::outside::sha256_of;
use crate::packet::PeerId;

verus! {

/// How a handshake ends up with a session.
#[derive(Clone, Copy, Debug, PartialEq, Eq, Hash, Structural)]
pub enum PeerSessionAction {
    /// Use the session that both sides already have.
    Join,
    /// Start a new epoch of the existing session.
    Sync,
    /// Make a new session.
    Create,
}

/// Why a session operation was refused.
#[derive(Clone, Copy, Debug, PartialEq, Eq, Structural)]
pub enum SessionError {
    TransitionIdZero,
    TransitionIdChanged,
    TransitionRevisionMismatch,
    InvalidRecoveryLifetime,
    RecoveryIdentityMismatch,
    RecoveryWithoutTransitionId,
    TransitionNotPending,
    RecoveryPermitMissing,
    TransitionAlreadyInDoubt,
    RecoveryProofAlreadyPending,
    RecoveryPrincipalMissing,
    RecoveryPrincipalCapacityFull,
    RecoveryCapacityFull,
    ReceiptWithoutTransitionId,
    ReceiptAwaitingAcknowledgement,
    ReceiptCapacityFull,
    ReceiptIdentityMismatch,
    ReceiptChanged,
    NoInDoubtTransition,
    InDoubtIdentityMismatch,
    InDoubtReservationChanged,
    InDoubtStaticKeyInconsistent,
    TransitionAwaitingRecovery,
    ProofAwaitingRecovery,
    InDoubtCapacityFull,
    NoLocalSession,
    AlgorithmMismatch,
    StaticKeyMismatch,
    StaticKeyTransitionPending,
    GenerationMismatch,
    CreationPending,
    MissingRootKey,
    MissingTransitionRevision,
    SyncPending,
    SyncEpochStale,
    SessionExists,
    CreationClaimChanged,
    SessionChanged,
    SessionDisappeared,
    SessionInvalidated,
    ProofNotAuthenticated,
    ProofBackupMissing,
    NoProofPending,
    ProofAcknowledgementMismatch,
    ProofDependencyMismatch,
    RandomUnavailable,
    SessionIdsExhausted,
}

/// Names a session: the network and the peer in it.
#[derive(Clone, Debug)]
pub struct SessionKey {
    pub network_name: String,
    pub peer_id: PeerId,
}

/// The value of a session key.
pub struct SessionKeyModel {
    pub network_name: Seq<char>,
    pub peer_id: PeerId,
}

impl View for SessionKey {
    type V = SessionKeyModel;

    open spec fn view(&self) -> SessionKeyModel {
        SessionKeyModel { network_name: self.network_name@, peer_id: self.peer_id }
    }
}

impl SessionKey {
    pub fn new(network_name: String, peer_id: PeerId) -> (key: Self)
        ensures
            key.network_name == network_name,
            key.peer_id == peer_id,
            key@ == (SessionKeyModel { network_name: network_name@, peer_id }),
    {
        SessionKey { network_name, peer_id }
    }

    pub fn same(&self, other: &SessionKey) -> (same: bool)
        ensures
            same == (self@ == other@),
    {
        self.peer_id == other.peer_id && self.network_name == other.network_name
    }

    pub fn duplicate(&self) -> (copy: Self)
        ensures
            copy == *self,
    {
        SessionKey { network_name: self.network_name.clone(), peer_id: self.peer_id }
    }
}

/// What identifies a transition of a known session.
#[derive(Clone, Copy, PartialEq, Eq, Structural)]
pub struct TransitionFields {
    pub session_metadata_id: u128,
    pub action: PeerSessionAction,
    pub session_generation: u32,
    pub initial_epoch: u32,
    pub transition_id: u128,
    /// Counts local changes of the session. It is never sent.
    pub transition_revision: u64,
    pub root_key_digest: Key32,
}

impl TransitionFields {
    /// Whether everything that is authenticated agrees; the local revision is
    /// not.
    pub open spec fn authenticated_as(self, other: TransitionFields) -> bool {
        self == (TransitionFields { transition_revision: self.transition_revision, ..other })
    }

    pub fn matches_authenticated_fields(&self, other: &TransitionFields) -> (same: bool)
        ensures
            same == self.authenticated_as(*other),
    {
        self.session_metadata_id == other.session_metadata_id && self.action == other.action
            && self.session_generation == other.session_generation && self.initial_epoch
            == other.initial_epoch && self.transition_id == other.transition_id
            && self.root_key_digest == other.root_key_digest
    }
}

/// Exact identity of a hidden initiator transition.
///
/// The root key digest only matches the stored reservation. It never supplies
/// a root key for a new session or a synchronization.
#[derive(Clone)]
pub struct InitiatorTransitionIdentity {
    pub session_key: SessionKey,
    pub session_metadata_id: u128,
    pub action: PeerSessionAction,
    pub session_generation: u32,
    pub initial_epoch: u32,
    pub transition_id: u128,
    /// Counts local changes of the session. It is never sent.
    pub transition_revision: u64,
    pub root_key_digest: Key32,
}

/// The value of a transition identity.
pub struct IdentityModel {
    pub key: SessionKeyModel,
    pub fields: TransitionFields,
}

impl View for InitiatorTransitionIdentity {
    type V = IdentityModel;

    open spec fn view(&self) -> IdentityModel {
        IdentityModel {
            key: self.session_key@,
            fields: TransitionFields {
                session_metadata_id: self.session_metadata_id,
                action: self.action,
                session_generation: self.session_generation,
                initial_epoch: self.initial_epoch,
                transition_id: self.transition_id,
                transition_revision: self.transition_revision,
                root_key_digest: self.root_key_digest,
            },
        }
    }
}

impl IdentityModel {
    pub open spec fn authenticated_as(self, other: IdentityModel) -> bool {
        self.key == other.key && self.fields.authenticated_as(other.fields)
    }
}

/// The digest of a root key: SHA-256 of its thirty-two bytes.
pub open spec fn root_key_digest(root_key: Key32) -> Key32 {
    Key32::of_bytes(crate::outside::sha256(root_key.bytes()))
}

impl InitiatorTransitionIdentity {
    pub fn new(
        session_key: SessionKey,
        session_metadata_id: u128,
        action: PeerSessionAction,
        session_generation: u32,
        initial_epoch: u32,
        transition_id: u128,
        root_key_digest: Key32,
    ) -> (identity: Self)
        ensures
            identity@ == (IdentityModel {
                key: session_key@,
                fields: TransitionFields {
                    session_metadata_id,
                    action,
                    session_generation,
                    initial_epoch,
                    transition_id,
                    transition_revision: 0,
                    root_key_digest,
                },
            }),
    {
        InitiatorTransitionIdentity {
            session_key,
            session_metadata_id,
            action,
            session_generation,
            initial_epoch,
            transition_id,
            transition_revision: 0,
            root_key_digest,
        }
    }

    /// The identity made of a key and the fields of a transition.
    pub fn from_fields(session_key: SessionKey, fields: TransitionFields) -> (identity: Self)
        ensures
            identity@ == (IdentityModel { key: session_key@, fields }),
    {
        InitiatorTransitionIdentity {
            session_key,
            session_metadata_id: fields.session_metadata_id,
            action: fields.action,
            session_generation: fields.session_generation,
            initial_epoch: fields.initial_epoch,
            transition_id: fields.transition_id,
            transition_revision: fields.transition_revision,
            root_key_digest: fields.root_key_digest,
        }
    }

    /// The fields beside the session key.
    pub fn fields(&self) -> (fields: TransitionFields)
        ensures
            fields == self@.fields,
    {
        TransitionFields {
            session_metadata_id: self.session_metadata_id,
            action: self.action,
            session_generation: self.session_generation,
            initial_epoch: self.initial_epoch,
            transition_id: self.transition_id,
            transition_revision: self.transition_revision,
            root_key_digest: self.root_key_digest,
        }
    }

    pub fn duplicate(&self) -> (copy: Self)
        ensures
            copy@ == self@,
    {
        InitiatorTransitionIdentity::from_fields(self.session_key.duplicate(), self.fields())
    }

    /// The digest that stands for a root key.
    pub fn digest_root_key(root_key: &Key32) -> (digest: Key32)
        ensures
            digest == root_key_digest(*root_key),
    {
        let bytes = root_key.to_bytes();
        let digest = sha256_of(bytes.as_slice());
        Key32::from_bytes(digest.as_slice())
    }

    /// Whether all authenticated fields agree. The local revision is ignored.
    pub fn matches_authenticated_fields(&self, other: &Self) -> (same: bool)
        ensures
            same == self@.authenticated_as(other@),
    {
        self.session_key.same(&other.session_key) && self.fields().matches_authenticated_fields(
            &other.fields(),
        )
    }

    /// Whether two identities agree in every field.
    pub fn same(&self, other: &Self) -> (same: bool)
        ensures
            same == (self@ == other@),
    {
        self.session_key.same(&other.session_key) && self.fields() == other.fields()
    }
}

} // verus!
