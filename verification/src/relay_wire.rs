//! What relay peers send each other: identities, receipts and origin proofs.

use vstd::prelude::*;
use crate::bytes::{copy_range, push_be, read_be, same_bytes, Key32};
use crate::packet::{
    Packet, PacketModel, PeerHeader, PeerId, PACKET_RELAY_HANDSHAKE, PACKET_RELAY_HANDSHAKE_ACK,
    PACKET_RELAY_HANDSHAKE_CONFIRM, PACKET_RELAY_HANDSHAKE_CONFIRM_ACK,
    PACKET_RELAY_HANDSHAKE_READY, PACKET_RELAY_HANDSHAKE_READY_ACK,
    PACKET_RELAY_HANDSHAKE_READY_RECEIPT, PACKET_RELAY_HANDSHAKE_READY_RECEIPT_ACK,
    PACKET_RELAY_HANDSHAKE_RESET, PACKET_RELAY_HANDSHAKE_RESET_ACK,
};
use crate::session_types::{
    IdentityModel, InitiatorTransitionIdentity, PeerSessionAction, SessionError, SessionKey,
    TransitionFields,
};

verus! {

pub const RELAY_NOISE_VERSION: u32 = 2;

pub const RELAY_HANDSHAKE_ID_SIZE: usize = 16;

pub const RELAY_TRANSITION_ID_SIZE: usize = 16;

pub const RELAY_CONFIRMATION_PAYLOAD_SIZE: usize = 32;

pub const RELAY_READY_RECEIPT_PAYLOAD_SIZE: usize = 57;

/// The letters `LRP1`.
pub const RELAY_ORIGIN_PROOF_MAGIC: u32 = 0x4c52_5031;

pub const RELAY_ORIGIN_PROOF_SIZE: usize = 16;

/// Why a relay operation was refused.
#[derive(Clone, Copy, Debug, PartialEq, Eq, Structural)]
pub enum RelayError {
    NoHeader,
    PacketTypeMismatch,
    HandshakeIdMissing,
    UnsupportedProtocolVersion,
    NoiseFailed,
    InvalidRecoveryAction,
    RecoveryMetadataMissing,
    InvalidRecoveryIdentity,
    InvalidTransitionId,
    InvalidReceiptAction,
    InvalidReceiptPayload,
    InvalidReceiptTransitionId,
    ProofMissing,
    ProofInvalid,
    ProofMismatch,
    QueueClosed,
    QueueFull,
    QueueBudgetFull,
    ReadyBeforeSession,
    MixedBatch,
    AuthorityChangedBeforeEncryption,
    AuthorityChangedBeforeSend,
    NextHopNotFound,
    NextHopNotDirect,
    SessionWithoutPeerKey,
    SessionKeyMismatch,
    OriginWithoutIdentity,
    BridgeGrantMissing,
    BridgeGrantKeyMismatch,
    BindingMissing,
    BindingChanged,
    BridgeGrantChanged,
    OriginConflict,
    ConfirmationExpired,
    ConfirmationUnauthenticated,
    ConfirmationCanceled,
    ConfirmationTimedOut,
    ConfirmationMismatch,
    ConfirmationSessionMissing,
    ConfirmationSessionMismatch,
    InvalidConfirmationPayload,
    InvalidConfirmationType,
    StagedSessionMismatch,
    StagedTransitionMismatch,
    ReadyCanceled,
    ReadyCanceledRecoveryPending,
    ReadyTimedOut,
    ReadyWithoutState,
    ReadyMismatch,
    ReadyWithoutPending,
    ReadyWithoutSession,
    ReadySessionMismatch,
    ReceiptWithoutSession,
    ReceiptMetadataMismatch,
    ReceiptNotCommitted,
    ReceiptTransitionMismatch,
    ReceiptProofNotPending,
    ReceiptProofChanged,
    ReceiptAckUnexpectedSession,
    ReceiptAckOwnerMissing,
    ReceiptAckMismatch,
    ReceiptNotPending,
    ResponderConfirmationPending,
    HandshakeInProgress,
    HandshakeBackoff,
    HandshakeFailed,
    HandshakeCanceled,
    HandshakeTimeout,
    ConnIdMissing,
    ConnIdMismatch,
    ConnIdEchoMismatch,
    PeerKeyNotReady,
    PeerKeyMismatch,
    ResponderBusy,
    ResponderResetBusy,
    RecoveryWithAcknowledgement,
    InvalidAcknowledgement,
    AcknowledgementMissing,
    RecoveryResetConflict,
    ResponderRecoveryMismatch,
    RejectedWithAcknowledgement,
    AcknowledgementMismatch,
    UnexpectedAcknowledgement,
    SessionMetadataMissing,
    ResetWithoutLocalIdentity,
    ResetIdentityMissing,
    ResetIdentityMismatch,
    RecoveryIdentityMismatch,
    TransitionIdMismatch,
    ResetTransitionMismatch,
    ResetNotPending,
    ResetHandshakeIdMismatch,
    ResetAcknowledgementMismatch,
    ResetNotRetained,
    ResetCompleted,
    InvalidSessionAction,
    RetainedKeyMissing,
    RetainedKeyMismatch,
    SessionNotPublished,
    Session { error: SessionError },
}

/// Names one handshake of a session transition.
#[derive(Clone, Copy, Debug, PartialEq, Eq, Structural)]
pub struct RelayConfirmationIdentity {
    pub handshake_id: u128,
    pub session_id: u128,
    pub transition_id: u128,
}

/// Names a commit that the other side has to acknowledge.
#[derive(Clone, Copy, Debug, PartialEq, Eq, Structural)]
pub struct RelayReadyReceiptIdentity {
    pub handshake_id: u128,
    pub session_metadata_id: u128,
    pub transition_id: u128,
    pub action: PeerSessionAction,
    pub session_generation: u32,
    pub initial_epoch: u32,
}

pub fn validate_relay_protocol_version(version: u32) -> (valid: Result<(), RelayError>)
    ensures
        valid == (if version == RELAY_NOISE_VERSION {
            Ok::<(), RelayError>(())
        } else {
            Err(RelayError::UnsupportedProtocolVersion)
        }),
{
    if version == RELAY_NOISE_VERSION {
        return Ok(());
    }
    Err(RelayError::UnsupportedProtocolVersion)
}

/// The number of an action on the wire.
pub open spec fn action_code(action: PeerSessionAction) -> u8 {
    match action {
        PeerSessionAction::Join => 0,
        PeerSessionAction::Sync => 1,
        PeerSessionAction::Create => 2,
    }
}

pub open spec fn action_of_code(code: u8) -> Option<PeerSessionAction> {
    if code == 0 {
        Some(PeerSessionAction::Join)
    } else if code == 1 {
        Some(PeerSessionAction::Sync)
    } else if code == 2 {
        Some(PeerSessionAction::Create)
    } else {
        None
    }
}

pub fn relay_action_to_wire(action: PeerSessionAction) -> (code: u8)
    ensures
        code == action_code(action),
{
    match action {
        PeerSessionAction::Join => 0,
        PeerSessionAction::Sync => 1,
        PeerSessionAction::Create => 2,
    }
}

pub fn relay_action_from_wire(value: u8) -> (action: Result<PeerSessionAction, RelayError>)
    ensures
        action == (match action_of_code(value) {
            Some(a) => Ok::<PeerSessionAction, RelayError>(a),
            None => Err(RelayError::InvalidReceiptAction),
        }),
{
    match value {
        0 => Ok(PeerSessionAction::Join),
        1 => Ok(PeerSessionAction::Sync),
        2 => Ok(PeerSessionAction::Create),
        _ => Err(RelayError::InvalidReceiptAction),
    }
}

/// A receipt on the wire.
pub open spec fn receipt_bytes(identity: RelayReadyReceiptIdentity) -> Seq<u8> {
    crate::bytes::be_bytes(identity.handshake_id as nat, 16) + crate::bytes::be_bytes(
        identity.session_metadata_id as nat,
        16,
    ) + crate::bytes::be_bytes(identity.transition_id as nat, 16) + crate::bytes::be_bytes(
        action_code(identity.action) as nat,
        1,
    ) + crate::bytes::be_bytes(identity.session_generation as nat, 4) + crate::bytes::be_bytes(
        identity.initial_epoch as nat,
        4,
    )
}

/// The receipt that a payload holds, or what is wrong with the payload.
pub open spec fn receipt_of_bytes(payload: Seq<u8>) -> Result<RelayReadyReceiptIdentity, RelayError> {
    if payload.len() != RELAY_READY_RECEIPT_PAYLOAD_SIZE {
        Err(RelayError::InvalidReceiptPayload)
    } else if crate::bytes::be_value(payload.subrange(32, 48)) == 0 {
        Err(RelayError::InvalidReceiptTransitionId)
    } else {
        match action_of_code(crate::bytes::be_value(payload.subrange(48, 49)) as u8) {
            None => Err(RelayError::InvalidReceiptAction),
            Some(action) => Ok(
                RelayReadyReceiptIdentity {
                    handshake_id: crate::bytes::be_value(payload.subrange(0, 16)) as u128,
                    session_metadata_id: crate::bytes::be_value(payload.subrange(16, 32)) as u128,
                    transition_id: crate::bytes::be_value(payload.subrange(32, 48)) as u128,
                    action,
                    session_generation: crate::bytes::be_value(payload.subrange(49, 53)) as u32,
                    initial_epoch: crate::bytes::be_value(payload.subrange(53, 57)) as u32,
                },
            ),
        }
    }
}

pub fn encode_relay_ready_receipt(identity: RelayReadyReceiptIdentity) -> (payload: Vec<u8>)
    ensures
        payload@ == receipt_bytes(identity),
{
    let mut payload: Vec<u8> = Vec::new();
    push_be(&mut payload, identity.handshake_id, 16);
    push_be(&mut payload, identity.session_metadata_id, 16);
    push_be(&mut payload, identity.transition_id, 16);
    push_be(&mut payload, relay_action_to_wire(identity.action) as u128, 1);
    push_be(&mut payload, identity.session_generation as u128, 4);
    push_be(&mut payload, identity.initial_epoch as u128, 4);
    assert(payload@ =~= receipt_bytes(identity));
    payload
}

pub fn decode_relay_ready_receipt(payload: &[u8]) -> (identity: Result<
    RelayReadyReceiptIdentity,
    RelayError,
>)
    ensures
        identity == receipt_of_bytes(payload@),
{
    if payload.len() != RELAY_READY_RECEIPT_PAYLOAD_SIZE {
        return Err(RelayError::InvalidReceiptPayload);
    }
    proof {
        crate::bytes::lemma_pow256();
    }
    let transition_id: u128 = read_be(payload, 32, 16);
    if transition_id == 0 {
        return Err(RelayError::InvalidReceiptTransitionId);
    }
    let code: u128 = read_be(payload, 48, 1);
    let action = match relay_action_from_wire(code as u8) {
        Ok(action) => action,
        Err(e) => {
            return Err(e);
        },
    };
    let handshake_id: u128 = read_be(payload, 0, 16);
    let session_metadata_id: u128 = read_be(payload, 16, 16);
    let session_generation: u128 = read_be(payload, 49, 4);
    let initial_epoch: u128 = read_be(payload, 53, 4);
    Ok(
        RelayReadyReceiptIdentity {
            handshake_id,
            session_metadata_id,
            transition_id,
            action,
            session_generation: session_generation as u32,
            initial_epoch: initial_epoch as u32,
        },
    )
}

/// A receipt that is sent is the receipt that arrives, if its transition has a
/// token.
pub proof fn lemma_receipt_round_trip(identity: RelayReadyReceiptIdentity)
    requires
        identity.transition_id != 0,
    ensures
        receipt_of_bytes(receipt_bytes(identity)) == Ok::<RelayReadyReceiptIdentity, RelayError>(
            identity,
        ),
{
    let payload = receipt_bytes(identity);
    crate::bytes::lemma_pow256();
    broadcast use crate::bytes::lemma_be_bytes_len;

    crate::bytes::lemma_be_value_of_bytes(identity.handshake_id as nat, 16);
    crate::bytes::lemma_be_value_of_bytes(identity.session_metadata_id as nat, 16);
    crate::bytes::lemma_be_value_of_bytes(identity.transition_id as nat, 16);
    crate::bytes::lemma_be_value_of_bytes(action_code(identity.action) as nat, 1);
    crate::bytes::lemma_be_value_of_bytes(identity.session_generation as nat, 4);
    crate::bytes::lemma_be_value_of_bytes(identity.initial_epoch as nat, 4);
    assert(payload.subrange(0, 16) =~= crate::bytes::be_bytes(identity.handshake_id as nat, 16));
    assert(payload.subrange(16, 32) =~= crate::bytes::be_bytes(
        identity.session_metadata_id as nat,
        16,
    ));
    assert(payload.subrange(32, 48) =~= crate::bytes::be_bytes(identity.transition_id as nat, 16));
    assert(payload.subrange(48, 49) =~= crate::bytes::be_bytes(
        action_code(identity.action) as nat,
        1,
    ));
    assert(payload.subrange(49, 53) =~= crate::bytes::be_bytes(
        identity.session_generation as nat,
        4,
    ));
    assert(payload.subrange(53, 57) =~= crate::bytes::be_bytes(identity.initial_epoch as nat, 4));
}

/// A confirmation on the wire.
pub open spec fn confirmation_bytes(handshake_id: u128, transition_id: u128) -> Seq<u8> {
    crate::bytes::be_bytes(handshake_id as nat, 16) + crate::bytes::be_bytes(
        transition_id as nat,
        16,
    )
}

/// The handshake and the transition that a confirmation payload names.
pub open spec fn confirmation_of_bytes(payload: Seq<u8>) -> Option<(u128, u128)> {
    if payload.len() != RELAY_CONFIRMATION_PAYLOAD_SIZE {
        None
    } else {
        Some(
            (
                crate::bytes::be_value(payload.subrange(0, 16)) as u128,
                crate::bytes::be_value(payload.subrange(16, 32)) as u128,
            ),
        )
    }
}

pub fn decode_confirmation(payload: &[u8]) -> (ids: Option<(u128, u128)>)
    ensures
        ids == confirmation_of_bytes(payload@),
{
    if payload.len() != RELAY_CONFIRMATION_PAYLOAD_SIZE {
        return None;
    }
    proof {
        crate::bytes::lemma_pow256();
    }
    let handshake_id: u128 = read_be(payload, 0, 16);
    let transition_id: u128 = read_be(payload, 16, 16);
    Some((handshake_id, transition_id))
}

/// A confirmation names what it was made of.
pub proof fn lemma_confirmation_round_trip(handshake_id: u128, transition_id: u128)
    ensures
        confirmation_of_bytes(confirmation_bytes(handshake_id, transition_id)) == Some(
            (handshake_id, transition_id),
        ),
{
    let payload = confirmation_bytes(handshake_id, transition_id);
    crate::bytes::lemma_pow256();
    broadcast use crate::bytes::lemma_be_bytes_len;

    crate::bytes::lemma_be_value_of_bytes(handshake_id as nat, 16);
    crate::bytes::lemma_be_value_of_bytes(transition_id as nat, 16);
    assert(payload.subrange(0, 16) =~= crate::bytes::be_bytes(handshake_id as nat, 16));
    assert(payload.subrange(16, 32) =~= crate::bytes::be_bytes(transition_id as nat, 16));
}

/// The proof of a packet's origin: a label and the stable header fields.
pub open spec fn origin_proof(header: PeerHeader) -> Seq<u8> {
    crate::bytes::be_bytes(RELAY_ORIGIN_PROOF_MAGIC as nat, 4) + header.stable_fields()
}

/// Whether the payload of a packet ends in the proof of its origin, or what is
/// wrong with it.
pub open spec fn origin_proof_check(packet: PacketModel) -> Result<(), RelayError> {
    let n = packet.payload.len() as int;
    if n < RELAY_ORIGIN_PROOF_SIZE {
        Err(RelayError::ProofMissing)
    } else if crate::bytes::be_value(packet.payload.subrange(n - 16, n - 12))
        != RELAY_ORIGIN_PROOF_MAGIC {
        Err(RelayError::ProofInvalid)
    } else {
        match packet.header {
            None => Err(RelayError::NoHeader),
            Some(header) => if packet.payload.subrange(n - 12, n) != header.stable_fields() {
                Err(RelayError::ProofMismatch)
            } else {
                Ok(())
            },
        }
    }
}

/// Appends the proof of the origin to the payload. The flow and control marks of
/// the header have to be set before.
pub fn attach_relay_origin_proof(packet: &mut Packet) -> (attached: Result<(), RelayError>)
    ensures
        attached == (if old(packet).header is Some {
            Ok::<(), RelayError>(())
        } else {
            Err(RelayError::NoHeader)
        }),
        final(packet)@ == (match old(packet).header {
            Some(header) => PacketModel {
                payload: old(packet)@.payload + origin_proof(header),
                ..old(packet)@
            },
            None => old(packet)@,
        }),
{
    match packet.header {
        None => Err(RelayError::NoHeader),
        Some(header) => {
            let fields = header.stable_fields_data();
            let mut payload = copy_range(packet.payload.as_slice(), 0, packet.payload.len());
            push_be(&mut payload, RELAY_ORIGIN_PROOF_MAGIC as u128, 4);
            append(&mut payload, &fields);
            assert(payload@ =~= packet.payload@ + origin_proof(header));
            packet.payload = payload;
            Ok(())
        },
    }
}

fn append(out: &mut Vec<u8>, more: &Vec<u8>)
    ensures
        final(out)@ == old(out)@ + more@,
{
    let mut i: usize = 0;
    assert(out@ =~= old(out)@ + more@.take(0));
    while i < more.len()
        invariant
            i <= more@.len(),
            out@ == old(out)@ + more@.take(i as int),
        decreases more@.len() - i,
    {
        out.push(more[i]);
        i = i + 1;
        assert(out@ =~= old(out)@ + more@.take(i as int));
    }
    assert(more@.take(i as int) =~= more@);
}

/// Checks the proof of the origin and takes it off the payload.
pub fn verify_and_remove_relay_origin_proof(packet: &mut Packet) -> (verified: Result<(), RelayError>)
    ensures
        verified == origin_proof_check(old(packet)@),
        final(packet)@ == (if verified is Ok {
            PacketModel {
                payload: old(packet)@.payload.take(
                    old(packet)@.payload.len() - RELAY_ORIGIN_PROOF_SIZE,
                ),
                ..old(packet)@
            }
        } else {
            old(packet)@
        }),
{
    let n: usize = packet.payload.len();
    if n < RELAY_ORIGIN_PROOF_SIZE {
        return Err(RelayError::ProofMissing);
    }
    let magic: u128 = read_be(packet.payload.as_slice(), n - 16, 4);
    if magic != RELAY_ORIGIN_PROOF_MAGIC as u128 {
        return Err(RelayError::ProofInvalid);
    }
    match packet.header {
        None => Err(RelayError::NoHeader),
        Some(header) => {
            let expected = header.stable_fields_data();
            let attached = copy_range(packet.payload.as_slice(), n - 12, n);
            if !same_bytes(expected.as_slice(), attached.as_slice()) {
                return Err(RelayError::ProofMismatch);
            }
            let payload = copy_range(packet.payload.as_slice(), 0, n - 16);
            assert(payload@ =~= packet.payload@.take(n - 16));
            packet.payload = payload;
            Ok(())
        },
    }
}

/// A proof holds on arrival exactly if the stable header fields are those that
/// it was made of; the payload before it is the one that was sent.
pub proof fn lemma_origin_proof_binds_header(payload: Seq<u8>, sent: PeerHeader, arrived: PeerHeader)
    ensures
        ({
            let packet = PacketModel {
                header: Some(arrived),
                payload: payload + origin_proof(sent),
                verified_origin: None,
            };
            &&& origin_proof_check(packet) is Ok <==> sent.same_stable(arrived)
            &&& packet.payload.take(packet.payload.len() - RELAY_ORIGIN_PROOF_SIZE) == payload
        }),
{
    let n = payload.len() + 16;
    let whole = payload + origin_proof(sent);
    crate::bytes::lemma_pow256();
    crate::bytes::lemma_be_value_of_bytes(RELAY_ORIGIN_PROOF_MAGIC as nat, 4);
    broadcast use crate::bytes::lemma_be_bytes_len;

    sent.lemma_stable_len();
    PeerHeader::lemma_stable_fields(sent, arrived);
    assert(whole.subrange(n - 16, n - 12) =~= crate::bytes::be_bytes(
        RELAY_ORIGIN_PROOF_MAGIC as nat,
        4,
    ));
    assert(whole.subrange(n - 12, n as int) =~= sent.stable_fields());
    assert(whole.take(n - 16) =~= payload);
}

/// A transition identity on the wire. The action is absent where its code is
/// unknown.
pub struct RecoveryMessage {
    pub session_metadata_id: Option<u128>,
    pub action: Option<PeerSessionAction>,
    pub session_generation: u32,
    pub initial_epoch: u32,
    pub root_key_digest: Vec<u8>,
    pub transition_id: Vec<u8>,
}

impl RecoveryMessage {
    /// Whether two messages have the same contents.
    pub open spec fn same(self, other: RecoveryMessage) -> bool {
        &&& self.session_metadata_id == other.session_metadata_id
        &&& self.action == other.action
        &&& self.session_generation == other.session_generation
        &&& self.initial_epoch == other.initial_epoch
        &&& self.root_key_digest@ == other.root_key_digest@
        &&& self.transition_id@ == other.transition_id@
    }

    pub fn duplicate(&self) -> (copy: Self)
        ensures
            copy.same(*self),
    {
        let root_key_digest = copy_range(
            self.root_key_digest.as_slice(),
            0,
            self.root_key_digest.len(),
        );
        let transition_id = copy_range(self.transition_id.as_slice(), 0, self.transition_id.len());
        assert(root_key_digest@ =~= self.root_key_digest@);
        assert(transition_id@ =~= self.transition_id@);
        RecoveryMessage {
            session_metadata_id: self.session_metadata_id,
            action: self.action,
            session_generation: self.session_generation,
            initial_epoch: self.initial_epoch,
            root_key_digest,
            transition_id,
        }
    }
}

pub open spec fn recovery_check(message: RecoveryMessage) -> Result<(), RelayError> {
    if message.action is None {
        Err(RelayError::InvalidRecoveryAction)
    } else if message.session_metadata_id is None {
        Err(RelayError::RecoveryMetadataMissing)
    } else if message.root_key_digest@.len() != 32 || message.transition_id@.len()
        != RELAY_TRANSITION_ID_SIZE || crate::bytes::be_value(message.transition_id@) == 0 {
        Err(RelayError::InvalidRecoveryIdentity)
    } else {
        Ok(())
    }
}

/// The identity that a valid message holds. The local revision is not sent.
pub open spec fn recovery_fields(message: RecoveryMessage) -> TransitionFields {
    TransitionFields {
        session_metadata_id: message.session_metadata_id->0,
        action: message.action->0,
        session_generation: message.session_generation,
        initial_epoch: message.initial_epoch,
        transition_id: crate::bytes::be_value(message.transition_id@) as u128,
        transition_revision: 0,
        root_key_digest: Key32::of_bytes(message.root_key_digest@),
    }
}

pub fn recovery_pb_from_identity(identity: &InitiatorTransitionIdentity) -> (message: RecoveryMessage)
    ensures
        message.session_metadata_id == Some(identity.session_metadata_id),
        message.action == Some(identity.action),
        message.session_generation == identity.session_generation,
        message.initial_epoch == identity.initial_epoch,
        message.root_key_digest@ == identity.root_key_digest.bytes(),
        message.transition_id@ == crate::bytes::be_bytes(identity.transition_id as nat, 16),
        identity.transition_id != 0 ==> recovery_check(message) is Ok && recovery_fields(message)
            == (TransitionFields { transition_revision: 0, ..identity@.fields }),
{
    let mut transition_id: Vec<u8> = Vec::new();
    push_be(&mut transition_id, identity.transition_id, 16);
    let root_key_digest = identity.root_key_digest.to_bytes();
    proof {
        crate::bytes::lemma_pow256();
        broadcast use crate::bytes::lemma_be_bytes_len;

        assert(transition_id@ =~= crate::bytes::be_bytes(identity.transition_id as nat, 16));
        crate::bytes::lemma_be_value_of_bytes(identity.transition_id as nat, 16);
        let digest = identity.root_key_digest;
        crate::bytes::lemma_be_value_of_bytes(digest.hi as nat, 16);
        crate::bytes::lemma_be_value_of_bytes(digest.lo as nat, 16);
        assert(digest.bytes().subrange(0, 16) =~= crate::bytes::be_bytes(digest.hi as nat, 16));
        assert(digest.bytes().subrange(16, 32) =~= crate::bytes::be_bytes(digest.lo as nat, 16));
    }
    RecoveryMessage {
        session_metadata_id: Some(identity.session_metadata_id),
        action: Some(identity.action),
        session_generation: identity.session_generation,
        initial_epoch: identity.initial_epoch,
        root_key_digest,
        transition_id,
    }
}

pub fn recovery_identity_from_pb(message: &RecoveryMessage, session_key: SessionKey) -> (identity:
    Result<InitiatorTransitionIdentity, RelayError>)
    ensures
        match recovery_check(*message) {
            Err(e) => identity == Err::<InitiatorTransitionIdentity, RelayError>(e),
            Ok(_) => identity matches Ok(i) && i@ == (IdentityModel {
                key: session_key@,
                fields: recovery_fields(*message),
            }),
        },
{
    let action = match message.action {
        Some(action) => action,
        None => {
            return Err(RelayError::InvalidRecoveryAction);
        },
    };
    let session_metadata_id: u128 = match message.session_metadata_id {
        Some(id) => id,
        None => {
            return Err(RelayError::RecoveryMetadataMissing);
        },
    };
    if message.root_key_digest.len() != 32 || message.transition_id.len()
        != RELAY_TRANSITION_ID_SIZE {
        return Err(RelayError::InvalidRecoveryIdentity);
    }
    let transition_id: u128 = read_be(message.transition_id.as_slice(), 0, 16);
    assert(message.transition_id@.subrange(0, 16) =~= message.transition_id@);
    if transition_id == 0 {
        return Err(RelayError::InvalidRecoveryIdentity);
    }
    let root_key_digest = Key32::from_bytes(message.root_key_digest.as_slice());
    Ok(
        InitiatorTransitionIdentity::new(
            session_key,
            session_metadata_id,
            action,
            message.session_generation,
            message.initial_epoch,
            transition_id,
            root_key_digest,
        ),
    )
}

/// The transition token in sixteen bytes, none of which may all be zero.
pub open spec fn transition_id_of(bytes: Seq<u8>) -> Result<u128, RelayError> {
    if bytes.len() != RELAY_TRANSITION_ID_SIZE || crate::bytes::be_value(bytes) == 0 {
        Err(RelayError::InvalidTransitionId)
    } else {
        Ok(crate::bytes::be_value(bytes) as u128)
    }
}

pub fn transition_id_from_wire(bytes: &[u8]) -> (id: Result<u128, RelayError>)
    ensures
        id == transition_id_of(bytes@),
{
    if bytes.len() != RELAY_TRANSITION_ID_SIZE {
        return Err(RelayError::InvalidTransitionId);
    }
    let id: u128 = read_be(bytes, 0, 16);
    assert(bytes@.subrange(0, 16) =~= bytes@);
    if id == 0 {
        return Err(RelayError::InvalidTransitionId);
    }
    Ok(id)
}

/// Whether a local identity is the one that arrived. The local revision is
/// private and does not count.
pub fn recovery_identity_matches_wire(
    local: &InitiatorTransitionIdentity,
    wire: &InitiatorTransitionIdentity,
) -> (same: bool)
    ensures
        same == local@.authenticated_as(wire@),
{
    local.matches_authenticated_fields(wire)
}

pub open spec fn is_confirmation_type(packet_type: u8) -> bool {
    ||| packet_type == PACKET_RELAY_HANDSHAKE_CONFIRM
    ||| packet_type == PACKET_RELAY_HANDSHAKE_CONFIRM_ACK
    ||| packet_type == PACKET_RELAY_HANDSHAKE_READY
    ||| packet_type == PACKET_RELAY_HANDSHAKE_READY_ACK
    ||| packet_type == PACKET_RELAY_HANDSHAKE_READY_RECEIPT
    ||| packet_type == PACKET_RELAY_HANDSHAKE_READY_RECEIPT_ACK
}

pub open spec fn is_handshake_type(packet_type: u8) -> bool {
    ||| packet_type == PACKET_RELAY_HANDSHAKE
    ||| packet_type == PACKET_RELAY_HANDSHAKE_ACK
    ||| packet_type == PACKET_RELAY_HANDSHAKE_RESET
    ||| packet_type == PACKET_RELAY_HANDSHAKE_RESET_ACK
}

pub fn is_handshake_confirmation_packet_type(packet_type: u8) -> (is: bool)
    ensures
        is == is_confirmation_type(packet_type),
{
    packet_type == PACKET_RELAY_HANDSHAKE_CONFIRM || packet_type
        == PACKET_RELAY_HANDSHAKE_CONFIRM_ACK || packet_type == PACKET_RELAY_HANDSHAKE_READY
        || packet_type == PACKET_RELAY_HANDSHAKE_READY_ACK || packet_type
        == PACKET_RELAY_HANDSHAKE_READY_RECEIPT || packet_type
        == PACKET_RELAY_HANDSHAKE_READY_RECEIPT_ACK
}

pub fn is_handshake_packet_type(packet_type: u8) -> (is: bool)
    ensures
        is == is_handshake_type(packet_type),
{
    packet_type == PACKET_RELAY_HANDSHAKE || packet_type == PACKET_RELAY_HANDSHAKE_ACK
        || packet_type == PACKET_RELAY_HANDSHAKE_RESET || packet_type
        == PACKET_RELAY_HANDSHAKE_RESET_ACK
}

/// A packet with a fresh header.
pub open spec fn fresh_packet(from: PeerId, to: PeerId, packet_type: u8, payload: Seq<u8>) -> PacketModel {
    PacketModel {
        header: Some(
            PeerHeader {
                from_peer_id: from,
                to_peer_id: to,
                packet_type,
                flags: 0,
                controls: 0,
                forward_counter: 0,
                flow_shard: 0,
                len: crate::packet::header_len(payload),
            },
        ),
        payload,
        verified_origin: None,
    }
}

/// A handshake packet: the identifier of the handshake, then the noise message.
pub fn handshake_packet(
    my_peer_id: PeerId,
    dst_peer_id: PeerId,
    packet_type: u8,
    handshake_id: u128,
    noise_payload: &Vec<u8>,
) -> (packet: Packet)
    ensures
        packet@ == fresh_packet(
            my_peer_id,
            dst_peer_id,
            packet_type,
            crate::bytes::be_bytes(handshake_id as nat, 16) + noise_payload@,
        ),
{
    let mut payload: Vec<u8> = Vec::new();
    push_be(&mut payload, handshake_id, 16);
    append(&mut payload, noise_payload);
    assert(payload@ =~= crate::bytes::be_bytes(handshake_id as nat, 16) + noise_payload@);
    let mut packet = Packet::new_with_payload(payload);
    packet.fill_peer_manager_hdr(my_peer_id, dst_peer_id, packet_type);
    packet
}

/// The packet with the proof of its origin at the end.
pub open spec fn proven(packet: PacketModel) -> PacketModel {
    PacketModel { payload: packet.payload + origin_proof(packet.header->0), ..packet }
}

/// A confirmation packet before it is sealed.
pub fn confirmation_packet(
    my_peer_id: PeerId,
    dst_peer_id: PeerId,
    packet_type: u8,
    handshake_id: u128,
    transition_id: u128,
) -> (packet: Packet)
    ensures
        packet@ == proven(
            fresh_packet(
                my_peer_id,
                dst_peer_id,
                packet_type,
                confirmation_bytes(handshake_id, transition_id),
            ),
        ),
{
    let mut payload: Vec<u8> = Vec::new();
    push_be(&mut payload, handshake_id, 16);
    push_be(&mut payload, transition_id, 16);
    assert(payload@ =~= confirmation_bytes(handshake_id, transition_id));
    let mut packet = Packet::new_with_payload(payload);
    packet.fill_peer_manager_hdr(my_peer_id, dst_peer_id, packet_type);
    let _ = attach_relay_origin_proof(&mut packet);
    packet
}

/// A receipt packet before it is sealed.
pub fn ready_receipt_packet(
    my_peer_id: PeerId,
    dst_peer_id: PeerId,
    packet_type: u8,
    identity: RelayReadyReceiptIdentity,
) -> (packet: Packet)
    ensures
        packet@ == proven(
            fresh_packet(my_peer_id, dst_peer_id, packet_type, receipt_bytes(identity)),
        ),
{
    let payload = encode_relay_ready_receipt(identity);
    let mut packet = Packet::new_with_payload(payload);
    packet.fill_peer_manager_hdr(my_peer_id, dst_peer_id, packet_type);
    let _ = attach_relay_origin_proof(&mut packet);
    packet
}

} // verus!
