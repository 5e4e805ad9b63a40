use hmac::{Hmac, Mac};
use sha2::{Digest, Sha256};

use lowertier::bytes::Key32;
use lowertier::initiator_store::InitiatorAsk;
use lowertier::noise::{open_first_message, start_handshake};
use lowertier::outside::new_uuid;
use lowertier::packet::{
    Packet, PeerId, PeerIdentityType, SecureAuthLevel, VerifiedOrigin, CONTROL_CRITICAL_L2,
    CONTROL_SPEED_FIRST, FLAG_EXIT_NODE, FLAG_LATENCY_FIRST, FLAG_NO_PROXY, PACKET_DATA,
    PACKET_RELAY_HANDSHAKE, PACKET_RELAY_HANDSHAKE_ACK, PACKET_RELAY_HANDSHAKE_CONFIRM,
    PACKET_RELAY_HANDSHAKE_CONFIRM_ACK, PACKET_RELAY_HANDSHAKE_READY,
    PACKET_RELAY_HANDSHAKE_READY_ACK, PACKET_RELAY_HANDSHAKE_READY_RECEIPT,
    PACKET_RELAY_HANDSHAKE_READY_RECEIPT_ACK, PACKET_RPC_REQ,
};
use lowertier::peer_session::PeerSession;
use lowertier::relay_auth::{OriginAuthEntry, OriginAuthGrant, RelayAuthority};
use lowertier::relay_batch::BatchDecision;
use lowertier::relay_confirmation::ConfirmationReply;
use lowertier::relay_dial::{HandshakeDispatch, Msg2Verdict};
use lowertier::relay_handshake::{answer_message, Msg1Admission, Msg1Plan, RelayNoiseMsg1};
use lowertier::relay_initiator::{ConfirmationStep, ReadyReceiptDriver, ReadyReceiptStep};
use lowertier::relay_open::OpenChoice;
use lowertier::relay_peer::{
    PendingConfirmationAck, RelayOutcome, RelayPeer, HANDSHAKE_CONFIRM_RETRY_MS,
};
use lowertier::relay_peer_map::RelayPeerMap;
use lowertier::relay_queue::{
    FullEthernetAuthorizationToken, RelayBudget, RelayReadyPacket, RelaySendPhase, RelaySendState,
    RELAY_QUEUE_MAX_BYTES_PER_PEER,
};
use lowertier::relay_send::{
    choose_next_hop, deliver, full_ethernet_authorization_is_current, Delivery, Reachability,
    SendDecision,
};
use lowertier::relay_wire::{
    attach_relay_origin_proof, confirmation_packet, decode_confirmation,
    decode_relay_ready_receipt, encode_relay_ready_receipt, handshake_packet,
    ready_receipt_packet, recovery_identity_from_pb, recovery_identity_matches_wire,
    recovery_pb_from_identity, relay_action_from_wire, transition_id_from_wire,
    validate_relay_protocol_version, verify_and_remove_relay_origin_proof,
    RelayConfirmationIdentity, RelayError, RelayReadyReceiptIdentity, RELAY_HANDSHAKE_ID_SIZE,
    RELAY_NOISE_VERSION, RELAY_TRANSITION_ID_SIZE,
};
use lowertier::route_trait::NextHopPolicy;
use lowertier::secure_datagram::CipherRequest;
use lowertier::session_store::{
    PeerSessionStore, SessionId, SessionQuotas, INITIATOR_RECOVERY_LIFETIME_MS,
};
use lowertier::session_types::{
    InitiatorTransitionIdentity, PeerSessionAction, SessionKey,
};

const NOW: u64 = 1_700_000_000_000;

fn id_of(byte: u8) -> u128 {
    u128::from_be_bytes([byte; 16])
}

fn filled(byte: u8) -> Key32 {
    Key32::from_bytes(&[byte; 32])
}

fn aes() -> String {
    "aes-256-gcm".to_string()
}

fn queue_packet(payload_len: usize) -> Packet {
    let payload = vec![0_u8; payload_len];
    let mut packet = Packet::new_with_payload(payload);
    packet.fill_peer_manager_hdr(7, 9, PACKET_DATA);
    packet
}

fn ready(packet: Packet) -> RelayReadyPacket {
    RelayReadyPacket {
        packet,
        policy: NextHopPolicy::LeastHop,
        authorization: None,
    }
}

#[test]
fn unknown_relay_handshake_does_not_retain_a_responder_lock() {
    let mut store = PeerSessionStore::new();
    let mut quotas = SessionQuotas::new();
    let mut relay_map = RelayPeerMap::new(10, "relay-admission".to_string());
    let mut packet = Packet::new_with_payload(vec![0; RELAY_HANDSHAKE_ID_SIZE + 1]);
    packet.fill_peer_manager_hdr(999, 10, PACKET_RELAY_HANDSHAKE);

    let dispatch = relay_map.handle_handshake_packet(&packet).ok().unwrap();
    assert!(matches!(dispatch, HandshakeDispatch::Msg1 { handshake_id: 0 }));
    assert!(open_first_message(filled(1), &packet).is_err());
    let mut peer = relay_map.take_peer(999);
    let message = RelayNoiseMsg1 {
        version: RELAY_NOISE_VERSION,
        a_session_generation: None,
        a_conn_id: Some(0),
        client_encryption_algorithm: aes(),
        recovery: None,
        acknowledged_transition_id: Vec::new(),
    };
    let admission = peer.admit_msg1(
        &mut store,
        &mut quotas,
        10,
        999,
        0,
        None,
        &Vec::new(),
        &message,
        &packet,
        NOW,
    );
    assert!(matches!(admission, Err(RelayError::PeerKeyNotReady)));
    assert!(peer.blank());
    relay_map.put_peer(999, peer);
    assert!(!relay_map.has_state(999));
}

#[test]
fn relay_queue_rejects_large_packet_without_retaining_it() {
    let mut budget = RelayBudget::with_limit(usize::MAX);
    let mut state = RelaySendState::new(RelaySendPhase::AwaitingSession);
    let error = state.enqueue(
        &mut budget,
        ready(queue_packet(RELAY_QUEUE_MAX_BYTES_PER_PEER)),
    );
    assert!(error.is_err());
    assert_eq!(state.packet_count(), 0);
    state.close(&mut budget);
}

#[test]
fn relay_queue_batch_admission_is_atomic_and_close_releases_budget() {
    let mut budget = RelayBudget::with_limit(usize::MAX);
    let mut state = RelaySendState::new(RelaySendPhase::AwaitingSession);
    let packets = vec![
        ready(queue_packet(RELAY_QUEUE_MAX_BYTES_PER_PEER / 2)),
        ready(queue_packet(RELAY_QUEUE_MAX_BYTES_PER_PEER / 2)),
        ready(queue_packet(RELAY_QUEUE_MAX_BYTES_PER_PEER / 2)),
    ];
    assert!(state.enqueue_batch(&mut budget, packets).is_err());
    assert_eq!(state.packet_count(), 0);
    state.close(&mut budget);

    let mut next = RelaySendState::new(RelaySendPhase::AwaitingSession);
    assert!(next
        .enqueue(
            &mut budget,
            ready(queue_packet(RELAY_QUEUE_MAX_BYTES_PER_PEER - 256))
        )
        .is_ok());
    next.close(&mut budget);
    let mut after_close = RelaySendState::new(RelaySendPhase::AwaitingSession);
    assert!(after_close
        .enqueue(
            &mut budget,
            ready(queue_packet(RELAY_QUEUE_MAX_BYTES_PER_PEER - 256))
        )
        .is_ok());
    after_close.close(&mut budget);
    assert_eq!((budget.bytes, budget.packets, budget.memory_used), (0, 0, 0));
}

#[test]
fn popped_packets_come_back_in_order() {
    let mut budget = RelayBudget::with_limit(1_000_000);
    let mut state = RelaySendState::new(RelaySendPhase::AwaitingSession);
    for len in [1, 2, 3] {
        state.enqueue(&mut budget, ready(queue_packet(len))).ok().unwrap();
    }
    let used = budget.bytes;
    state.set_phase(RelaySendPhase::Draining);
    let popped = state.pop_batch_for_send(2).unwrap();
    let lens: Vec<usize> = popped.iter().map(|item| item.packet.payload.len()).collect();
    assert_eq!(lens, vec![1, 2]);
    state.requeue_failed_batch(popped);
    assert_eq!(state.packet_count(), 3);
    assert_eq!(budget.bytes, used);
    let all = state.pop_batch_for_send(9).unwrap();
    let lens: Vec<usize> = all.iter().map(|item| item.packet.payload.len()).collect();
    assert_eq!(lens, vec![1, 2, 3]);
    let bytes = lowertier::relay_queue::batch_bytes(&all);
    state.complete_send_batch(&mut budget, bytes, all.len());
    assert_eq!(budget.bytes, 0);
    assert!(state.is_empty());
    assert!(state.finish_draining());
    assert!(state.phase() == RelaySendPhase::Ready);
}

#[test]
fn current_relay_protocol_rejects_old_versions() {
    assert!(validate_relay_protocol_version(RELAY_NOISE_VERSION).is_ok());
    assert!(validate_relay_protocol_version(RELAY_NOISE_VERSION - 1).is_err());
}

fn relayed() -> Packet {
    let mut packet = Packet::new_with_payload(b"relay payload".to_vec());
    packet.fill_peer_manager_hdr(7, 9, PACKET_DATA);
    packet
}

#[test]
fn relay_origin_proof_round_trips_the_original_payload() {
    let mut packet = relayed();
    packet.header.as_mut().unwrap().set_flags(FLAG_EXIT_NODE, true);

    attach_relay_origin_proof(&mut packet).unwrap();
    verify_and_remove_relay_origin_proof(&mut packet).unwrap();

    assert_eq!(packet.payload, b"relay payload");
    let header = packet.header.unwrap();
    assert_eq!(header.from_peer_id, 7);
    assert_eq!(header.to_peer_id, 9);
    assert_eq!(header.packet_type, PACKET_DATA);
}

#[test]
fn relay_origin_proof_rejects_a_changed_packet_type() {
    let mut packet = relayed();
    attach_relay_origin_proof(&mut packet).unwrap();
    packet.header.as_mut().unwrap().packet_type = PACKET_RPC_REQ;

    assert!(verify_and_remove_relay_origin_proof(&mut packet).is_err());
}

#[test]
fn relay_origin_proof_rejects_a_changed_origin() {
    let mut packet = relayed();
    attach_relay_origin_proof(&mut packet).unwrap();
    packet.header.as_mut().unwrap().from_peer_id = 8;

    assert!(verify_and_remove_relay_origin_proof(&mut packet).is_err());
}

#[test]
fn relay_origin_proof_binds_the_complete_flow_shard() {
    let mut packet = relayed();
    packet.header.as_mut().unwrap().flow_shard = 1;
    attach_relay_origin_proof(&mut packet).unwrap();
    packet.header.as_mut().unwrap().flow_shard = 2;

    assert!(verify_and_remove_relay_origin_proof(&mut packet).is_err());
}

#[test]
fn relay_origin_proof_survives_route_policy_changes_across_three_relays() {
    let mut packet = relayed();
    let header = packet.header.as_mut().unwrap();
    header.set_flags(FLAG_LATENCY_FIRST, true);
    header.set_controls(CONTROL_SPEED_FIRST, true);

    for hop in 0..4 {
        attach_relay_origin_proof(&mut packet).unwrap();
        if hop >= 2 {
            // Relays may clear route policy after the third hop.
            let header = packet.header.as_mut().unwrap();
            header.set_flags(FLAG_LATENCY_FIRST, false);
            header.set_controls(CONTROL_SPEED_FIRST, false);
        }
        verify_and_remove_relay_origin_proof(&mut packet).unwrap();
        packet.header.as_mut().unwrap().forward_counter += 1;
    }
}

#[test]
fn relay_origin_proof_rejects_a_changed_stable_flag() {
    let mut packet = relayed();
    attach_relay_origin_proof(&mut packet).unwrap();
    packet.header.as_mut().unwrap().set_flags(FLAG_NO_PROXY, true);

    assert!(verify_and_remove_relay_origin_proof(&mut packet).is_err());
}

#[test]
fn relay_origin_proof_rejects_a_changed_reserved_flag() {
    let mut packet = relayed();
    attach_relay_origin_proof(&mut packet).unwrap();
    packet.header.as_mut().unwrap().flags ^= 0x80;

    assert!(verify_and_remove_relay_origin_proof(&mut packet).is_err());
}

#[test]
fn relay_origin_proof_rejects_changed_critical_control_state() {
    let mut packet = relayed();
    attach_relay_origin_proof(&mut packet).unwrap();
    packet
        .header
        .as_mut()
        .unwrap()
        .set_controls(CONTROL_CRITICAL_L2, true);

    assert!(verify_and_remove_relay_origin_proof(&mut packet).is_err());
}

#[test]
fn relay_proof_errors_are_told_apart() {
    let mut short = Packet::new_with_payload(vec![0; 15]);
    short.fill_peer_manager_hdr(1, 2, PACKET_DATA);
    assert_eq!(
        verify_and_remove_relay_origin_proof(&mut short),
        Err(RelayError::ProofMissing)
    );
    let mut unmarked = Packet::new_with_payload(vec![0; 40]);
    unmarked.fill_peer_manager_hdr(1, 2, PACKET_DATA);
    assert_eq!(
        verify_and_remove_relay_origin_proof(&mut unmarked),
        Err(RelayError::ProofInvalid)
    );
    let mut changed = relayed();
    attach_relay_origin_proof(&mut changed).unwrap();
    changed.header.as_mut().unwrap().to_peer_id = 1;
    assert_eq!(
        verify_and_remove_relay_origin_proof(&mut changed),
        Err(RelayError::ProofMismatch)
    );
    let mut bare = Packet::new_with_payload(b"bare".to_vec());
    assert_eq!(attach_relay_origin_proof(&mut bare), Err(RelayError::NoHeader));
}

fn identity(
    peer_id: PeerId,
    action: PeerSessionAction,
    generation: u32,
    epoch: u32,
    transition: u8,
    digest: u8,
) -> InitiatorTransitionIdentity {
    InitiatorTransitionIdentity::new(
        SessionKey::new("relay-test".to_string(), peer_id),
        new_uuid().unwrap(),
        action,
        generation,
        epoch,
        id_of(transition),
        filled(digest),
    )
}

#[test]
fn relay_recovery_identity_round_trips_without_key_material() {
    let identity = identity(19, PeerSessionAction::Sync, 4, 8, 0x12, 0x5a);
    let wire = recovery_pb_from_identity(&identity);
    let decoded = recovery_identity_from_pb(&wire, identity.session_key.duplicate())
        .ok()
        .unwrap();
    assert!(decoded.same(&identity));
}

#[test]
fn relay_recovery_identity_rejects_invalid_digest() {
    let identity = identity(20, PeerSessionAction::Create, 1, 0, 0x13, 0x33);
    let mut wire = recovery_pb_from_identity(&identity);
    wire.root_key_digest.pop();
    assert!(recovery_identity_from_pb(&wire, identity.session_key).is_err());
}

#[test]
fn relay_recovery_identity_rejects_zero_transition_id() {
    let identity = identity(22, PeerSessionAction::Create, 1, 0, 0x22, 0x44);
    let mut wire = recovery_pb_from_identity(&identity);
    wire.transition_id.fill(0);
    assert!(recovery_identity_from_pb(&wire, identity.session_key).is_err());
    assert!(transition_id_from_wire(&[0; RELAY_TRANSITION_ID_SIZE]).is_err());
}

#[test]
fn relay_recovery_ignores_private_local_revision() {
    let mut local = identity(21, PeerSessionAction::Sync, 7, 11, 0x21, 0x42);
    let mut wire = local.duplicate();
    local.transition_revision = 19;
    wire.transition_revision = 0;
    assert!(recovery_identity_matches_wire(&local, &wire));
}

#[test]
fn receipts_and_confirmations_round_trip() {
    let receipt = RelayReadyReceiptIdentity {
        handshake_id: id_of(1),
        session_metadata_id: id_of(2),
        transition_id: id_of(3),
        action: PeerSessionAction::Sync,
        session_generation: 4,
        initial_epoch: 5,
    };
    let payload = encode_relay_ready_receipt(receipt);
    assert_eq!(payload.len(), 57);
    assert_eq!(decode_relay_ready_receipt(&payload), Ok(receipt));
    assert_eq!(
        decode_relay_ready_receipt(&payload[..56]),
        Err(RelayError::InvalidReceiptPayload)
    );
    let packet = confirmation_packet(1, 2, PACKET_RELAY_HANDSHAKE_CONFIRM, id_of(6), id_of(7));
    assert_eq!(
        decode_confirmation(&packet.payload[..32]),
        Some((id_of(6), id_of(7)))
    );
    assert_eq!(decode_confirmation(&packet.payload[..31]), None);
    assert!(relay_action_from_wire(99).is_err());
}

#[test]
fn cancellation_after_recovery_suspension_keeps_initiator_reservation() {
    let mut store = PeerSessionStore::new();
    let mut quotas = SessionQuotas::new();
    let relay_map = RelayPeerMap::new(10, "relay-race".to_string());
    let peer_id: PeerId = 20;
    let key = relay_map.session_key(peer_id);
    let reservation = store
        .prepare_initiator_action(
            &mut quotas,
            &key,
            PeerSessionAction::Create,
            1,
            Some(filled(7)),
            0,
            aes(),
            aes(),
            None,
            NOW,
        )
        .ok()
        .unwrap();
    let session = reservation.session();
    let session_id = store.session(session).unwrap().metadata_session_id();
    let transition_id = reservation.transition_id();
    let responder_metadata_id = new_uuid().unwrap();
    let transition_identity =
        reservation.transition_identity_with_session_metadata(responder_metadata_id);
    let confirmation_identity = RelayConfirmationIdentity {
        handshake_id: id_of(3),
        session_id,
        transition_id,
    };
    let mut peer = RelayPeer::new();
    peer.set_confirmation_identity(confirmation_identity);
    peer.confirmation = Some(PendingConfirmationAck {
        identity: confirmation_identity,
        expected_packet_type: PACKET_RELAY_HANDSHAKE_READY_ACK,
        transition: transition_identity.fields(),
        previous_receipt: None,
        expires_at: NOW + HANDSHAKE_CONFIRM_RETRY_MS,
        session,
        outcome: RelayOutcome::Waiting,
    });

    reservation
        .suspend_with_session_metadata(
            &mut store,
            &mut quotas,
            responder_metadata_id,
            INITIATOR_RECOVERY_LIFETIME_MS,
        )
        .unwrap();
    let canceled = peer.cancel_pending_confirmation().unwrap();
    assert_eq!(canceled.outcome, RelayOutcome::Canceled);

    let error = peer.reject_canceled_suspended_ready_confirmation(confirmation_identity);
    assert_eq!(error, RelayError::ReadyCanceledRecoveryPending);
    assert_eq!(store.in_doubt_reservation_count(), 1);
    assert!(store
        .in_doubt_identity(&key)
        .is_some_and(|found| found.same(&transition_identity)));
}

#[test]
fn ready_receipt_has_one_nonblocking_owner_until_exact_ack() {
    let mut store = PeerSessionStore::new();
    let peer_id: PeerId = 20;
    let key = SessionKey::new("receipt-owner".to_string(), peer_id);
    let session = PeerSession::new(peer_id, filled(7), 1, 0, aes(), aes(), None, NOW).unwrap();
    let metadata = session.metadata_session_id();
    let session = store.insert_session(&key, session, NOW).unwrap();
    let identity = RelayReadyReceiptIdentity {
        handshake_id: id_of(1),
        session_metadata_id: metadata,
        transition_id: id_of(2),
        action: PeerSessionAction::Create,
        session_generation: 1,
        initial_epoch: 0,
    };
    let mut peer = RelayPeer::new();
    assert!(peer.start_ready_receipt(identity, session, NOW));
    let mut owner = ReadyReceiptDriver { identity, sends: 0 };

    for _ in 0..32 {
        // Sending does not wait for the receipt and starts no second owner.
        assert!(!peer.ensure_ready_receipt_owner());
        assert!(matches!(
            owner.step(&mut peer),
            ReadyReceiptStep::Send { .. } | ReadyReceiptStep::WaitForWake
        ));
    }

    let mut pending = peer.receipt.unwrap();
    assert!(pending.owner_running);
    pending.acknowledged = true;
    peer.receipt = Some(pending);
    assert_eq!(owner.step(&mut peer), ReadyReceiptStep::Stop);
    assert!(peer.receipt.is_none());
}

#[test]
fn recovered_responder_ready_ack_allows_the_next_normal_transition() {
    let mut store = PeerSessionStore::new();
    let mut quotas = SessionQuotas::new();
    let key = SessionKey::new("relay-recovery".to_string(), 23);
    let peer_static_pubkey = filled(0x17);
    let mut prepared = store
        .prepare_responder_session(&key, aes(), aes(), Some(peer_static_pubkey), NOW)
        .unwrap();
    let transition_id = prepared.transition_id();
    store
        .commit_prepared_responder_transition(&mut quotas, &key, &mut prepared, NOW)
        .unwrap();
    assert!(store.has_responder_recovery(&mut quotas, &key, NOW));
    assert!(store.acknowledge_responder_recovery(&mut quotas, &key, transition_id, NOW));
    assert!(!store.has_responder_recovery(&mut quotas, &key, NOW));

    let next = store
        .prepare_responder_session(&key, aes(), aes(), Some(peer_static_pubkey), NOW)
        .expect("a recovered relay transition must permit the next normal transition");
    next.cancel(&mut store);
}

fn stream(request: &CipherRequest, len: usize) -> Vec<u8> {
    let mut bytes = Vec::new();
    let mut counter = 0u8;
    while bytes.len() < len {
        let mut hash = Sha256::new();
        hash.update(request.key.to_bytes());
        hash.update(request.nonce());
        hash.update([counter]);
        bytes.extend_from_slice(&hash.finalize());
        counter += 1;
    }
    bytes.truncate(len);
    bytes
}

fn tag(request: &CipherRequest, body: &[u8]) -> u128 {
    let mut mac = <Hmac<Sha256> as Mac>::new_from_slice(&request.key.to_bytes()).unwrap();
    mac.update(&request.nonce());
    mac.update(&request.aad);
    mac.update(body);
    u128::from_be_bytes(mac.finalize().into_bytes()[..16].try_into().unwrap())
}

fn seal_under(
    store: &mut PeerSessionStore,
    session: SessionId,
    from: PeerId,
    to: PeerId,
    packet: &mut Packet,
) {
    let mut held = store.take_session(session);
    let request = held.encrypt_payload(from, to, packet, NOW).ok().unwrap();
    store.put_session(session, held);
    let pad = stream(&request, packet.payload.len());
    let body: Vec<u8> = packet.payload.iter().zip(pad).map(|(a, b)| a ^ b).collect();
    packet.set_sealed(&body, tag(&request, &body), request.epoch, request.seq);
}

fn open_under(
    store: &mut PeerSessionStore,
    session: SessionId,
    from: PeerId,
    to: PeerId,
    packet: &mut Packet,
) {
    let mut held = store.take_session(session);
    let request = held.decrypt_payload(from, to, packet, NOW).ok().unwrap();
    let at = packet.payload.len() - 28;
    let body = packet.payload[..at].to_vec();
    let found = u128::from_be_bytes(packet.payload[at..at + 16].try_into().unwrap());
    let good = tag(&request, &body) == found;
    held.finish_decrypt_payload(from, to, request.epoch, request.seq, good, NOW)
        .unwrap();
    store.put_session(session, held);
    let pad = stream(&request, at);
    packet.set_opened(body.iter().zip(pad).map(|(a, b)| a ^ b).collect());
}

/// One node of a pair.
struct Node {
    id: PeerId,
    private_key: Key32,
    public_key: Key32,
    store: PeerSessionStore,
    quotas: SessionQuotas,
    peer: RelayPeer,
    budget: RelayBudget,
}

impl Node {
    fn new(id: PeerId) -> Node {
        let pair = snow::Builder::new("Noise_IK_25519_ChaChaPoly_SHA256".parse().unwrap())
            .generate_keypair()
            .unwrap();
        Node {
            id,
            private_key: Key32::from_bytes(&pair.private),
            public_key: Key32::from_bytes(&pair.public),
            store: PeerSessionStore::new(),
            quotas: SessionQuotas::new(),
            peer: RelayPeer::new(),
            budget: RelayBudget::with_limit(1_000_000),
        }
    }

    fn key_for(&self, other: PeerId) -> SessionKey {
        SessionKey::new("pair".to_string(), other)
    }

    fn receive(&mut self, authority: &RelayAuthority, packet: &mut Packet) {
        let from = packet.header.unwrap().from_peer_id;
        let key = self.key_for(from);
        let choice = self
            .peer
            .choose_session(&self.store, &key, packet, NOW)
            .ok()
            .unwrap();
        let session = match choice {
            OpenChoice::Answered { session }
            | OpenChoice::Staged { session, .. }
            | OpenChoice::Active { session } => session,
            _ => panic!("no session opens the packet"),
        };
        open_under(&mut self.store, session, from, self.id, packet);
        self.peer
            .finish_decrypt(
                &mut self.store,
                authority,
                &key,
                from,
                choice,
                session,
                packet,
                NOW,
            )
            .unwrap();
    }

    fn confirm(
        &mut self,
        authority: &RelayAuthority,
        packet: &Packet,
    ) -> Result<ConfirmationReply, RelayError> {
        let key = self.key_for(packet.header.unwrap().from_peer_id);
        self.peer.handle_handshake_confirmation(
            &mut self.store,
            &mut self.quotas,
            authority,
            &key,
            packet,
            NOW,
        )
    }
}

fn authority_of(key: Key32) -> RelayAuthority {
    RelayAuthority {
        generic: Some(OriginAuthEntry {
            noise_static_pubkey: key,
            identity_type: PeerIdentityType::Admin,
            secure_auth_level: SecureAuthLevel::NetworkSecretConfirmed,
            revision: 5,
        }),
        bridge: None,
    }
}

#[test]
fn two_nodes_agree_on_a_session_through_a_relay() {
    let mut a = Node::new(10);
    let mut b = Node::new(20);
    let says_a = authority_of(a.public_key);
    let says_b = authority_of(b.public_key);
    let key_b = a.key_for(20);
    let key_a = b.key_for(10);

    // The first message.
    let draft =
        RelayPeer::draft_msg1(&mut a.store, &key_b, Some(b.public_key), &aes(), NOW).ok().unwrap();
    let first_contents = b"first".to_vec();
    let (mut handshake, message) =
        start_handshake(a.private_key, b.public_key, &first_contents).ok().unwrap();
    a.peer
        .begin_handshake(draft.conn_id, message.clone(), NextHopPolicy::LeastHop);
    let first = handshake_packet(10, 20, PACKET_RELAY_HANDSHAKE, draft.conn_id, &message);

    // The answer.
    assert!(matches!(
        b.peer.handle_handshake_packet(&first),
        Ok(HandshakeDispatch::Msg1 { .. })
    ));
    let opened = open_first_message(b.private_key, &first).ok().unwrap();
    assert_eq!(opened.payload, first_contents);
    assert_eq!(opened.remote_static, a.public_key.to_bytes());
    let admission = b.peer.admit_msg1(
        &mut b.store,
        &mut b.quotas,
        20,
        10,
        draft.conn_id,
        Some(a.public_key),
        &opened.remote_static,
        &draft.message,
        &first,
        NOW,
    );
    assert!(matches!(admission, Ok(Msg1Admission::Proceed)));
    let plan = RelayPeer::stage_msg1(
        &mut b.store,
        &mut b.quotas,
        &key_a,
        &aes(),
        &draft.message,
        Some(a.public_key),
        NOW,
    );
    let (prepared, recovery_active, acknowledged) = match plan {
        Ok(Msg1Plan::Respond {
            prepared,
            recovery_active,
            acknowledged,
        }) => (prepared, recovery_active, acknowledged),
        _ => panic!("the first message is answered"),
    };
    assert_eq!(prepared.action, PeerSessionAction::Create);
    let msg2 = answer_message(
        &b.store,
        &prepared,
        &draft.message,
        &aes(),
        id_of(0x44),
        recovery_active,
        acknowledged,
    );
    let second_contents = b"second".to_vec();
    let response = b
        .peer
        .send_answer(
            &mut b.store,
            &mut b.quotas,
            opened.handshake,
            &second_contents,
            prepared,
            recovery_active,
            draft.conn_id,
            NOW,
        )
        .ok()
        .unwrap();
    let second = handshake_packet(20, 10, PACKET_RELAY_HANDSHAKE_ACK, draft.conn_id, &response);

    // The same first message gets the same answer again.
    let again = b.peer.admit_msg1(
        &mut b.store,
        &mut b.quotas,
        20,
        10,
        draft.conn_id,
        Some(a.public_key),
        &a.public_key.to_bytes(),
        &draft.message,
        &first,
        NOW,
    );
    assert!(matches!(again, Ok(Msg1Admission::Resend { response: same }) if same == response));

    // The initiator takes the answer up.
    assert!(matches!(
        a.peer.handle_handshake_packet(&second),
        Ok(HandshakeDispatch::Answer { handshake_id }) if handshake_id == draft.conn_id
    ));
    let read = handshake
        .read_packet(PACKET_RELAY_HANDSHAKE_ACK, &second)
        .ok()
        .unwrap();
    assert_eq!(read, second_contents);
    let ask = match a.peer.accept_msg2(&draft, &msg2, &key_b) {
        Ok(Msg2Verdict::Proceed {
            action,
            session_generation,
            root_key,
            initial_epoch,
            transition_id,
            responder_metadata_id,
        }) => (
            InitiatorAsk {
                action,
                session_generation,
                root_key,
                initial_epoch,
                send_algorithm: aes(),
                recv_algorithm: aes(),
                peer_static_pubkey: Some(b.public_key),
                transition_id,
            },
            responder_metadata_id,
        ),
        _ => panic!("the answer is accepted"),
    };
    let (ask, responder_metadata_id) = ask;
    let transition_id = ask.transition_id;
    let reservation = a
        .peer
        .stage_initiator(&mut a.store, &mut a.quotas, &key_b, None, ask, NOW)
        .ok()
        .unwrap();
    let staged = reservation.session();
    assert!(a.store.peek(&key_b).is_none());

    // Confirmation.
    let mut driver = a.peer.begin_confirmation(
        &a.store,
        reservation,
        draft.conn_id,
        responder_metadata_id,
        None,
        NOW,
    );
    let step = driver.step(
        &mut a.peer,
        &mut a.store,
        &mut a.quotas,
        RelayOutcome::Waiting,
    );
    assert!(matches!(
        step,
        ConfirmationStep::Send {
            packet_type: PACKET_RELAY_HANDSHAKE_CONFIRM,
            ..
        }
    ));
    let mut confirm = confirmation_packet(
        10,
        20,
        PACKET_RELAY_HANDSHAKE_CONFIRM,
        draft.conn_id,
        transition_id,
    );
    seal_under(&mut a.store, staged, 10, 20, &mut confirm);
    b.receive(&says_a, &mut confirm);
    let reply = b.confirm(&says_a, &confirm).unwrap();
    let answered = match reply {
        ConfirmationReply::SendConfirmAck { session, .. } => session,
        _ => panic!("the confirmation is acknowledged"),
    };
    let mut confirm_ack = confirmation_packet(
        20,
        10,
        PACKET_RELAY_HANDSHAKE_CONFIRM_ACK,
        draft.conn_id,
        transition_id,
    );
    seal_under(&mut b.store, answered, 20, 10, &mut confirm_ack);
    a.receive(&says_b, &mut confirm_ack);
    assert!(matches!(
        a.confirm(&says_b, &confirm_ack),
        Ok(ConfirmationReply::Accepted)
    ));
    let step = driver.step(
        &mut a.peer,
        &mut a.store,
        &mut a.quotas,
        RelayOutcome::Accepted,
    );
    assert!(matches!(
        step,
        ConfirmationStep::Send {
            packet_type: PACKET_RELAY_HANDSHAKE_READY,
            ..
        }
    ));
    // From here on the transition is in doubt until the peer has answered.
    assert_eq!(a.store.in_doubt_reservation_count(), 1);
    let mut ready_packet = confirmation_packet(
        10,
        20,
        PACKET_RELAY_HANDSHAKE_READY,
        draft.conn_id,
        transition_id,
    );
    seal_under(&mut a.store, staged, 10, 20, &mut ready_packet);
    b.receive(&says_a, &mut ready_packet);
    let reply = b.confirm(&says_a, &ready_packet).unwrap();
    let (session_b, identity) = match reply {
        ConfirmationReply::SendReadyAck {
            session, identity, ..
        } => (session, identity),
        _ => panic!("the ready packet is acknowledged"),
    };
    b.peer.finish_ready_ack(identity);
    assert_eq!(b.store.peek(&key_a), Some(session_b));
    let mut ready_ack = confirmation_packet(
        20,
        10,
        PACKET_RELAY_HANDSHAKE_READY_ACK,
        draft.conn_id,
        transition_id,
    );
    seal_under(&mut b.store, session_b, 20, 10, &mut ready_ack);
    a.receive(&says_b, &mut ready_ack);
    let reply = a.confirm(&says_b, &ready_ack).unwrap();
    let (session_a, receipt) = match reply {
        ConfirmationReply::Committed { session, receipt } => (session, receipt),
        _ => panic!("the transition is committed"),
    };
    assert_eq!(session_a, staged);
    assert_eq!(a.store.peek(&key_b), Some(session_a));
    assert_eq!(a.store.in_doubt_reservation_count(), 0);
    assert!(matches!(
        driver.step(
            &mut a.peer,
            &mut a.store,
            &mut a.quotas,
            RelayOutcome::Accepted
        ),
        ConfirmationStep::Confirmed
    ));
    let root_a = a.store.session(session_a).unwrap().root_key();
    let root_b = b.store.session(session_b).unwrap().root_key();
    assert!(root_a == root_b);

    // The receipt releases the proof of the responder.
    assert!(b.store.has_responder_recovery(&mut b.quotas, &key_a, NOW));
    a.peer.start_ready_receipt(receipt, session_a, NOW);
    let mut receipt_packet =
        ready_receipt_packet(10, 20, PACKET_RELAY_HANDSHAKE_READY_RECEIPT, receipt);
    seal_under(&mut a.store, session_a, 10, 20, &mut receipt_packet);
    b.receive(&says_a, &mut receipt_packet);
    assert!(matches!(
        b.confirm(&says_a, &receipt_packet),
        Ok(ConfirmationReply::SendReceiptAck { .. })
    ));
    assert!(!b.store.has_responder_recovery(&mut b.quotas, &key_a, NOW));
    let mut receipt_ack =
        ready_receipt_packet(20, 10, PACKET_RELAY_HANDSHAKE_READY_RECEIPT_ACK, receipt);
    seal_under(&mut b.store, session_b, 20, 10, &mut receipt_ack);
    a.receive(&says_b, &mut receipt_ack);
    assert!(matches!(
        a.confirm(&says_b, &receipt_ack),
        Ok(ConfirmationReply::ReceiptAcknowledged)
    ));
    assert!(a.store.initiator_receipt_id(&key_b).is_none());

    // Data goes both ways.
    let mut data = Packet::new_with_payload(b"hello".to_vec());
    data.fill_peer_manager_hdr(10, 20, PACKET_DATA);
    attach_relay_origin_proof(&mut data).unwrap();
    seal_under(&mut a.store, session_a, 10, 20, &mut data);
    assert_ne!(&data.payload[..5], b"hello");
    b.receive(&says_a, &mut data);
    assert_eq!(data.payload, b"hello");
    let origin = data.verified_origin.unwrap();
    assert_eq!(origin.peer_id, 10);
    assert_eq!(origin.identity_type, PeerIdentityType::Admin);
    let mut back = Packet::new_with_payload(b"welcome".to_vec());
    back.fill_peer_manager_hdr(20, 10, PACKET_DATA);
    attach_relay_origin_proof(&mut back).unwrap();
    seal_under(&mut b.store, session_b, 20, 10, &mut back);
    a.receive(&says_b, &mut back);
    assert_eq!(back.payload, b"welcome");

    // An authority that no longer vouches for the key ends the session.
    let mut late = Packet::new_with_payload(b"late".to_vec());
    late.fill_peer_manager_hdr(10, 20, PACKET_DATA);
    attach_relay_origin_proof(&mut late).unwrap();
    seal_under(&mut a.store, session_a, 10, 20, &mut late);
    open_under(&mut b.store, session_b, 10, 20, &mut late);
    let revoked = RelayAuthority {
        generic: None,
        bridge: None,
    };
    assert!(b
        .peer
        .finish_decrypt(
            &mut b.store,
            &revoked,
            &key_a,
            10,
            OpenChoice::Active { session: session_b },
            session_b,
            &mut late,
            NOW
        )
        .is_err());
    assert!(b.store.peek(&key_a).is_none());
    assert_eq!(b.budget.bytes, 0);
}

#[test]
fn noise_messages_need_the_right_keys() {
    let a = Node::new(1);
    let b = Node::new(2);
    let c = Node::new(3);
    let (_, message) =
        start_handshake(a.private_key, b.public_key, &b"secret".to_vec()).ok().unwrap();
    assert!(!message.windows(6).any(|part| part == b"secret"));
    let packet = handshake_packet(1, 2, PACKET_RELAY_HANDSHAKE, 5, &message);
    assert!(open_first_message(c.private_key, &packet).is_err());
    let mut opened = open_first_message(b.private_key, &packet).ok().unwrap();
    assert_eq!(opened.payload, b"secret");
    let answer = opened.handshake.write(&b"answer".to_vec()).ok().unwrap();
    let mut transport = opened.handshake.into_transport().ok().unwrap();
    let (mut mine, own) =
        start_handshake(a.private_key, b.public_key, &b"secret".to_vec()).ok().unwrap();
    assert_ne!(own, message);
    let stray = handshake_packet(2, 1, PACKET_RELAY_HANDSHAKE_ACK, 5, &answer);
    assert!(mine.read_packet(PACKET_RELAY_HANDSHAKE_ACK, &stray).is_err());
    let sealed = transport.write(&b"reset".to_vec()).ok().unwrap();
    assert_eq!(sealed.len(), 5 + 16);
}

#[test]
fn unverified_confirmations_are_refused() {
    let mut node = Node::new(10);
    let says = authority_of(filled(9));
    let packet = confirmation_packet(20, 10, PACKET_RELAY_HANDSHAKE_CONFIRM, 1, 2);
    assert_eq!(
        node.confirm(&says, &packet),
        Err(RelayError::ConfirmationUnauthenticated)
    );
    let mut forged = packet.clone();
    forged.verified_origin = Some(VerifiedOrigin {
        peer_id: 21,
        identity_type: PeerIdentityType::Admin,
        secure_auth_level: SecureAuthLevel::PeerVerified,
        session_id: 1,
    });
    assert_eq!(
        node.confirm(&says, &forged),
        Err(RelayError::ConfirmationUnauthenticated)
    );
}

#[test]
fn plain_packets_wait_for_a_session() {
    let mut node = Node::new(10);
    let token = FullEthernetAuthorizationToken {
        descriptor: 4,
        destination_peer_id: 20,
    };
    let mut packet = Packet::new_with_payload(b"data".to_vec());
    packet.fill_peer_manager_hdr(10, 20, PACKET_DATA);
    let decision = node.peer.admit_message(
        &mut node.budget,
        packet.clone(),
        20,
        NextHopPolicy::LeastHop,
        None,
        token,
        &vec![4],
        NOW,
    );
    assert!(matches!(decision, Ok(SendDecision::NeedsSession { .. })));
    node.peer.ensure_send_state(RelaySendPhase::Confirming);
    let decision = node.peer.admit_message(
        &mut node.budget,
        packet.clone(),
        20,
        NextHopPolicy::LeastHop,
        None,
        token,
        &vec![4],
        NOW,
    );
    assert!(matches!(decision, Ok(SendDecision::Queued)));
    assert_eq!(node.peer.pending_packet_count(), 1);
    let batch = node.peer.admit_batch(
        &mut node.budget,
        Vec::new(),
        20,
        NextHopPolicy::LeastHop,
        None,
        token,
        &vec![4],
        NOW,
    );
    assert!(matches!(batch, Ok(BatchDecision::Nothing)));
    assert!(full_ethernet_authorization_is_current(
        Some(token),
        20,
        &vec![3, 4]
    ));
    assert!(!full_ethernet_authorization_is_current(
        Some(token),
        21,
        &vec![4]
    ));
    assert!(!full_ethernet_authorization_is_current(
        Some(token),
        20,
        &vec![5]
    ));
}

#[test]
fn next_hops_are_chosen_in_order() {
    let ways = Reachability {
        has_foreign_transport: false,
        has_foreign_client: false,
        destination_is_direct: false,
        destination_is_foreign: false,
    };
    assert_eq!(choose_next_hop(9, Some(1), Some(2), ways), Ok(1));
    assert_eq!(choose_next_hop(9, None, Some(2), ways), Ok(2));
    assert_eq!(
        choose_next_hop(9, None, None, ways),
        Err(RelayError::NextHopNotFound)
    );
    let direct = Reachability {
        destination_is_direct: true,
        ..ways
    };
    assert_eq!(choose_next_hop(9, None, None, direct), Ok(9));
    assert_eq!(
        deliver(9, None, None, direct, true),
        Ok(Delivery::Direct { next_hop: 9 })
    );
    assert_eq!(
        deliver(9, Some(1), None, ways, false),
        Err(RelayError::NextHopNotDirect)
    );
}

#[test]
fn sessions_are_bound_to_the_authority_of_their_start() {
    let mut authority = authority_of(filled(6));
    authority.bridge = Some(OriginAuthGrant {
        noise_static_pubkey: filled(6),
        revision: 2,
        live: true,
    });
    let session =
        PeerSession::new(20, filled(7), 1, 0, aes(), aes(), Some(filled(6)), NOW).unwrap();
    let binding = authority.bind_relay_session_auth(20, &session).ok().unwrap();
    assert_eq!(binding.generic_revision, Some(5));
    assert_eq!(binding.bridge_revision, Some(2));
    assert!(authority.bridge_grant_valid(filled(6), Some(binding)));
    assert!(!authority.bridge_grant_valid(filled(5), Some(binding)));
    let other = authority_of(filled(8));
    assert!(other.bind_relay_session_auth(20, &session).is_err());
}

#[test]
fn removed_peers_give_their_budget_back() {
    let mut store = PeerSessionStore::new();
    let mut quotas = SessionQuotas::new();
    let mut budget = RelayBudget::with_limit(1_000_000);
    let mut map = RelayPeerMap::new(10, "net".to_string());
    let mut peer = map.take_peer(20);
    peer.touch(NOW);
    peer.ensure_send_state(RelaySendPhase::AwaitingSession);
    peer.send
        .as_mut()
        .unwrap()
        .enqueue(&mut budget, ready(queue_packet(100)))
        .ok()
        .unwrap();
    peer.register_handshake_failure(1, NOW);
    map.put_peer(20, peer);
    assert!(map.has_state(20));
    assert_eq!(map.failure_count(20), Some(1));
    assert!(map.is_backoff_active(20, NOW));
    assert!(budget.bytes > 0);
    map.remove_peer(&mut store, &mut quotas, &mut budget, 20);
    assert!(!map.has_state(20));
    assert_eq!(budget.bytes, 0);
    assert_eq!(map.my_peer_id(), 10);
}
