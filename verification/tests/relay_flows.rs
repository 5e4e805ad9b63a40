use lowertier::bytes::Key32;
use lowertier::initiator_store::InitiatorAsk;
use lowertier::noise::{open_first_message, start_handshake};
use lowertier::packet::{
    Packet, PeerIdentityType, SecureAuthLevel, PACKET_DATA, PACKET_ETHERNET,
    PACKET_RELAY_HANDSHAKE, PACKET_RELAY_HANDSHAKE_ACK, PACKET_RELAY_HANDSHAKE_READY,
    PACKET_RELAY_HANDSHAKE_RESET, PACKET_RELAY_HANDSHAKE_RESET_ACK,
};
use lowertier::relay_auth::{
    ethernet_origin_is_authorized, OriginAuthEntry, OriginAuthGrant, RelayAuthority,
};
use lowertier::relay_batch::{
    batch_authority_before_send, group_packets, BatchDecision, FlushGroup, FlushRetry, FlushStart,
};
use lowertier::relay_dial::{HandshakeDispatch, Msg2Verdict};
use lowertier::relay_exchange::{Msg1Step, Msg2Step};
use lowertier::relay_handshake::{reset_message, Msg1Admission, Msg1Plan};
use lowertier::relay_initiator::{ConfirmationStage, ConfirmationStep};
use lowertier::relay_open::{
    batch_groups, choose_batch, finish_batch_packet, group_authority, outcomes_before, BatchChoice,
    RelayBatchDecryptOutcome,
};
use lowertier::relay_peer::{RelayOutcome, RelayPeer};
use lowertier::relay_peer_map::RelayPeerMap;
use lowertier::relay_queue::{
    FullEthernetAuthorizationToken, RelayBudget, RelayReadyPacket, RelaySendPhase,
};
use lowertier::relay_wire::{
    attach_relay_origin_proof, handshake_packet, RelayConfirmationIdentity, RelayError,
};
use lowertier::route_trait::NextHopPolicy;
use lowertier::session_store::{PeerSessionStore, SessionId, SessionQuotas};
use lowertier::session_types::{PeerSessionAction, SessionKey, TransitionFields};

const NOW: u64 = 1_700_000_000_000;

fn filled(byte: u8) -> Key32 {
    Key32::from_bytes(&[byte; 32])
}

fn aes() -> String {
    "aes-gcm".to_string()
}

fn token(descriptor: u64) -> FullEthernetAuthorizationToken {
    FullEthernetAuthorizationToken {
        descriptor,
        destination_peer_id: 20,
    }
}

fn packet_to(packet_type: u8, payload: &[u8]) -> Packet {
    let mut packet = Packet::new_with_payload(payload.to_vec());
    packet.fill_peer_manager_hdr(10, 20, packet_type);
    packet
}

fn item(packet_type: u8, policy: NextHopPolicy) -> RelayReadyPacket {
    RelayReadyPacket {
        packet: packet_to(packet_type, b"payload"),
        policy,
        authorization: if packet_type == PACKET_ETHERNET {
            Some(token(4))
        } else {
            None
        },
    }
}

fn authority_of(key: Key32) -> RelayAuthority {
    RelayAuthority {
        generic: Some(OriginAuthEntry {
            noise_static_pubkey: key,
            identity_type: PeerIdentityType::Admin,
            secure_auth_level: SecureAuthLevel::PeerVerified,
            revision: 3,
        }),
        bridge: None,
    }
}

fn published(
    store: &mut PeerSessionStore,
    quotas: &mut SessionQuotas,
    key: &SessionKey,
    peer_key: Key32,
) -> SessionId {
    store
        .apply_initiator_action(
            quotas,
            key,
            PeerSessionAction::Create,
            1,
            Some(filled(7)),
            0,
            aes(),
            aes(),
            Some(peer_key),
            NOW,
        )
        .unwrap()
}

#[test]
fn waiting_packets_leave_in_runs_of_one_policy() {
    let mut budget = RelayBudget::with_limit(1_000_000);
    let mut peer = RelayPeer::new();
    assert!(matches!(peer.flush_begin(), FlushStart::NotYet));
    {
        let state = peer.send.as_mut().unwrap();
        for policy in [
            NextHopPolicy::LeastHop,
            NextHopPolicy::LeastHop,
            NextHopPolicy::LeastCost,
        ] {
            state.enqueue(&mut budget, item(PACKET_DATA, policy)).ok().unwrap();
        }
    }
    assert!(matches!(peer.flush_begin(), FlushStart::NotYet));
    peer.set_existing_phase(RelaySendPhase::Draining);
    assert!(matches!(peer.flush_begin(), FlushStart::Drain));
    let state = peer.send.as_mut().unwrap();
    let current = Vec::new();
    let first = match state.flush_next(&mut budget, 20, &current) {
        FlushGroup::Send { pending } => pending,
        _ => panic!("a run is sent"),
    };
    assert_eq!(first.len(), 2);
    assert_eq!(group_packets(&first).len(), 2);
    assert!(state.flush_recheck(&mut budget, &first, 20, &current));
    state.flush_sent(&mut budget, &first);
    let second = match state.flush_next(&mut budget, 20, &current) {
        FlushGroup::Send { pending } => pending,
        _ => panic!("another run is sent"),
    };
    assert_eq!(second.len(), 1);
    assert_eq!(second[0].policy, NextHopPolicy::LeastCost);
    assert!(matches!(
        state.flush_next(&mut budget, 20, &current),
        FlushGroup::Stalled
    ));

    // A send that fails is tried again after a while.
    state.flush_failed(second, true);
    assert_eq!(state.phase(), RelaySendPhase::Draining);
    assert_eq!(state.packet_count(), 1);
    assert_eq!(state.schedule_flush_retry(), Some(200));
    assert_eq!(state.schedule_flush_retry(), None);
    assert!(matches!(state.flush_retry_due(), FlushRetry::Flush));
    assert_eq!(state.schedule_flush_retry(), Some(400));
    assert!(matches!(state.flush_retry_due(), FlushRetry::Flush));
    let again = match state.flush_next(&mut budget, 20, &current) {
        FlushGroup::Send { pending } => pending,
        _ => panic!("the run is sent again"),
    };
    state.flush_sent(&mut budget, &again);
    assert!(matches!(
        state.flush_next(&mut budget, 20, &current),
        FlushGroup::Done
    ));
    assert_eq!(state.phase(), RelaySendPhase::Ready);
    assert_eq!(budget.bytes, 0);
    assert_eq!(budget.packets, 0);
}

#[test]
fn drains_end_after_eight_retries() {
    let mut budget = RelayBudget::with_limit(1_000_000);
    let mut peer = RelayPeer::new();
    peer.ensure_send_state(RelaySendPhase::AwaitingSession);
    let state = peer.send.as_mut().unwrap();
    state
        .enqueue(&mut budget, item(PACKET_DATA, NextHopPolicy::LeastHop))
        .ok()
        .unwrap();
    state.set_phase(RelaySendPhase::Draining);
    let mut waits = Vec::new();
    while let Some(wait_ms) = state.schedule_flush_retry() {
        waits.push(wait_ms);
        assert!(matches!(state.flush_retry_due(), FlushRetry::Flush));
    }
    assert_eq!(waits, vec![200, 400, 800, 1600, 3200, 3200, 3200, 3200]);
    assert_eq!(state.phase(), RelaySendPhase::AwaitingSession);
    assert_eq!(state.packet_count(), 1);
}

#[test]
fn a_failed_seal_waits_for_another_session() {
    let mut budget = RelayBudget::with_limit(1_000_000);
    let mut peer = RelayPeer::new();
    peer.ensure_send_state(RelaySendPhase::Draining);
    let state = peer.send.as_mut().unwrap();
    state
        .enqueue(&mut budget, item(PACKET_DATA, NextHopPolicy::LeastHop))
        .ok()
        .unwrap();
    let pending = match state.flush_next(&mut budget, 20, &Vec::new()) {
        FlushGroup::Send { pending } => pending,
        _ => panic!("the packet is sent"),
    };
    state.flush_failed(pending, false);
    assert_eq!(state.phase(), RelaySendPhase::AwaitingSession);
    assert_eq!(state.schedule_flush_retry(), Some(200));
    assert!(matches!(state.flush_retry_due(), FlushRetry::EnsureSession));
}

#[test]
fn queued_ethernet_is_dropped_with_its_authority() {
    let mut budget = RelayBudget::with_limit(1_000_000);
    let mut peer = RelayPeer::new();
    peer.ensure_send_state(RelaySendPhase::Draining);
    let state = peer.send.as_mut().unwrap();
    state
        .enqueue(&mut budget, item(PACKET_ETHERNET, NextHopPolicy::LeastHop))
        .ok()
        .unwrap();
    assert!(matches!(
        state.flush_next(&mut budget, 20, &vec![5]),
        FlushGroup::Dropped
    ));
    assert_eq!(budget.bytes, 0);
    state
        .enqueue(&mut budget, item(PACKET_ETHERNET, NextHopPolicy::LeastHop))
        .ok()
        .unwrap();
    let pending = match state.flush_next(&mut budget, 20, &vec![4]) {
        FlushGroup::Send { pending } => pending,
        _ => panic!("the authority holds"),
    };
    assert!(!state.flush_recheck(&mut budget, &pending, 20, &vec![5]));
    assert_eq!(budget.bytes, 0);
    assert!(matches!(
        state.flush_next(&mut budget, 20, &vec![4]),
        FlushGroup::Done
    ));
}

#[test]
fn buffered_packets_wait_for_a_session() {
    let mut budget = RelayBudget::with_limit(1_000_000);
    let mut peer = RelayPeer::new();
    peer.buffer_pending_packet(
        &mut budget,
        packet_to(PACKET_DATA, b"first"),
        NextHopPolicy::LeastHop,
        token(4),
    )
    .unwrap();
    assert_eq!(peer.pending_packet_count(), 1);
    peer.send.as_mut().unwrap().close(&mut budget);
    assert_eq!(
        peer.buffer_pending_packet(
            &mut budget,
            packet_to(PACKET_DATA, b"second"),
            NextHopPolicy::LeastHop,
            token(4),
        ),
        Err(RelayError::QueueClosed)
    );
    assert_eq!(budget.bytes, 0);
}

#[test]
fn mixed_batches_are_refused() {
    let mut budget = RelayBudget::with_limit(1_000_000);
    let mut peer = RelayPeer::new();
    let mut offer = |peer: &mut RelayPeer, batch: Vec<Packet>, current: Vec<u64>| {
        peer.admit_batch(
            &mut budget,
            batch,
            20,
            NextHopPolicy::LeastHop,
            None,
            token(4),
            &current,
            NOW,
        )
    };
    let plain = packet_to(PACKET_DATA, b"plain");
    let mut sealed = plain.clone();
    sealed.set_sealed(&vec![1, 2, 3], 9, 0, 1);
    assert!(matches!(
        offer(&mut peer, vec![plain.clone(), sealed.clone()], vec![4]),
        Err(RelayError::MixedBatch)
    ));
    assert!(matches!(
        offer(&mut peer, vec![sealed.clone(), sealed], vec![4]),
        Ok(BatchDecision::Forward { packets }) if packets.len() == 2
    ));
    let frame = packet_to(PACKET_ETHERNET, b"frame");
    assert!(matches!(
        offer(&mut peer, vec![frame.clone()], vec![5]),
        Err(RelayError::AuthorityChangedBeforeEncryption)
    ));
    let items = match offer(&mut peer, vec![plain, frame], vec![4]) {
        Ok(BatchDecision::NeedsSession { items }) => items,
        _ => panic!("a session is needed"),
    };
    assert_eq!(items[0].authorization, None);
    assert_eq!(items[1].authorization, Some(token(4)));
    assert_eq!(batch_authority_before_send(&items, 20, &vec![4]), Ok(()));
    assert_eq!(
        batch_authority_before_send(&items, 20, &Vec::new()),
        Err(RelayError::AuthorityChangedBeforeSend)
    );
    let decision = peer.admit_batch_with_session(
        &mut budget,
        items,
        Err(RelayError::HandshakeInProgress),
        20,
        &vec![4],
    );
    assert!(matches!(decision, Ok(BatchDecision::Queued)));
    assert_eq!(peer.pending_packet_count(), 2);
}

#[test]
fn handshakes_back_off_after_failures() {
    let mut store = PeerSessionStore::new();
    let mut peer = RelayPeer::new();
    let key = SessionKey::new("net".to_string(), 20);
    let says = authority_of(filled(9));
    assert_eq!(
        peer.ensure_session(&mut store, &says, &key, 20, NOW),
        Err(RelayError::HandshakeInProgress)
    );
    assert_eq!(
        peer.need_handshake(&mut store, &says, &key, 20, NOW),
        Ok(None)
    );
    assert_eq!(
        peer.start_attempt(&mut store, &says, &key, 20, NOW),
        Ok(None)
    );
    assert_eq!(peer.attempt_failed(0, NOW), Some(200));
    assert!(peer.is_backoff_active(NOW + 199));
    assert_eq!(
        peer.need_handshake(&mut store, &says, &key, 20, NOW + 199),
        Err(RelayError::HandshakeBackoff)
    );
    assert_eq!(
        peer.need_handshake(&mut store, &says, &key, 20, NOW + 200),
        Ok(None)
    );
    assert_eq!(peer.attempt_failed(1, NOW), Some(400));
    assert_eq!(peer.attempt_failed(2, NOW), None);
    assert_eq!(peer.state.unwrap().failure_count, 3);
    peer.attempt_succeeded(1, NOW);
    assert_eq!(peer.state.unwrap().failure_count, 0);
    assert!(!peer.is_backoff_active(NOW));
}

#[test]
fn standing_sessions_need_no_handshake() {
    let mut store = PeerSessionStore::new();
    let mut quotas = SessionQuotas::new();
    let mut map = RelayPeerMap::new(10, "net".to_string());
    let key = SessionKey::new("net".to_string(), 20);
    let session = published(&mut store, &mut quotas, &key, filled(9));
    let says = authority_of(filled(9));
    assert!(map.has_session(&mut store, 20, NOW));
    assert!(!map.has_session(&mut store, 21, NOW));
    assert_eq!(
        map.ensure_session(&mut store, &authority_of(filled(8)), 20, NOW),
        Err(RelayError::SessionKeyMismatch)
    );
    assert_eq!(map.ensure_session(&mut store, &says, 20, NOW), Ok(session));
    let mut peer = map.take_peer(20);
    assert_eq!(peer.auth.unwrap().generic_revision, Some(3));
    assert_eq!(
        peer.need_handshake(&mut store, &says, &key, 20, NOW),
        Ok(Some(session))
    );
    peer.ensure_send_state(RelaySendPhase::AwaitingSession);
    assert_eq!(
        peer.ensure_session(&mut store, &says, &key, 20, NOW),
        Err(RelayError::HandshakeInProgress)
    );
    assert_eq!(
        peer.start_attempt(&mut store, &says, &key, 20, NOW),
        Ok(Some(session))
    );
    assert_eq!(
        peer.send.as_ref().unwrap().phase(),
        RelaySendPhase::Draining
    );
    map.put_peer(20, peer);
}

#[test]
fn idle_peers_are_swept() {
    let mut store = PeerSessionStore::new();
    let mut quotas = SessionQuotas::new();
    let mut budget = RelayBudget::with_limit(1_000_000);
    let mut map = RelayPeerMap::new(10, "net".to_string());
    for (id, seen) in [(20, NOW), (21, NOW + 50), (22, NOW)] {
        let mut peer = map.take_peer(id);
        peer.touch(seen);
        peer.buffer_pending_packet(
            &mut budget,
            packet_to(PACKET_DATA, b"waiting"),
            NextHopPolicy::LeastHop,
            token(4),
        )
        .unwrap();
        map.put_peer(id, peer);
    }
    let held = budget.bytes;
    map.evict_idle_sessions(&mut store, &mut quotas, &mut budget, 100, NOW + 100);
    assert_eq!(budget.bytes, held);
    map.evict_idle_sessions(&mut store, &mut quotas, &mut budget, 100, NOW + 101);
    assert!(!map.has_state(20));
    assert!(map.has_state(21));
    assert!(!map.has_state(22));
    assert_eq!(budget.bytes, held / 3);
    assert!(map.take_peer(20).blank());
}

#[test]
fn batches_are_opened_under_one_authority() {
    let mut store = PeerSessionStore::new();
    let mut quotas = SessionQuotas::new();
    let key = SessionKey::new("net".to_string(), 20);
    let session = published(&mut store, &mut quotas, &key, filled(9));
    let mut data = Packet::new_with_payload(b"data".to_vec());
    data.fill_peer_manager_hdr(20, 10, PACKET_DATA);
    attach_relay_origin_proof(&mut data).unwrap();
    let proved = data.clone();
    data.set_sealed(&proved.payload, 1, 0, 1);
    let mut frame = data.clone();
    frame.fill_peer_manager_hdr(20, 10, PACKET_ETHERNET);
    frame.set_sealed(&vec![1], 1, 0, 2);
    let mut stranger = data.clone();
    stranger.fill_peer_manager_hdr(30, 10, PACKET_DATA);
    stranger.set_sealed(&vec![1], 1, 0, 3);
    let plain = packet_to(PACKET_DATA, b"plain");
    let batch = vec![data, frame, stranger, plain];
    let choices = choose_batch(&batch, &store, &"net".to_string());
    assert_eq!(
        choices,
        vec![
            BatchChoice::Open {
                peer_id: 20,
                session,
                requires_grant: false,
            },
            BatchChoice::Open {
                peer_id: 20,
                session,
                requires_grant: true,
            },
            BatchChoice::Failed,
            BatchChoice::NotAttempted,
        ]
    );
    assert_eq!(
        outcomes_before(&choices),
        vec![
            RelayBatchDecryptOutcome::Failed,
            RelayBatchDecryptOutcome::Failed,
            RelayBatchDecryptOutcome::Failed,
            RelayBatchDecryptOutcome::NotAttempted,
        ]
    );
    let groups = batch_groups(&choices);
    assert_eq!(groups.len(), 1);
    assert_eq!(groups[0].peer_id, 20);
    assert_eq!(groups[0].session, session);
    assert_eq!(groups[0].members, vec![0, 1]);
    let mut says = authority_of(filled(9));
    assert!(matches!(
        group_authority(&choices, 20, &store, session, None, &says),
        Err(RelayError::BridgeGrantMissing)
    ));
    let binding = says
        .bind_relay_session_auth(20, store.session(session).unwrap())
        .ok()
        .unwrap();
    let group = group_authority(
        &choices[..1].to_vec(),
        20,
        &store,
        session,
        Some(binding),
        &says,
    )
    .ok()
    .unwrap();
    assert!(!group.bridge_valid);
    let mut opened = proved.clone();
    assert_eq!(
        finish_batch_packet(&mut opened, true, 20, &group),
        RelayBatchDecryptOutcome::Decrypted
    );
    assert_eq!(opened.payload, b"data");
    assert_eq!(opened.verified_origin.unwrap().peer_id, 20);
    let mut unopened = proved.clone();
    assert_eq!(
        finish_batch_packet(&mut unopened, false, 20, &group),
        RelayBatchDecryptOutcome::Failed
    );
    let mut ethernet = Packet::new_with_payload(b"frame".to_vec());
    ethernet.fill_peer_manager_hdr(20, 10, PACKET_ETHERNET);
    attach_relay_origin_proof(&mut ethernet).unwrap();
    let bridged = ethernet.clone();
    assert_eq!(
        finish_batch_packet(&mut ethernet, true, 20, &group),
        RelayBatchDecryptOutcome::Failed
    );

    // A grant that the session is bound to lets frames in.
    says.bridge = Some(OriginAuthGrant {
        noise_static_pubkey: filled(9),
        revision: 8,
        live: true,
    });
    let binding = says
        .bind_relay_session_auth(20, store.session(session).unwrap())
        .ok()
        .unwrap();
    assert_eq!(binding.bridge_revision, Some(8));
    let group = group_authority(&choices, 20, &store, session, Some(binding), &says)
        .ok()
        .unwrap();
    let mut ethernet = bridged;
    assert_eq!(
        finish_batch_packet(&mut ethernet, true, 20, &group),
        RelayBatchDecryptOutcome::Decrypted
    );
    assert!(ethernet_origin_is_authorized(
        &ethernet,
        20,
        Some(binding),
        &says
    ));
    says.bridge = None;
    assert!(!ethernet_origin_is_authorized(
        &ethernet,
        20,
        Some(binding),
        &says
    ));
}

#[test]
fn a_transition_that_only_one_side_knows_is_reset() {
    let pair = || {
        snow::Builder::new("Noise_IK_25519_ChaChaPoly_SHA256".parse().unwrap())
            .generate_keypair()
            .unwrap()
    };
    let (a_keys, b_keys) = (pair(), pair());
    let a_public = Key32::from_bytes(&a_keys.public);
    let b_public = Key32::from_bytes(&b_keys.public);
    let (mut a, mut b) = (RelayPeer::new(), RelayPeer::new());
    let (mut a_store, mut b_store) = (PeerSessionStore::new(), PeerSessionStore::new());
    let (mut a_quotas, mut b_quotas) = (SessionQuotas::new(), SessionQuotas::new());
    let key_b = SessionKey::new("net".to_string(), 20);
    let key_a = SessionKey::new("net".to_string(), 10);

    // The initiator has a transition in doubt.
    let reservation = a
        .stage_initiator(
            &mut a_store,
            &mut a_quotas,
            &key_b,
            None,
            InitiatorAsk {
                action: PeerSessionAction::Create,
                session_generation: 1,
                root_key: Some(filled(7)),
                initial_epoch: 0,
                send_algorithm: aes(),
                recv_algorithm: aes(),
                peer_static_pubkey: Some(b_public),
                transition_id: 5,
            },
            NOW,
        )
        .ok()
        .unwrap();
    let mut driver = a.begin_confirmation(&a_store, reservation, 1, 2, None, NOW);
    assert!(matches!(
        driver.step(&mut a, &mut a_store, &mut a_quotas, RelayOutcome::Waiting),
        ConfirmationStep::Send { wait_ms: 200, .. }
    ));
    assert!(matches!(
        driver.step(&mut a, &mut a_store, &mut a_quotas, RelayOutcome::Accepted),
        ConfirmationStep::Send {
            packet_type: PACKET_RELAY_HANDSHAKE_READY,
            wait_ms: 200
        }
    ));
    assert_eq!(a_store.in_doubt_reservation_count(), 1);
    let confirmed = driver.pending.identity;
    assert_eq!(
        a.confirmation_outcome(confirmed, false),
        RelayOutcome::Waiting
    );
    let other = RelayConfirmationIdentity {
        handshake_id: 99,
        ..confirmed
    };
    assert_eq!(
        a.confirmation_outcome(other, false),
        RelayOutcome::Canceled
    );
    assert_eq!(a.confirmation_outcome(other, true), RelayOutcome::Accepted);

    // The responder knows nothing of it and offers to reset.
    let draft = RelayPeer::draft_msg1(&mut a_store, &key_b, Some(b_public), &aes(), NOW)
        .ok()
        .unwrap();
    let identity = draft.recovery.unwrap();
    assert_eq!(identity.session_metadata_id, 2);
    assert_eq!(identity.transition_id, 5);
    assert!(matches!(
        RelayPeer::draft_msg1(&mut a_store, &key_b, Some(a_public), &aes(), NOW),
        Err(RelayError::RetainedKeyMismatch)
    ));
    let (mut handshake, message) = start_handshake(
        Key32::from_bytes(&a_keys.private),
        b_public,
        &b"one".to_vec(),
    )
    .ok()
    .unwrap();
    a.begin_handshake(draft.conn_id, message.clone(), NextHopPolicy::LeastHop);
    let first = handshake_packet(10, 20, PACKET_RELAY_HANDSHAKE, draft.conn_id, &message);
    let opened = open_first_message(Key32::from_bytes(&b_keys.private), &first)
        .ok()
        .unwrap();
    let admission = b.admit_msg1(
        &mut b_store,
        &mut b_quotas,
        20,
        10,
        draft.conn_id,
        Some(a_public),
        &opened.remote_static,
        &draft.message,
        &first,
        NOW,
    );
    assert!(matches!(admission, Ok(Msg1Admission::Proceed)));
    let plan = RelayPeer::stage_msg1(
        &mut b_store,
        &mut b_quotas,
        &key_a,
        &aes(),
        &draft.message,
        Some(a_public),
        NOW,
    );
    let named = match plan {
        Ok(Msg1Plan::Reset { identity }) => identity,
        _ => panic!("a reset is offered"),
    };
    let msg2 = reset_message(&named, &draft.message, &aes(), 77);
    assert!(msg2.recovery_reset);
    let response = b
        .send_reset_offer(
            opened.handshake,
            &b"two".to_vec(),
            named.fields(),
            draft.conn_id,
            NOW,
        )
        .ok()
        .unwrap();

    assert_eq!(b.answer_time_left(draft.conn_id, NOW), Some(47_400));
    assert_eq!(b.answer_time_left(draft.conn_id, NOW + 47_400), Some(0));
    assert_eq!(b.answer_time_left(draft.conn_id + 1, NOW), None);

    // The initiator asks for the reset over the same channel.
    let second = handshake_packet(20, 10, PACKET_RELAY_HANDSHAKE_ACK, draft.conn_id, &response);
    assert_eq!(
        handshake
            .read_packet(PACKET_RELAY_HANDSHAKE_ACK, &second)
            .ok()
            .unwrap(),
        b"two"
    );
    assert!(matches!(
        a.accept_msg2(&draft, &msg2, &key_b),
        Ok(Msg2Verdict::Reset)
    ));
    let mut transport = handshake.into_transport().ok().unwrap();
    a.begin_reset(draft.conn_id, identity);
    let asked = transport.write(&b"identity".to_vec()).ok().unwrap();
    let ask = handshake_packet(10, 20, PACKET_RELAY_HANDSHAKE_RESET, draft.conn_id, &asked);
    assert!(matches!(
        b.handle_handshake_packet(&ask),
        Ok(HandshakeDispatch::Reset { handshake_id }) if handshake_id == draft.conn_id
    ));
    assert!(matches!(
        b.open_reset(&ask, draft.conn_id + 1),
        Err(RelayError::ResetHandshakeIdMismatch)
    ));
    assert_eq!(b.open_reset(&ask, draft.conn_id).ok().unwrap(), b"identity");
    let other = TransitionFields {
        initial_epoch: 9,
        ..identity
    };
    assert!(matches!(
        b.answer_reset(&other, &b"identity".to_vec()),
        Err(RelayError::ResetIdentityMismatch)
    ));
    let answered = b
        .answer_reset(&identity, &b"identity".to_vec())
        .ok()
        .unwrap();
    let answer = handshake_packet(
        20,
        10,
        PACKET_RELAY_HANDSHAKE_RESET_ACK,
        draft.conn_id,
        &answered,
    );
    assert!(matches!(
        a.handle_handshake_packet(&answer),
        Ok(HandshakeDispatch::ResetAnswer { handshake_id }) if handshake_id == draft.conn_id
    ));
    assert!(matches!(
        a.handle_handshake_packet(&answer),
        Ok(HandshakeDispatch::Ignore)
    ));
    assert_eq!(
        transport
            .read_packet(PACKET_RELAY_HANDSHAKE_RESET_ACK, &answer)
            .ok()
            .unwrap(),
        b"identity"
    );
    a.end_reset(draft.conn_id);
    assert_eq!(
        a.finish_reset(
            &mut a_store,
            &mut a_quotas,
            &key_b,
            identity,
            draft.conn_id,
            draft.conn_id + 1,
            &identity
        ),
        Err(RelayError::ResetAcknowledgementMismatch)
    );
    assert_eq!(
        a.finish_reset(
            &mut a_store,
            &mut a_quotas,
            &key_b,
            identity,
            draft.conn_id,
            draft.conn_id,
            &identity
        ),
        Ok(())
    );
    assert_eq!(a_store.in_doubt_reservation_count(), 0);
    assert_eq!(
        a.finish_reset(
            &mut a_store,
            &mut a_quotas,
            &key_b,
            identity,
            draft.conn_id,
            draft.conn_id,
            &identity
        ),
        Err(RelayError::ResetNotRetained)
    );
}

#[test]
fn the_larger_identifier_answers_when_both_begin() {
    let pair = || {
        snow::Builder::new("Noise_IK_25519_ChaChaPoly_SHA256".parse().unwrap())
            .generate_keypair()
            .unwrap()
    };
    let (a_keys, b_keys) = (pair(), pair());
    let a_public = Key32::from_bytes(&a_keys.public);
    let b_public = Key32::from_bytes(&b_keys.public);
    let mut store = PeerSessionStore::new();
    let mut quotas = SessionQuotas::new();
    let key = SessionKey::new("net".to_string(), 10);
    let draft = RelayPeer::draft_msg1(&mut store, &key, Some(b_public), &aes(), NOW)
        .ok()
        .unwrap();
    let (_, message) = start_handshake(
        Key32::from_bytes(&a_keys.private),
        b_public,
        &b"one".to_vec(),
    )
    .ok()
    .unwrap();
    let first = handshake_packet(10, 20, PACKET_RELAY_HANDSHAKE, draft.conn_id, &message);
    for (me, remote, defers) in [(20, 10, false), (5, 10, true)] {
        let mut peer = RelayPeer::new();
        peer.begin_handshake(99, b"mine".to_vec(), NextHopPolicy::LeastCost);
        let admission = peer.admit_msg1(
            &mut store,
            &mut quotas,
            me,
            remote,
            draft.conn_id,
            Some(a_public),
            &a_keys.public,
            &draft.message,
            &first,
            NOW,
        );
        if defers {
            assert!(matches!(
                admission,
                Ok(Msg1Admission::Deferred {
                    handshake_id: 99,
                    policy: NextHopPolicy::LeastCost,
                    payload
                }) if payload == b"mine"
            ));
            assert_eq!(
                peer.take_deferred().unwrap().handshake_id,
                draft.conn_id
            );
        } else {
            assert!(matches!(admission, Ok(Msg1Admission::Proceed)));
            assert!(peer.pending_handshake.is_none());
        }
    }
    let mut peer = RelayPeer::new();
    assert!(matches!(
        peer.admit_msg1(
            &mut store,
            &mut quotas,
            20,
            10,
            draft.conn_id,
            Some(b_public),
            &a_keys.public,
            &draft.message,
            &first,
            NOW,
        ),
        Err(RelayError::PeerKeyMismatch)
    ));
}

#[test]
fn an_answer_is_staged_by_both_sides() {
    let pair = || {
        snow::Builder::new("Noise_IK_25519_ChaChaPoly_SHA256".parse().unwrap())
            .generate_keypair()
            .unwrap()
    };
    let (a_keys, b_keys) = (pair(), pair());
    let a_public = Key32::from_bytes(&a_keys.public);
    let b_public = Key32::from_bytes(&b_keys.public);
    let (mut a, mut b) = (RelayPeer::new(), RelayPeer::new());
    let (mut a_store, mut b_store) = (PeerSessionStore::new(), PeerSessionStore::new());
    let (mut a_quotas, mut b_quotas) = (SessionQuotas::new(), SessionQuotas::new());
    let key_b = SessionKey::new("net".to_string(), 20);
    let key_a = SessionKey::new("net".to_string(), 10);
    let draft = RelayPeer::draft_msg1(&mut a_store, &key_b, Some(b_public), &aes(), NOW)
        .ok()
        .unwrap();
    let (_, message) = start_handshake(
        Key32::from_bytes(&a_keys.private),
        b_public,
        &b"one".to_vec(),
    )
    .ok()
    .unwrap();
    let first = handshake_packet(10, 20, PACKET_RELAY_HANDSHAKE, draft.conn_id, &message);
    let opened = open_first_message(Key32::from_bytes(&b_keys.private), &first)
        .ok()
        .unwrap();
    assert!(matches!(
        b.handle_relay_msg1(
            &mut b_store,
            &mut b_quotas,
            &key_a,
            20,
            draft.conn_id + 1,
            Some(a_public),
            &opened.remote_static,
            &aes(),
            &draft.message,
            &first,
            77,
            NOW,
        ),
        Err(RelayError::ConnIdMismatch)
    ));
    let (prepared, mut msg2) = match b.handle_relay_msg1(
        &mut b_store,
        &mut b_quotas,
        &key_a,
        20,
        draft.conn_id,
        Some(a_public),
        &opened.remote_static,
        &aes(),
        &draft.message,
        &first,
        77,
        NOW,
    ) {
        Ok(Msg1Step::Answer {
            prepared,
            recovery_active: false,
            msg2,
        }) => (prepared, msg2),
        _ => panic!("the first message is answered"),
    };
    assert_eq!(msg2.b_conn_id, Some(77));
    assert_eq!(msg2.a_conn_id_echo, Some(draft.conn_id));
    assert_eq!(
        msg2.transition_id,
        prepared.transition_id.to_be_bytes().to_vec()
    );
    msg2.accepted = false;
    assert!(matches!(
        a.handle_relay_msg2(
            &mut a_store,
            &mut a_quotas,
            &key_b,
            &draft,
            &msg2,
            &aes(),
            b_public,
            NOW,
        ),
        Ok(Msg2Step::NotReady { deferred: None })
    ));
    msg2.accepted = true;
    let driver = match a.handle_relay_msg2(
        &mut a_store,
        &mut a_quotas,
        &key_b,
        &draft,
        &msg2,
        &aes(),
        b_public,
        NOW,
    ) {
        Ok(Msg2Step::Confirm { driver }) => driver,
        _ => panic!("the transition is staged"),
    };
    assert_eq!(driver.stage, ConfirmationStage::Confirming);
    assert_eq!(driver.pending.identity.handshake_id, draft.conn_id);
    assert_eq!(
        driver.pending.identity.transition_id,
        prepared.transition_id
    );
    let a_root = a_store.session(driver.pending.session).unwrap().root_key();
    let b_root = b_store.session(prepared.session).unwrap().root_key();
    assert!(a_root == b_root);
    assert!(a_store.peek(&key_b).is_none());
}
