use lowertier::bytes::{all_zero, copy_range, push_be, push_le, read_be, read_le, same_bytes, Key32};
use lowertier::clock::time_since;
use lowertier::flow_table::FlowPin;
use lowertier::ip_prefix::{IpAddress, IpPrefix};
use lowertier::outside::{new_transition_id, new_uuid, nonzero_draw, Draw};
use lowertier::packet::{
    Packet, PeerIdentityType, SecureAuthLevel, VerifiedOrigin, CONTROL_CRITICAL_L2,
    CONTROL_HYBRID_IP_ETHERNET, PACKET_DATA, PACKET_ETHERNET, PACKET_RELAY_HANDSHAKE,
    PACKET_RELAY_HANDSHAKE_CONFIRM, PACKET_RELAY_HANDSHAKE_READY_RECEIPT_ACK,
    PACKET_RELAY_HANDSHAKE_RESET_ACK,
};
use lowertier::peer_session::PeerSession;
use lowertier::prefix_table::PrefixTable;
use lowertier::relay_auth::{
    relayed_auth_level, OriginAuthEntry, OriginAuthGrant, RelayAuthority, ValidatedAuthority,
};
use lowertier::relay_peer::{
    handshake_backoff_ms, RelayPeer, COMPLETED_HANDSHAKE_LIFETIME_MS,
    MAX_COMPLETED_HANDSHAKES_PER_PEER,
};
use lowertier::relay_peer_map::RelayPeerMap;
use lowertier::relay_queue::{FullEthernetAuthorizationToken, RelayBudget, RelaySendPhase};
use lowertier::relay_send::{authority_before_send, packet_authorization_token, SendDecision};
use lowertier::relay_wire::{
    is_handshake_confirmation_packet_type, is_handshake_packet_type, relay_action_from_wire,
    relay_action_to_wire, RelayConfirmationIdentity, RelayError, RelayReadyReceiptIdentity,
};
use lowertier::responder_store::ResponderSeeds;
use lowertier::route_trait::NextHopPolicy;
use lowertier::service_route::{
    ServiceRoute, ServiceRouteAction, ServiceRouteSelection, ServiceRouteSnapshot,
};
use lowertier::service_route_store::choose_route;
use lowertier::session_store::{PeerSessionStore, SessionQuotas};
use lowertier::session_types::{
    InitiatorTransitionIdentity, PeerSessionAction, SessionError, SessionKey,
};

const NOW: u64 = 1_700_000_000_000;

fn filled(byte: u8) -> Key32 {
    Key32::from_bytes(&[byte; 32])
}

fn aes() -> String {
    "aes-gcm".to_string()
}

#[test]
fn numbers_are_written_in_both_byte_orders() {
    let mut out = vec![9];
    push_be(&mut out, 0x0102_0304, 4);
    push_le(&mut out, 0x0506, 2);
    assert_eq!(out, vec![9, 1, 2, 3, 4, 6, 5]);
    assert_eq!(read_be(&out, 1, 4), 0x0102_0304);
    assert_eq!(read_le(&out, 5, 2), 0x0506);
    assert_eq!(copy_range(&out, 1, 3), vec![1, 2]);
    assert!(same_bytes(&out[1..2], &[1]));
    assert!(!same_bytes(&out, &[1]));
    assert!(all_zero(&[1, 0, 0], 1, 2));
    assert!(!all_zero(&[1, 0, 0], 0, 2));
}

#[test]
fn time_never_runs_backwards() {
    assert_eq!(time_since(5, 8), 3);
    assert_eq!(time_since(8, 5), 0);
}

#[test]
fn fresh_identifiers_have_their_version() {
    let id = new_uuid().unwrap();
    assert_eq!((id >> 76) & 0xf, 4);
    assert_eq!((id >> 62) & 0x3, 2);
    assert_ne!(new_uuid().unwrap(), id);
    assert_ne!(new_transition_id().unwrap(), 0);
}

#[test]
fn zero_is_drawn_again() {
    assert_eq!(nonzero_draw(None), Draw::Nothing);
    assert_eq!(nonzero_draw(Some(0)), Draw::Again);
    assert_eq!(nonzero_draw(Some(7)), Draw::Value { value: 7 });
}

#[test]
fn seeds_need_every_draw() {
    let seeds = ResponderSeeds::of_draws(Some(filled(3)), Some(4), Some(5)).unwrap();
    assert!(seeds.root_key == filled(3));
    assert_eq!(seeds.transition_id, 4);
    assert_eq!(seeds.metadata_id, 5);
    assert!(ResponderSeeds::of_draws(None, Some(4), Some(5)).is_none());
    assert!(ResponderSeeds::of_draws(Some(filled(3)), None, Some(5)).is_none());
    assert!(ResponderSeeds::of_draws(Some(filled(3)), Some(4), None).is_none());
}

#[test]
fn header_marks_are_read_back() {
    let mut packet = Packet::new_with_payload(vec![1, 2, 3]);
    packet.fill_peer_manager_hdr(1, 2, PACKET_ETHERNET);
    let mut header = packet.header.unwrap();
    assert!(!header.is_hybrid_ip_ethernet());
    assert!(!header.is_critical_l2_control());
    header.controls = CONTROL_HYBRID_IP_ETHERNET | CONTROL_CRITICAL_L2;
    assert!(header.is_hybrid_ip_ethernet());
    assert!(header.is_critical_l2_control());
    assert_eq!(header.stable_auth_data().len(), 16);
    assert_eq!(header.stable_fields_data().len(), 12);
    assert_eq!(header.stable_auth_data()[..4], header.len.to_be_bytes());
    assert!(packet.buf_len() >= 3);

    // An origin is set once; only the same one is accepted again.
    let origin = VerifiedOrigin {
        peer_id: 1,
        identity_type: PeerIdentityType::Admin,
        secure_auth_level: SecureAuthLevel::PeerVerified,
        session_id: 8,
    };
    assert!(packet.set_verified_origin(origin));
    assert!(packet.set_verified_origin(origin));
    assert!(!packet.set_verified_origin(VerifiedOrigin {
        session_id: 9,
        ..origin
    }));
    assert_eq!(packet.verified_origin.unwrap().session_id, 8);
}

#[test]
fn the_longest_prefix_is_found() {
    let mut table = PrefixTable::new();
    let v4 = |bits: u32, length: u8| IpPrefix::new(IpAddress::from_v4(bits), length).unwrap();
    table.insert(v4(0, 0), 1);
    table.insert(v4(0x0a00_0000, 8), 2);
    table.insert(v4(0x0a01_0000, 16), 3);
    assert_eq!(table.lookup(IpAddress::from_v4(0x0a01_0203)), Some(3));
    assert_eq!(table.lookup(IpAddress::from_v4(0x0a02_0203)), Some(2));
    assert_eq!(table.lookup(IpAddress::from_v4(0x0b02_0203)), Some(1));
    assert_eq!(table.lookup(IpAddress::from_v6(1)), None);
    let low = IpPrefix::new(IpAddress::from_v6(0), 64).unwrap();
    table.insert(low, 4);
    table.insert(low, 5);
    assert_eq!(table.lookup(IpAddress::from_v6(1)), Some(5));
    assert_eq!(table.lookup(IpAddress::from_v6(1 << 64)), None);
}

fn route(gateway: u32, preference: u32, metric: u32) -> ServiceRoute {
    ServiceRoute {
        prefix: IpPrefix::new(IpAddress::from_v4(0x0a00_0000), 8).unwrap(),
        gateway,
        preference,
        metric,
        path_id: 0,
        action: ServiceRouteAction::Forward,
    }
}

#[test]
fn candidates_are_ranked() {
    let snapshot = ServiceRouteSnapshot::from_routes(
        7,
        vec![route(3, 1, 5), route(2, 2, 9), route(1, 2, 4)],
    );
    assert_eq!(snapshot.generation(), 7);
    assert_eq!(snapshot.routes().len(), 3);
    let gateways: Vec<u32> = snapshot
        .candidates(IpAddress::from_v4(0x0a0b_0c0d))
        .unwrap()
        .iter()
        .map(|route| route.gateway)
        .collect();
    assert_eq!(gateways, vec![1, 2, 3]);
    assert!(snapshot.candidates(IpAddress::from_v4(0x0b00_0000)).is_none());
    let nothing = ServiceRouteSnapshot::empty();
    assert_eq!(nothing.generation(), 0);
    assert!(nothing.routes().is_empty());
}

#[test]
fn the_highest_score_of_the_best_rank_wins() {
    let list = vec![route(1, 2, 4), route(2, 2, 4), route(3, 1, 1)];
    let pick = |live: Vec<bool>, scores: Vec<u64>, pin: Option<FlowPin>| {
        choose_route(&list, &live, &scores, pin, 100, 10)
            .map(|choice| (choice.selection.gateway, choice.kept))
    };
    let all = vec![true, true, true];
    assert_eq!(pick(all.clone(), vec![5, 4, 9], None), Some((1, false)));
    assert_eq!(pick(all.clone(), vec![5, 6, 9], None), Some((2, false)));
    assert_eq!(pick(all.clone(), vec![5, 5, 9], None), Some((2, false)));
    assert_eq!(
        pick(vec![false, false, true], vec![5, 5, 9], None),
        Some((3, false))
    );
    assert_eq!(pick(vec![false, false, false], vec![5, 5, 9], None), None);
    let pin = FlowPin {
        selection: ServiceRouteSelection {
            prefix: list[0].prefix,
            gateway: 1,
            path_id: 0,
            action: ServiceRouteAction::Forward,
        },
        created_at: 90,
        generation: 0,
    };
    assert_eq!(
        pick(all.clone(), vec![5, 6, 9], Some(pin)),
        Some((1, true))
    );
    let old = FlowPin {
        created_at: 89,
        ..pin
    };
    assert_eq!(pick(all, vec![5, 6, 9], Some(old)), Some((2, false)));
}

#[test]
fn actions_and_packet_types_have_codes() {
    for action in [
        PeerSessionAction::Join,
        PeerSessionAction::Sync,
        PeerSessionAction::Create,
    ] {
        assert_eq!(
            relay_action_from_wire(relay_action_to_wire(action)),
            Ok(action)
        );
    }
    assert!(relay_action_from_wire(200).is_err());
    assert!(is_handshake_packet_type(PACKET_RELAY_HANDSHAKE));
    assert!(is_handshake_packet_type(PACKET_RELAY_HANDSHAKE_RESET_ACK));
    assert!(!is_handshake_packet_type(PACKET_RELAY_HANDSHAKE_CONFIRM));
    assert!(is_handshake_confirmation_packet_type(
        PACKET_RELAY_HANDSHAKE_CONFIRM
    ));
    assert!(is_handshake_confirmation_packet_type(
        PACKET_RELAY_HANDSHAKE_READY_RECEIPT_ACK
    ));
    assert!(!is_handshake_confirmation_packet_type(PACKET_DATA));
}

#[test]
fn only_ethernet_carries_a_token() {
    let token = |descriptor: u64| FullEthernetAuthorizationToken {
        descriptor,
        destination_peer_id: 20,
    };
    let mut data = Packet::new_with_payload(vec![1]);
    data.fill_peer_manager_hdr(10, 20, PACKET_DATA);
    let mut frame = data.clone();
    frame.fill_peer_manager_hdr(10, 20, PACKET_ETHERNET);
    assert_eq!(
        packet_authorization_token(&data, Some(token(1)), token(2)),
        None
    );
    assert_eq!(
        packet_authorization_token(&frame, Some(token(1)), token(2)),
        Some(token(1))
    );
    assert_eq!(
        packet_authorization_token(&frame, None, token(2)),
        Some(token(2))
    );
    assert_eq!(authority_before_send(&data, None, 20, &Vec::new()), Ok(()));
    assert_eq!(
        authority_before_send(&frame, Some(token(2)), 20, &vec![2]),
        Ok(())
    );
    assert_eq!(
        authority_before_send(&frame, Some(token(2)), 20, &vec![3]),
        Err(RelayError::AuthorityChangedBeforeSend)
    );

    // With a session the packet is sealed, without one it waits.
    let mut budget = RelayBudget::with_limit(1_000_000);
    let mut peer = RelayPeer::new();
    let item = match peer.admit_message(
        &mut budget,
        frame,
        20,
        NextHopPolicy::LeastHop,
        None,
        token(2),
        &vec![2],
        NOW,
    ) {
        Ok(SendDecision::NeedsSession { item }) => item,
        _ => panic!("a session is needed"),
    };
    let item = match peer.admit_with_session(&mut budget, item, Ok(7), 20, &vec![2]) {
        Ok(SendDecision::Encrypt { item, session: 7 }) => item,
        _ => panic!("the packet is sealed"),
    };
    let refused = peer.admit_with_session(&mut budget, item, Ok(7), 20, &vec![3]);
    assert!(matches!(
        refused,
        Err(RelayError::AuthorityChangedBeforeEncryption)
    ));
    assert_eq!(peer.pending_packet_count(), 0);
}

#[test]
fn relayed_assurance_is_local() {
    let entry = |level: SecureAuthLevel| OriginAuthEntry {
        noise_static_pubkey: filled(5),
        identity_type: PeerIdentityType::Admin,
        secure_auth_level: level,
        revision: 1,
    };
    let grant = OriginAuthGrant {
        noise_static_pubkey: filled(5),
        revision: 2,
        live: true,
    };
    for (level, bridge, expected) in [
        (
            SecureAuthLevel::NetworkSecretConfirmed,
            None,
            SecureAuthLevel::PeerVerified,
        ),
        (
            SecureAuthLevel::EncryptedUnauthenticated,
            None,
            SecureAuthLevel::EncryptedUnauthenticated,
        ),
        (
            SecureAuthLevel::EncryptedUnauthenticated,
            Some(grant),
            SecureAuthLevel::PeerVerified,
        ),
    ] {
        assert_eq!(
            relayed_auth_level(&ValidatedAuthority {
                generic: entry(level),
                bridge,
            }),
            expected
        );
    }
    let session = PeerSession::new(20, filled(1), 1, 0, aes(), aes(), Some(filled(5)), NOW).unwrap();
    let says = RelayAuthority {
        generic: Some(entry(SecureAuthLevel::PeerVerified)),
        bridge: None,
    };
    assert!(says.validate_relay_session_identity(&session, false).is_ok());
    assert!(matches!(
        says.validate_relay_session_identity(&session, true),
        Err(RelayError::BridgeGrantMissing)
    ));
    assert!(matches!(
        says.validate_relay_session_auth(20, &session, false, None),
        Err(RelayError::BindingMissing)
    ));
    let binding = says.bind_relay_session_auth(20, &session).ok().unwrap();
    assert!(says
        .validate_relay_session_auth(20, &session, false, Some(binding))
        .is_ok());
    let mut newer = says;
    newer.generic = Some(OriginAuthEntry {
        revision: 2,
        ..entry(SecureAuthLevel::PeerVerified)
    });
    assert!(matches!(
        newer.validate_relay_session_auth(20, &session, false, Some(binding)),
        Err(RelayError::BindingChanged)
    ));
}

#[test]
fn completed_handshakes_are_remembered_for_a_while() {
    let mut peer = RelayPeer::new();
    let identity = |handshake_id: u128| RelayConfirmationIdentity {
        handshake_id,
        session_id: 2,
        transition_id: 3,
    };
    peer.record_completed_responder_handshake(identity(1), NOW);
    assert!(peer.responder_handshake_completed(1, NOW));
    assert!(peer.responder_handshake_completed_identity(identity(1), NOW));
    assert!(!peer.responder_handshake_completed_identity(
        RelayConfirmationIdentity {
            session_id: 9,
            ..identity(1)
        },
        NOW
    ));
    let end = NOW + COMPLETED_HANDSHAKE_LIFETIME_MS;
    assert!(peer.responder_handshake_completed(1, end - 1));
    assert!(!peer.responder_handshake_completed(1, end));
    for id in 2..2 + MAX_COMPLETED_HANDSHAKES_PER_PEER as u128 {
        peer.record_completed_responder_handshake(identity(id), NOW);
    }
    assert!(!peer.responder_handshake_completed(1, NOW));
    assert_eq!(peer.completed.len(), MAX_COMPLETED_HANDSHAKES_PER_PEER);

    let receipt = RelayReadyReceiptIdentity {
        handshake_id: 1,
        session_metadata_id: 2,
        transition_id: 3,
        action: PeerSessionAction::Create,
        session_generation: 1,
        initial_epoch: 0,
    };
    peer.record_completed_ready_receipt(receipt, NOW);
    assert!(peer.completed_ready_receipt(receipt, NOW));
    assert!(!peer.completed_ready_receipt(receipt, end));
    assert_eq!(handshake_backoff_ms(0), 200);
    assert_eq!(handshake_backoff_ms(2), 800);
}

#[test]
fn confirmations_hold_data_back() {
    let mut peer = RelayPeer::new();
    let identity = RelayConfirmationIdentity {
        handshake_id: 1,
        session_id: 2,
        transition_id: 3,
    };
    peer.set_confirmation_identity(identity);
    let state = peer.send.as_mut().unwrap();
    assert_eq!(state.phase(), RelaySendPhase::Confirming);
    let other = RelayConfirmationIdentity {
        transition_id: 4,
        ..identity
    };
    assert!(!state.clear_confirmation(other));
    assert!(state.clear_confirmation(identity));
    assert!(!state.clear_confirmation(identity));
    peer.set_confirmation_identity(identity);
    peer.reset_confirmation_state(other);
    assert_eq!(
        peer.send.as_ref().unwrap().phase(),
        RelaySendPhase::AwaitingSession
    );
}

#[test]
fn records_go_with_the_key_of_their_peer() {
    let mut store = PeerSessionStore::new();
    let mut quotas = SessionQuotas::new();
    let map = RelayPeerMap::new(10, "net".to_string());
    let key = map.session_key(20);
    let session = store
        .apply_initiator_action(
            &mut quotas,
            &key,
            PeerSessionAction::Create,
            1,
            Some(filled(7)),
            0,
            aes(),
            aes(),
            Some(filled(9)),
            NOW,
        )
        .unwrap();
    assert_eq!(store.peek(&key), Some(session));
    let transition_id = store.active_transition_id(&key);
    assert!(transition_id.is_some());
    let held = store.session(session).unwrap();
    let identity = InitiatorTransitionIdentity::new(
        SessionKey::new("net".to_string(), 20),
        held.metadata_session_id(),
        PeerSessionAction::Create,
        1,
        0,
        transition_id.unwrap(),
        InitiatorTransitionIdentity::digest_root_key(&filled(7)),
    );
    assert!(store.active_transition_matches(&identity));
    assert!(!map.clear_peer_session_records_if_static_key_matches(
        &mut store,
        &mut quotas,
        20,
        filled(8)
    ));
    assert_eq!(
        store.apply_initiator_action(
            &mut quotas,
            &key,
            PeerSessionAction::Join,
            1,
            None,
            0,
            aes(),
            aes(),
            Some(filled(8)),
            NOW,
        ),
        Err(SessionError::StaticKeyMismatch)
    );
}

#[test]
fn fec_packets_have_their_own_nonces() {
    let mut session =
        PeerSession::new(20, filled(1), 1, 0, aes(), aes(), Some(filled(5)), NOW).unwrap();
    let mut packet = Packet::new_with_payload(vec![1]);
    packet.fill_peer_manager_hdr(10, 20, PACKET_DATA);
    let batch = vec![packet.clone(), packet];
    let plain = session
        .encrypt_payload_batch(10, 20, &batch, NOW)
        .ok()
        .unwrap();
    let fec = session
        .encrypt_fec_payload_batch(10, 20, &batch, NOW)
        .ok()
        .unwrap();
    assert_eq!(plain.len(), 2);
    assert_eq!(fec.len(), 2);
    assert_eq!(plain[1].seq, plain[0].seq + 1);
    assert_eq!(fec[1].seq, fec[0].seq + 1);
    assert!(plain[0].key != fec[0].key);
    assert_eq!(plain[0].epoch, fec[0].epoch);
}
