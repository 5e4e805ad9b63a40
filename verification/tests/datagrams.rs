use hmac::{Hmac, Mac};
use sha2::{Digest, Sha256};

use lowertier::bytes::Key32;
use lowertier::datagram_replay::{SecureDatagramDirection, MAX_ACCEPTED_RX_EPOCH_AHEAD};
use lowertier::packet::{
    Packet, PeerHeader, CONTROL_CRITICAL_L2, CONTROL_SPEED_FIRST, FLAG_COMPRESSED, FLAG_EXIT_NODE,
    FLAG_LATENCY_FIRST, FLAG_NOT_SEND_TO_TUN, FLAG_NO_PROXY, PACKET_DATA, PACKET_ETHERNET,
};
use lowertier::secure_datagram::{
    root_key_of_draws, BatchItem, CipherRequest, DatagramError, KeyDomain, SecureDatagramSession,
    DECRYPT_FAIL_THRESHOLD, FEC_DECRYPT_FAIL_THRESHOLD, ROTATE_AFTER_MS, ROTATE_AFTER_PACKETS,
    SYNC_RX_GRACE_AFTER_MS,
};

const NOW: u64 = 1_700_000_000_000;

const A_TO_B: SecureDatagramDirection = SecureDatagramDirection::AToB;

const B_TO_A: SecureDatagramDirection = SecureDatagramDirection::BToA;

fn keystream(request: &CipherRequest, len: usize) -> Vec<u8> {
    let mut stream = Vec::new();
    let mut counter = 0u32;
    while stream.len() < len {
        let mut hash = Sha256::new();
        hash.update(request.key.to_bytes());
        hash.update(request.algorithm.as_bytes());
        hash.update(request.nonce());
        hash.update(counter.to_be_bytes());
        stream.extend_from_slice(&hash.finalize());
        counter += 1;
    }
    stream.truncate(len);
    stream
}

fn tag(request: &CipherRequest, ciphertext: &[u8]) -> u128 {
    let mut mac = <Hmac<Sha256> as Mac>::new_from_slice(&request.key.to_bytes()).unwrap();
    mac.update(request.algorithm.as_bytes());
    mac.update(&request.nonce());
    mac.update(&request.aad);
    mac.update(ciphertext);
    let code = mac.finalize().into_bytes();
    u128::from_be_bytes(code[..16].try_into().unwrap())
}

fn seal(request: &CipherRequest, packet: &mut Packet) {
    let stream = keystream(request, packet.payload.len());
    let ciphertext: Vec<u8> = packet.payload.iter().zip(stream).map(|(a, b)| a ^ b).collect();
    let tag = tag(request, &ciphertext);
    packet.set_sealed(&ciphertext, tag, request.epoch, request.seq);
}

fn open(request: &CipherRequest, packet: &Packet) -> Option<Vec<u8>> {
    let body = packet.payload.len() - 28;
    let ciphertext = &packet.payload[..body];
    let found = u128::from_be_bytes(packet.payload[body..body + 16].try_into().unwrap());
    if tag(request, ciphertext) != found {
        return None;
    }
    let stream = keystream(request, body);
    Some(ciphertext.iter().zip(stream).map(|(a, b)| a ^ b).collect())
}

fn encrypt_at(
    session: &mut SecureDatagramSession,
    dir: SecureDatagramDirection,
    packet: &mut Packet,
    now: u64,
) -> Result<(), DatagramError> {
    let request = session.encrypt_payload(dir, packet, now)?;
    seal(&request, packet);
    Ok(())
}

fn encrypt(
    session: &mut SecureDatagramSession,
    dir: SecureDatagramDirection,
    packet: &mut Packet,
) -> Result<(), DatagramError> {
    encrypt_at(session, dir, packet, NOW)
}

fn encrypt_batch(
    session: &mut SecureDatagramSession,
    dir: SecureDatagramDirection,
    packets: &mut Vec<Packet>,
) -> Result<(), DatagramError> {
    let requests = session.encrypt_payload_batch(dir, packets, NOW)?;
    for (request, packet) in requests.iter().zip(packets.iter_mut()) {
        seal(request, packet);
    }
    Ok(())
}

fn encrypt_fec_at(
    session: &mut SecureDatagramSession,
    dir: SecureDatagramDirection,
    packet: &mut Packet,
    now: u64,
) -> Result<(), DatagramError> {
    let request = session.encrypt_fec_payload(dir, packet, now)?;
    seal(&request, packet);
    Ok(())
}

fn encrypt_fec(
    session: &mut SecureDatagramSession,
    dir: SecureDatagramDirection,
    packet: &mut Packet,
) -> Result<(), DatagramError> {
    encrypt_fec_at(session, dir, packet, NOW)
}

fn decrypt(
    session: &mut SecureDatagramSession,
    dir: SecureDatagramDirection,
    packet: &mut Packet,
) -> Result<(), DatagramError> {
    let request = session.decrypt_payload(dir, packet, NOW)?;
    let opened = open(&request, packet);
    session.finish_decrypt_payload(dir, request.epoch, request.seq, opened.is_some(), NOW)?;
    packet.set_opened(opened.unwrap());
    Ok(())
}

fn decrypt_fec_at(
    session: &mut SecureDatagramSession,
    dir: SecureDatagramDirection,
    packet: &mut Packet,
    now: u64,
) -> Result<(), DatagramError> {
    let request = session.decrypt_fec_payload(dir, packet, now)?;
    let opened = open(&request, packet);
    session.finish_decrypt_fec_payload(dir, request.epoch, request.seq, opened.is_some(), now)?;
    packet.set_opened(opened.unwrap());
    Ok(())
}

fn decrypt_fec(
    session: &mut SecureDatagramSession,
    dir: SecureDatagramDirection,
    packet: &mut Packet,
) -> Result<(), DatagramError> {
    decrypt_fec_at(session, dir, packet, NOW)
}

fn decrypt_batch(
    session: &mut SecureDatagramSession,
    dir: SecureDatagramDirection,
    packets: &mut Vec<Packet>,
) -> Vec<Result<(), DatagramError>> {
    let batch = session.decrypt_payload_batch(dir, packets, NOW);
    let plaintexts: Vec<Option<Vec<u8>>> = batch
        .items
        .iter()
        .zip(packets.iter())
        .map(|(item, packet)| match item {
            BatchItem::Open(request) => open(request, packet),
            BatchItem::Reject(_) => None,
        })
        .collect();
    let opened: Vec<bool> = plaintexts.iter().map(Option::is_some).collect();
    let results = session.finish_decrypt_payload_batch(dir, &batch, &opened, NOW);
    for ((result, plaintext), packet) in results.iter().zip(plaintexts).zip(packets.iter_mut()) {
        if result.is_ok() {
            packet.set_opened(plaintext.unwrap());
        }
    }
    results
}

fn new_key() -> Key32 {
    SecureDatagramSession::new_root_key().unwrap()
}

fn session_with(
    root_key: Key32,
    generation: u32,
    epoch: u32,
    send: &str,
    recv: &str,
) -> SecureDatagramSession {
    SecureDatagramSession::new(
        root_key,
        generation,
        epoch,
        send.to_string(),
        recv.to_string(),
        NOW,
    )
}

fn session(root_key: Key32, generation: u32, epoch: u32) -> SecureDatagramSession {
    session_with(root_key, generation, epoch, "aes-256-gcm", "aes-256-gcm")
}

fn data(payload: &[u8]) -> Packet {
    let mut packet = Packet::new_with_payload(payload.to_vec());
    packet.fill_peer_manager_hdr(10, 20, PACKET_DATA);
    packet
}

fn encrypted_packet_for_aad() -> (SecureDatagramSession, Packet) {
    let root_key = new_key();
    let mut sender = session(root_key, 1, 0);
    let receiver = session(root_key, 1, 0);
    let mut packet = data(b"authenticated header");
    encrypt(&mut sender, A_TO_B, &mut packet).unwrap();
    (receiver, packet)
}

#[test]
fn secure_datagram_supports_asymmetric_algorithms() {
    let root_key = new_key();
    let generation = 1u32;
    let initial_epoch = 0u32;

    let mut ab = session_with(
        root_key,
        generation,
        initial_epoch,
        "aes-256-gcm",
        "chacha20-poly1305",
    );
    let mut ba = session_with(
        root_key,
        generation,
        initial_epoch,
        "chacha20-poly1305",
        "aes-256-gcm",
    );

    let plaintext1 = b"hello from a";
    let mut pkt1 = data(plaintext1);
    encrypt(&mut ab, A_TO_B, &mut pkt1).unwrap();
    decrypt(&mut ba, A_TO_B, &mut pkt1).unwrap();
    assert_eq!(pkt1.payload, plaintext1);

    let plaintext2 = b"hello from b";
    let mut pkt2 = Packet::new_with_payload(plaintext2.to_vec());
    pkt2.fill_peer_manager_hdr(20, 10, PACKET_DATA);
    encrypt(&mut ba, B_TO_A, &mut pkt2).unwrap();
    decrypt(&mut ab, B_TO_A, &mut pkt2).unwrap();
    assert_eq!(pkt2.payload, plaintext2);
}

#[test]
fn fec_domain_is_separate_and_survives_standard_replay_advance() {
    let root_key = new_key();
    let mut sender = session(root_key, 1, 0);
    let mut receiver = session(root_key, 1, 0);

    let mut standard = data(b"same plaintext");
    let mut fec = standard.clone();
    encrypt(&mut sender, A_TO_B, &mut standard).unwrap();
    encrypt_fec(&mut sender, A_TO_B, &mut fec).unwrap();
    assert_ne!(standard.payload, fec.payload);
    assert!(standard.header.unwrap().is_encrypted());
    assert!(fec.header.unwrap().is_encrypted());

    let mut delayed_fec = fec;
    for value in 0..300_u16 {
        let mut packet = data(&value.to_be_bytes());
        encrypt(&mut sender, A_TO_B, &mut packet).unwrap();
        decrypt(&mut receiver, A_TO_B, &mut packet).unwrap();
    }

    decrypt_fec(&mut receiver, A_TO_B, &mut delayed_fec).unwrap();
    assert_eq!(delayed_fec.payload, b"same plaintext");
}

#[test]
fn fec_replay_is_rejected_without_rejecting_a_new_fec_nonce() {
    let root_key = new_key();
    let mut sender = session(root_key, 1, 0);
    let mut receiver = session(root_key, 1, 0);

    let mut first = data(b"first");
    encrypt_fec(&mut sender, A_TO_B, &mut first).unwrap();
    let mut replay = first.clone();
    decrypt_fec(&mut receiver, A_TO_B, &mut first).unwrap();
    assert!(decrypt_fec(&mut receiver, A_TO_B, &mut replay).is_err());

    let mut second = data(b"second");
    encrypt_fec(&mut sender, A_TO_B, &mut second).unwrap();
    decrypt_fec(&mut receiver, A_TO_B, &mut second).unwrap();
}

#[test]
fn fec_sync_preserves_old_epoch_only_during_authenticated_grace() {
    let root_key = new_key();
    let mut sender = session(root_key, 1, 0);
    let mut receiver = session(root_key, 1, 0);

    let mut before_sync = data(b"before sync");
    encrypt_fec(&mut sender, A_TO_B, &mut before_sync).unwrap();
    decrypt_fec(&mut receiver, A_TO_B, &mut before_sync).unwrap();

    let mut delayed = data(b"delayed");
    encrypt_fec(&mut sender, A_TO_B, &mut delayed).unwrap();
    receiver.sync_root_key(root_key, 2, 2, true, NOW);
    let mut sender_after_sync = session(root_key, 2, 2);
    let mut current_epoch = data(b"current epoch");
    encrypt_fec(&mut sender_after_sync, A_TO_B, &mut current_epoch).unwrap();
    decrypt_fec(&mut receiver, A_TO_B, &mut current_epoch).unwrap();
    decrypt_fec(&mut receiver, A_TO_B, &mut delayed).unwrap();

    let mut expired = data(b"expired");
    encrypt_fec(&mut sender, A_TO_B, &mut expired).unwrap();
    let after_grace = NOW + SYNC_RX_GRACE_AFTER_MS + 1;
    assert!(decrypt_fec_at(&mut receiver, A_TO_B, &mut expired, after_grace).is_err());
}

#[test]
fn fec_sync_clears_old_epoch_when_root_key_changes() {
    let old_root_key = new_key();
    let mut sender = session(old_root_key, 1, 0);
    let new_root_key = new_key();
    let mut receiver = session(old_root_key, 1, 0);
    let mut packet = data(b"old root");
    encrypt_fec(&mut sender, A_TO_B, &mut packet).unwrap();
    receiver.sync_root_key(new_root_key, 2, 2, true, NOW);
    assert!(decrypt_fec(&mut receiver, A_TO_B, &mut packet).is_err());
}

#[test]
fn batch_decrypt_reports_individual_forgery_without_discarding_valid_packets() {
    let root_key = new_key();
    let mut sender = session(root_key, 1, 0);
    let mut receiver = session(root_key, 1, 0);
    let mut packets = vec![data(b"valid-0"), data(b"forged"), data(b"valid-2")];
    encrypt_batch(&mut sender, A_TO_B, &mut packets).unwrap();
    packets[1].payload[0] ^= 1;

    let outcomes = decrypt_batch(&mut receiver, A_TO_B, &mut packets);
    assert_eq!(outcomes.len(), 3);
    assert!(outcomes[0].is_ok());
    assert!(outcomes[1].is_err());
    assert!(outcomes[2].is_ok());
    assert_eq!(packets[0].payload, b"valid-0");
    assert_eq!(packets[2].payload, b"valid-2");
    assert!(decrypt(&mut receiver, A_TO_B, &mut packets[0]).is_err());
}

#[test]
fn batch_decrypt_rejects_long_plaintext_before_crypto() {
    let mut receiver = session(new_key(), 1, 0);
    let mut packets = vec![data(&[0x5a; 4096])];

    let outcomes = decrypt_batch(&mut receiver, A_TO_B, &mut packets);
    assert_eq!(outcomes.len(), 1);
    assert!(outcomes[0].is_err());
    assert!(receiver.is_valid());
    assert_eq!(packets[0].payload, [0x5a; 4096]);
}

#[test]
fn batch_decrypt_keeps_authenticated_packet_next_to_plaintext() {
    let root_key = new_key();
    let mut sender = session(root_key, 1, 0);
    let mut receiver = session(root_key, 1, 0);
    let mut encrypted = data(b"authenticated");
    encrypt(&mut sender, A_TO_B, &mut encrypted).unwrap();
    let plaintext = data(&[0x33; 4096]);

    let mut packets = vec![encrypted, plaintext];
    let outcomes = decrypt_batch(&mut receiver, A_TO_B, &mut packets);
    assert!(outcomes[0].is_ok());
    assert!(outcomes[1].is_err());
    assert_eq!(packets[0].payload, b"authenticated");
    assert_eq!(packets[1].payload, [0x33; 4096]);
    assert!(receiver.is_valid());
}

#[test]
fn scalar_decrypt_failure_streak_saturates_without_invalidation() {
    let root_key = new_key();
    let mut sender = session(root_key, 1, 0);
    let mut receiver = session(root_key, 1, 0);

    for _ in 0..DECRYPT_FAIL_THRESHOLD {
        let mut packet = data(b"forged");
        encrypt(&mut sender, A_TO_B, &mut packet).unwrap();
        packet.payload[0] ^= 1;
        assert!(decrypt(&mut receiver, A_TO_B, &mut packet).is_err());
        assert!(receiver.is_valid());
    }
    assert_eq!(receiver.decrypt_fail_count(), DECRYPT_FAIL_THRESHOLD);
}

#[test]
fn authenticated_sync_resets_decrypt_failure_streak() {
    let old_root_key = new_key();
    let mut sender = session(old_root_key, 1, 0);
    let mut receiver = session(old_root_key, 1, 0);

    for _ in 0..(DECRYPT_FAIL_THRESHOLD - 1) {
        let mut packet = data(b"forged-before-sync");
        encrypt(&mut sender, A_TO_B, &mut packet).unwrap();
        packet.payload[0] ^= 1;
        assert!(decrypt(&mut receiver, A_TO_B, &mut packet).is_err());
    }
    assert!(receiver.is_valid());
    assert_eq!(receiver.decrypt_fail_count(), DECRYPT_FAIL_THRESHOLD - 1);

    let new_root_key = new_key();
    receiver.sync_root_key(new_root_key, 2, 1, false, NOW);
    assert_eq!(receiver.decrypt_fail_count(), 0);

    let mut sender_after_sync = session(new_root_key, 2, 1);
    let mut packet = data(b"forged-after-sync");
    encrypt(&mut sender_after_sync, A_TO_B, &mut packet).unwrap();
    packet.payload[0] ^= 1;
    assert!(decrypt(&mut receiver, A_TO_B, &mut packet).is_err());
    assert!(receiver.is_valid());
    assert_eq!(receiver.decrypt_fail_count(), 1);
}

#[test]
fn batch_decrypt_counts_one_failure_for_the_batch_and_resets_on_success() {
    let root_key = new_key();
    let mut sender = session(root_key, 1, 0);
    let mut receiver = session(root_key, 1, 0);

    let mut forged_batch = Vec::new();
    for _ in 0..DECRYPT_FAIL_THRESHOLD {
        let mut packet = data(b"forged");
        encrypt(&mut sender, A_TO_B, &mut packet).unwrap();
        packet.payload[0] ^= 1;
        forged_batch.push(packet);
    }
    let outcomes = decrypt_batch(&mut receiver, A_TO_B, &mut forged_batch);
    assert!(outcomes.iter().all(Result::is_err));
    assert!(receiver.is_valid());
    assert_eq!(
        receiver.decrypt_fail_count(),
        1,
        "a batch contributes one failure regardless of packet count"
    );

    let mut valid = data(b"valid");
    encrypt(&mut sender, A_TO_B, &mut valid).unwrap();
    let mut mixed = vec![valid, forged_batch.remove(0)];
    // The second packet is still forged, while the first packet proves the
    // session and clears the old failure streak.
    let outcomes = decrypt_batch(&mut receiver, A_TO_B, &mut mixed);
    assert!(outcomes[0].is_ok());
    assert!(outcomes[1].is_err());
    assert_eq!(receiver.decrypt_fail_count(), 0);
    assert!(receiver.is_valid());

    for _ in 0..DECRYPT_FAIL_THRESHOLD {
        let mut packet = data(b"forged-again");
        encrypt(&mut sender, A_TO_B, &mut packet).unwrap();
        packet.payload[0] ^= 1;
        let outcomes = decrypt_batch(&mut receiver, A_TO_B, &mut vec![packet]);
        assert!(outcomes[0].is_err());
        assert!(receiver.is_valid());
    }
    assert_eq!(receiver.decrypt_fail_count(), DECRYPT_FAIL_THRESHOLD);
}

#[test]
fn batch_decrypt_rejects_reserved_flag_tampering_without_discarding_valid_packets() {
    let root_key = new_key();
    let mut sender = session(root_key, 1, 0);
    let mut receiver = session(root_key, 1, 0);
    let mut packets = vec![data(b"valid-0"), data(b"forged-flag"), data(b"valid-2")];
    encrypt_batch(&mut sender, A_TO_B, &mut packets).unwrap();
    packets[1].header.as_mut().unwrap().flags ^= 0x80;

    let outcomes = decrypt_batch(&mut receiver, A_TO_B, &mut packets);
    assert!(outcomes[0].is_ok());
    assert!(outcomes[1].is_err());
    assert!(outcomes[2].is_ok());
    assert_eq!(packets[0].payload, b"valid-0");
    assert_eq!(packets[2].payload, b"valid-2");
}

#[test]
fn batch_decrypt_marks_both_duplicate_nonce_packets() {
    let root_key = new_key();
    let mut sender = session(root_key, 1, 0);
    let mut receiver = session(root_key, 1, 0);
    let mut packet = data(b"duplicate");
    encrypt(&mut sender, A_TO_B, &mut packet).unwrap();
    let mut packets = vec![packet.clone(), packet];
    let outcomes = decrypt_batch(&mut receiver, A_TO_B, &mut packets);
    assert!(outcomes.iter().all(Result::is_err));
    assert!(decrypt(&mut receiver, A_TO_B, &mut packets[0]).is_ok());
}

#[test]
fn concurrent_nonce_ranges_advance_one_epoch_and_do_not_overlap() {
    let mut session = session(new_key(), 1, 0);
    session
        .reserve_nonce_range(KeyDomain::Fec, B_TO_A, ROTATE_AFTER_PACKETS - 1, NOW)
        .unwrap();
    let ranges = [
        session
            .reserve_nonce_range(KeyDomain::Standard, A_TO_B, 1, NOW)
            .unwrap(),
        session
            .reserve_nonce_range(KeyDomain::Standard, A_TO_B, 1, NOW)
            .unwrap(),
    ];
    assert_eq!(session.send_epoch(), 1);
    assert_ne!(ranges[0], ranges[1]);
}

#[test]
fn fec_only_traffic_contributes_to_epoch_packet_rotation() {
    let mut session = session(new_key(), 1, 0);
    session
        .reserve_nonce_range(KeyDomain::Fec, B_TO_A, ROTATE_AFTER_PACKETS - 1, NOW)
        .unwrap();

    let mut packet = data(b"fec-only");
    encrypt_fec(&mut session, A_TO_B, &mut packet).unwrap();

    assert_eq!(packet.tail_nonce().unwrap().0, 1);
    // Rotation resets the aggregate standard plus FEC packet count.
    session
        .reserve_nonce_range(KeyDomain::Fec, B_TO_A, ROTATE_AFTER_PACKETS - 1, NOW)
        .unwrap();
    assert_eq!(session.send_epoch(), 1);
    session
        .reserve_nonce_range(KeyDomain::Fec, B_TO_A, 1, NOW)
        .unwrap();
    assert_eq!(session.send_epoch(), 2);
}

#[test]
fn fec_only_traffic_rotates_epoch_after_elapsed_time() {
    let mut session = session(new_key(), 1, 0);

    let mut packet = data(b"fec-time");
    encrypt_fec_at(&mut session, A_TO_B, &mut packet, NOW + ROTATE_AFTER_MS + 1).unwrap();

    assert_eq!(packet.tail_nonce().unwrap().0, 1);
}

#[test]
fn forged_fec_does_not_advance_standard_failure_streak_or_invalidate_session() {
    let root_key = new_key();
    let mut sender = session(root_key, 1, 0);
    let mut receiver = session(root_key, 1, 0);

    for _ in 0..FEC_DECRYPT_FAIL_THRESHOLD {
        let mut packet = data(b"forged-fec");
        encrypt_fec(&mut sender, A_TO_B, &mut packet).unwrap();
        packet.payload[0] ^= 1;
        assert!(decrypt_fec(&mut receiver, A_TO_B, &mut packet).is_err());
    }

    assert!(receiver.is_valid());
    assert_eq!(receiver.decrypt_fail_count(), 0);
    assert_eq!(receiver.fec_decrypt_fail_count(), FEC_DECRYPT_FAIL_THRESHOLD);

    let mut valid_fec = data(b"valid-fec");
    encrypt_fec(&mut sender, A_TO_B, &mut valid_fec).unwrap();
    decrypt_fec(&mut receiver, A_TO_B, &mut valid_fec).unwrap();
    assert_eq!(receiver.fec_decrypt_fail_count(), 0);

    let mut standard = data(b"valid-standard");
    encrypt(&mut sender, A_TO_B, &mut standard).unwrap();
    decrypt(&mut receiver, A_TO_B, &mut standard).unwrap();
    assert!(receiver.is_valid());
}

#[test]
fn first_standard_and_fec_packets_reject_far_future_epochs() {
    let root_key = new_key();
    let mut far_future_sender = session(root_key, 1, MAX_ACCEPTED_RX_EPOCH_AHEAD + 1);
    let mut receiver = session(root_key, 1, 0);

    let mut standard = data(b"far-future-standard");
    encrypt(&mut far_future_sender, A_TO_B, &mut standard).unwrap();
    assert!(decrypt(&mut receiver, A_TO_B, &mut standard).is_err());

    let mut fec = data(b"far-future-fec");
    encrypt_fec(&mut far_future_sender, A_TO_B, &mut fec).unwrap();
    assert!(decrypt_fec(&mut receiver, A_TO_B, &mut fec).is_err());

    assert!(receiver.is_valid());
    assert_eq!(receiver.decrypt_fail_count(), 0);
    assert_eq!(receiver.fec_decrypt_fail_count(), 0);
}

#[test]
fn first_standard_packet_uses_authenticated_fec_epoch_as_bound() {
    let root_key = new_key();
    let mut fec_sender = session(root_key, 1, 3);
    let mut standard_sender = session(root_key, 1, 6);
    let mut receiver = session(root_key, 1, 0);

    let mut fec = data(b"authenticated-fec-epoch");
    encrypt_fec(&mut fec_sender, A_TO_B, &mut fec).unwrap();
    decrypt_fec(&mut receiver, A_TO_B, &mut fec).unwrap();

    let mut standard = data(b"standard-after-fec");
    encrypt(&mut standard_sender, A_TO_B, &mut standard).unwrap();
    decrypt(&mut receiver, A_TO_B, &mut standard).unwrap();
}

#[test]
fn first_fec_packet_uses_authenticated_standard_epoch_as_bound() {
    let root_key = new_key();
    let mut standard_sender = session(root_key, 1, 3);
    let mut fec_sender = session(root_key, 1, 6);
    let mut receiver = session(root_key, 1, 0);

    let mut standard = data(b"authenticated-standard-epoch");
    encrypt(&mut standard_sender, A_TO_B, &mut standard).unwrap();
    decrypt(&mut receiver, A_TO_B, &mut standard).unwrap();

    let mut fec = data(b"fec-after-standard");
    encrypt_fec(&mut fec_sender, A_TO_B, &mut fec).unwrap();
    decrypt_fec(&mut receiver, A_TO_B, &mut fec).unwrap();
}

#[test]
fn scalar_decrypt_rejects_stable_header_tampering() {
    let mut mutations: Vec<Box<dyn Fn(&mut PeerHeader)>> = vec![
        Box::new(|header| header.from_peer_id = 11),
        Box::new(|header| header.to_peer_id = 21),
        Box::new(|header| header.packet_type = PACKET_ETHERNET),
        Box::new(|header| header.set_flags(FLAG_EXIT_NODE, true)),
        Box::new(|header| header.set_flags(FLAG_NO_PROXY, true)),
        Box::new(|header| header.set_flags(FLAG_COMPRESSED, true)),
        Box::new(|header| header.set_flags(FLAG_NOT_SEND_TO_TUN, true)),
        Box::new(|header| header.flags ^= 0x80),
        Box::new(|header| header.set_controls(CONTROL_CRITICAL_L2, true)),
        Box::new(|header| header.flow_shard = 7),
        Box::new(|header| header.len = 1),
    ];

    for mutate in mutations.drain(..) {
        let (mut receiver, mut packet) = encrypted_packet_for_aad();
        mutate(packet.header.as_mut().unwrap());
        assert!(decrypt(&mut receiver, A_TO_B, &mut packet).is_err());
    }
}

#[test]
fn scalar_decrypt_allows_forward_and_route_preference_updates() {
    for mutate in [
        Box::new(|header: &mut PeerHeader| {
            header.forward_counter += 1;
        }) as Box<dyn Fn(&mut PeerHeader)>,
        Box::new(|header: &mut PeerHeader| {
            header.set_flags(FLAG_LATENCY_FIRST, true);
        }),
        Box::new(|header: &mut PeerHeader| {
            header.set_controls(CONTROL_SPEED_FIRST, true);
        }),
    ] {
        let (mut receiver, mut packet) = encrypted_packet_for_aad();
        mutate(packet.header.as_mut().unwrap());
        assert!(decrypt(&mut receiver, A_TO_B, &mut packet).is_ok());
    }
}

#[test]
fn replay_rejects_far_future_epoch_without_poisoning_window() {
    let mut s = session(new_key(), 1, 0);

    let now = NOW;

    assert!(s.check_replay(A_TO_B, 0, 1, now));
    assert!(s.check_replay(A_TO_B, 0, 2, now));

    assert!(!s.check_replay(A_TO_B, 1000, 1, now));

    assert!(s.check_replay(A_TO_B, 1, 1, now + 1));
    assert!(s.check_replay(A_TO_B, 1, 2, now + 2));
}

#[test]
fn replay_window_survives_idle_time() {
    let mut session = session(new_key(), 1, 0);
    let now = NOW;

    assert!(session.check_replay(A_TO_B, 0, 7, now));
    assert!(!session.check_replay(A_TO_B, 0, 7, now + 120_000));
}

#[test]
fn failed_decrypt_does_not_poison_replay_window() {
    let root_key = new_key();
    let mut sender = session(root_key, 1, 0);
    let mut receiver = session(root_key, 1, 0);

    let mut pkt0 = data(b"pkt0");
    encrypt(&mut sender, A_TO_B, &mut pkt0).unwrap();
    decrypt(&mut receiver, A_TO_B, &mut pkt0).unwrap();

    let mut forged = data(b"forged");
    encrypt(&mut sender, A_TO_B, &mut forged).unwrap();

    let mut poisoned_nonce = [0u8; 12];
    poisoned_nonce[..4].copy_from_slice(&0u32.to_be_bytes());
    poisoned_nonce[4..].copy_from_slice(&500u64.to_be_bytes());

    let nonce_offset = forged.payload.len() - 12;
    forged.payload[nonce_offset..].copy_from_slice(&poisoned_nonce);

    assert!(decrypt(&mut receiver, A_TO_B, &mut forged).is_err());

    let plaintext = b"pkt2";
    let mut pkt2 = data(plaintext);
    encrypt(&mut sender, A_TO_B, &mut pkt2).unwrap();
    decrypt(&mut receiver, A_TO_B, &mut pkt2).unwrap();
    assert_eq!(pkt2.payload, plaintext);
}

#[test]
fn sync_root_key_allows_any_epoch_from_remote() {
    let mut s = session(new_key(), 1, 0);

    let root_key = s.root_key();
    let now = NOW;
    assert!(s.check_replay(A_TO_B, 0, 0, now));
    assert!(s.check_replay(A_TO_B, 0, 1, now));

    s.sync_root_key(root_key, 2, 2, true, now);

    assert!(s.check_replay(A_TO_B, 0, 10, now + 1));
}

#[test]
fn sync_root_key_keeps_previous_epochs_during_grace_window() {
    let mut s = session(new_key(), 1, 0);

    let root_key = s.root_key();
    let now = NOW;
    assert!(s.check_replay(A_TO_B, 0, 0, now));
    assert!(s.check_replay(A_TO_B, 1, 0, now + 1));

    s.sync_root_key(root_key, 2, 2, true, now);

    assert!(s.check_replay(A_TO_B, 2, 0, now + 2));
    assert!(s.check_replay(A_TO_B, 1, 1, now + 3));
    assert!(s.check_replay(A_TO_B, 0, 1, now + 4));
}

#[test]
fn sync_keeps_target_epoch_replay_state_after_grace() {
    let mut s = session(new_key(), 1, 0);

    let root_key = s.root_key();
    let now = NOW;
    assert!(s.check_replay(A_TO_B, 2, 0, now));

    s.sync_root_key(root_key, 2, 2, true, now);

    assert!(!s.check_replay(A_TO_B, 2, 0, now + 1));
    assert!(!s.check_replay(A_TO_B, 2, 0, now + SYNC_RX_GRACE_AFTER_MS + 1));
}

#[test]
fn sync_root_key_expires_previous_epochs_after_grace_window() {
    let mut s = session(new_key(), 1, 0);

    let root_key = s.root_key();
    let now = NOW;
    assert!(s.check_replay(A_TO_B, 0, 0, now));
    assert!(s.check_replay(A_TO_B, 1, 0, now + 1));

    s.sync_root_key(root_key, 2, 2, true, now);
    assert!(s.check_replay(A_TO_B, 2, 0, now + 2));

    assert!(!s.check_replay(A_TO_B, 0, 1, now + SYNC_RX_GRACE_AFTER_MS + 3));
}

#[test]
fn sync_root_key_does_not_preserve_previous_epochs_when_root_key_changes() {
    let mut s = session(new_key(), 1, 0);

    let now = NOW;
    assert!(s.check_replay(A_TO_B, 0, 0, now));
    assert!(s.check_replay(A_TO_B, 1, 0, now + 1));

    s.sync_root_key(new_key(), 2, 2, true, now);
    assert!(s.check_replay(A_TO_B, 2, 0, now + 2));
    assert!(!s.check_replay(A_TO_B, 1, 1, now + 3));
}

#[test]
fn traffic_keys_differ_between_domains_directions_and_epochs() {
    let root_key = Key32 { hi: 1, lo: 2 };
    let mut s = session(root_key, 1, 4);
    let packet = data(b"keys");
    let standard = s.encrypt_payload(A_TO_B, &packet, NOW).unwrap();
    let other_way = s.encrypt_payload(B_TO_A, &packet, NOW).unwrap();
    let fec = s.encrypt_fec_payload(A_TO_B, &packet, NOW).unwrap();
    let keys = [
        standard.key.to_bytes(),
        other_way.key.to_bytes(),
        fec.key.to_bytes(),
        root_key.to_bytes(),
    ];
    for i in 0..keys.len() {
        for j in 0..i {
            assert_ne!(keys[i], keys[j]);
        }
    }
    assert_eq!(standard.algorithm, "aes-256-gcm");
    assert_eq!((standard.epoch, standard.seq), (4, 0));
    assert_eq!(standard.aad.len(), 16);
    // The same session on the other side derives the same key.
    let mut twin = session(root_key, 1, 4);
    let again = twin.encrypt_payload(A_TO_B, &packet, NOW).unwrap();
    assert_eq!(again.key.to_bytes(), standard.key.to_bytes());
}

#[test]
fn datagram_errors_are_told_apart() {
    let root_key = new_key();
    let mut s = session(root_key, 1, 0);
    let bare = Packet::new_with_payload(b"bare".to_vec());
    assert!(matches!(
        s.encrypt_payload(A_TO_B, &bare, NOW),
        Err(DatagramError::NoPeerHeader)
    ));
    assert!(matches!(
        s.decrypt_payload(A_TO_B, &data(b"plain"), NOW),
        Err(DatagramError::NotEncrypted)
    ));
    let mut short = data(b"short");
    short.header.as_mut().unwrap().flags = 1;
    assert!(matches!(
        s.decrypt_payload(A_TO_B, &short, NOW),
        Err(DatagramError::NoTail)
    ));
    // The packet without a header has used up a nonce.
    assert_eq!(
        s.reserve_nonce_range(KeyDomain::Standard, A_TO_B, 5, NOW),
        Ok((0, 1))
    );
    assert!(matches!(
        s.reserve_nonce_range(KeyDomain::Standard, A_TO_B, u64::MAX, NOW),
        Err(DatagramError::NonceSequenceExhausted)
    ));
    assert_eq!(
        s.check_encrypt_algo_same(&"aes-256-gcm".to_string(), &"other".to_string()),
        Err(DatagramError::AlgorithmMismatch)
    );
    s.invalidate();
    assert!(!s.is_valid());
    assert!(matches!(
        s.encrypt_payload(A_TO_B, &data(b"late"), NOW),
        Err(DatagramError::SessionInvalidated)
    ));
}

#[test]
fn packets_are_refused_again_after_a_synchronization() {
    let now = 1_700_000_000_000;
    let key = Key32::from_bytes(&[9; 32]);
    let mut s = session(key, 1, 0);
    assert!(s.check_replay(A_TO_B, 0, 5, now));
    s.sync_root_key(key, 1, 1, true, now);

    // The grace state remembers what was seen, and what it accepts itself.
    assert!(!s.check_replay(A_TO_B, 0, 5, now + 1));
    assert!(s.check_replay(A_TO_B, 0, 6, now + 1));
    assert!(!s.check_replay(A_TO_B, 0, 6, now + 2));
    assert!(s.check_replay(A_TO_B, 1, 7, now + 2));

    // An epoch that goes on keeps its window.
    s.sync_root_key(key, 1, 1, true, now + 3);
    assert!(!s.check_replay(A_TO_B, 1, 7, now + 4));
    assert!(s.check_replay(A_TO_B, 1, 8, now + 4));
}

#[test]
fn root_keys_are_made_of_two_draws() {
    assert!(root_key_of_draws(Some(1), Some(2)) == Some(Key32 { hi: 1, lo: 2 }));
    assert!(root_key_of_draws(None, Some(2)).is_none());
    assert!(root_key_of_draws(Some(1), None).is_none());
    let key = SecureDatagramSession::new_root_key().unwrap();
    assert!(key.hi != key.lo);
    assert!(key != SecureDatagramSession::new_root_key().unwrap());
}

#[test]
fn a_failed_seal_ends_the_session() {
    let mut s = session(new_key(), 1, 0);
    let packet = data(b"first");
    let request = s.encrypt_payload(A_TO_B, &packet, NOW).ok().unwrap();
    s.finish_encrypt_payload(true);
    assert!(s.is_valid());
    let next = s.encrypt_payload(A_TO_B, &packet, NOW).ok().unwrap();
    assert_eq!((next.epoch, next.seq), (request.epoch, request.seq + 1));

    s.finish_encrypt_payload(false);
    assert!(!s.is_valid());
    assert!(matches!(
        s.encrypt_payload(A_TO_B, &packet, NOW),
        Err(DatagramError::SessionInvalidated)
    ));
    s.finish_encrypt_payload(true);
    assert!(!s.is_valid());
}

#[test]
fn a_batch_keeps_its_valid_packets_across_epochs() {
    let root_key = new_key();
    let mut early = session(root_key, 1, 0);
    let mut late = session(root_key, 1, 1);
    let mut receiver = session(root_key, 1, 0);
    let mut old = vec![data(b"old-0"), data(b"old-1"), data(b"old-2")];
    encrypt_batch(&mut early, A_TO_B, &mut old).unwrap();
    let mut new = vec![data(b"new-0"), data(b"new-1")];
    encrypt_batch(&mut late, A_TO_B, &mut new).unwrap();
    decrypt(&mut receiver, A_TO_B, &mut old[0].clone()).unwrap();

    // Newest first, with a replay, a forgery and a plain packet among them.
    let mut forged = new[0].clone();
    forged.payload[0] ^= 1;
    let mut packets = vec![
        new[1].clone(),
        old[0].clone(),
        forged,
        old[1].clone(),
        data(b"plain"),
        old[2].clone(),
    ];
    let outcomes = decrypt_batch(&mut receiver, A_TO_B, &mut packets);
    assert!(outcomes[0].is_ok());
    assert!(matches!(outcomes[1], Err(DatagramError::ReplayRejected)));
    assert!(matches!(outcomes[2], Err(DatagramError::DecryptFailed)));
    assert!(outcomes[3].is_ok());
    assert!(matches!(outcomes[4], Err(DatagramError::NotEncrypted)));
    assert!(outcomes[5].is_ok());
    assert_eq!(packets[0].payload, b"new-1");
    assert_eq!(packets[3].payload, b"old-1");
    assert_eq!(packets[5].payload, b"old-2");
}
