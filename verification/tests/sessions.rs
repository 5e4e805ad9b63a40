use hmac::{Hmac, Mac};
use sha2::{Digest, Sha256};

use lowertier::bytes::Key32;
use lowertier::initiator_store::InitiatorSessionReservation;
use lowertier::outside::new_uuid;
use lowertier::packet::{Packet, PeerId};
use lowertier::peer_session::PeerSession;
use lowertier::responder_store::UpsertResponderSessionReturn;
use lowertier::secure_datagram::{CipherRequest, SecureDatagramSession};
use lowertier::session_store::{
    PeerSessionStore, SessionId, SessionQuotas, INITIATOR_RECOVERY_LIFETIME_MS,
    MAX_INITIATOR_RECEIPT_RECORDS, MAX_IN_DOUBT_RESERVATIONS, MAX_RESPONDER_RECOVERY_RECORDS,
    SESSION_IDLE_TIMEOUT_MS,
};
use lowertier::session_types::{
    InitiatorTransitionIdentity, PeerSessionAction, SessionError, SessionKey,
};

const NOW: u64 = 1_700_000_000_000;

const SECOND: u64 = 1_000;

fn root_key() -> Key32 {
    PeerSession::new_root_key().unwrap()
}

fn filled(byte: u8) -> Key32 {
    Key32::from_bytes(&[byte; 32])
}

fn id_of(byte: u8) -> u128 {
    u128::from_be_bytes([byte; 16])
}

fn aes() -> String {
    "aes-256-gcm".to_string()
}

fn plain_session(peer_id: PeerId, key: Key32, generation: u32) -> PeerSession {
    PeerSession::new(peer_id, key, generation, 0, aes(), aes(), None, NOW).unwrap()
}

fn prepare(
    store: &mut PeerSessionStore,
    quotas: &mut SessionQuotas,
    key: &SessionKey,
    action: PeerSessionAction,
    epoch: u32,
    static_key: Option<Key32>,
) -> Result<InitiatorSessionReservation, SessionError> {
    store.prepare_initiator_action(
        quotas,
        key,
        action,
        1,
        Some(root_key()),
        epoch,
        aes(),
        aes(),
        static_key,
        NOW,
    )
}

fn prepare_create(
    store: &mut PeerSessionStore,
    quotas: &mut SessionQuotas,
    key: &SessionKey,
) -> Result<InitiatorSessionReservation, SessionError> {
    prepare(store, quotas, key, PeerSessionAction::Create, 0, None)
}

fn prepare_responder(
    store: &mut PeerSessionStore,
    key: &SessionKey,
    static_key: Option<Key32>,
) -> Result<UpsertResponderSessionReturn, SessionError> {
    store.prepare_responder_session(key, aes(), aes(), static_key, NOW)
}

fn with_session<T>(
    store: &mut PeerSessionStore,
    id: SessionId,
    action: impl FnOnce(&mut PeerSession) -> T,
) -> T {
    let mut session = store.take_session(id);
    let result = action(&mut session);
    store.put_session(id, session);
    result
}

fn reserve_static_key(store: &mut PeerSessionStore, id: SessionId, byte: u8) {
    with_session(store, id, |session| {
        session.reserve_peer_static_pubkey(Some(filled(byte)))
    })
    .unwrap();
}

fn receipt_is(
    store: &PeerSessionStore,
    key: &SessionKey,
    identity: &InitiatorTransitionIdentity,
) -> bool {
    store
        .initiator_receipt_identity(key)
        .is_some_and(|found| found.same(identity))
}

fn test_key(name: &str, peer_id: PeerId) -> SessionKey {
    SessionKey::new(name.to_string(), peer_id)
}

#[test]
fn concurrent_responder_creates_publish_only_one_session() {
    let mut store = PeerSessionStore::new();
    let mut quotas = SessionQuotas::new();
    let key = test_key("test", 7);

    // All of them prepare before any of them commits.
    let prepared: Vec<_> = (0..32)
        .filter_map(|_| prepare_responder(&mut store, &key, None).ok())
        .collect();
    let mut published_root_keys = Vec::new();
    for mut prepared in prepared {
        if prepared.action != PeerSessionAction::Create {
            prepared.cancel(&mut store);
            continue;
        }
        let created = store.session(prepared.session).unwrap().root_key();
        let reserved = with_session(&mut store, prepared.session, |session| {
            session.reserve_peer_static_pubkey(Some(filled(0x13)))
        });
        if reserved.is_err() {
            prepared.cancel(&mut store);
            continue;
        }
        match store.commit_prepared_responder_transition(&mut quotas, &key, &mut prepared, NOW) {
            Ok(()) => published_root_keys.push(created),
            Err(_) => prepared.cancel(&mut store),
        }
    }
    assert_eq!(published_root_keys.len(), 1);
    let active = store.get(&key, NOW).unwrap();
    assert!(store.session(active).unwrap().root_key() == published_root_keys[0]);
}

#[test]
fn responder_create_claim_is_exclusive_until_commit_or_cancel() {
    let mut store = PeerSessionStore::new();
    let key = test_key("test", 7);
    let first = prepare_responder(&mut store, &key, None).unwrap();

    assert!(matches!(first.action, PeerSessionAction::Create));
    assert!(prepare_responder(&mut store, &key, None).is_err());

    first.cancel(&mut store);
    assert!(matches!(
        prepare_responder(&mut store, &key, None).unwrap().action,
        PeerSessionAction::Create
    ));
}

#[test]
fn canceled_sync_reservation_does_not_consume_epochs() {
    let mut session = plain_session(7, root_key(), 1);

    let (_, _, first_epoch, first_revision) = session.prepare_sync_transition().unwrap();
    assert!(session.prepare_sync_transition().is_err());
    session.cancel_reserved_sync(first_revision, first_epoch);

    let (_, _, second_epoch, second_revision) = session.prepare_sync_transition().unwrap();
    assert_eq!(second_epoch, first_epoch);
    assert_ne!(second_revision, first_revision);
    assert!(!session.invalidate_if_revision(first_revision));
}

#[test]
fn initiator_create_stays_private_until_commit_and_cancel_releases_claim() {
    let mut store = PeerSessionStore::new();
    let mut quotas = SessionQuotas::new();
    let key = test_key("test", 9);
    let mut reservation = prepare_create(&mut store, &mut quotas, &key).unwrap();
    assert!(store.peek(&key).is_none());
    assert!(prepare_create(&mut store, &mut quotas, &key).is_err());
    reservation.cancel(&mut store, &mut quotas);
    assert!(store.peek(&key).is_none());

    let mut reservation = prepare_create(&mut store, &mut quotas, &key).unwrap();
    let expected = reservation.session();
    let committed = reservation.commit(&mut store, &mut quotas, NOW).unwrap();
    assert_eq!(expected, committed);
    assert_eq!(store.peek(&key), Some(expected));
}

#[test]
fn initiator_sync_stages_keys_and_rejects_stale_timeout() {
    let mut store = PeerSessionStore::new();
    let mut quotas = SessionQuotas::new();
    let key = test_key("test", 10);
    let old_root = root_key();
    let session = store
        .insert_session(&key, plain_session(key.peer_id, old_root, 1), NOW)
        .unwrap();

    let mut first = prepare(
        &mut store,
        &mut quotas,
        &key,
        PeerSessionAction::Sync,
        1,
        None,
    )
    .unwrap();
    let first_revision = first.transition_revision();
    assert!(store.session(session).unwrap().root_key() == old_root);
    first.cancel(&mut store, &mut quotas);

    let second_root = root_key();
    let mut second = store
        .prepare_initiator_action(
            &mut quotas,
            &key,
            PeerSessionAction::Sync,
            1,
            Some(second_root),
            1,
            aes(),
            aes(),
            None,
            NOW,
        )
        .unwrap();
    assert_ne!(second.transition_revision(), first_revision);
    assert!(!with_session(&mut store, session, |session| session
        .invalidate_if_revision(first_revision)));
    assert!(store.session_is_valid(session));
    second.commit(&mut store, &mut quotas, NOW).unwrap();
    assert!(store.session(session).unwrap().root_key() == second_root);
}

#[test]
fn responder_static_key_is_published_only_at_sync_commit() {
    let mut store = PeerSessionStore::new();
    let mut quotas = SessionQuotas::new();
    let key = test_key("test", 11);
    let current = store
        .insert_session(&key, plain_session(key.peer_id, root_key(), 1), NOW)
        .unwrap();
    let static_key = filled(3);
    let mut prepared = prepare_responder(&mut store, &key, Some(static_key)).unwrap();
    assert!(store.session(current).unwrap().peer_static_pubkey().is_none());
    store
        .commit_prepared_responder_transition(&mut quotas, &key, &mut prepared, NOW)
        .unwrap();
    assert!(store.session(current).unwrap().peer_static_pubkey() == Some(static_key));
}

#[test]
fn removing_old_session_cannot_remove_a_replacement() {
    let mut store = PeerSessionStore::new();
    let key = test_key("test", 12);
    let old = store
        .insert_session(&key, plain_session(key.peer_id, root_key(), 1), NOW)
        .unwrap();
    store.invalidate_session(old);
    let replacement = store
        .insert_session(&key, plain_session(key.peer_id, root_key(), 2), NOW)
        .unwrap();
    store.remove_if_same(&key, old);
    assert_eq!(store.peek(&key), Some(replacement));
}

#[test]
fn suspended_initiator_reservation_resumes_only_with_exact_identity() {
    let mut store = PeerSessionStore::new();
    let mut quotas = SessionQuotas::new();
    let key = test_key("test", 13);
    let reservation = prepare_create(&mut store, &mut quotas, &key).unwrap();
    let expected = reservation.session();
    let responder_metadata = new_uuid().unwrap();
    let identity = reservation.transition_identity_with_session_metadata(responder_metadata);
    reservation
        .suspend_with_session_metadata(&mut store, &mut quotas, responder_metadata, SECOND)
        .unwrap();
    assert_eq!(store.in_doubt_reservation_count(), 1);
    let mut mismatch = identity.duplicate();
    mismatch.transition_id ^= 1;
    assert!(store.resume_initiator_reservation(&mismatch).is_err());
    assert_eq!(store.in_doubt_reservation_count(), 1);
    let mut resumed = store.resume_initiator_reservation(&identity).ok().unwrap();
    assert_eq!(resumed.session(), expected);
    resumed.commit(&mut store, &mut quotas, NOW).unwrap();
    assert_eq!(store.in_doubt_reservation_count(), 0);
}

#[test]
fn exact_recovery_static_key_check_reads_pending_key_without_consuming_state() {
    let mut store = PeerSessionStore::new();
    let mut quotas = SessionQuotas::new();
    let key = test_key("test", 15);
    store
        .insert_session(&key, plain_session(key.peer_id, root_key(), 1), NOW)
        .unwrap();
    let expected_key = filled(0x52);
    let reservation = prepare(
        &mut store,
        &mut quotas,
        &key,
        PeerSessionAction::Sync,
        1,
        Some(expected_key),
    )
    .unwrap();
    let identity = reservation.transition_identity(&store);
    reservation.suspend(&mut store, &mut quotas, SECOND).unwrap();

    assert!(store
        .check_in_doubt_recovery_peer_static_pubkey(&identity, Some(expected_key))
        .unwrap());
    assert!(!store
        .check_in_doubt_recovery_peer_static_pubkey(&identity, Some(filled(0x53)))
        .unwrap());
    assert!(!store
        .check_in_doubt_recovery_peer_static_pubkey(&identity, None)
        .unwrap());
    assert_eq!(store.in_doubt_reservation_count(), 1);
    assert!(store.cancel_initiator_reservation_exact(&mut quotas, &identity));
}

#[test]
fn suspended_initiator_reservation_is_not_rolled_back_by_time() {
    let mut store = PeerSessionStore::new();
    let mut quotas = SessionQuotas::new();
    let key = test_key("test", 14);
    let reservation = prepare_create(&mut store, &mut quotas, &key).unwrap();
    reservation.suspend(&mut store, &mut quotas, 1).unwrap();
    assert_eq!(store.expire_in_doubt_sessions(), 0);
    assert_eq!(store.in_doubt_reservation_count(), 1);
    assert!(store.peek(&key).is_none());
    assert!(store
        .prepare_initiator_action(
            &mut quotas,
            &key,
            PeerSessionAction::Create,
            1,
            Some(root_key()),
            0,
            aes(),
            aes(),
            None,
            NOW + 5,
        )
        .is_err());
    let identity = store.in_doubt_identity(&key).unwrap();
    assert!(store.cancel_initiator_reservation_exact(&mut quotas, &identity));
    assert_eq!(store.in_doubt_reservation_count(), 0);
}

fn responder_identity(
    store: &PeerSessionStore,
    key: &SessionKey,
    prepared: &UpsertResponderSessionReturn,
) -> InitiatorTransitionIdentity {
    InitiatorTransitionIdentity::new(
        key.duplicate(),
        store
            .session(prepared.session)
            .unwrap()
            .metadata_session_id(),
        prepared.action,
        prepared.session_generation,
        prepared.initial_epoch,
        prepared.transition_id(),
        InitiatorTransitionIdentity::digest_root_key(&prepared.root_key.unwrap()),
    )
}

#[test]
fn active_responder_transition_reconciles_without_staging() {
    let mut store = PeerSessionStore::new();
    let mut quotas = SessionQuotas::new();
    let key = test_key("test", 15);
    let mut prepared = prepare_responder(&mut store, &key, None).unwrap();
    reserve_static_key(&mut store, prepared.session, 0x11);
    let identity = responder_identity(&store, &key, &prepared);
    store
        .commit_prepared_responder_transition(&mut quotas, &key, &mut prepared, NOW)
        .unwrap();
    let recovery = store
        .reconcile_active_responder_transition(&mut quotas, &identity, NOW)
        .unwrap();
    assert_eq!(recovery.session, prepared.session);
    assert_eq!(recovery.action, PeerSessionAction::Create);
    assert_eq!(recovery.transition_id, identity.transition_id);
    assert!(recovery.root_key == prepared.root_key.unwrap());
}

#[test]
fn responder_proof_does_not_expire_before_authenticated_acknowledgement() {
    let mut store = PeerSessionStore::new();
    let mut quotas = SessionQuotas::new();
    let key = test_key("expired-proof", 151);
    let mut prepared = prepare_responder(&mut store, &key, None).unwrap();
    reserve_static_key(&mut store, prepared.session, 0x12);
    let identity = responder_identity(&store, &key, &prepared);
    store
        .commit_prepared_responder_transition(&mut quotas, &key, &mut prepared, NOW)
        .unwrap();
    let before = quotas.responder_recoveries;

    assert_eq!(store.expire_responder_recoveries(&mut quotas, NOW), 0);

    assert_eq!(quotas.responder_recoveries, before);
    assert!(store.has_responder_recovery(&mut quotas, &key, NOW));
    assert!(store
        .reconcile_active_responder_transition(&mut quotas, &identity, NOW)
        .is_some());
}

#[test]
fn responder_recovery_proof_requires_exact_acknowledgement() {
    let mut store = PeerSessionStore::new();
    let mut quotas = SessionQuotas::new();
    let key = test_key("proof", 16);
    let mut prepared = prepare_responder(&mut store, &key, None).unwrap();
    let transition_id = prepared.transition_id();
    reserve_static_key(&mut store, prepared.session, 0x15);
    store
        .commit_prepared_responder_transition(&mut quotas, &key, &mut prepared, NOW)
        .unwrap();
    assert!(!store.acknowledge_responder_recovery(&mut quotas, &key, id_of(1), NOW));
    assert!(store.recovery_of(&key).is_some());
    assert!(store.acknowledge_responder_recovery(&mut quotas, &key, transition_id, NOW));
    assert!(store.recovery_of(&key).is_none());
}

#[test]
fn responder_recovery_dependency_survives_drop_until_authenticated_commit() {
    let mut store = PeerSessionStore::new();
    let mut quotas = SessionQuotas::new();
    let key = test_key("proof-dependency", 18);
    let mut first = prepare_responder(&mut store, &key, None).unwrap();
    let old_id = first.transition_id();
    reserve_static_key(&mut store, first.session, 0x16);
    store
        .commit_prepared_responder_transition(&mut quotas, &key, &mut first, NOW)
        .unwrap();

    let mut staged = store
        .prepare_responder_session_with_recovery_proof(
            &mut quotas,
            &key,
            old_id,
            aes(),
            aes(),
            None,
            NOW,
        )
        .unwrap();
    assert_eq!(staged.proof_dependency(), Some(old_id));
    assert!(!staged.proof_dependency_cleared());
    assert!(store
        .commit_prepared_responder_transition(&mut quotas, &key, &mut staged, NOW)
        .is_err());
    staged.cancel(&mut store);
    assert_eq!(
        store.responder_recovery_id(&mut quotas, &key, NOW),
        Some(old_id)
    );
    assert!(prepare_responder(&mut store, &key, None).is_err());

    let mut staged = store
        .prepare_responder_session_with_recovery_proof(
            &mut quotas,
            &key,
            old_id,
            aes(),
            aes(),
            None,
            NOW,
        )
        .unwrap();
    assert!(staged.authenticate_recovery(&mut store).is_ok());
    assert!(staged.proof_dependency_cleared());
    store
        .commit_prepared_responder_transition(&mut quotas, &key, &mut staged, NOW)
        .unwrap();
    assert_ne!(
        store.responder_recovery_id(&mut quotas, &key, NOW),
        Some(old_id)
    );
}

#[test]
fn initiator_receipt_pins_session_until_exact_acknowledgement() {
    let mut store = PeerSessionStore::new();
    let mut quotas = SessionQuotas::new();
    let key = test_key("receipt", 17);
    let mut reservation = prepare_create(&mut store, &mut quotas, &key).unwrap();
    let session = reservation.commit(&mut store, &mut quotas, NOW).unwrap();
    let identity = reservation.transition_identity_with_session_metadata(new_uuid().unwrap());
    store
        .record_initiator_receipt(&mut quotas, identity.duplicate(), session)
        .unwrap();
    store.evict_unused_sessions_idle(&mut quotas, &Vec::new(), 0, NOW);
    assert!(store.peek(&key).is_some());
    assert_ne!(store.initiator_receipt_id(&key), Some(0));
    assert!(!store.acknowledge_initiator_receipt(&mut quotas, &key, id_of(9)));
    assert!(store.acknowledge_initiator_receipt(&mut quotas, &key, identity.transition_id));
    store.evict_unused_sessions_idle(&mut quotas, &Vec::new(), 0, NOW);
    assert!(store.peek(&key).is_none());
}

#[test]
fn verified_peer_removal_clears_lost_ack_receipt_only_for_matching_key() {
    let mut store = PeerSessionStore::new();
    let mut quotas = SessionQuotas::new();
    let key = test_key("receipt-removal", 22);
    let peer_static_pubkey = filled(0xA5);
    let mut reservation = prepare(
        &mut store,
        &mut quotas,
        &key,
        PeerSessionAction::Create,
        0,
        Some(peer_static_pubkey),
    )
    .unwrap();
    let session = reservation.commit(&mut store, &mut quotas, NOW).unwrap();
    let identity = reservation.transition_identity_with_session_metadata(new_uuid().unwrap());
    store
        .record_initiator_receipt(&mut quotas, identity, session)
        .unwrap();

    assert!(!store.clear_peer_records_if_static_key_matches(&mut quotas, &key, filled(0x5A)));
    assert!(store.peek(&key).is_some());
    assert!(store.initiator_receipt_id(&key).is_some());

    assert!(store.clear_peer_records_if_static_key_matches(&mut quotas, &key, peer_static_pubkey));
    assert!(store.peek(&key).is_none());
    assert!(store.initiator_receipt_id(&key).is_none());
    assert!(!store.session_is_valid(session));
}

#[test]
fn initiator_receipt_conflict_does_not_publish_pending_create() {
    let mut store = PeerSessionStore::new();
    let mut quotas = SessionQuotas::new();
    let key = test_key("receipt-conflict", 19);
    let mut reservation = prepare_create(&mut store, &mut quotas, &key).unwrap();
    let identity = reservation.transition_identity_with_session_metadata(new_uuid().unwrap());
    store
        .record_initiator_receipt(&mut quotas, identity.duplicate(), reservation.session())
        .unwrap();

    assert!(reservation
        .commit_with_receipt(&mut store, &mut quotas, identity.duplicate(), NOW)
        .is_err());
    assert!(store.peek(&key).is_none());
    assert!(receipt_is(&store, &key, &identity));
    assert!(store.acknowledge_initiator_receipt_exact(&mut quotas, &identity));
}

#[test]
fn initiator_receipt_quota_failure_does_not_publish_or_commit() {
    let mut quotas = SessionQuotas::new();
    let mut retained = Vec::with_capacity(MAX_INITIATOR_RECEIPT_RECORDS);
    for peer_id in 0..MAX_INITIATOR_RECEIPT_RECORDS as PeerId {
        let mut store = PeerSessionStore::new();
        let key = test_key("receipt-full", peer_id);
        let root = root_key();
        let session = store
            .insert_session(
                &test_key("receipt-holder", peer_id),
                plain_session(peer_id, root, 1),
                NOW,
            )
            .unwrap();
        let identity = InitiatorTransitionIdentity::new(
            key.duplicate(),
            new_uuid().unwrap(),
            PeerSessionAction::Create,
            1,
            0,
            id_of((peer_id as u8) | 1),
            InitiatorTransitionIdentity::digest_root_key(&root),
        );
        store
            .record_initiator_receipt(&mut quotas, identity.duplicate(), session)
            .unwrap();
        retained.push((store, key, identity));
    }

    let mut store = PeerSessionStore::new();
    let key = test_key("receipt-full", 1_000);
    let mut reservation = prepare_create(&mut store, &mut quotas, &key).unwrap();
    let identity = reservation.transition_identity_with_session_metadata(new_uuid().unwrap());
    assert!(reservation
        .commit_with_receipt(&mut store, &mut quotas, identity, NOW)
        .is_err());
    assert!(store.peek(&key).is_none());
    assert!(store.initiator_receipt_identity(&key).is_none());

    for (mut store, key, identity) in retained {
        assert!(store.acknowledge_initiator_receipt_exact(&mut quotas, &identity));
        assert!(store.initiator_receipt_identity(&key).is_none());
    }
}

#[test]
fn initiator_receipt_commit_failure_cleans_up_without_history() {
    let mut store = PeerSessionStore::new();
    let mut quotas = SessionQuotas::new();
    let key = test_key("receipt-failure", 20);
    let mut reservation = prepare_create(&mut store, &mut quotas, &key).unwrap();
    let session = reservation.session();
    let identity = reservation.transition_identity_with_session_metadata(new_uuid().unwrap());
    store.invalidate_session(session);
    assert!(reservation
        .commit_with_receipt(&mut store, &mut quotas, identity, NOW)
        .is_err());
    assert!(store.peek(&key).is_none());
    assert!(store.initiator_receipt_identity(&key).is_none());
    assert!(store
        .session(session)
        .is_none_or(|session| session.last_committed_transition().is_none()));
}

#[test]
fn initiator_receipt_replacement_restores_previous_receipt_on_failure() {
    let mut store = PeerSessionStore::new();
    let mut quotas = SessionQuotas::new();
    let key = test_key("receipt-replacement", 21);
    let mut first = prepare_create(&mut store, &mut quotas, &key).unwrap();
    let first_identity = first.transition_identity_with_session_metadata(new_uuid().unwrap());
    let session = first.commit(&mut store, &mut quotas, NOW).unwrap();
    store
        .record_initiator_receipt(&mut quotas, first_identity.duplicate(), session)
        .unwrap();

    let epoch = store.session(session).unwrap().next_sync_epoch();
    let mut second = prepare(
        &mut store,
        &mut quotas,
        &key,
        PeerSessionAction::Sync,
        epoch,
        None,
    )
    .unwrap();
    let second_identity = second.transition_identity_with_session_metadata(new_uuid().unwrap());
    second
        .commit_with_receipt_replacing(
            &mut store,
            &mut quotas,
            second_identity.duplicate(),
            Some(first_identity.duplicate()),
            NOW,
        )
        .unwrap();
    assert!(receipt_is(&store, &key, &second_identity));

    let epoch = store.session(session).unwrap().next_sync_epoch();
    let mut third = prepare(
        &mut store,
        &mut quotas,
        &key,
        PeerSessionAction::Sync,
        epoch,
        None,
    )
    .unwrap();
    let third_identity = third.transition_identity_with_session_metadata(new_uuid().unwrap());
    store.invalidate_session(session);
    assert!(third
        .commit_with_receipt_replacing(
            &mut store,
            &mut quotas,
            third_identity,
            Some(second_identity.duplicate()),
            NOW,
        )
        .is_err());
    assert!(receipt_is(&store, &key, &second_identity));
    assert!(store.acknowledge_initiator_receipt_exact(&mut quotas, &second_identity));
}

#[test]
fn initiator_receipt_replacement_allows_prior_ack_race() {
    let mut store = PeerSessionStore::new();
    let mut quotas = SessionQuotas::new();
    let baseline = quotas.initiator_receipts;
    let key = test_key("receipt-ack-race", 23);
    let mut first = prepare_create(&mut store, &mut quotas, &key).unwrap();
    let first_identity = first.transition_identity_with_session_metadata(new_uuid().unwrap());
    let session = first.commit(&mut store, &mut quotas, NOW).unwrap();
    store
        .record_initiator_receipt(&mut quotas, first_identity.duplicate(), session)
        .unwrap();
    assert_eq!(quotas.initiator_receipts, baseline + 1);

    // Snapshot the prior receipt by preparing the next transition first,
    // then model its first authenticated ReadyReceiptAck arriving before
    // the new transition commits.
    let epoch = store.session(session).unwrap().next_sync_epoch();
    let mut second = prepare(
        &mut store,
        &mut quotas,
        &key,
        PeerSessionAction::Sync,
        epoch,
        None,
    )
    .unwrap();
    let second_identity = second.transition_identity_with_session_metadata(new_uuid().unwrap());
    assert!(store.acknowledge_initiator_receipt_exact(&mut quotas, &first_identity));
    assert_eq!(quotas.initiator_receipts, baseline);

    second
        .commit_with_receipt_replacing(
            &mut store,
            &mut quotas,
            second_identity.duplicate(),
            Some(first_identity),
            NOW,
        )
        .unwrap();
    assert!(receipt_is(&store, &key, &second_identity));
    assert_eq!(quotas.initiator_receipts, baseline + 1);
    assert!(store.acknowledge_initiator_receipt_exact(&mut quotas, &second_identity));
    assert_eq!(quotas.initiator_receipts, baseline);
}

#[test]
fn initiator_receipt_replacement_rejects_competing_receipt() {
    let mut store = PeerSessionStore::new();
    let mut quotas = SessionQuotas::new();
    let key = test_key("receipt-competing-race", 24);
    let mut first = prepare_create(&mut store, &mut quotas, &key).unwrap();
    let first_identity = first.transition_identity_with_session_metadata(new_uuid().unwrap());
    let session = first.commit(&mut store, &mut quotas, NOW).unwrap();
    store
        .record_initiator_receipt(&mut quotas, first_identity.duplicate(), session)
        .unwrap();

    let epoch = store.session(session).unwrap().next_sync_epoch();
    let mut second = prepare(
        &mut store,
        &mut quotas,
        &key,
        PeerSessionAction::Sync,
        epoch,
        None,
    )
    .unwrap();
    let second_identity = second.transition_identity_with_session_metadata(new_uuid().unwrap());
    assert!(store.acknowledge_initiator_receipt_exact(&mut quotas, &first_identity));

    let mut competing_identity = first_identity.duplicate();
    competing_identity.transition_id = id_of(0xA5);
    store
        .record_initiator_receipt(&mut quotas, competing_identity.duplicate(), session)
        .unwrap();
    assert!(second
        .commit_with_receipt_replacing(
            &mut store,
            &mut quotas,
            second_identity,
            Some(first_identity),
            NOW,
        )
        .is_err());
    assert!(receipt_is(&store, &key, &competing_identity));
    assert!(store.acknowledge_initiator_receipt_exact(&mut quotas, &competing_identity));
}

#[test]
fn responder_proof_replacement_reuses_quota_at_global_limit() {
    let mut quotas = SessionQuotas::new();
    let mut retained = Vec::with_capacity(MAX_RESPONDER_RECOVERY_RECORDS);
    while quotas.responder_recoveries < MAX_RESPONDER_RECOVERY_RECORDS {
        let peer_id = retained.len() as PeerId + 2_000;
        let mut store = PeerSessionStore::new();
        let key = test_key("proof-full", peer_id);
        let mut prepared = prepare_responder(&mut store, &key, None).unwrap();
        let transition_id = prepared.transition_id();
        reserve_static_key(&mut store, prepared.session, 0x14);
        store
            .commit_prepared_responder_transition(&mut quotas, &key, &mut prepared, NOW)
            .unwrap();
        retained.push((store, key, transition_id));
    }
    assert_eq!(quotas.responder_recoveries, MAX_RESPONDER_RECOVERY_RECORDS);

    let (target_store, target_key, old_id) = {
        let (store, key, transition_id) = &mut retained[0];
        (store, key.duplicate(), *transition_id)
    };
    let mut staged = target_store
        .prepare_responder_session_with_recovery_proof(
            &mut quotas,
            &target_key,
            old_id,
            aes(),
            aes(),
            None,
            NOW,
        )
        .unwrap();
    staged.authenticate_recovery(target_store).unwrap();
    target_store
        .commit_prepared_responder_transition(&mut quotas, &target_key, &mut staged, NOW)
        .unwrap();
    assert_eq!(quotas.responder_recoveries, MAX_RESPONDER_RECOVERY_RECORDS);
    let replacement_id = target_store
        .responder_recovery_id(&mut quotas, &target_key, NOW)
        .unwrap();
    assert_ne!(replacement_id, old_id);

    let mut failed = target_store
        .prepare_responder_session_with_recovery_proof(
            &mut quotas,
            &target_key,
            replacement_id,
            aes(),
            aes(),
            None,
            NOW,
        )
        .unwrap();
    failed.authenticate_recovery(target_store).unwrap();
    target_store.invalidate_session(failed.session);
    assert!(target_store
        .commit_prepared_responder_transition(&mut quotas, &target_key, &mut failed, NOW)
        .is_err());
    failed.cancel(target_store);
    failed.restore_uncommitted_proof(target_store, &mut quotas);
    assert_eq!(
        target_store.responder_recovery_id(&mut quotas, &target_key, NOW),
        Some(replacement_id)
    );
    assert_eq!(quotas.responder_recoveries, MAX_RESPONDER_RECOVERY_RECORDS);
    retained[0].2 = replacement_id;

    for (mut store, key, transition_id) in retained {
        assert!(store.acknowledge_responder_recovery(&mut quotas, &key, transition_id, NOW));
    }
}

#[test]
fn in_doubt_reservations_have_a_global_capacity_bound() {
    let mut store = PeerSessionStore::new();
    let mut quotas = SessionQuotas::new();
    let mut identities = Vec::with_capacity(MAX_IN_DOUBT_RESERVATIONS);
    for peer_id in 0..MAX_IN_DOUBT_RESERVATIONS as PeerId {
        let key = test_key("capacity", peer_id);
        let reservation = prepare_create(&mut store, &mut quotas, &key).unwrap();
        let identity = reservation.transition_identity(&store);
        reservation.suspend(&mut store, &mut quotas, SECOND).unwrap();
        identities.push(identity);
    }
    assert_eq!(store.in_doubt_reservation_count(), MAX_IN_DOUBT_RESERVATIONS);
    let key = test_key("capacity", MAX_IN_DOUBT_RESERVATIONS as PeerId);
    assert!(prepare_create(&mut store, &mut quotas, &key).is_err());
    assert_eq!(store.in_doubt_reservation_count(), MAX_IN_DOUBT_RESERVATIONS);
    // An exact authenticated reset releases one permit before a new
    // transition reserves recovery state.
    let released = identities.remove(0);
    assert!(store.cancel_initiator_reservation_exact(&mut quotas, &released));
    let reset_key = test_key("capacity-reset", 1);
    let reset_reservation = prepare_create(&mut store, &mut quotas, &reset_key).unwrap();
    let reset_identity = reset_reservation.transition_identity(&store);
    reset_reservation
        .suspend(&mut store, &mut quotas, SECOND)
        .unwrap();
    assert_eq!(store.in_doubt_reservation_count(), MAX_IN_DOUBT_RESERVATIONS);
    assert!(store.cancel_initiator_reservation_exact(&mut quotas, &reset_identity));
    for identity in identities {
        assert!(store.cancel_initiator_reservation_exact(&mut quotas, &identity));
    }
    assert_eq!(store.in_doubt_reservation_count(), 0);
}

fn pad(request: &CipherRequest, len: usize) -> Vec<u8> {
    let mut hash = Sha256::new();
    hash.update(request.key.to_bytes());
    hash.update(request.algorithm.as_bytes());
    hash.update(request.nonce());
    hash.finalize()[..len].to_vec()
}

fn code(request: &CipherRequest, ciphertext: &[u8]) -> u128 {
    let mut mac = <Hmac<Sha256> as Mac>::new_from_slice(&request.key.to_bytes()).unwrap();
    mac.update(request.algorithm.as_bytes());
    mac.update(&request.aad);
    mac.update(ciphertext);
    u128::from_be_bytes(mac.finalize().into_bytes()[..16].try_into().unwrap())
}

fn seal(request: &CipherRequest, packet: &mut Packet) {
    let stream = pad(request, packet.payload.len());
    let body: Vec<u8> = packet.payload.iter().zip(stream).map(|(a, b)| a ^ b).collect();
    packet.set_sealed(&body, code(request, &body), request.epoch, request.seq);
}

fn open(request: &CipherRequest, packet: &Packet) -> Option<Vec<u8>> {
    let body = &packet.payload[..packet.payload.len() - 28];
    let at = body.len();
    let found = u128::from_be_bytes(packet.payload[at..at + 16].try_into().unwrap());
    (code(request, body) == found)
        .then_some(body.iter().zip(pad(request, at)).map(|(a, b)| a ^ b).collect())
}

fn send(
    from: &mut PeerSession,
    to: &mut PeerSession,
    sender: PeerId,
    receiver: PeerId,
    packet: &mut Packet,
) {
    let request = from.encrypt_payload(sender, receiver, packet, NOW).ok().unwrap();
    seal(&request, packet);
    let request = to.decrypt_payload(sender, receiver, packet, NOW).ok().unwrap();
    let opened = open(&request, packet);
    to.finish_decrypt_payload(
        sender,
        receiver,
        request.epoch,
        request.seq,
        opened.is_some(),
        NOW,
    )
    .unwrap();
    packet.set_opened(opened.unwrap());
}

#[test]
fn peer_session_supports_asymmetric_algorithms() {
    let a: PeerId = 10;
    let b: PeerId = 20;
    let root_key = root_key();
    let generation = 1u32;
    let initial_epoch = 0u32;

    let mut sa = PeerSession::new(
        b,
        root_key,
        generation,
        initial_epoch,
        "aes-256-gcm".to_string(),
        "chacha20-poly1305".to_string(),
        None,
        NOW,
    )
    .unwrap();
    let mut sb = PeerSession::new(
        a,
        root_key,
        generation,
        initial_epoch,
        "chacha20-poly1305".to_string(),
        "aes-256-gcm".to_string(),
        None,
        NOW,
    )
    .unwrap();

    let plaintext1 = b"hello from a";
    let mut pkt1 = Packet::new_with_payload(plaintext1.to_vec());
    pkt1.fill_peer_manager_hdr(a, b, 0);
    send(&mut sa, &mut sb, a, b, &mut pkt1);
    assert_eq!(pkt1.payload, plaintext1);

    let plaintext2 = b"hello from b";
    let mut pkt2 = Packet::new_with_payload(plaintext2.to_vec());
    pkt2.fill_peer_manager_hdr(b, a, 0);
    send(&mut sb, &mut sa, b, a, &mut pkt2);
    assert_eq!(pkt2.payload, plaintext2);
}

#[test]
fn sync_root_key_preserves_generic_grace_window_constant() {
    assert_eq!(
        PeerSession::SYNC_RX_GRACE_AFTER_MS,
        SecureDatagramSession::SYNC_RX_GRACE_AFTER_MS
    );
}

fn gcm_session(peer_id: PeerId) -> PeerSession {
    PeerSession::new(
        peer_id,
        root_key(),
        1,
        0,
        "aes-gcm".to_string(),
        "aes-gcm".to_string(),
        None,
        NOW,
    )
    .unwrap()
}

#[test]
fn peer_session_store_keeps_recent_session_without_external_refs() {
    let mut store = PeerSessionStore::new();
    let mut quotas = SessionQuotas::new();
    let key = test_key("net", 20);
    store.insert_session(&key, gcm_session(20), NOW).unwrap();

    assert!(store.get(&key, NOW).is_some());
    store.evict_unused_sessions(&mut quotas, &Vec::new(), NOW);

    assert!(
        store.get(&key, NOW).is_some(),
        "recent relay sessions should survive the periodic GC"
    );
}

#[test]
fn peer_session_store_evicts_idle_session_without_external_refs() {
    let mut store = PeerSessionStore::new();
    let mut quotas = SessionQuotas::new();
    let key = test_key("net", 20);
    store.insert_session(&key, gcm_session(20), NOW).unwrap();

    store.evict_unused_sessions_idle(&mut quotas, &Vec::new(), 0, NOW);

    assert!(
        store.get(&key, NOW).is_none(),
        "idle sessions without external users should still be collected"
    );
}

#[test]
fn peer_session_store_evicts_invalid_recent_session() {
    let mut store = PeerSessionStore::new();
    let mut quotas = SessionQuotas::new();
    let key = test_key("net", 20);
    store.insert_session(&key, gcm_session(20), NOW).unwrap();

    let session = store.get(&key, NOW).unwrap();
    store.invalidate_session(session);
    store.evict_unused_sessions(&mut quotas, &Vec::new(), NOW);

    assert!(
        store.active_of(&key).is_none(),
        "invalid sessions should not be kept by recent activity"
    );
}

#[test]
fn sessions_in_use_survive_idle_time() {
    let mut store = PeerSessionStore::new();
    let mut quotas = SessionQuotas::new();
    let key = test_key("net", 20);
    let other = test_key("net", 21);
    let used = store.insert_session(&key, gcm_session(20), NOW).unwrap();
    store.insert_session(&other, gcm_session(21), NOW).unwrap();
    let later = NOW + SESSION_IDLE_TIMEOUT_MS;
    store.evict_unused_sessions(&mut quotas, &vec![used], later);
    assert_eq!(store.peek(&key), Some(used));
    assert!(store.peek(&other).is_none());
}

#[test]
fn proofs_outlive_their_time_and_are_dropped() {
    let mut store = PeerSessionStore::new();
    let mut quotas = SessionQuotas::new();
    let key = test_key("proof-time", 8);
    let mut prepared = prepare_responder(&mut store, &key, Some(filled(9))).unwrap();
    store
        .commit_prepared_responder_transition(&mut quotas, &key, &mut prepared, NOW)
        .unwrap();
    assert_eq!(quotas.responder_recoveries, 1);
    assert!(!store.has_responder_recovery(&mut quotas, &key, NOW + INITIATOR_RECOVERY_LIFETIME_MS));
    assert_eq!(quotas.responder_recoveries, 0);
    assert!(!store.session_is_valid(prepared.session));
}

#[test]
fn session_errors_are_told_apart() {
    let mut store = PeerSessionStore::new();
    let mut quotas = SessionQuotas::new();
    let key = test_key("errors", 1);
    assert!(matches!(
        prepare(&mut store, &mut quotas, &key, PeerSessionAction::Join, 0, None),
        Err(SessionError::NoLocalSession)
    ));
    let missing_key = store.prepare_initiator_action(
        &mut quotas,
        &key,
        PeerSessionAction::Create,
        1,
        None,
        0,
        aes(),
        aes(),
        None,
        NOW,
    );
    assert!(matches!(missing_key, Err(SessionError::MissingRootKey)));
    store
        .insert_session(&key, plain_session(1, root_key(), 3), NOW)
        .unwrap();
    let other_generation = prepare(&mut store, &mut quotas, &key, PeerSessionAction::Join, 0, None);
    assert!(matches!(
        other_generation,
        Err(SessionError::GenerationMismatch)
    ));
    let other_algorithm = store.prepare_initiator_action(
        &mut quotas,
        &key,
        PeerSessionAction::Join,
        3,
        None,
        0,
        "chacha20-poly1305".to_string(),
        aes(),
        None,
        NOW,
    );
    assert!(matches!(
        other_algorithm,
        Err(SessionError::AlgorithmMismatch)
    ));
    let exists = prepare(&mut store, &mut quotas, &key, PeerSessionAction::Create, 0, None);
    assert!(matches!(
        exists,
        Err(SessionError::SessionExists) | Err(SessionError::CreationPending)
    ));
    assert_eq!(quotas.in_doubt, 0);
}

#[test]
fn digests_are_those_of_the_key_bytes() {
    let digest = InitiatorTransitionIdentity::digest_root_key(&filled(0));
    let expected = Sha256::digest([0u8; 32]);
    assert_eq!(digest.to_bytes(), expected.to_vec());
}

#[test]
fn a_peer_session_ends_with_a_failed_seal() {
    let mut session = plain_session(20, root_key(), 1);
    let mut packet = Packet::new_with_payload(b"hello".to_vec());
    packet.fill_peer_manager_hdr(10, 20, 0);
    assert!(session.encrypt_payload(10, 20, &packet, NOW).is_ok());
    session.finish_encrypt_payload(true);
    assert!(session.is_valid());
    session.finish_encrypt_payload(false);
    assert!(!session.is_valid());
    assert!(session.encrypt_payload(10, 20, &packet, NOW).is_err());
    assert!(session
        .encrypt_payload_batch(10, 20, &vec![packet], NOW)
        .is_err());
}
