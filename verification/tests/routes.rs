use std::cell::{Cell, RefCell};
use std::rc::Rc;
use std::collections::{HashMap, HashSet};

use lowertier::forwarding_snapshot::{ForwardingDecisionSnapshot, ForwardingNextHop};
use lowertier::forwarding_table::{
    forwarding_peers_of, ForwardingPeerInfo, ForwardingPeerTable, PeerFeatureFlag, RouteClaim,
};
use lowertier::ip_prefix::{IpAddress, IpPrefix};
use lowertier::packet::{PeerId, PeerIdentityType, SecureAuthLevel};
use lowertier::prefix_table::PrefixTable;
use lowertier::route_trait::{
    AuthenticatedRoutePeerEvidence, BridgeRoutePeerEvidence, DefaultRouteCostCalculator,
    NextHopPolicy, RouteCostCalculatorInterface,
};
use lowertier::service_route::{RouteSource, ServiceRoute, ServiceRouteAction};
use lowertier::service_route_store::ServiceRouteStore;
use lowertier::publish_hook::{ForwardingSnapshotPublishHook, ForwardingSnapshotSourceToken};
use lowertier::snapshot_store::{
    ForwardingDecisionSnapshotStoreInner, ForwardingSnapshotCommitError,
    ForwardingSnapshotPublishError,
};

const SECOND: u64 = 1_000_000_000;

struct NoHook;

impl ForwardingSnapshotPublishHook for NoHook {
    fn publish_forwarding_snapshot(
        &self,
        _source_token: ForwardingSnapshotSourceToken,
        _snapshot: &ForwardingDecisionSnapshot,
        _activate: bool,
    ) -> bool {
        true
    }

    fn revoke_forwarding_snapshot(&self, _source_token: ForwardingSnapshotSourceToken) {}

    fn discard_forwarding_snapshot(&self, _source_token: ForwardingSnapshotSourceToken) {}
}

fn snapshot(generation: u64) -> ForwardingDecisionSnapshot {
    ForwardingDecisionSnapshot::from_parts(
        generation,
        ForwardingPeerTable::new(Vec::new()),
        HashSet::new(),
        None,
        HashMap::new(),
        HashMap::new(),
        HashMap::new(),
        HashMap::new(),
        HashMap::new(),
        PrefixTable::new(),
    )
}

#[test]
fn foreign_relay_accepts_scoped_encrypted_transport_identity() {
    assert!(AuthenticatedRoutePeerEvidence::is_allowed_role_auth_pair(
        PeerIdentityType::ForeignRelay,
        SecureAuthLevel::EncryptedUnauthenticated,
    ));
    assert!(AuthenticatedRoutePeerEvidence::is_allowed_role_auth_pair(
        PeerIdentityType::ForeignRelay,
        SecureAuthLevel::PeerVerified,
    ));
    assert!(!AuthenticatedRoutePeerEvidence::is_allowed_role_auth_pair(
        PeerIdentityType::ForeignRelay,
        SecureAuthLevel::NetworkSecretConfirmed,
    ));
}

#[test]
fn pending_source_keeps_previous_snapshot_until_commit_or_rollback() {
    let mut store = ForwardingDecisionSnapshotStoreInner::<NoHook>::new();
    let old_source = store.register_source().unwrap();
    let _ = old_source.publish(&mut store, snapshot(1));
    assert_eq!(store.load_full().unwrap().generation(), 1);

    let pending = store.begin_source_registration().unwrap();
    let pending_source = pending.source();
    let _ = pending_source.publish(&mut store, snapshot(2));
    // Readers must continue to use the last committed source while open is pending.
    assert_eq!(store.load_full().unwrap().generation(), 1);
    pending.close(&mut store);
    assert_eq!(store.load_full().unwrap().generation(), 1);

    let committed = store.begin_source_registration().unwrap();
    let _ = committed.source().publish(&mut store, snapshot(3));
    committed.commit(&mut store).unwrap();
    assert_eq!(store.load_full().unwrap().generation(), 3);
}

#[test]
fn stale_source_revoke_does_not_clear_newer_source() {
    let mut store = ForwardingDecisionSnapshotStoreInner::<NoHook>::new();
    let old_source = store.register_source().unwrap();
    let _ = old_source.publish(&mut store, snapshot(1));

    let new_registration = store.begin_source_registration().unwrap();
    let new_source = new_registration.source();
    let _ = new_source.publish(&mut store, snapshot(2));
    new_registration.commit(&mut store).unwrap();
    assert_eq!(store.load_full().unwrap().generation(), 2);

    old_source.revoke(&mut store);
    assert_eq!(store.load_full().unwrap().generation(), 2);
    new_source.revoke(&mut store);
    assert!(store.load_full().is_none());
}

#[test]
fn source_generation_acceptance_rejects_equal_and_older_updates() {
    let mut store = ForwardingDecisionSnapshotStoreInner::<NoHook>::new();
    let registration = store.begin_source_registration().unwrap();
    let source = registration.source();
    let _ = source.publish(&mut store, snapshot(2));
    assert!(!store.accepts_source_generation(source.source_token(), 2));
    assert!(!store.accepts_source_generation(source.source_token(), 1));
    registration.commit(&mut store).unwrap();
    assert!(!store.accepts_source_generation(source.source_token(), 2));
    assert!(store.accepts_source_generation(source.source_token(), 3));
}

#[test]
fn source_tokens_start_at_one_and_fail_closed_on_exhaustion() {
    let mut store = ForwardingDecisionSnapshotStoreInner::<NoHook>::new();
    assert!(!store.accepts_source_generation(ForwardingSnapshotSourceToken(0), 1));
    let registration = store.begin_source_registration().unwrap();
    assert_ne!(registration.source().source_token().0, 0);
    registration.close(&mut store);
    store.next_source_token = u64::MAX;
    assert!(matches!(
        store.begin_source_registration(),
        Err(ForwardingSnapshotCommitError::SourceTokenExhausted)
    ));
    assert!(matches!(
        store.register_source(),
        Err(ForwardingSnapshotCommitError::SourceTokenExhausted)
    ));
    assert!(ForwardingSnapshotSourceToken(1).is_nonzero());
    assert!(!ForwardingSnapshotSourceToken(0).is_nonzero());
}

#[test]
fn revoke_waits_for_commit_barrier_and_clears_activated_source() {
    struct RevokedHook {
        revoked: Rc<Cell<bool>>,
    }

    impl ForwardingSnapshotPublishHook for RevokedHook {
        fn publish_forwarding_snapshot(
            &self,
            _source_token: ForwardingSnapshotSourceToken,
            _snapshot: &ForwardingDecisionSnapshot,
            _activate: bool,
        ) -> bool {
            true
        }

        fn revoke_forwarding_snapshot(&self, _source_token: ForwardingSnapshotSourceToken) {
            self.revoked.set(true);
        }

        fn discard_forwarding_snapshot(&self, _source_token: ForwardingSnapshotSourceToken) {}
    }

    let mut store = ForwardingDecisionSnapshotStoreInner::<RevokedHook>::new();
    let old_source = store.register_source().unwrap();
    let _ = old_source.publish(&mut store, snapshot(1));
    let registration = store.begin_source_registration().unwrap();
    let source = registration.source();
    let _ = source.publish(&mut store, snapshot(2));
    let revoked = Rc::new(Cell::new(false));
    store.set_publish_hook(RevokedHook {
        revoked: revoked.clone(),
    });

    // The commit stands at its barrier: the hook has been asked to activate.
    store.begin_commit(source.source_token()).unwrap();
    let update_rejected = source.publish(&mut store, snapshot(3)).is_err();
    assert_eq!(
        store.begin_commit(source.source_token()),
        Err(ForwardingSnapshotCommitError::PublicationRejected)
    );
    // The revocation comes after the end of the commit.
    assert!(store.finish_commit(source.source_token(), true).is_ok());
    source.revoke(&mut store);
    assert!(update_rejected);
    assert!(revoked.get());
    assert!(store.load_full().is_none());
}

/// What a hook has heard.
#[derive(Debug, PartialEq, Eq)]
enum Call {
    Publish(u64, u64, bool),
    Revoke(u64),
    Discard(u64),
}

/// Takes even generations, and writes down what it hears.
struct EvenHook {
    calls: Rc<RefCell<Vec<Call>>>,
}

impl ForwardingSnapshotPublishHook for EvenHook {
    fn publish_forwarding_snapshot(
        &self,
        source_token: ForwardingSnapshotSourceToken,
        snapshot: &ForwardingDecisionSnapshot,
        activate: bool,
    ) -> bool {
        self.calls.borrow_mut().push(Call::Publish(
            source_token.0,
            snapshot.generation(),
            activate,
        ));
        snapshot.generation() % 2 == 0
    }

    fn revoke_forwarding_snapshot(&self, source_token: ForwardingSnapshotSourceToken) {
        self.calls.borrow_mut().push(Call::Revoke(source_token.0));
    }

    fn discard_forwarding_snapshot(&self, source_token: ForwardingSnapshotSourceToken) {
        self.calls.borrow_mut().push(Call::Discard(source_token.0));
    }
}

fn hooked() -> (
    ForwardingDecisionSnapshotStoreInner<EvenHook>,
    Rc<RefCell<Vec<Call>>>,
) {
    let calls = Rc::new(RefCell::new(Vec::new()));
    let mut store = ForwardingDecisionSnapshotStoreInner::new();
    store.set_publish_hook(EvenHook {
        calls: calls.clone(),
    });
    (store, calls)
}

#[test]
fn a_hook_can_refuse_what_is_published() {
    let (mut store, calls) = hooked();
    let active = store.register_source().unwrap();
    assert!(calls.borrow().is_empty());
    assert_eq!(
        active.publish(&mut store, snapshot(1)),
        Err(ForwardingSnapshotPublishError::PublicationRejected)
    );
    assert!(store.load_full().is_none());
    assert_eq!(active.publish(&mut store, snapshot(2)), Ok(()));
    assert_eq!(
        active.publish(&mut store, snapshot(2)),
        Err(ForwardingSnapshotPublishError::StaleGeneration)
    );
    assert_eq!(
        *calls.borrow(),
        vec![Call::Publish(1, 1, true), Call::Publish(1, 2, true)]
    );
    calls.borrow_mut().clear();

    // A prepared source whose publication is refused is not prepared any more.
    let prepared = store.begin_source_registration().unwrap();
    let source = prepared.source();
    assert_eq!(
        source.publish(&mut store, snapshot(5)),
        Err(ForwardingSnapshotPublishError::PublicationRejected)
    );
    assert_eq!(
        source.publish(&mut store, snapshot(6)),
        Err(ForwardingSnapshotPublishError::SourceNotRegistered)
    );
    assert_eq!(
        prepared.commit(&mut store),
        Err(ForwardingSnapshotCommitError::MissingPendingSource)
    );
    assert_eq!(
        *calls.borrow(),
        vec![Call::Publish(2, 5, false), Call::Discard(2)]
    );
    assert_eq!(store.load_full().unwrap().generation(), 2);
}

#[test]
fn a_refused_commit_is_rolled_back() {
    struct Reluctant {
        calls: Rc<RefCell<Vec<Call>>>,
    }

    impl ForwardingSnapshotPublishHook for Reluctant {
        fn publish_forwarding_snapshot(
            &self,
            source_token: ForwardingSnapshotSourceToken,
            snapshot: &ForwardingDecisionSnapshot,
            activate: bool,
        ) -> bool {
            self.calls.borrow_mut().push(Call::Publish(
                source_token.0,
                snapshot.generation(),
                activate,
            ));
            !activate
        }

        fn revoke_forwarding_snapshot(&self, source_token: ForwardingSnapshotSourceToken) {
            self.calls.borrow_mut().push(Call::Revoke(source_token.0));
        }

        fn discard_forwarding_snapshot(&self, source_token: ForwardingSnapshotSourceToken) {
            self.calls.borrow_mut().push(Call::Discard(source_token.0));
        }
    }

    let calls = Rc::new(RefCell::new(Vec::new()));
    let mut store = ForwardingDecisionSnapshotStoreInner::new();
    let active = store.register_source().unwrap();
    assert_eq!(active.publish(&mut store, snapshot(1)), Ok(()));
    store.set_publish_hook(Reluctant {
        calls: calls.clone(),
    });
    let prepared = store.begin_source_registration().unwrap();
    let source = prepared.source();
    assert_eq!(source.publish(&mut store, snapshot(2)), Ok(()));
    assert_eq!(
        prepared.commit(&mut store),
        Err(ForwardingSnapshotCommitError::PublicationRejected)
    );
    assert_eq!(
        *calls.borrow(),
        vec![
            Call::Publish(2, 2, false),
            Call::Publish(2, 2, true),
            Call::Discard(2)
        ]
    );
    assert_eq!(store.load_full().unwrap().generation(), 1);
    assert_eq!(
        source.publish(&mut store, snapshot(3)),
        Err(ForwardingSnapshotPublishError::SourceNotRegistered)
    );
}

#[test]
fn a_hook_hears_of_a_revocation_once() {
    let (mut store, calls) = hooked();
    let first = store.register_source().unwrap();
    assert_eq!(first.publish(&mut store, snapshot(2)), Ok(()));
    calls.borrow_mut().clear();
    let second = store.register_source().unwrap();
    assert_eq!(*calls.borrow(), vec![Call::Revoke(1)]);
    assert!(store.load_full().is_none());

    // The first source is not active any more.
    first.revoke(&mut store);
    assert_eq!(calls.borrow().len(), 1);
    assert_eq!(second.publish(&mut store, snapshot(4)), Ok(()));
    calls.borrow_mut().clear();
    second.revoke(&mut store);
    assert_eq!(*calls.borrow(), vec![Call::Revoke(2)]);
    assert!(store.load_full().is_none());
    assert_eq!(
        second.publish(&mut store, snapshot(6)),
        Err(ForwardingSnapshotPublishError::SourceNotRegistered)
    );
    second.revoke(&mut store);
    assert_eq!(calls.borrow().len(), 1);
}

fn evidence(
    peer_id: PeerId,
    identity_type: PeerIdentityType,
    secure_auth_level: SecureAuthLevel,
) -> AuthenticatedRoutePeerEvidence {
    AuthenticatedRoutePeerEvidence {
        peer_id,
        identity_type,
        noise_static_pubkey: vec![7; 32],
        secure_auth_level,
    }
}

#[test]
fn authenticated_evidence_requires_expected_peer_id_and_full_key() {
    let valid = evidence(
        7,
        PeerIdentityType::Admin,
        SecureAuthLevel::NetworkSecretConfirmed,
    );
    assert!(valid.validate_for(7));
    assert!(!valid.validate_for(8));

    for key_len in [0, 31, 33] {
        let mut invalid = valid.clone();
        invalid.noise_static_pubkey = vec![7; key_len];
        assert!(!invalid.validate_for(7));
    }
}

#[test]
fn authenticated_evidence_allows_only_role_auth_pairs() {
    let valid_pairs = [
        (PeerIdentityType::Admin, SecureAuthLevel::PeerVerified),
        (
            PeerIdentityType::Admin,
            SecureAuthLevel::NetworkSecretConfirmed,
        ),
        (PeerIdentityType::Credential, SecureAuthLevel::PeerVerified),
        (
            PeerIdentityType::SharedNode,
            SecureAuthLevel::EncryptedUnauthenticated,
        ),
        (PeerIdentityType::SharedNode, SecureAuthLevel::PeerVerified),
        (
            PeerIdentityType::ForeignRelay,
            SecureAuthLevel::PeerVerified,
        ),
    ];
    for (identity_type, secure_auth_level) in valid_pairs {
        assert!(
            evidence(7, identity_type, secure_auth_level).validate_for(7),
            "unexpectedly rejected {identity_type:?}/{secure_auth_level:?}"
        );
    }

    let invalid_pairs = [
        (PeerIdentityType::Admin, SecureAuthLevel::Unauthenticated),
        (
            PeerIdentityType::Admin,
            SecureAuthLevel::EncryptedUnauthenticated,
        ),
        (PeerIdentityType::Credential, SecureAuthLevel::Unauthenticated),
        (
            PeerIdentityType::Credential,
            SecureAuthLevel::EncryptedUnauthenticated,
        ),
        (
            PeerIdentityType::Credential,
            SecureAuthLevel::NetworkSecretConfirmed,
        ),
        (PeerIdentityType::SharedNode, SecureAuthLevel::Unauthenticated),
        (
            PeerIdentityType::SharedNode,
            SecureAuthLevel::NetworkSecretConfirmed,
        ),
        (PeerIdentityType::ForeignRelay, SecureAuthLevel::Unauthenticated),
        (
            PeerIdentityType::ForeignRelay,
            SecureAuthLevel::EncryptedUnauthenticated,
        ),
        (
            PeerIdentityType::ForeignRelay,
            SecureAuthLevel::NetworkSecretConfirmed,
        ),
    ];
    for (identity_type, secure_auth_level) in invalid_pairs {
        assert!(
            !evidence(7, identity_type, secure_auth_level).validate_for(7),
            "unexpectedly accepted {identity_type:?}/{secure_auth_level:?}"
        );
    }
}

fn peer(peer_id: PeerId) -> ForwardingPeerInfo {
    ForwardingPeerInfo {
        peer_id,
        has_ipv4: false,
        feature_flag: None,
        multicast_groups: Vec::new(),
        bridge_authorized: false,
        bridge_authorization_deadline: None,
    }
}

const BRIDGE: PeerFeatureFlag = PeerFeatureFlag {
    ethernet_input: true,
    hybrid_l3: true,
    bridge_input: true,
    multicast_membership: true,
};

#[test]
fn listed_routes_authorize_no_bridge() {
    let claim = |peer_id: PeerId, ipv4_addr: Option<u32>| RouteClaim {
        peer_id,
        ipv4_addr,
        feature_flag: Some(BRIDGE),
        multicast_groups: Vec::new(),
    };
    let table = forwarding_peers_of(vec![claim(7, Some(1)), claim(3, None), claim(5, Some(2))]);
    let ids: Vec<PeerId> = table.peers().iter().map(|peer| peer.peer_id).collect();
    assert_eq!(ids, vec![3, 5, 7]);
    assert_eq!(table.ipv4_peers(), &vec![5, 7]);
    for id in ids {
        assert!(!table.is_authorized_bridge(id, SECOND));
    }
}

#[test]
fn bridge_snapshot_rechecks_attestation_after_deadline() {
    let now = 50 * SECOND;
    let deadline = now + 20_000_000;
    let table = ForwardingPeerTable::new(vec![ForwardingPeerInfo {
        feature_flag: Some(PeerFeatureFlag {
            ethernet_input: true,
            hybrid_l3: true,
            bridge_input: true,
            multicast_membership: false,
        }),
        bridge_authorized: true,
        bridge_authorization_deadline: Some(deadline),
        ..peer(7)
    }]);

    assert!(table.is_authorized_bridge(7, now));
    assert!(!table.is_authorized_bridge(7, now + 30_000_000));
    assert!(table.ethernet_peers(now + 30_000_000).is_empty());
}

#[test]
fn bridge_evidence_rejects_expired_attestation() {
    let now = 50 * SECOND;
    let evidence = BridgeRoutePeerEvidence {
        peer_id: 7,
        noise_static_pubkey: vec![7; 32],
        deadline: Some(now - 1_000_000),
        generation: 4,
    };
    assert!(!evidence.validate_for(7, now));
    assert!(evidence.validate_for(7, now - 2_000_000));
    assert!(!evidence.validate_for(8, now - 2_000_000));
}

#[test]
fn peer_tables_are_ordered_and_know_their_groups() {
    let v4_group = vec![224, 0, 0, 9];
    let mut v6_group = vec![0u8; 16];
    v6_group[0] = 0xff;
    v6_group[15] = 2;
    let table = ForwardingPeerTable::new(vec![
        ForwardingPeerInfo {
            has_ipv4: true,
            feature_flag: Some(BRIDGE),
            multicast_groups: vec![v4_group.clone(), v6_group.clone(), vec![10, 0, 0, 1], vec![1]],
            bridge_authorized: true,
            ..peer(9)
        },
        ForwardingPeerInfo {
            feature_flag: Some(PeerFeatureFlag { bridge_input: false, ..BRIDGE }),
            multicast_groups: vec![v4_group.clone()],
            bridge_authorized: true,
            ..peer(3)
        },
        ForwardingPeerInfo {
            has_ipv4: true,
            feature_flag: Some(PeerFeatureFlag { multicast_membership: false, ..BRIDGE }),
            multicast_groups: vec![v4_group.clone()],
            ..peer(5)
        },
        peer(9),
    ]);
    let ids: Vec<PeerId> = table.peers().iter().map(|peer| peer.peer_id).collect();
    assert_eq!(ids, vec![3, 5, 9]);
    assert_eq!(table.ipv4_peers(), &[5, 9]);
    assert_eq!(table.ethernet_peers(0), vec![9]);
    let v4 = IpAddress::from_v4(0xe000_0009);
    let v6 = IpAddress::from_v6((0xffu128 << 120) | 2);
    assert_eq!(table.multicast_peers(v4), &[3, 9]);
    assert_eq!(table.ethernet_multicast_peers(v4, 0), vec![9]);
    assert_eq!(table.multicast_peers(v6), &[9]);
    assert!(table.multicast_peers(IpAddress::from_v4(0x0a00_0001)).is_empty());
    assert!(table.get(9).unwrap().bridge_authorized);
    assert!(table.get(4).is_none());
    assert!(table.is_authorized_bridge(9, u64::MAX));
    assert!(!table.is_authorized_bridge(3, 0));
}

#[test]
fn next_hops_fall_back_and_respect_suppression() {
    let hop = |peer: PeerId| ForwardingNextHop {
        next_hop_peer_id: peer,
        ..ForwardingNextHop::default()
    };
    let mut proxies = PrefixTable::new();
    proxies.insert(prefix("10.0.0.0", 8), 40);
    proxies.insert(prefix("10.1.0.0", 16), 41);
    let snapshot = ForwardingDecisionSnapshot::from_parts(
        6,
        ForwardingPeerTable::new(Vec::new()),
        HashSet::from([4]),
        Some(8),
        HashMap::from([(1, hop(11)), (2, hop(12)), (4, hop(14))]),
        HashMap::from([(2, hop(22))]),
        HashMap::from([(2, hop(32)), (3, hop(33))]),
        HashMap::from([(0x0a00_0001, 5)]),
        HashMap::from([(1, 6)]),
        proxies,
    );
    let next = |peer, policy| {
        snapshot
            .next_hop(peer, policy)
            .map(|hop| hop.next_hop_peer_id)
    };
    assert_eq!(next(1, NextHopPolicy::MaxGoodput), Some(11));
    assert_eq!(next(2, NextHopPolicy::LeastHop), Some(12));
    assert_eq!(next(2, NextHopPolicy::LeastCost), Some(22));
    assert_eq!(next(2, NextHopPolicy::MaxGoodput), Some(32));
    assert_eq!(next(3, NextHopPolicy::LeastCost), None);
    assert_eq!(next(4, NextHopPolicy::LeastHop), None);
    assert_eq!(snapshot.peer_id_by_ip(address("10.0.0.1")), Some(5));
    assert_eq!(snapshot.peer_id_by_ip(IpAddress::from_v6(1)), Some(6));
    assert_eq!(snapshot.proxy_peer_id_by_ip(address("10.1.2.3")), Some(41));
    assert_eq!(snapshot.proxy_peer_id_by_ip(address("10.2.2.3")), Some(40));
    assert_eq!(snapshot.proxy_peer_id_by_ip(address("11.2.2.3")), None);
    assert_eq!(snapshot.next_hop_map(NextHopPolicy::MaxGoodput).len(), 2);
    assert_eq!(snapshot.public_ipv6_gateway_peer_id(), Some(8));
}

#[test]
fn the_default_calculator_gives_every_route_the_same_cost() {
    let mut calculator = DefaultRouteCostCalculator;
    calculator.begin_update();
    assert_eq!(calculator.calculate_cost(1, 2), 1);
    assert_eq!(calculator.calculate_delivery_bps(1, 2), None);
    assert!(!calculator.cost_need_update());
    assert!(!calculator.delivery_need_update());
    assert_eq!(calculator.next_delivery_update_in(), None);
    assert_eq!(calculator.dump(), "All routes have cost 1");
    calculator.end_update();
}

fn address(text: &str) -> IpAddress {
    let octets: Vec<u32> = text.split('.').map(|part| part.parse().unwrap()).collect();
    IpAddress::from_v4((octets[0] << 24) | (octets[1] << 16) | (octets[2] << 8) | octets[3])
}

fn prefix(text: &str, length: u8) -> IpPrefix {
    IpPrefix::new(address(text), length).unwrap()
}

fn route(start: &str, length: u8, gateway: u32, preference: u32, metric: u32) -> ServiceRoute {
    ServiceRoute {
        prefix: prefix(start, length),
        gateway,
        preference,
        metric,
        path_id: gateway as u64,
        action: ServiceRouteAction::Forward,
    }
}

#[test]
fn prefixes_have_nothing_behind_their_length() {
    assert!(IpPrefix::new(address("10.0.0.1"), 8).is_none());
    assert!(IpPrefix::new(address("10.0.0.0"), 33).is_none());
    assert!(IpPrefix::new(address("0.0.0.0"), 0).is_some());
    assert!(IpPrefix::new(IpAddress::from_v6(1), 128).is_some());
    assert!(IpPrefix::new(IpAddress::from_v6(1), 127).is_none());
    assert!(prefix("10.0.0.0", 8).is_before(&prefix("10.0.0.0", 9)));
    assert!(address("224.0.0.1").is_multicast());
    assert!(!address("223.0.0.1").is_multicast());
}

#[test]
fn selection_uses_longest_prefix_before_route_rank() {
    let mut store = ServiceRouteStore::new(128, 300 * SECOND);
    store.replace_source(
        RouteSource::Bgp,
        vec![
            route("10.0.0.0", 8, 10, 200, 0),
            route("10.1.0.0", 16, 20, 100, 100),
        ],
    );

    let selected = store
        .select_gateway(address("10.1.2.3"), 7, SECOND, |_| true)
        .unwrap();

    assert_eq!(selected.gateway, 20);
    assert_eq!(selected.prefix, prefix("10.1.0.0", 16));
}

#[test]
fn equal_routes_use_multiple_gateways_and_pin_each_flow() {
    let mut store = ServiceRouteStore::new(128, 300 * SECOND);
    store.replace_source(
        RouteSource::Bgp,
        vec![
            route("192.0.2.0", 24, 10, 100, 20),
            route("192.0.2.0", 24, 20, 100, 20),
        ],
    );
    let destination = address("192.0.2.8");
    let gateways = (0..256)
        .map(|flow| {
            let first = store
                .select_gateway(destination, flow, SECOND, |_| true)
                .unwrap();
            let second = store
                .select_gateway(destination, flow, SECOND, |_| true)
                .unwrap();
            assert_eq!(first, second);
            first.gateway
        })
        .collect::<HashSet<_>>();

    assert_eq!(gateways, HashSet::from([10, 20]));
    assert!(store.pins.len() <= 128);
    assert!(store.plans.len() <= 128);
}

#[test]
fn unchanged_generation_reuses_the_compiled_flow_plan() {
    let mut store = ServiceRouteStore::new(128, 300 * SECOND);
    store.replace_source(
        RouteSource::Bgp,
        vec![
            route("192.0.2.0", 24, 10, 100, 20),
            route("192.0.2.0", 24, 20, 100, 20),
        ],
    );
    let destination = address("192.0.2.8");
    let calls = Cell::new(0);
    store
        .select_gateway(destination, 7, SECOND, |_| {
            calls.set(calls.get() + 1);
            true
        })
        .unwrap();
    calls.set(0);

    store
        .select_gateway(destination, 7, SECOND, |_| {
            calls.set(calls.get() + 1);
            true
        })
        .unwrap();

    assert_eq!(calls.get(), 1);
}

#[test]
fn withdrawn_gateway_moves_only_its_pinned_flows() {
    let mut store = ServiceRouteStore::new(128, 300 * SECOND);
    store.replace_source(
        RouteSource::Bgp,
        vec![
            route("203.0.113.0", 24, 10, 100, 20),
            route("203.0.113.0", 24, 20, 100, 20),
        ],
    );
    let destination = address("203.0.113.7");
    let flow = (0..1024)
        .find(|flow| {
            store
                .select_gateway(destination, *flow, SECOND, |_| true)
                .is_some_and(|route| route.gateway == 20)
        })
        .unwrap();

    store.replace_source(
        RouteSource::Bgp,
        vec![route("203.0.113.0", 24, 10, 100, 20)],
    );

    assert_eq!(
        store
            .select_gateway(destination, flow, SECOND, |_| true)
            .unwrap()
            .gateway,
        10
    );
}

#[test]
fn blackhole_route_does_not_require_a_gateway() {
    let mut store = ServiceRouteStore::new(128, 300 * SECOND);
    let mut blackhole = route("198.51.100.0", 24, 0, 100, 0);
    blackhole.action = ServiceRouteAction::Blackhole;
    store.replace_source(RouteSource::Bgp, vec![blackhole]);

    let selected = store
        .select_gateway(address("198.51.100.8"), 1, SECOND, |_| false)
        .unwrap();

    assert_eq!(selected.action, ServiceRouteAction::Blackhole);
}

#[test]
fn sources_are_replaced_one_by_one_and_ranked_together() {
    let mut store = ServiceRouteStore::new(4, 300 * SECOND);
    assert_eq!(store.snapshot().generation(), 0);
    store.replace_source(
        RouteSource::Static,
        vec![
            route("10.0.0.0", 8, 30, 100, 5),
            route("10.0.0.0", 8, 20, 100, 5),
            route("10.0.0.0", 8, 20, 300, 5),
        ],
    );
    store.replace_source(RouteSource::Overlay, vec![route("10.0.0.0", 8, 40, 100, 4)]);
    assert_eq!(store.snapshot().generation(), 2);
    let names: Vec<u32> = store
        .routes_from(RouteSource::Static)
        .iter()
        .map(|route| route.gateway)
        .collect();
    assert_eq!(names, vec![20, 30]);
    assert!(store.routes_from(RouteSource::Bgp).is_empty());
    let ranked: Vec<u32> = store
        .snapshot()
        .candidates(address("10.9.9.9"))
        .unwrap()
        .iter()
        .map(|route| route.gateway)
        .collect();
    assert_eq!(ranked, vec![40, 20, 30]);
    assert!(store.snapshot().candidates(address("11.0.0.1")).is_none());
    assert_eq!(store.snapshot().routes().len(), 3);

    // The gateway of the best route cannot be reached: the next metric counts.
    let selected = store
        .select_gateway(address("10.0.0.1"), 1, SECOND, |gateway| gateway == 30)
        .unwrap();
    assert_eq!(selected.gateway, 30);
    assert!(store
        .select_gateway(address("10.0.0.1"), 2, SECOND, |_| false)
        .is_none());
    assert!(store
        .select_gateway(address("11.0.0.1"), 2, SECOND, |_| true)
        .is_none());
}

#[test]
fn remembered_flows_stay_within_the_capacity() {
    let mut store = ServiceRouteStore::new(4, SECOND);
    store.replace_source(RouteSource::Bgp, vec![route("10.0.0.0", 8, 10, 1, 1)]);
    for flow in 0..50 {
        store
            .select_gateway(address("10.0.0.1"), flow, 5 * SECOND, |_| true)
            .unwrap();
        assert!(store.pins.len() <= 4);
        assert!(store.plans.len() <= 4);
    }
    // Everything is too old by now.
    store
        .select_gateway(address("10.0.0.1"), 99, 50 * SECOND, |_| true)
        .unwrap();
    assert!(store.pins.len() <= 4);
}
