use lowertier::rpc_service::{
    authorize_from_host, host_is_loopback, CredentialTerms, ManagementError, PeerListing,
    PeerManagerRpcService,
};

type Service = PeerManagerRpcService<u8>;

#[test]
fn loopback_hosts_are_dotted_addresses_of_the_node() {
    for host in ["127.0.0.1", "127.255.0.10", "127.0.0.0"] {
        assert!(host_is_loopback(host), "{host}");
    }
    for host in [
        "",
        "127.0.0",
        "127.0.0.1.",
        "127.0.0.01",
        "127.0.0.256",
        "127.0.0.1x",
        "127..0.1",
        "128.0.0.1",
        "0127.0.0.1",
        "[::1]",
        "localhost",
        "1270.0.0.1",
    ] {
        assert!(!host_is_loopback(host), "{host}");
    }
}

#[test]
fn credential_management_needs_loopback_and_token() {
    let url = Some("tcp://127.0.0.1:15888");
    assert_eq!(
        Service::authorize_credential_management(url, Some("secret"), Some("secret")),
        Ok(())
    );
    for (url, secret, token) in [
        (Some("tcp://10.0.0.1:15888"), Some("secret"), Some("secret")),
        (Some("not a url"), Some("secret"), Some("secret")),
        (Some("unix:/run/foo.socket"), Some("secret"), Some("secret")),
        (Some("tcp://[::1]:15888"), Some("secret"), Some("secret")),
        (None, Some("secret"), Some("secret")),
        (url, Some("secret"), Some("secreT")),
        (url, Some("secret"), Some("secrets")),
        (url, Some("secret"), None),
        (url, Some(""), Some("")),
        (url, None, Some("secret")),
    ] {
        assert_eq!(
            Service::authorize_credential_management(url, secret, token),
            Err(ManagementError::NotAuthorized)
        );
    }
    assert_eq!(
        authorize_from_host(Some("127.0.0.1"), Some("s"), Some("s")),
        Ok(())
    );
    assert_eq!(
        authorize_from_host(None, Some("s"), Some("s")),
        Err(ManagementError::NotAuthorized)
    );
}

#[test]
fn credentials_are_issued_for_some_time() {
    let service = PeerManagerRpcService::new(3u8);
    assert_eq!(service.peer_manager, 3);
    let url = Some("tcp://127.0.0.1:1");
    let ask = |ttl, reusable| {
        service.generate_credential(url, Some("s"), Some("s"), ttl, reusable)
    };
    assert_eq!(
        ask(60, None),
        Ok(CredentialTerms {
            ttl_seconds: 60,
            reusable: true
        })
    );
    assert_eq!(
        ask(i64::MAX, Some(false)),
        Ok(CredentialTerms {
            ttl_seconds: i64::MAX as u64,
            reusable: false
        })
    );
    assert_eq!(ask(0, None), Err(ManagementError::TtlNotPositive));
    assert_eq!(ask(-5, None), Err(ManagementError::TtlNotPositive));
    assert_eq!(
        service.generate_credential(None, Some("s"), Some("s"), 60, None),
        Err(ManagementError::NotAuthorized)
    );
    assert_eq!(service.revoke_credential(url, Some("s"), Some("s")), Ok(()));
    assert_eq!(
        service.revoke_credential(url, Some("s"), Some("t")),
        Err(ManagementError::NotAuthorized)
    );
    assert_eq!(
        ManagementError::TtlNotPositive.message(),
        "ttl_seconds must be positive"
    );
}

#[test]
fn peers_are_listed_with_the_connections_of_their_network() {
    let listing = |peer_id, own: Option<Vec<u128>>, foreign: Option<Vec<u128>>| PeerListing {
        peer_id,
        default_conn_id: Some(peer_id as u128),
        directly_connected_conns: vec![9],
        own_conns: own,
        foreign_conns: foreign,
    };
    let infos = Service::list_peers(
        vec![listing(1, Some(vec![10]), Some(vec![11]))],
        vec![listing(2, None, Some(vec![12])), listing(3, None, None)],
    );
    let found: Vec<(u32, Vec<u128>)> = infos
        .iter()
        .map(|info| (info.peer_id, info.conns.clone()))
        .collect();
    assert_eq!(found, vec![(1, vec![10]), (2, vec![12]), (3, Vec::new())]);
    assert_eq!(infos[1].directly_connected_conns, vec![9]);
}
