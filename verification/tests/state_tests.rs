use proxy_state::net::{network_addr, IpAddress, NamespacedHostname, NetworkAddress, SocketAddress};
use proxy_state::policy::{Connection, Policy, PolicyStore, RbacAction, RbacMatch};
use proxy_state::service::{Endpoint, Service, ServiceStore};
use proxy_state::state::{
    set_gateway_address, Address, DemandProxyState, Error, ProxyState, Upstream,
};
use proxy_state::workload::{
    Destination, GatewayAddress, Protocol, Workload, WorkloadStore, WaypointError,
};

fn base_workload(uid: &str) -> Workload {
    Workload {
        uid: uid.to_string(),
        name: "test".to_string(),
        namespace: "default".to_string(),
        hostname: String::new(),
        network: String::new(),
        workload_ips: Vec::new(),
        waypoint: None,
        gateway_address: None,
        protocol: Protocol::TCP,
        authorization_policies: Vec::new(),
    }
}

fn test_default_workload() -> Workload {
    let mut w = base_workload("cluster1//v1/Pod/default/test");
    w.workload_ips = vec![IpAddress::v4(127, 0, 0, 1)];
    w
}

fn mock_default_service() -> Service {
    Service {
        name: "test-svc".to_string(),
        namespace: "default".to_string(),
        hostname: "defaulthost".to_string(),
        vips: vec![NetworkAddress {
            network: String::new(),
            address: IpAddress::v4(127, 0, 10, 1),
        }],
        ports: vec![(80, 8080)],
        endpoints: Vec::new(),
        subject_alt_names: Vec::new(),
    }
}

fn addr_dest(a: u8, b: u8, c: u8, d: u8) -> Destination {
    Destination::Address(NetworkAddress {
        network: String::new(),
        address: IpAddress::v4(a, b, c, d),
    })
}

#[test]
fn lookup_address() {
    let mut state = ProxyState::new();
    state.workloads.insert(test_default_workload());
    state.services.insert(mock_default_service());
    let state = DemandProxyState::new(state);

    // Some from Address
    match state.fetch_destination(&addr_dest(127, 0, 0, 1)) {
        Some(Address::Workload(w)) => {
            assert_eq!(w.uid, "cluster1//v1/Pod/default/test");
            assert_eq!(w.workload_ips, vec![IpAddress::v4(127, 0, 0, 1)]);
        },
        _ => panic!("expected the default workload"),
    }

    // Some from Hostname
    let dst = Destination::Hostname(NamespacedHostname {
        namespace: "default".to_string(),
        hostname: "defaulthost".to_string(),
    });
    match state.fetch_destination(&dst) {
        Some(Address::Service(s)) => {
            assert_eq!(s.hostname, "defaulthost");
            assert_eq!(s.namespace, "default");
        },
        _ => panic!("expected the default service"),
    }

    // None from Address
    assert!(state.fetch_destination(&addr_dest(127, 0, 0, 2)).is_none());

    // None from Hostname
    let dst = Destination::Hostname(NamespacedHostname {
        namespace: "default".to_string(),
        hostname: "nothost".to_string(),
    });
    assert!(state.fetch_destination(&dst).is_none());
}

#[test]
fn ipv4_constructor_packs_octets() {
    let ip = IpAddress::v4(127, 0, 0, 1);
    assert!(!ip.is_v6);
    assert_eq!(ip.value, 0x7f000001);
    let ip6 = IpAddress::v6(0xfe80_0000_0000_0000_0000_0000_0000_0001);
    assert!(ip6.is_v6);
}

#[test]
fn workload_insert_twice_is_single_insert() {
    let mut once = WorkloadStore::new();
    once.insert(test_default_workload());
    let mut twice = WorkloadStore::new();
    twice.insert(test_default_workload());
    twice.insert(test_default_workload());
    assert_eq!(once.entries().len(), 1);
    assert_eq!(twice.entries().len(), 1);
    assert_eq!(once.entries()[0].uid, twice.entries()[0].uid);
    let found = twice.find_uid(&"cluster1//v1/Pod/default/test".to_string());
    assert!(found.is_some());
}

#[test]
fn workload_remove_clears_every_index() {
    let mut store = WorkloadStore::new();
    let mut w = test_default_workload();
    w.hostname = "wl.example.com".to_string();
    store.insert(w);
    store.remove_uid(&"cluster1//v1/Pod/default/test".to_string());
    assert!(store.find_uid(&"cluster1//v1/Pod/default/test".to_string()).is_none());
    let a = network_addr(&String::new(), IpAddress::v4(127, 0, 0, 1));
    assert!(store.find_address(&a).is_none());
    assert!(store.find_hostname(&"wl.example.com".to_string()).is_none());
}

#[test]
fn workload_survives_removal_of_another() {
    let mut store = WorkloadStore::new();
    store.insert(test_default_workload());
    let mut other = base_workload("uid-other");
    other.workload_ips = vec![IpAddress::v4(10, 0, 0, 8)];
    store.insert(other);
    store.remove_uid(&"uid-other".to_string());
    let a = network_addr(&String::new(), IpAddress::v4(127, 0, 0, 1));
    assert_eq!(store.find_address(&a).unwrap().uid, "cluster1//v1/Pod/default/test");
}

#[test]
fn workload_last_writer_wins_on_shared_ip() {
    let mut store = WorkloadStore::new();
    let mut w1 = base_workload("uid-1");
    w1.workload_ips = vec![IpAddress::v4(10, 0, 0, 9)];
    let mut w2 = base_workload("uid-2");
    w2.workload_ips = vec![IpAddress::v4(10, 0, 0, 9)];
    store.insert(w1);
    store.insert(w2);
    let a = network_addr(&String::new(), IpAddress::v4(10, 0, 0, 9));
    assert_eq!(store.find_address(&a).unwrap().uid, "uid-2");
    assert!(store.find_uid(&"uid-1".to_string()).is_some());
}

#[test]
fn service_remove_clears_vip_index() {
    let mut store = ServiceStore::new();
    store.insert(mock_default_service());
    let vip = NetworkAddress { network: String::new(), address: IpAddress::v4(127, 0, 10, 1) };
    assert!(store.get_by_vip(&vip).is_some());
    store.remove(&NamespacedHostname {
        namespace: "default".to_string(),
        hostname: "defaulthost".to_string(),
    });
    assert!(store.get_by_vip(&vip).is_none());
    assert!(store
        .get_by_namespaced_host(&NamespacedHostname {
            namespace: "default".to_string(),
            hostname: "defaulthost".to_string(),
        })
        .is_none());
}

#[test]
fn policy_remove_clears_namespace_index() {
    let mut store = PolicyStore::new();
    store.insert(Policy {
        key: "default/p1".to_string(),
        namespace: "default".to_string(),
        action: RbacAction::Allow,
        rules: Vec::new(),
    });
    assert_eq!(store.get_by_namespace(&"default".to_string()), vec!["default/p1".to_string()]);
    store.remove(&"default/p1".to_string());
    assert!(store.get(&"default/p1".to_string()).is_none());
    assert!(store.get_by_namespace(&"default".to_string()).is_empty());
}

fn upstream_fixture() -> ProxyState {
    let mut state = ProxyState::new();
    let mut w = base_workload("uid-backend");
    w.workload_ips = vec![IpAddress::v4(10, 1, 1, 1)];
    state.workloads.insert(w);
    let mut svc = mock_default_service();
    svc.vips = vec![NetworkAddress { network: String::new(), address: IpAddress::v4(10, 0, 0, 2) }];
    svc.endpoints = vec![Endpoint { workload_uid: "uid-backend".to_string(), port: Vec::new() }];
    svc.subject_alt_names = vec!["spiffe://cluster.local/ns/default/sa/backend".to_string()];
    state.services.insert(svc);
    state
}

#[test]
fn upstream_single_endpoint_uses_target_port() {
    let state = upstream_fixture();
    let sock = SocketAddress { ip: IpAddress::v4(10, 0, 0, 2), port: 80 };
    let us = state.find_upstream(&String::new(), sock).expect("upstream");
    assert_eq!(us.workload.uid, "uid-backend");
    assert_eq!(us.port, 8080);
    assert_eq!(us.sans, vec!["spiffe://cluster.local/ns/default/sa/backend".to_string()]);
    let desc = us.destination_service.expect("resolved through the service");
    assert_eq!(desc.hostname, "defaulthost");
}

#[test]
fn upstream_endpoint_port_override_wins() {
    let mut state = upstream_fixture();
    let mut svc = mock_default_service();
    svc.vips = vec![NetworkAddress { network: String::new(), address: IpAddress::v4(10, 0, 0, 2) }];
    svc.endpoints = vec![Endpoint {
        workload_uid: "uid-backend".to_string(),
        port: vec![(80, 9090)],
    }];
    state.services.insert(svc);
    let sock = SocketAddress { ip: IpAddress::v4(10, 0, 0, 2), port: 80 };
    let us = state.find_upstream(&String::new(), sock).expect("upstream");
    assert_eq!(us.port, 9090);
}

#[test]
fn upstream_unknown_port_is_absent() {
    let state = upstream_fixture();
    let sock = SocketAddress { ip: IpAddress::v4(10, 0, 0, 2), port: 81 };
    assert!(state.find_upstream(&String::new(), sock).is_none());
}

#[test]
fn upstream_falls_back_to_workload() {
    let state = upstream_fixture();
    let sock = SocketAddress { ip: IpAddress::v4(10, 1, 1, 1), port: 4444 };
    let us = state.find_upstream(&String::new(), sock).expect("upstream");
    assert_eq!(us.workload.uid, "uid-backend");
    assert_eq!(us.port, 4444);
    assert!(us.sans.is_empty());
    assert!(us.destination_service.is_none());
}

#[test]
fn upstream_miss_when_nothing_matches() {
    let state = upstream_fixture();
    let sock = SocketAddress { ip: IpAddress::v4(9, 9, 9, 9), port: 80 };
    assert!(state.find_upstream(&String::new(), sock).is_none());
}

fn conn_to(dst_ip: IpAddress, dst_port: u16) -> Connection {
    Connection {
        src_identity: Some("spiffe://cluster.local/ns/default/sa/client".to_string()),
        dst_identity: None,
        src_ip: IpAddress::v4(10, 2, 0, 1),
        dst_ip,
        dst_port,
        dst_network: String::new(),
    }
}

fn match_all() -> RbacMatch {
    RbacMatch {
        principals: Vec::new(),
        source_ips: Vec::new(),
        destination_ips: Vec::new(),
        destination_ports: Vec::new(),
    }
}

fn rbac_fixture(policies: Vec<Policy>, attached: Vec<String>) -> DemandProxyState {
    let mut state = ProxyState::new();
    let mut w = base_workload("uid-dst");
    w.workload_ips = vec![IpAddress::v4(10, 3, 0, 1)];
    w.authorization_policies = attached;
    state.workloads.insert(w);
    for p in policies {
        state.policies.insert(p);
    }
    DemandProxyState::new(state)
}

#[test]
fn rbac_deny_wins_over_allow() {
    let state = rbac_fixture(
        vec![
            Policy {
                key: "default/allow-all".to_string(),
                namespace: "default".to_string(),
                action: RbacAction::Allow,
                rules: vec![match_all()],
            },
            Policy {
                key: "default/deny-all".to_string(),
                namespace: "default".to_string(),
                action: RbacAction::Deny,
                rules: vec![match_all()],
            },
        ],
        Vec::new(),
    );
    assert!(!state.assert_rbac(&conn_to(IpAddress::v4(10, 3, 0, 1), 8080)));
}

#[test]
fn rbac_default_allow_without_policies() {
    let state = rbac_fixture(Vec::new(), Vec::new());
    assert!(state.assert_rbac(&conn_to(IpAddress::v4(10, 3, 0, 1), 8080)));
}

#[test]
fn rbac_denies_unknown_destination() {
    let state = rbac_fixture(Vec::new(), Vec::new());
    assert!(!state.assert_rbac(&conn_to(IpAddress::v4(10, 3, 0, 99), 8080)));
}

#[test]
fn rbac_allow_must_match_when_present() {
    let only_port_81_allowed = Policy {
        key: "default/allow-81".to_string(),
        namespace: "default".to_string(),
        action: RbacAction::Allow,
        rules: vec![RbacMatch { destination_ports: vec![81], ..match_all() }],
    };
    let state = rbac_fixture(vec![only_port_81_allowed], Vec::new());
    assert!(!state.assert_rbac(&conn_to(IpAddress::v4(10, 3, 0, 1), 8080)));
    assert!(state.assert_rbac(&conn_to(IpAddress::v4(10, 3, 0, 1), 81)));
}

#[test]
fn rbac_deny_from_attached_policy() {
    let deny_global_key = Policy {
        key: "other-ns/deny-client".to_string(),
        namespace: "other-ns".to_string(),
        action: RbacAction::Deny,
        rules: vec![RbacMatch {
            principals: vec!["spiffe://cluster.local/ns/default/sa/client".to_string()],
            ..match_all()
        }],
    };
    let state = rbac_fixture(vec![deny_global_key], vec!["other-ns/deny-client".to_string()]);
    assert!(!state.assert_rbac(&conn_to(IpAddress::v4(10, 3, 0, 1), 8080)));
}

#[test]
fn set_gateway_address_tunnels_over_waypoint_ip() {
    let mut w = base_workload("uid-wp");
    w.protocol = Protocol::HBONE;
    w.waypoint = Some(GatewayAddress {
        destination: Destination::Address(NetworkAddress {
            network: String::new(),
            address: IpAddress::v4(10, 0, 0, 1),
        }),
        hbone_mtls_port: 15008,
    });
    let mut us = Upstream { workload: w, port: 8080, sans: Vec::new(), destination_service: None };
    set_gateway_address(&mut us, IpAddress::v4(10, 1, 1, 1), 15008).expect("gateway set");
    assert_eq!(
        us.workload.gateway_address,
        Some(SocketAddress { ip: IpAddress::v4(10, 0, 0, 1), port: 15008 })
    );
}

#[test]
fn set_gateway_address_keeps_existing_gateway() {
    let mut w = base_workload("uid-wp");
    let set = SocketAddress { ip: IpAddress::v4(1, 2, 3, 4), port: 99 };
    w.gateway_address = Some(set);
    let mut us = Upstream { workload: w, port: 8080, sans: Vec::new(), destination_service: None };
    set_gateway_address(&mut us, IpAddress::v4(10, 1, 1, 1), 15008).expect("still ok");
    assert_eq!(us.workload.gateway_address, Some(set));
}

fn waypoint_fixture(waypoint_of_waypoint: bool) -> (DemandProxyState, Workload) {
    let mut state = ProxyState::new();
    // The waypoint proxy itself, reachable directly by IP.
    let mut wp = base_workload("uid-waypoint");
    wp.workload_ips = vec![IpAddress::v4(10, 0, 0, 1)];
    wp.protocol = Protocol::HBONE;
    if waypoint_of_waypoint {
        wp.waypoint = Some(GatewayAddress {
            destination: Destination::Address(NetworkAddress {
                network: String::new(),
                address: IpAddress::v4(10, 0, 0, 1),
            }),
            hbone_mtls_port: 15008,
        });
    }
    state.workloads.insert(wp);
    // The destination workload whose traffic must traverse the waypoint.
    let mut w = base_workload("uid-app");
    w.workload_ips = vec![IpAddress::v4(10, 1, 1, 1)];
    w.waypoint = Some(GatewayAddress {
        destination: Destination::Address(NetworkAddress {
            network: String::new(),
            address: IpAddress::v4(10, 0, 0, 1),
        }),
        hbone_mtls_port: 15008,
    });
    (DemandProxyState::new(state), w)
}

#[test]
fn waypoint_chaining_uses_waypoint_service_ip() {
    let (state, w) = waypoint_fixture(true);
    let us = state
        .fetch_waypoint(&w, IpAddress::v4(10, 1, 1, 1))
        .expect("no error")
        .expect("waypoint upstream");
    assert_eq!(us.workload.uid, "uid-waypoint");
    assert_eq!(
        us.workload.gateway_address,
        Some(SocketAddress { ip: IpAddress::v4(10, 0, 0, 1), port: 15008 })
    );
}

#[test]
fn waypoint_chaining_falls_back_to_workload_ip() {
    let (state, w) = waypoint_fixture(false);
    let us = state
        .fetch_waypoint(&w, IpAddress::v4(10, 1, 1, 1))
        .expect("no error")
        .expect("waypoint upstream");
    assert_eq!(
        us.workload.gateway_address,
        Some(SocketAddress { ip: IpAddress::v4(10, 1, 1, 1), port: 15008 })
    );
}

#[test]
fn waypoint_absent_means_none() {
    let (state, _) = waypoint_fixture(false);
    let w = base_workload("uid-plain");
    assert!(state.fetch_waypoint(&w, IpAddress::v4(10, 1, 1, 1)).expect("ok").is_none());
}

#[test]
fn waypoint_by_hostname_is_unsupported() {
    let (state, mut w) = waypoint_fixture(false);
    w.waypoint = Some(GatewayAddress {
        destination: Destination::Hostname(NamespacedHostname {
            namespace: "default".to_string(),
            hostname: "wp.example.com".to_string(),
        }),
        hbone_mtls_port: 15008,
    });
    match state.fetch_waypoint(&w, IpAddress::v4(10, 1, 1, 1)) {
        Err(WaypointError::UnsupportedFeature(_)) => {},
        _ => panic!("expected the unsupported-feature error"),
    }
}

#[test]
fn waypoint_upstream_missing_is_an_error() {
    let state = DemandProxyState::new(ProxyState::new());
    let mut w = base_workload("uid-app");
    w.waypoint = Some(GatewayAddress {
        destination: Destination::Address(NetworkAddress {
            network: String::new(),
            address: IpAddress::v4(10, 0, 0, 1),
        }),
        hbone_mtls_port: 15008,
    });
    match state.fetch_waypoint(&w, IpAddress::v4(10, 1, 1, 1)) {
        Err(WaypointError::FindWaypointError(name)) => assert_eq!(name, "test"),
        _ => panic!("expected the lookup-failed error"),
    }
}

#[test]
fn load_balance_prefers_own_ip() {
    let state = DemandProxyState::new(ProxyState::new());
    let mut w = base_workload("uid-app");
    w.workload_ips = vec![IpAddress::v4(10, 1, 1, 1)];
    assert_eq!(state.load_balance(&w, 0).expect("an IP"), IpAddress::v4(10, 1, 1, 1));
}

#[test]
fn load_balance_without_ips_or_hostname_fails() {
    let state = DemandProxyState::new(ProxyState::new());
    let w = base_workload("uid-app");
    match state.load_balance(&w, 0) {
        Err(Error::NoValidDestination(boxed)) => assert_eq!(boxed.uid, "uid-app"),
        _ => panic!("expected the no-valid-destination error"),
    }
}

#[test]
fn load_balance_hostname_without_cache_entry_fails() {
    let state = DemandProxyState::new(ProxyState::new());
    let mut w = base_workload("uid-app");
    w.hostname = "app.example.com".to_string();
    match state.load_balance(&w, 0) {
        Err(Error::NoResolvedAddresses(uid)) => assert_eq!(uid, "uid-app"),
        _ => panic!("expected the no-resolved-addresses error"),
    }
}

#[test]
fn fetch_workload_services_lists_back_references() {
    let state = upstream_fixture();
    let state = DemandProxyState::new(state);
    let a = network_addr(&String::new(), IpAddress::v4(10, 1, 1, 1));
    let (w, svcs) = state.fetch_workload_services(&a).expect("workload and services");
    assert_eq!(w.uid, "uid-backend");
    assert_eq!(svcs.len(), 1);
    assert_eq!(svcs[0].hostname, "defaulthost");
}
