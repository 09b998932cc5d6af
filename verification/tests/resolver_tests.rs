use proxy_state::net::IpAddress;
use proxy_state::resolver::{resolved_from_answers, DnsAnswer, DnsCache, ResolveStep};
use proxy_state::state::{DemandProxyState, Error, ProxyState};
use proxy_state::workload::{Protocol, Workload};

fn answer(ttl_secs: u32, ip: IpAddress) -> DnsAnswer {
    DnsAnswer { ttl_secs, ip }
}

fn hostname_workload(uid: &str, hostname: &str) -> Workload {
    Workload {
        uid: uid.to_string(),
        name: "test".to_string(),
        namespace: "default".to_string(),
        hostname: hostname.to_string(),
        network: String::new(),
        workload_ips: Vec::new(),
        waypoint: None,
        gateway_address: None,
        protocol: Protocol::TCP,
        authorization_policies: Vec::new(),
    }
}

#[test]
fn refresh_rate_is_minimum_ttl() {
    let host = "foo.bar".to_string();
    let answers = vec![
        answer(300, IpAddress::v4(10, 0, 0, 5)),
        answer(120, IpAddress::v4(10, 0, 0, 6)),
        answer(240, IpAddress::v4(10, 0, 0, 7)),
    ];
    let entry = resolved_from_answers(&host, &answers, 1000);
    assert_eq!(entry.refresh_rate_millis, 120 * 1000);
    assert_eq!(entry.initial_query_millis, 1000);
    assert_eq!(entry.hostname, "foo.bar");
    assert_eq!(
        entry.ips,
        vec![
            IpAddress::v4(10, 0, 0, 5),
            IpAddress::v4(10, 0, 0, 6),
            IpAddress::v4(10, 0, 0, 7),
        ]
    );
}

#[test]
fn refresh_rate_of_empty_response_is_sixty_seconds() {
    let host = "foo.bar".to_string();
    let entry = resolved_from_answers(&host, &Vec::new(), 0);
    assert_eq!(entry.refresh_rate_millis, 60_000);
    assert!(entry.ips.is_empty());
}

#[test]
fn single_flight_admits_one_leader() {
    let host = "foo.bar".to_string();
    let mut cache = DnsCache::new();

    // A burst of concurrent callers: the first leads, the rest wait.
    let mut leads: usize = 0;
    let mut waits: usize = 0;
    for _ in 0..100 {
        match cache.resolve_step(&host, 0) {
            ResolveStep::Lead => leads += 1,
            ResolveStep::Wait => waits += 1,
            ResolveStep::CacheHit(_) => panic!("nothing cached yet"),
        }
    }
    assert_eq!(leads, 1);
    assert_eq!(waits, 99);

    // The leader resolves, installs, wakes its waiters, clears the flight.
    let answers = vec![answer(200, IpAddress::v4(10, 0, 0, 5))];
    let entry = resolved_from_answers(&host, &answers, 50);
    cache.install(entry);
    cache.finish_resolve(&host);

    // Woken waiters and later callers within the TTL are served at once.
    for _ in 0..100 {
        match cache.resolve_step(&host, 1000) {
            ResolveStep::CacheHit(e) => {
                assert_eq!(e.ips, vec![IpAddress::v4(10, 0, 0, 5)]);
            },
            _ => panic!("expected a cache hit"),
        }
    }
}

#[test]
fn stale_entry_starts_a_new_flight() {
    let host = "foo.bar".to_string();
    let mut cache = DnsCache::new();
    let answers = vec![answer(200, IpAddress::v4(10, 0, 0, 5))];
    cache.install(resolved_from_answers(&host, &answers, 0));

    // Within the 200 s refresh rate: served from the cache.
    match cache.resolve_step(&host, 199_999) {
        ResolveStep::CacheHit(_) => {},
        _ => panic!("expected a cache hit"),
    }
    // At the refresh boundary the entry no longer serves.
    match cache.resolve_step(&host, 200_000) {
        ResolveStep::Lead => {},
        _ => panic!("expected to lead a fresh resolution"),
    }
}

#[test]
fn failed_resolution_leaves_cache_untouched() {
    let host = "foo.bar".to_string();
    let mut cache = DnsCache::new();
    assert!(matches!(cache.resolve_step(&host, 0), ResolveStep::Lead));
    // The leader's query failed: it only clears the flight.
    cache.finish_resolve(&host);
    assert!(cache.find_resolved(&host, 0).is_none());
    // The next caller leads again rather than waiting forever.
    assert!(matches!(cache.resolve_step(&host, 1), ResolveStep::Lead));
}

#[test]
fn load_balance_uses_fresh_resolution() {
    let mut state = DemandProxyState::new(ProxyState::new());
    let w = hostname_workload("uid-app", "app.example.com");
    let answers = vec![answer(300, IpAddress::v4(10, 0, 0, 9))];
    let entry = resolved_from_answers(&"app.example.com".to_string(), &answers, 0);
    state.dns.install(entry);
    assert_eq!(state.load_balance(&w, 10).expect("an IP"), IpAddress::v4(10, 0, 0, 9));
}

#[test]
fn load_balance_on_empty_resolution_fails() {
    let mut state = DemandProxyState::new(ProxyState::new());
    let w = hostname_workload("uid-app", "app.example.com");
    let entry = resolved_from_answers(&"app.example.com".to_string(), &Vec::new(), 0);
    state.dns.install(entry);
    match state.load_balance(&w, 10) {
        Err(Error::EmptyResolvedAddresses(uid)) => assert_eq!(uid, "uid-app"),
        _ => panic!("expected the empty-resolved-addresses error"),
    }
}
