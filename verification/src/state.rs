//! The proxy state: the three stores behind one value, and the composite
//! queries the connection path asks.
//!
//! Lookups prefer workloads over service VIPs for addresses — a workload
//! IP is more specific than a VIP — and services over workloads for
//! hostnames. Upstream selection resolves a VIP and port to one of the
//! service's endpoints, chosen uniformly at random, falling back to the
//! workload the address denotes directly. Waypoint chaining resolves the
//! next-hop socket when traffic to a workload must traverse a remote
//! waypoint proxy.

use vstd::prelude::*;

use crate::net::{network_addr, IpAddress, NamespacedHostname, NetworkAddress, SocketAddress};
use crate::policy::{
    keys_in_namespace_spec, rbac_decision, rbac_decision_spec, Connection, ConnectionView,
    get_policy_spec, Policy, PolicyStore, PolicyView,
};
use crate::service::{
    description_spec, get_by_host_spec, get_by_vip_spec, get_by_workload_spec, port_lookup,
    port_lookup_spec, Service, ServiceDescription, ServiceDescriptionView, ServiceStore,
    ServiceView,
};
use crate::workload::{
    find_address_spec, find_hostname_spec, find_uid_spec, DestinationView, Destination,
    Protocol, WaypointError, Workload, WorkloadStore, WorkloadView,
};
use crate::net::clone_string_vec;
use crate::resolver::{DnsCache, ResolvedDns};

verus! {

/// The resolved target of a flow: the workload to carry it, the target
/// port, the SANs to verify, and the service it was resolved through, if
/// any.
#[derive(Debug)]
pub struct Upstream {
    pub workload: Workload,
    pub port: u16,
    pub sans: Vec<String>,
    pub destination_service: Option<ServiceDescription>,
}

#[verifier::ext_equal]
pub ghost struct UpstreamView {
    pub workload: WorkloadView,
    pub port: u16,
    pub sans: Seq<Seq<char>>,
    pub destination_service: Option<ServiceDescriptionView>,
}

impl View for Upstream {
    type V = UpstreamView;

    open spec fn view(&self) -> UpstreamView {
        UpstreamView {
            workload: self.workload@,
            port: self.port,
            sans: self.sans.deep_view(),
            destination_service: match self.destination_service {
                Some(d) => Some(d@),
                None => None,
            },
        }
    }
}

impl Clone for Upstream {
    fn clone(&self) -> (r: Self)
        ensures
            r@ == self@,
    {
        let r = Upstream {
            workload: self.workload.clone(),
            port: self.port,
            sans: clone_string_vec(&self.sans),
            destination_service: match &self.destination_service {
                Some(d) => Some(d.clone()),
                None => None,
            },
        };
        proof {
            assert(r@ =~~= self@);
        }
        r
    }
}

/// What a lookup returned: a workload, or a service.
#[derive(Debug)]
pub enum Address {
    Workload(Box<Workload>),
    Service(Box<Service>),
}

pub ghost enum AddressView {
    Workload(WorkloadView),
    Service(ServiceView),
}

impl View for Address {
    type V = AddressView;

    open spec fn view(&self) -> AddressView {
        match self {
            Address::Workload(w) => AddressView::Workload(w@),
            Address::Service(s) => AddressView::Service(s@),
        }
    }
}

/// Why no IP could be produced for a destination workload.
#[derive(Debug)]
pub enum Error {
    /// The workload has no IPs and no hostname.
    NoValidDestination(Box<Workload>),
    /// The resolver has nothing for the workload's hostname.
    NoResolvedAddresses(String),
    /// The resolver's entry for the hostname holds no IPs.
    EmptyResolvedAddresses(String),
}

pub ghost enum ErrorView {
    NoValidDestination(WorkloadView),
    NoResolvedAddresses(Seq<char>),
    EmptyResolvedAddresses(Seq<char>),
}

impl View for Error {
    type V = ErrorView;

    open spec fn view(&self) -> ErrorView {
        match self {
            Error::NoValidDestination(w) => ErrorView::NoValidDestination(w@),
            Error::NoResolvedAddresses(s) => ErrorView::NoResolvedAddresses(s@),
            Error::EmptyResolvedAddresses(s) => ErrorView::EmptyResolvedAddresses(s@),
        }
    }
}

/// Relies on rand's `Rng::gen_range` over `0..len`: a uniformly random
/// index below `len`. The call panics only on an empty range, which the
/// precondition rules out; nothing more is promised of a random value.
#[verifier::external_body]
fn choose_index(len: usize) -> (i: usize)
    requires
        len > 0,
    ensures
        i < len,
{
    rand::Rng::gen_range(&mut rand::thread_rng(), 0..len)
}

#[verifier::ext_equal]
pub ghost struct ProxyStateView {
    pub workloads: Seq<WorkloadView>,
    pub services: Seq<ServiceView>,
    pub policies: Seq<PolicyView>,
}

/// The three stores behind one value. The discovery updater mutates them
/// through the fields; the connection path reads through the composite
/// queries below.
#[derive(Debug)]
pub struct ProxyState {
    pub workloads: WorkloadStore,
    pub services: ServiceStore,
    pub policies: PolicyStore,
}

impl View for ProxyState {
    type V = ProxyStateView;

    open spec fn view(&self) -> ProxyStateView {
        ProxyStateView {
            workloads: self.workloads@,
            services: self.services@,
            policies: self.policies@,
        }
    }
}

impl Default for ProxyState {
    /// The empty state.
    fn default() -> (r: ProxyState)
        ensures
            r@.workloads == Seq::<WorkloadView>::empty(),
            r@.services == Seq::<ServiceView>::empty(),
            r@.policies == Seq::<PolicyView>::empty(),
            r.wf(),
    {
        ProxyState::new()
    }
}

/// The address lookup: workloads first, then services by VIP.
pub open spec fn find_address_state_spec(
    sv: ProxyStateView,
    addr: crate::net::NetworkAddressView,
) -> Option<AddressView> {
    match find_address_spec(sv.workloads, addr) {
        Some(w) => Some(AddressView::Workload(w)),
        None => match get_by_vip_spec(sv.services, addr) {
            Some(s) => Some(AddressView::Service(s)),
            None => None,
        },
    }
}

/// The hostname lookup: services first, then workloads by bare hostname.
pub open spec fn find_hostname_state_spec(
    sv: ProxyStateView,
    name: crate::net::NamespacedHostnameView,
) -> Option<AddressView> {
    match get_by_host_spec(sv.services, name) {
        Some(s) => Some(AddressView::Service(s)),
        None => match find_hostname_spec(sv.workloads, name.hostname) {
            Some(w) => Some(AddressView::Workload(w)),
            None => None,
        },
    }
}

/// The destination lookup, dispatched on the variant.
pub open spec fn find_destination_state_spec(sv: ProxyStateView, dest: DestinationView) -> Option<
    AddressView,
> {
    match dest {
        DestinationView::Address(a) => find_address_state_spec(sv, a),
        DestinationView::Hostname(h) => find_hostname_state_spec(sv, h),
    }
}

/// A correct upstream built from the service a VIP resolved to: some
/// endpoint of it whose workload is known, carried on the endpoint's
/// override of the declared port if it has one, else the service's target
/// port, with the service's SANs and description.
pub open spec fn upstream_from_service(
    workloads: Seq<WorkloadView>,
    svc: ServiceView,
    declared_port: u16,
    target_port: u16,
    u: UpstreamView,
) -> bool {
    exists|i: int|
        0 <= i < svc.endpoints.len() && {
            let ep = #[trigger] svc.endpoints[i];
            match find_uid_spec(workloads, ep.workload_uid) {
                Some(w) => u == (UpstreamView {
                    workload: w,
                    port: match port_lookup_spec(ep.port, declared_port) {
                        Some(o) => o,
                        None => target_port,
                    },
                    sans: svc.subject_alt_names,
                    destination_service: Some(description_spec(svc)),
                }),
                None => false,
            }
        }
}

/// What `find_upstream` may return for a network and socket address. On a
/// VIP hit with a declared port, the result is built from one of the
/// service's endpoints; it is absent only when the service has none or the
/// chosen endpoint's workload is unknown. Without a VIP hit, the workload
/// the address denotes directly carries the flow on the queried port.
pub open spec fn find_upstream_post(
    sv: ProxyStateView,
    network: Seq<char>,
    addr: SocketAddress,
    r: Option<UpstreamView>,
) -> bool {
    let vip = crate::net::NetworkAddressView { network, address: addr.ip };
    match get_by_vip_spec(sv.services, vip) {
        Some(svc) => match port_lookup_spec(svc.ports, addr.port) {
            Some(target) => match r {
                Some(u) => upstream_from_service(sv.workloads, svc, addr.port, target, u),
                None => svc.endpoints.len() == 0 || exists|i: int|
                    0 <= i < svc.endpoints.len() && find_uid_spec(
                        sv.workloads,
                        (#[trigger] svc.endpoints[i]).workload_uid,
                    ) is None,
            },
            None => r is None,
        },
        None => match find_address_spec(sv.workloads, vip) {
            Some(w) => r == Some(
                UpstreamView {
                    workload: w,
                    port: addr.port,
                    sans: Seq::<Seq<char>>::empty(),
                    destination_service: None,
                },
            ),
            None => r is None,
        },
    }
}

impl ProxyState {
    /// Whether all three stores' invariants hold.
    pub open spec fn wf(&self) -> bool {
        self.workloads.wf() && self.services.wf() && self.policies.wf()
    }

    /// The empty state.
    pub fn new() -> (r: ProxyState)
        ensures
            r@.workloads == Seq::<WorkloadView>::empty(),
            r@.services == Seq::<ServiceView>::empty(),
            r@.policies == Seq::<PolicyView>::empty(),
            r.wf(),
    {
        ProxyState {
            workloads: WorkloadStore::new(),
            services: ServiceStore::new(),
            policies: PolicyStore::new(),
        }
    }

    /// Either a workload or a service, by destination.
    pub fn find_destination(&self, dest: &Destination) -> (r: Option<Address>)
        ensures
            (match r {
                Some(a) => find_destination_state_spec(self@, dest@) == Some(a@),
                None => find_destination_state_spec(self@, dest@) is None,
            }),
    {
        match dest {
            Destination::Address(addr) => self.find_address(addr),
            Destination::Hostname(hostname) => self.find_hostname(hostname),
        }
    }

    /// Either a workload or a service, by address. Workloads take
    /// precedence: their IPs are more specific than VIPs.
    pub fn find_address(&self, network_addr: &NetworkAddress) -> (r: Option<Address>)
        ensures
            (match r {
                Some(a) => find_address_state_spec(self@, network_addr@) == Some(a@),
                None => find_address_state_spec(self@, network_addr@) is None,
            }),
    {
        match self.workloads.find_address(network_addr) {
            None => {
                if let Some(svc) = self.services.get_by_vip(network_addr) {
                    return Some(Address::Service(Box::new(svc)));
                }
                None
            },
            Some(wl) => Some(Address::Workload(Box::new(wl))),
        }
    }

    /// Either a workload or a service, by hostname. Services come first:
    /// hostnames are usually service-level. Workload hostnames are global,
    /// so the namespace is ignored on the fallback.
    pub fn find_hostname(&self, name: &NamespacedHostname) -> (r: Option<Address>)
        ensures
            (match r {
                Some(a) => find_hostname_state_spec(self@, name@) == Some(a@),
                None => find_hostname_state_spec(self@, name@) is None,
            }),
    {
        match self.services.get_by_namespaced_host(name) {
            None => {
                match self.workloads.find_hostname(&name.hostname) {
                    Some(wl) => Some(Address::Workload(Box::new(wl))),
                    None => None,
                }
            },
            Some(svc) => Some(Address::Service(Box::new(svc))),
        }
    }

    /// The upstream to carry a flow towards `addr` in `network`: an
    /// endpoint of the service advertising the VIP, chosen uniformly at
    /// random, or the workload the address denotes directly.
    pub fn find_upstream(&self, network: &String, addr: SocketAddress) -> (r: Option<Upstream>)
        ensures
            find_upstream_post(
                self@,
                network@,
                addr,
                match r {
                    Some(u) => Some(u@),
                    None => None,
                },
            ),
    {
        let vip = network_addr(network, addr.ip);
        if let Some(svc) = self.services.get_by_vip(&vip) {
            let Some(target_port) = port_lookup(&svc.ports, addr.port) else {
                // The VIP is known but the port is not declared.
                return None;
            };
            if svc.endpoints.len() == 0 {
                // No endpoints to carry the flow.
                return None;
            }
            let idx = choose_index(svc.endpoints.len());
            let ep = &svc.endpoints[idx];
            let Some(wl) = self.workloads.find_uid(&ep.workload_uid) else {
                // A stale endpoint: its workload is not (yet) known.
                proof {
                    assert(find_uid_spec(self@.workloads, svc@.endpoints[idx as int].workload_uid)
                        is None);
                }
                return None;
            };
            let port = match port_lookup(&ep.port, addr.port) {
                Some(o) => o,
                None => target_port,
            };
            let us = Upstream {
                workload: wl,
                port,
                sans: clone_string_vec(&svc.subject_alt_names),
                destination_service: Some(ServiceDescription::of(&svc)),
            };
            proof {
                assert(us@ =~~= (UpstreamView {
                    workload: us@.workload,
                    port: us@.port,
                    sans: svc@.subject_alt_names,
                    destination_service: Some(description_spec(svc@)),
                }));
                assert(upstream_from_service(self@.workloads, svc@, addr.port, target_port, us@));
            }
            return Some(us);
        }
        match self.workloads.find_address(&vip) {
            Some(wl) => {
                let us = Upstream {
                    workload: wl,
                    port: addr.port,
                    sans: Vec::new(),
                    destination_service: None,
                };
                proof {
                    assert(us@.sans =~~= Seq::<Seq<char>>::empty());
                    assert(us@ =~~= (UpstreamView {
                        workload: us@.workload,
                        port: addr.port,
                        sans: Seq::<Seq<char>>::empty(),
                        destination_service: None,
                    }));
                }
                Some(us)
            },
            None => None,
        }
    }
}

/// The upstream after its gateway address is set, or nothing when the
/// workload's waypoint is addressed by hostname, which is unsupported. A
/// gateway already set is kept. Tunneled traffic goes to the waypoint
/// service's IP, or the workload's own, on the tunnel port; plain TCP goes
/// to the workload's IP on the upstream port.
pub open spec fn set_gateway_spec(
    u: UpstreamView,
    workload_ip: IpAddress,
    hbone_port: u16,
) -> Option<UpstreamView> {
    if u.workload.gateway_address is Some {
        Some(u)
    } else {
        match u.workload.protocol {
            Protocol::TCP => Some(
                upstream_with_gateway(u, SocketAddress { ip: workload_ip, port: u.port }),
            ),
            Protocol::HBONE => match u.workload.waypoint {
                Some(g) => match g.destination {
                    DestinationView::Address(a) => Some(
                        upstream_with_gateway(
                            u,
                            SocketAddress { ip: a.address, port: hbone_port },
                        ),
                    ),
                    DestinationView::Hostname(_) => None,
                },
                None => Some(
                    upstream_with_gateway(
                        u,
                        SocketAddress { ip: workload_ip, port: hbone_port },
                    ),
                ),
            },
        }
    }
}

/// The upstream with its workload's gateway address set.
pub open spec fn upstream_with_gateway(u: UpstreamView, g: SocketAddress) -> UpstreamView {
    UpstreamView {
        workload: WorkloadView { gateway_address: Some(g), ..u.workload },
        ..u
    }
}

/// Sets the upstream's gateway address for the flow, unless one is already
/// set. Fails only on a hostname waypoint, which is unsupported; the
/// upstream is then left as it was.
pub fn set_gateway_address(us: &mut Upstream, workload_ip: IpAddress, hbone_port: u16) -> (r:
    Result<(), WaypointError>)
    ensures
        (match set_gateway_spec(old(us)@, workload_ip, hbone_port) {
            Some(u2) => r is Ok && final(us)@ == u2,
            None => (r matches Err(e) && e@ is UnsupportedFeature) && final(us)@ == old(us)@,
        }),
{
    if us.workload.gateway_address.is_none() {
        match us.workload.protocol {
            Protocol::HBONE => {
                let ip = match us.workload.waypoint_svc_ip_address() {
                    Ok(Some(ip)) => ip,
                    Ok(None) => workload_ip,
                    Err(e) => {
                        return Err(e);
                    },
                };
                us.workload.gateway_address = Some(SocketAddress { ip, port: hbone_port });
                proof {
                    assert(us@ =~~= upstream_with_gateway(
                        old(us)@,
                        SocketAddress { ip, port: hbone_port },
                    ));
                }
            },
            Protocol::TCP => {
                let port = us.port;
                us.workload.gateway_address = Some(
                    SocketAddress { ip: workload_ip, port },
                );
                proof {
                    assert(us@ =~~= upstream_with_gateway(
                        old(us)@,
                        SocketAddress { ip: workload_ip, port },
                    ));
                }
            },
        }
    }
    Ok(())
}

/// The keys of the policies that can apply to a workload: those guarding
/// its namespace, those guarding the global root, and the ones attached to
/// the workload itself.
pub open spec fn applicable_keys_spec(ps: Seq<PolicyView>, w: WorkloadView) -> Seq<Seq<char>> {
    keys_in_namespace_spec(ps, w.namespace) + keys_in_namespace_spec(ps, Seq::<char>::empty())
        + w.authorization_policies
}

/// The policies a key list resolves to, in order; keys the store does not
/// know are silently skipped.
pub open spec fn lookup_all_spec(ps: Seq<PolicyView>, keys: Seq<Seq<char>>) -> Seq<PolicyView>
    decreases keys.len(),
{
    if keys.len() == 0 {
        Seq::<PolicyView>::empty()
    } else {
        lookup_all_spec(ps, keys.drop_last()) + (match get_policy_spec(ps, keys.last()) {
            Some(p) => seq![p],
            None => Seq::<PolicyView>::empty(),
        })
    }
}

/// The admission decision for a connection against the whole state: deny
/// when the destination workload is unknown, else decide over the policies
/// applicable to it.
pub open spec fn assert_rbac_spec(sv: ProxyStateView, c: ConnectionView) -> bool {
    match find_address_spec(
        sv.workloads,
        crate::net::NetworkAddressView { network: c.dst_network, address: c.dst_ip },
    ) {
        Some(w) => rbac_decision_spec(lookup_all_spec(sv.policies, applicable_keys_spec(sv.policies, w)), c),
        None => false,
    }
}

impl ProxyState {
    /// The policies applicable to a workload, resolved from its namespace,
    /// the global root namespace, and its attached policy list; unknown
    /// keys are skipped.
    #[verifier::loop_isolation(false)]
    pub fn policies_for_workload(&self, wl: &Workload) -> (r: Vec<Policy>)
        ensures
            r.deep_view() == lookup_all_spec(
                self@.policies,
                applicable_keys_spec(self@.policies, wl@),
            ),
    {
        let mut keys: Vec<String> = self.policies.get_by_namespace(&wl.namespace);
        let root_ns = String::new();
        let global: Vec<String> = self.policies.get_by_namespace(&root_ns);
        let ghost ns_keys = keys.deep_view();
        let ghost gl_keys = global.deep_view();
        let ghost wl_keys = wl@.authorization_policies;
        let ghost ns_len = ns_keys.len();
        let mut gi: usize = 0;
        while gi < global.len()
            invariant
                gi <= global.len(),
                keys@.len() == ns_len + gi,
                forall|k: int| 0 <= k < ns_len ==> #[trigger] keys@[k]@ == ns_keys[k],
                forall|k: int| 0 <= k < gi ==> #[trigger] keys@[ns_len + k]@ == gl_keys[k],
            decreases global.len() - gi,
        {
            keys.push(global[gi].clone());
            gi = gi + 1;
        }
        let ghost gl_len = gl_keys.len();
        let mut wi: usize = 0;
        while wi < wl.authorization_policies.len()
            invariant
                wi <= wl.authorization_policies.len(),
                keys@.len() == ns_len + gl_len + wi,
                forall|k: int| 0 <= k < ns_len ==> #[trigger] keys@[k]@ == ns_keys[k],
                forall|k: int| 0 <= k < gl_len ==> #[trigger] keys@[ns_len + k]@ == gl_keys[k],
                forall|k: int| 0 <= k < wi ==> #[trigger] keys@[ns_len + gl_len + k]@ == wl_keys[k],
            decreases wl.authorization_policies.len() - wi,
        {
            keys.push(wl.authorization_policies[wi].clone());
            wi = wi + 1;
        }
        proof {
            let app = applicable_keys_spec(self@.policies, wl@);
            assert(root_ns@ =~= Seq::<char>::empty());
            assert(gl_keys == keys_in_namespace_spec(self@.policies, Seq::<char>::empty()));
            assert forall|k: int| 0 <= k < app.len() implies keys.deep_view()[k] == app[k] by {
                if k < ns_len {
                    assert(keys@[k]@ == ns_keys[k]);
                } else if k < ns_len + gl_len {
                    assert(keys@[ns_len + (k - ns_len)]@ == gl_keys[k - ns_len]);
                } else {
                    assert(keys@[ns_len + gl_len + (k - ns_len - gl_len)]@ == wl_keys[k - ns_len
                        - gl_len]);
                }
            }
            assert(keys.deep_view() =~~= app);
        }
        let ghost ks = keys.deep_view();
        let mut pols: Vec<Policy> = Vec::new();
        let mut i: usize = 0;
        proof {
            assert(pols.deep_view() =~~= lookup_all_spec(self@.policies, ks.take(0)));
        }
        while i < keys.len()
            invariant
                i <= keys.len(),
                keys.deep_view() == ks,
                pols.deep_view() == lookup_all_spec(self@.policies, ks.take(i as int)),
            decreases keys.len() - i,
        {
            proof {
                assert(ks.take(i + 1).drop_last() =~~= ks.take(i as int));
                assert(ks.take(i + 1).last() == ks[i as int]);
            }
            match self.policies.get(&keys[i]) {
                Some(p) => {
                    pols.push(p);
                    proof {
                        assert(pols.deep_view() =~~= lookup_all_spec(
                            self@.policies,
                            ks.take(i + 1),
                        ));
                    }
                },
                None => {
                    proof {
                        assert(pols.deep_view() =~~= lookup_all_spec(
                            self@.policies,
                            ks.take(i + 1),
                        ));
                    }
                },
            }
            i = i + 1;
        }
        proof {
            assert(ks.take(ks.len() as int) =~~= ks);
        }
        pols
    }
}

/// Where randomly balanced traffic to a workload goes: one of its own IPs;
/// failing those, one of the IPs its hostname resolved to. A workload with
/// neither IPs nor hostname cannot be routed; a missing or empty
/// resolution is the corresponding error.
pub open spec fn load_balance_post(
    dst: WorkloadView,
    resolved: Option<crate::resolver::ResolvedDnsView>,
    r: Result<IpAddress, ErrorView>,
) -> bool {
    if dst.workload_ips.len() > 0 {
        r matches Ok(ip) && dst.workload_ips.contains(ip)
    } else if dst.hostname.len() == 0 {
        r == Err::<IpAddress, ErrorView>(ErrorView::NoValidDestination(dst))
    } else {
        match resolved {
            Some(rd) => if rd.ips.len() == 0 {
                r == Err::<IpAddress, ErrorView>(ErrorView::EmptyResolvedAddresses(dst.uid))
            } else {
                r matches Ok(ip) && rd.ips.contains(ip)
            },
            None => r == Err::<IpAddress, ErrorView>(ErrorView::NoResolvedAddresses(dst.uid)),
        }
    }
}

/// Picks the IP to carry a flow to `dst`, given what the resolver has for
/// its hostname. The choice among candidates is uniformly random.
pub fn load_balance_with(dst: &Workload, resolved: Option<ResolvedDns>) -> (r: Result<
    IpAddress,
    Error,
>)
    ensures
        load_balance_post(
            dst@,
            match resolved {
                Some(rd) => Some(rd@),
                None => None,
            },
            match r {
                Ok(ip) => Ok(ip),
                Err(e) => Err(e@),
            },
        ),
{
    if dst.workload_ips.len() > 0 {
        let i = choose_index(dst.workload_ips.len());
        let ip = dst.workload_ips[i];
        proof {
            assert(dst@.workload_ips[i as int] == ip);
        }
        return Ok(ip);
    }
    if dst.hostname.as_str().is_empty() {
        return Err(Error::NoValidDestination(Box::new(dst.clone())));
    }
    match resolved {
        Some(rd) => {
            if rd.ips.len() == 0 {
                Err(Error::EmptyResolvedAddresses(dst.uid.clone()))
            } else {
                let i = choose_index(rd.ips.len());
                let ip = rd.ips[i];
                proof {
                    assert(rd@.ips[i as int] == ip);
                }
                Ok(ip)
            }
        },
        None => Err(Error::NoResolvedAddresses(dst.uid.clone())),
    }
}

/// The proxy state together with the DNS cache, as the connection path
/// consumes them. The on-demand discovery loop is the caller's: with no
/// discovery client attached, a local lookup's answer is final, so each
/// fetch below answers from the state it holds.
#[derive(Debug)]
pub struct DemandProxyState {
    pub state: ProxyState,
    pub dns: DnsCache,
}

impl DemandProxyState {
    /// Wraps a state with an empty DNS cache.
    pub fn new(state: ProxyState) -> (r: DemandProxyState)
        ensures
            r.state@ == state@,
            r.dns@.resolved == Seq::<crate::resolver::ResolvedDnsView>::empty(),
            r.dns@.in_progress == Seq::<Seq<char>>::empty(),
            r.dns.wf(),
    {
        DemandProxyState { state, dns: DnsCache::new() }
    }

    /// The workload a network-qualified address denotes, if known.
    pub fn fetch_workload(&self, addr: &NetworkAddress) -> (r: Option<Workload>)
        ensures
            (match r {
                Some(w) => find_address_spec(self.state@.workloads, addr@) == Some(w@),
                None => find_address_spec(self.state@.workloads, addr@) is None,
            }),
    {
        self.state.workloads.find_address(addr)
    }

    /// The workload a uid denotes, if known.
    pub fn fetch_workload_by_uid(&self, uid: &String) -> (r: Option<Workload>)
        ensures
            (match r {
                Some(w) => find_uid_spec(self.state@.workloads, uid@) == Some(w@),
                None => find_uid_spec(self.state@.workloads, uid@) is None,
            }),
    {
        self.state.workloads.find_uid(uid)
    }

    /// The workload an address denotes together with the services whose
    /// endpoints reference it.
    pub fn fetch_workload_services(&self, addr: &NetworkAddress) -> (r: Option<
        (Workload, Vec<Service>),
    >)
        ensures
            (match r {
                Some((w, ss)) => find_address_spec(self.state@.workloads, addr@) == Some(w@)
                    && ss.deep_view() == get_by_workload_spec(self.state@.services, w@.uid),
                None => find_address_spec(self.state@.workloads, addr@) is None,
            }),
    {
        match self.state.workloads.find_address(addr) {
            Some(wl) => {
                let svcs = self.state.services.get_by_workload(&wl);
                Some((wl, svcs))
            },
            None => None,
        }
    }

    /// Either a workload or a service, by address.
    pub fn fetch_address(&self, network_addr: &NetworkAddress) -> (r: Option<Address>)
        ensures
            (match r {
                Some(a) => find_address_state_spec(self.state@, network_addr@) == Some(a@),
                None => find_address_state_spec(self.state@, network_addr@) is None,
            }),
    {
        self.state.find_address(network_addr)
    }

    /// Either a workload or a service, by hostname.
    pub fn fetch_hostname(&self, hostname: &NamespacedHostname) -> (r: Option<Address>)
        ensures
            (match r {
                Some(a) => find_hostname_state_spec(self.state@, hostname@) == Some(a@),
                None => find_hostname_state_spec(self.state@, hostname@) is None,
            }),
    {
        self.state.find_hostname(hostname)
    }

    /// Either a workload or a service, by destination.
    pub fn fetch_destination(&self, dest: &Destination) -> (r: Option<Address>)
        ensures
            (match r {
                Some(a) => find_destination_state_spec(self.state@, dest@) == Some(a@),
                None => find_destination_state_spec(self.state@, dest@) is None,
            }),
    {
        self.state.find_destination(dest)
    }

    /// The upstream to carry a flow towards `addr` in `network`.
    pub fn fetch_upstream(&self, network: &String, addr: SocketAddress) -> (r: Option<Upstream>)
        ensures
            find_upstream_post(
                self.state@,
                network@,
                addr,
                match r {
                    Some(u) => Some(u@),
                    None => None,
                },
            ),
    {
        self.state.find_upstream(network, addr)
    }

    /// The admission decision for a connection: deny when the destination
    /// workload is unknown; else gather the applicable policies and apply
    /// the strict Deny-first order.
    pub fn assert_rbac(&self, conn: &Connection) -> (r: bool)
        ensures
            r == assert_rbac_spec(self.state@, conn@),
    {
        let nw = network_addr(&conn.dst_network, conn.dst_ip);
        match self.state.workloads.find_address(&nw) {
            None => false,
            Some(wl) => {
                let pols = self.state.policies_for_workload(&wl);
                rbac_decision(&pols, conn)
            },
        }
    }

    /// Picks the IP to carry a flow to `dst`, consulting the DNS cache as
    /// it stands at `now` for hostname-only workloads.
    pub fn load_balance(&self, dst: &Workload, now_millis: u64) -> (r: Result<IpAddress, Error>)
        ensures
            load_balance_post(
                dst@,
                crate::resolver::find_resolved_spec(self.dns@.resolved, dst@.hostname, now_millis),
                match r {
                    Ok(ip) => Ok(ip),
                    Err(e) => Err(e@),
                },
            ),
    {
        let resolved = self.dns.find_resolved(&dst.hostname, now_millis);
        load_balance_with(dst, resolved)
    }

    /// The upstream through which traffic to `wl` must be tunneled, when
    /// it has a waypoint: the waypoint's upstream on its tunnel port, with
    /// the gateway address set for this flow. A workload without a
    /// waypoint needs none; a hostname waypoint is unsupported.
    pub fn fetch_waypoint(&self, wl: &Workload, workload_ip: IpAddress) -> (r: Result<
        Option<Upstream>,
        WaypointError,
    >)
        ensures
            fetch_waypoint_post(
                self.state@,
                wl@,
                workload_ip,
                match r {
                    Ok(Some(u)) => Ok(Some(u@)),
                    Ok(None) => Ok(None),
                    Err(e) => Err(e@),
                },
            ),
    {
        let ghost sv = self.state@;
        let Some(gw) = &wl.waypoint else {
            return Ok(None);
        };
        match &gw.destination {
            Destination::Hostname(_) => {
                let r = Err(
                    WaypointError::UnsupportedFeature(
                        "hostname waypoint not supported".to_owned(),
                    ),
                );
                proof {
                    assert(fetch_waypoint_post(sv, wl@, workload_ip, waypoint_result_view(&r)));
                }
                r
            },
            Destination::Address(wp_addr) => {
                let sock = SocketAddress { ip: wp_addr.address, port: gw.hbone_mtls_port };
                match self.fetch_upstream(&wp_addr.network, sock) {
                    Some(mut us) => {
                        let ghost u0 = us@;
                        match set_gateway_address(&mut us, workload_ip, gw.hbone_mtls_port) {
                            Ok(()) => {
                                proof {
                                    assert(find_upstream_post(sv, wp_addr@.network, sock, Some(u0))
                                        && set_gateway_spec(u0, workload_ip, gw@.hbone_mtls_port)
                                        == Some(us@));
                                }
                                let r = Ok(Some(us));
                                proof {
                                    assert(fetch_waypoint_post(
                                        sv,
                                        wl@,
                                        workload_ip,
                                        waypoint_result_view(&r),
                                    ));
                                }
                                r
                            },
                            Err(_) => {
                                proof {
                                    assert(find_upstream_post(sv, wp_addr@.network, sock, Some(u0))
                                        && set_gateway_spec(u0, workload_ip, gw@.hbone_mtls_port)
                                        is None);
                                }
                                let r = Err(WaypointError::FindWaypointError(wl.name.clone()));
                                proof {
                                    assert(fetch_waypoint_post(
                                        sv,
                                        wl@,
                                        workload_ip,
                                        waypoint_result_view(&r),
                                    ));
                                }
                                r
                            },
                        }
                    },
                    None => {
                        let r = Err(WaypointError::FindWaypointError(wl.name.clone()));
                        proof {
                            assert(fetch_waypoint_post(sv, wl@, workload_ip, waypoint_result_view(
                                &r,
                            )));
                        }
                        r
                    },
                }
            },
        }
    }
}

/// The view of what a waypoint fetch returned.
pub open spec fn waypoint_result_view(r: &Result<Option<Upstream>, WaypointError>) -> Result<
    Option<UpstreamView>,
    crate::workload::WaypointErrorView,
> {
    match r {
        Ok(Some(u)) => Ok(Some(u@)),
        Ok(None) => Ok(None),
        Err(e) => Err(e@),
    }
}

/// What a waypoint fetch may return. A workload without a waypoint needs
/// none; a hostname waypoint is unsupported. For an address waypoint, a
/// returned upstream is one the waypoint's VIP and tunnel port resolve to,
/// with its gateway address set; the lookup-failed error comes exactly
/// when the upstream was absent or its gateway could not be set.
pub open spec fn fetch_waypoint_post(
    sv: ProxyStateView,
    w: WorkloadView,
    workload_ip: IpAddress,
    r: Result<Option<UpstreamView>, crate::workload::WaypointErrorView>,
) -> bool {
    match w.waypoint {
        None => r == Ok::<Option<UpstreamView>, crate::workload::WaypointErrorView>(None),
        Some(g) => match g.destination {
            DestinationView::Hostname(_) => r matches Err(e) && e is UnsupportedFeature,
            DestinationView::Address(na) => {
                let sock = SocketAddress { ip: na.address, port: g.hbone_mtls_port };
                match r {
                    Ok(Some(u)) => exists|u0: UpstreamView|
                        #[trigger] find_upstream_post(sv, na.network, sock, Some(u0))
                            && set_gateway_spec(u0, workload_ip, g.hbone_mtls_port) == Some(u),
                    Ok(None) => false,
                    Err(e) => e is FindWaypointError && (find_upstream_post(
                        sv,
                        na.network,
                        sock,
                        None,
                    ) || exists|u0: UpstreamView|
                        #[trigger] find_upstream_post(sv, na.network, sock, Some(u0))
                            && set_gateway_spec(u0, workload_ip, g.hbone_mtls_port) is None),
                }
            },
        },
    }
}

/// Law: the admission decision denies on an unknown destination workload.
pub proof fn lemma_rbac_unknown_destination_denies(sv: ProxyStateView, c: ConnectionView)
    requires
        find_address_spec(
            sv.workloads,
            crate::net::NetworkAddressView { network: c.dst_network, address: c.dst_ip },
        ) is None,
    ensures
        !assert_rbac_spec(sv, c),
{
}

/// Law: for a service with a single endpoint pointing to a known workload,
/// the upstream is that workload, on the endpoint's override of the
/// declared port if it has one, else the service's target port.
pub proof fn lemma_single_endpoint_upstream(
    sv: ProxyStateView,
    network: Seq<char>,
    addr: SocketAddress,
    r: Option<UpstreamView>,
    svc: ServiceView,
    ep: crate::service::EndpointView,
    w: WorkloadView,
    target: u16,
)
    requires
        find_upstream_post(sv, network, addr, r),
        get_by_vip_spec(
            sv.services,
            crate::net::NetworkAddressView { network, address: addr.ip },
        ) == Some(svc),
        port_lookup_spec(svc.ports, addr.port) == Some(target),
        svc.endpoints == seq![ep],
        find_uid_spec(sv.workloads, ep.workload_uid) == Some(w),
    ensures
        r == Some(
            UpstreamView {
                workload: w,
                port: match port_lookup_spec(ep.port, addr.port) {
                    Some(o) => o,
                    None => target,
                },
                sans: svc.subject_alt_names,
                destination_service: Some(description_spec(svc)),
            },
        ),
{
    assert(svc.endpoints.len() == 1);
    assert(svc.endpoints[0] == ep);
    match r {
        Some(u) => {
            let i = choose|i: int|
                0 <= i < svc.endpoints.len() && {
                    let e = #[trigger] svc.endpoints[i];
                    match find_uid_spec(sv.workloads, e.workload_uid) {
                        Some(ww) => u == (UpstreamView {
                            workload: ww,
                            port: match port_lookup_spec(e.port, addr.port) {
                                Some(o) => o,
                                None => target,
                            },
                            sans: svc.subject_alt_names,
                            destination_service: Some(description_spec(svc)),
                        }),
                        None => false,
                    }
                };
            assert(i == 0);
        },
        None => {
            assert(exists|i: int|
                0 <= i < svc.endpoints.len() && find_uid_spec(
                    sv.workloads,
                    (#[trigger] svc.endpoints[i]).workload_uid,
                ) is None);
            let i = choose|i: int|
                0 <= i < svc.endpoints.len() && find_uid_spec(
                    sv.workloads,
                    (#[trigger] svc.endpoints[i]).workload_uid,
                ) is None;
            assert(i == 0);
            assert(false);
        },
    }
}

} // verus!
