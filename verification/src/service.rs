//! Services and the service store.
//!
//! A service is a VIP-addressable front for a set of backend endpoints,
//! each referencing a workload by uid. The store resolves a VIP or a
//! namespaced hostname to the service it denotes, and lists the services
//! whose endpoints reference a given workload. Endpoint records may point
//! at workloads not (yet) known; such stale references are tolerated and
//! skipped at query time.

use vstd::prelude::*;

use crate::lookup::{
    distinct_by, find_last, lemma_filter_distinct_by, lemma_filter_push,
    lemma_filter_subset, lemma_find_last_filter_excluded, lemma_find_last_filter_keep,
    lemma_find_last_push, lemma_find_last_some, lemma_find_last_take_found,
    lemma_find_last_take_step, lemma_push_distinct_by,
};
use crate::net::{
    clone_string_vec, NamespacedHostname, NamespacedHostnameView, NetworkAddress,
    NetworkAddressView,
};
use crate::workload::{Workload, WorkloadView};

verus! {

/// A member of a service's backend set. `port` maps a declared service
/// port to this endpoint's override of the target port.
#[derive(Debug)]
pub struct Endpoint {
    pub workload_uid: String,
    pub port: Vec<(u16, u16)>,
}

#[verifier::ext_equal]
pub ghost struct EndpointView {
    pub workload_uid: Seq<char>,
    pub port: Seq<(u16, u16)>,
}

impl View for Endpoint {
    type V = EndpointView;

    open spec fn view(&self) -> EndpointView {
        EndpointView { workload_uid: self.workload_uid@, port: self.port@ }
    }
}

impl DeepView for Endpoint {
    type V = EndpointView;

    open spec fn deep_view(&self) -> EndpointView {
        self.view()
    }
}

/// A copy of a vector of port pairs.
pub fn clone_port_vec(v: &Vec<(u16, u16)>) -> (r: Vec<(u16, u16)>)
    ensures
        r@ == v@,
{
    let mut out: Vec<(u16, u16)> = Vec::new();
    let mut i: usize = 0;
    while i < v.len()
        invariant
            i <= v.len(),
            out@ == v@.take(i as int),
        decreases v.len() - i,
    {
        out.push(v[i]);
        proof {
            assert(out@ =~= v@.take(i + 1));
        }
        i = i + 1;
    }
    proof {
        assert(v@.take(v@.len() as int) =~= v@);
    }
    out
}

impl Clone for Endpoint {
    fn clone(&self) -> (r: Self)
        ensures
            r@ == self@,
    {
        Endpoint { workload_uid: self.workload_uid.clone(), port: clone_port_vec(&self.port) }
    }
}

/// The target port a port map assigns to a declared port: the last entry
/// for that port, as a later writer wins.
pub open spec fn port_lookup_spec(ports: Seq<(u16, u16)>, port: u16) -> Option<u16>
    decreases ports.len(),
{
    if ports.len() == 0 {
        None
    } else if ports.last().0 == port {
        Some(ports.last().1)
    } else {
        port_lookup_spec(ports.drop_last(), port)
    }
}

/// Looks a declared port up in a port map.
#[verifier::loop_isolation(false)]
pub fn port_lookup(ports: &Vec<(u16, u16)>, port: u16) -> (r: Option<u16>)
    ensures
        r == port_lookup_spec(ports@, port),
{
    let mut i: usize = ports.len();
    proof {
        assert(ports@.take(ports@.len() as int) =~= ports@);
    }
    while i > 0
        invariant
            i <= ports.len(),
            port_lookup_spec(ports@, port) == port_lookup_spec(ports@.take(i as int), port),
        decreases i,
    {
        i = i - 1;
        proof {
            assert(ports@.take(i + 1).drop_last() =~= ports@.take(i as int));
            assert(ports@.take(i + 1).last() == ports@[i as int]);
        }
        if ports[i].0 == port {
            return Some(ports[i].1);
        }
    }
    proof {
        assert(ports@.take(0) =~= Seq::<(u16, u16)>::empty());
    }
    None
}

/// A VIP-addressable aggregate of endpoints.
#[derive(Debug)]
pub struct Service {
    pub name: String,
    pub namespace: String,
    pub hostname: String,
    pub vips: Vec<NetworkAddress>,
    pub ports: Vec<(u16, u16)>,
    pub endpoints: Vec<Endpoint>,
    pub subject_alt_names: Vec<String>,
}

#[verifier::ext_equal]
pub ghost struct ServiceView {
    pub name: Seq<char>,
    pub namespace: Seq<char>,
    pub hostname: Seq<char>,
    pub vips: Seq<NetworkAddressView>,
    pub ports: Seq<(u16, u16)>,
    pub endpoints: Seq<EndpointView>,
    pub subject_alt_names: Seq<Seq<char>>,
}

impl View for Service {
    type V = ServiceView;

    open spec fn view(&self) -> ServiceView {
        ServiceView {
            name: self.name@,
            namespace: self.namespace@,
            hostname: self.hostname@,
            vips: self.vips.deep_view(),
            ports: self.ports@,
            endpoints: self.endpoints.deep_view(),
            subject_alt_names: self.subject_alt_names.deep_view(),
        }
    }
}

impl DeepView for Service {
    type V = ServiceView;

    open spec fn deep_view(&self) -> ServiceView {
        self.view()
    }
}

/// A copy of a vector of network addresses.
pub fn clone_vip_vec(v: &Vec<NetworkAddress>) -> (r: Vec<NetworkAddress>)
    ensures
        r.deep_view() == v.deep_view(),
{
    let mut out: Vec<NetworkAddress> = Vec::new();
    let mut i: usize = 0;
    while i < v.len()
        invariant
            i <= v.len(),
            out@.len() == i,
            forall|k: int| 0 <= k < i ==> #[trigger] out@[k]@ == v@[k]@,
        decreases v.len() - i,
    {
        out.push(v[i].clone());
        i = i + 1;
    }
    proof {
        assert(out.deep_view() =~~= v.deep_view());
    }
    out
}

/// A copy of a vector of endpoints.
pub fn clone_endpoint_vec(v: &Vec<Endpoint>) -> (r: Vec<Endpoint>)
    ensures
        r.deep_view() == v.deep_view(),
{
    let mut out: Vec<Endpoint> = Vec::new();
    let mut i: usize = 0;
    while i < v.len()
        invariant
            i <= v.len(),
            out@.len() == i,
            forall|k: int| 0 <= k < i ==> #[trigger] out@[k]@ == v@[k]@,
        decreases v.len() - i,
    {
        out.push(v[i].clone());
        i = i + 1;
    }
    proof {
        assert(out.deep_view() =~~= v.deep_view());
    }
    out
}

impl Clone for Service {
    fn clone(&self) -> (r: Self)
        ensures
            r@ == self@,
    {
        let r = Service {
            name: self.name.clone(),
            namespace: self.namespace.clone(),
            hostname: self.hostname.clone(),
            vips: clone_vip_vec(&self.vips),
            ports: clone_port_vec(&self.ports),
            endpoints: clone_endpoint_vec(&self.endpoints),
            subject_alt_names: clone_string_vec(&self.subject_alt_names),
        };
        proof {
            assert(r@ =~~= self@);
        }
        r
    }
}

/// A summary of the service a flow was resolved through.
#[derive(Debug)]
pub struct ServiceDescription {
    pub name: String,
    pub namespace: String,
    pub hostname: String,
}

#[verifier::ext_equal]
pub ghost struct ServiceDescriptionView {
    pub name: Seq<char>,
    pub namespace: Seq<char>,
    pub hostname: Seq<char>,
}

impl View for ServiceDescription {
    type V = ServiceDescriptionView;

    open spec fn view(&self) -> ServiceDescriptionView {
        ServiceDescriptionView {
            name: self.name@,
            namespace: self.namespace@,
            hostname: self.hostname@,
        }
    }
}

impl Clone for ServiceDescription {
    fn clone(&self) -> (r: Self)
        ensures
            r@ == self@,
    {
        ServiceDescription {
            name: self.name.clone(),
            namespace: self.namespace.clone(),
            hostname: self.hostname.clone(),
        }
    }
}

/// The summary a service flattens to.
pub open spec fn description_spec(s: ServiceView) -> ServiceDescriptionView {
    ServiceDescriptionView { name: s.name, namespace: s.namespace, hostname: s.hostname }
}

impl ServiceDescription {
    /// The summary of the given service.
    pub fn of(s: &Service) -> (r: ServiceDescription)
        ensures
            r@ == description_spec(s@),
    {
        ServiceDescription {
            name: s.name.clone(),
            namespace: s.namespace.clone(),
            hostname: s.hostname.clone(),
        }
    }
}

/// A service's key: its namespaced hostname.
pub open spec fn svc_key(s: ServiceView) -> NamespacedHostnameView {
    NamespacedHostnameView { namespace: s.namespace, hostname: s.hostname }
}

/// A service matches a VIP when its VIP set contains it.
pub open spec fn svc_has_vip(s: ServiceView, addr: NetworkAddressView) -> bool {
    s.vips.contains(addr)
}

/// A service references a workload uid when one of its endpoints does.
pub open spec fn svc_references(s: ServiceView, uid: Seq<char>) -> bool {
    svc_references_eps(s.endpoints, uid)
}

/// The service a VIP denotes: the last inserted service advertising it.
pub open spec fn get_by_vip_spec(ss: Seq<ServiceView>, addr: NetworkAddressView) -> Option<
    ServiceView,
> {
    find_last(ss, |s: ServiceView| svc_has_vip(s, addr))
}

/// The service a namespaced hostname denotes.
pub open spec fn get_by_host_spec(ss: Seq<ServiceView>, key: NamespacedHostnameView) -> Option<
    ServiceView,
> {
    find_last(ss, |s: ServiceView| svc_key(s) == key)
}

/// The services whose endpoints reference the given workload uid, in
/// insertion order.
pub open spec fn get_by_workload_spec(ss: Seq<ServiceView>, uid: Seq<char>) -> Seq<ServiceView> {
    ss.filter(|s: ServiceView| svc_references(s, uid))
}

/// The store without any service of the given key.
pub open spec fn remove_svc_spec(ss: Seq<ServiceView>, key: NamespacedHostnameView) -> Seq<
    ServiceView,
> {
    ss.filter(|s: ServiceView| svc_key(s) != key)
}

/// Insertion drops any prior service with the same namespaced hostname and
/// appends the new one, replacing its VIP index entries atomically.
pub open spec fn insert_svc_spec(ss: Seq<ServiceView>, s: ServiceView) -> Seq<ServiceView> {
    remove_svc_spec(ss, svc_key(s)).push(s)
}

/// No two stored services share a namespaced hostname.
pub open spec fn svc_store_wf(ss: Seq<ServiceView>) -> bool {
    distinct_by(ss, |s: ServiceView| svc_key(s))
}

/// The indexed set of services, keyed by VIP and by namespaced hostname.
/// Lookups return a copy of the stored value.
#[derive(Debug)]
pub struct ServiceStore {
    services: Vec<Service>,
}

impl View for ServiceStore {
    type V = Seq<ServiceView>;

    closed spec fn view(&self) -> Seq<ServiceView> {
        self.services.deep_view()
    }
}

/// Whether a service's VIP vector holds the given address.
fn vip_vec_contains(v: &Vec<NetworkAddress>, addr: &NetworkAddress) -> (r: bool)
    ensures
        r == v.deep_view().contains(addr@),
{
    let mut i: usize = 0;
    while i < v.len()
        invariant
            i <= v.len(),
            forall|j: int| 0 <= j < i ==> v.deep_view()[j] != addr@,
        decreases v.len() - i,
    {
        if v[i].same_as(addr) {
            proof {
                assert(v.deep_view()[i as int] == addr@);
            }
            return true;
        }
        i = i + 1;
    }
    proof {
        assert(forall|j: int| 0 <= j < v.deep_view().len() ==> v.deep_view()[j] != addr@);
    }
    false
}

/// Whether one of the endpoints references the given uid.
fn endpoints_reference(eps: &Vec<Endpoint>, uid: &String) -> (r: bool)
    ensures
        r == svc_references_eps(eps.deep_view(), uid@),
{
    let mut i: usize = 0;
    while i < eps.len()
        invariant
            i <= eps.len(),
            forall|j: int| 0 <= j < i ==> (#[trigger] eps.deep_view()[j]).workload_uid != uid@,
        decreases eps.len() - i,
    {
        if eps[i].workload_uid == *uid {
            proof {
                assert(eps.deep_view()[i as int].workload_uid == uid@);
            }
            return true;
        }
        i = i + 1;
    }
    false
}

/// An endpoint sequence references a uid when one of its members does.
pub open spec fn svc_references_eps(eps: Seq<EndpointView>, uid: Seq<char>) -> bool {
    exists|i: int| 0 <= i < eps.len() && (#[trigger] eps[i]).workload_uid == uid
}

impl ServiceStore {
    /// Whether the store's key-uniqueness invariant holds.
    pub open spec fn wf(&self) -> bool {
        svc_store_wf(self@)
    }

    /// The empty store.
    pub fn new() -> (r: ServiceStore)
        ensures
            r@ == Seq::<ServiceView>::empty(),
            r.wf(),
    {
        let r = ServiceStore { services: Vec::new() };
        proof {
            assert(r@ =~~= Seq::<ServiceView>::empty());
        }
        r
    }

    /// The stored services, in insertion order.
    pub fn entries(&self) -> (r: &Vec<Service>)
        ensures
            r.deep_view() == self@,
    {
        &self.services
    }

    /// Adds a service, replacing any prior entry with the same namespaced
    /// hostname together with all its index entries.
    pub fn insert(&mut self, s: Service)
        requires
            old(self).wf(),
        ensures
            final(self).wf(),
            final(self)@ == insert_svc_spec(old(self)@, s@),
    {
        let ghost s_view = s@;
        let key = NamespacedHostname {
            namespace: s.namespace.clone(),
            hostname: s.hostname.clone(),
        };
        self.remove(&key);
        self.services.push(s);
        proof {
            assert(self@ =~~= insert_svc_spec(old(self)@, s_view));
            broadcast use vstd::seq_lib::group_filter_ensures;

            lemma_push_distinct_by(
                remove_svc_spec(old(self)@, svc_key(s_view)),
                s_view,
                |x: ServiceView| svc_key(x),
            );
        }
    }

    /// Removes the service with the given namespaced hostname, if any, and
    /// all its index entries.
    #[verifier::loop_isolation(false)]
    pub fn remove(&mut self, key: &NamespacedHostname)
        ensures
            final(self)@ == remove_svc_spec(old(self)@, key@),
            old(self).wf() ==> final(self).wf(),
    {
        let ghost ss = old(self)@;
        let ghost q = |x: ServiceView| svc_key(x) != key@;
        let mut kept: Vec<Service> = Vec::new();
        let mut i: usize = 0;
        while i < self.services.len()
            invariant
                i <= self.services.len(),
                self.services == old(self).services,
                kept.deep_view() == ss.take(i as int).filter(q),
            decreases self.services.len() - i,
        {
            proof {
                assert(ss.take(i + 1) =~~= ss.take(i as int).push(ss[i as int]));
                lemma_filter_push(ss.take(i as int), q, ss[i as int]);
            }
            if !(self.services[i].namespace == key.namespace && self.services[i].hostname
                == key.hostname) {
                kept.push(self.services[i].clone());
                proof {
                    assert(q(ss[i as int]));
                    assert(kept.deep_view() =~~= ss.take(i + 1).filter(q));
                }
            } else {
                proof {
                    assert(svc_key(ss[i as int]) =~= key@);
                    assert(!q(ss[i as int]));
                }
            }
            i = i + 1;
        }
        proof {
            assert(ss.take(ss.len() as int) =~~= ss);
        }
        self.services = kept;
        proof {
            if svc_store_wf(ss) {
                lemma_filter_distinct_by(ss, q, |x: ServiceView| svc_key(x));
            }
        }
    }

    /// The service advertising the given VIP, if any.
    #[verifier::loop_isolation(false)]
    pub fn get_by_vip(&self, addr: &NetworkAddress) -> (r: Option<Service>)
        ensures
            (match r {
                Some(s) => get_by_vip_spec(self@, addr@) == Some(s@),
                None => get_by_vip_spec(self@, addr@) is None,
            }),
    {
        let ghost ss = self@;
        let ghost p = |s: ServiceView| svc_has_vip(s, addr@);
        let mut i: usize = self.services.len();
        proof {
            assert(ss.take(self.services.len() as int) =~~= ss);
        }
        while i > 0
            invariant
                i <= self.services.len(),
                find_last(ss, p) == find_last(ss.take(i as int), p),
            decreases i,
        {
            i = i - 1;
            if vip_vec_contains(&self.services[i].vips, addr) {
                proof {
                    lemma_find_last_take_found(ss, p, i as int);
                }
                return Some(self.services[i].clone());
            }
            proof {
                lemma_find_last_take_step(ss, p, i as int);
            }
        }
        proof {
            assert(ss.take(0) =~~= Seq::<ServiceView>::empty());
        }
        None
    }

    /// The service with the given namespaced hostname, if any.
    #[verifier::loop_isolation(false)]
    pub fn get_by_namespaced_host(&self, key: &NamespacedHostname) -> (r: Option<Service>)
        ensures
            (match r {
                Some(s) => get_by_host_spec(self@, key@) == Some(s@),
                None => get_by_host_spec(self@, key@) is None,
            }),
    {
        let ghost ss = self@;
        let ghost p = |s: ServiceView| svc_key(s) == key@;
        let mut i: usize = self.services.len();
        proof {
            assert(ss.take(self.services.len() as int) =~~= ss);
        }
        while i > 0
            invariant
                i <= self.services.len(),
                find_last(ss, p) == find_last(ss.take(i as int), p),
            decreases i,
        {
            i = i - 1;
            if self.services[i].namespace == key.namespace && self.services[i].hostname
                == key.hostname {
                proof {
                    assert(svc_key(ss[i as int]) =~= key@);
                    lemma_find_last_take_found(ss, p, i as int);
                }
                return Some(self.services[i].clone());
            }
            proof {
                assert(svc_key(ss[i as int]) != key@);
                lemma_find_last_take_step(ss, p, i as int);
            }
        }
        proof {
            assert(ss.take(0) =~~= Seq::<ServiceView>::empty());
        }
        None
    }

    /// The services whose endpoints reference the given workload, in
    /// insertion order.
    #[verifier::loop_isolation(false)]
    pub fn get_by_workload(&self, w: &Workload) -> (r: Vec<Service>)
        ensures
            r.deep_view() == get_by_workload_spec(self@, w@.uid),
    {
        let ghost ss = self@;
        let ghost p = |s: ServiceView| svc_references(s, w@.uid);
        let mut out: Vec<Service> = Vec::new();
        let mut i: usize = 0;
        while i < self.services.len()
            invariant
                i <= self.services.len(),
                out.deep_view() == ss.take(i as int).filter(p),
            decreases self.services.len() - i,
        {
            proof {
                assert(ss.take(i + 1) =~~= ss.take(i as int).push(ss[i as int]));
                lemma_filter_push(ss.take(i as int), p, ss[i as int]);
            }
            if endpoints_reference(&self.services[i].endpoints, &w.uid) {
                out.push(self.services[i].clone());
                proof {
                    assert(p(ss[i as int]));
                    assert(out.deep_view() =~~= ss.take(i + 1).filter(p));
                }
            } else {
                proof {
                    assert(!p(ss[i as int]));
                }
            }
            i = i + 1;
        }
        proof {
            assert(ss.take(ss.len() as int) =~~= ss);
        }
        out
    }
}

/// Law: a freshly inserted service is found under its namespaced hostname
/// and under every VIP it advertises.
pub proof fn lemma_service_insert_found(ss: Seq<ServiceView>, s: ServiceView)
    ensures
        get_by_host_spec(insert_svc_spec(ss, s), svc_key(s)) == Some(s),
        forall|v: NetworkAddressView|
            s.vips.contains(v) ==> get_by_vip_spec(insert_svc_spec(ss, s), v) == Some(s),
{
    let kept = remove_svc_spec(ss, svc_key(s));
    lemma_find_last_push(kept, |x: ServiceView| svc_key(x) == svc_key(s), s);
    assert forall|v: NetworkAddressView| s.vips.contains(v) implies get_by_vip_spec(
        insert_svc_spec(ss, s),
        v,
    ) == Some(s) by {
        assert(svc_has_vip(s, v));
        lemma_find_last_push(kept, |x: ServiceView| svc_has_vip(x, v), s);
    }
}

/// Law: a service stays found under its key and its VIPs across a later
/// insert of a different key, as long as the newcomer does not advertise
/// the looked-up VIP itself.
pub proof fn lemma_service_insert_preserves(ss: Seq<ServiceView>, s: ServiceView, s2: ServiceView)
    requires
        svc_key(s2) != svc_key(s),
    ensures
        get_by_host_spec(ss, svc_key(s)) == Some(s) ==> get_by_host_spec(
            insert_svc_spec(ss, s2),
            svc_key(s),
        ) == Some(s),
        forall|v: NetworkAddressView|
            #[trigger] get_by_vip_spec(ss, v) == Some(s) && !svc_has_vip(s2, v)
                ==> get_by_vip_spec(insert_svc_spec(ss, s2), v) == Some(s),
{
    let q = |x: ServiceView| svc_key(x) != svc_key(s2);
    if get_by_host_spec(ss, svc_key(s)) == Some(s) {
        lemma_find_last_some(ss, |x: ServiceView| svc_key(x) == svc_key(s), s);
        lemma_find_last_filter_keep(ss, |x: ServiceView| svc_key(x) == svc_key(s), q, s);
        lemma_find_last_push(
            remove_svc_spec(ss, svc_key(s2)),
            |x: ServiceView| svc_key(x) == svc_key(s),
            s2,
        );
    }
    assert forall|v: NetworkAddressView|
        #[trigger] get_by_vip_spec(ss, v) == Some(s) && !svc_has_vip(s2, v) implies
        get_by_vip_spec(insert_svc_spec(ss, s2), v) == Some(s) by {
        let p = |x: ServiceView| svc_has_vip(x, v);
        lemma_find_last_filter_keep(ss, p, q, s);
        lemma_find_last_push(remove_svc_spec(ss, svc_key(s2)), p, s2);
    }
}

/// Law: a service stays found under its key and its VIPs across the
/// removal of a different key.
pub proof fn lemma_service_remove_preserves(
    ss: Seq<ServiceView>,
    s: ServiceView,
    key2: NamespacedHostnameView,
)
    requires
        svc_key(s) != key2,
    ensures
        get_by_host_spec(ss, svc_key(s)) == Some(s) ==> get_by_host_spec(
            remove_svc_spec(ss, key2),
            svc_key(s),
        ) == Some(s),
        forall|v: NetworkAddressView|
            #[trigger] get_by_vip_spec(ss, v) == Some(s) ==> get_by_vip_spec(
                remove_svc_spec(ss, key2),
                v,
            ) == Some(s),
{
    let q = |x: ServiceView| svc_key(x) != key2;
    if get_by_host_spec(ss, svc_key(s)) == Some(s) {
        lemma_find_last_filter_keep(ss, |x: ServiceView| svc_key(x) == svc_key(s), q, s);
    }
    assert forall|v: NetworkAddressView|
        #[trigger] get_by_vip_spec(ss, v) == Some(s) implies get_by_vip_spec(
        remove_svc_spec(ss, key2),
        v,
    ) == Some(s) by {
        lemma_find_last_filter_keep(ss, |x: ServiceView| svc_has_vip(x, v), q, s);
    }
}

/// Law: after a removal no lookup, by namespaced hostname or by VIP,
/// yields a service with the removed key.
pub proof fn lemma_service_remove_clears(ss: Seq<ServiceView>, key: NamespacedHostnameView)
    ensures
        get_by_host_spec(remove_svc_spec(ss, key), key) is None,
        forall|v: NetworkAddressView|
            (match #[trigger] get_by_vip_spec(remove_svc_spec(ss, key), v) {
                Some(s) => svc_key(s) != key,
                None => true,
            }),
{
    let q = |x: ServiceView| svc_key(x) != key;
    let kept = remove_svc_spec(ss, key);
    lemma_find_last_filter_excluded(ss, |x: ServiceView| svc_key(x) == key, q);
    lemma_filter_subset(ss, q);
    assert forall|v: NetworkAddressView|
        (match #[trigger] get_by_vip_spec(kept, v) {
            Some(s) => svc_key(s) != key,
            None => true,
        }) by {
        match get_by_vip_spec(kept, v) {
            Some(s) => {
                lemma_find_last_some(kept, |x: ServiceView| svc_has_vip(x, v), s);
            },
            None => {},
        }
    }
}

} // verus!
