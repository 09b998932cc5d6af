//! Workloads and the workload store.
//!
//! A workload is a routable endpoint with a stable identity: a globally
//! unique `uid`, zero or more IPs, and an optional hostname for workloads
//! addressable only by name. The store resolves a uid, a network-qualified
//! IP, or a hostname to the workload it denotes; on colliding keys the last
//! writer wins.

use vstd::prelude::*;

use crate::lookup::{
    distinct_by, find_last, lemma_filter_distinct_by, lemma_filter_push,
    lemma_filter_retains_all, lemma_filter_subset, lemma_find_last_filter_excluded,
    lemma_find_last_filter_keep, lemma_find_last_none, lemma_find_last_push,
    lemma_find_last_some, lemma_find_last_take_found, lemma_find_last_take_step,
    lemma_push_distinct_by,
};
use crate::net::{
    clone_ip_vec, clone_string_vec, ip_vec_contains, IpAddress, NamespacedHostname,
    NamespacedHostnameView, NetworkAddress, NetworkAddressView, SocketAddress,
};

verus! {

/// The transport used towards a workload: tunneled between proxies, or
/// plain TCP.
#[derive(Clone, Copy, PartialEq, Eq, Structural, Debug, Hash)]
pub enum Protocol {
    HBONE,
    TCP,
}

/// Where a gateway redirects traffic to: an address, or a hostname.
#[derive(Debug)]
pub enum Destination {
    Address(NetworkAddress),
    Hostname(NamespacedHostname),
}

pub ghost enum DestinationView {
    Address(NetworkAddressView),
    Hostname(NamespacedHostnameView),
}

impl View for Destination {
    type V = DestinationView;

    open spec fn view(&self) -> DestinationView {
        match self {
            Destination::Address(a) => DestinationView::Address(a@),
            Destination::Hostname(h) => DestinationView::Hostname(h@),
        }
    }
}

impl Clone for Destination {
    fn clone(&self) -> (r: Self)
        ensures
            r@ == self@,
    {
        match self {
            Destination::Address(a) => Destination::Address(a.clone()),
            Destination::Hostname(h) => Destination::Hostname(h.clone()),
        }
    }
}

/// A waypoint proxy through which traffic to a workload must be tunneled.
#[derive(Debug)]
pub struct GatewayAddress {
    pub destination: Destination,
    pub hbone_mtls_port: u16,
}

#[verifier::ext_equal]
pub ghost struct GatewayAddressView {
    pub destination: DestinationView,
    pub hbone_mtls_port: u16,
}

impl View for GatewayAddress {
    type V = GatewayAddressView;

    open spec fn view(&self) -> GatewayAddressView {
        GatewayAddressView {
            destination: self.destination@,
            hbone_mtls_port: self.hbone_mtls_port,
        }
    }
}

impl Clone for GatewayAddress {
    fn clone(&self) -> (r: Self)
        ensures
            r@ == self@,
    {
        GatewayAddress {
            destination: self.destination.clone(),
            hbone_mtls_port: self.hbone_mtls_port,
        }
    }
}

/// Why a waypoint could not be resolved.
#[derive(Debug)]
pub enum WaypointError {
    /// The waypoint's upstream could not be located, or its gateway
    /// address could not be set.
    FindWaypointError(String),
    /// The waypoint is addressed by hostname, which is not supported.
    UnsupportedFeature(String),
}

pub ghost enum WaypointErrorView {
    FindWaypointError(Seq<char>),
    UnsupportedFeature(Seq<char>),
}

impl View for WaypointError {
    type V = WaypointErrorView;

    open spec fn view(&self) -> WaypointErrorView {
        match self {
            WaypointError::FindWaypointError(s) => WaypointErrorView::FindWaypointError(s@),
            WaypointError::UnsupportedFeature(s) => WaypointErrorView::UnsupportedFeature(s@),
        }
    }
}

/// A routable endpoint with a stable identity. A workload has either at
/// least one IP or a hostname; one with neither cannot be routed.
#[derive(Debug)]
pub struct Workload {
    pub uid: String,
    pub name: String,
    pub namespace: String,
    pub hostname: String,
    pub network: String,
    pub workload_ips: Vec<IpAddress>,
    pub waypoint: Option<GatewayAddress>,
    pub gateway_address: Option<SocketAddress>,
    pub protocol: Protocol,
    pub authorization_policies: Vec<String>,
}

#[verifier::ext_equal]
pub ghost struct WorkloadView {
    pub uid: Seq<char>,
    pub name: Seq<char>,
    pub namespace: Seq<char>,
    pub hostname: Seq<char>,
    pub network: Seq<char>,
    pub workload_ips: Seq<IpAddress>,
    pub waypoint: Option<GatewayAddressView>,
    pub gateway_address: Option<SocketAddress>,
    pub protocol: Protocol,
    pub authorization_policies: Seq<Seq<char>>,
}

impl View for Workload {
    type V = WorkloadView;

    open spec fn view(&self) -> WorkloadView {
        WorkloadView {
            uid: self.uid@,
            name: self.name@,
            namespace: self.namespace@,
            hostname: self.hostname@,
            network: self.network@,
            workload_ips: self.workload_ips@,
            waypoint: match self.waypoint {
                Some(g) => Some(g@),
                None => None,
            },
            gateway_address: self.gateway_address,
            protocol: self.protocol,
            authorization_policies: self.authorization_policies.deep_view(),
        }
    }
}

impl DeepView for Workload {
    type V = WorkloadView;

    open spec fn deep_view(&self) -> WorkloadView {
        self.view()
    }
}

impl Clone for Workload {
    fn clone(&self) -> (r: Self)
        ensures
            r@ == self@,
    {
        let r = Workload {
            uid: self.uid.clone(),
            name: self.name.clone(),
            namespace: self.namespace.clone(),
            hostname: self.hostname.clone(),
            network: self.network.clone(),
            workload_ips: clone_ip_vec(&self.workload_ips),
            waypoint: match &self.waypoint {
                Some(g) => Some(g.clone()),
                None => None,
            },
            gateway_address: self.gateway_address,
            protocol: self.protocol,
            authorization_policies: clone_string_vec(&self.authorization_policies),
        };
        proof {
            assert(r@ =~~= self@);
        }
        r
    }
}

impl Workload {
    /// The IP the workload's waypoint service is addressed by, when its
    /// waypoint is given as an address. A hostname waypoint is not
    /// supported.
    pub fn waypoint_svc_ip_address(&self) -> (r: Result<Option<IpAddress>, WaypointError>)
        ensures
            self@.waypoint is None ==> r == Ok::<Option<IpAddress>, WaypointError>(None),
            (match self@.waypoint {
                Some(g) => g.destination matches DestinationView::Address(na) ==> r == Ok::<
                    Option<IpAddress>,
                    WaypointError,
                >(Some(na.address)),
                None => true,
            }),
            (match self@.waypoint {
                Some(g) => g.destination is Hostname ==> (r matches Err(e) && e@
                    is UnsupportedFeature),
                None => true,
            }),
    {
        match &self.waypoint {
            Some(gw) => match &gw.destination {
                Destination::Address(na) => Ok(Some(na.address)),
                Destination::Hostname(_) => Err(
                    WaypointError::UnsupportedFeature(
                        "hostname waypoint not supported".to_owned(),
                    ),
                ),
            },
            None => Ok(None),
        }
    }
}

/// A workload matches a network-qualified address when the networks agree
/// and the address is one of the workload's IPs.
pub open spec fn wl_has_address(w: WorkloadView, addr: NetworkAddressView) -> bool {
    w.network == addr.network && w.workload_ips.contains(addr.address)
}

/// A workload is indexed by its hostname only when it has one.
pub open spec fn wl_has_hostname(w: WorkloadView, hostname: Seq<char>) -> bool {
    w.hostname == hostname && w.hostname.len() > 0
}

/// The workload a uid denotes: the last inserted workload carrying it.
pub open spec fn find_uid_spec(s: Seq<WorkloadView>, uid: Seq<char>) -> Option<WorkloadView> {
    find_last(s, |w: WorkloadView| w.uid == uid)
}

/// The workload a network-qualified address denotes.
pub open spec fn find_address_spec(s: Seq<WorkloadView>, addr: NetworkAddressView) -> Option<
    WorkloadView,
> {
    find_last(s, |w: WorkloadView| wl_has_address(w, addr))
}

/// The workload a bare hostname denotes.
pub open spec fn find_hostname_spec(s: Seq<WorkloadView>, hostname: Seq<char>) -> Option<
    WorkloadView,
> {
    find_last(s, |w: WorkloadView| wl_has_hostname(w, hostname))
}

/// The store without any workload of the given uid.
pub open spec fn remove_uid_spec(s: Seq<WorkloadView>, uid: Seq<char>) -> Seq<WorkloadView> {
    s.filter(|w: WorkloadView| w.uid != uid)
}

/// Insertion drops any prior entry with the same uid and appends the new
/// workload, so every one of its index entries is replaced atomically.
pub open spec fn insert_spec(s: Seq<WorkloadView>, w: WorkloadView) -> Seq<WorkloadView> {
    remove_uid_spec(s, w.uid).push(w)
}

/// No two stored workloads share a uid.
pub open spec fn store_wf(s: Seq<WorkloadView>) -> bool {
    distinct_by(s, |w: WorkloadView| w.uid)
}

/// The indexed set of workloads, keyed by uid, by network-qualified IP and
/// by hostname. Lookups return a copy of the stored value.
#[derive(Debug)]
pub struct WorkloadStore {
    workloads: Vec<Workload>,
}

impl View for WorkloadStore {
    type V = Seq<WorkloadView>;

    closed spec fn view(&self) -> Seq<WorkloadView> {
        self.workloads.deep_view()
    }
}

impl WorkloadStore {
    /// Whether the store's uid-uniqueness invariant holds.
    pub open spec fn wf(&self) -> bool {
        store_wf(self@)
    }

    /// The empty store.
    pub fn new() -> (r: WorkloadStore)
        ensures
            r@ == Seq::<WorkloadView>::empty(),
            r.wf(),
    {
        let r = WorkloadStore { workloads: Vec::new() };
        proof {
            assert(r@ =~~= Seq::<WorkloadView>::empty());
        }
        r
    }

    /// The stored workloads, in insertion order.
    pub fn entries(&self) -> (r: &Vec<Workload>)
        ensures
            r.deep_view() == self@,
    {
        &self.workloads
    }

    /// Adds a workload, replacing any prior entry with the same uid
    /// together with all its index entries.
    pub fn insert(&mut self, w: Workload)
        requires
            old(self).wf(),
        ensures
            final(self).wf(),
            final(self)@ == insert_spec(old(self)@, w@),
    {
        let ghost w_view = w@;
        let uid = w.uid.clone();
        self.remove_uid(&uid);
        self.workloads.push(w);
        proof {
            assert(self@ =~~= insert_spec(old(self)@, w_view));
            broadcast use vstd::seq_lib::group_filter_ensures;

            let key = |x: WorkloadView| x.uid;
            let q = |x: WorkloadView| x.uid != w_view.uid;
            let filtered = remove_uid_spec(old(self)@, w_view.uid);
            lemma_push_distinct_by(filtered, w_view, key);
        }
    }

    /// Removes the workload with the given uid, if any, and all its index
    /// entries.
    #[verifier::loop_isolation(false)]
    pub fn remove_uid(&mut self, uid: &String)
        ensures
            final(self)@ == remove_uid_spec(old(self)@, uid@),
            old(self).wf() ==> final(self).wf(),
    {
        let ghost s = old(self)@;
        let ghost q = |w: WorkloadView| w.uid != uid@;
        let mut kept: Vec<Workload> = Vec::new();
        let mut i: usize = 0;
        while i < self.workloads.len()
            invariant
                i <= self.workloads.len(),
                self.workloads == old(self).workloads,
                kept.deep_view() == s.take(i as int).filter(q),
            decreases self.workloads.len() - i,
        {
            proof {
                assert(s.take(i + 1) =~~= s.take(i as int).push(s[i as int]));
                lemma_filter_push(s.take(i as int), q, s[i as int]);
            }
            if !(self.workloads[i].uid == *uid) {
                kept.push(self.workloads[i].clone());
                proof {
                    assert(q(s[i as int]));
                    assert(kept.deep_view() =~~= s.take(i + 1).filter(q));
                }
            } else {
                proof {
                    assert(!q(s[i as int]));
                }
            }
            i = i + 1;
        }
        proof {
            assert(s.take(s.len() as int) =~~= s);
        }
        self.workloads = kept;
        proof {
            if store_wf(s) {
                lemma_filter_distinct_by(s, q, |w: WorkloadView| w.uid);
            }
        }
    }

    /// Removes the workload the given address denotes, if any, and all its
    /// index entries.
    pub fn remove_address(&mut self, addr: &NetworkAddress)
        ensures
            (match find_address_spec(old(self)@, addr@) {
                Some(w) => final(self)@ == remove_uid_spec(old(self)@, w.uid),
                None => final(self)@ == old(self)@,
            }),
            old(self).wf() ==> final(self).wf(),
    {
        match self.find_address(addr) {
            Some(w) => {
                self.remove_uid(&w.uid);
            },
            None => {
                proof {
                    assert(self@ =~~= old(self)@);
                }
            },
        }
    }

    /// The workload with the given uid, if any.
    #[verifier::loop_isolation(false)]
    pub fn find_uid(&self, uid: &String) -> (r: Option<Workload>)
        ensures
            (match r {
                Some(w) => find_uid_spec(self@, uid@) == Some(w@),
                None => find_uid_spec(self@, uid@) is None,
            }),
    {
        let ghost s = self@;
        let ghost p = |w: WorkloadView| w.uid == uid@;
        let mut i: usize = self.workloads.len();
        proof {
            assert(s.take(self.workloads.len() as int) =~~= s);
        }
        while i > 0
            invariant
                i <= self.workloads.len(),
                find_last(s, p) == find_last(s.take(i as int), p),
            decreases i,
        {
            i = i - 1;
            if self.workloads[i].uid == *uid {
                proof {
                    lemma_find_last_take_found(s, p, i as int);
                }
                return Some(self.workloads[i].clone());
            }
            proof {
                lemma_find_last_take_step(s, p, i as int);
            }
        }
        proof {
            assert(s.take(0) =~~= Seq::<WorkloadView>::empty());
        }
        None
    }

    /// The workload the given network-qualified address denotes, if any.
    #[verifier::loop_isolation(false)]
    pub fn find_address(&self, addr: &NetworkAddress) -> (r: Option<Workload>)
        ensures
            (match r {
                Some(w) => find_address_spec(self@, addr@) == Some(w@),
                None => find_address_spec(self@, addr@) is None,
            }),
    {
        let ghost s = self@;
        let ghost p = |w: WorkloadView| wl_has_address(w, addr@);
        let mut i: usize = self.workloads.len();
        proof {
            assert(s.take(self.workloads.len() as int) =~~= s);
        }
        while i > 0
            invariant
                i <= self.workloads.len(),
                find_last(s, p) == find_last(s.take(i as int), p),
            decreases i,
        {
            i = i - 1;
            if self.workloads[i].network == addr.network && ip_vec_contains(
                &self.workloads[i].workload_ips,
                addr.address,
            ) {
                proof {
                    lemma_find_last_take_found(s, p, i as int);
                }
                return Some(self.workloads[i].clone());
            }
            proof {
                lemma_find_last_take_step(s, p, i as int);
            }
        }
        proof {
            assert(s.take(0) =~~= Seq::<WorkloadView>::empty());
        }
        None
    }

    /// The workload the given bare hostname denotes, if any. Workload
    /// hostnames are global, so no namespace qualifies the lookup.
    #[verifier::loop_isolation(false)]
    pub fn find_hostname(&self, hostname: &String) -> (r: Option<Workload>)
        ensures
            (match r {
                Some(w) => find_hostname_spec(self@, hostname@) == Some(w@),
                None => find_hostname_spec(self@, hostname@) is None,
            }),
    {
        let ghost s = self@;
        let ghost p = |w: WorkloadView| wl_has_hostname(w, hostname@);
        if hostname.as_str().is_empty() {
            proof {
                lemma_find_last_none(s, p);
            }
            return None;
        }
        let mut i: usize = self.workloads.len();
        proof {
            assert(s.take(self.workloads.len() as int) =~~= s);
        }
        while i > 0
            invariant
                i <= self.workloads.len(),
                hostname@.len() > 0,
                find_last(s, p) == find_last(s.take(i as int), p),
            decreases i,
        {
            i = i - 1;
            if self.workloads[i].hostname == *hostname {
                proof {
                    lemma_find_last_take_found(s, p, i as int);
                }
                return Some(self.workloads[i].clone());
            }
            proof {
                lemma_find_last_take_step(s, p, i as int);
            }
        }
        proof {
            assert(s.take(0) =~~= Seq::<WorkloadView>::empty());
        }
        None
    }
}

/// Law: a freshly inserted workload is found under its uid and under every
/// network-qualified IP it carries.
pub proof fn lemma_insert_found(s: Seq<WorkloadView>, w: WorkloadView)
    ensures
        find_uid_spec(insert_spec(s, w), w.uid) == Some(w),
        forall|ip: IpAddress|
            w.workload_ips.contains(ip) ==> find_address_spec(
                insert_spec(s, w),
                NetworkAddressView { network: w.network, address: ip },
            ) == Some(w),
{
    let kept = remove_uid_spec(s, w.uid);
    lemma_find_last_push(kept, |x: WorkloadView| x.uid == w.uid, w);
    assert forall|ip: IpAddress| w.workload_ips.contains(ip) implies find_address_spec(
        insert_spec(s, w),
        NetworkAddressView { network: w.network, address: ip },
    ) == Some(w) by {
        let a = NetworkAddressView { network: w.network, address: ip };
        assert(wl_has_address(w, a));
        lemma_find_last_push(kept, |x: WorkloadView| wl_has_address(x, a), w);
    }
}

/// Law: a workload stays found under its uid and its addresses across a
/// later insert of a different uid, as long as the newcomer does not claim
/// the looked-up address for itself.
pub proof fn lemma_insert_preserves_lookups(s: Seq<WorkloadView>, w: WorkloadView, w2: WorkloadView)
    requires
        w2.uid != w.uid,
    ensures
        find_uid_spec(s, w.uid) == Some(w) ==> find_uid_spec(insert_spec(s, w2), w.uid) == Some(w),
        forall|a: NetworkAddressView|
            #[trigger] find_address_spec(s, a) == Some(w) && !wl_has_address(w2, a)
                ==> find_address_spec(insert_spec(s, w2), a) == Some(w),
{
    let q = |x: WorkloadView| x.uid != w2.uid;
    if find_uid_spec(s, w.uid) == Some(w) {
        lemma_find_last_some(s, |x: WorkloadView| x.uid == w.uid, w);
        lemma_find_last_filter_keep(s, |x: WorkloadView| x.uid == w.uid, q, w);
        lemma_find_last_push(remove_uid_spec(s, w2.uid), |x: WorkloadView| x.uid == w.uid, w2);
    }
    assert forall|a: NetworkAddressView|
        #[trigger] find_address_spec(s, a) == Some(w) && !wl_has_address(w2, a) implies
        find_address_spec(insert_spec(s, w2), a) == Some(w) by {
        let p = |x: WorkloadView| wl_has_address(x, a);
        lemma_find_last_filter_keep(s, p, q, w);
        lemma_find_last_push(remove_uid_spec(s, w2.uid), p, w2);
    }
}

/// Law: a workload stays found under its uid and its addresses across the
/// removal of a different uid.
pub proof fn lemma_remove_preserves_lookups(s: Seq<WorkloadView>, w: WorkloadView, uid2: Seq<char>)
    requires
        w.uid != uid2,
    ensures
        find_uid_spec(s, w.uid) == Some(w) ==> find_uid_spec(remove_uid_spec(s, uid2), w.uid)
            == Some(w),
        forall|a: NetworkAddressView|
            #[trigger] find_address_spec(s, a) == Some(w) ==> find_address_spec(
                remove_uid_spec(s, uid2),
                a,
            ) == Some(w),
{
    let q = |x: WorkloadView| x.uid != uid2;
    if find_uid_spec(s, w.uid) == Some(w) {
        lemma_find_last_filter_keep(s, |x: WorkloadView| x.uid == w.uid, q, w);
    }
    assert forall|a: NetworkAddressView|
        #[trigger] find_address_spec(s, a) == Some(w) implies find_address_spec(
        remove_uid_spec(s, uid2),
        a,
    ) == Some(w) by {
        lemma_find_last_filter_keep(s, |x: WorkloadView| wl_has_address(x, a), q, w);
    }
}

/// Law: after a removal no lookup, by uid, address or hostname, yields a
/// workload with the removed uid.
pub proof fn lemma_remove_uid_clears(s: Seq<WorkloadView>, uid: Seq<char>)
    ensures
        find_uid_spec(remove_uid_spec(s, uid), uid) is None,
        forall|a: NetworkAddressView|
            (match #[trigger] find_address_spec(remove_uid_spec(s, uid), a) {
                Some(w) => w.uid != uid,
                None => true,
            }),
        forall|h: Seq<char>|
            (match #[trigger] find_hostname_spec(remove_uid_spec(s, uid), h) {
                Some(w) => w.uid != uid,
                None => true,
            }),
{
    let q = |x: WorkloadView| x.uid != uid;
    let kept = remove_uid_spec(s, uid);
    lemma_find_last_filter_excluded(s, |x: WorkloadView| x.uid == uid, q);
    lemma_filter_subset(s, q);
    assert forall|a: NetworkAddressView|
        (match #[trigger] find_address_spec(kept, a) {
            Some(w) => w.uid != uid,
            None => true,
        }) by {
        match find_address_spec(kept, a) {
            Some(w) => {
                lemma_find_last_some(kept, |x: WorkloadView| wl_has_address(x, a), w);
            },
            None => {},
        }
    }
    assert forall|h: Seq<char>|
        (match #[trigger] find_hostname_spec(kept, h) {
            Some(w) => w.uid != uid,
            None => true,
        }) by {
        match find_hostname_spec(kept, h) {
            Some(w) => {
                lemma_find_last_some(kept, |x: WorkloadView| wl_has_hostname(x, h), w);
            },
            None => {},
        }
    }
}

/// Law: inserting the same workload twice leaves the same index state as a
/// single insert.
pub proof fn lemma_insert_idempotent(s: Seq<WorkloadView>, w: WorkloadView)
    ensures
        insert_spec(insert_spec(s, w), w) == insert_spec(s, w),
{
    broadcast use vstd::seq_lib::group_filter_ensures;

    let q = |x: WorkloadView| x.uid != w.uid;
    let once = remove_uid_spec(s, w.uid);
    lemma_filter_push(once, q, w);
    lemma_filter_retains_all(once, q);
}

} // verus!
