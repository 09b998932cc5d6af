//! Authorization policies, their store, and the admission decision.
//!
//! A policy carries an action, Allow or Deny, and a set of match rules
//! over a connection descriptor; it matches a connection when one of its
//! rules does. A rule constrains the connection's source principal, source
//! IP, destination IP and destination port; a constraint left empty admits
//! every value. The decision over a set of applicable policies is strict:
//! any matching Deny denies; with no Allow policies at all the connection
//! is allowed; otherwise some Allow must match.

use vstd::prelude::*;

use crate::lookup::{
    distinct_by, find_last, lemma_filter_distinct_by, lemma_filter_push,
    lemma_filter_subset, lemma_find_last_filter_excluded, lemma_find_last_take_found,
    lemma_find_last_take_step, lemma_push_distinct_by,
};
use crate::net::{clone_ip_vec, clone_string_vec, ip_vec_contains, IpAddress};

verus! {

/// What a policy does to the connections it matches.
#[derive(Clone, Copy, PartialEq, Eq, Structural, Debug)]
pub enum RbacAction {
    Allow,
    Deny,
}

/// The descriptor of an authenticated connection the decision reads.
#[derive(Debug)]
pub struct Connection {
    pub src_identity: Option<String>,
    pub dst_identity: Option<String>,
    pub src_ip: IpAddress,
    pub dst_ip: IpAddress,
    pub dst_port: u16,
    pub dst_network: String,
}

#[verifier::ext_equal]
pub ghost struct ConnectionView {
    pub src_identity: Option<Seq<char>>,
    pub dst_identity: Option<Seq<char>>,
    pub src_ip: IpAddress,
    pub dst_ip: IpAddress,
    pub dst_port: u16,
    pub dst_network: Seq<char>,
}

impl View for Connection {
    type V = ConnectionView;

    open spec fn view(&self) -> ConnectionView {
        ConnectionView {
            src_identity: match self.src_identity {
                Some(s) => Some(s@),
                None => None,
            },
            dst_identity: match self.dst_identity {
                Some(s) => Some(s@),
                None => None,
            },
            src_ip: self.src_ip,
            dst_ip: self.dst_ip,
            dst_port: self.dst_port,
            dst_network: self.dst_network@,
        }
    }
}

/// One match rule. An empty constraint admits every value.
#[derive(Debug)]
pub struct RbacMatch {
    pub principals: Vec<String>,
    pub source_ips: Vec<IpAddress>,
    pub destination_ips: Vec<IpAddress>,
    pub destination_ports: Vec<u16>,
}

#[verifier::ext_equal]
pub ghost struct RbacMatchView {
    pub principals: Seq<Seq<char>>,
    pub source_ips: Seq<IpAddress>,
    pub destination_ips: Seq<IpAddress>,
    pub destination_ports: Seq<u16>,
}

impl View for RbacMatch {
    type V = RbacMatchView;

    open spec fn view(&self) -> RbacMatchView {
        RbacMatchView {
            principals: self.principals.deep_view(),
            source_ips: self.source_ips@,
            destination_ips: self.destination_ips@,
            destination_ports: self.destination_ports@,
        }
    }
}

impl DeepView for RbacMatch {
    type V = RbacMatchView;

    open spec fn deep_view(&self) -> RbacMatchView {
        self.view()
    }
}

/// A copy of a vector of ports.
pub fn clone_u16_vec(v: &Vec<u16>) -> (r: Vec<u16>)
    ensures
        r@ == v@,
{
    let mut out: Vec<u16> = Vec::new();
    let mut i: usize = 0;
    while i < v.len()
        invariant
            i <= v.len(),
            out@ == v@.take(i as int),
        decreases v.len() - i,
    {
        out.push(v[i]);
        proof {
            assert(out@ =~= v@.take(i + 1));
        }
        i = i + 1;
    }
    proof {
        assert(v@.take(v@.len() as int) =~= v@);
    }
    out
}

impl Clone for RbacMatch {
    fn clone(&self) -> (r: Self)
        ensures
            r@ == self@,
    {
        let r = RbacMatch {
            principals: clone_string_vec(&self.principals),
            source_ips: clone_ip_vec(&self.source_ips),
            destination_ips: clone_ip_vec(&self.destination_ips),
            destination_ports: clone_u16_vec(&self.destination_ports),
        };
        proof {
            assert(r@ =~~= self@);
        }
        r
    }
}

/// An authorization policy: a key unique across the mesh, the namespace it
/// guards (the empty string denotes the global root), an action and the
/// rules that scope it.
#[derive(Debug)]
pub struct Policy {
    pub key: String,
    pub namespace: String,
    pub action: RbacAction,
    pub rules: Vec<RbacMatch>,
}

#[verifier::ext_equal]
pub ghost struct PolicyView {
    pub key: Seq<char>,
    pub namespace: Seq<char>,
    pub action: RbacAction,
    pub rules: Seq<RbacMatchView>,
}

impl View for Policy {
    type V = PolicyView;

    open spec fn view(&self) -> PolicyView {
        PolicyView {
            key: self.key@,
            namespace: self.namespace@,
            action: self.action,
            rules: self.rules.deep_view(),
        }
    }
}

impl DeepView for Policy {
    type V = PolicyView;

    open spec fn deep_view(&self) -> PolicyView {
        self.view()
    }
}

/// A copy of a vector of match rules.
fn clone_rule_vec(v: &Vec<RbacMatch>) -> (r: Vec<RbacMatch>)
    ensures
        r.deep_view() == v.deep_view(),
{
    let mut out: Vec<RbacMatch> = Vec::new();
    let mut i: usize = 0;
    while i < v.len()
        invariant
            i <= v.len(),
            out@.len() == i,
            forall|k: int| 0 <= k < i ==> #[trigger] out@[k]@ == v@[k]@,
        decreases v.len() - i,
    {
        out.push(v[i].clone());
        i = i + 1;
    }
    proof {
        assert(out.deep_view() =~~= v.deep_view());
    }
    out
}

impl Clone for Policy {
    fn clone(&self) -> (r: Self)
        ensures
            r@ == self@,
    {
        let r = Policy {
            key: self.key.clone(),
            namespace: self.namespace.clone(),
            action: self.action,
            rules: clone_rule_vec(&self.rules),
        };
        proof {
            assert(r@ =~~= self@);
        }
        r
    }
}

/// Whether a rule admits the connection: each non-empty constraint must
/// hold the connection's value; a connection without a source identity
/// fails any principal constraint.
pub open spec fn rule_matches_spec(r: RbacMatchView, c: ConnectionView) -> bool {
    &&& (r.principals.len() == 0 || (c.src_identity matches Some(p) && r.principals.contains(p)))
    &&& (r.source_ips.len() == 0 || r.source_ips.contains(c.src_ip))
    &&& (r.destination_ips.len() == 0 || r.destination_ips.contains(c.dst_ip))
    &&& (r.destination_ports.len() == 0 || r.destination_ports.contains(c.dst_port))
}

/// Whether a policy matches the connection: some rule of it does.
pub open spec fn policy_matches_spec(p: PolicyView, c: ConnectionView) -> bool {
    exists|i: int| 0 <= i < p.rules.len() && rule_matches_spec(#[trigger] p.rules[i], c)
}

/// Whether a vector of strings holds the given one.
fn string_vec_contains(v: &Vec<String>, x: &String) -> (r: bool)
    ensures
        r == v.deep_view().contains(x@),
{
    let mut i: usize = 0;
    while i < v.len()
        invariant
            i <= v.len(),
            forall|j: int| 0 <= j < i ==> v.deep_view()[j] != x@,
        decreases v.len() - i,
    {
        if v[i] == *x {
            proof {
                assert(v.deep_view()[i as int] == x@);
            }
            return true;
        }
        i = i + 1;
    }
    proof {
        assert(forall|j: int| 0 <= j < v.deep_view().len() ==> v.deep_view()[j] != x@);
    }
    false
}

/// Whether a vector of ports holds the given one.
fn u16_vec_contains(v: &Vec<u16>, x: u16) -> (r: bool)
    ensures
        r == v@.contains(x),
{
    let mut i: usize = 0;
    while i < v.len()
        invariant
            i <= v.len(),
            forall|j: int| 0 <= j < i ==> v@[j] != x,
        decreases v.len() - i,
    {
        if v[i] == x {
            proof {
                assert(v@[i as int] == x);
            }
            return true;
        }
        i = i + 1;
    }
    false
}

impl RbacMatch {
    /// Whether this rule admits the connection.
    pub fn matches(&self, conn: &Connection) -> (r: bool)
        ensures
            r == rule_matches_spec(self@, conn@),
    {
        let principal_ok = if self.principals.len() == 0 {
            true
        } else {
            match &conn.src_identity {
                Some(p) => string_vec_contains(&self.principals, p),
                None => false,
            }
        };
        let src_ok = self.source_ips.len() == 0 || ip_vec_contains(&self.source_ips, conn.src_ip);
        let dst_ok = self.destination_ips.len() == 0 || ip_vec_contains(
            &self.destination_ips,
            conn.dst_ip,
        );
        let port_ok = self.destination_ports.len() == 0 || u16_vec_contains(
            &self.destination_ports,
            conn.dst_port,
        );
        principal_ok && src_ok && dst_ok && port_ok
    }
}

impl Policy {
    /// Whether some rule of this policy admits the connection.
    #[verifier::loop_isolation(false)]
    pub fn matches(&self, conn: &Connection) -> (r: bool)
        ensures
            r == policy_matches_spec(self@, conn@),
    {
        let mut i: usize = 0;
        while i < self.rules.len()
            invariant
                i <= self.rules.len(),
                forall|j: int|
                    0 <= j < i ==> !rule_matches_spec(#[trigger] self@.rules[j], conn@),
            decreases self.rules.len() - i,
        {
            if self.rules[i].matches(conn) {
                proof {
                    assert(rule_matches_spec(self@.rules[i as int], conn@));
                }
                return true;
            }
            i = i + 1;
        }
        false
    }
}

/// The policy a key denotes: the last inserted policy carrying it.
pub open spec fn get_policy_spec(ps: Seq<PolicyView>, key: Seq<char>) -> Option<PolicyView> {
    find_last(ps, |p: PolicyView| p.key == key)
}

/// The store without any policy of the given key.
pub open spec fn remove_policy_spec(ps: Seq<PolicyView>, key: Seq<char>) -> Seq<PolicyView> {
    ps.filter(|p: PolicyView| p.key != key)
}

/// Insertion drops any prior policy with the same key and appends the new
/// one.
pub open spec fn insert_policy_spec(ps: Seq<PolicyView>, p: PolicyView) -> Seq<PolicyView> {
    remove_policy_spec(ps, p.key).push(p)
}

/// The keys of the policies guarding a namespace, in insertion order.
pub open spec fn keys_in_namespace_spec(ps: Seq<PolicyView>, ns: Seq<char>) -> Seq<Seq<char>> {
    ps.filter(|p: PolicyView| p.namespace == ns).map_values(|p: PolicyView| p.key)
}

/// No two stored policies share a key.
pub open spec fn policy_store_wf(ps: Seq<PolicyView>) -> bool {
    distinct_by(ps, |p: PolicyView| p.key)
}

/// The set of authorization policies, keyed by their mesh-wide key and
/// indexed by the namespace they guard.
#[derive(Debug)]
pub struct PolicyStore {
    policies: Vec<Policy>,
}

impl View for PolicyStore {
    type V = Seq<PolicyView>;

    closed spec fn view(&self) -> Seq<PolicyView> {
        self.policies.deep_view()
    }
}

impl PolicyStore {
    /// Whether the store's key-uniqueness invariant holds.
    pub open spec fn wf(&self) -> bool {
        policy_store_wf(self@)
    }

    /// The empty store.
    pub fn new() -> (r: PolicyStore)
        ensures
            r@ == Seq::<PolicyView>::empty(),
            r.wf(),
    {
        let r = PolicyStore { policies: Vec::new() };
        proof {
            assert(r@ =~~= Seq::<PolicyView>::empty());
        }
        r
    }

    /// The stored policies, in insertion order.
    pub fn entries(&self) -> (r: &Vec<Policy>)
        ensures
            r.deep_view() == self@,
    {
        &self.policies
    }

    /// Adds a policy, replacing any prior entry with the same key.
    pub fn insert(&mut self, p: Policy)
        requires
            old(self).wf(),
        ensures
            final(self).wf(),
            final(self)@ == insert_policy_spec(old(self)@, p@),
    {
        let ghost p_view = p@;
        let key = p.key.clone();
        self.remove(&key);
        self.policies.push(p);
        proof {
            assert(self@ =~~= insert_policy_spec(old(self)@, p_view));
            broadcast use vstd::seq_lib::group_filter_ensures;

            lemma_push_distinct_by(
                remove_policy_spec(old(self)@, p_view.key),
                p_view,
                |x: PolicyView| x.key,
            );
        }
    }

    /// Removes the policy with the given key, if any.
    #[verifier::loop_isolation(false)]
    pub fn remove(&mut self, key: &String)
        ensures
            final(self)@ == remove_policy_spec(old(self)@, key@),
            old(self).wf() ==> final(self).wf(),
    {
        let ghost ps = old(self)@;
        let ghost q = |x: PolicyView| x.key != key@;
        let mut kept: Vec<Policy> = Vec::new();
        let mut i: usize = 0;
        while i < self.policies.len()
            invariant
                i <= self.policies.len(),
                self.policies == old(self).policies,
                kept.deep_view() == ps.take(i as int).filter(q),
            decreases self.policies.len() - i,
        {
            proof {
                assert(ps.take(i + 1) =~~= ps.take(i as int).push(ps[i as int]));
                lemma_filter_push(ps.take(i as int), q, ps[i as int]);
            }
            if !(self.policies[i].key == *key) {
                kept.push(self.policies[i].clone());
                proof {
                    assert(q(ps[i as int]));
                    assert(kept.deep_view() =~~= ps.take(i + 1).filter(q));
                }
            } else {
                proof {
                    assert(!q(ps[i as int]));
                }
            }
            i = i + 1;
        }
        proof {
            assert(ps.take(ps.len() as int) =~~= ps);
        }
        self.policies = kept;
        proof {
            if policy_store_wf(ps) {
                lemma_filter_distinct_by(ps, q, |x: PolicyView| x.key);
            }
        }
    }

    /// The policy with the given key, if any.
    #[verifier::loop_isolation(false)]
    pub fn get(&self, key: &String) -> (r: Option<Policy>)
        ensures
            (match r {
                Some(p) => get_policy_spec(self@, key@) == Some(p@),
                None => get_policy_spec(self@, key@) is None,
            }),
    {
        let ghost ps = self@;
        let ghost p = |x: PolicyView| x.key == key@;
        let mut i: usize = self.policies.len();
        proof {
            assert(ps.take(self.policies.len() as int) =~~= ps);
        }
        while i > 0
            invariant
                i <= self.policies.len(),
                find_last(ps, p) == find_last(ps.take(i as int), p),
            decreases i,
        {
            i = i - 1;
            if self.policies[i].key == *key {
                proof {
                    lemma_find_last_take_found(ps, p, i as int);
                }
                return Some(self.policies[i].clone());
            }
            proof {
                lemma_find_last_take_step(ps, p, i as int);
            }
        }
        proof {
            assert(ps.take(0) =~~= Seq::<PolicyView>::empty());
        }
        None
    }

    /// The keys of the policies guarding the given namespace, in insertion
    /// order. The empty string denotes the global root namespace.
    #[verifier::loop_isolation(false)]
    pub fn get_by_namespace(&self, ns: &String) -> (r: Vec<String>)
        ensures
            r.deep_view() == keys_in_namespace_spec(self@, ns@),
    {
        let ghost ps = self@;
        let ghost q = |x: PolicyView| x.namespace == ns@;
        let ghost f = |x: PolicyView| x.key;
        let mut out: Vec<String> = Vec::new();
        let mut i: usize = 0;
        while i < self.policies.len()
            invariant
                i <= self.policies.len(),
                out.deep_view() == ps.take(i as int).filter(q).map_values(f),
            decreases self.policies.len() - i,
        {
            proof {
                assert(ps.take(i + 1) =~~= ps.take(i as int).push(ps[i as int]));
                lemma_filter_push(ps.take(i as int), q, ps[i as int]);
            }
            if self.policies[i].namespace == *ns {
                out.push(self.policies[i].key.clone());
                proof {
                    assert(q(ps[i as int]));
                    assert(ps.take(i + 1).filter(q) == ps.take(i as int).filter(q).push(
                        ps[i as int],
                    ));
                    assert(ps.take(i as int).filter(q).push(ps[i as int]).map_values(f)
                        =~~= ps.take(i as int).filter(q).map_values(f).push(f(ps[i as int])));
                    assert(out.deep_view() =~~= ps.take(i + 1).filter(q).map_values(f));
                }
            } else {
                proof {
                    assert(!q(ps[i as int]));
                }
            }
            i = i + 1;
        }
        proof {
            assert(ps.take(ps.len() as int) =~~= ps);
        }
        out
    }
}

/// Whether some policy of the given action matches the connection.
pub open spec fn any_matches(pols: Seq<PolicyView>, action: RbacAction, c: ConnectionView) -> bool {
    exists|i: int|
        0 <= i < pols.len() && (#[trigger] pols[i]).action == action && policy_matches_spec(
            pols[i],
            c,
        )
}

/// Whether the set holds any Allow policy at all.
pub open spec fn has_allow(pols: Seq<PolicyView>) -> bool {
    exists|i: int| 0 <= i < pols.len() && (#[trigger] pols[i]).action is Allow
}

/// The admission decision over the applicable policies: any matching Deny
/// denies; with no Allow policies the connection is allowed; otherwise
/// some Allow must match. This order is load-bearing.
pub open spec fn rbac_decision_spec(pols: Seq<PolicyView>, c: ConnectionView) -> bool {
    if any_matches(pols, RbacAction::Deny, c) {
        false
    } else if !has_allow(pols) {
        true
    } else {
        any_matches(pols, RbacAction::Allow, c)
    }
}

/// Decides admission over the given applicable policies.
#[verifier::loop_isolation(false)]
pub fn rbac_decision(pols: &Vec<Policy>, conn: &Connection) -> (r: bool)
    ensures
        r == rbac_decision_spec(pols.deep_view(), conn@),
{
    let ghost pv = pols.deep_view();
    let mut i: usize = 0;
    while i < pols.len()
        invariant
            i <= pols.len(),
            forall|j: int|
                0 <= j < i ==> !((#[trigger] pv[j]).action is Deny && policy_matches_spec(
                    pv[j],
                    conn@,
                )),
        decreases pols.len() - i,
    {
        let is_deny = match pols[i].action {
            RbacAction::Deny => true,
            RbacAction::Allow => false,
        };
        if is_deny && pols[i].matches(conn) {
            proof {
                assert(pv[i as int].action is Deny && policy_matches_spec(pv[i as int], conn@));
            }
            return false;
        }
        i = i + 1;
    }
    let mut saw_allow = false;
    let mut j: usize = 0;
    while j < pols.len()
        invariant
            j <= pols.len(),
            forall|k: int|
                0 <= k < pols.len() ==> !((#[trigger] pv[k]).action is Deny
                    && policy_matches_spec(pv[k], conn@)),
            forall|k: int|
                0 <= k < j ==> !((#[trigger] pv[k]).action is Allow && policy_matches_spec(
                    pv[k],
                    conn@,
                )),
            saw_allow == exists|k: int| 0 <= k < j && (#[trigger] pv[k]).action is Allow,
        decreases pols.len() - j,
    {
        let is_allow = match pols[j].action {
            RbacAction::Allow => true,
            RbacAction::Deny => false,
        };
        if is_allow {
            proof {
                assert(pv[j as int].action is Allow);
            }
            saw_allow = true;
            if pols[j].matches(conn) {
                proof {
                    assert(any_matches(pv, RbacAction::Allow, conn@));
                }
                return true;
            }
        }
        j = j + 1;
    }
    !saw_allow
}

/// Law: the decision denies whenever any Deny policy matches, whatever any
/// Allow policies say.
pub proof fn lemma_rbac_deny_wins(pols: Seq<PolicyView>, c: ConnectionView)
    requires
        any_matches(pols, RbacAction::Deny, c),
    ensures
        !rbac_decision_spec(pols, c),
{
}

/// Law: the decision allows when no Deny policy matches and the set holds
/// no Allow policy at all.
pub proof fn lemma_rbac_default_allow(pols: Seq<PolicyView>, c: ConnectionView)
    requires
        !any_matches(pols, RbacAction::Deny, c),
        !has_allow(pols),
    ensures
        rbac_decision_spec(pols, c),
{
}

/// Law: after a removal the key resolves to no policy and is listed under
/// no namespace.
pub proof fn lemma_policy_remove_clears(ps: Seq<PolicyView>, key: Seq<char>)
    ensures
        get_policy_spec(remove_policy_spec(ps, key), key) is None,
        forall|ns: Seq<char>|
            !(#[trigger] keys_in_namespace_spec(remove_policy_spec(ps, key), ns)).contains(key),
{
    let q = |p: PolicyView| p.key != key;
    let kept = remove_policy_spec(ps, key);
    lemma_find_last_filter_excluded(ps, |p: PolicyView| p.key == key, q);
    lemma_filter_subset(ps, q);
    assert forall|ns: Seq<char>|
        !(#[trigger] keys_in_namespace_spec(kept, ns)).contains(key) by {
        let listed = keys_in_namespace_spec(kept, ns);
        if listed.contains(key) {
            let m = choose|m: int| 0 <= m < listed.len() && listed[m] == key;
            let inner = kept.filter(|p: PolicyView| p.namespace == ns);
            assert(inner[m].key == key);
            assert(inner.contains(inner[m]));
            lemma_filter_subset(kept, |p: PolicyView| p.namespace == ns);
            assert(kept.contains(inner[m]));
        }
    }
}

} // verus!
