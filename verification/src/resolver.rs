//! The TTL-driven, single-flight DNS cache.
//!
//! The cache maps hostnames to resolved entries. An entry serves lookups
//! until its refresh rate — the shortest TTL of the answers that produced
//! it, or sixty seconds when there were none — has elapsed since the
//! initial query. When an entry is missing or stale, exactly one caller
//! becomes the leader and performs the upstream query; everyone else
//! arriving meanwhile waits for the leader's result. The asynchronous
//! query itself and the waking of waiters live outside this module; the
//! cache decides who leads, who waits, and who is served at once.

use vstd::prelude::*;

use crate::lookup::{
    distinct_by, find_last, lemma_filter_distinct_by, lemma_filter_push,
    lemma_find_last_take_found, lemma_find_last_take_step, lemma_push_distinct_by,
};
use crate::net::{clone_ip_vec, IpAddress};

verus! {

/// One address record of a DNS response: its time to live and the IP it
/// carries.
#[derive(Clone, Copy, PartialEq, Eq, Structural, Debug)]
pub struct DnsAnswer {
    pub ttl_secs: u32,
    pub ip: IpAddress,
}

/// The refresh rate to fall back to when a response carries no address
/// records, in milliseconds: sixty seconds.
pub const EMPTY_RESPONSE_REFRESH_MILLIS: u64 = 60000;

/// The shortest TTL among the answers, in seconds.
pub open spec fn min_ttl_spec(answers: Seq<DnsAnswer>) -> int
    recommends
        answers.len() > 0,
    decreases answers.len(),
{
    if answers.len() <= 1 {
        answers[0].ttl_secs as int
    } else {
        let rest = min_ttl_spec(answers.drop_last());
        if (answers.last().ttl_secs as int) < rest {
            answers.last().ttl_secs as int
        } else {
            rest
        }
    }
}

/// The refresh rate a response yields, in milliseconds: the shortest TTL
/// among its address records, or sixty seconds when there are none.
pub open spec fn refresh_rate_spec(answers: Seq<DnsAnswer>) -> int {
    if answers.len() == 0 {
        EMPTY_RESPONSE_REFRESH_MILLIS as int
    } else {
        1000 * min_ttl_spec(answers)
    }
}

/// A hostname's resolution: the IPs it resolved to, when the query was
/// made, and for how long the entry may serve.
#[derive(Debug)]
pub struct ResolvedDns {
    pub hostname: String,
    pub ips: Vec<IpAddress>,
    pub initial_query_millis: u64,
    pub refresh_rate_millis: u64,
}

#[verifier::ext_equal]
pub ghost struct ResolvedDnsView {
    pub hostname: Seq<char>,
    pub ips: Seq<IpAddress>,
    pub initial_query_millis: u64,
    pub refresh_rate_millis: u64,
}

impl View for ResolvedDns {
    type V = ResolvedDnsView;

    open spec fn view(&self) -> ResolvedDnsView {
        ResolvedDnsView {
            hostname: self.hostname@,
            ips: self.ips@,
            initial_query_millis: self.initial_query_millis,
            refresh_rate_millis: self.refresh_rate_millis,
        }
    }
}

impl DeepView for ResolvedDns {
    type V = ResolvedDnsView;

    open spec fn deep_view(&self) -> ResolvedDnsView {
        self.view()
    }
}

impl Clone for ResolvedDns {
    fn clone(&self) -> (r: Self)
        ensures
            r@ == self@,
    {
        let r = ResolvedDns {
            hostname: self.hostname.clone(),
            ips: clone_ip_vec(&self.ips),
            initial_query_millis: self.initial_query_millis,
            refresh_rate_millis: self.refresh_rate_millis,
        };
        proof {
            assert(r@ =~~= self@);
        }
        r
    }
}

/// Builds the cache entry a response yields: its IPs, the query instant,
/// and the refresh rate the TTLs dictate.
#[verifier::loop_isolation(false)]
pub fn resolved_from_answers(hostname: &String, answers: &Vec<DnsAnswer>, now_millis: u64) -> (r:
    ResolvedDns)
    ensures
        r@.hostname == hostname@,
        r@.ips == answers@.map_values(|a: DnsAnswer| a.ip),
        r@.initial_query_millis == now_millis,
        r@.refresh_rate_millis == refresh_rate_spec(answers@),
{
    let mut ips: Vec<IpAddress> = Vec::new();
    let mut min_ttl: u64 = 0;
    let mut i: usize = 0;
    while i < answers.len()
        invariant
            i <= answers.len(),
            ips@ == answers@.take(i as int).map_values(|a: DnsAnswer| a.ip),
            i > 0 ==> min_ttl == min_ttl_spec(answers@.take(i as int)),
        decreases answers.len() - i,
    {
        proof {
            assert(answers@.take(i + 1).drop_last() =~= answers@.take(i as int));
            assert(answers@.take(i + 1).last() == answers@[i as int]);
        }
        let ttl: u64 = answers[i].ttl_secs as u64;
        if i == 0 || ttl < min_ttl {
            min_ttl = ttl;
        }
        ips.push(answers[i].ip);
        proof {
            assert(ips@ =~= answers@.take(i + 1).map_values(|a: DnsAnswer| a.ip));
            if i > 0 {
                assert(min_ttl == min_ttl_spec(answers@.take(i + 1)));
            } else {
                assert(answers@.take(1).len() == 1);
            }
        }
        i = i + 1;
    }
    proof {
        assert(answers@.take(answers@.len() as int) =~= answers@);
    }
    let refresh_rate_millis: u64 = if answers.len() == 0 {
        EMPTY_RESPONSE_REFRESH_MILLIS
    } else {
        // A TTL is 32 bits, so a thousandfold fits a u64 without overflow.
        proof {
            lemma_min_ttl_bounds(answers@);
        }
        1000 * min_ttl
    };
    ResolvedDns {
        hostname: hostname.clone(),
        ips,
        initial_query_millis: now_millis,
        refresh_rate_millis,
    }
}

/// The shortest TTL is one of the TTLs: no larger than each, equal to one.
pub proof fn lemma_min_ttl_bounds(answers: Seq<DnsAnswer>)
    requires
        answers.len() > 0,
    ensures
        forall|i: int|
            0 <= i < answers.len() ==> min_ttl_spec(answers) <= (#[trigger] answers[i]).ttl_secs
                as int,
        exists|i: int|
            0 <= i < answers.len() && min_ttl_spec(answers) == (#[trigger] answers[i]).ttl_secs
                as int,
        0 <= min_ttl_spec(answers) <= u32::MAX as int,
    decreases answers.len(),
{
    if answers.len() > 1 {
        lemma_min_ttl_bounds(answers.drop_last());
        assert(forall|i: int|
            0 <= i < answers.len() - 1 ==> #[trigger] answers[i] == answers.drop_last()[i]);
        assert(answers.last() == answers[answers.len() - 1]);
        let rest = min_ttl_spec(answers.drop_last());
        if (answers.last().ttl_secs as int) < rest {
            assert(min_ttl_spec(answers) == answers[answers.len() - 1].ttl_secs as int);
        } else {
            let w = choose|i: int|
                0 <= i < answers.drop_last().len() && rest == (
                #[trigger] answers.drop_last()[i]).ttl_secs as int;
            assert(min_ttl_spec(answers) == answers[w].ttl_secs as int);
        }
    } else {
        assert(min_ttl_spec(answers) == answers[0].ttl_secs as int);
    }
}

/// Law: the refresh rate is the minimum TTL across the response's address
/// records, and sixty seconds when the response is empty.
pub proof fn lemma_refresh_rate(answers: Seq<DnsAnswer>)
    ensures
        answers.len() == 0 ==> refresh_rate_spec(answers) == EMPTY_RESPONSE_REFRESH_MILLIS,
        answers.len() > 0 ==> forall|i: int|
            0 <= i < answers.len() ==> refresh_rate_spec(answers) <= 1000 * ((
            #[trigger] answers[i]).ttl_secs as int),
        answers.len() > 0 ==> exists|i: int|
            0 <= i < answers.len() && refresh_rate_spec(answers) == 1000 * ((
            #[trigger] answers[i]).ttl_secs as int),
{
    if answers.len() > 0 {
        lemma_min_ttl_bounds(answers);
        assert forall|i: int| 0 <= i < answers.len() implies refresh_rate_spec(answers) <= 1000
            * ((#[trigger] answers[i]).ttl_secs as u64) by {
            assert(min_ttl_spec(answers) <= answers[i].ttl_secs as u64);
        }
        let w = choose|i: int|
            0 <= i < answers.len() && min_ttl_spec(answers) == (#[trigger] answers[i]).ttl_secs
                as int;
        assert(refresh_rate_spec(answers) == 1000 * (answers[w].ttl_secs as int));
    }
}

/// An entry still serves at `now`: less than its refresh rate has elapsed
/// since the initial query.
pub open spec fn entry_fresh(r: ResolvedDnsView, now_millis: u64) -> bool {
    (now_millis as int) < r.initial_query_millis + r.refresh_rate_millis
}

/// The fresh entry a hostname resolves to from the cache at `now`, if any.
pub open spec fn find_resolved_spec(
    resolved: Seq<ResolvedDnsView>,
    hostname: Seq<char>,
    now_millis: u64,
) -> Option<ResolvedDnsView> {
    match find_last(resolved, |r: ResolvedDnsView| r.hostname == hostname) {
        Some(r) => if entry_fresh(r, now_millis) {
            Some(r)
        } else {
            None
        },
        None => None,
    }
}

/// The cache without any entry for the given hostname.
pub open spec fn remove_resolved_spec(
    resolved: Seq<ResolvedDnsView>,
    hostname: Seq<char>,
) -> Seq<ResolvedDnsView> {
    resolved.filter(|r: ResolvedDnsView| r.hostname != hostname)
}

/// What one cache consultation decides: serve the fresh entry, lead the
/// resolution, or wait for the leader in flight.
#[derive(Debug)]
pub enum ResolveStep {
    CacheHit(ResolvedDns),
    Lead,
    Wait,
}

/// The hostname→entry cache with its in-progress table.
#[derive(Debug)]
pub struct DnsCache {
    resolved: Vec<ResolvedDns>,
    in_progress: Vec<String>,
}

#[verifier::ext_equal]
pub ghost struct DnsCacheView {
    pub resolved: Seq<ResolvedDnsView>,
    pub in_progress: Seq<Seq<char>>,
}

impl View for DnsCache {
    type V = DnsCacheView;

    closed spec fn view(&self) -> DnsCacheView {
        DnsCacheView {
            resolved: self.resolved.deep_view(),
            in_progress: self.in_progress.deep_view(),
        }
    }
}

impl DnsCache {
    /// Whether the cache's uniqueness invariants hold: one entry per
    /// hostname, one flight per hostname.
    pub open spec fn wf(&self) -> bool {
        distinct_by(self@.resolved, |r: ResolvedDnsView| r.hostname) && distinct_by(
            self@.in_progress,
            |h: Seq<char>| h,
        )
    }

    /// The empty cache.
    pub fn new() -> (r: DnsCache)
        ensures
            r@.resolved == Seq::<ResolvedDnsView>::empty(),
            r@.in_progress == Seq::<Seq<char>>::empty(),
            r.wf(),
    {
        let r = DnsCache { resolved: Vec::new(), in_progress: Vec::new() };
        proof {
            assert(r@.resolved =~~= Seq::<ResolvedDnsView>::empty());
            assert(r@.in_progress =~~= Seq::<Seq<char>>::empty());
        }
        r
    }

    /// The fresh entry for the hostname at `now`, if any. A stale entry is
    /// passed over, to be replaced when the next resolution completes.
    #[verifier::loop_isolation(false)]
    pub fn find_resolved(&self, hostname: &String, now_millis: u64) -> (r: Option<ResolvedDns>)
        ensures
            (match r {
                Some(e) => find_resolved_spec(self@.resolved, hostname@, now_millis) == Some(e@),
                None => find_resolved_spec(self@.resolved, hostname@, now_millis) is None,
            }),
    {
        let ghost rs = self@.resolved;
        let ghost p = |x: ResolvedDnsView| x.hostname == hostname@;
        let mut i: usize = self.resolved.len();
        proof {
            assert(rs.take(self.resolved.len() as int) =~~= rs);
        }
        while i > 0
            invariant
                i <= self.resolved.len(),
                find_last(rs, p) == find_last(rs.take(i as int), p),
            decreases i,
        {
            i = i - 1;
            if self.resolved[i].hostname == *hostname {
                proof {
                    lemma_find_last_take_found(rs, p, i as int);
                }
                let fresh = match self.resolved[i].initial_query_millis.checked_add(
                    self.resolved[i].refresh_rate_millis,
                ) {
                    Some(expiry) => now_millis < expiry,
                    None => true,
                };
                if fresh {
                    return Some(self.resolved[i].clone());
                } else {
                    return None;
                }
            }
            proof {
                lemma_find_last_take_step(rs, p, i as int);
            }
        }
        proof {
            assert(rs.take(0) =~~= Seq::<ResolvedDnsView>::empty());
        }
        None
    }

    /// Claims the flight for a hostname: true makes the caller the leader
    /// and records the flight; false means one is already in progress and
    /// the caller shall wait.
    #[verifier::loop_isolation(false)]
    pub fn begin_resolve(&mut self, hostname: &String) -> (leader: bool)
        requires
            old(self).wf(),
        ensures
            final(self).wf(),
            leader == !old(self)@.in_progress.contains(hostname@),
            leader ==> final(self)@ == (DnsCacheView {
                in_progress: old(self)@.in_progress.push(hostname@),
                ..old(self)@
            }),
            !leader ==> final(self)@ == old(self)@,
    {
        let ghost hs = self@.in_progress;
        let mut i: usize = 0;
        while i < self.in_progress.len()
            invariant
                i <= self.in_progress.len(),
                forall|j: int| 0 <= j < i ==> hs[j] != hostname@,
            decreases self.in_progress.len() - i,
        {
            if self.in_progress[i] == *hostname {
                proof {
                    assert(hs[i as int] == hostname@);
                }
                return false;
            }
            i = i + 1;
        }
        self.in_progress.push(hostname.clone());
        proof {
            assert(!hs.contains(hostname@));
            assert(self@.in_progress =~~= hs.push(hostname@));
            assert(self@ =~~= (DnsCacheView { in_progress: hs.push(hostname@), ..old(self)@ }));
            lemma_push_distinct_by(hs, hostname@, |h: Seq<char>| h);
        }
        true
    }

    /// Installs a completed resolution, replacing any prior entry for its
    /// hostname. The in-progress table is untouched: the leader wakes its
    /// waiters and then clears the flight.
    #[verifier::loop_isolation(false)]
    pub fn install(&mut self, entry: ResolvedDns)
        requires
            old(self).wf(),
        ensures
            final(self).wf(),
            final(self)@ == (DnsCacheView {
                resolved: remove_resolved_spec(old(self)@.resolved, entry@.hostname).push(entry@),
                ..old(self)@
            }),
    {
        let ghost rs = old(self)@.resolved;
        let ghost e_view = entry@;
        let ghost q = |x: ResolvedDnsView| x.hostname != e_view.hostname;
        let mut kept: Vec<ResolvedDns> = Vec::new();
        let mut i: usize = 0;
        while i < self.resolved.len()
            invariant
                i <= self.resolved.len(),
                self.resolved == old(self).resolved,
                self.in_progress == old(self).in_progress,
                kept.deep_view() == rs.take(i as int).filter(q),
            decreases self.resolved.len() - i,
        {
            proof {
                assert(rs.take(i + 1) =~~= rs.take(i as int).push(rs[i as int]));
                lemma_filter_push(rs.take(i as int), q, rs[i as int]);
            }
            if !(self.resolved[i].hostname == entry.hostname) {
                kept.push(self.resolved[i].clone());
                proof {
                    assert(q(rs[i as int]));
                    assert(kept.deep_view() =~~= rs.take(i + 1).filter(q));
                }
            } else {
                proof {
                    assert(!q(rs[i as int]));
                }
            }
            i = i + 1;
        }
        proof {
            assert(rs.take(rs.len() as int) =~~= rs);
        }
        kept.push(entry);
        self.resolved = kept;
        proof {
            assert(self@.resolved =~~= remove_resolved_spec(rs, e_view.hostname).push(e_view));
            assert(self@ =~~= (DnsCacheView {
                resolved: remove_resolved_spec(rs, e_view.hostname).push(e_view),
                ..old(self)@
            }));
            broadcast use vstd::seq_lib::group_filter_ensures;

            lemma_filter_distinct_by(rs, q, |r: ResolvedDnsView| r.hostname);
            lemma_push_distinct_by(
                remove_resolved_spec(rs, e_view.hostname),
                e_view,
                |r: ResolvedDnsView| r.hostname,
            );
        }
    }

    /// Clears the flight for a hostname, after the waiters were woken. On
    /// a failed resolution the cache entry is left untouched; waiters see
    /// the miss on their re-read.
    #[verifier::loop_isolation(false)]
    pub fn finish_resolve(&mut self, hostname: &String)
        requires
            old(self).wf(),
        ensures
            final(self).wf(),
            final(self)@ == (DnsCacheView {
                in_progress: old(self)@.in_progress.filter(|h: Seq<char>| h != hostname@),
                ..old(self)@
            }),
    {
        let ghost hs = old(self)@.in_progress;
        let ghost q = |h: Seq<char>| h != hostname@;
        let mut kept: Vec<String> = Vec::new();
        let mut i: usize = 0;
        while i < self.in_progress.len()
            invariant
                i <= self.in_progress.len(),
                self.resolved == old(self).resolved,
                self.in_progress == old(self).in_progress,
                kept.deep_view() == hs.take(i as int).filter(q),
            decreases self.in_progress.len() - i,
        {
            proof {
                assert(hs.take(i + 1) =~~= hs.take(i as int).push(hs[i as int]));
                lemma_filter_push(hs.take(i as int), q, hs[i as int]);
            }
            if !(self.in_progress[i] == *hostname) {
                kept.push(self.in_progress[i].clone());
                proof {
                    assert(q(hs[i as int]));
                    assert(kept.deep_view() =~~= hs.take(i + 1).filter(q));
                }
            } else {
                proof {
                    assert(!q(hs[i as int]));
                }
            }
            i = i + 1;
        }
        proof {
            assert(hs.take(hs.len() as int) =~~= hs);
        }
        self.in_progress = kept;
        proof {
            assert(self@ =~~= (DnsCacheView { in_progress: hs.filter(q), ..old(self)@ }));
            lemma_filter_distinct_by(hs, q, |h: Seq<char>| h);
        }
    }

    /// One cache consultation: serve the fresh entry if there is one, else
    /// lead the resolution if none is in flight, else wait. A hit leaves
    /// the cache untouched; only a new leader changes it, by recording its
    /// flight.
    pub fn resolve_step(&mut self, hostname: &String, now_millis: u64) -> (step: ResolveStep)
        requires
            old(self).wf(),
        ensures
            final(self).wf(),
            (match find_resolved_spec(old(self)@.resolved, hostname@, now_millis) {
                Some(e) => (step matches ResolveStep::CacheHit(got) && got@ == e) && final(self)@
                    == old(self)@,
                None => if old(self)@.in_progress.contains(hostname@) {
                    step is Wait && final(self)@ == old(self)@
                } else {
                    step is Lead && final(self)@ == (DnsCacheView {
                        in_progress: old(self)@.in_progress.push(hostname@),
                        ..old(self)@
                    })
                },
            }),
    {
        match self.find_resolved(hostname, now_millis) {
            Some(entry) => ResolveStep::CacheHit(entry),
            None => {
                if self.begin_resolve(hostname) {
                    ResolveStep::Lead
                } else {
                    ResolveStep::Wait
                }
            },
        }
    }
}

/// Law: single flight. While a leader's resolution is in flight for a
/// hostname, no later consultation for it leads again, whatever entries
/// are installed meanwhile; and a fresh cache entry serves at once,
/// changing nothing.
pub proof fn lemma_single_flight(c: DnsCacheView, hostname: Seq<char>)
    ensures
        forall|c2: DnsCacheView|
            (#[trigger] c2.in_progress) == c.in_progress.push(hostname) ==> c2.in_progress.contains(
                hostname,
            ),
        forall|now: u64|
            (match #[trigger] find_resolved_spec(c.resolved, hostname, now) {
                Some(e) => entry_fresh(e, now),
                None => true,
            }),
{
    assert forall|c2: DnsCacheView|
        (#[trigger] c2.in_progress) == c.in_progress.push(hostname) implies c2.in_progress.contains(
        hostname,
    ) by {
        assert(c2.in_progress[c.in_progress.len() as int] == hostname);
    }
}

} // verus!
