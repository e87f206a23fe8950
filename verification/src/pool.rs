//! The live pool behind the serve mode: veterans ordered by health, a FIFO
//! queue of newcomers still gathering statistics, and health-gated
//! admission.

use vstd::prelude::*;

use crate::geo::GeoData;
use crate::proto::{schemes_of, ConfirmedType, Scheme};
use crate::proxy::{sum_samples, ErrorStat, Proxy, Ratio};
use crate::strutil::{self, str_eq};

verus! {

/// A pool entry: the projection of a checked proxy that survives after its
/// socket is released.
#[derive(Clone, Debug)]
pub struct SimpleProxy {
    pub host: String,
    pub port: u16,
    pub geo: GeoData,
    pub types: Vec<ConfirmedType>,
    pub schemes: Vec<Scheme>,
    pub runtimes: Vec<u32>,
    pub request_stat: u32,
    pub error_stat: ErrorStat,
}

impl SimpleProxy {
    /// Well-formed statistics, as on the full proxy record.
    pub open spec fn wf(self) -> bool {
        &&& self.error_stat.total() <= self.request_stat
        &&& self.runtimes@.len() <= self.request_stat
    }

    /// The projection of a full proxy record.
    pub fn from_proxy(p: &Proxy) -> (r: SimpleProxy)
        requires
            p.wf(),
        ensures
            r.wf(),
            r.host@ == p.host@,
            r.port == p.port,
            r.types@ == p.types@,
            r.schemes@ == p.schemes@,
            r.runtimes@ == p.runtimes@,
            r.request_stat == p.request_stat,
            r.error_stat == p.error_stat,
    {
        SimpleProxy {
            host: crate::queue::clone_string(&p.host),
            port: p.port,
            geo: p.geo.clone(),
            types: clone_types(&p.types),
            schemes: clone_schemes(&p.schemes),
            runtimes: clone_samples(&p.runtimes),
            request_stat: p.request_stat,
            error_stat: p.error_stat,
        }
    }

    /// The fraction of recorded operations that failed; zero when nothing
    /// was recorded.
    pub open spec fn error_rate_spec(self) -> Ratio {
        if self.request_stat == 0 {
            Ratio { num: 0, den: 1 }
        } else {
            Ratio { num: self.error_stat.total() as u64, den: self.request_stat as u64 }
        }
    }

    /// The error rate, executable form.
    pub fn error_rate(&self) -> (r: Ratio)
        requires
            self.wf(),
        ensures
            r == self.error_rate_spec(),
            r.wf(),
    {
        if self.request_stat == 0 {
            Ratio { num: 0, den: 1 }
        } else {
            Ratio { num: self.error_stat.total_errors(), den: self.request_stat as u64 }
        }
    }

    /// The mean of the runtime samples; zero when there are none.
    pub open spec fn avg_resp_time_spec(self) -> Ratio {
        if self.runtimes@.len() == 0 {
            Ratio { num: 0, den: 1 }
        } else {
            Ratio { num: sum_samples(self.runtimes@) as u64, den: self.runtimes@.len() as u64 }
        }
    }

    /// The average response time in milliseconds, executable form.
    pub fn avg_resp_time(&self) -> (r: Ratio)
        requires
            self.wf(),
        ensures
            r == self.avg_resp_time_spec(),
            r.wf(),
    {
        crate::proxy::mean_of_samples(&self.runtimes)
    }

    /// The address as `host:port` text.
    pub fn as_text(&self) -> (r: String)
        ensures
            r@ == self.host@ + ":"@ + strutil::dec_chars(self.port as nat),
    {
        let mut s = String::new();
        s.append(self.host.as_str());
        s.append(":");
        strutil::append_u64(&mut s, self.port as u64);
        proof {
            assert(s@ =~= self.host@ + ":"@ + strutil::dec_chars(self.port as nat));
        }
        s
    }

    /// The schemes this entry can serve, derived from its confirmed types
    /// on first use and cached afterwards.
    pub fn get_schemes(&mut self) -> (r: Vec<Scheme>)
        ensures
            final(self).schemes@ == if old(self).schemes@.len() == 0 {
                schemes_of(old(self).types@)
            } else {
                old(self).schemes@
            },
            r@ == final(self).schemes@,
            final(self).types == old(self).types,
            final(self).host == old(self).host,
            final(self).port == old(self).port,
            final(self).geo == old(self).geo,
            final(self).runtimes == old(self).runtimes,
            final(self).request_stat == old(self).request_stat,
            final(self).error_stat == old(self).error_stat,
    {
        if self.schemes.is_empty() {
            let schemes = crate::proxy::derive_schemes(&self.types);
            self.schemes = schemes;
        }
        clone_schemes(&self.schemes)
    }

    /// Whether this entry can serve `scheme`, judged from its confirmed
    /// types.
    pub fn serves(&self, scheme: Scheme) -> (r: bool)
        ensures
            r == schemes_of(self.types@).contains(scheme),
    {
        let derived = crate::proxy::derive_schemes(&self.types);
        crate::proxy::contains_scheme(&derived, scheme)
    }

    /// Whether this entry ranks no worse than `other`: a lower error rate
    /// wins, and on equal error rates a lower average response time wins.
    pub open spec fn preferred_spec(self, other: SimpleProxy) -> bool {
        ||| (self.error_rate_spec().le_spec(other.error_rate_spec())
            && !self.error_rate_spec().eq_spec(other.error_rate_spec()))
        ||| (self.error_rate_spec().eq_spec(other.error_rate_spec())
            && self.avg_resp_time_spec().le_spec(other.avg_resp_time_spec()))
    }

    /// The ranking, executable form.
    pub fn preferred_over(&self, other: &SimpleProxy) -> (r: bool)
        requires
            self.wf(),
            other.wf(),
        ensures
            r == self.preferred_spec(*other),
    {
        let er_self = self.error_rate();
        let er_other = other.error_rate();
        if er_self.lt(&er_other) {
            true
        } else if er_self.le(&er_other) {
            self.avg_resp_time().le(&other.avg_resp_time())
        } else {
            false
        }
    }
}

/// Clones a confirmed-type list.
pub fn clone_types(v: &Vec<ConfirmedType>) -> (r: Vec<ConfirmedType>)
    ensures
        r@ == v@,
{
    let mut r: Vec<ConfirmedType> = Vec::new();
    let mut i: usize = 0;
    while i < v.len()
        invariant
            i <= v@.len(),
            r@ == v@.subrange(0, i as int),
        decreases v@.len() - i,
    {
        r.push(v[i]);
        proof {
            assert(v@.subrange(0, i + 1) =~= v@.subrange(0, i as int).push(v@[i as int]));
        }
        i = i + 1;
    }
    proof {
        assert(v@.subrange(0, v@.len() as int) =~= v@);
    }
    r
}

/// Clones a scheme list.
pub fn clone_schemes(v: &Vec<Scheme>) -> (r: Vec<Scheme>)
    ensures
        r@ == v@,
{
    let mut r: Vec<Scheme> = Vec::new();
    let mut i: usize = 0;
    while i < v.len()
        invariant
            i <= v@.len(),
            r@ == v@.subrange(0, i as int),
        decreases v@.len() - i,
    {
        r.push(v[i]);
        proof {
            assert(v@.subrange(0, i + 1) =~= v@.subrange(0, i as int).push(v@[i as int]));
        }
        i = i + 1;
    }
    proof {
        assert(v@.subrange(0, v@.len() as int) =~= v@);
    }
    r
}

/// Clones a runtime-sample list.
pub fn clone_samples(v: &Vec<u32>) -> (r: Vec<u32>)
    ensures
        r@ == v@,
{
    let mut r: Vec<u32> = Vec::new();
    let mut i: usize = 0;
    while i < v.len()
        invariant
            i <= v@.len(),
            r@ == v@.subrange(0, i as int),
        decreases v@.len() - i,
    {
        r.push(v[i]);
        proof {
            assert(v@.subrange(0, i + 1) =~= v@.subrange(0, i as int).push(v@[i as int]));
        }
        i = i + 1;
    }
    proof {
        assert(v@.subrange(0, v@.len() as int) =~= v@);
    }
    r
}

/// How `get` answers: with fewer entries than the refill mark, or with no
/// veteran serving the scheme, it asks for an import and changes nothing;
/// otherwise the oldest newcomer goes out first, and failing that the
/// best-ranked veteran serving the scheme is taken out of the pool.
pub open spec fn get_post(pre: ProxyPool, scheme: Scheme, r: PoolAnswer, post: ProxyPool) -> bool {
    &&& post.min_req_proxy == pre.min_req_proxy
    &&& post.max_error_rate == pre.max_error_rate
    &&& post.max_avg_resp_time == pre.max_avg_resp_time
    &&& post.min_queue == pre.min_queue
    &&& match r {
        PoolAnswer::NeedImport => {
            &&& post.pool@ == pre.pool@
            &&& post.newcomers@ == pre.newcomers@
            &&& {
                ||| pre.pool@.len() + pre.newcomers@.len() < pre.min_queue
                ||| (pre.newcomers@.len() == 0 && forall|j: int|
                    0 <= j < pre.pool@.len() ==> !schemes_of(
                        (#[trigger] pre.pool@[j]).types@,
                    ).contains(scheme))
            }
        },
        PoolAnswer::Found(p) => {
            ||| {
                &&& pre.pool@.len() + pre.newcomers@.len() >= pre.min_queue
                &&& pre.newcomers@.len() > 0
                &&& p == pre.newcomers@[0]
                &&& post.newcomers@ == pre.newcomers@.drop_first()
                &&& post.pool@ == pre.pool@
            }
            ||| {
                &&& pre.newcomers@.len() == 0
                &&& post.newcomers@ == pre.newcomers@
                &&& exists|i: int|
                    {
                        &&& 0 <= i < pre.pool@.len()
                        &&& p == pre.pool@[i]
                        &&& schemes_of(p.types@).contains(scheme)
                        &&& post.pool@ == pre.pool@.remove(i)
                        &&& forall|j: int|
                            0 <= j < pre.pool@.len() && j != i && schemes_of(
                                (#[trigger] pre.pool@[j]).types@,
                            ).contains(scheme) ==> (p.preferred_spec(pre.pool@[j])
                                || !pre.pool@[j].preferred_spec(p))
                    }
            }
        },
    }
}

/// How `put` routes an entry: below the request threshold it joins the
/// newcomers, within the health thresholds it joins the veterans, and
/// otherwise it is dropped; the thresholds themselves never change.
pub open spec fn put_post(pre: ProxyPool, p: SimpleProxy, post: ProxyPool) -> bool {
    &&& post.min_req_proxy == pre.min_req_proxy
    &&& post.max_error_rate == pre.max_error_rate
    &&& post.max_avg_resp_time == pre.max_avg_resp_time
    &&& post.min_queue == pre.min_queue
    &&& if p.request_stat < pre.min_req_proxy {
        post.newcomers@ == pre.newcomers@.push(p) && post.pool@ == pre.pool@
    } else if p.error_rate_spec().le_spec(pre.max_error_rate) && p.avg_resp_time_spec().le_spec(
        pre.max_avg_resp_time,
    ) {
        post.pool@ == pre.pool@.push(p) && post.newcomers@ == pre.newcomers@
    } else {
        post.pool@ == pre.pool@ && post.newcomers@ == pre.newcomers@
    }
}

/// What a pool lookup decides: an entry to use, or an instruction to pull
/// fresh entries from the checker's hand-off channel.
pub enum PoolAnswer {
    Found(SimpleProxy),
    NeedImport,
}

/// The live pool: health-ranked veterans and first-in-first-out newcomers,
/// with the admission thresholds.
pub struct ProxyPool {
    pub pool: Vec<SimpleProxy>,
    pub newcomers: Vec<SimpleProxy>,
    pub min_req_proxy: u32,
    pub max_error_rate: Ratio,
    pub max_avg_resp_time: Ratio,
    pub min_queue: usize,
}

impl ProxyPool {
    /// A veteran is healthy: enough requests recorded, error rate and
    /// average response time within the thresholds.
    pub open spec fn healthy(self, p: SimpleProxy) -> bool {
        &&& p.wf()
        &&& p.request_stat >= self.min_req_proxy
        &&& p.error_rate_spec().le_spec(self.max_error_rate)
        &&& p.avg_resp_time_spec().le_spec(self.max_avg_resp_time)
    }

    /// The pool's invariant: every veteran is healthy and every newcomer
    /// has consistent statistics.
    pub open spec fn wf(self) -> bool {
        &&& forall|i: int| 0 <= i < self.pool@.len() ==> self.healthy(#[trigger] self.pool@[i])
        &&& forall|i: int| 0 <= i < self.newcomers@.len() ==> (#[trigger] self.newcomers@[i]).wf()
    }

    /// An empty pool with the default thresholds: five requests before
    /// evaluation, an error rate of at most one half, an average response
    /// time of at most eight seconds, and a refill mark of five entries.
    pub fn new() -> (r: ProxyPool)
        ensures
            r.wf(),
            r.pool@.len() == 0,
            r.newcomers@.len() == 0,
            r.min_req_proxy == 5,
            r.max_error_rate == (Ratio { num: 1, den: 2 }),
            r.max_avg_resp_time == (Ratio { num: 8000, den: 1 }),
            r.min_queue == 5,
    {
        ProxyPool {
            pool: Vec::new(),
            newcomers: Vec::new(),
            min_req_proxy: 5,
            max_error_rate: Ratio { num: 1, den: 2 },
            max_avg_resp_time: Ratio { num: 8000, den: 1 },
            min_queue: 5,
        }
    }

    /// Admits an entry: one still gathering statistics joins the newcomers,
    /// an unhealthy one is dropped, a healthy veteran joins the pool.
    pub fn put(&mut self, p: SimpleProxy)
        requires
            old(self).wf(),
            p.wf(),
        ensures
            final(self).wf(),
            put_post(*old(self), p, *final(self)),
    {
        if p.request_stat < self.min_req_proxy {
            self.newcomers.push(p);
        } else {
            let er = p.error_rate();
            let avg = p.avg_resp_time();
            let exceeds = !er.le(&self.max_error_rate) || !avg.le(&self.max_avg_resp_time);
            if !exceeds {
                self.pool.push(p);
            }
        }
    }

    /// Looks an entry up for `scheme`.  With too few entries on hand the
    /// caller must import fresh ones; otherwise newcomers go out first, in
    /// arrival order; otherwise the best-ranked veteran serving the scheme
    /// goes out; and with no match the caller must import.
    pub fn get(&mut self, scheme: Scheme) -> (r: PoolAnswer)
        requires
            old(self).wf(),
        ensures
            final(self).wf(),
            get_post(*old(self), scheme, r, *final(self)),
    {
        let too_few = self.newcomers.len() < self.min_queue && self.pool.len() < self.min_queue
            - self.newcomers.len();
        if !too_few {
            if self.newcomers.len() > 0 {
                let p = self.newcomers.remove(0);
                proof {
                    assert(self.newcomers@ =~= old(self).newcomers@.drop_first());
                }
                return PoolAnswer::Found(p);
            }
            // Scan the veterans for the best-ranked entry serving the scheme.
            let mut best: Option<usize> = None;
            let mut i: usize = 0;
            while i < self.pool.len()
                invariant
                    self.wf(),
                    self == old(self),
                    i <= self.pool@.len(),
                    match best {
                        Some(b) => b < i && schemes_of(self.pool@[b as int].types@).contains(
                            scheme,
                        ) && forall|j: int|
                            0 <= j < i && j != b && schemes_of(
                                (#[trigger] self.pool@[j]).types@,
                            ).contains(scheme) ==> (self.pool@[b as int].preferred_spec(
                                self.pool@[j],
                            ) || !self.pool@[j].preferred_spec(self.pool@[b as int])),
                        None => forall|j: int|
                            0 <= j < i ==> !schemes_of(
                                (#[trigger] self.pool@[j]).types@,
                            ).contains(scheme),
                    },
                decreases self.pool@.len() - i,
            {
                if self.pool[i].serves(scheme) {
                    match best {
                        Some(b) => {
                            if self.pool[i].preferred_over(&self.pool[b]) {
                                proof {
                                    let e_i = self.pool@[i as int];
                                    let e_b = self.pool@[b as int];
                                    assert forall|j: int|
                                        0 <= j < i + 1 && j != i as int && schemes_of(
                                            (#[trigger] self.pool@[j]).types@,
                                        ).contains(scheme) implies (e_i.preferred_spec(
                                        self.pool@[j],
                                    ) || !self.pool@[j].preferred_spec(e_i)) by {
                                        let e_j = self.pool@[j];
                                        if j != b && e_j.preferred_spec(e_i) && !e_i.preferred_spec(
                                            e_j,
                                        ) {
                                            lemma_pref_trans(e_j, e_i, e_b);
                                            assert(e_b.preferred_spec(e_j) || !e_j.preferred_spec(
                                                e_b,
                                            ));
                                            lemma_pref_trans(e_i, e_b, e_j);
                                        }
                                    }
                                }
                                best = Some(i);
                            }
                        },
                        None => {
                            best = Some(i);
                        },
                    }
                }
                i = i + 1;
            }
            match best {
                Some(b) => {
                    let p = self.pool.remove(b);
                    return PoolAnswer::Found(p);
                },
                None => {
                    return PoolAnswer::NeedImport;
                },
            }
        }
        PoolAnswer::NeedImport
    }

    /// Handles one entry pulled from the hand-off channel while refilling:
    /// an entry serving the wanted scheme is handed out, any other is
    /// admitted to the pool for later.
    pub fn import_step(&mut self, scheme: Scheme, p: SimpleProxy) -> (r: Option<SimpleProxy>)
        requires
            old(self).wf(),
            p.wf(),
        ensures
            final(self).wf(),
            match r {
                Some(e) => e == p && schemes_of(p.types@).contains(scheme) && final(self).pool@
                    == old(self).pool@ && final(self).newcomers@ == old(self).newcomers@,
                None => !schemes_of(p.types@).contains(scheme),
            },
    {
        if p.serves(scheme) {
            Some(p)
        } else {
            self.put(p);
            None
        }
    }

    /// Removes the entry with the given address, looking first through the
    /// newcomers and then through the veterans.
    pub fn remove(&mut self, host: &str, port: u16) -> (r: Option<SimpleProxy>)
        requires
            old(self).wf(),
        ensures
            final(self).wf(),
            match r {
                Some(e) => e.host@ == host@ && e.port == port && {
                    ||| (exists|i: int|
                        {
                            &&& 0 <= i < old(self).newcomers@.len()
                            &&& e == old(self).newcomers@[i]
                            &&& final(self).newcomers@ == old(self).newcomers@.remove(i)
                            &&& final(self).pool@ == old(self).pool@
                        })
                    ||| (exists|i: int|
                        {
                            &&& 0 <= i < old(self).pool@.len()
                            &&& e == old(self).pool@[i]
                            &&& final(self).pool@ == old(self).pool@.remove(i)
                            &&& final(self).newcomers@ == old(self).newcomers@
                        })
                },
                None => final(self).pool@ == old(self).pool@ && final(self).newcomers@ == old(
                    self,
                ).newcomers@ && (forall|i: int|
                    0 <= i < old(self).newcomers@.len() ==> !((#[trigger] old(
                        self,
                    ).newcomers@[i]).host@ == host@ && old(self).newcomers@[i].port == port))
                    && (forall|i: int|
                    0 <= i < old(self).pool@.len() ==> !((#[trigger] old(self).pool@[i]).host@
                        == host@ && old(self).pool@[i].port == port)),
            },
    {
        let mut i: usize = 0;
        while i < self.newcomers.len()
            invariant
                self.wf(),
                self == old(self),
                i <= self.newcomers@.len(),
                forall|k: int|
                    0 <= k < i ==> !((#[trigger] self.newcomers@[k]).host@ == host@
                        && self.newcomers@[k].port == port),
            decreases self.newcomers@.len() - i,
        {
            if str_eq(self.newcomers[i].host.as_str(), host) && self.newcomers[i].port == port {
                let e = self.newcomers.remove(i);
                return Some(e);
            }
            i = i + 1;
        }
        let mut i: usize = 0;
        while i < self.pool.len()
            invariant
                self.wf(),
                self == old(self),
                i <= self.pool@.len(),
                forall|k: int|
                    0 <= k < i ==> !((#[trigger] self.pool@[k]).host@ == host@
                        && self.pool@[k].port == port),
            decreases self.pool@.len() - i,
        {
            if str_eq(self.pool[i].host.as_str(), host) && self.pool[i].port == port {
                let e = self.pool.remove(i);
                return Some(e);
            }
            i = i + 1;
        }
        None
    }
}

/// The rank is transitive.
proof fn lemma_pref_trans(a: SimpleProxy, b: SimpleProxy, c: SimpleProxy)
    requires
        a.wf(),
        b.wf(),
        c.wf(),
        a.preferred_spec(b),
        b.preferred_spec(c),
    ensures
        a.preferred_spec(c),
{
    let ea = a.error_rate_spec();
    let eb = b.error_rate_spec();
    let ec = c.error_rate_spec();
    let aa = a.avg_resp_time_spec();
    let ab = b.avg_resp_time_spec();
    let ac = c.avg_resp_time_spec();
    assert(aa.den >= 1 && ab.den >= 1 && ac.den >= 1);
    lemma_lex_trans(
        ea.num as int, ea.den as int, aa.num as int, aa.den as int,
        eb.num as int, eb.den as int, ab.num as int, ab.den as int,
        ec.num as int, ec.den as int, ac.num as int, ac.den as int,
    );
}

/// Transitivity of the lexicographic rank over exact fractions, stated over
/// the cross products.
#[verifier::rlimit(30)]
proof fn lemma_lex_trans(
    ean: int, ead: int, aan: int, aad: int,
    ebn: int, ebd: int, abn: int, abd: int,
    ecn: int, ecd: int, acn: int, acd: int,
)
    by (nonlinear_arith)
    requires
        ead >= 1, ebd >= 1, ecd >= 1,
        aad >= 1, abd >= 1, acd >= 1,
        (ean * ebd < ebn * ead) || (ean * ebd == ebn * ead && aan * abd <= abn * aad),
        (ebn * ecd < ecn * ebd) || (ebn * ecd == ecn * ebd && abn * acd <= acn * abd),
    ensures
        (ean * ecd < ecn * ead) || (ean * ecd == ecn * ead && aan * acd <= acn * aad),
{
}

/// Every veteran in a well-formed pool meets the health gate: its request
/// count reached the evaluation threshold, its error rate is within the
/// configured maximum, and so is its average response time.
pub proof fn pool_entries_healthy(pp: ProxyPool)
    requires
        pp.wf(),
    ensures
        forall|i: int|
            0 <= i < pp.pool@.len() ==> {
                let p = #[trigger] pp.pool@[i];
                &&& p.request_stat >= pp.min_req_proxy
                &&& p.error_rate_spec().le_spec(pp.max_error_rate)
                &&& p.avg_resp_time_spec().le_spec(pp.max_avg_resp_time)
            },
{
}

} // verus!
