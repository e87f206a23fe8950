//! The proxy record: address, confirmed types, statistics and the state of
//! its connection.  Statistics are exact rationals over integer counters, so
//! the health rules of the pool can be stated and proved precisely.

use vstd::prelude::*;

use crate::geo::GeoData;
use crate::proto::{ConfirmedType, Protocol, Scheme};
use crate::strutil;

verus! {

/// An exact non-negative rational with a positive denominator.
#[derive(Clone, Copy, Debug)]
pub struct Ratio {
    pub num: u64,
    pub den: u64,
}

impl Ratio {
    /// Well-formed: the denominator is positive.
    pub open spec fn wf(self) -> bool {
        self.den >= 1
    }

    /// Value comparison, `self <= other`, by cross multiplication.
    pub open spec fn le_spec(self, other: Ratio) -> bool {
        self.num * other.den <= other.num * self.den
    }

    /// Value equality by cross multiplication.
    pub open spec fn eq_spec(self, other: Ratio) -> bool {
        self.num * other.den == other.num * self.den
    }

    /// Value comparison, executable form.
    pub fn le(&self, other: &Ratio) -> (r: bool)
        ensures
            r == self.le_spec(*other),
    {
        let a = self.num as u128;
        let b = other.den as u128;
        let c = other.num as u128;
        let d = self.den as u128;
        proof {
            lemma_u64_prod_fits(a, b);
            lemma_u64_prod_fits(c, d);
        }
        a * b <= c * d
    }

    /// Strict value comparison, executable form.
    pub fn lt(&self, other: &Ratio) -> (r: bool)
        ensures
            r == (self.le_spec(*other) && !self.eq_spec(*other)),
    {
        let a = self.num as u128;
        let b = other.den as u128;
        let c = other.num as u128;
        let d = self.den as u128;
        proof {
            lemma_u64_prod_fits(a, b);
            lemma_u64_prod_fits(c, d);
        }
        a * b < c * d
    }

    /// Exact zero.
    pub open spec fn is_zero(self) -> bool {
        self.num == 0
    }
}

/// The product of two values below `2^64` fits in 128 bits.
proof fn lemma_u64_prod_fits(a: u128, b: u128)
    by (nonlinear_arith)
    requires
        a < 0x1_0000_0000_0000_0000,
        b < 0x1_0000_0000_0000_0000,
    ensures
        a * b < 0x1_0000_0000_0000_0000_0000_0000_0000_0000,
{
}

/// The kinds of failure counted on a proxy.
#[derive(Clone, Copy, Debug, PartialEq, Eq, Structural)]
pub enum ErrorKind {
    ConnectionError,
    ConnectionTimeout,
    SendError,
    RecvError,
    RecvTimeout,
    BadStatus,
    InvalidVersion,
    AuthRequired,
    InvalidData,
    RequestFailed,
    ResponseNotCorrect,
}

/// Per-kind failure counters.
#[derive(Clone, Copy, Debug, PartialEq, Eq, Structural, Default)]
pub struct ErrorStat {
    pub connection_error: u32,
    pub connection_timeout: u32,
    pub send_error: u32,
    pub recv_error: u32,
    pub recv_timeout: u32,
    pub bad_status: u32,
    pub invalid_version: u32,
    pub auth_required: u32,
    pub invalid_data: u32,
    pub request_failed: u32,
    pub response_not_correct: u32,
}

impl ErrorStat {
    /// Sum of every counter.
    pub open spec fn total(self) -> int {
        self.connection_error + self.connection_timeout + self.send_error + self.recv_error
            + self.recv_timeout + self.bad_status + self.invalid_version + self.auth_required
            + self.invalid_data + self.request_failed + self.response_not_correct
    }

    /// All counters zero.
    pub fn new() -> (r: ErrorStat)
        ensures
            r.total() == 0,
    {
        ErrorStat {
            connection_error: 0,
            connection_timeout: 0,
            send_error: 0,
            recv_error: 0,
            recv_timeout: 0,
            bad_status: 0,
            invalid_version: 0,
            auth_required: 0,
            invalid_data: 0,
            request_failed: 0,
            response_not_correct: 0,
        }
    }

    /// Sum of every counter, executable form.
    pub fn total_errors(&self) -> (r: u64)
        ensures
            r == self.total(),
    {
        self.connection_error as u64 + self.connection_timeout as u64 + self.send_error as u64
            + self.recv_error as u64 + self.recv_timeout as u64 + self.bad_status as u64
            + self.invalid_version as u64 + self.auth_required as u64 + self.invalid_data as u64
            + self.request_failed as u64 + self.response_not_correct as u64
    }

    /// Adds one to the counter of `kind`.
    pub fn bump(&mut self, kind: ErrorKind)
        requires
            old(self).total() < u32::MAX,
        ensures
            final(self).total() == old(self).total() + 1,
            final(self).counter(kind) == old(self).counter(kind) + 1,
            forall|k: ErrorKind| k != kind ==> final(self).counter(k) == old(self).counter(k),
    {
        match kind {
            ErrorKind::ConnectionError => {
                self.connection_error = self.connection_error + 1;
            },
            ErrorKind::ConnectionTimeout => {
                self.connection_timeout = self.connection_timeout + 1;
            },
            ErrorKind::SendError => {
                self.send_error = self.send_error + 1;
            },
            ErrorKind::RecvError => {
                self.recv_error = self.recv_error + 1;
            },
            ErrorKind::RecvTimeout => {
                self.recv_timeout = self.recv_timeout + 1;
            },
            ErrorKind::BadStatus => {
                self.bad_status = self.bad_status + 1;
            },
            ErrorKind::InvalidVersion => {
                self.invalid_version = self.invalid_version + 1;
            },
            ErrorKind::AuthRequired => {
                self.auth_required = self.auth_required + 1;
            },
            ErrorKind::InvalidData => {
                self.invalid_data = self.invalid_data + 1;
            },
            ErrorKind::RequestFailed => {
                self.request_failed = self.request_failed + 1;
            },
            ErrorKind::ResponseNotCorrect => {
                self.response_not_correct = self.response_not_correct + 1;
            },
        }
        proof {
            assert forall|k: ErrorKind| k != kind implies final(self).counter(k) == old(
                self,
            ).counter(k) by {
                match k {
                    ErrorKind::ConnectionError => {},
                    ErrorKind::ConnectionTimeout => {},
                    ErrorKind::SendError => {},
                    ErrorKind::RecvError => {},
                    ErrorKind::RecvTimeout => {},
                    ErrorKind::BadStatus => {},
                    ErrorKind::InvalidVersion => {},
                    ErrorKind::AuthRequired => {},
                    ErrorKind::InvalidData => {},
                    ErrorKind::RequestFailed => {},
                    ErrorKind::ResponseNotCorrect => {},
                }
            }
        }
    }

    /// The counter of one kind.
    pub open spec fn counter(self, kind: ErrorKind) -> u32 {
        match kind {
            ErrorKind::ConnectionError => self.connection_error,
            ErrorKind::ConnectionTimeout => self.connection_timeout,
            ErrorKind::SendError => self.send_error,
            ErrorKind::RecvError => self.recv_error,
            ErrorKind::RecvTimeout => self.recv_timeout,
            ErrorKind::BadStatus => self.bad_status,
            ErrorKind::InvalidVersion => self.invalid_version,
            ErrorKind::AuthRequired => self.auth_required,
            ErrorKind::InvalidData => self.invalid_data,
            ErrorKind::RequestFailed => self.request_failed,
            ErrorKind::ResponseNotCorrect => self.response_not_correct,
        }
    }
}

/// One line of a proxy's log: the protocol being tried, a message, and the
/// duration of the operation in milliseconds.
#[derive(Clone, Debug)]
pub struct LogEntry {
    pub protocol: Protocol,
    pub message: String,
    pub runtime_ms: u32,
}

/// The connection owned by a proxy under check: nothing, a plain TCP
/// stream, or TLS over that stream.  Each transition consumes the previous
/// state; the sockets themselves live outside the crate.
#[derive(Clone, Copy, Debug, PartialEq, Eq, Structural)]
pub enum StreamState {
    Closed,
    Tcp,
    Tls,
}

/// Sum of a sequence of samples.
pub open spec fn sum_samples(s: Seq<u32>) -> int
    decreases s.len(),
{
    if s.len() == 0 {
        0
    } else {
        sum_samples(s.drop_last()) + s.last()
    }
}

/// Every partial sum of `u32` samples stays below `len * 2^32`.
proof fn lemma_sum_samples_bound(s: Seq<u32>)
    ensures
        0 <= sum_samples(s) <= s.len() * 0xffff_ffff,
    decreases s.len(),
{
    if s.len() > 0 {
        lemma_sum_samples_bound(s.drop_last());
        assert(s.len() * 0xffff_ffff == (s.len() - 1) * 0xffff_ffff + 0xffff_ffff)
            by (nonlinear_arith);
    }
}

/// The mean of a sample list as an exact rational; zero when empty.  The
/// cap on the list's length keeps the sum within range.
pub fn mean_of_samples(samples: &Vec<u32>) -> (r: Ratio)
    requires
        samples@.len() <= u32::MAX,
    ensures
        samples@.len() == 0 ==> r == (Ratio { num: 0, den: 1 }),
        samples@.len() > 0 ==> r == (Ratio {
            num: sum_samples(samples@) as u64,
            den: samples@.len() as u64,
        }),
        r.wf(),
{
    if samples.is_empty() {
        return Ratio { num: 0, den: 1 };
    }
    let mut sum: u64 = 0;
    let mut i: usize = 0;
    let n = samples.len();
    while i < n
        invariant
            n == samples@.len(),
            n <= u32::MAX,
            i <= n,
            sum == sum_samples(samples@.subrange(0, i as int)),
            sum <= (i as int) * 0xffff_ffff,
        decreases n - i,
    {
        proof {
            assert(samples@.subrange(0, i + 1).drop_last() =~= samples@.subrange(0, i as int));
            assert((i + 1) * 0xffff_ffff == i * 0xffff_ffff + 0xffff_ffff) by (nonlinear_arith);
            assert((i as int) * 0xffff_ffff <= (n - 1) * 0xffff_ffff) by (nonlinear_arith)
                requires
                    0 <= i < n,
            ;
            assert((n - 1) * 0xffff_ffff + 0xffff_ffff <= 0xffff_ffff * 0x1_0000_0000)
                by (nonlinear_arith)
                requires
                    n <= 0x1_0000_0000,
            ;
        }
        sum = sum + samples[i] as u64;
        i = i + 1;
    }
    proof {
        assert(samples@.subrange(0, n as int) =~= samples@);
    }
    Ratio { num: sum, den: n as u64 }
}

/// A candidate or validated proxy.
#[derive(Clone, Debug)]
pub struct Proxy {
    pub host: String,
    pub port: u16,
    pub expected_types: Vec<Protocol>,
    pub geo: GeoData,
    pub types: Vec<ConfirmedType>,
    pub schemes: Vec<Scheme>,
    pub logs: Vec<LogEntry>,
    pub negotiator_proto: Protocol,
    pub verify_ssl: bool,
    pub timeout_secs: u32,
    pub runtimes: Vec<u32>,
    pub stream: StreamState,
    pub request_stat: u32,
    pub error_stat: ErrorStat,
    pub is_working: bool,
}

impl Proxy {
    /// Well-formed statistics: there are no more recorded failures or
    /// runtime samples than recorded operations.
    pub open spec fn wf(self) -> bool {
        &&& self.error_stat.total() <= self.request_stat
        &&& self.runtimes@.len() <= self.request_stat
    }

    /// A fresh record for a candidate: no types, no samples, no errors,
    /// stream closed.
    pub fn new(host: String, port: u16, expected_types: Vec<Protocol>, geo: GeoData) -> (r: Proxy)
        ensures
            r.wf(),
            r.host@ == host@,
            r.port == port,
            r.expected_types == expected_types,
            r.types@.len() == 0,
            r.schemes@.len() == 0,
            r.logs@.len() == 0,
            r.runtimes@.len() == 0,
            r.request_stat == 0,
            r.error_stat.total() == 0,
            r.stream == StreamState::Closed,
            !r.is_working,
    {
        Proxy {
            host,
            port,
            expected_types,
            geo,
            types: Vec::new(),
            schemes: Vec::new(),
            logs: Vec::new(),
            negotiator_proto: Protocol::Http,
            verify_ssl: false,
            timeout_secs: 5,
            runtimes: Vec::new(),
            stream: StreamState::Closed,
            request_stat: 0,
            error_stat: ErrorStat::new(),
            is_working: false,
        }
    }

    /// The fraction of recorded operations that failed, as an exact
    /// rational; zero when nothing was recorded.
    pub open spec fn error_rate_spec(self) -> Ratio {
        if self.request_stat == 0 {
            Ratio { num: 0, den: 1 }
        } else {
            Ratio { num: self.error_stat.total() as u64, den: self.request_stat as u64 }
        }
    }

    /// The error rate, executable form.
    pub fn error_rate(&self) -> (r: Ratio)
        requires
            self.wf(),
        ensures
            r == self.error_rate_spec(),
            r.wf(),
    {
        if self.request_stat == 0 {
            Ratio { num: 0, den: 1 }
        } else {
            Ratio { num: self.error_stat.total_errors(), den: self.request_stat as u64 }
        }
    }

    /// The mean of the runtime samples, as an exact rational; zero when
    /// there are none.
    pub open spec fn avg_resp_time_spec(self) -> Ratio {
        if self.runtimes@.len() == 0 {
            Ratio { num: 0, den: 1 }
        } else {
            Ratio { num: sum_samples(self.runtimes@) as u64, den: self.runtimes@.len() as u64 }
        }
    }

    /// The average response time in milliseconds, executable form.
    pub fn avg_resp_time(&self) -> (r: Ratio)
        requires
            self.wf(),
        ensures
            r == self.avg_resp_time_spec(),
            r.wf(),
    {
        mean_of_samples(&self.runtimes)
    }

    /// Records the outcome of one I/O operation: a log line is appended, a
    /// successful operation adds its runtime sample, a failed one adds to
    /// the counter of its kind.  Once the operation counter is saturated
    /// only the log line is kept, so the statistics stay consistent.
    pub fn log(&mut self, message: String, runtime_ms: Option<u32>, error: Option<ErrorKind>)
        requires
            old(self).wf(),
        ensures
            final(self).wf(),
            final(self).logs@.len() == old(self).logs@.len() + 1,
            final(self).logs@.subrange(0, old(self).logs@.len() as int) == old(self).logs@,
            final(self).logs@.last().message@ == message@,
            final(self).logs@.last().protocol == old(self).negotiator_proto,
            final(self).logs@.last().runtime_ms == match runtime_ms {
                Some(ms) => ms,
                None => 0,
            },
            old(self).request_stat < u32::MAX ==> {
                &&& final(self).request_stat == old(self).request_stat + 1
                &&& match runtime_ms {
                    Some(ms) => final(self).runtimes@ == old(self).runtimes@.push(ms),
                    None => final(self).runtimes@ == old(self).runtimes@,
                }
                &&& match error {
                    Some(kind) => final(self).error_stat.total() == old(self).error_stat.total()
                        + 1 && final(self).error_stat.counter(kind) == old(
                        self,
                    ).error_stat.counter(kind) + 1,
                    None => final(self).error_stat == old(self).error_stat,
                }
            },
            final(self).host == old(self).host,
            final(self).port == old(self).port,
            final(self).types == old(self).types,
            final(self).schemes == old(self).schemes,
            final(self).stream == old(self).stream,
            final(self).is_working == old(self).is_working,
            final(self).negotiator_proto == old(self).negotiator_proto,
            final(self).geo == old(self).geo,
            final(self).expected_types == old(self).expected_types,
    {
        let runtime = match runtime_ms {
            Some(ms) => ms,
            None => 0,
        };
        self.logs.push(
            LogEntry { protocol: self.negotiator_proto, message, runtime_ms: runtime },
        );
        if self.request_stat < u32::MAX {
            self.request_stat = self.request_stat + 1;
            if let Some(ms) = runtime_ms {
                self.runtimes.push(ms);
            }
            if let Some(kind) = error {
                self.error_stat.bump(kind);
            }
        }
        proof {
            assert(final(self).logs@.subrange(0, old(self).logs@.len() as int) =~= old(
                self,
            ).logs@);
        }
    }

    /// The address as `host:port` text.
    pub fn as_text(&self) -> (r: String)
        ensures
            r@ == self.host@ + ":"@ + strutil::dec_chars(self.port as nat),
    {
        let mut s = String::new();
        s.append(self.host.as_str());
        s.append(":");
        strutil::append_u64(&mut s, self.port as u64);
        proof {
            assert(s@ =~= self.host@ + ":"@ + strutil::dec_chars(self.port as nat));
        }
        s
    }

    /// The schemes this proxy can serve, derived from its confirmed types
    /// on first use and cached afterwards.
    pub fn get_schemes(&mut self) -> (r: Vec<Scheme>)
        ensures
            final(self).schemes@ == if old(self).schemes@.len() == 0 {
                crate::proto::schemes_of(old(self).types@)
            } else {
                old(self).schemes@
            },
            r@ == final(self).schemes@,
            final(self).types == old(self).types,
            final(self).host == old(self).host,
            final(self).port == old(self).port,
            final(self).geo == old(self).geo,
            final(self).logs == old(self).logs,
            final(self).runtimes == old(self).runtimes,
            final(self).request_stat == old(self).request_stat,
            final(self).error_stat == old(self).error_stat,
            final(self).negotiator_proto == old(self).negotiator_proto,
            final(self).expected_types == old(self).expected_types,
            final(self).verify_ssl == old(self).verify_ssl,
            final(self).timeout_secs == old(self).timeout_secs,
            final(self).stream == old(self).stream,
            final(self).is_working == old(self).is_working,
    {
        if self.schemes.is_empty() {
            let schemes = derive_schemes(&self.types);
            self.schemes = schemes;
        }
        self.schemes.clone()
    }
}

/// Walks the confirmed types and derives the schemes they can serve, in
/// visit order.
pub fn derive_schemes(types: &Vec<ConfirmedType>) -> (r: Vec<Scheme>)
    ensures
        r@ == crate::proto::schemes_of(types@),
{
    let mut r: Vec<Scheme> = Vec::new();
    let mut i: usize = 0;
    proof {
        assert(types@.subrange(0, 0) =~= Seq::<ConfirmedType>::empty());
    }
    while i < types.len()
        invariant
            i <= types@.len(),
            r@ == crate::proto::schemes_of(types@.subrange(0, i as int)),
        decreases types@.len() - i,
    {
        let p = types[i].protocol;
        let ghost prefix = r@;
        let has_http = contains_scheme(&r, Scheme::Http);
        if !has_http && matches!(p, Protocol::Http | Protocol::Connect80 | Protocol::Socks4 | Protocol::Socks5) {
            r.push(Scheme::Http);
        }
        let has_https = contains_scheme(&r, Scheme::Https);
        if !has_https && matches!(p, Protocol::Https | Protocol::Socks4 | Protocol::Socks5) {
            r.push(Scheme::Https);
        }
        i = i + 1;
        proof {
            let sub = types@.subrange(0, i as int);
            assert(sub.drop_last() =~= types@.subrange(0, i - 1));
            assert(sub.last() == types@[i - 1]);
            assert(r@ =~= crate::proto::schemes_of(sub));
        }
    }
    proof {
        assert(types@.subrange(0, types@.len() as int) =~= types@);
    }
    r
}

/// Whether a scheme list holds `s`, executable form.
pub fn contains_scheme(v: &Vec<Scheme>, s: Scheme) -> (r: bool)
    ensures
        r == v@.contains(s),
{
    let mut i: usize = 0;
    while i < v.len()
        invariant
            i <= v@.len(),
            forall|k: int| 0 <= k < i ==> v@[k] != s,
        decreases v@.len() - i,
    {
        if v[i] == s {
            return true;
        }
        i = i + 1;
    }
    false
}

/// The error rate is a proper probability: it always lies between zero and
/// one, and it is zero exactly when no failure was ever counted.
pub proof fn error_rate_bounds(p: Proxy)
    requires
        p.wf(),
    ensures
        p.error_rate_spec().wf(),
        0 <= p.error_rate_spec().num,
        p.error_rate_spec().num <= p.error_rate_spec().den,
        p.error_rate_spec().is_zero() <==> p.error_stat.total() == 0,
{
}

/// The average response time is exactly the mean of the runtime samples:
/// their sum over their count when there are any, zero otherwise.
pub proof fn avg_resp_time_is_mean(p: Proxy)
    requires
        p.wf(),
    ensures
        p.runtimes@.len() > 0 ==> p.avg_resp_time_spec().num == sum_samples(p.runtimes@)
            && p.avg_resp_time_spec().den == p.runtimes@.len(),
        p.runtimes@.len() == 0 ==> p.avg_resp_time_spec().is_zero(),
        p.avg_resp_time_spec().wf(),
{
    lemma_sum_samples_bound(p.runtimes@);
    assert(p.runtimes@.len() * 0xffff_ffff <= 0xffff_ffff * 0x1_0000_0000) by (nonlinear_arith)
        requires
            p.runtimes@.len() <= 0x1_0000_0000,
    ;
}

/// What receiving exactly `n` bytes yields once the bytes that arrived
/// before the peer closed are known: the first `n` bytes when at least `n`
/// arrived, failure otherwise — never a partial buffer.
pub fn recv_exact_outcome(avail: &[u8], n: usize) -> (r: Option<Vec<u8>>)
    ensures
        match r {
            Some(v) => avail@.len() >= n && v@ == avail@.subrange(0, n as int),
            None => avail@.len() < n,
        },
{
    if avail.len() < n {
        return None;
    }
    Some(crate::response::copy_range(avail, 0, n))
}

/// What `get_schemes` yields on a proxy: the cache when it is filled, the
/// derivation from the confirmed types otherwise.
pub open spec fn get_schemes_result(schemes: Seq<Scheme>, types: Seq<ConfirmedType>) -> Seq<
    Scheme,
> {
    if schemes.len() == 0 {
        crate::proto::schemes_of(types)
    } else {
        schemes
    }
}

/// Deriving the schemes is idempotent: once a call has filled the cache,
/// every later call on the same confirmed types yields the same schemes.
pub proof fn get_schemes_idempotent(schemes1: Seq<Scheme>, types: Seq<ConfirmedType>)
    requires
        schemes1 == get_schemes_result(Seq::<Scheme>::empty(), types),
    ensures
        get_schemes_result(schemes1, types) == schemes1,
{
}

impl Proxy {
    /// Records a confirmed protocol, with its anonymity level where one was
    /// classified.
    pub fn confirm(&mut self, protocol: Protocol, level: Option<crate::proto::Anonymity>)
        requires
            old(self).wf(),
        ensures
            final(self).wf(),
            final(self).types@ == old(self).types@.push(
                ConfirmedType { protocol, level },
            ),
            final(self).schemes == old(self).schemes,
            final(self).host == old(self).host,
            final(self).port == old(self).port,
            final(self).runtimes == old(self).runtimes,
            final(self).request_stat == old(self).request_stat,
            final(self).error_stat == old(self).error_stat,
            final(self).stream == old(self).stream,
            final(self).logs == old(self).logs,
            final(self).is_working == old(self).is_working,
            final(self).negotiator_proto == old(self).negotiator_proto,
    {
        self.types.push(ConfirmedType { protocol, level });
    }

    /// Tears the connection down: TLS first where present, then TCP; the
    /// stream ends closed either way.
    pub fn close(&mut self)
        requires
            old(self).wf(),
        ensures
            final(self).wf(),
            final(self).stream == StreamState::Closed,
            final(self).types == old(self).types,
            final(self).host == old(self).host,
            final(self).port == old(self).port,
            final(self).runtimes == old(self).runtimes,
            final(self).request_stat == old(self).request_stat,
            final(self).error_stat == old(self).error_stat,
            final(self).logs == old(self).logs,
            final(self).is_working == old(self).is_working,
    {
        match self.stream {
            StreamState::Tls => {
                self.stream = StreamState::Tcp;
                self.stream = StreamState::Closed;
            },
            StreamState::Tcp => {
                self.stream = StreamState::Closed;
            },
            StreamState::Closed => {},
        }
    }
}

} // verus!
