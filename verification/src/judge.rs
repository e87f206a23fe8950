//! Judges: the echo endpoints proxies are validated against, the registry
//! of working judges per scheme, and the set of protocols disabled when a
//! scheme ends up without judges.

use vstd::prelude::*;

use crate::proto::{Protocol, Scheme};
use crate::strutil::{contains_seq, count_occurrences, lower_bytes, str_eq};
use vstd::string::StringSliceAdditionalSpecFns;

verus! {

/// What the URL parser yields on a given input: the scheme, the host and
/// the path, a function of the text alone.
pub uninterp spec fn url_parts_of(s: Seq<char>) -> Option<(Seq<char>, Seq<char>, Seq<char>)>;

/// Relies on url::Url::parse, and on Url::scheme, Url::host_str and
/// Url::path: a parsed absolute URL yields its scheme (lower-cased by the
/// parser), host and path, and parsing is a function of the text alone.
/// Yields nothing when parsing fails or the URL has no host.
#[verifier::external_body]
pub fn parse_url(s: &str) -> (r: Option<(String, String, String)>)
    ensures
        match r {
            Some(t) => match url_parts_of(s@) {
                Some(u) => t.0@ == u.0 && t.1@ == u.1 && t.2@ == u.2,
                None => false,
            },
            None => url_parts_of(s@) is None,
        },
{
    match url::Url::parse(s) {
        Ok(u) => match u.host_str() {
            Some(h) => Some((u.scheme().to_string(), h.to_string(), u.path().to_string())),
            None => None,
        },
        Err(_) => None,
    }
}

/// Relies on rand::random_range: a draw from `0..n`, so always below `n`.
#[verifier::external_body]
pub fn random_below(n: usize) -> (r: usize)
    requires
        n > 0,
    ensures
        r < n,
{
    rand::random_range(0..n)
}

/// One judge: an echo endpoint with its scheme, address, health and the
/// baseline counts of the `via` and `proxy` substrings seen when fetching
/// it directly.
#[derive(Clone, Debug)]
pub struct Judge {
    pub scheme: Scheme,
    pub host: String,
    pub path: String,
    pub ip_address: Option<String>,
    pub is_working: bool,
    pub marks_via: usize,
    pub marks_proxy: usize,
    pub timeout_secs: u32,
    pub verify_ssl: bool,
}

impl Judge {
    /// Builds a judge from its URL.  Only HTTP, HTTPS and SMTP endpoints
    /// can judge anything; an unparsable URL or any other scheme yields
    /// nothing.
    pub fn new(url_text: &str) -> (r: Option<Judge>)
        ensures
            match r {
                Some(j) => match url_parts_of(url_text@) {
                    Some(u) => {
                        &&& j.host@ == u.1
                        &&& j.path@ == u.2
                        &&& !j.is_working
                        &&& j.marks_via == 0
                        &&& j.marks_proxy == 0
                        &&& j.ip_address is None
                        &&& !j.verify_ssl
                        &&& ((j.scheme == Scheme::Http && u.0 == "http"@) || (j.scheme
                            == Scheme::Https && u.0 == "https"@) || (j.scheme == Scheme::Smtp
                            && u.0 == "smtp"@))
                    },
                    None => false,
                },
                None => url_parts_of(url_text@) is None || (url_parts_of(url_text@) matches Some(u)
                    && u.0 != "http"@ && u.0 != "https"@ && u.0 != "smtp"@),
            },
    {
        let (scheme_text, host, path) = match parse_url(url_text) {
            Some(t) => t,
            None => {
                return None;
            },
        };
        let scheme = if str_eq(scheme_text.as_str(), "http") {
            Scheme::Http
        } else if str_eq(scheme_text.as_str(), "https") {
            Scheme::Https
        } else if str_eq(scheme_text.as_str(), "smtp") {
            Scheme::Smtp
        } else {
            return None;
        };
        Some(
            Judge {
                scheme,
                host,
                path,
                ip_address: None,
                is_working: false,
                marks_via: 0,
                marks_proxy: 0,
                timeout_secs: 5,
                verify_ssl: false,
            },
        )
    }
}

/// How a probe's result decides a judge's health (the probe itself is a
/// plain HTTP fetch done by the caller).  An SMTP judge is trivially
/// working.  Any other judge works exactly when the fetch came back with
/// status 200 and the body holds the external address, compared without
/// regard to ASCII case; the baseline marks are the counts of `via` and
/// `proxy` in the body as fetched.
pub fn judge_probe_outcome(scheme: Scheme, status: Option<u16>, body: &[u8], ext_ip: &str) -> (r: (
    bool,
    usize,
    usize,
))
    ensures
        scheme == Scheme::Smtp ==> r == (true, 0usize, 0usize),
        scheme != Scheme::Smtp ==> {
            &&& r.0 == (status == Some(200u16) && contains_seq(
                lower_bytes(body@),
                lower_bytes(ext_ip.spec_bytes()),
            ))
            &&& r.1 == count_occurrences(body@, "via".spec_bytes())
            &&& r.2 == count_occurrences(body@, "proxy".spec_bytes())
        },
{
    if matches!(scheme, Scheme::Smtp) {
        return (true, 0, 0);
    }
    let ok = match status {
        Some(200) => {
            let body_lower = crate::strutil::to_lower_bytes(body);
            let ip_lower = crate::strutil::to_lower_bytes(ext_ip.as_bytes());
            crate::strutil::contains_bytes(body_lower.as_slice(), ip_lower.as_slice())
        },
        _ => false,
    };
    proof {
        reveal_strlit("via");
        reveal_strlit("proxy");
        assert(vstd::utf8::is_ascii_chars("via"@));
        assert(vstd::utf8::is_ascii_chars("proxy"@));
        vstd::utf8::is_ascii_chars_encode_utf8("via"@);
        vstd::utf8::is_ascii_chars_encode_utf8("proxy"@);
    }
    let via = crate::strutil::count_matches(body, "via".as_bytes());
    let proxy = crate::strutil::count_matches(body, "proxy".as_bytes());
    (ok, via, proxy)
}

/// The protocols that lose their judge when a scheme has none: every
/// HTTP-judged protocol for HTTP, the CONNECT-to-25 probe for SMTP, and
/// HTTPS for HTTPS.
pub open spec fn dependents_of(s: Scheme) -> Seq<Protocol> {
    match s {
        Scheme::Http => seq![Protocol::Http, Protocol::Connect80, Protocol::Socks4, Protocol::Socks5],
        Scheme::Smtp => seq![Protocol::Connect25],
        Scheme::Https => seq![Protocol::Https],
    }
}

/// The registry of working judges, one bucket per scheme, with the set of
/// protocols disabled for the rest of the run.  Buckets and the disabled
/// set only ever grow: every mutating operation keeps the old contents as
/// a prefix.
pub struct JudgeRegistry {
    pub http: Vec<Judge>,
    pub https: Vec<Judge>,
    pub smtp: Vec<Judge>,
    pub disabled: Vec<Protocol>,
}

impl JudgeRegistry {
    /// The bucket of a scheme.
    pub open spec fn bucket(self, s: Scheme) -> Seq<Judge> {
        match s {
            Scheme::Http => self.http@,
            Scheme::Https => self.https@,
            Scheme::Smtp => self.smtp@,
        }
    }

    /// Every judge in a bucket is working and judges that bucket's scheme.
    pub open spec fn wf(self) -> bool {
        forall|s: Scheme, i: int|
            0 <= i < self.bucket(s).len() ==> (#[trigger] self.bucket(s)[i]).is_working
                && self.bucket(s)[i].scheme == s
    }

    /// An empty registry: no judges, nothing disabled.
    pub fn new() -> (r: JudgeRegistry)
        ensures
            r.wf(),
            forall|s: Scheme| (#[trigger] r.bucket(s)).len() == 0,
            r.disabled@.len() == 0,
    {
        let r = JudgeRegistry {
            http: Vec::new(),
            https: Vec::new(),
            smtp: Vec::new(),
            disabled: Vec::new(),
        };
        proof {
            assert forall|s: Scheme| (#[trigger] r.bucket(s)).len() == 0 by {
                match s {
                    Scheme::Http => {},
                    Scheme::Https => {},
                    Scheme::Smtp => {},
                }
            }
        }
        r
    }

    /// Registers a judge: a working one joins its scheme's bucket, one that
    /// is not working is refused, so only working judges ever become
    /// visible.  The old bucket stays a prefix of the new one — a judge,
    /// once registered, is never removed — and the other buckets and the
    /// disabled set are untouched.
    pub fn add_judge(&mut self, j: Judge)
        requires
            old(self).wf(),
        ensures
            final(self).wf(),
            j.is_working ==> final(self).bucket(j.scheme) == old(self).bucket(j.scheme).push(j),
            j.is_working ==> forall|s: Scheme|
                s != j.scheme ==> final(self).bucket(s) == #[trigger] old(self).bucket(s),
            !j.is_working ==> forall|s: Scheme|
                final(self).bucket(s) == #[trigger] old(self).bucket(s),
            forall|s: Scheme| old(self).bucket(s).is_prefix_of(#[trigger] final(self).bucket(s)),
            final(self).disabled@ == old(self).disabled@,
    {
        if !j.is_working {
            proof {
                assert forall|s: Scheme|
                    self.bucket(s) == #[trigger] old(self).bucket(s) by {
                    match s {
                        Scheme::Http => {},
                        Scheme::Https => {},
                        Scheme::Smtp => {},
                    }
                }
            }
            return ;
        }
        match j.scheme {
            Scheme::Http => self.http.push(j),
            Scheme::Https => self.https.push(j),
            Scheme::Smtp => self.smtp.push(j),
        }
        proof {
            assert forall|s: Scheme|
                old(self).bucket(s).is_prefix_of(#[trigger] self.bucket(s)) by {
                match s {
                    Scheme::Http => {},
                    Scheme::Https => {},
                    Scheme::Smtp => {},
                }
            }
            assert forall|s: Scheme|
                s != j.scheme implies self.bucket(s) == #[trigger] old(self).bucket(s) by {
                match s {
                    Scheme::Http => {},
                    Scheme::Https => {},
                    Scheme::Smtp => {},
                }
            }
        }
    }

    /// Notes that a scheme ended its probe without a single working judge:
    /// every protocol depending on it is disabled.  The old disabled set
    /// stays a prefix of the new one — a protocol, once disabled, stays
    /// disabled — and the buckets are untouched.
    pub fn disable_scheme(&mut self, s: Scheme)
        requires
            old(self).wf(),
        ensures
            final(self).wf(),
            old(self).disabled@.is_prefix_of(final(self).disabled@),
            forall|p: Protocol|
                final(self).disabled@.contains(p) <==> (old(self).disabled@.contains(p)
                    || dependents_of(s).contains(p)),
            forall|sc: Scheme| final(self).bucket(sc) == #[trigger] old(self).bucket(sc),
    {
        let deps: Vec<Protocol> = match s {
            Scheme::Http => {
                let mut v: Vec<Protocol> = Vec::new();
                v.push(Protocol::Http);
                v.push(Protocol::Connect80);
                v.push(Protocol::Socks4);
                v.push(Protocol::Socks5);
                v
            },
            Scheme::Smtp => {
                let mut v: Vec<Protocol> = Vec::new();
                v.push(Protocol::Connect25);
                v
            },
            Scheme::Https => {
                let mut v: Vec<Protocol> = Vec::new();
                v.push(Protocol::Https);
                v
            },
        };
        proof {
            assert(deps@ =~= dependents_of(s));
        }
        let mut i: usize = 0;
        while i < deps.len()
            invariant
                i <= deps@.len(),
                old(self).disabled@.is_prefix_of(self.disabled@),
                forall|p: Protocol|
                    self.disabled@.contains(p) <==> (old(self).disabled@.contains(p) || deps@.subrange(
                        0,
                        i as int,
                    ).contains(p)),
                self.http == old(self).http,
                self.https == old(self).https,
                self.smtp == old(self).smtp,
            decreases deps@.len() - i,
        {
            let ghost pre_dis = self.disabled@;
            let p = deps[i];
            if !self.is_disabled(p) {
                self.disabled.push(p);
                proof {
                    assert(self.disabled@.subrange(0, old(self).disabled@.len() as int) =~= old(
                        self,
                    ).disabled@);
                    assert forall|q: Protocol|
                        self.disabled@.contains(q) <==> (pre_dis.contains(q) || q == p) by {
                        if pre_dis.contains(q) {
                            let k = choose|k: int| 0 <= k < pre_dis.len() && pre_dis[k] == q;
                            assert(self.disabled@[k] == q);
                        }
                        if self.disabled@.contains(q) {
                            let k = choose|k: int|
                                0 <= k < self.disabled@.len() && self.disabled@[k] == q;
                            if k < pre_dis.len() {
                                assert(pre_dis[k] == q);
                            }
                        }
                        if q == p {
                            assert(self.disabled@.last() == p);
                        }
                    }
                }
            }
            proof {
                assert forall|q: Protocol|
                    self.disabled@.contains(q) <==> (pre_dis.contains(q) || q == p) by {}
            }
            i = i + 1;
            proof {
                let pre = deps@.subrange(0, i - 1);
                let cur = deps@.subrange(0, i as int);
                assert forall|q: Protocol| cur.contains(q) <==> (pre.contains(q) || q == deps@[i
                    - 1]) by {
                    if pre.contains(q) {
                        let k = choose|k: int| 0 <= k < pre.len() && pre[k] == q;
                        assert(cur[k] == q);
                    }
                    if q == deps@[i - 1] {
                        assert(cur[i - 1] == q);
                    }
                    if cur.contains(q) {
                        let k = choose|k: int| 0 <= k < cur.len() && cur[k] == q;
                        if k < i - 1 {
                            assert(pre[k] == q);
                        }
                    }
                }
                assert forall|q: Protocol|
                    self.disabled@.contains(q) <==> (old(self).disabled@.contains(q)
                        || cur.contains(q)) by {
                    assert(pre_dis.contains(q) <==> (old(self).disabled@.contains(q)
                        || pre.contains(q)));
                    assert(self.disabled@.contains(q) <==> (pre_dis.contains(q) || q == p));
                    assert(cur.contains(q) <==> (pre.contains(q) || q == deps@[i - 1]));
                }
            }
        }
        proof {
            assert(deps@.subrange(0, deps@.len() as int) =~= deps@);
            assert forall|sc: Scheme| self.bucket(sc) == #[trigger] old(self).bucket(sc) by {
                match sc {
                    Scheme::Http => {},
                    Scheme::Https => {},
                    Scheme::Smtp => {},
                }
            }
            assert forall|sc: Scheme, k: int|
                0 <= k < self.bucket(sc).len() implies (#[trigger] self.bucket(
                sc,
            )[k]).is_working && self.bucket(sc)[k].scheme == sc by {
                assert(self.bucket(sc) == old(self).bucket(sc));
                assert(old(self).bucket(sc)[k].is_working && old(self).bucket(sc)[k].scheme == sc);
            }
        }
    }

    /// Whether checking a protocol is disabled.
    pub fn is_disabled(&self, p: Protocol) -> (r: bool)
        ensures
            r == self.disabled@.contains(p),
    {
        let mut i: usize = 0;
        while i < self.disabled.len()
            invariant
                i <= self.disabled@.len(),
                forall|k: int| 0 <= k < i ==> self.disabled@[k] != p,
            decreases self.disabled@.len() - i,
        {
            if self.disabled[i] == p {
                return true;
            }
            i = i + 1;
        }
        false
    }

    /// Picks a judge for a protocol: a uniformly random entry of the bucket
    /// of the protocol's judge scheme, or nothing while the bucket is
    /// empty (the caller waits, within a bound, and gives up).
    pub fn get_judge(&self, proto: Protocol) -> (r: Option<&Judge>)
        requires
            self.wf(),
        ensures
            match r {
                Some(j) => self.bucket(proto.judge_scheme_spec()).contains(*j) && j.is_working
                    && j.scheme == proto.judge_scheme_spec(),
                None => self.bucket(proto.judge_scheme_spec()).len() == 0,
            },
    {
        let scheme = proto.judge_scheme();
        let bucket: &Vec<Judge> = match scheme {
            Scheme::Http => &self.http,
            Scheme::Https => &self.https,
            Scheme::Smtp => &self.smtp,
        };
        if bucket.len() == 0 {
            return None;
        }
        let i = random_below(bucket.len());
        let j = &bucket[i];
        proof {
            assert(self.bucket(proto.judge_scheme_spec())[i as int] == *j);
        }
        Some(j)
    }

    /// Whether every requested protocol has been disabled: the fatal
    /// startup condition under which checking cannot proceed at all.
    pub fn all_disabled(&self, requested: &Vec<Protocol>) -> (r: bool)
        ensures
            r == forall|i: int|
                0 <= i < requested@.len() ==> self.disabled@.contains(#[trigger] requested@[i]),
    {
        let mut i: usize = 0;
        while i < requested.len()
            invariant
                i <= requested@.len(),
                forall|k: int|
                    0 <= k < i ==> self.disabled@.contains(#[trigger] requested@[k]),
            decreases requested@.len() - i,
        {
            if !self.is_disabled(requested[i]) {
                return false;
            }
            i = i + 1;
        }
        true
    }
}

/// The judge schemes that a set of requested protocols needs probed: each
/// protocol asks for the scheme of the judge that validates it.
pub fn needed_schemes(requested: &Vec<Protocol>) -> (r: Vec<Scheme>)
    ensures
        forall|s: Scheme|
            r@.contains(s) <==> exists|i: int|
                0 <= i < requested@.len() && (#[trigger] requested@[i]).judge_scheme_spec() == s,
        forall|i: int, j: int| 0 <= i < j < r@.len() ==> r@[i] != r@[j],
{
    let mut need_http = false;
    let mut need_https = false;
    let mut need_smtp = false;
    let mut i: usize = 0;
    while i < requested.len()
        invariant
            i <= requested@.len(),
            need_http == exists|k: int|
                0 <= k < i && (#[trigger] requested@[k]).judge_scheme_spec() == Scheme::Http,
            need_https == exists|k: int|
                0 <= k < i && (#[trigger] requested@[k]).judge_scheme_spec() == Scheme::Https,
            need_smtp == exists|k: int|
                0 <= k < i && (#[trigger] requested@[k]).judge_scheme_spec() == Scheme::Smtp,
        decreases requested@.len() - i,
    {
        match requested[i].judge_scheme() {
            Scheme::Http => {
                need_http = true;
            },
            Scheme::Https => {
                need_https = true;
            },
            Scheme::Smtp => {
                need_smtp = true;
            },
        }
        i = i + 1;
        proof {
            assert(requested@[i - 1].judge_scheme_spec() == requested@[i - 1].judge_scheme_spec());
        }
    }
    let mut r: Vec<Scheme> = Vec::new();
    if need_http {
        r.push(Scheme::Http);
    }
    if need_https {
        r.push(Scheme::Https);
    }
    if need_smtp {
        r.push(Scheme::Smtp);
    }
    proof {
        assert forall|s: Scheme|
            r@.contains(s) <==> exists|k: int|
                0 <= k < requested@.len() && (#[trigger] requested@[k]).judge_scheme_spec()
                    == s by {
            match s {
                Scheme::Http => {
                    if need_http {
                        assert(r@[0] == Scheme::Http);
                    }
                    if r@.contains(Scheme::Http) {
                        let k = choose|k: int| 0 <= k < r@.len() && r@[k] == Scheme::Http;
                        assert(need_http);
                    }
                },
                Scheme::Https => {
                    if need_https {
                        if need_http {
                            assert(r@[1] == Scheme::Https);
                        } else {
                            assert(r@[0] == Scheme::Https);
                        }
                    }
                    if r@.contains(Scheme::Https) {
                        assert(need_https);
                    }
                },
                Scheme::Smtp => {
                    if need_smtp {
                        assert(r@.last() == Scheme::Smtp);
                    }
                    if r@.contains(Scheme::Smtp) {
                        assert(need_smtp);
                    }
                },
            }
        }
    }
    r
}

/// One seed judge, not yet probed.
fn seed(scheme: Scheme, host: &str, path: &str) -> (r: Judge)
    ensures
        judge_seed_view(r) == (scheme, host@, path@),
        !r.is_working,
        r.marks_via == 0,
        r.marks_proxy == 0,
        r.ip_address is None,
        !r.verify_ssl,
{
    Judge {
        scheme,
        host: host.to_owned(),
        path: path.to_owned(),
        ip_address: None,
        is_working: false,
        marks_via: 0,
        marks_proxy: 0,
        timeout_secs: 5,
        verify_ssl: false,
    }
}

/// The scheme and address of a seed judge.
pub open spec fn judge_seed_view(j: Judge) -> (Scheme, Seq<char>, Seq<char>) {
    (j.scheme, j.host@, j.path@)
}

/// The shipped seed list: the fixed echo endpoints, HTTP and HTTPS judges
/// by address and path, and the two SMTP judges.
pub open spec fn seed_list_spec() -> Seq<(Scheme, Seq<char>, Seq<char>)> {
    seq![
        (Scheme::Http, "httpheader.net"@, "/azenv.php"@),
        (Scheme::Https, "httpbin.org"@, "/get"@),
        (Scheme::Https, "www.proxy-listen.de"@, "/azenv.php"@),
        (Scheme::Http, "azenv.net"@, "/"@),
        (Scheme::Http, "mojeip.net.pl"@, "/asdfa/azenv.php"@),
        (Scheme::Http, "proxyjudge.us"@, "/"@),
        (Scheme::Https, "www.proxyjudge.info"@, "/"@),
        (Scheme::Http, "pascal.hoez.free.fr"@, "/azenv.php"@),
        (Scheme::Smtp, "smtp.gmail.com"@, ""@),
        (Scheme::Smtp, "aspmx.l.google.com"@, ""@),
    ]
}

/// The shipped judge seed list: exactly the fixed endpoints, none probed
/// yet.
pub fn get_judges() -> (r: Vec<Judge>)
    ensures
        r@.len() == 10,
        Seq::new(r@.len() as nat, |i: int| judge_seed_view(r@[i])) == seed_list_spec(),
        forall|i: int|
            0 <= i < r@.len() ==> !(#[trigger] r@[i]).is_working && r@[i].marks_via == 0
                && r@[i].marks_proxy == 0 && r@[i].ip_address is None && !r@[i].verify_ssl,
{
    let mut r: Vec<Judge> = Vec::new();
    r.push(seed(Scheme::Http, "httpheader.net", "/azenv.php"));
    r.push(seed(Scheme::Https, "httpbin.org", "/get"));
    r.push(seed(Scheme::Https, "www.proxy-listen.de", "/azenv.php"));
    r.push(seed(Scheme::Http, "azenv.net", "/"));
    r.push(seed(Scheme::Http, "mojeip.net.pl", "/asdfa/azenv.php"));
    r.push(seed(Scheme::Http, "proxyjudge.us", "/"));
    r.push(seed(Scheme::Https, "www.proxyjudge.info", "/"));
    r.push(seed(Scheme::Http, "pascal.hoez.free.fr", "/azenv.php"));
    r.push(seed(Scheme::Smtp, "smtp.gmail.com", ""));
    r.push(seed(Scheme::Smtp, "aspmx.l.google.com", ""));
    proof {
        assert(Seq::new(r@.len() as nat, |i: int| judge_seed_view(r@[i])) =~~= seed_list_spec());
    }
    r
}

/// A uniformly random element of a list, or nothing when it is empty.
pub fn get_random_element<T>(array: &Vec<T>) -> (r: Option<&T>)
    ensures
        match r {
            Some(x) => exists|i: int| 0 <= i < array@.len() && *x == array@[i],
            None => array@.len() == 0,
        },
{
    if array.len() == 0 {
        return None;
    }
    let i = random_below(array.len());
    proof {
        assert(array@[i as int] == array@[i as int]);
    }
    Some(&array[i])
}

} // verus!
