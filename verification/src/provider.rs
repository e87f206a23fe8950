//! Providers: the declarative records of the pages that list candidate
//! proxies, the extraction of `address:port` pairs from a fetched page, and
//! the crawl bookkeeping.  Fetching the pages happens outside the crate.

use vstd::prelude::*;

use crate::checker::header_pairs_str;
use crate::proto::Protocol;
use crate::queue::Candidate;
use crate::strutil::{dec_value, is_port, str_eq};
use vstd::pervasive::VecAdditionalExecFns;

verus! {

/// What the pattern matcher yields on a pattern and a page: the text of the
/// first two capture groups of each match, in order, a function of the two
/// texts alone.
pub uninterp spec fn capture_pairs_of(pattern: Seq<char>, text: Seq<char>) -> Seq<
    (Seq<char>, Seq<char>),
>;

/// Relies on regex::Regex::new and Regex::captures_iter: the first two
/// capture groups of every match of the pattern over the text, in match
/// order, a missing group read as empty; an invalid pattern yields nothing.
#[verifier::external_body]
fn regex_capture_pairs(pattern: &str, text: &str) -> (r: Vec<(String, String)>)
    ensures
        header_pairs_str(r@) == capture_pairs_of(pattern@, text@),
{
    let mut out = Vec::new();
    if let Ok(re) = regex::Regex::new(pattern) {
        for cap in re.captures_iter(text) {
            let a = cap.get(1).map(|m| m.as_str().to_string()).unwrap_or_default();
            let b = cap.get(2).map(|m| m.as_str().to_string()).unwrap_or_default();
            out.push((a, b));
        }
    }
    out
}

/// A provider: a page that lists candidates, the pattern that extracts
/// them, the protocols the provider claims, and the crawl settings.
#[derive(Clone, Debug)]
pub struct Provider {
    pub name: String,
    pub url: String,
    pub pattern: String,
    pub proto: Vec<Protocol>,
    pub max_depth: u32,
    pub link_pattern: Option<String>,
    pub timeout_secs: u32,
}

/// The default extraction pattern, as characters.
pub open spec fn default_pattern_spec() -> Seq<char> {
    "(?P<ip>(?:\\d+\\.?){4})\\:(?P<port>\\d+)"@
}

/// Every protocol, as a sequence.
pub open spec fn all_protocols_spec() -> Seq<Protocol> {
    seq![
        Protocol::Http,
        Protocol::Https,
        Protocol::Socks4,
        Protocol::Socks5,
        Protocol::Connect80,
        Protocol::Connect25,
    ]
}

/// The protocols a plain web listing claims.
pub open spec fn web_protocols_spec() -> Seq<Protocol> {
    seq![Protocol::Http, Protocol::Connect80, Protocol::Https, Protocol::Connect25]
}

/// The default extraction pattern: a dotted quad, a colon, a port.
pub fn default_pattern() -> (r: String)
    ensures
        r@ == "(?P<ip>(?:\\d+\\.?){4})\\:(?P<port>\\d+)"@,
{
    "(?P<ip>(?:\\d+\\.?){4})\\:(?P<port>\\d+)".to_owned()
}

/// Every protocol, the claim made when a provider states none.
pub fn all_protocols() -> (r: Vec<Protocol>)
    ensures
        r@ == seq![
            Protocol::Http,
            Protocol::Https,
            Protocol::Socks4,
            Protocol::Socks5,
            Protocol::Connect80,
            Protocol::Connect25,
        ],
{
    let mut r: Vec<Protocol> = Vec::new();
    r.push(Protocol::Http);
    r.push(Protocol::Https);
    r.push(Protocol::Socks4);
    r.push(Protocol::Socks5);
    r.push(Protocol::Connect80);
    r.push(Protocol::Connect25);
    proof {
        assert(r@ =~= seq![
            Protocol::Http,
            Protocol::Https,
            Protocol::Socks4,
            Protocol::Socks5,
            Protocol::Connect80,
            Protocol::Connect25,
        ]);
    }
    r
}

impl Default for Provider {
    /// An unnamed provider claiming every protocol, with the default
    /// pattern, one level of crawling and a five-second timeout.
    fn default() -> (r: Provider)
        ensures
            r.name@.len() == 0,
            r.url@.len() == 0,
            r.pattern@ == "(?P<ip>(?:\\d+\\.?){4})\\:(?P<port>\\d+)"@,
            r.proto@ == seq![
                Protocol::Http,
                Protocol::Https,
                Protocol::Socks4,
                Protocol::Socks5,
                Protocol::Connect80,
                Protocol::Connect25,
            ],
            r.max_depth == 1,
            r.link_pattern is None,
            r.timeout_secs == 5,
    {
        proof {
            reveal_strlit("");
        }
        Provider {
            name: String::new(),
            url: String::new(),
            pattern: default_pattern(),
            proto: all_protocols(),
            max_depth: 1,
            link_pattern: None,
            timeout_secs: 5,
        }
    }
}

/// The pairs of a match list that carry a valid port, with the port read as
/// a number.
pub open spec fn valid_candidates(pairs: Seq<(Seq<char>, Seq<char>)>) -> Seq<(Seq<char>, u16)>
    decreases pairs.len(),
{
    if pairs.len() == 0 {
        Seq::empty()
    } else {
        let rest = valid_candidates(pairs.drop_first());
        let port_bytes = vstd::utf8::encode_utf8(pairs[0].1);
        if is_port(port_bytes) {
            seq![(pairs[0].0, dec_value(port_bytes) as u16)] + rest
        } else {
            rest
        }
    }
}

/// The address view of a candidate list.
pub open spec fn candidate_views(cs: Seq<Candidate>) -> Seq<(Seq<char>, u16)> {
    Seq::new(cs.len(), |i: int| (cs[i].host@, cs[i].port))
}

impl Provider {
    /// Extracts the candidates a fetched page lists: each pattern match
    /// with a valid port becomes a candidate claiming this provider's
    /// protocols; matches with invalid ports are skipped.
    pub fn find_proxies(&self, html: &str) -> (r: Vec<Candidate>)
        ensures
            candidate_views(r@) == valid_candidates(capture_pairs_of(self.pattern@, html@)),
            forall|i: int| 0 <= i < r@.len() ==> (#[trigger] r@[i]).protocols@ == self.proto@,
    {
        let pairs = regex_capture_pairs(self.pattern.as_str(), html);
        let ghost cap = capture_pairs_of(self.pattern@, html@);
        let mut r: Vec<Candidate> = Vec::new();
        let mut i: usize = 0;
        proof {
            assert(cap.skip(0) =~= cap);
            assert(candidate_views(r@) + valid_candidates(cap.skip(0)) =~= valid_candidates(cap));
        }
        while i < pairs.len()
            invariant
                i <= pairs@.len(),
                header_pairs_str(pairs@) == cap,
                candidate_views(r@) + valid_candidates(cap.skip(i as int)) == valid_candidates(
                    cap,
                ),
                forall|k: int| 0 <= k < r@.len() ==> (#[trigger] r@[k]).protocols@ == self.proto@,
            decreases pairs@.len() - i,
        {
            proof {
                assert(cap.skip(i as int)[0] == cap[i as int]);
                assert(cap.skip(i as int).drop_first() =~= cap.skip(i + 1));
                assert(cap[i as int] == (pairs@[i as int].0@, pairs@[i as int].1@));
            }
            let port_text = pairs[i].1.as_str();
            match crate::strutil::parse_port(port_text.as_bytes()) {
                Some(port) => {
                    let host = crate::queue::clone_string(&pairs[i].0);
                    let protocols = crate::checker::clone_protocols(&self.proto);
                    let ghost prev = r@;
                    r.push(Candidate { host, port, protocols });
                    proof {
                        assert(candidate_views(r@) =~= candidate_views(prev).push(
                            (pairs@[i as int].0@, port),
                        ));
                        assert(candidate_views(r@) + valid_candidates(cap.skip(i + 1))
                            =~= valid_candidates(cap));
                    }
                },
                None => {
                    proof {
                        assert(candidate_views(r@) + valid_candidates(cap.skip(i + 1))
                            =~= valid_candidates(cap));
                    }
                },
            }
            i = i + 1;
        }
        proof {
            assert(cap.skip(i as int).len() == 0);
            assert(candidate_views(r@) =~= valid_candidates(cap));
        }
        r
    }

    /// Extracts the links a page offers for one more crawl level: each
    /// first capture of the link pattern, appended to the page's origin.
    pub fn discover_links(&self, html: &str, origin: &str) -> (r: Vec<String>)
        ensures
            match self.link_pattern {
                Some(lp) => {
                    &&& r@.len() == capture_pairs_of(lp@, html@).len()
                    &&& forall|i: int|
                        0 <= i < r@.len() ==> (#[trigger] r@[i])@ == origin@ + capture_pairs_of(
                            lp@,
                            html@,
                        )[i].0
                },
                None => r@.len() == 0,
            },
    {
        let lp = match &self.link_pattern {
            Some(lp) => lp,
            None => {
                return Vec::new();
            },
        };
        let pairs = regex_capture_pairs(lp.as_str(), html);
        let ghost cap = capture_pairs_of(lp@, html@);
        let mut r: Vec<String> = Vec::new();
        let mut i: usize = 0;
        while i < pairs.len()
            invariant
                i <= pairs@.len(),
                header_pairs_str(pairs@) == cap,
                r@.len() == i,
                forall|k: int| 0 <= k < i ==> (#[trigger] r@[k])@ == origin@ + cap[k].0,
            decreases pairs@.len() - i,
        {
            let mut link = String::new();
            link.append(origin);
            link.append(pairs[i].0.as_str());
            proof {
                assert(cap[i as int] == (pairs@[i as int].0@, pairs@[i as int].1@));
            }
            r.push(link);
            i = i + 1;
        }
        r
    }
}

/// The crawl bookkeeping of one provider run: the work list, the set of
/// pages already scheduled, and the depth reached.
pub struct ProviderRun {
    pub urls: Vec<String>,
    pub url_cache: Vec<String>,
    pub depth: u32,
}

impl ProviderRun {
    /// A fresh run: the seed page is scheduled and remembered.
    pub fn new(seed: &str) -> (r: ProviderRun)
        ensures
            r.urls@.len() == 1,
            r.urls@[0]@ == seed@,
            r.url_cache@.len() == 1,
            r.url_cache@[0]@ == seed@,
            r.depth == 0,
    {
        let mut urls: Vec<String> = Vec::new();
        urls.push(seed.to_owned());
        let mut cache: Vec<String> = Vec::new();
        cache.push(seed.to_owned());
        ProviderRun { urls, url_cache: cache, depth: 0 }
    }

    /// Takes the next page to fetch, if any.
    pub fn next_url(&mut self) -> (r: Option<String>)
        ensures
            match r {
                Some(u) => old(self).urls@.len() > 0 && u == old(self).urls@.last() && final(self).urls@ == old(self).urls@.drop_last(),
                None => old(self).urls@.len() == 0 && final(self).urls@ == old(self).urls@,
            },
            final(self).url_cache == old(self).url_cache,
            final(self).depth == old(self).depth,
    {
        self.urls.pop()
    }

    /// Whether a page was already scheduled once.
    pub fn seen(&self, link: &str) -> (r: bool)
        ensures
            r == exists|i: int|
                0 <= i < self.url_cache@.len() && (#[trigger] self.url_cache@[i])@ == link@,
    {
        let mut i: usize = 0;
        while i < self.url_cache.len()
            invariant
                i <= self.url_cache@.len(),
                forall|k: int| 0 <= k < i ==> (#[trigger] self.url_cache@[k])@ != link@,
            decreases self.url_cache@.len() - i,
        {
            if str_eq(self.url_cache[i].as_str(), link) {
                return true;
            }
            i = i + 1;
        }
        false
    }

    /// Schedules the links found on a page, one crawl level deeper: in the
    /// order they were found, each link never scheduled before joins the
    /// work list and the cache, and everything else is dropped.
    pub fn note_links(&mut self, links: Vec<String>, max_depth: u32)
        requires
            old(self).depth < max_depth,
        ensures
            final(self).urls@ == old(self).urls@ + fresh_links(links@, old(self).url_cache@),
            final(self).url_cache@ == old(self).url_cache@ + fresh_links(
                links@,
                old(self).url_cache@,
            ),
            final(self).depth == old(self).depth + 1,
    {
        let ghost all = links@;
        let ghost k: int = 0;
        let mut links = links;
        proof {
            assert(links@ =~= all.subrange(0, all.len() as int));
            assert(all.subrange(0, 0) =~= Seq::<String>::empty());
            assert(self.urls@ =~= old(self).urls@ + fresh_links(
                all.subrange(0, 0),
                old(self).url_cache@,
            ));
            assert(self.url_cache@ =~= old(self).url_cache@ + fresh_links(
                all.subrange(0, 0),
                old(self).url_cache@,
            ));
        }
        while links.len() > 0
            invariant
                0 <= k <= all.len(),
                links@ == all.subrange(k, all.len() as int),
                self.urls@ == old(self).urls@ + fresh_links(
                    all.subrange(0, k),
                    old(self).url_cache@,
                ),
                self.url_cache@ == old(self).url_cache@ + fresh_links(
                    all.subrange(0, k),
                    old(self).url_cache@,
                ),
                self.depth == old(self).depth,
            decreases links@.len(),
        {
            let link = links.remove(0);
            proof {
                assert(link == all[k]);
                assert(links@ =~= all.subrange(k + 1, all.len() as int));
            }
            let is_new = !self.seen(link.as_str());
            if is_new {
                let copy = link.clone();
                self.urls.push(link);
                self.url_cache.push(copy);
            }
            proof {
                let done = fresh_links(all.subrange(0, k), old(self).url_cache@);
                lemma_fresh_links_snoc(all.subrange(0, k + 1), old(self).url_cache@);
                assert(all.subrange(0, k + 1).drop_last() =~= all.subrange(0, k));
                assert(all.subrange(0, k + 1).last() == all[k]);
                assert(cache_has(old(self).url_cache@ + done, all[k]@) == !is_new);
                if is_new {
                    assert(self.urls@ =~= old(self).urls@ + done.push(all[k]));
                    assert(self.url_cache@ =~= old(self).url_cache@ + done.push(all[k]));
                    assert(fresh_links(all.subrange(0, k + 1), old(self).url_cache@)
                        =~= done.push(all[k]));
                } else {
                    assert(fresh_links(all.subrange(0, k + 1), old(self).url_cache@) =~= done);
                }
                k = k + 1;
            }
        }
        proof {
            assert(all.subrange(0, k) =~= all);
        }
        self.depth = self.depth + 1;
    }
}

/// Whether a cache already names a link.
pub open spec fn cache_has(cache: Seq<String>, link: Seq<char>) -> bool {
    exists|i: int| 0 <= i < cache.len() && (#[trigger] cache[i])@ == link
}

/// The links of a list that a cache has never seen, in found order, each
/// counted once: what one crawl step adds to the work list and the cache.
pub open spec fn fresh_links(links: Seq<String>, cache: Seq<String>) -> Seq<String>
    decreases links.len(),
{
    if links.len() == 0 {
        Seq::empty()
    } else if cache_has(cache, links[0]@) {
        fresh_links(links.drop_first(), cache)
    } else {
        seq![links[0]] + fresh_links(links.drop_first(), cache.push(links[0]))
    }
}

/// Processing one more link appends it exactly when neither the cache nor
/// the links before it supplied its text.
proof fn lemma_fresh_links_snoc(links: Seq<String>, cache: Seq<String>)
    requires
        links.len() > 0,
    ensures
        fresh_links(links, cache) == if cache_has(
            cache + fresh_links(links.drop_last(), cache),
            links.last()@,
        ) {
            fresh_links(links.drop_last(), cache)
        } else {
            fresh_links(links.drop_last(), cache).push(links.last())
        },
    decreases links.len(),
{
    let x = links.last();
    if links.len() == 1 {
        assert(links.drop_last() =~= Seq::<String>::empty());
        assert(fresh_links(links.drop_last(), cache) =~= Seq::<String>::empty());
        assert(cache + Seq::<String>::empty() =~= cache);
        assert(links[0] == x);
        assert(links.drop_first() =~= Seq::<String>::empty());
        if !cache_has(cache, x@) {
            assert(fresh_links(Seq::<String>::empty(), cache.push(x)) =~= Seq::<String>::empty());
            assert(fresh_links(links, cache) =~= seq![x] + fresh_links(
                Seq::<String>::empty(),
                cache.push(x),
            ));
            assert(fresh_links(links, cache) =~= seq![x]);
            assert(fresh_links(links.drop_last(), cache).push(x) =~= seq![x]);
        } else {
            assert(fresh_links(Seq::<String>::empty(), cache) =~= Seq::<String>::empty());
            assert(fresh_links(links, cache) =~= Seq::<String>::empty());
        }
    } else {
        let h = links[0];
        let rest = links.drop_first();
        let pre = links.drop_last();
        assert(pre[0] == h);
        assert(rest.drop_last() =~= pre.drop_first());
        assert(rest.last() == x);
        if cache_has(cache, h@) {
            lemma_fresh_links_snoc(rest, cache);
            assert(fresh_links(links, cache) == fresh_links(rest, cache));
            assert(fresh_links(pre, cache) == fresh_links(pre.drop_first(), cache));
        } else {
            lemma_fresh_links_snoc(rest, cache.push(h));
            assert(fresh_links(links, cache) == seq![h] + fresh_links(rest, cache.push(h)));
            assert(fresh_links(pre, cache) == seq![h] + fresh_links(
                pre.drop_first(),
                cache.push(h),
            ));
            let inner = fresh_links(pre.drop_first(), cache.push(h));
            assert(cache.push(h) + inner =~= cache + (seq![h] + inner));
            if cache_has(cache.push(h) + inner, x@) {
                assert(fresh_links(links, cache) =~= fresh_links(pre, cache));
            } else {
                assert(seq![h] + inner.push(x) =~= (seq![h] + inner).push(x));
                assert(fresh_links(links, cache) =~= fresh_links(pre, cache).push(x));
            }
        }
    }
}

/// The shipped provider list: the fixed sources, each with its address,
/// extraction pattern, claimed protocols and link discovery, exactly as
/// `shipped_catalogue` states them.
pub fn providers() -> (r: Vec<Provider>)
    ensures
        provider_views(r@) == shipped_catalogue(),
        forall|i: int|
            0 <= i < r@.len() ==> (#[trigger] r@[i]).max_depth == 1 && r@[i].timeout_secs == 5,
{
    let mut r: Vec<Provider> = Vec::new();
    r.push(catalogue_entry("free-proxy-list.net", "https://free-proxy-list.net", web_protocols()));
    r.push(catalogue_entry("api.good-proxies.ru", "https://api.good-proxies.ru/getfree.php?count=1000&key=freeproxy", all_protocols()));
    r.push(catalogue_entry("ipaddress.com", "https://www.ipaddress.com/proxy-list", web_protocols()));
    r.push(catalogue_entry("megaproxylist.net", "https://www.megaproxylist.net/", all_protocols()));
    r.push(catalogue_entry("premiumproxy.net", "https://premiumproxy.net/full-proxy-list", all_protocols()));
    r.push(catalogue_entry("proxypedia.org", "https://proxypedia.org/", all_protocols()));
    r.push(catalogue_entry("www.proxyscan.io/..http", "https://www.proxyscan.io/download?type=http", web_protocols()));
    r.push(catalogue_entry("www.proxyscan.io/..https", "https://www.proxyscan.io/download?type=https", web_protocols()));
    r.push(catalogue_entry("www.proxyscan.io/..socks4", "https://www.proxyscan.io/download?type=socks4", socks_list(Protocol::Socks4)));
    r.push(catalogue_entry("www.proxyscan.io/..socks5", "https://www.proxyscan.io/download?type=socks5", socks_list(Protocol::Socks5)));
    r.push(catalogue_entry("openproxylist.xyz", "https://openproxylist.xyz/http.txt", web_protocols()));
    r.push(catalogue_entry("proxyspace.pro/http.txt", "https://proxyspace.pro/http.txt", all_protocols()));
    r.push(catalogue_entry("proxyspace.pro/https.txt", "https://proxyspace.pro/https.txt", all_protocols()));
    r.push(catalogue_entry("api.proxyscrape.com/..http", "https://api.proxyscrape.com/?request=getproxies&proxytype=http", web_protocols()));
    r.push(catalogue_entry("api.proxyscrape.com/..socks4", "https://api.proxyscrape.com/?request=getproxies&proxytype=socks4", socks_list(Protocol::Socks4)));
    r.push(catalogue_entry("api.proxyscrape.com/..socks5", "https://api.proxyscrape.com/?request=getproxies&proxytype=socks5", socks_list(Protocol::Socks5)));
    r.push(catalogue_entry("github.com/zevtyardt/proxy-list", "https://raw.githubusercontent.com/zevtyardt/proxy-list/main/all.txt", all_protocols()));
    r.push(catalogue_entry("github.com/TheSpeedX/SOCKS-List/http.txt", "https://raw.githubusercontent.com/TheSpeedX/SOCKS-List/master/http.txt", web_protocols()));
    r.push(catalogue_entry("github.com/TheSpeedX/SOCKS-List/socks4.txt", "https://raw.githubusercontent.com/TheSpeedX/PROXY-List/blob/master/socks4.txt", socks_list(Protocol::Socks4)));
    r.push(catalogue_entry("github.com/TheSpeedX/SOCKS-List/socks5.txt", "https://raw.githubusercontent.com/TheSpeedX/SOCKS-List/master/socks5.txt", socks_list(Protocol::Socks5)));
    r.push(catalogue_entry("github.com/almroot/proxylist", "https://raw.githubusercontent.com/almroot/proxylist/master/list.txt", all_protocols()));
    r.push(catalogue_entry("github.com/andigwandi/free-proxy", "https://raw.githubusercontent.com/andigwandi/free-proxy/main/proxy_list.txt", all_protocols()));
    r.push(catalogue_entry("github.com/aslisk/proxyhttps", "https://raw.githubusercontent.com/aslisk/proxyhttps/main/https.txt", all_protocols()));
    r.push(catalogue_entry("github.com/B4RC0DE-TM/proxy-list", "https://raw.githubusercontent.com/B4RC0DE-TM/proxy-list/main/HTTP.txt", all_protocols()));
    r.push(catalogue_entry("github.com/monosans/proxy-list/http.txt", "https://raw.githubusercontent.com/monosans/proxy-list/main/proxies/http.txt", all_protocols()));
    r.push(catalogue_entry("github.com/monosans/proxy-list/socks4.txt", "https://raw.githubusercontent.com/monosans/proxy-list/main/proxies/socks4.txt", all_protocols()));
    r.push(catalogue_entry("github.com/monosans/proxy-list/socks5.txt", "https://raw.githubusercontent.com/monosans/proxy-list/main/proxies/socks5.txt", all_protocols()));
    r.push(catalogue_entry("github.com/fahimscirex/proxybd/master/proxylist/http.txt", "https://raw.githubusercontent.com/fahimscirex/proxybd/master/proxylist/http.txt", web_protocols()));
    r.push(catalogue_entry("github.com/hendrikbgr/Free-Proxy-Repo", "https://raw.githubusercontent.com/hendrikbgr/Free-Proxy-Repo/master/proxy_list.txt", all_protocols()));
    r.push(catalogue_entry("github.com/HyperBeats/proxy-list", "https://raw.githubusercontent.com/HyperBeats/proxy-list/main/http.txt", web_protocols()));
    r.push(catalogue_entry("github.com/jetkai/proxy-list/http.txt", "https://raw.githubusercontent.com/jetkai/proxy-list/main/online-proxies/txt/proxies-http.txt", web_protocols()));
    r.push(catalogue_entry("github.com/jetkai/proxy-list/https.txt", "https://raw.githubusercontent.com/jetkai/proxy-list/main/online-proxies/txt/proxies-https.txt", all_protocols()));
    r.push(catalogue_entry("github.com/mertguvencli/http-proxy-list", "https://raw.githubusercontent.com/mertguvencli/http-proxy-list/main/proxy-list/data.txt", all_protocols()));
    r.push(catalogue_entry("github.com/miyukii-chan/proxy-list", "https://raw.githubusercontent.com/miyukii-chan/proxy-list/master/proxies/http.txt", web_protocols()));
    r.push(catalogue_entry("github.com/mmpx12/proxy-list/http.txt", "https://raw.githubusercontent.com/mmpx12/proxy-list/master/http.txt", web_protocols()));
    r.push(catalogue_entry("github.com/mmpx12/proxy-list/https.txt", "https://raw.githubusercontent.com/mmpx12/proxy-list/master/https.txt", web_protocols()));
    let mut premium = catalogue_entry(
        "premiumproxy.net",
        "https://premiumproxy.net/full-proxy-list",
        all_protocols(),
    );
    premium.pattern = "<font.*?>\\s*(?P<ip>(?:\\d+\\.?){4})\\s*<font.*?>\\s*\\:\\s*</font>\\s*(?P<port>\\d+)".to_owned();
    r.set(4, premium);
    let mut pedia = catalogue_entry("proxypedia.org", "https://proxypedia.org/", all_protocols());
    pedia.link_pattern = Some("href=\"(/free-proxy\\/[^\\d]+)".to_owned());
    r.set(5, pedia);
    proof {
        assert(provider_views(r@) =~~= shipped_catalogue());
    }
    r
}

/// What one catalogue row fixes of a provider: name, address, pattern,
/// protocols and link discovery.
pub open spec fn provider_view(p: Provider) -> (
    Seq<char>,
    Seq<char>,
    Seq<char>,
    Seq<Protocol>,
    Option<Seq<char>>,
) {
    (
        p.name@,
        p.url@,
        p.pattern@,
        p.proto@,
        match p.link_pattern {
            Some(lp) => Some(lp@),
            None => None,
        },
    )
}

/// The catalogue view of a provider list.
pub open spec fn provider_views(s: Seq<Provider>) -> Seq<
    (Seq<char>, Seq<char>, Seq<char>, Seq<Protocol>, Option<Seq<char>>),
> {
    Seq::new(s.len(), |i: int| provider_view(s[i]))
}

/// The shipped catalogue, row by row.
pub open spec fn shipped_catalogue() -> Seq<
    (Seq<char>, Seq<char>, Seq<char>, Seq<Protocol>, Option<Seq<char>>),
> {
    seq![
        ("free-proxy-list.net"@, "https://free-proxy-list.net"@, default_pattern_spec(), web_protocols_spec(), None),
        ("api.good-proxies.ru"@, "https://api.good-proxies.ru/getfree.php?count=1000&key=freeproxy"@, default_pattern_spec(), all_protocols_spec(), None),
        ("ipaddress.com"@, "https://www.ipaddress.com/proxy-list"@, default_pattern_spec(), web_protocols_spec(), None),
        ("megaproxylist.net"@, "https://www.megaproxylist.net/"@, default_pattern_spec(), all_protocols_spec(), None),
        ("premiumproxy.net"@, "https://premiumproxy.net/full-proxy-list"@, "<font.*?>\\s*(?P<ip>(?:\\d+\\.?){4})\\s*<font.*?>\\s*\\:\\s*</font>\\s*(?P<port>\\d+)"@, all_protocols_spec(), None),
        ("proxypedia.org"@, "https://proxypedia.org/"@, default_pattern_spec(), all_protocols_spec(), Some("href=\"(/free-proxy\\/[^\\d]+)"@)),
        ("www.proxyscan.io/..http"@, "https://www.proxyscan.io/download?type=http"@, default_pattern_spec(), web_protocols_spec(), None),
        ("www.proxyscan.io/..https"@, "https://www.proxyscan.io/download?type=https"@, default_pattern_spec(), web_protocols_spec(), None),
        ("www.proxyscan.io/..socks4"@, "https://www.proxyscan.io/download?type=socks4"@, default_pattern_spec(), seq![Protocol::Socks4], None),
        ("www.proxyscan.io/..socks5"@, "https://www.proxyscan.io/download?type=socks5"@, default_pattern_spec(), seq![Protocol::Socks5], None),
        ("openproxylist.xyz"@, "https://openproxylist.xyz/http.txt"@, default_pattern_spec(), web_protocols_spec(), None),
        ("proxyspace.pro/http.txt"@, "https://proxyspace.pro/http.txt"@, default_pattern_spec(), all_protocols_spec(), None),
        ("proxyspace.pro/https.txt"@, "https://proxyspace.pro/https.txt"@, default_pattern_spec(), all_protocols_spec(), None),
        ("api.proxyscrape.com/..http"@, "https://api.proxyscrape.com/?request=getproxies&proxytype=http"@, default_pattern_spec(), web_protocols_spec(), None),
        ("api.proxyscrape.com/..socks4"@, "https://api.proxyscrape.com/?request=getproxies&proxytype=socks4"@, default_pattern_spec(), seq![Protocol::Socks4], None),
        ("api.proxyscrape.com/..socks5"@, "https://api.proxyscrape.com/?request=getproxies&proxytype=socks5"@, default_pattern_spec(), seq![Protocol::Socks5], None),
        ("github.com/zevtyardt/proxy-list"@, "https://raw.githubusercontent.com/zevtyardt/proxy-list/main/all.txt"@, default_pattern_spec(), all_protocols_spec(), None),
        ("github.com/TheSpeedX/SOCKS-List/http.txt"@, "https://raw.githubusercontent.com/TheSpeedX/SOCKS-List/master/http.txt"@, default_pattern_spec(), web_protocols_spec(), None),
        ("github.com/TheSpeedX/SOCKS-List/socks4.txt"@, "https://raw.githubusercontent.com/TheSpeedX/PROXY-List/blob/master/socks4.txt"@, default_pattern_spec(), seq![Protocol::Socks4], None),
        ("github.com/TheSpeedX/SOCKS-List/socks5.txt"@, "https://raw.githubusercontent.com/TheSpeedX/SOCKS-List/master/socks5.txt"@, default_pattern_spec(), seq![Protocol::Socks5], None),
        ("github.com/almroot/proxylist"@, "https://raw.githubusercontent.com/almroot/proxylist/master/list.txt"@, default_pattern_spec(), all_protocols_spec(), None),
        ("github.com/andigwandi/free-proxy"@, "https://raw.githubusercontent.com/andigwandi/free-proxy/main/proxy_list.txt"@, default_pattern_spec(), all_protocols_spec(), None),
        ("github.com/aslisk/proxyhttps"@, "https://raw.githubusercontent.com/aslisk/proxyhttps/main/https.txt"@, default_pattern_spec(), all_protocols_spec(), None),
        ("github.com/B4RC0DE-TM/proxy-list"@, "https://raw.githubusercontent.com/B4RC0DE-TM/proxy-list/main/HTTP.txt"@, default_pattern_spec(), all_protocols_spec(), None),
        ("github.com/monosans/proxy-list/http.txt"@, "https://raw.githubusercontent.com/monosans/proxy-list/main/proxies/http.txt"@, default_pattern_spec(), all_protocols_spec(), None),
        ("github.com/monosans/proxy-list/socks4.txt"@, "https://raw.githubusercontent.com/monosans/proxy-list/main/proxies/socks4.txt"@, default_pattern_spec(), all_protocols_spec(), None),
        ("github.com/monosans/proxy-list/socks5.txt"@, "https://raw.githubusercontent.com/monosans/proxy-list/main/proxies/socks5.txt"@, default_pattern_spec(), all_protocols_spec(), None),
        ("github.com/fahimscirex/proxybd/master/proxylist/http.txt"@, "https://raw.githubusercontent.com/fahimscirex/proxybd/master/proxylist/http.txt"@, default_pattern_spec(), web_protocols_spec(), None),
        ("github.com/hendrikbgr/Free-Proxy-Repo"@, "https://raw.githubusercontent.com/hendrikbgr/Free-Proxy-Repo/master/proxy_list.txt"@, default_pattern_spec(), all_protocols_spec(), None),
        ("github.com/HyperBeats/proxy-list"@, "https://raw.githubusercontent.com/HyperBeats/proxy-list/main/http.txt"@, default_pattern_spec(), web_protocols_spec(), None),
        ("github.com/jetkai/proxy-list/http.txt"@, "https://raw.githubusercontent.com/jetkai/proxy-list/main/online-proxies/txt/proxies-http.txt"@, default_pattern_spec(), web_protocols_spec(), None),
        ("github.com/jetkai/proxy-list/https.txt"@, "https://raw.githubusercontent.com/jetkai/proxy-list/main/online-proxies/txt/proxies-https.txt"@, default_pattern_spec(), all_protocols_spec(), None),
        ("github.com/mertguvencli/http-proxy-list"@, "https://raw.githubusercontent.com/mertguvencli/http-proxy-list/main/proxy-list/data.txt"@, default_pattern_spec(), all_protocols_spec(), None),
        ("github.com/miyukii-chan/proxy-list"@, "https://raw.githubusercontent.com/miyukii-chan/proxy-list/master/proxies/http.txt"@, default_pattern_spec(), web_protocols_spec(), None),
        ("github.com/mmpx12/proxy-list/http.txt"@, "https://raw.githubusercontent.com/mmpx12/proxy-list/master/http.txt"@, default_pattern_spec(), web_protocols_spec(), None),
        ("github.com/mmpx12/proxy-list/https.txt"@, "https://raw.githubusercontent.com/mmpx12/proxy-list/master/https.txt"@, default_pattern_spec(), web_protocols_spec(), None),
    ]
}

/// One catalogue row with the default pattern and no link discovery.
fn catalogue_entry(name: &str, url: &str, proto: Vec<Protocol>) -> (r: Provider)
    ensures
        provider_view(r) == (name@, url@, default_pattern_spec(), proto@, None::<Seq<char>>),
        r.max_depth == 1,
        r.timeout_secs == 5,
{
    let mut p = Provider::default();
    p.name = name.to_owned();
    p.url = url.to_owned();
    p.proto = proto;
    p
}

/// The protocols claimed by a plain web listing.
pub fn web_protocols() -> (r: Vec<Protocol>)
    ensures
        r@ == web_protocols_spec(),
{
    let mut r: Vec<Protocol> = Vec::new();
    r.push(Protocol::Http);
    r.push(Protocol::Connect80);
    r.push(Protocol::Https);
    r.push(Protocol::Connect25);
    proof {
        assert(r@ =~= web_protocols_spec());
    }
    r
}

/// A single-protocol claim.
fn socks_list(p: Protocol) -> (r: Vec<Protocol>)
    ensures
        r@ == seq![p],
{
    let mut r: Vec<Protocol> = Vec::new();
    r.push(p);
    proof {
        assert(r@ =~= seq![p]);
    }
    r
}

/// The free-proxy-list.net listing.
pub struct FreeProxyListNetProvider {
    pub base: Provider,
}

impl Default for FreeProxyListNetProvider {
    fn default() -> (r: FreeProxyListNetProvider)
        ensures
            provider_view(r.base) == (
                "free-proxy-list.net"@,
                "https://free-proxy-list.net/"@,
                default_pattern_spec(),
                web_protocols_spec(),
                None::<Seq<char>>,
            ),
    {
        let base = catalogue_entry(
            "free-proxy-list.net",
            "https://free-proxy-list.net/",
            web_protocols(),
        );
        FreeProxyListNetProvider { base }
    }
}

/// The ipaddress.com proxy list, whose listing decorates the address.
pub struct IpaddressComProvider {
    pub base: Provider,
}

impl Default for IpaddressComProvider {
    fn default() -> (r: IpaddressComProvider)
        ensures
            provider_view(r.base) == (
                "ipaddress.com"@,
                "https://www.ipaddress.com/proxy-list"@,
                "(?P<ip>(?:\\d+\\.?){4})</a>\\:(?P<port>\\d+)"@,
                web_protocols_spec(),
                None::<Seq<char>>,
            ),
    {
        let mut base = catalogue_entry(
            "ipaddress.com",
            "https://www.ipaddress.com/proxy-list",
            web_protocols(),
        );
        base.pattern = "(?P<ip>(?:\\d+\\.?){4})</a>\\:(?P<port>\\d+)".to_owned();
        IpaddressComProvider { base }
    }
}

/// The premiumproxy.net full list, whose rows interleave markup.
pub struct PremiumproxyNetProvider {
    pub base: Provider,
}

impl Default for PremiumproxyNetProvider {
    fn default() -> (r: PremiumproxyNetProvider)
        ensures
            provider_view(r.base) == (
                "premiumproxy.net"@,
                "https://premiumproxy.net/full-proxy-list"@,
                "<font.*?>\\s*(?P<ip>(?:\\d+\\.?){4})\\s*<font.*?>\\s*\\:\\s*</font>\\s*(?P<port>\\d+)"@,
                all_protocols_spec(),
                None::<Seq<char>>,
            ),
    {
        let mut base = catalogue_entry(
            "premiumproxy.net",
            "https://premiumproxy.net/full-proxy-list",
            all_protocols(),
        );
        base.pattern =
            "<font.*?>\\s*(?P<ip>(?:\\d+\\.?){4})\\s*<font.*?>\\s*\\:\\s*</font>\\s*(?P<port>\\d+)".to_owned();
        PremiumproxyNetProvider { base }
    }
}

/// The zevtyardt/proxy-list feed.
pub struct GithubZevtyardtProxyListProvider {
    pub base: Provider,
}

impl Default for GithubZevtyardtProxyListProvider {
    fn default() -> (r: GithubZevtyardtProxyListProvider)
        ensures
            provider_view(r.base) == (
                "zevtyardt/proxy-list"@,
                "https://raw.githubusercontent.com/zevtyardt/proxy-list/main/all.txt"@,
                default_pattern_spec(),
                all_protocols_spec(),
                None::<Seq<char>>,
            ),
    {
        let base = catalogue_entry(
            "zevtyardt/proxy-list",
            "https://raw.githubusercontent.com/zevtyardt/proxy-list/main/all.txt",
            all_protocols(),
        );
        GithubZevtyardtProxyListProvider { base }
    }
}

/// The TheSpeedX/SOCKS-List feed of SOCKS4 candidates.
pub struct GithubTheSpeedXProxyListSocks4Provider {
    pub base: Provider,
}

impl Default for GithubTheSpeedXProxyListSocks4Provider {
    fn default() -> (r: GithubTheSpeedXProxyListSocks4Provider)
        ensures
            provider_view(r.base) == (
                "TheSpeedX/SOCKS-List/socks4"@,
                "https://raw.githubusercontent.com/TheSpeedX/SOCKS-List/master/socks4.txt"@,
                default_pattern_spec(),
                seq![Protocol::Socks4],
                None::<Seq<char>>,
            ),
    {
        let base = catalogue_entry(
            "TheSpeedX/SOCKS-List/socks4",
            "https://raw.githubusercontent.com/TheSpeedX/SOCKS-List/master/socks4.txt",
            socks_list(Protocol::Socks4),
        );
        GithubTheSpeedXProxyListSocks4Provider { base }
    }
}

/// The proxyscan.io HTTP download.
pub struct ProxyscanIoHttpProvider {
    pub base: Provider,
}

impl Default for ProxyscanIoHttpProvider {
    fn default() -> (r: ProxyscanIoHttpProvider)
        ensures
            provider_view(r.base) == (
                "proxyscan.io/http"@,
                "https://www.proxyscan.io/download?type=http"@,
                default_pattern_spec(),
                web_protocols_spec(),
                None::<Seq<char>>,
            ),
    {
        let base = catalogue_entry(
            "proxyscan.io/http",
            "https://www.proxyscan.io/download?type=http",
            web_protocols(),
        );
        ProxyscanIoHttpProvider { base }
    }
}

/// The proxyscan.io HTTPS download.
pub struct ProxyscanIoHttpsProvider {
    pub base: Provider,
}

impl Default for ProxyscanIoHttpsProvider {
    fn default() -> (r: ProxyscanIoHttpsProvider)
        ensures
            provider_view(r.base) == (
                "proxyscan.io/https"@,
                "https://www.proxyscan.io/download?type=https"@,
                default_pattern_spec(),
                web_protocols_spec(),
                None::<Seq<char>>,
            ),
    {
        let base = catalogue_entry(
            "proxyscan.io/https",
            "https://www.proxyscan.io/download?type=https",
            web_protocols(),
        );
        ProxyscanIoHttpsProvider { base }
    }
}

/// The proxyscan.io SOCKS4 download.
pub struct ProxyscanIoSocks4Provider {
    pub base: Provider,
}

impl Default for ProxyscanIoSocks4Provider {
    fn default() -> (r: ProxyscanIoSocks4Provider)
        ensures
            provider_view(r.base) == (
                "proxyscan.io/socks4"@,
                "https://www.proxyscan.io/download?type=socks4"@,
                default_pattern_spec(),
                seq![Protocol::Socks4],
                None::<Seq<char>>,
            ),
    {
        let base = catalogue_entry(
            "proxyscan.io/socks4",
            "https://www.proxyscan.io/download?type=socks4",
            socks_list(Protocol::Socks4),
        );
        ProxyscanIoSocks4Provider { base }
    }
}

/// The proxyscrape.com SOCKS5 feed.
pub struct ProxyscrapeComSocks5Provider {
    pub base: Provider,
}

impl Default for ProxyscrapeComSocks5Provider {
    fn default() -> (r: ProxyscrapeComSocks5Provider)
        ensures
            provider_view(r.base) == (
                "proxyscrape.com/socks5"@,
                "https://api.proxyscrape.com/?request=getproxies&proxytype=socks5"@,
                default_pattern_spec(),
                seq![Protocol::Socks5],
                None::<Seq<char>>,
            ),
    {
        let base = catalogue_entry(
            "proxyscrape.com/socks5",
            "https://api.proxyscrape.com/?request=getproxies&proxytype=socks5",
            socks_list(Protocol::Socks5),
        );
        ProxyscrapeComSocks5Provider { base }
    }
}

} // verus!
