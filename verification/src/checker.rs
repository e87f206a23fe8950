//! The checker: which protocols a candidate is tried on, the probe request
//! sent through it, the scoring of the judge's echo, and the anonymity
//! classification of working HTTP proxies.

use vstd::prelude::*;

use crate::proto::{Anonymity, Protocol};
use crate::proxy::Proxy;
use crate::response::Response;
use crate::strutil::{
    self, contains_seq, count_occurrences, dec_chars, ip_substrings, is_dec_char, lower_bytes,
    replace_seq, str_eq,
};
use vstd::string::StringSliceAdditionalSpecFns;

verus! {

/// Relies on rand::random_range over `1000..9999`, and on the decimal
/// rendering of the drawn number: a marker of exactly four decimal digits
/// whose first digit is not zero, so it reads as a number in 1000..9999.
#[verifier::external_body]
fn random_marker() -> (r: String)
    ensures
        r@.len() == 4,
        forall|i: int| 0 <= i < 4 ==> is_dec_char(#[trigger] r@[i]),
        r@[0] != '0',
{
    let n: u32 = rand::random_range(1000..9999);
    n.to_string()
}

/// The user agent carrying a marker: the broker's name and version with the
/// marker as the last path component.
pub open spec fn useragent_of(rv: Seq<char>) -> Seq<char> {
    "proxy-rs/0.1.0/"@ + rv
}

/// The fixed probe headers, in the order they are sent, given the final
/// user-agent value, the host, the body length and whether the request is a
/// POST.
pub open spec fn request_headers_spec(
    host: Seq<char>,
    content_length: nat,
    is_post: bool,
    ua: Seq<char>,
) -> Seq<(Seq<char>, Seq<char>)> {
    let before = seq![
        ("Accept"@, "*/*"@),
        ("Accept-Encoding"@, "gzip, deflate"@),
        ("Cache-Control"@, "no-cache"@),
        ("Connection"@, "close"@),
        ("Content-Length"@, dec_chars(content_length)),
    ];
    let ct: Seq<(Seq<char>, Seq<char>)> = if is_post {
        seq![("Content-Type"@, "application/octet-stream"@)]
    } else {
        Seq::empty()
    };
    let after = seq![
        ("Cookie"@, "cookie=ok"@),
        ("Host"@, host),
        ("Pragma"@, "no-cache"@),
        ("Referer"@, "https://google.com/"@),
        ("User-Agent"@, ua),
    ];
    before + ct + after
}

/// One rendered request-header line.
pub open spec fn render_header_chars(h: (Seq<char>, Seq<char>)) -> Seq<char> {
    h.0 + ": "@ + h.1 + "\r\n"@
}

/// The rendered request-header block.
pub open spec fn render_headers_chars(hs: Seq<(Seq<char>, Seq<char>)>) -> Seq<char>
    decreases hs.len(),
{
    if hs.len() == 0 {
        Seq::empty()
    } else {
        render_header_chars(hs[0]) + render_headers_chars(hs.drop_first())
    }
}

/// A whole probe request: the request line in absolute or origin form, the
/// headers, a blank line, and the body.
pub open spec fn raw_request_spec(
    method: Seq<char>,
    host: Seq<char>,
    path: Seq<char>,
    use_full_path: bool,
    hs: Seq<(Seq<char>, Seq<char>)>,
    data: Seq<char>,
) -> Seq<char> {
    let line = if use_full_path {
        method + " http://"@ + host + path + " HTTP/1.1\r\n"@
    } else {
        method + " "@ + path + " HTTP/1.1\r\n"@
    };
    line + render_headers_chars(hs) + "\r\n"@ + data
}

/// The header-list view of string pairs.
pub open spec fn header_pairs_str(v: Seq<(String, String)>) -> Seq<(Seq<char>, Seq<char>)> {
    Seq::new(v.len(), |i: int| (v[i].0@, v[i].1@))
}

/// Rendering one more header appends its line.
proof fn lemma_render_headers_chars_snoc(hs: Seq<(Seq<char>, Seq<char>)>)
    requires
        hs.len() > 0,
    ensures
        render_headers_chars(hs) == render_headers_chars(hs.drop_last()) + render_header_chars(
            hs.last(),
        ),
    decreases hs.len(),
{
    if hs.len() == 1 {
        assert(hs.drop_last() =~= Seq::<(Seq<char>, Seq<char>)>::empty());
        assert(render_headers_chars(hs.drop_last()) + render_header_chars(hs.last())
            =~= render_header_chars(hs[0]) + render_headers_chars(hs.drop_first()));
    } else {
        lemma_render_headers_chars_snoc(hs.drop_first());
        assert(hs.drop_first().drop_last() =~= hs.drop_last().drop_first());
        assert(hs.drop_first().last() == hs.last());
        assert(hs.drop_last()[0] == hs[0]);
        assert(render_headers_chars(hs.drop_last()) + render_header_chars(hs.last())
            =~= render_header_chars(hs[0]) + (render_headers_chars(hs.drop_first().drop_last())
            + render_header_chars(hs.drop_first().last())));
    }
}

/// Appends `k: v` and the line end to a string.
fn push_header_line(s: &mut String, k: &str, v: &str)
    ensures
        final(s)@ == old(s)@ + render_header_chars((k@, v@)),
{
    s.append(k);
    s.append(": ");
    s.append(v);
    s.append("\r\n");
    proof {
        assert(s@ =~= old(s)@ + render_header_chars((k@, v@)));
    }
}

/// The checker's configuration: what to validate, against what, and the
/// external address that judges must echo.
pub struct Checker {
    pub verify_ssl: bool,
    pub timeout_secs: u32,
    pub max_tries: u32,
    pub method: String,
    pub support_referer: bool,
    pub support_cookie: bool,
    pub expected_types: Vec<Protocol>,
    pub expected_levels: Vec<Anonymity>,
    pub expected_countries: Vec<String>,
    pub ext_ip: String,
}

/// The canonical order protocols are tried in.
pub open spec fn protocol_order_spec() -> Seq<Protocol> {
    seq![
        Protocol::Connect80,
        Protocol::Connect25,
        Protocol::Socks5,
        Protocol::Socks4,
        Protocol::Https,
        Protocol::Http,
    ]
}

/// The canonical order, executable form.
pub fn protocol_order() -> (r: Vec<Protocol>)
    ensures
        r@ == protocol_order_spec(),
{
    let mut r: Vec<Protocol> = Vec::new();
    r.push(Protocol::Connect80);
    r.push(Protocol::Connect25);
    r.push(Protocol::Socks5);
    r.push(Protocol::Socks4);
    r.push(Protocol::Https);
    r.push(Protocol::Http);
    proof {
        assert(r@ =~= protocol_order_spec());
    }
    r
}

/// The protocols of the canonical order kept by a filter: expected by the
/// checker and not disabled.
pub open spec fn plan_spec(order: Seq<Protocol>, expected: Seq<Protocol>, disabled: Seq<Protocol>) -> Seq<
    Protocol,
>
    decreases order.len(),
{
    if order.len() == 0 {
        Seq::empty()
    } else {
        let rest = plan_spec(order.drop_first(), expected, disabled);
        if expected.contains(order[0]) && !disabled.contains(order[0]) {
            seq![order[0]] + rest
        } else {
            rest
        }
    }
}

impl Checker {
    /// A checker with the defaults: GET probes, one try per protocol, no
    /// referer or cookie requirement, no country or level filter.
    pub fn new(ext_ip: String) -> (r: Checker)
        ensures
            r.verify_ssl == false,
            r.timeout_secs == 5,
            r.max_tries == 1,
            r.method@ == "GET"@,
            !r.support_referer,
            !r.support_cookie,
            r.expected_types@.len() == 0,
            r.expected_levels@.len() == 0,
            r.expected_countries@.len() == 0,
            r.ext_ip@ == ext_ip@,
    {
        Checker {
            verify_ssl: false,
            timeout_secs: 5,
            max_tries: 1,
            method: "GET".to_owned(),
            support_referer: false,
            support_cookie: false,
            expected_types: Vec::new(),
            expected_levels: Vec::new(),
            expected_countries: Vec::new(),
            ext_ip,
        }
    }

    /// Whether a proxy's country passes the filter: an empty filter accepts
    /// everything, a non-empty one must name the country code.
    pub fn country_allowed(&self, iso_code: &str) -> (r: bool)
        ensures
            r == (self.expected_countries@.len() == 0 || exists|i: int|
                0 <= i < self.expected_countries@.len() && (#[trigger] self.expected_countries@[i])@
                    == iso_code@),
    {
        if self.expected_countries.len() == 0 {
            return true;
        }
        let mut i: usize = 0;
        while i < self.expected_countries.len()
            invariant
                i <= self.expected_countries@.len(),
                forall|k: int|
                    0 <= k < i ==> (#[trigger] self.expected_countries@[k])@ != iso_code@,
            decreases self.expected_countries@.len() - i,
        {
            if str_eq(self.expected_countries[i].as_str(), iso_code) {
                return true;
            }
            i = i + 1;
        }
        false
    }

    /// The protocols to try on one candidate, in the canonical order:
    /// those the checker expects and that are not disabled.
    pub fn plan(&self, disabled: &Vec<Protocol>) -> (r: Vec<Protocol>)
        ensures
            r@ == plan_spec(protocol_order_spec(), self.expected_types@, disabled@),
    {
        let order = protocol_order();
        let mut r: Vec<Protocol> = Vec::new();
        let mut i: usize = 0;
        proof {
            assert(order@.skip(0) =~= order@);
            assert(r@ + plan_spec(order@.skip(0), self.expected_types@, disabled@) =~= plan_spec(
                order@,
                self.expected_types@,
                disabled@,
            ));
        }
        while i < order.len()
            invariant
                i <= order@.len(),
                order@ == protocol_order_spec(),
                r@ + plan_spec(order@.skip(i as int), self.expected_types@, disabled@) == plan_spec(
                    order@,
                    self.expected_types@,
                    disabled@,
                ),
            decreases order@.len() - i,
        {
            let p = order[i];
            proof {
                assert(order@.skip(i as int)[0] == order@[i as int]);
                assert(order@.skip(i as int).drop_first() =~= order@.skip(i + 1));
            }
            if contains_protocol(&self.expected_types, p) && !contains_protocol(disabled, p) {
                r.push(p);
                proof {
                    assert(r@ + plan_spec(order@.skip(i + 1), self.expected_types@, disabled@)
                        =~= plan_spec(order@, self.expected_types@, disabled@));
                }
            } else {
                proof {
                    assert(r@ + plan_spec(order@.skip(i + 1), self.expected_types@, disabled@)
                        =~= plan_spec(order@, self.expected_types@, disabled@));
                }
            }
            i = i + 1;
        }
        proof {
            assert(order@.skip(i as int).len() == 0);
            assert(r@ =~= plan_spec(order@, self.expected_types@, disabled@));
        }
        r
    }

    /// Whether a proxy's confirmed types pass the level filter: an empty
    /// filter accepts everything, a non-empty one must name the level of
    /// some classified entry.
    pub fn level_ok(&self, p: &Proxy) -> (r: bool)
        ensures
            r == (self.expected_levels@.len() == 0 || exists|i: int|
                0 <= i < p.types@.len() && ((#[trigger] p.types@[i]).level matches Some(l)
                    && self.expected_levels@.contains(l))),
    {
        if self.expected_levels.len() == 0 {
            return true;
        }
        let mut i: usize = 0;
        while i < p.types.len()
            invariant
                i <= p.types@.len(),
                forall|k: int|
                    0 <= k < i ==> !(((#[trigger] p.types@[k]).level matches Some(l)
                        && self.expected_levels@.contains(l))),
            decreases p.types@.len() - i,
        {
            if let Some(level) = p.types[i].level {
                if contains_level(&self.expected_levels, level) {
                    return true;
                }
            }
            i = i + 1;
        }
        false
    }

    /// Builds the probe request for a judge: the request line in absolute
    /// or origin form, the fixed headers around a fresh four-digit marker,
    /// and the optional body.  Yields the text, the headers and the marker.
    pub fn build_raw_request(&self, host: &str, path: &str, use_full_path: bool, data: Option<
        String,
    >) -> (r: (String, Vec<(String, String)>, String))
        ensures
            r.2@.len() == 4,
            forall|i: int| 0 <= i < 4 ==> is_dec_char(#[trigger] r.2@[i]),
            r.2@[0] != '0',
            header_pairs_str(r.1@) == request_headers_spec(
                host@,
                match data {
                    Some(d) => vstd::utf8::encode_utf8(d@).len(),
                    None => 0,
                },
                self.method@ == "POST"@,
                useragent_of(r.2@),
            ),
            r.0@ == raw_request_spec(
                self.method@,
                host@,
                path@,
                use_full_path,
                header_pairs_str(r.1@),
                match data {
                    Some(d) => d@,
                    None => Seq::empty(),
                },
            ),
    {
        let rv = random_marker();
        let mut ua = String::new();
        ua.append("proxy-rs/0.1.0/");
        ua.append(rv.as_str());
        let body: String = match data {
            Some(d) => d,
            None => String::new(),
        };
        let body_len = body.as_str().as_bytes().len();
        let clen = strutil::u64_to_string(body_len as u64);
        let is_post = str_eq(self.method.as_str(), "POST");

        let mut headers: Vec<(String, String)> = Vec::new();
        headers.push(("Accept".to_owned(), "*/*".to_owned()));
        headers.push(("Accept-Encoding".to_owned(), "gzip, deflate".to_owned()));
        headers.push(("Cache-Control".to_owned(), "no-cache".to_owned()));
        headers.push(("Connection".to_owned(), "close".to_owned()));
        headers.push(("Content-Length".to_owned(), clen));
        if is_post {
            headers.push(("Content-Type".to_owned(), "application/octet-stream".to_owned()));
        }
        headers.push(("Cookie".to_owned(), "cookie=ok".to_owned()));
        headers.push(("Host".to_owned(), host.to_owned()));
        headers.push(("Pragma".to_owned(), "no-cache".to_owned()));
        headers.push(("Referer".to_owned(), "https://google.com/".to_owned()));
        headers.push(("User-Agent".to_owned(), ua));
        proof {
            assert(vstd::utf8::encode_utf8(Seq::<char>::empty()).len() == 0);
            assert(header_pairs_str(headers@) =~~= request_headers_spec(
                host@,
                vstd::utf8::encode_utf8(body@).len(),
                self.method@ == "POST"@,
                useragent_of(rv@),
            ));
        }

        let mut request = String::new();
        request.append(self.method.as_str());
        if use_full_path {
            request.append(" http://");
            request.append(host);
            request.append(path);
        } else {
            request.append(" ");
            request.append(path);
        }
        request.append(" HTTP/1.1\r\n");
        let ghost line_done = request@;
        let mut i: usize = 0;
        proof {
            assert(request@ =~= line_done + render_headers_chars(
                header_pairs_str(headers@).subrange(0, 0),
            ));
        }
        while i < headers.len()
            invariant
                i <= headers@.len(),
                request@ == line_done + render_headers_chars(
                    header_pairs_str(headers@).subrange(0, i as int),
                ),
            decreases headers@.len() - i,
        {
            push_header_line(&mut request, headers[i].0.as_str(), headers[i].1.as_str());
            i = i + 1;
            proof {
                let hp = header_pairs_str(headers@);
                lemma_render_headers_chars_snoc(hp.subrange(0, i as int));
                assert(hp.subrange(0, i as int).drop_last() =~= hp.subrange(0, i - 1));
                assert(request@ =~= line_done + render_headers_chars(hp.subrange(0, i as int)));
            }
        }
        request.append("\r\n");
        request.append(body.as_str());
        proof {
            assert(header_pairs_str(headers@).subrange(0, headers@.len() as int) =~= header_pairs_str(
                headers@,
            ));
            assert(request@ =~= raw_request_spec(
                self.method@,
                host@,
                path@,
                use_full_path,
                header_pairs_str(headers@),
                body@,
            ));
        }
        (request, headers, rv)
    }

    /// Scores a judge's echo (the correctness test of the validation): it
    /// passes exactly when the status is 200, the marker comes back in the
    /// raw text, some address-shaped substring occurs, and — where the
    /// checker demands them — the referer and cookie values come back too.
    /// All text comparisons fold ASCII case.
    pub fn get_response_status(&self, response: &Response, rv: &str) -> (r: bool)
        ensures
            r == is_correct_spec(
                response.raw@,
                response.status_code,
                rv.spec_bytes(),
                self.support_referer,
                self.support_cookie,
            ),
    {
        let raw_lower = strutil::to_lower_bytes(response.raw.as_slice());
        let rv_lower = strutil::to_lower_bytes(rv.as_bytes());
        let is_ok = match response.status_code {
            Some(200) => true,
            _ => false,
        };
        let version_ok = strutil::contains_bytes(raw_lower.as_slice(), rv_lower.as_slice());
        let some_ip = strutil::find_ip_substrings(raw_lower.as_slice()).len() > 0;
        let referer_ok = if self.support_referer {
            let pat = strutil::to_lower_bytes("https://google.com/".as_bytes());
            strutil::contains_bytes(raw_lower.as_slice(), pat.as_slice())
        } else {
            true
        };
        let cookie_ok = if self.support_cookie {
            let pat = strutil::to_lower_bytes("cookie=ok".as_bytes());
            strutil::contains_bytes(raw_lower.as_slice(), pat.as_slice())
        } else {
            true
        };
        is_ok && version_ok && some_ip && referer_ok && cookie_ok
    }

    /// Classifies a working HTTP proxy from the decoded body of the judge's
    /// echo.  A body holding the external address is Transparent, whatever
    /// the via and proxy counts say; otherwise strictly more `via` marks
    /// than the judge's baseline — or, failing that, strictly more `proxy`
    /// marks once the broker's own name is struck out — means Anonymous;
    /// anything else is High.
    pub fn get_anonymity_level(&self, body: &[u8], marks_via: usize, marks_proxy: usize) -> (r:
        Anonymity)
        ensures
            r == anonymity_spec(
                lower_bytes(body@),
                marks_via as nat,
                marks_proxy as nat,
                vstd::utf8::encode_utf8(self.ext_ip@),
            ),
            ip_substrings(lower_bytes(body@), 0).contains(vstd::utf8::encode_utf8(self.ext_ip@)) ==> r
                == Anonymity::Transparent,
    {
        let content = strutil::to_lower_bytes(body);
        proof {
            reveal_strlit("via");
            reveal_strlit("proxy");
            reveal_strlit("proxy-rs");
            reveal_strlit("--");
            assert(vstd::utf8::is_ascii_chars("via"@));
            assert(vstd::utf8::is_ascii_chars("proxy"@));
            assert(vstd::utf8::is_ascii_chars("proxy-rs"@));
            vstd::utf8::is_ascii_chars_encode_utf8("via"@);
            vstd::utf8::is_ascii_chars_encode_utf8("proxy"@);
            vstd::utf8::is_ascii_chars_encode_utf8("proxy-rs"@);
        }
        let mut via = strutil::count_matches(content.as_slice(), "via".as_bytes()) > marks_via;
        if !via {
            let struck = strutil::replace_bytes(
                content.as_slice(),
                "proxy-rs".as_bytes(),
                "--".as_bytes(),
            );
            via = strutil::count_matches(struck.as_slice(), "proxy".as_bytes()) > marks_proxy;
        }
        let ips = strutil::find_ip_substrings(content.as_slice());
        let mut transparent = false;
        let mut i: usize = 0;
        while i < ips.len()
            invariant
                i <= ips@.len(),
                ips.deep_view() == ip_substrings(lower_bytes(body@), 0),
                transparent == exists|k: int|
                    0 <= k < i && (#[trigger] ips@[k])@ == vstd::utf8::encode_utf8(self.ext_ip@),
            decreases ips@.len() - i,
        {
            if strutil::bytes_eq(ips[i].as_slice(), self.ext_ip.as_str().as_bytes()) {
                proof {
                    assert(ips@[i as int]@ == vstd::utf8::encode_utf8(self.ext_ip@));
                }
                transparent = true;
            }
            i = i + 1;
        }
        proof {
            assert forall|k: int| 0 <= k < ips@.len() implies (#[trigger] ips@[k])@
                == ips.deep_view()[k] by {}
            if transparent {
                let k = choose|k: int|
                    0 <= k < ips@.len() && (#[trigger] ips@[k])@ == vstd::utf8::encode_utf8(self.ext_ip@);
                assert(ip_substrings(lower_bytes(body@), 0)[k] == vstd::utf8::encode_utf8(self.ext_ip@));
            }
            if ip_substrings(lower_bytes(body@), 0).contains(vstd::utf8::encode_utf8(self.ext_ip@)) {
                let k = choose|k: int|
                    0 <= k < ip_substrings(lower_bytes(body@), 0).len() && ip_substrings(
                        lower_bytes(body@),
                        0,
                    )[k] == vstd::utf8::encode_utf8(self.ext_ip@);
                assert(ips@[k]@ == vstd::utf8::encode_utf8(self.ext_ip@));
            }
        }
        if transparent {
            Anonymity::Transparent
        } else if via {
            Anonymity::Anonymous
        } else {
            Anonymity::High
        }
    }
}

/// Whether the correctness test passes, over the raw response text.
pub open spec fn is_correct_spec(
    raw: Seq<u8>,
    status: Option<u16>,
    rv: Seq<u8>,
    support_referer: bool,
    support_cookie: bool,
) -> bool {
    &&& status == Some(200u16)
    &&& contains_seq(lower_bytes(raw), lower_bytes(rv))
    &&& ip_substrings(lower_bytes(raw), 0).len() > 0
    &&& (support_referer ==> contains_seq(
        lower_bytes(raw),
        lower_bytes(vstd::utf8::encode_utf8("https://google.com/"@)),
    ))
    &&& (support_cookie ==> contains_seq(
        lower_bytes(raw),
        lower_bytes(vstd::utf8::encode_utf8("cookie=ok"@)),
    ))
}

/// The anonymity classification, over the case-folded body: Transparent
/// when the external address occurs among the address-shaped substrings;
/// else Anonymous when strictly more `via` marks than the baseline, or
/// strictly more `proxy` marks after the broker's own name is struck out;
/// else High.
pub open spec fn anonymity_spec(
    content: Seq<u8>,
    marks_via: nat,
    marks_proxy: nat,
    ext_ip: Seq<u8>,
) -> Anonymity {
    let via = count_occurrences(content, vstd::utf8::encode_utf8("via"@)) > marks_via
        || count_occurrences(
        replace_seq(content, vstd::utf8::encode_utf8("proxy-rs"@), vstd::utf8::encode_utf8("--"@)),
        vstd::utf8::encode_utf8("proxy"@),
    ) > marks_proxy;
    if ip_substrings(content, 0).contains(ext_ip) {
        Anonymity::Transparent
    } else if via {
        Anonymity::Anonymous
    } else {
        Anonymity::High
    }
}

/// Whether any protocol of a result list succeeded: the working verdict of
/// one candidate.
pub fn any_success(results: &Vec<bool>) -> (r: bool)
    ensures
        r == exists|i: int| 0 <= i < results@.len() && results@[i],
{
    let mut i: usize = 0;
    while i < results.len()
        invariant
            i <= results@.len(),
            forall|k: int| 0 <= k < i ==> !results@[k],
        decreases results@.len() - i,
    {
        if results[i] {
            return true;
        }
        i = i + 1;
    }
    false
}

/// Whether a protocol list holds `p`, executable form.
pub fn contains_protocol(v: &Vec<Protocol>, p: Protocol) -> (r: bool)
    ensures
        r == v@.contains(p),
{
    let mut i: usize = 0;
    while i < v.len()
        invariant
            i <= v@.len(),
            forall|k: int| 0 <= k < i ==> v@[k] != p,
        decreases v@.len() - i,
    {
        if v[i] == p {
            return true;
        }
        i = i + 1;
    }
    false
}

/// Whether a level list holds `l`, executable form.
pub fn contains_level(v: &Vec<Anonymity>, l: Anonymity) -> (r: bool)
    ensures
        r == v@.contains(l),
{
    let mut i: usize = 0;
    while i < v.len()
        invariant
            i <= v@.len(),
            forall|k: int| 0 <= k < i ==> v@[k] != l,
        decreases v@.len() - i,
    {
        if v[i] == l {
            return true;
        }
        i = i + 1;
    }
    false
}

/// Clones a protocol list.
pub fn clone_protocols(v: &Vec<Protocol>) -> (r: Vec<Protocol>)
    ensures
        r@ == v@,
{
    let mut r: Vec<Protocol> = Vec::new();
    let mut i: usize = 0;
    while i < v.len()
        invariant
            i <= v@.len(),
            r@ == v@.subrange(0, i as int),
        decreases v@.len() - i,
    {
        r.push(v[i]);
        proof {
            assert(v@.subrange(0, i + 1) =~= v@.subrange(0, i as int).push(v@[i as int]));
        }
        i = i + 1;
    }
    proof {
        assert(v@.subrange(0, v@.len() as int) =~= v@);
    }
    r
}

/// The fixed base headers sent with every probe, keyed in sorted order,
/// given the user-agent value.
pub open spec fn base_headers_spec(ua: Seq<char>) -> Seq<(Seq<char>, Seq<char>)> {
    seq![
        ("Accept"@, "*/*"@),
        ("Accept-Encoding"@, "gzip, deflate"@),
        ("Cache-Control"@, "no-cache"@),
        ("Cookie"@, "cookie=ok"@),
        ("Pragma"@, "no-cache"@),
        ("Referer"@, "https://google.com/"@),
        ("User-Agent"@, ua),
    ]
}

/// The probe's user agent: the broker's name and version, with a fresh
/// four-digit marker as the last path component when one is asked for.
pub fn random_useragent(random_value: bool) -> (r: String)
    ensures
        !random_value ==> r@ == "proxy-rs/0.1.0"@,
        random_value ==> exists|rv: Seq<char>|
            rv.len() == 4 && (forall|i: int| 0 <= i < 4 ==> is_dec_char(#[trigger] rv[i])) && rv[0]
                != '0' && r@ == useragent_of(rv),
{
    if random_value {
        let rv = random_marker();
        let mut ua = String::new();
        ua.append("proxy-rs/0.1.0/");
        ua.append(rv.as_str());
        proof {
            assert(ua@ == useragent_of(rv@));
        }
        ua
    } else {
        "proxy-rs/0.1.0".to_owned()
    }
}

/// The base headers with their marker: the seven fixed pairs around the
/// user agent, and the marker itself (the version string when no marker
/// was asked for).
pub fn get_headers(random_value: bool) -> (r: (Vec<(String, String)>, String))
    ensures
        random_value ==> r.1@.len() == 4 && (forall|i: int|
            0 <= i < 4 ==> is_dec_char(#[trigger] r.1@[i])) && r.1@[0] != '0'
            && header_pairs_str(r.0@) == base_headers_spec(useragent_of(r.1@)),
        !random_value ==> r.1@ == "0.1.0"@ && header_pairs_str(r.0@) == base_headers_spec(
            "proxy-rs/0.1.0"@,
        ),
{
    let rv: String = if random_value {
        random_marker()
    } else {
        "0.1.0".to_owned()
    };
    let mut ua = String::new();
    if random_value {
        ua.append("proxy-rs/0.1.0/");
        ua.append(rv.as_str());
    } else {
        ua.append("proxy-rs/0.1.0");
    }
    let mut headers: Vec<(String, String)> = Vec::new();
    headers.push(("Accept".to_owned(), "*/*".to_owned()));
    headers.push(("Accept-Encoding".to_owned(), "gzip, deflate".to_owned()));
    headers.push(("Cache-Control".to_owned(), "no-cache".to_owned()));
    headers.push(("Cookie".to_owned(), "cookie=ok".to_owned()));
    headers.push(("Pragma".to_owned(), "no-cache".to_owned()));
    headers.push(("Referer".to_owned(), "https://google.com/".to_owned()));
    headers.push(("User-Agent".to_owned(), ua));
    proof {
        if random_value {
            assert(header_pairs_str(headers@) =~~= base_headers_spec(useragent_of(rv@)));
        } else {
            assert(header_pairs_str(headers@) =~~= base_headers_spec("proxy-rs/0.1.0"@));
        }
    }
    (headers, rv)
}

} // verus!
