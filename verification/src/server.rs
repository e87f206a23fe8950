//! The forwarding gateway's verified parts: parsing an incoming client
//! request, choosing the scheme its proxying needs, and the CONNECT
//! exchange with the upstream proxy.  Sockets and splicing live outside.

use vstd::prelude::*;

use crate::proto::Scheme;
use crate::response::{
    find_crlf_spec, header_pairs, header_value_spec, parse_headers_spec, Header, SP,
};
use vstd::string::StringSliceAdditionalSpecFns;

verus! {

/// The gateway's listening address.
pub struct Server {
    pub host: String,
    pub port: u16,
}

impl Server {
    /// A gateway bound to the given address once started.
    pub fn new(host: &str, port: u16) -> (r: Server)
        ensures
            r.host@ == host@,
            r.port == port,
    {
        Server { host: host.to_owned(), port }
    }

    /// The scheme a client request needs from the pool: CONNECT clients
    /// need a tunnelling proxy, every other method a cleartext one.
    pub fn scheme_for(&self, is_connect: bool) -> (r: Scheme)
        ensures
            is_connect ==> r == Scheme::Https,
            !is_connect ==> r == Scheme::Http,
    {
        if is_connect {
            Scheme::Https
        } else {
            Scheme::Http
        }
    }
}

/// A parsed request line: method, path, version digit.
pub open spec fn parse_request_line_spec(line: Seq<u8>) -> Option<(Seq<u8>, Seq<u8>, u8)> {
    match crate::strutil::find_byte_spec(line, SP, 0) {
        Some(m) => if m == 0 {
            None
        } else {
            match crate::strutil::find_byte_spec(line, SP, m + 1) {
                Some(p) => if p == m + 1 || line.len() != p + 9 || line.subrange(p + 1, p + 8)
                    != crate::response::http1_prefix() || !crate::strutil::is_digit(
                    line[line.len() - 1],
                ) {
                    None
                } else {
                    Some(
                        (
                            line.subrange(0, m),
                            line.subrange(m + 1, p),
                            (line[line.len() - 1] - crate::strutil::DIGIT_ZERO) as u8,
                        ),
                    )
                },
                None => None,
            }
        },
        None => None,
    }
}

/// A fully parsed request head: method, path, version, headers.
pub open spec fn parse_request_spec(data: Seq<u8>) -> Option<
    (Seq<u8>, Seq<u8>, u8, Seq<(Seq<u8>, Seq<u8>)>),
> {
    match find_crlf_spec(data, 0) {
        None => None,
        Some(e0) => match parse_request_line_spec(data.subrange(0, e0)) {
            None => None,
            Some((m, p, v)) => match parse_headers_spec(data, e0 + 2) {
                None => None,
                Some((hs, _)) => Some((m, p, v, hs)),
            },
        },
    }
}

/// A parsed incoming request: the method, the request target, the HTTP
/// version digit, and the headers with lower-cased names.
#[derive(Debug)]
pub struct RequestParser {
    pub method: Option<Vec<u8>>,
    pub path: Option<Vec<u8>>,
    pub version: Option<u8>,
    pub headers: Vec<Header>,
}

impl RequestParser {
    /// Parses the bytes of an incoming client request.  On a malformed
    /// head everything stays empty.
    pub fn parse(data: &[u8]) -> (r: RequestParser)
        ensures
            match parse_request_spec(data@) {
                Some((m, p, v, hs)) => {
                    &&& match r.method {
                        Some(x) => x@ == m,
                        None => false,
                    }
                    &&& match r.path {
                        Some(x) => x@ == p,
                        None => false,
                    }
                    &&& r.version == Some(v)
                    &&& header_pairs(r.headers@) == hs
                },
                None => r.method is None && r.path is None && r.version is None
                    && r.headers@.len() == 0,
            },
    {
        let n = data.len();
        let empty = RequestParser {
            method: None,
            path: None,
            version: None,
            headers: Vec::new(),
        };
        proof {
            crate::response::lemma_find_crlf(data@, 0);
        }
        let e0 = match crate::response::find_crlf(data, 0) {
            Some(e) => e,
            None => {
                return empty;
            },
        };
        let ghost line = data@.subrange(0, e0 as int);
        proof {
            crate::strutil::lemma_find_byte(line, SP, 0);
        }
        let m_end = match find_byte_in(data, SP, 0, e0) {
            Some(m) => m,
            None => {
                return empty;
            },
        };
        if m_end == 0 {
            return empty;
        }
        proof {
            crate::strutil::lemma_find_byte(line, SP, m_end + 1);
        }
        let p_end = match find_byte_in(data, SP, m_end + 1, e0) {
            Some(p) => p,
            None => {
                return empty;
            },
        };
        assert(p_end < e0 && e0 + 2 <= n);
        if p_end == m_end + 1 || e0 - p_end != 9 {
            return empty;
        }
        let tail_ok = data[p_end + 1] == 72 && data[p_end + 2] == 84 && data[p_end + 3] == 84
            && data[p_end + 4] == 80 && data[p_end + 5] == 47 && data[p_end + 6] == 49 && data[p_end
            + 7] == 46;
        proof {
            assert forall|k: int| 0 <= k < e0 implies line[k] == data@[k] by {}
            assert(line.subrange(p_end + 1, p_end + 8) =~= data@.subrange(p_end + 1, p_end + 8));
            if tail_ok {
                assert(data@.subrange(p_end + 1, p_end + 8) =~= crate::response::http1_prefix());
            } else {
                assert(exists|k: int|
                    0 <= k < 7 && data@.subrange(p_end + 1, p_end + 8)[k]
                        != crate::response::http1_prefix()[k]) by {
                    if data@[p_end + 1] != 72 {
                        assert(data@.subrange(p_end + 1, p_end + 8)[0]
                            != crate::response::http1_prefix()[0]);
                    } else if data@[p_end + 2] != 84 {
                        assert(data@.subrange(p_end + 1, p_end + 8)[1]
                            != crate::response::http1_prefix()[1]);
                    } else if data@[p_end + 3] != 84 {
                        assert(data@.subrange(p_end + 1, p_end + 8)[2]
                            != crate::response::http1_prefix()[2]);
                    } else if data@[p_end + 4] != 80 {
                        assert(data@.subrange(p_end + 1, p_end + 8)[3]
                            != crate::response::http1_prefix()[3]);
                    } else if data@[p_end + 5] != 47 {
                        assert(data@.subrange(p_end + 1, p_end + 8)[4]
                            != crate::response::http1_prefix()[4]);
                    } else if data@[p_end + 6] != 49 {
                        assert(data@.subrange(p_end + 1, p_end + 8)[5]
                            != crate::response::http1_prefix()[5]);
                    } else {
                        assert(data@.subrange(p_end + 1, p_end + 8)[6]
                            != crate::response::http1_prefix()[6]);
                    }
                }
            }
        }
        if !tail_ok {
            return empty;
        }
        let v_digit = data[e0 - 1];
        if v_digit < crate::strutil::DIGIT_ZERO || v_digit > crate::strutil::DIGIT_NINE {
            return empty;
        }
        let method = crate::response::copy_range(data, 0, m_end);
        let path = crate::response::copy_range(data, m_end + 1, p_end);
        proof {
            assert(line.subrange(0, m_end as int) =~= data@.subrange(0, m_end as int));
            assert(line.subrange(m_end + 1, p_end as int) =~= data@.subrange(
                m_end + 1,
                p_end as int,
            ));
            assert(line[line.len() - 1] == data@[e0 - 1]);
        }
        let headers = match crate::response::parse_headers(data, e0 + 2) {
            Some((hs, _end)) => hs,
            None => {
                return empty;
            },
        };
        RequestParser {
            method: Some(method),
            path: Some(path),
            version: Some(v_digit - crate::strutil::DIGIT_ZERO),
            headers,
        }
    }

    /// The host named by an absolute request target, where the target is
    /// UTF-8 text that parses as a URL with a host.
    pub open spec fn absolute_target_host(&self) -> Option<Seq<char>> {
        match self.path {
            Some(p) => if vstd::utf8::valid_utf8(p@) {
                match crate::judge::url_parts_of(vstd::utf8::decode_utf8(p@)) {
                    Some(u) => Some(u.1),
                    None => None,
                }
            } else {
                None
            },
            None => None,
        }
    }

    /// The destination host of a request: the host of an absolute request
    /// target wins where there is one; only then does the `Host` header
    /// answer; with neither there is no host.
    pub fn get_host(&self) -> (r: Option<String>)
        ensures
            match self.absolute_target_host() {
                Some(h) => r matches Some(x) && x@ == h,
                None => match header_value_spec(
                    header_pairs(self.headers@),
                    vstd::utf8::encode_utf8("host"@),
                ) {
                    Some(v) => if vstd::utf8::valid_utf8(v) {
                        r matches Some(x) && vstd::utf8::encode_utf8(x@) == v
                    } else {
                        r is None
                    },
                    None => r is None,
                },
            },
    {
        if let Some(path) = &self.path {
            if let Some(path_text) = utf8_text(path.as_slice()) {
                if let Some(j) = crate::judge::parse_url(path_text.as_str()) {
                    return Some(j.1);
                }
            }
        }
        let hv = crate::response::header_value(&self.headers, "host".as_bytes());
        match hv {
            Some(v) => match utf8_text(v.as_slice()) {
                Some(text) => {
                    proof {
                        vstd::utf8::decode_utf8_encode_utf8(v@);
                    }
                    Some(text)
                },
                None => None,
            },
            None => None,
        }
    }
}

/// Relies on core::str::from_utf8: valid UTF-8 bytes decode to their text,
/// anything else to nothing.
#[verifier::external_body]
fn utf8_text(b: &[u8]) -> (r: Option<String>)
    ensures
        match r {
            Some(s) => vstd::utf8::valid_utf8(b@) && s@ == vstd::utf8::decode_utf8(b@),
            None => !vstd::utf8::valid_utf8(b@),
        },
{
    match core::str::from_utf8(b) {
        Ok(s) => Some(s.to_string()),
        Err(_) => None,
    }
}

/// The CONNECT line the gateway sends its upstream proxy for a client
/// tunnel toward `host:443`.
pub open spec fn gateway_connect_spec(host: Seq<char>) -> Seq<char> {
    "CONNECT "@ + host + ":443 HTTP/1.1\r\nHost: "@ + host
        + ":443\r\nProxy-Connection: Keep-Alive\r\n\r\n"@
}

/// Builds the gateway's upstream CONNECT payload.
pub fn gateway_connect_payload(host: &str) -> (r: String)
    ensures
        r@ == gateway_connect_spec(host@),
{
    let mut s = String::new();
    s.append("CONNECT ");
    s.append(host);
    s.append(":443 HTTP/1.1\r\nHost: ");
    s.append(host);
    s.append(":443\r\nProxy-Connection: Keep-Alive\r\n\r\n");
    proof {
        assert(s@ =~= gateway_connect_spec(host@));
    }
    s
}

/// Whether the upstream proxy accepted the gateway's CONNECT: only a
/// status of 200 opens the tunnel; anything else answers the client with a
/// bad-gateway error.
pub fn connect_accepted(status_code: Option<u16>) -> (r: bool)
    ensures
        r == (status_code == Some(200u16)),
{
    match status_code {
        Some(200) => true,
        _ => false,
    }
}

/// First `b` in `s[from..to]`, executable form, as an absolute index; the
/// specification reads over the prefix `s[..to]`.
fn find_byte_in(s: &[u8], b: u8, from: usize, to: usize) -> (r: Option<usize>)
    requires
        from <= to <= s@.len(),
    ensures
        match r {
            Some(i) => crate::strutil::find_byte_spec(
                s@.subrange(0, to as int),
                b,
                from as int,
            ) == Some(i as int) && from <= i < to,
            None => crate::strutil::find_byte_spec(s@.subrange(0, to as int), b, from as int)
                is None,
        },
{
    let ghost line = s@.subrange(0, to as int);
    let mut i = from;
    while i < to
        invariant
            from <= i <= to <= s@.len(),
            line == s@.subrange(0, to as int),
            crate::strutil::find_byte_spec(line, b, from as int) == crate::strutil::find_byte_spec(
                line,
                b,
                i as int,
            ),
        decreases to - i,
    {
        proof {
            assert(line[i as int] == s@[i as int]);
        }
        if s[i] == b {
            return Some(i);
        }
        i = i + 1;
    }
    None
}

} // verus!
