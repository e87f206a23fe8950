//! Per-protocol handshakes: the exact packets each negotiator sends, the
//! checks it makes on what comes back, and the stream-state transitions.
//! Sending and receiving happen outside; every decision is made here.

use vstd::prelude::*;

use crate::proxy::{ErrorKind, StreamState};
use crate::strutil::{self, dec_chars, ipv4_octets, is_ipv4};
use vstd::string::StringSliceAdditionalSpecFns;

verus! {

/// The no-op handshake of a plain HTTP proxy: the request itself is the
/// probe, sent in absolute form, and the echoed response is inspected for
/// the anonymity classification.
pub struct HttpNegotiator {
    pub name: String,
    pub check_anon_lvl: bool,
    pub use_full_path: bool,
}

impl Default for HttpNegotiator {
    fn default() -> (r: HttpNegotiator)
        ensures
            r.name@ == "HTTP"@,
            r.check_anon_lvl,
            r.use_full_path,
    {
        HttpNegotiator { name: "HTTP".to_owned(), check_anon_lvl: true, use_full_path: true }
    }
}

impl HttpNegotiator {
    /// Nothing to negotiate: a cleartext proxy accepts the request as is.
    pub fn negotiate(&self) -> (r: bool)
        ensures
            r,
    {
        true
    }
}

/// The `CONNECT host:port` line with its headers, as sent to probe CONNECT
/// tunnelling toward `port`.
pub open spec fn connect_payload_spec(host: Seq<char>, port: u16) -> Seq<char> {
    "CONNECT "@ + host + ":"@ + dec_chars(port as nat) + " HTTP/1.1\r\nHost: "@ + host
        + "\r\nConnection: keep-alive\r\n\r\n"@
}

/// Builds the CONNECT payload for a judge host and a destination port.
pub fn connect_payload(host: &str, port: u16) -> (r: String)
    ensures
        r@ == connect_payload_spec(host@, port),
{
    let mut s = String::new();
    s.append("CONNECT ");
    s.append(host);
    s.append(":");
    strutil::append_u64(&mut s, port as u64);
    s.append(" HTTP/1.1\r\nHost: ");
    s.append(host);
    s.append("\r\nConnection: keep-alive\r\n\r\n");
    proof {
        assert(s@ =~= connect_payload_spec(host@, port));
    }
    s
}

/// CONNECT-style negotiation over port 80.
pub struct Connect80Negotiator {
    pub name: String,
    pub check_anon_lvl: bool,
    pub use_full_path: bool,
}

impl Default for Connect80Negotiator {
    fn default() -> (r: Connect80Negotiator)
        ensures
            r.name@ == "CONNECT:80"@,
            !r.check_anon_lvl,
            !r.use_full_path,
    {
        Connect80Negotiator {
            name: "CONNECT:80".to_owned(),
            check_anon_lvl: false,
            use_full_path: false,
        }
    }
}

impl Connect80Negotiator {
    /// The payload sent to the proxy: CONNECT toward the judge on port 80.
    pub fn payload(&self, judge_host: &str) -> (r: String)
        ensures
            r@ == connect_payload_spec(judge_host@, 80),
    {
        connect_payload(judge_host, 80)
    }

    /// Judges the CONNECT reply: only status 200 passes; any other reply,
    /// or none at all, is a bad status.
    pub fn check_reply(&self, status_code: Option<u16>) -> (r: Result<(), ErrorKind>)
        ensures
            r is Ok <==> status_code == Some(200u16),
            r is Err ==> r->Err_0 == ErrorKind::BadStatus,
    {
        match status_code {
            Some(200) => Ok(()),
            _ => Err(ErrorKind::BadStatus),
        }
    }
}

/// CONNECT-style negotiation over port 25, assaying SMTP tunnelling.
pub struct Connect25Negotiator {
    pub name: String,
    pub check_anon_lvl: bool,
    pub use_full_path: bool,
}

impl Default for Connect25Negotiator {
    fn default() -> (r: Connect25Negotiator)
        ensures
            r.name@ == "CONNECT:25"@,
            !r.check_anon_lvl,
            !r.use_full_path,
    {
        Connect25Negotiator {
            name: "CONNECT:25".to_owned(),
            check_anon_lvl: false,
            use_full_path: false,
        }
    }
}

impl Connect25Negotiator {
    /// The payload sent to the proxy: CONNECT toward the judge on port 25.
    pub fn payload(&self, judge_host: &str) -> (r: String)
        ensures
            r@ == connect_payload_spec(judge_host@, 25),
    {
        connect_payload(judge_host, 25)
    }

    /// Judges the CONNECT reply, as for port 80.
    pub fn check_reply(&self, status_code: Option<u16>) -> (r: Result<(), ErrorKind>)
        ensures
            r is Ok <==> status_code == Some(200u16),
            r is Err ==> r->Err_0 == ErrorKind::BadStatus,
    {
        match status_code {
            Some(200) => Ok(()),
            _ => Err(ErrorKind::BadStatus),
        }
    }
}

/// HTTPS negotiation: CONNECT toward the judge on port 443, then a TLS
/// handshake over the tunnel.
pub struct HttpsNegotiator {
    pub name: String,
    pub check_anon_lvl: bool,
    pub use_full_path: bool,
}

impl Default for HttpsNegotiator {
    fn default() -> (r: HttpsNegotiator)
        ensures
            r.name@ == "HTTPS"@,
            !r.check_anon_lvl,
            !r.use_full_path,
    {
        HttpsNegotiator { name: "HTTPS".to_owned(), check_anon_lvl: false, use_full_path: false }
    }
}

impl HttpsNegotiator {
    /// The payload sent to the proxy: CONNECT toward the judge on port 443.
    pub fn payload(&self, judge_host: &str) -> (r: String)
        ensures
            r@ == connect_payload_spec(judge_host@, 443),
    {
        connect_payload(judge_host, 443)
    }

    /// Decides what follows the CONNECT reply on a TCP stream: on status
    /// 200 the stream stays open and the TLS upgrade may proceed; on
    /// anything else the stream is closed and no upgrade happens.
    pub fn connect_decision(&self, state: StreamState, status_code: Option<u16>) -> (r: (
        StreamState,
        bool,
    ))
        requires
            state == StreamState::Tcp,
        ensures
            status_code == Some(200u16) ==> r == (StreamState::Tcp, true),
            status_code != Some(200u16) ==> r == (StreamState::Closed, false),
    {
        match status_code {
            Some(200) => (state, true),
            _ => (StreamState::Closed, false),
        }
    }

    /// Folds the TLS handshake's outcome into the stream state: success
    /// upgrades TCP to TLS, failure closes the stream.
    pub fn tls_outcome(&self, state: StreamState, handshake_ok: bool) -> (r: StreamState)
        requires
            state == StreamState::Tcp,
        ensures
            handshake_ok ==> r == StreamState::Tls,
            !handshake_ok ==> r == StreamState::Closed,
    {
        if handshake_ok {
            StreamState::Tls
        } else {
            StreamState::Closed
        }
    }
}

/// The SOCKS4 connect request toward `octets:port`.
pub open spec fn socks4_packet_spec(o: (u8, u8, u8, u8), port: u16) -> Seq<u8> {
    seq![
        4u8,
        1u8,
        (port >> 8) as u8,
        (port & 0xff) as u8,
        o.0,
        o.1,
        o.2,
        o.3,
        0u8,
    ]
}

/// SOCKS4 negotiation.
pub struct Socks4Negotiator {
    pub name: String,
    pub check_anon_lvl: bool,
    pub use_full_path: bool,
}

impl Default for Socks4Negotiator {
    fn default() -> (r: Socks4Negotiator)
        ensures
            r.name@ == "SOCKS4"@,
            !r.check_anon_lvl,
            !r.use_full_path,
    {
        Socks4Negotiator { name: "SOCKS4".to_owned(), check_anon_lvl: false, use_full_path: false }
    }
}

impl Socks4Negotiator {
    /// Builds the connect request.  SOCKS4 can only carry a literal IPv4
    /// address, so a host that is not a dotted quad yields no packet and
    /// the negotiation fails before anything is sent.
    pub fn request_packet(&self, host: &str, port: u16) -> (r: Option<Vec<u8>>)
        ensures
            match r {
                Some(p) => is_ipv4(host.spec_bytes()) && p@ == socks4_packet_spec(
                    ipv4_octets(host.spec_bytes()),
                    port,
                ),
                None => !is_ipv4(host.spec_bytes()),
            },
    {
        let o = match strutil::parse_ipv4_bytes(host.as_bytes()) {
            Some(o) => o,
            None => {
                return None;
            },
        };
        let mut p: Vec<u8> = Vec::new();
        p.push(4);
        p.push(1);
        p.push((port >> 8) as u8);
        p.push((port & 0xff) as u8);
        p.push(o.0);
        p.push(o.1);
        p.push(o.2);
        p.push(o.3);
        p.push(0);
        proof {
            assert(p@ =~= socks4_packet_spec(ipv4_octets(host.spec_bytes()), port));
        }
        Some(p)
    }

    /// Judges the eight-byte reply: the version byte must be zero and the
    /// status byte must grant the request.
    pub fn check_reply(&self, data: &[u8]) -> (r: Result<(), ErrorKind>)
        requires
            data@.len() >= 2,
        ensures
            r is Ok <==> (data@[0] == 0 && data@[1] == 90),
            r is Err ==> r->Err_0 == if data@[0] != 0 {
                ErrorKind::InvalidVersion
            } else {
                ErrorKind::RequestFailed
            },
    {
        if data[0] != 0 {
            Err(ErrorKind::InvalidVersion)
        } else if data[1] != 90 {
            Err(ErrorKind::RequestFailed)
        } else {
            Ok(())
        }
    }
}

/// The SOCKS5 greeting: version five, one method, no authentication.
pub open spec fn socks5_greeting_spec() -> Seq<u8> {
    seq![5u8, 1u8, 0u8]
}

/// The SOCKS5 connect request toward `octets:port`.
pub open spec fn socks5_connect_spec(o: (u8, u8, u8, u8), port: u16) -> Seq<u8> {
    seq![
        5u8,
        1u8,
        0u8,
        1u8,
        o.0,
        o.1,
        o.2,
        o.3,
        (port >> 8) as u8,
        (port & 0xff) as u8,
    ]
}

/// SOCKS5 negotiation, without authentication.
pub struct Socks5Negotiator {
    pub name: String,
    pub check_anon_lvl: bool,
    pub use_full_path: bool,
}

impl Default for Socks5Negotiator {
    fn default() -> (r: Socks5Negotiator)
        ensures
            r.name@ == "SOCKS5"@,
            !r.check_anon_lvl,
            !r.use_full_path,
    {
        Socks5Negotiator { name: "SOCKS5".to_owned(), check_anon_lvl: false, use_full_path: false }
    }
}

impl Socks5Negotiator {
    /// The opening greeting.
    pub fn greeting(&self) -> (r: Vec<u8>)
        ensures
            r@ == socks5_greeting_spec(),
    {
        let mut p: Vec<u8> = Vec::new();
        p.push(5);
        p.push(1);
        p.push(0);
        proof {
            assert(p@ =~= socks5_greeting_spec());
        }
        p
    }

    /// Judges the two-byte greeting reply: version five and the no-auth
    /// method must come back; a demand for authentication and any other
    /// answer are distinct failures.
    pub fn check_auth_reply(&self, data: &[u8]) -> (r: Result<(), ErrorKind>)
        requires
            data@.len() >= 2,
        ensures
            r is Ok <==> (data@[0] == 5 && data@[1] == 0),
            r is Err ==> r->Err_0 == if data@[0] != 5 {
                ErrorKind::InvalidVersion
            } else if data@[1] == 0xff {
                ErrorKind::AuthRequired
            } else {
                ErrorKind::InvalidData
            },
    {
        if data[0] != 5 {
            Err(ErrorKind::InvalidVersion)
        } else if data[1] == 0xff {
            Err(ErrorKind::AuthRequired)
        } else if data[1] != 0 {
            Err(ErrorKind::InvalidData)
        } else {
            Ok(())
        }
    }

    /// Builds the connect request; as with SOCKS4, only a literal IPv4
    /// host can be carried.
    pub fn connect_packet(&self, host: &str, port: u16) -> (r: Option<Vec<u8>>)
        ensures
            match r {
                Some(p) => is_ipv4(host.spec_bytes()) && p@ == socks5_connect_spec(
                    ipv4_octets(host.spec_bytes()),
                    port,
                ),
                None => !is_ipv4(host.spec_bytes()),
            },
    {
        let o = match strutil::parse_ipv4_bytes(host.as_bytes()) {
            Some(o) => o,
            None => {
                return None;
            },
        };
        let mut p: Vec<u8> = Vec::new();
        p.push(5);
        p.push(1);
        p.push(0);
        p.push(1);
        p.push(o.0);
        p.push(o.1);
        p.push(o.2);
        p.push(o.3);
        p.push((port >> 8) as u8);
        p.push((port & 0xff) as u8);
        proof {
            assert(p@ =~= socks5_connect_spec(ipv4_octets(host.spec_bytes()), port));
        }
        Some(p)
    }

    /// Judges the ten-byte connect reply: version five and a zero status.
    pub fn check_connect_reply(&self, data: &[u8]) -> (r: Result<(), ErrorKind>)
        requires
            data@.len() >= 2,
        ensures
            r is Ok <==> (data@[0] == 5 && data@[1] == 0),
            r is Err ==> r->Err_0 == ErrorKind::InvalidData,
    {
        if data[0] != 5 || data[1] != 0 {
            Err(ErrorKind::InvalidData)
        } else {
            Ok(())
        }
    }
}

} // verus!
