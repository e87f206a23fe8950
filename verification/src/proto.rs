//! Transport protocols a proxy can speak, the client-facing schemes they can
//! serve, and the anonymity levels assigned to working HTTP proxies.

use vstd::prelude::*;

verus! {

/// A transport protocol that the checker can validate.
#[derive(Clone, Copy, Debug, PartialEq, Eq, Structural)]
pub enum Protocol {
    Http,
    Https,
    Socks4,
    Socks5,
    Connect80,
    Connect25,
}

/// The client-facing scheme a validated proxy can serve.
#[derive(Clone, Copy, Debug, PartialEq, Eq, Structural)]
pub enum Scheme {
    Http,
    Https,
    Smtp,
}

/// How much a working HTTP proxy reveals about its client.
#[derive(Clone, Copy, Debug, PartialEq, Eq, Structural)]
pub enum Anonymity {
    Transparent,
    Anonymous,
    High,
}

impl Protocol {
    /// The scheme of the judge that this protocol is validated against.
    pub open spec fn judge_scheme_spec(self) -> Scheme {
        match self {
            Protocol::Https => Scheme::Https,
            Protocol::Connect25 => Scheme::Smtp,
            _ => Scheme::Http,
        }
    }

    /// Maps a protocol to the scheme of the judge used to validate it:
    /// HTTPS needs an HTTPS judge, CONNECT to port 25 an SMTP judge, and
    /// everything else a plain HTTP judge.
    pub fn judge_scheme(self) -> (r: Scheme)
        ensures
            r == self.judge_scheme_spec(),
    {
        match self {
            Protocol::Https => Scheme::Https,
            Protocol::Connect25 => Scheme::Smtp,
            _ => Scheme::Http,
        }
    }

    /// The protocol's name on the command line and in output.
    pub fn name(self) -> (r: &'static str)
        ensures
            r@ == self.name_spec(),
    {
        match self {
            Protocol::Http => "HTTP",
            Protocol::Https => "HTTPS",
            Protocol::Socks4 => "SOCKS4",
            Protocol::Socks5 => "SOCKS5",
            Protocol::Connect80 => "CONNECT:80",
            Protocol::Connect25 => "CONNECT:25",
        }
    }

    /// The protocol's name, as a character sequence.
    pub open spec fn name_spec(self) -> Seq<char> {
        match self {
            Protocol::Http => "HTTP"@,
            Protocol::Https => "HTTPS"@,
            Protocol::Socks4 => "SOCKS4"@,
            Protocol::Socks5 => "SOCKS5"@,
            Protocol::Connect80 => "CONNECT:80"@,
            Protocol::Connect25 => "CONNECT:25"@,
        }
    }

    /// Parses a protocol name; `Some` exactly on the six allowed names.
    pub fn from_name(s: &str) -> (r: Option<Protocol>)
        ensures
            match r {
                Some(p) => s@ == p.name_spec(),
                None => forall|p: Protocol| s@ != #[trigger] p.name_spec(),
            },
    {
        if crate::strutil::str_eq(s, "HTTP") {
            Some(Protocol::Http)
        } else if crate::strutil::str_eq(s, "HTTPS") {
            Some(Protocol::Https)
        } else if crate::strutil::str_eq(s, "SOCKS4") {
            Some(Protocol::Socks4)
        } else if crate::strutil::str_eq(s, "SOCKS5") {
            Some(Protocol::Socks5)
        } else if crate::strutil::str_eq(s, "CONNECT:80") {
            Some(Protocol::Connect80)
        } else if crate::strutil::str_eq(s, "CONNECT:25") {
            Some(Protocol::Connect25)
        } else {
            assert forall|p: Protocol| s@ != #[trigger] p.name_spec() by {
                match p {
                    Protocol::Http => {},
                    Protocol::Https => {},
                    Protocol::Socks4 => {},
                    Protocol::Socks5 => {},
                    Protocol::Connect80 => {},
                    Protocol::Connect25 => {},
                }
            }
            None
        }
    }
}

/// Confirmed support for a protocol, with the anonymity level where the
/// check classified one (HTTP only).
#[derive(Clone, Copy, Debug, PartialEq, Eq, Structural)]
pub struct ConfirmedType {
    pub protocol: Protocol,
    pub level: Option<Anonymity>,
}

/// Protocols whose support lets a proxy serve cleartext HTTP clients.
pub open spec fn serves_http(p: Protocol) -> bool {
    p == Protocol::Http || p == Protocol::Connect80 || p == Protocol::Socks4 || p
        == Protocol::Socks5
}

/// Protocols whose support lets a proxy serve CONNECT (HTTPS) clients.
pub open spec fn serves_https(p: Protocol) -> bool {
    p == Protocol::Https || p == Protocol::Socks4 || p == Protocol::Socks5
}

/// The schemes derived from a list of confirmed types, in the order the
/// derivation visits them: walking the types, HTTP is added on the first
/// HTTP-capable entry and HTTPS on the first HTTPS-capable one.
pub open spec fn schemes_of(types: Seq<ConfirmedType>) -> Seq<Scheme>
    decreases types.len(),
{
    if types.len() == 0 {
        Seq::empty()
    } else {
        let prefix = schemes_of(types.drop_last());
        let p = types.last().protocol;
        let with_http = if serves_http(p) && !prefix.contains(Scheme::Http) {
            prefix.push(Scheme::Http)
        } else {
            prefix
        };
        if serves_https(p) && !with_http.contains(Scheme::Https) {
            with_http.push(Scheme::Https)
        } else {
            with_http
        }
    }
}

/// Schemes as a set: all that matters for serving is membership.
pub open spec fn scheme_set_of(protos: Set<Protocol>) -> Set<Scheme> {
    Set::new(
        |s: Scheme| {
            ||| s == Scheme::Http && exists|p: Protocol| protos.contains(p) && serves_http(p)
            ||| s == Scheme::Https && exists|p: Protocol| protos.contains(p) && serves_https(p)
        },
    )
}

/// The set of protocols named in a type list.
pub open spec fn protocols_in(types: Seq<ConfirmedType>) -> Set<Protocol> {
    Set::new(|p: Protocol| exists|i: int| 0 <= i < types.len() && types[i].protocol == p)
}

/// Whether some entry of a type list serves cleartext HTTP.
pub open spec fn some_serves_http(types: Seq<ConfirmedType>) -> bool {
    exists|i: int| 0 <= i < types.len() && serves_http(#[trigger] types[i].protocol)
}

/// Whether some entry of a type list serves CONNECT clients.
pub open spec fn some_serves_https(types: Seq<ConfirmedType>) -> bool {
    exists|i: int| 0 <= i < types.len() && serves_https(#[trigger] types[i].protocol)
}

/// Membership in the derived scheme list is decided by which protocols
/// occur, and nothing else: HTTP is derived exactly when some confirmed
/// protocol serves cleartext clients, HTTPS exactly when some confirmed
/// protocol serves CONNECT clients, and no other scheme is ever derived.
pub proof fn lemma_schemes_of_members(types: Seq<ConfirmedType>)
    ensures
        schemes_of(types).contains(Scheme::Http) <==> some_serves_http(types),
        schemes_of(types).contains(Scheme::Https) <==> some_serves_https(types),
        !schemes_of(types).contains(Scheme::Smtp),
    decreases types.len(),
{
    if types.len() > 0 {
        let prefix = types.drop_last();
        lemma_schemes_of_members(prefix);
        let p = types.last().protocol;
        let pre = schemes_of(prefix);
        let with_http = if serves_http(p) && !pre.contains(Scheme::Http) {
            pre.push(Scheme::Http)
        } else {
            pre
        };
        let ss = schemes_of(types);
        assert forall|s: Scheme| pre.contains(s) implies ss.contains(s) by {
            let i = choose|i: int| 0 <= i < pre.len() && pre[i] == s;
            assert(ss[i] == s);
        }
        assert forall|s: Scheme| ss.contains(s) implies pre.contains(s) || (s == Scheme::Http
            && serves_http(p)) || (s == Scheme::Https && serves_https(p)) by {
            let i = choose|i: int| 0 <= i < ss.len() && ss[i] == s;
            if i < pre.len() {
                assert(pre.contains(s));
            } else if i < with_http.len() {
                assert(s == with_http[i]);
            }
        }
        if serves_http(p) && !pre.contains(Scheme::Http) {
            assert(ss.contains(Scheme::Http)) by {
                assert(ss[pre.len() as int] == Scheme::Http);
            }
        }
        if serves_https(p) && !with_http.contains(Scheme::Https) {
            assert(ss.contains(Scheme::Https)) by {
                assert(ss[ss.len() - 1] == Scheme::Https);
            }
        }
        assert forall|i: int| 0 <= i < prefix.len() implies types[i] == prefix[i] by {}
        if some_serves_http(types) {
            let i = choose|i: int| 0 <= i < types.len() && serves_http(types[i].protocol);
            if i < types.len() - 1 {
                assert(serves_http(prefix[i].protocol));
                assert(some_serves_http(prefix));
            }
        }
        if some_serves_http(prefix) {
            let i = choose|i: int| 0 <= i < prefix.len() && serves_http(prefix[i].protocol);
            assert(serves_http(types[i].protocol));
        }
        if serves_http(p) {
            assert(serves_http(types[types.len() - 1].protocol));
        }
        if some_serves_https(types) {
            let i = choose|i: int| 0 <= i < types.len() && serves_https(types[i].protocol);
            if i < types.len() - 1 {
                assert(serves_https(prefix[i].protocol));
                assert(some_serves_https(prefix));
            }
        }
        if some_serves_https(prefix) {
            let i = choose|i: int| 0 <= i < prefix.len() && serves_https(prefix[i].protocol);
            assert(serves_https(types[i].protocol));
        }
        if serves_https(p) {
            assert(serves_https(types[types.len() - 1].protocol));
        }
    }
}

/// The derived schemes depend only on the set of protocols in the type
/// list: two type lists naming the same protocols derive scheme lists with
/// the same members.
pub proof fn lemma_schemes_set_only(t1: Seq<ConfirmedType>, t2: Seq<ConfirmedType>)
    requires
        protocols_in(t1) == protocols_in(t2),
    ensures
        schemes_of(t1).to_set() == schemes_of(t2).to_set(),
{
    lemma_schemes_of_members(t1);
    lemma_schemes_of_members(t2);
    assert(some_serves_http(t1) == some_serves_http(t2)) by {
        lemma_some_serves_from_set(t1, t2);
        lemma_some_serves_from_set(t2, t1);
    }
    assert(some_serves_https(t1) == some_serves_https(t2)) by {
        lemma_some_serves_from_set(t1, t2);
        lemma_some_serves_from_set(t2, t1);
    }
    assert forall|s: Scheme|
        schemes_of(t1).to_set().contains(s) == schemes_of(t2).to_set().contains(s) by {
        match s {
            Scheme::Http => {},
            Scheme::Https => {},
            Scheme::Smtp => {},
        }
    }
    assert(schemes_of(t1).to_set() =~= schemes_of(t2).to_set());
}

proof fn lemma_some_serves_from_set(t1: Seq<ConfirmedType>, t2: Seq<ConfirmedType>)
    requires
        protocols_in(t1) == protocols_in(t2),
    ensures
        some_serves_http(t1) ==> some_serves_http(t2),
        some_serves_https(t1) ==> some_serves_https(t2),
{
    if some_serves_http(t1) {
        let i = choose|i: int| 0 <= i < t1.len() && serves_http(t1[i].protocol);
        let p = t1[i].protocol;
        assert(protocols_in(t1).contains(p));
        let j = choose|j: int| 0 <= j < t2.len() && t2[j].protocol == p;
        assert(serves_http(t2[j].protocol));
    }
    if some_serves_https(t1) {
        let i = choose|i: int| 0 <= i < t1.len() && serves_https(t1[i].protocol);
        let p = t1[i].protocol;
        assert(protocols_in(t1).contains(p));
        let j = choose|j: int| 0 <= j < t2.len() && t2[j].protocol == p;
        assert(serves_https(t2[j].protocol));
    }
}

} // verus!
