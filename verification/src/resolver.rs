//! The resolver: address recognition, the process-wide name cache, and the
//! decisions around external-address discovery.  The lookups themselves
//! happen outside the crate; every answer flows back through here.

use vstd::prelude::*;

use crate::strutil::{self, is_ipv4, str_eq, trimmed};
use vstd::string::StringSliceAdditionalSpecFns;

verus! {

/// The resolver: the ordered external-address endpoints and the cache of
/// names already resolved.
pub struct Resolver {
    pub ext_ip_hosts: Vec<String>,
    pub cached_hosts: Vec<(String, String)>,
}

impl Resolver {
    /// A fresh resolver with the fixed endpoint list and an empty cache.
    pub fn new() -> (r: Resolver)
        ensures
            r.ext_ip_hosts@.len() == 6,
            r.cached_hosts@.len() == 0,
            r.ext_ip_hosts@[0]@ == "https://wtfismyip.com/text"@,
            r.ext_ip_hosts@[1]@ == "http://api.ipify.org/"@,
            r.ext_ip_hosts@[2]@ == "http://ipinfo.io/ip"@,
            r.ext_ip_hosts@[3]@ == "http://ipv4.icanhazip.com/"@,
            r.ext_ip_hosts@[4]@ == "http://myexternalip.com/raw"@,
            r.ext_ip_hosts@[5]@ == "http://ifconfig.io/ip"@,
    {
        let mut hosts: Vec<String> = Vec::new();
        hosts.push("https://wtfismyip.com/text".to_owned());
        hosts.push("http://api.ipify.org/".to_owned());
        hosts.push("http://ipinfo.io/ip".to_owned());
        hosts.push("http://ipv4.icanhazip.com/".to_owned());
        hosts.push("http://myexternalip.com/raw".to_owned());
        hosts.push("http://ifconfig.io/ip".to_owned());
        Resolver { ext_ip_hosts: hosts, cached_hosts: Vec::new() }
    }

    /// Whether a host is already an IPv4 literal.
    pub fn host_is_ip(&self, host: &str) -> (r: bool)
        ensures
            r == is_ipv4(host.spec_bytes()),
    {
        strutil::host_is_ipv4(host)
    }

    /// The cached address of a name, if one was recorded.
    pub open spec fn cached_spec(self, host: Seq<char>) -> Option<Seq<char>> {
        if exists|i: int|
            0 <= i < self.cached_hosts@.len() && (#[trigger] self.cached_hosts@[i]).0@ == host {
            Some(
                self.cached_hosts@[choose|i: int|
                    0 <= i < self.cached_hosts@.len() && (#[trigger] self.cached_hosts@[i]).0@
                        == host].1@,
            )
        } else {
            None
        }
    }

    /// The local part of name resolution: an address literal answers for
    /// itself, a cached name answers from the cache, and anything else
    /// needs a lookup outside, whose answer comes back through `record`.
    pub fn resolve(&self, host: &str) -> (r: Option<String>)
        ensures
            match r {
                Some(ip) => is_ipv4(host.spec_bytes()) && ip@ == host@ || exists|i: int|
                    0 <= i < self.cached_hosts@.len() && (#[trigger] self.cached_hosts@[i]).0@
                        == host@ && self.cached_hosts@[i].1@ == ip@,
                None => !is_ipv4(host.spec_bytes()) && (forall|i: int|
                    0 <= i < self.cached_hosts@.len() ==> (#[trigger] self.cached_hosts@[i]).0@
                        != host@),
            },
    {
        if strutil::host_is_ipv4(host) {
            return Some(host.to_owned());
        }
        let mut i: usize = 0;
        while i < self.cached_hosts.len()
            invariant
                i <= self.cached_hosts@.len(),
                forall|k: int| 0 <= k < i ==> (#[trigger] self.cached_hosts@[k]).0@ != host@,
            decreases self.cached_hosts@.len() - i,
        {
            if str_eq(self.cached_hosts[i].0.as_str(), host) {
                return Some(crate::queue::clone_string(&self.cached_hosts[i].1));
            }
            i = i + 1;
        }
        None
    }

    /// Records the outside lookup's answer for a name.  The cache only
    /// grows.
    pub fn record(&mut self, host: String, ip: String)
        ensures
            final(self).cached_hosts@ == old(self).cached_hosts@.push((host, ip)),
            final(self).ext_ip_hosts == old(self).ext_ip_hosts,
    {
        self.cached_hosts.push((host, ip));
    }
}

/// Judges one endpoint's answer during external-address discovery: the
/// trimmed body is the machine's address exactly when it is an IPv4
/// literal; anything else sends the caller to the next endpoint.
pub fn ext_ip_candidate(body: &[u8]) -> (r: Option<Vec<u8>>)
    ensures
        match r {
            Some(v) => v@ == trimmed(body@) && is_ipv4(v@),
            None => !is_ipv4(trimmed(body@)),
        },
{
    let t = strutil::trim_bytes(body);
    if strutil::parse_ipv4_bytes(t.as_slice()).is_some() {
        Some(t)
    } else {
        None
    }
}

} // verus!
