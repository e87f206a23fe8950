//! The shape of one proxy in structured output, as plain data.  Turning it
//! into an output format happens outside the crate.

use vstd::prelude::*;

use crate::geo::GeoData;
use crate::pool::SimpleProxy;
use crate::proto::Anonymity;
use crate::proxy::Ratio;

verus! {

/// A country in structured output.
#[derive(Clone, Debug)]
pub struct Country {
    pub code: String,
    pub name: String,
}

/// A region in structured output.
#[derive(Clone, Debug)]
pub struct Region {
    pub code: String,
    pub name: String,
}

/// The location block of structured output.
#[derive(Clone, Debug)]
pub struct Geo {
    pub country: Country,
    pub region: Region,
    pub city: String,
}

/// One confirmed type in structured output: the protocol's name and its
/// level, where one was classified.
#[derive(Clone, Debug)]
pub struct ProxyType {
    pub proxy_type: String,
    pub level: Option<Anonymity>,
}

/// One proxy in structured output, with its statistics as exact fractions.
#[derive(Clone, Debug)]
pub struct ProxyData {
    pub host: String,
    pub port: u16,
    pub geo: Geo,
    pub types: Vec<ProxyType>,
    pub avg_resp_time: Ratio,
    pub error_rate: Ratio,
}

/// Builds the structured record of a pool entry.
pub fn proxy_data_of(p: &SimpleProxy) -> (r: ProxyData)
    requires
        p.wf(),
    ensures
        r.host@ == p.host@,
        r.port == p.port,
        r.types@.len() == p.types@.len(),
        forall|i: int|
            0 <= i < p.types@.len() ==> (#[trigger] r.types@[i]).proxy_type@
                == p.types@[i].protocol.name_spec() && r.types@[i].level == p.types@[i].level,
        r.error_rate == p.error_rate_spec(),
        r.avg_resp_time == p.avg_resp_time_spec(),
        r.geo.country.code@ == p.geo.iso_code@,
        r.geo.country.name@ == p.geo.name@,
        r.geo.region.code@ == p.geo.region_iso_code@,
        r.geo.region.name@ == p.geo.region_name@,
        r.geo.city@ == p.geo.city_name@,
{
    let geo = geo_of(&p.geo);
    let mut types: Vec<ProxyType> = Vec::new();
    let mut i: usize = 0;
    while i < p.types.len()
        invariant
            i <= p.types@.len(),
            types@.len() == i,
            forall|k: int|
                0 <= k < i ==> (#[trigger] types@[k]).proxy_type@
                    == p.types@[k].protocol.name_spec() && types@[k].level == p.types@[k].level,
        decreases p.types@.len() - i,
    {
        let name = p.types[i].protocol.name();
        types.push(ProxyType { proxy_type: name.to_owned(), level: p.types[i].level });
        i = i + 1;
    }
    ProxyData {
        host: crate::queue::clone_string(&p.host),
        port: p.port,
        geo,
        types,
        avg_resp_time: p.avg_resp_time(),
        error_rate: p.error_rate(),
    }
}

/// Builds the location block of a record.
fn geo_of(g: &GeoData) -> (r: Geo)
    ensures
        r.country.code@ == g.iso_code@,
        r.country.name@ == g.name@,
        r.region.code@ == g.region_iso_code@,
        r.region.name@ == g.region_name@,
        r.city@ == g.city_name@,
{
    Geo {
        country: Country {
            code: crate::queue::clone_string(&g.iso_code),
            name: crate::queue::clone_string(&g.name),
        },
        region: Region {
            code: crate::queue::clone_string(&g.region_iso_code),
            name: crate::queue::clone_string(&g.region_name),
        },
        city: crate::queue::clone_string(&g.city_name),
    }
}

} // verus!
