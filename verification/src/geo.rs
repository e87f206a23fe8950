//! Location data attached to a proxy, with the sentinel values used when a
//! lookup yields nothing.

use vstd::prelude::*;

verus! {

/// Country, region and city of a proxy's address.  The database lookup that
/// fills this lives outside the crate; the sentinels below stand in when a
/// field is unknown.
#[derive(Clone, Debug)]
pub struct GeoData {
    pub iso_code: String,
    pub name: String,
    pub region_iso_code: String,
    pub region_name: String,
    pub city_name: String,
}

impl Default for GeoData {
    /// The sentinel values: a placeholder country code and unknown names.
    fn default() -> (r: GeoData)
        ensures
            r.iso_code@ == "--"@,
            r.name@ == "Unknown"@,
            r.region_iso_code@ == "Unknown"@,
            r.region_name@ == "Unknown"@,
            r.city_name@ == "Unknown"@,
    {
        GeoData {
            iso_code: "--".to_owned(),
            name: "Unknown".to_owned(),
            region_iso_code: "Unknown".to_owned(),
            region_name: "Unknown".to_owned(),
            city_name: "Unknown".to_owned(),
        }
    }
}

/// Builds the location record from the plain fields of a database lookup:
/// the country is preferred, the continent is the fallback, the first
/// subdivision gives the region, and every missing field keeps its sentinel.
pub fn geo_from_lookup(
    country_iso: Option<String>,
    country_name: Option<String>,
    continent_code: Option<String>,
    continent_name: Option<String>,
    region_iso: Option<String>,
    region_name: Option<String>,
    city_name: Option<String>,
) -> (r: GeoData)
    ensures
        r.iso_code@ == match (country_iso, continent_code) {
            (Some(c), _) => c@,
            (None, Some(c)) => c@,
            (None, None) => "--"@,
        },
        r.name@ == match (country_name, continent_name) {
            (Some(n), _) => n@,
            (None, Some(n)) => n@,
            (None, None) => "Unknown"@,
        },
        r.region_iso_code@ == match region_iso {
            Some(c) => c@,
            None => "Unknown"@,
        },
        r.region_name@ == match region_name {
            Some(n) => n@,
            None => "Unknown"@,
        },
        r.city_name@ == match city_name {
            Some(n) => n@,
            None => "Unknown"@,
        },
{
    let mut geo = GeoData::default();
    match (country_iso, continent_code) {
        (Some(c), _) => {
            geo.iso_code = c;
        },
        (None, Some(c)) => {
            geo.iso_code = c;
        },
        (None, None) => {},
    }
    match (country_name, continent_name) {
        (Some(n), _) => {
            geo.name = n;
        },
        (None, Some(n)) => {
            geo.name = n;
        },
        (None, None) => {},
    }
    if let Some(c) = region_iso {
        geo.region_iso_code = c;
    }
    if let Some(n) = region_name {
        geo.region_name = n;
    }
    if let Some(n) = city_name {
        geo.city_name = n;
    }
    geo
}

} // verus!
