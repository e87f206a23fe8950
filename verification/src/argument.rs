//! The broker's configuration as plain data: the three modes with their
//! settings, and the validation of the protocol, level and format names the
//! command line accepts.  Reading the actual command line happens outside.

use vstd::prelude::*;

use crate::proto::{Anonymity, Protocol};
use crate::strutil::str_eq;

verus! {

/// How found proxies are presented.
#[derive(Clone, Copy, Debug, PartialEq, Eq, Structural)]
pub enum OutputFormat {
    Plain,
    Text,
    Json,
}

impl OutputFormat {
    /// Parses a format name; `Some` exactly on the three allowed names.
    pub fn from_name(s: &str) -> (r: Option<OutputFormat>)
        ensures
            match r {
                Some(OutputFormat::Plain) => s@ == "default"@,
                Some(OutputFormat::Text) => s@ == "text"@,
                Some(OutputFormat::Json) => s@ == "json"@,
                None => s@ != "default"@ && s@ != "text"@ && s@ != "json"@,
            },
    {
        if str_eq(s, "default") {
            Some(OutputFormat::Plain)
        } else if str_eq(s, "text") {
            Some(OutputFormat::Text)
        } else if str_eq(s, "json") {
            Some(OutputFormat::Json)
        } else {
            None
        }
    }
}

/// Parses an anonymity-level name; `Some` exactly on the three allowed
/// names.
pub fn level_from_name(s: &str) -> (r: Option<Anonymity>)
    ensures
        match r {
            Some(Anonymity::Transparent) => s@ == "Transparent"@,
            Some(Anonymity::Anonymous) => s@ == "Anonymous"@,
            Some(Anonymity::High) => s@ == "High"@,
            None => s@ != "Transparent"@ && s@ != "Anonymous"@ && s@ != "High"@,
        },
{
    if str_eq(s, "Transparent") {
        Some(Anonymity::Transparent)
    } else if str_eq(s, "Anonymous") {
        Some(Anonymity::Anonymous)
    } else if str_eq(s, "High") {
        Some(Anonymity::High)
    } else {
        None
    }
}

/// Parses a list of protocol names; `Some` exactly when every name is one
/// of the six allowed, in order.
pub fn parse_protocol_names(names: &Vec<String>) -> (r: Option<Vec<Protocol>>)
    ensures
        match r {
            Some(ps) => ps@.len() == names@.len() && forall|i: int|
                0 <= i < ps@.len() ==> (#[trigger] ps@[i]).name_spec() == names@[i]@,
            None => exists|i: int|
                0 <= i < names@.len() && forall|p: Protocol| (#[trigger] names@[i])@
                    != p.name_spec(),
        },
{
    let mut r: Vec<Protocol> = Vec::new();
    let mut i: usize = 0;
    while i < names.len()
        invariant
            i <= names@.len(),
            r@.len() == i,
            forall|k: int| 0 <= k < i ==> (#[trigger] r@[k]).name_spec() == names@[k]@,
        decreases names@.len() - i,
    {
        match Protocol::from_name(names[i].as_str()) {
            Some(p) => {
                r.push(p);
            },
            None => {
                return None;
            },
        }
        i = i + 1;
    }
    Some(r)
}

/// The settings the grab mode runs with: no checking, only discovery.
#[derive(Clone, Debug)]
pub struct GrabArgs {
    pub countries: Vec<String>,
    pub limit: usize,
    pub format: OutputFormat,
    pub outfile: Option<String>,
}

/// The settings the find mode runs with: discovery plus validation.
#[derive(Clone, Debug)]
pub struct FindArgs {
    pub types: Vec<Protocol>,
    pub files: Vec<String>,
    pub levels: Vec<Anonymity>,
    pub max_tries: u32,
    pub support_cookies: bool,
    pub support_referer: bool,
    pub countries: Vec<String>,
    pub limit: usize,
    pub format: OutputFormat,
    pub outfile: Option<String>,
}

/// The settings the serve mode runs with: validation plus the gateway.
#[derive(Clone, Debug)]
pub struct ServeArgs {
    pub host: String,
    pub port: u16,
    pub types: Vec<Protocol>,
    pub files: Vec<String>,
    pub levels: Vec<Anonymity>,
    pub max_tries: u32,
    pub countries: Vec<String>,
}

/// The mode the broker runs in.
#[derive(Clone, Debug)]
pub enum Commands {
    Grab(GrabArgs),
    Find(FindArgs),
    Serve(ServeArgs),
}

/// The whole configuration.
#[derive(Clone, Debug)]
pub struct Cli {
    pub max_conn: usize,
    pub timeout_secs: u32,
    pub log_level: String,
    pub skip_version_check: bool,
    pub sub: Commands,
}

} // verus!
