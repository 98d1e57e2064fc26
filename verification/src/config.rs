//! Immutable application configuration: the server endpoint, the configured
//! domains, ACME account settings, certificate store locations and the
//! renewal policy.

use vstd::prelude::*;
use vstd::string::StringExecFns;
use crate::digits::{dec_digits, u64_to_string};

verus! {

#[derive(Debug, Clone)]
pub struct ServerConfig {
    pub host: String,
    pub port: u16,
    pub log_level: String,
}

#[derive(Debug, Clone)]
pub struct DomainConfig {
    pub name: String,
    pub webroot: String,
    pub proxy: Option<String>,
}

#[derive(Debug, Clone)]
pub struct AcmeConfig {
    pub provider: String,
    pub email: String,
    pub staging: bool,
    pub account_key_path: Option<String>,
}

#[derive(Debug, Clone)]
pub struct CertificatesConfig {
    pub path: String,
    pub backup_path: String,
    pub renewal_threshold_days: i64,
}

#[derive(Debug, Clone)]
pub struct ProxyConfig {
    pub enabled: bool,
    pub timeout: Option<u64>,
    pub max_connections: Option<u32>,
    pub keepalive: Option<bool>,
}

#[derive(Debug, Clone)]
pub struct LoggingConfig {
    pub level: String,
    pub file: Option<String>,
    pub max_size: Option<String>,
    pub max_files: Option<u32>,
}

#[derive(Debug, Clone)]
pub struct AppConfig {
    pub server: ServerConfig,
    pub domains: Vec<DomainConfig>,
    pub acme: AcmeConfig,
    pub certificates: CertificatesConfig,
    pub proxy: ProxyConfig,
    pub logging: LoggingConfig,
}

/// An optional owned text, seen as an optional sequence.
pub open spec fn opt_view(b: Option<String>) -> Option<Seq<char>> {
    match b {
        None => None,
        Some(s) => Some(s@),
    }
}

/// The provider used when the configuration names none.
pub fn default_provider() -> (r: String)
    ensures
        r@ == "lets-encrypt"@,
{
    String::from_str("lets-encrypt")
}

/// The log level used when the configuration names none.
pub fn default_log_level() -> (r: String)
    ensures
        r@ == "info"@,
{
    String::from_str("info")
}

/// The index of the first configured domain whose name is `host`, if any.
pub open spec fn find_domain(domains: Seq<DomainConfig>, host: Seq<char>) -> Option<int> {
    if exists|i: int| 0 <= i < domains.len() && domains[i].name@ == host {
        Some(choose|i: int|
            0 <= i < domains.len() && domains[i].name@ == host && forall|j: int|
                0 <= j < i ==> domains[j].name@ != host)
    } else {
        None
    }
}

/// The first configured domain named `host`, if any; mirrors the first-match
/// lookup used throughout the manager.
pub fn lookup_domain<'a>(domains: &'a Vec<DomainConfig>, host: &str) -> (r: Option<
    &'a DomainConfig,
>)
    ensures
        r is Some <==> find_domain(domains@, host@) is Some,
        r matches Some(d) ==> {
            &&& find_domain(domains@, host@) matches Some(i)
            &&& d == domains@[find_domain(domains@, host@)->0]
            &&& d.name@ == host@
        },
{
    let ghost hseq = host@;
    let hs = String::from_str(host);
    let mut i: usize = 0;
    while i < domains.len()
        invariant
            0 <= i <= domains.len(),
            forall|j: int| 0 <= j < i ==> domains@[j].name@ != hseq,
            hseq == host@,
            hs@ == hseq,
        decreases domains.len() - i,
    {
        if domains[i].name == hs {
            proof {
                let w = i as int;
                assert(domains@[w].name@ == hseq && forall|j: int|
                    0 <= j < w ==> domains@[j].name@ != hseq);
                let c = find_domain(domains@, hseq)->0;
                assert(domains@[c].name@ == hseq && forall|j: int|
                    0 <= j < c ==> domains@[j].name@ != hseq);
                assert(c == w);
            }
            return Some(&domains[i]);
        }
        i = i + 1;
    }
    proof {
        assert(find_domain(domains@, hseq) is None);
    }
    None
}

impl AppConfig {
    /// The listening address, `host:port`.
    pub fn address(&self) -> (r: String)
        ensures
            r@ == self.server.host@ + seq![':'] + dec_digits(self.server.port as int),
    {
        let mut s = self.server.host.clone();
        s.append(":");
        let p = u64_to_string(self.server.port as u64);
        s.append(p.as_str());
        proof {
            reveal_strlit(":");
            assert(s@ =~= self.server.host@ + seq![':'] + dec_digits(self.server.port as int));
        }
        s
    }
}

} // verus!
