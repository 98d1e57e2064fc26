//! Plain data for the administrative endpoints. The HTTP layer turns these
//! into responses; the fields and their assembly are decided here.

use vstd::prelude::*;
use vstd::string::StringExecFns;
use crate::config::AppConfig;
use crate::digits::{i64_to_string, int_digits};

verus! {

/// The body of the version endpoint.
#[derive(Debug, Clone)]
pub struct VersionResponse {
    pub version: &'static str,
}

/// The body of a manual issuance request.
#[derive(Debug, Clone)]
pub struct IssueRequest {
    pub domain: String,
}

/// One row of the domain listing: the configuration joined with the days
/// left on the stored certificate, if one is stored and readable.
#[derive(Debug, Clone)]
pub struct DomainStatus {
    pub name: String,
    pub webroot: String,
    pub proxy: Option<String>,
    pub days_left: Option<i64>,
}

/// The domain listing: one row per configured domain, in configuration
/// order, carrying the days left that were computed for it.
pub fn domain_statuses(cfg: &AppConfig, days: &Vec<Option<i64>>) -> (r: Vec<DomainStatus>)
    requires
        days.len() == cfg.domains.len(),
    ensures
        r.len() == cfg.domains.len(),
        forall|i: int|
            0 <= i < r.len() ==> {
                &&& (#[trigger] r[i]).name == cfg.domains[i].name
                &&& r[i].webroot == cfg.domains[i].webroot
                &&& r[i].proxy == cfg.domains[i].proxy
                &&& r[i].days_left == days[i]
            },
{
    let mut r: Vec<DomainStatus> = Vec::new();
    let mut i: usize = 0;
    while i < cfg.domains.len()
        invariant
            0 <= i <= cfg.domains.len(),
            days.len() == cfg.domains.len(),
            r.len() == i,
            forall|j: int|
                0 <= j < i as int ==> {
                    &&& (#[trigger] r[j]).name == cfg.domains[j].name
                    &&& r[j].webroot == cfg.domains[j].webroot
                    &&& r[j].proxy == cfg.domains[j].proxy
                    &&& r[j].days_left == days[j]
                },
        decreases cfg.domains.len() - i,
    {
        let d = &cfg.domains[i];
        let proxy = match &d.proxy {
            None => None,
            Some(p) => Some(p.clone()),
        };
        r.push(
            DomainStatus {
                name: d.name.clone(),
                webroot: d.webroot.clone(),
                proxy,
                days_left: days[i],
            },
        );
        i = i + 1;
    }
    r
}

/// One gauge line of the metrics body.
pub open spec fn metrics_line(name: Seq<char>, days: int) -> Seq<char> {
    "rust_certbot_days_left{domain=\""@ + name + "\"} "@ + int_digits(days) + "\n"@
}

/// The gauge lines for the first `n` domains, in order; a domain without a
/// readable certificate contributes none.
pub open spec fn metrics_upto(
    names: Seq<Seq<char>>,
    days: Seq<Option<i64>>,
    n: int,
) -> Seq<char>
    decreases n,
{
    if n <= 0 {
        Seq::empty()
    } else {
        metrics_upto(names, days, n - 1) + (match days[n - 1] {
            Some(d) => metrics_line(names[n - 1], d as int),
            None => Seq::empty(),
        })
    }
}

/// The text-format metrics body: a liveness gauge, then one days-left gauge
/// per domain whose stored certificate was readable.
pub fn metrics_body(cfg: &AppConfig, days: &Vec<Option<i64>>) -> (r: String)
    requires
        days.len() == cfg.domains.len(),
    ensures
        r@ == "rust_certbot_up 1\n"@ + metrics_upto(
            cfg.domains@.map_values(|d: crate::config::DomainConfig| d.name@),
            days@,
            cfg.domains@.len() as int,
        ),
{
    let ghost names = cfg.domains@.map_values(|d: crate::config::DomainConfig| d.name@);
    let mut r = String::from_str("rust_certbot_up 1\n");
    let mut i: usize = 0;
    while i < cfg.domains.len()
        invariant
            0 <= i <= cfg.domains.len(),
            days.len() == cfg.domains.len(),
            names == cfg.domains@.map_values(|d: crate::config::DomainConfig| d.name@),
            r@ == "rust_certbot_up 1\n"@ + metrics_upto(names, days@, i as int),
        decreases cfg.domains.len() - i,
    {
        match days[i] {
            None => {
                proof {
                    assert(metrics_upto(names, days@, i as int + 1) =~= metrics_upto(
                        names,
                        days@,
                        i as int,
                    ));
                }
            },
            Some(d) => {
                r.append("rust_certbot_days_left{domain=\"");
                r.append(cfg.domains[i].name.as_str());
                r.append("\"} ");
                r.append(i64_to_string(d).as_str());
                r.append("\n");
                proof {
                    assert(names[i as int] == cfg.domains@[i as int].name@);
                    assert(r@ =~= "rust_certbot_up 1\n"@ + metrics_upto(
                        names,
                        days@,
                        i as int + 1,
                    ));
                }
            },
        }
        i = i + 1;
    }
    r
}

} // verus!
