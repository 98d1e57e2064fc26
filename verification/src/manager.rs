//! The manager's entry points around one issuance run: admission of a
//! manual trigger (which enforces the per-domain exclusion), and the path
//! the HTTP front end serves a challenge proof from.

use vstd::prelude::*;
use vstd::string::StringExecFns;
use crate::config::{AppConfig, find_domain, lookup_domain};
use crate::issuance::challenge_dir;
use crate::locks::DomainLocks;
use crate::store::{joined, path_join};

verus! {

/// Why a manual trigger was refused without starting a run.
#[derive(Debug, Clone, Copy, PartialEq, Eq, Structural)]
pub enum TriggerError {
    /// The named domain is not configured.
    UnknownDomain,
    /// An issuance run for the domain is already in flight.
    Busy,
}

/// Admits or refuses a manual issuance trigger for `name`. On admission the
/// domain's lock is acquired, so a trigger racing a scheduled renewal of
/// the same domain is refused with `Busy` instead of starting a second
/// order; the caller releases the lock when its run ends.
pub fn trigger_admit(cfg: &AppConfig, locks: &mut DomainLocks, name: &str) -> (r: Result<
    (),
    TriggerError,
>)
    requires
        old(locks).wf(),
    ensures
        final(locks).wf(),
        find_domain(cfg.domains@, name@) is None ==> r == Err::<(), TriggerError>(
            TriggerError::UnknownDomain,
        ) && *final(locks) == *old(locks),
        find_domain(cfg.domains@, name@) is Some && old(locks).held().contains(name@) ==> r
            == Err::<(), TriggerError>(TriggerError::Busy) && *final(locks) == *old(locks),
        find_domain(cfg.domains@, name@) is Some && !old(locks).held().contains(name@) ==> r
            == Ok::<(), TriggerError>(()) && final(locks).held() == old(locks).held().insert(
            name@,
        ),
{
    match lookup_domain(&cfg.domains, name) {
        None => Err(TriggerError::UnknownDomain),
        Some(_) => {
            if locks.try_acquire(name) {
                Ok(())
            } else {
                Err(TriggerError::Busy)
            }
        },
    }
}

/// The file the front end serves for an incoming challenge request: the
/// proof path under the webroot of the domain the Host header names, or
/// under the first configured domain's webroot, or under `./web` when no
/// domain is configured.
pub fn challenge_file_path_for(cfg: &AppConfig, host: Option<&str>, token: &str) -> (r: String)
    ensures
        ({
            let wr: Seq<char> = if host matches Some(h) && find_domain(cfg.domains@, h@) is Some {
                cfg.domains@[find_domain(cfg.domains@, host->0@)->0].webroot@
            } else if cfg.domains@.len() > 0 {
                cfg.domains@[0].webroot@
            } else {
                "./web"@
            };
            r@ == joined(challenge_dir(wr), token@)
        }),
{
    let webroot: &str = match host {
        Some(h) => match lookup_domain(&cfg.domains, h) {
            Some(d) => d.webroot.as_str(),
            None => {
                if cfg.domains.len() > 0 {
                    cfg.domains[0].webroot.as_str()
                } else {
                    "./web"
                }
            },
        },
        None => {
            if cfg.domains.len() > 0 {
                cfg.domains[0].webroot.as_str()
            } else {
                "./web"
            }
        },
    };
    let wk = path_join(webroot, ".well-known");
    let dir = path_join(wk.as_str(), "acme-challenge");
    path_join(dir.as_str(), token)
}

} // verus!
