//! The renewal orchestrator: decides, for every configured domain
//! independently, whether an issuance run is due. A missing bundle, an
//! unreadable certificate, and a certificate under the policy threshold all
//! mean "renew"; one domain's state never influences another's decision.

use vstd::prelude::*;
use crate::config::{AppConfig, opt_view};
use crate::expiry::{days_left_at, spec_days_left};

verus! {

/// Whether a domain needs issuance at time `now`: it has no stored bundle,
/// its stored certificate does not parse, or fewer whole days than
/// `threshold` remain until its not-after instant.
pub open spec fn spec_needs_renewal(bundle: Option<Seq<char>>, now: int, threshold: int) -> bool {
    match bundle {
        None => true,
        Some(pem) => match spec_days_left(pem, now) {
            None => true,
            Some(d) => d < threshold,
        },
    }
}

/// The renewal decision for one domain at time `now`.
pub fn needs_renewal(bundle: &Option<String>, now: i64, threshold: i64) -> (r: bool)
    requires
        -10_000_000_000_000 <= now <= 10_000_000_000_000,
    ensures
        r == spec_needs_renewal(opt_view(*bundle), now as int, threshold as int),
{
    match bundle {
        None => true,
        Some(pem) => match days_left_at(pem.as_str(), now) {
            None => true,
            Some(d) => d < threshold,
        },
    }
}

/// One evaluation round over every configured domain: `bundles[i]` is the
/// stored fullchain of `cfg.domains[i]` (or `None`), and the result decides
/// issuance for exactly the domains that need it, one decision per domain.
pub fn evaluate_all(cfg: &AppConfig, bundles: &Vec<Option<String>>, now: i64) -> (r: Vec<bool>)
    requires
        bundles.len() == cfg.domains.len(),
        -10_000_000_000_000 <= now <= 10_000_000_000_000,
    ensures
        r.len() == cfg.domains.len(),
        forall|i: int|
            0 <= i < r.len() ==> r[i] == spec_needs_renewal(
                opt_view(bundles[i]),
                now as int,
                cfg.certificates.renewal_threshold_days as int,
            ),
{
    let mut r: Vec<bool> = Vec::new();
    let mut i: usize = 0;
    while i < bundles.len()
        invariant
            0 <= i <= bundles.len(),
            r.len() == i,
            -10_000_000_000_000 <= now <= 10_000_000_000_000,
            forall|j: int|
                0 <= j < i as int ==> r[j] == spec_needs_renewal(
                    opt_view(bundles[j]),
                    now as int,
                    cfg.certificates.renewal_threshold_days as int,
                ),
        decreases bundles.len() - i,
    {
        let d = needs_renewal(&bundles[i], now, cfg.certificates.renewal_threshold_days);
        r.push(d);
        i = i + 1;
    }
    r
}

/// A domain whose stored certificate parses and still has at least the
/// threshold's worth of days left is not sent to issuance by an evaluation
/// round.
pub proof fn lemma_no_renewal_when_fresh(bundle: Seq<char>, now: int, threshold: int)
    requires
        spec_days_left(bundle, now) is Some,
        spec_days_left(bundle, now)->0 >= threshold,
    ensures
        !spec_needs_renewal(Some(bundle), now, threshold),
{
}

/// A domain with no persisted bundle, an unreadable stored certificate, or
/// fewer days left than the threshold is sent to issuance by an evaluation
/// round.
pub proof fn lemma_renewal_when_needed(bundle: Option<Seq<char>>, now: int, threshold: int)
    requires
        ({
            ||| bundle is None
            ||| spec_days_left(bundle->0, now) is None
            ||| spec_days_left(bundle->0, now) matches Some(d) && d < threshold
        }),
    ensures
        spec_needs_renewal(bundle, now, threshold),
{
}

} // verus!
