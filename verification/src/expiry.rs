//! The expiry calculator: reads a certificate's not-after instant out of a
//! PEM text and turns it into whole days left relative to a given, or the
//! current, time. Parsing X.509 itself is the certificate library's job;
//! everything from the parsed instant onward is computed and specified here.

use vstd::prelude::*;
use vstd::string::StringExecFns;
use crate::datetime::{days_between, date_seq, now_unix, stamp_parts_ok};

verus! {

/// The not-after instant of the X.509 certificate in a PEM text, as whole
/// days plus seconds relative to the Unix epoch, or `None` when the text is
/// not a well-formed PEM-encoded certificate. A function of the text alone.
pub uninterp spec fn not_after_delta(pem: Seq<char>) -> Option<(int, int)>;

/// The not-after instant as Unix seconds.
pub open spec fn not_after_unix(pem: Seq<char>) -> Option<int> {
    match not_after_delta(pem) {
        None => None,
        Some(p) => Some(86400 * p.0 + p.1),
    }
}

/// Relies on openssl's `X509::from_pem`, `X509Ref::not_after`,
/// `Asn1Time::from_unix` and `Asn1TimeRef::diff`: the certificate's
/// not-after instant measured from the Unix epoch, as the (days, seconds)
/// pair that `ASN1_TIME_diff` yields; `None` exactly when the text does not
/// parse as a PEM X.509 certificate.
#[verifier::external_body]
fn not_after_parts(pem: &str) -> (r: Option<(i32, i32)>)
    ensures
        r is Some <==> not_after_delta(pem@) is Some,
        r matches Some(p) ==> not_after_delta(pem@) == Some((p.0 as int, p.1 as int)),
{
    let x509 = openssl::x509::X509::from_pem(pem.as_bytes()).ok()?;
    let epoch = openssl::asn1::Asn1Time::from_unix(0).ok()?;
    let diff = epoch.diff(x509.not_after()).ok()?;
    Some((diff.days, diff.secs))
}

/// Days left at time `now`, rounded toward minus infinity.
pub open spec fn spec_days_left(pem: Seq<char>, now: int) -> Option<int> {
    match not_after_unix(pem) {
        None => None,
        Some(na) => Some((na - now) / 86400),
    }
}

/// Whole days from `now` until the certificate in `cert_pem` expires:
/// negative once expired, `None` when the text does not parse. Pure in the
/// pair (not-after, now).
pub fn days_left_at(cert_pem: &str, now: i64) -> (r: Option<i64>)
    requires
        -10_000_000_000_000 <= now <= 10_000_000_000_000,
    ensures
        r is Some <==> not_after_delta(cert_pem@) is Some,
        r matches Some(v) ==> Some(v as int) == spec_days_left(cert_pem@, now as int),
{
    match not_after_parts(cert_pem) {
        None => None,
        Some((days, secs)) => {
            let na: i64 = (days as i64) * 86400 + (secs as i64);
            Some(days_between(na, now))
        },
    }
}

/// Days left as of the current time; `None` when the text does not parse.
/// Callers that need the result pinned to a time of their choice use
/// `days_left_at`.
pub fn days_left_from_pem(cert_pem: &str) -> (r: Option<i64>)
    ensures
        r is Some <==> not_after_delta(cert_pem@) is Some,
{
    let now = now_unix();
    days_left_at(cert_pem, now)
}

/// The certificate's expiry date as `YYYY-MM-DD`; `None` when the text does
/// not parse or the instant lies outside the representable civil range.
pub fn not_after_date_str(cert_pem: &str) -> (r: Option<String>)
    ensures
        not_after_delta(cert_pem@) is None ==> r is None,
        r is Some ==> not_after_unix(cert_pem@) is Some,
        r matches Some(s) ==> exists|p: (int, int, int, int, int, int)|
            #[trigger] stamp_parts_ok(not_after_unix(cert_pem@)->0, p) && s@ == date_seq(
                (p.0, p.1, p.2),
            ),
{
    match not_after_parts(cert_pem) {
        None => None,
        Some((days, secs)) => {
            let na: i64 = (days as i64) * 86400 + (secs as i64);
            proof {
                assert(not_after_unix(cert_pem@) == Some(na as int));
            }
            if 0 <= na && na < 17_000_000_000_000 {
                let s = crate::datetime::date_str_at(na);
                proof {
                    let p = choose|p: (int, int, int, int, int, int)|
                        #[trigger] stamp_parts_ok(na as int, p) && s@ == date_seq((p.0, p.1, p.2));
                    assert(stamp_parts_ok(na as int, p) && s@ == date_seq((p.0, p.1, p.2)));
                    assert(not_after_unix(cert_pem@)->0 == na as int);
                    assert(stamp_parts_ok(not_after_unix(cert_pem@)->0, p) && s@ == date_seq(
                        (p.0, p.1, p.2),
                    ));
                }
                Some(s)
            } else {
                None
            }
        },
    }
}

/// The expiry date for a renewal-date response header: the certificate's
/// `YYYY-MM-DD` not-after date, or `-` when it cannot be determined.
pub fn renewal_date_header_from_pem(cert_pem: &str) -> (r: String)
    ensures
        not_after_delta(cert_pem@) is None ==> r@ == "-"@,
{
    match not_after_date_str(cert_pem) {
        Some(s) => s,
        None => String::from_str("-"),
    }
}

/// The renewal-date header value when no certificate text is at hand.
pub fn renewal_header_for_domain() -> (r: String)
    ensures
        r@ == "-"@,
{
    String::from_str("-")
}

} // verus!
