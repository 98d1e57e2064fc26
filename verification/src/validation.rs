//! Configuration validation: domain names must be fully-qualified host
//! names (dot-separated alphanumeric-and-hyphen labels under an alphabetic
//! top-level label), webroots must exist, and a proxy target must be an
//! absolute `http` or `https` URL.

use vstd::prelude::*;
use vstd::string::StringExecFns;
use vstd::string::StrSliceExecFns;
use crate::config::{AppConfig, DomainConfig, opt_view};

verus! {

pub open spec fn is_alpha(c: char) -> bool {
    (97 <= c as u32 && c as u32 <= 122) || (65 <= c as u32 && c as u32 <= 90)
}

pub open spec fn is_digit_char(c: char) -> bool {
    48 <= c as u32 && c as u32 <= 57
}

pub open spec fn is_alnum(c: char) -> bool {
    is_alpha(c) || is_digit_char(c)
}

/// A character allowed inside a host-name label.
pub open spec fn is_label_char(c: char) -> bool {
    is_alnum(c) || c == '-'
}

/// A host-name label: one to sixty-three label characters, starting and
/// ending alphanumeric.
pub open spec fn valid_label(s: Seq<char>) -> bool {
    &&& 1 <= s.len() <= 63
    &&& is_alnum(s[0])
    &&& is_alnum(s[s.len() - 1])
    &&& forall|i: int| 0 <= i < s.len() ==> is_label_char(#[trigger] s[i])
}

/// A top-level label: at least two characters, all alphabetic.
pub open spec fn valid_tld(s: Seq<char>) -> bool {
    s.len() >= 2 && forall|i: int| 0 <= i < s.len() ==> is_alpha(#[trigger] s[i])
}

/// A top-level label, or a label, a dot, and such a tail again.
pub open spec fn valid_dotted_tail(s: Seq<char>) -> bool
    decreases s.len(),
{
    ||| valid_tld(s)
    ||| exists|i: int|
        #![trigger s.subrange(0, i)]
        {
            &&& 1 <= i < s.len()
            &&& s[i] == '.'
            &&& valid_label(s.subrange(0, i))
            &&& valid_dotted_tail(s.subrange(i + 1, s.len() as int))
        }
}

/// A fully-qualified host name: at least one dot-terminated label before a
/// dotted tail that ends in an alphabetic top-level label.
pub open spec fn valid_fqdn(s: Seq<char>) -> bool {
    exists|i: int|
        #![trigger s.subrange(0, i)]
        {
            &&& 1 <= i < s.len()
            &&& s[i] == '.'
            &&& valid_label(s.subrange(0, i))
            &&& valid_dotted_tail(s.subrange(i + 1, s.len() as int))
        }
}

/// In a dot-split of a name, the label before the first dot is forced: any
/// witness split must sit exactly at the first dot.
proof fn lemma_split_is_first_dot(t: Seq<char>, d: int)
    requires
        0 <= d < t.len(),
        t[d] == '.',
        forall|j: int| 0 <= j < d ==> t[j] != '.',
    ensures
        (exists|i: int|
            #![trigger t.subrange(0, i)]
            {
                &&& 1 <= i < t.len()
                &&& t[i] == '.'
                &&& valid_label(t.subrange(0, i))
                &&& valid_dotted_tail(t.subrange(i + 1, t.len() as int))
            }) <==> {
            &&& 1 <= d
            &&& valid_label(t.subrange(0, d))
            &&& valid_dotted_tail(t.subrange(d + 1, t.len() as int))
        },
{
    if exists|i: int|
        #![trigger t.subrange(0, i)]
        {
            &&& 1 <= i < t.len()
            &&& t[i] == '.'
            &&& valid_label(t.subrange(0, i))
            &&& valid_dotted_tail(t.subrange(i + 1, t.len() as int))
        } {
        let i = choose|i: int|
            #![trigger t.subrange(0, i)]
            {
                &&& 1 <= i < t.len()
                &&& t[i] == '.'
                &&& valid_label(t.subrange(0, i))
                &&& valid_dotted_tail(t.subrange(i + 1, t.len() as int))
            };
        if i < d {
            assert(t[i] != '.');
            assert(false);
        }
        if i > d {
            assert(t.subrange(0, i)[d] == t[d]);
            assert(!is_label_char('.'));
            assert(false);
        }
    }
}

/// A top-level label holds no dot.
proof fn lemma_tld_has_no_dot(t: Seq<char>, d: int)
    requires
        0 <= d < t.len(),
        t[d] == '.',
    ensures
        !valid_tld(t),
{
    assert(!is_alpha('.'));
}

fn char_is_alpha(c: char) -> (r: bool)
    ensures
        r == is_alpha(c),
{
    let u = c as u32;
    (97 <= u && u <= 122) || (65 <= u && u <= 90)
}

fn char_is_alnum(c: char) -> (r: bool)
    ensures
        r == is_alnum(c),
{
    let u = c as u32;
    (97 <= u && u <= 122) || (65 <= u && u <= 90) || (48 <= u && u <= 57)
}

fn char_is_label(c: char) -> (r: bool)
    ensures
        r == is_label_char(c),
{
    char_is_alnum(c) || c == '-'
}

/// The first dot at or after `from`, if any.
fn find_dot(s: &str, from: usize) -> (r: Option<usize>)
    requires
        from <= s@.len(),
    ensures
        r matches Some(i) ==> from <= i < s@.len() && s@[i as int] == '.' && forall|j: int|
            from <= j < i ==> s@[j] != '.',
        r is None ==> forall|j: int| from as int <= j < s@.len() ==> s@[j] != '.',
{
    let n = s.unicode_len();
    let mut i = from;
    while i < n
        invariant
            from <= i <= n,
            n == s@.len(),
            forall|j: int| from <= j < i ==> s@[j] != '.',
        decreases n - i,
    {
        if s.get_char(i) == '.' {
            return Some(i);
        }
        i = i + 1;
    }
    None
}

/// Whether `s[from..to]` is a valid label.
fn check_label_range(s: &str, from: usize, to: usize) -> (r: bool)
    requires
        from <= to <= s@.len(),
    ensures
        r == valid_label(s@.subrange(from as int, to as int)),
{
    let ghost t = s@.subrange(from as int, to as int);
    let len = to - from;
    if len < 1 || len > 63 {
        return false;
    }
    if !char_is_alnum(s.get_char(from)) {
        proof {
            assert(t[0] == s@[from as int]);
        }
        return false;
    }
    if !char_is_alnum(s.get_char(to - 1)) {
        proof {
            assert(t[t.len() - 1] == s@[to as int - 1]);
        }
        return false;
    }
    let mut i = from;
    while i < to
        invariant
            from <= i <= to <= s@.len(),
            forall|j: int| from <= j < i ==> is_label_char(#[trigger] s@[j]),
        decreases to - i,
    {
        if !char_is_label(s.get_char(i)) {
            proof {
                assert(s@.subrange(from as int, to as int)[i - from] == s@[i as int]);
            }
            return false;
        }
        i = i + 1;
    }
    proof {
        assert(t[0] == s@[from as int]);
        assert(t[t.len() - 1] == s@[to as int - 1]);
        assert forall|k: int| 0 <= k < t.len() implies is_label_char(#[trigger] t[k]) by {
            assert(t[k] == s@[from + k]);
        }
    }
    true
}

/// Whether `s[from..to]` is a valid top-level label.
fn check_tld_range(s: &str, from: usize, to: usize) -> (r: bool)
    requires
        from <= to <= s@.len(),
    ensures
        r == valid_tld(s@.subrange(from as int, to as int)),
{
    let ghost t = s@.subrange(from as int, to as int);
    if to - from < 2 {
        return false;
    }
    let mut i = from;
    while i < to
        invariant
            from <= i <= to <= s@.len(),
            forall|j: int| from <= j < i ==> is_alpha(#[trigger] s@[j]),
        decreases to - i,
    {
        if !char_is_alpha(s.get_char(i)) {
            proof {
                assert(s@.subrange(from as int, to as int)[i - from] == s@[i as int]);
            }
            return false;
        }
        i = i + 1;
    }
    proof {
        assert forall|k: int| 0 <= k < t.len() implies is_alpha(#[trigger] t[k]) by {
            assert(t[k] == s@[from + k]);
        }
    }
    true
}

/// Whether `s[from..]` is a valid dotted tail.
fn check_tail(s: &str, from: usize) -> (r: bool)
    requires
        from <= s@.len(),
    ensures
        r == valid_dotted_tail(s@.subrange(from as int, s@.len() as int)),
    decreases s@.len() - from,
{
    let ghost t = s@.subrange(from as int, s@.len() as int);
    let n = s.unicode_len();
    match find_dot(s, from) {
        None => {
            let r = check_tld_range(s, from, n);
            proof {
                if !r && valid_dotted_tail(t) {
                    let i = choose|i: int|
                        #![trigger t.subrange(0, i)]
                        {
                            &&& 1 <= i < t.len()
                            &&& t[i] == '.'
                            &&& valid_label(t.subrange(0, i))
                            &&& valid_dotted_tail(t.subrange(i + 1, t.len() as int))
                        };
                    assert(t[i] == s@[from + i]);
                    assert(false);
                }
            }
            r
        },
        Some(d) => {
            proof {
                assert(t[d - from] == '.');
                assert forall|j: int| 0 <= j < d - from implies t[j] != '.' by {
                    assert(t[j] == s@[from + j]);
                }
                lemma_split_is_first_dot(t, d as int - from as int);
                lemma_tld_has_no_dot(t, d as int - from as int);
                assert(t.subrange(0, d as int - from as int) =~= s@.subrange(
                    from as int,
                    d as int,
                ));
                assert(t.subrange(d as int - from as int + 1, t.len() as int) =~= s@.subrange(
                    d as int + 1,
                    s@.len() as int,
                ));
            }
            let lbl = check_label_range(s, from, d);
            if !lbl {
                return false;
            }
            if d == n - 1 {
                // a trailing dot leaves an empty tail, which no rule accepts
                proof {
                    assert(t.subrange(d as int - from as int + 1, t.len() as int).len() == 0);
                }
                return false;
            }
            let rest = check_tail(s, d + 1);
            rest
        },
    }
}

/// Whether `name` is a fully-qualified host name, exactly as the grammar
/// says.
pub fn is_valid_domain(name: &str) -> (r: bool)
    ensures
        r == valid_fqdn(name@),
{
    let n = name.unicode_len();
    match find_dot(name, 0) {
        None => {
            proof {
                if valid_fqdn(name@) {
                    let i = choose|i: int|
                        #![trigger name@.subrange(0, i)]
                        {
                            &&& 1 <= i < name@.len()
                            &&& name@[i] == '.'
                            &&& valid_label(name@.subrange(0, i))
                            &&& valid_dotted_tail(name@.subrange(i + 1, name@.len() as int))
                        };
                    assert(false);
                }
            }
            false
        },
        Some(d) => {
            proof {
                assert(name@ =~= name@.subrange(0, name@.len() as int));
                lemma_split_is_first_dot(name@, d as int);
            }
            let lbl = check_label_range(name, 0, d);
            if !lbl {
                return false;
            }
            if d == n - 1 {
                proof {
                    assert(name@.subrange(d as int + 1, name@.len() as int).len() == 0);
                }
                return false;
            }
            let rest = check_tail(name, d + 1);
            rest
        },
    }
}

/// The scheme of the absolute URL written in `s`, or `None` when `s` is not
/// one. A function of the text alone.
pub uninterp spec fn parsed_url_scheme(s: Seq<char>) -> Option<Seq<char>>;

/// Relies on `url::Url::parse` and `Url::scheme`: the parsed URL's scheme,
/// `None` exactly when the text does not parse as an absolute URL.
#[verifier::external_body]
fn url_scheme(s: &str) -> (r: Option<String>)
    ensures
        r is Some <==> parsed_url_scheme(s@) is Some,
        r matches Some(sc) ==> parsed_url_scheme(s@) == Some(sc@),
{
    match url::Url::parse(s) {
        Ok(u) => Some(u.scheme().to_string()),
        Err(_) => None,
    }
}

/// What is wrong with a configuration, if anything.
#[derive(Debug, Clone, Copy, PartialEq, Eq, Structural)]
pub enum ConfigError {
    /// No domains are configured at all.
    NoDomains,
    /// A domain's name is not a fully-qualified host name.
    InvalidDomainName,
    /// A domain's webroot directory does not exist.
    MissingWebroot,
    /// A domain's proxy target is not an absolute URL.
    InvalidProxyUrl,
    /// A domain's proxy target has a scheme other than http or https.
    UnsupportedProxyScheme,
}

/// A proxy target's scheme must be plain or secure HTTP.
pub open spec fn scheme_supported(sch: Seq<char>) -> bool {
    sch == "http"@ || sch == "https"@
}

/// The first failure among one domain's checks, in the order they are made:
/// name grammar, webroot existence, proxy URL, proxy scheme.
pub open spec fn spec_domain_error(
    name: Seq<char>,
    webroot_exists: bool,
    proxy: Option<Seq<char>>,
) -> Option<ConfigError> {
    if !valid_fqdn(name) {
        Some(ConfigError::InvalidDomainName)
    } else if !webroot_exists {
        Some(ConfigError::MissingWebroot)
    } else {
        match proxy {
            None => None,
            Some(u) => match parsed_url_scheme(u) {
                None => Some(ConfigError::InvalidProxyUrl),
                Some(sch) => if scheme_supported(sch) {
                    None
                } else {
                    Some(ConfigError::UnsupportedProxyScheme)
                },
            },
        }
    }
}

/// Checks one domain: its name against the host-name grammar, its webroot
/// (whose existence the application reports), and its proxy target if any.
pub fn validate_domain(d: &DomainConfig, webroot_exists: bool) -> (r: Result<(), ConfigError>)
    ensures
        r is Ok <==> spec_domain_error(d.name@, webroot_exists, opt_view(d.proxy)) is None,
        r matches Err(e) ==> Some(e) == spec_domain_error(
            d.name@,
            webroot_exists,
            opt_view(d.proxy),
        ),
{
    if !is_valid_domain(d.name.as_str()) {
        return Err(ConfigError::InvalidDomainName);
    }
    if !webroot_exists {
        return Err(ConfigError::MissingWebroot);
    }
    match &d.proxy {
        None => Ok(()),
        Some(u) => match url_scheme(u.as_str()) {
            None => Err(ConfigError::InvalidProxyUrl),
            Some(sch) => {
                let http = String::from_str("http");
                let https = String::from_str("https");
                if sch == http || sch == https {
                    Ok(())
                } else {
                    Err(ConfigError::UnsupportedProxyScheme)
                }
            },
        },
    }
}

/// Checks the whole configuration: at least one domain, and every domain
/// valid. `webroot_exists[i]` reports whether `cfg.domains[i]`'s webroot
/// directory exists. The error, if any, is the first domain's first
/// failure, in configuration order.
pub fn validate_config(cfg: &AppConfig, webroot_exists: &Vec<bool>) -> (r: Result<(), ConfigError>)
    requires
        webroot_exists.len() == cfg.domains.len(),
    ensures
        cfg.domains@.len() == 0 ==> r == Err::<(), ConfigError>(ConfigError::NoDomains),
        cfg.domains@.len() > 0 ==> (r is Ok <==> forall|i: int|
            0 <= i < cfg.domains@.len() ==> spec_domain_error(
                cfg.domains@[i].name@,
                webroot_exists@[i],
                opt_view(cfg.domains@[i].proxy),
            ) is None),
        r matches Err(e) ==> (cfg.domains@.len() > 0 ==> exists|i: int|
            0 <= i < cfg.domains@.len() && #[trigger] spec_domain_error(
                cfg.domains@[i].name@,
                webroot_exists@[i],
                opt_view(cfg.domains@[i].proxy),
            ) == Some(e) && forall|j: int|
                0 <= j < i ==> spec_domain_error(
                    cfg.domains@[j].name@,
                    webroot_exists@[j],
                    opt_view(cfg.domains@[j].proxy),
                ) is None),
{
    if cfg.domains.len() == 0 {
        return Err(ConfigError::NoDomains);
    }
    let mut i: usize = 0;
    while i < cfg.domains.len()
        invariant
            0 <= i <= cfg.domains.len(),
            webroot_exists.len() == cfg.domains.len(),
            forall|j: int|
                0 <= j < i as int ==> spec_domain_error(
                    cfg.domains@[j].name@,
                    webroot_exists@[j],
                    opt_view(cfg.domains@[j].proxy),
                ) is None,
        decreases cfg.domains.len() - i,
    {
        match validate_domain(&cfg.domains[i], webroot_exists[i]) {
            Ok(()) => {},
            Err(e) => {
                return Err(e);
            },
        }
        i = i + 1;
    }
    Ok(())
}

} // verus!
