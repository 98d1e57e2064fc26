use rust_certbot::expiry::{
    days_left_at, days_left_from_pem, not_after_date_str, renewal_date_header_from_pem,
    renewal_header_for_domain,
};

/// A self-signed certificate whose not-after instant is exactly `not_after`
/// Unix seconds.
fn make_cert(not_after: i64) -> String {
    let rsa = openssl::rsa::Rsa::generate(2048).unwrap();
    let pkey = openssl::pkey::PKey::from_rsa(rsa).unwrap();
    let mut name = openssl::x509::X509NameBuilder::new().unwrap();
    name.append_entry_by_text("CN", "example.com").unwrap();
    let name = name.build();
    let mut b = openssl::x509::X509Builder::new().unwrap();
    b.set_version(2).unwrap();
    b.set_subject_name(&name).unwrap();
    b.set_issuer_name(&name).unwrap();
    b.set_pubkey(&pkey).unwrap();
    let nb = openssl::asn1::Asn1Time::from_unix(1600000000).unwrap();
    b.set_not_before(&nb).unwrap();
    let na = openssl::asn1::Asn1Time::from_unix(not_after).unwrap();
    b.set_not_after(&na).unwrap();
    b.sign(&pkey, openssl::hash::MessageDigest::sha256()).unwrap();
    String::from_utf8(b.build().to_pem().unwrap()).unwrap()
}

#[test]
fn days_left_is_pure_in_not_after_and_now() {
    // not-after 2025-01-10T00:00:00Z, now 2025-01-01T00:00:00Z: nine days
    let pem = make_cert(1736467200);
    assert_eq!(days_left_at(&pem, 1735689600), Some(9));
    // the same pair always yields the same answer
    assert_eq!(days_left_at(&pem, 1735689600), Some(9));
    // one second past the boundary drops a day
    assert_eq!(days_left_at(&pem, 1735689601), Some(8));
    // an expired certificate goes negative
    assert_eq!(days_left_at(&pem, 1736467200 + 86400), Some(-1));
}

#[test]
fn unparsable_text_is_not_a_certificate() {
    assert_eq!(days_left_at("not a pem", 1735689600), None);
    assert_eq!(days_left_from_pem("not a pem"), None);
    assert_eq!(not_after_date_str("garbage"), None);
    assert_eq!(renewal_date_header_from_pem("garbage"), "-");
}

#[test]
fn expiry_date_renders_as_iso_day() {
    let pem = make_cert(1736467200);
    assert_eq!(not_after_date_str(&pem).unwrap(), "2025-01-10");
    assert_eq!(renewal_date_header_from_pem(&pem), "2025-01-10");
    assert_eq!(renewal_header_for_domain(), "-");
}

#[test]
fn days_left_from_pem_tracks_the_clock() {
    // a certificate ninety days from now keeps a positive margin
    let now = chrono::Utc::now().timestamp();
    let pem = make_cert(now + 90 * 86400);
    let d = days_left_from_pem(&pem).unwrap();
    assert!((89..=90).contains(&d));
}
