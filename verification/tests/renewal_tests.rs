use rust_certbot::config::{
    AcmeConfig, AppConfig, CertificatesConfig, DomainConfig, LoggingConfig, ProxyConfig,
    ServerConfig,
};
use rust_certbot::renewal::{evaluate_all, needs_renewal};

fn config_with_domains(names: &[&str]) -> AppConfig {
    AppConfig {
        server: ServerConfig {
            host: "127.0.0.1".to_string(),
            port: 0,
            log_level: "info".to_string(),
        },
        domains: names
            .iter()
            .map(|n| DomainConfig {
                name: n.to_string(),
                webroot: "./web".to_string(),
                proxy: None,
            })
            .collect(),
        acme: AcmeConfig {
            provider: "lets-encrypt".to_string(),
            email: "admin@example.com".to_string(),
            staging: true,
            account_key_path: None,
        },
        certificates: CertificatesConfig {
            path: "./cert".to_string(),
            backup_path: "./backups".to_string(),
            renewal_threshold_days: 30,
        },
        proxy: ProxyConfig { enabled: false, timeout: None, max_connections: None, keepalive: None },
        logging: LoggingConfig { level: "info".to_string(), file: None, max_size: None, max_files: None },
    }
}

fn make_cert(not_after: i64) -> String {
    let rsa = openssl::rsa::Rsa::generate(2048).unwrap();
    let pkey = openssl::pkey::PKey::from_rsa(rsa).unwrap();
    let mut name = openssl::x509::X509NameBuilder::new().unwrap();
    name.append_entry_by_text("CN", "example.com").unwrap();
    let name = name.build();
    let mut b = openssl::x509::X509Builder::new().unwrap();
    b.set_version(2).unwrap();
    b.set_subject_name(&name).unwrap();
    b.set_issuer_name(&name).unwrap();
    b.set_pubkey(&pkey).unwrap();
    let nb = openssl::asn1::Asn1Time::from_unix(1600000000).unwrap();
    b.set_not_before(&nb).unwrap();
    let na = openssl::asn1::Asn1Time::from_unix(not_after).unwrap();
    b.set_not_after(&na).unwrap();
    b.sign(&pkey, openssl::hash::MessageDigest::sha256()).unwrap();
    String::from_utf8(b.build().to_pem().unwrap()).unwrap()
}

const NOW: i64 = 1735689600; // 2025-01-01T00:00:00Z

#[test]
fn single_domain_decisions() {
    // no persisted bundle: renewal needed
    assert!(needs_renewal(&None, NOW, 30));
    // unreadable certificate: renewal needed
    assert!(needs_renewal(&Some("garbage".to_string()), NOW, 30));
    // 90 days left against a 30-day threshold: no renewal
    let fresh = make_cert(NOW + 90 * 86400);
    assert!(!needs_renewal(&Some(fresh), NOW, 30));
    // exactly the threshold is still enough
    let at_threshold = make_cert(NOW + 30 * 86400);
    assert!(!needs_renewal(&Some(at_threshold.clone()), NOW, 30));
    // one second under the threshold triggers renewal
    let under = make_cert(NOW + 30 * 86400 - 1);
    assert!(needs_renewal(&Some(under), NOW, 30));
    // an expired certificate certainly does
    let expired = make_cert(NOW - 86400);
    assert!(needs_renewal(&Some(expired), NOW, 30));
}

#[test]
fn evaluation_decides_every_domain_once() {
    let cfg = config_with_domains(&["a.example.com", "b.example.com", "c.example.com", "d.example.com"]);
    let fresh = make_cert(NOW + 90 * 86400);
    let stale = make_cert(NOW + 5 * 86400);
    let bundles = vec![
        None,                          // needs issuance
        Some(fresh),                   // healthy
        Some(stale),                   // under the threshold
        Some("garbage".to_string()),   // unreadable
    ];
    let decisions = evaluate_all(&cfg, &bundles, NOW);
    assert_eq!(decisions, vec![true, false, true, true]);
}
