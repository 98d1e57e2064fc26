use rust_certbot::config::{
    default_log_level, default_provider, lookup_domain, AcmeConfig, AppConfig,
    CertificatesConfig, DomainConfig, LoggingConfig, ProxyConfig, ServerConfig,
};
use rust_certbot::routes::{domain_statuses, metrics_body, IssueRequest, VersionResponse};

fn sample_config() -> AppConfig {
    AppConfig {
        server: ServerConfig {
            host: "127.0.0.1".to_string(),
            port: 8443,
            log_level: "info".to_string(),
        },
        domains: vec![
            DomainConfig {
                name: "example.com".to_string(),
                webroot: "./web".to_string(),
                proxy: Some("http://upstream:3000".to_string()),
            },
            DomainConfig {
                name: "other.org".to_string(),
                webroot: "./web2".to_string(),
                proxy: None,
            },
        ],
        acme: AcmeConfig {
            provider: "lets-encrypt".to_string(),
            email: "admin@example.com".to_string(),
            staging: true,
            account_key_path: None,
        },
        certificates: CertificatesConfig {
            path: "./cert".to_string(),
            backup_path: "./backups".to_string(),
            renewal_threshold_days: 30,
        },
        proxy: ProxyConfig { enabled: false, timeout: None, max_connections: None, keepalive: None },
        logging: LoggingConfig { level: "info".to_string(), file: None, max_size: None, max_files: None },
    }
}

#[test]
fn defaults_and_address() {
    assert_eq!(default_provider(), "lets-encrypt");
    assert_eq!(default_log_level(), "info");
    assert_eq!(sample_config().address(), "127.0.0.1:8443");
}

#[test]
fn first_matching_domain_wins() {
    let cfg = sample_config();
    let d = lookup_domain(&cfg.domains, "other.org").unwrap();
    assert_eq!(d.webroot, "./web2");
    assert!(lookup_domain(&cfg.domains, "missing.net").is_none());
}

#[test]
fn domain_listing_carries_days_left() {
    let cfg = sample_config();
    let rows = domain_statuses(&cfg, &vec![Some(42), None]);
    assert_eq!(rows.len(), 2);
    assert_eq!(rows[0].name, "example.com");
    assert_eq!(rows[0].proxy.as_deref(), Some("http://upstream:3000"));
    assert_eq!(rows[0].days_left, Some(42));
    assert_eq!(rows[1].name, "other.org");
    assert_eq!(rows[1].days_left, None);
}

#[test]
fn metrics_report_only_readable_certificates() {
    let cfg = sample_config();
    let body = metrics_body(&cfg, &vec![Some(42), None]);
    assert_eq!(
        body,
        "rust_certbot_up 1\nrust_certbot_days_left{domain=\"example.com\"} 42\n"
    );
    let body = metrics_body(&cfg, &vec![Some(-3), Some(7)]);
    assert_eq!(
        body,
        "rust_certbot_up 1\nrust_certbot_days_left{domain=\"example.com\"} -3\nrust_certbot_days_left{domain=\"other.org\"} 7\n"
    );
}

#[test]
fn response_shapes_hold_their_fields() {
    let v = VersionResponse { version: "0.1.0" };
    assert_eq!(v.version, "0.1.0");
    let r = IssueRequest { domain: "example.com".to_string() };
    assert_eq!(r.domain, "example.com");
}
