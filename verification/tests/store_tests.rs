use std::collections::HashMap;

use rust_certbot::config::{
    AcmeConfig, AppConfig, CertificatesConfig, DomainConfig, LoggingConfig, ProxyConfig,
    ServerConfig,
};
use rust_certbot::store::{
    atomic_write_plan, backup_plan, cert_paths_for_host, path_join, write_bundle_plan,
    CertificateBundle, FileOp,
};

fn sample_config() -> AppConfig {
    AppConfig {
        server: ServerConfig {
            host: "127.0.0.1".to_string(),
            port: 0,
            log_level: "info".to_string(),
        },
        domains: vec![DomainConfig {
            name: "example.com".to_string(),
            webroot: "./web".to_string(),
            proxy: None,
        }],
        acme: AcmeConfig {
            provider: "lets-encrypt".to_string(),
            email: "admin@example.com".to_string(),
            staging: true,
            account_key_path: None,
        },
        certificates: CertificatesConfig {
            path: "./cert".to_string(),
            backup_path: "./backups".to_string(),
            renewal_threshold_days: 30,
        },
        proxy: ProxyConfig { enabled: false, timeout: None, max_connections: None, keepalive: None },
        logging: LoggingConfig { level: "info".to_string(), file: None, max_size: None, max_files: None },
    }
}

/// Runs a plan against an in-memory image of the filesystem, with the same
/// meaning the model gives each operation.
fn run_plan(fs: &mut HashMap<String, String>, ops: &[FileOp]) {
    for op in ops {
        match op {
            FileOp::MkDirs { .. } => {}
            FileOp::WriteTmp { path, content, .. } => {
                fs.insert(path.clone(), content.clone());
            }
            FileOp::Rename { from, to } => {
                if let Some(v) = fs.remove(from) {
                    fs.insert(to.clone(), v);
                }
            }
            FileOp::CopyFile { from, to } => {
                if let Some(v) = fs.get(from).cloned() {
                    fs.insert(to.clone(), v);
                }
            }
        }
    }
}

#[test]
fn joins_paths() {
    assert_eq!(path_join("./cert", "example.com"), "./cert/example.com");
    assert_eq!(path_join("a/b", "c.pem"), "a/b/c.pem");
}

#[test]
fn bundle_paths_for_known_and_unknown_host() {
    let cfg = sample_config();
    let (f, c, k) = cert_paths_for_host(&cfg, "example.com").unwrap();
    assert_eq!(f, "./cert/example.com/fullchain.pem");
    assert_eq!(c, "./cert/example.com/chain.pem");
    assert_eq!(k, "./cert/example.com/privkey.pem");
    assert!(cert_paths_for_host(&cfg, "other.org").is_none());
}

#[test]
fn atomic_write_goes_through_a_dot_temporary() {
    let ops = atomic_write_plan("./web", "token1", "proof", 0o644, "t0");
    assert_eq!(ops.len(), 3);
    match &ops[0] {
        FileOp::MkDirs { path } => assert_eq!(path, "./web"),
        other => panic!("expected MkDirs first, got {:?}", other),
    }
    let tmp = match &ops[1] {
        FileOp::WriteTmp { path, content, mode } => {
            assert_eq!(path, "./web/.tmp-token1-t0");
            assert_eq!(content, "proof");
            assert_eq!(*mode, 0o644);
            path.clone()
        }
        other => panic!("expected WriteTmp second, got {:?}", other),
    };
    match &ops[2] {
        FileOp::Rename { from, to } => {
            assert_eq!(*from, tmp);
            assert_eq!(to, "./web/token1");
        }
        other => panic!("expected Rename last, got {:?}", other),
    }
}

#[test]
fn interrupted_write_leaves_the_target_alone() {
    let ops = atomic_write_plan("./d", "file", "new", 0o644, "t0");
    // before the final rename, the old content is fully intact
    for cut in 0..ops.len() {
        let mut fs = HashMap::new();
        fs.insert("./d/file".to_string(), "old".to_string());
        run_plan(&mut fs, &ops[..cut]);
        assert_eq!(fs.get("./d/file").map(String::as_str), Some("old"));
    }
    // the whole plan installs the new content
    let mut fs = HashMap::new();
    fs.insert("./d/file".to_string(), "old".to_string());
    run_plan(&mut fs, &ops);
    assert_eq!(fs.get("./d/file").map(String::as_str), Some("new"));
}

#[test]
fn bundle_write_replaces_all_three_files() {
    let bundle = CertificateBundle {
        domain: "example.com".to_string(),
        fullchain_pem: "FULL".to_string(),
        chain_pem: "FULL".to_string(),
        private_key_pem: "KEY".to_string(),
    };
    let ops = write_bundle_plan("./cert", "example.com", &bundle);
    assert_eq!(ops.len(), 9);
    // the private key is written world-unreadable, the certificates readable
    let modes: Vec<u32> = ops
        .iter()
        .filter_map(|op| match op {
            FileOp::WriteTmp { mode, .. } => Some(*mode),
            _ => None,
        })
        .collect();
    assert_eq!(modes, vec![0o644, 0o644, 0o600]);
    let mut fs = HashMap::new();
    fs.insert("./cert/example.com/fullchain.pem".to_string(), "oldfull".to_string());
    run_plan(&mut fs, &ops);
    assert_eq!(fs.get("./cert/example.com/fullchain.pem").map(String::as_str), Some("FULL"));
    assert_eq!(fs.get("./cert/example.com/chain.pem").map(String::as_str), Some("FULL"));
    assert_eq!(fs.get("./cert/example.com/privkey.pem").map(String::as_str), Some("KEY"));
    // no temporary survives
    assert_eq!(fs.len(), 3);
}

#[test]
fn backup_copies_exactly_what_existed() {
    // nothing on disk: no snapshot at all
    assert!(backup_plan("./backups", "./cert", "example.com", "20250101000000", false, false, false).is_none());

    // a degraded bundle: only the fullchain exists
    let ops = backup_plan("./backups", "./cert", "example.com", "20250101000000", true, false, false).unwrap();
    assert_eq!(ops.len(), 4);
    let mut fs = HashMap::new();
    fs.insert("./cert/example.com/fullchain.pem".to_string(), "FULL".to_string());
    run_plan(&mut fs, &ops);
    let snap = "./backups/example.com/20250101000000";
    assert_eq!(
        fs.get(&format!("{}/fullchain.pem", snap)).map(String::as_str),
        Some("FULL")
    );
    assert!(!fs.contains_key(&format!("{}/chain.pem", snap)));
    assert!(!fs.contains_key(&format!("{}/privkey.pem", snap)));
    // the live bundle is untouched
    assert_eq!(fs.get("./cert/example.com/fullchain.pem").map(String::as_str), Some("FULL"));

    // a full bundle: all three are copied
    let ops = backup_plan("./backups", "./cert", "example.com", "20250102000000", true, true, true).unwrap();
    let mut fs = HashMap::new();
    fs.insert("./cert/example.com/fullchain.pem".to_string(), "F".to_string());
    fs.insert("./cert/example.com/chain.pem".to_string(), "C".to_string());
    fs.insert("./cert/example.com/privkey.pem".to_string(), "K".to_string());
    run_plan(&mut fs, &ops);
    let snap = "./backups/example.com/20250102000000";
    assert_eq!(fs.get(&format!("{}/fullchain.pem", snap)).map(String::as_str), Some("F"));
    assert_eq!(fs.get(&format!("{}/chain.pem", snap)).map(String::as_str), Some("C"));
    assert_eq!(fs.get(&format!("{}/privkey.pem", snap)).map(String::as_str), Some("K"));
}
