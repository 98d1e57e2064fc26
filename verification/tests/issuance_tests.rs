use std::collections::HashMap;

use rust_certbot::expiry::days_left_at;
use rust_certbot::issuance::{
    AcmeEvent, IssuanceAction, IssuanceError, IssuanceMachine, IssuanceState,
};
use rust_certbot::store::{atomic_write_plan, write_bundle_plan, FileOp};

fn run_plan(fs: &mut HashMap<String, String>, ops: &[FileOp]) {
    for op in ops {
        match op {
            FileOp::MkDirs { .. } => {}
            FileOp::WriteTmp { path, content, .. } => {
                fs.insert(path.clone(), content.clone());
            }
            FileOp::Rename { from, to } => {
                if let Some(v) = fs.remove(from) {
                    fs.insert(to.clone(), v);
                }
            }
            FileOp::CopyFile { from, to } => {
                if let Some(v) = fs.get(from).cloned() {
                    fs.insert(to.clone(), v);
                }
            }
        }
    }
}

fn make_cert(not_after: i64) -> String {
    let rsa = openssl::rsa::Rsa::generate(2048).unwrap();
    let pkey = openssl::pkey::PKey::from_rsa(rsa).unwrap();
    let mut name = openssl::x509::X509NameBuilder::new().unwrap();
    name.append_entry_by_text("CN", "example.com").unwrap();
    let name = name.build();
    let mut b = openssl::x509::X509Builder::new().unwrap();
    b.set_version(2).unwrap();
    b.set_subject_name(&name).unwrap();
    b.set_issuer_name(&name).unwrap();
    b.set_pubkey(&pkey).unwrap();
    let nb = openssl::asn1::Asn1Time::from_unix(1600000000).unwrap();
    b.set_not_before(&nb).unwrap();
    let na = openssl::asn1::Asn1Time::from_unix(not_after).unwrap();
    b.set_not_after(&na).unwrap();
    b.sign(&pkey, openssl::hash::MessageDigest::sha256()).unwrap();
    String::from_utf8(b.build().to_pem().unwrap()).unwrap()
}

/// The full happy path: a domain with no bundle goes through order,
/// challenge publication, validation, finalize, download and persistence,
/// and afterwards its stored certificate reports a positive margin.
#[test]
fn issuance_end_to_end() {
    let now: i64 = 1735689600; // 2025-01-01T00:00:00Z
    let mut fs: HashMap<String, String> = HashMap::new();
    let mut m = IssuanceMachine::new("example.com", "./web");
    assert_eq!(m.state, IssuanceState::OrderCreated);

    let a = m.step(AcmeEvent::OrderOk);
    assert!(matches!(a, IssuanceAction::ConfirmValidations));

    let a = m.step(AcmeEvent::NotConfirmed);
    assert!(matches!(a, IssuanceAction::FetchAuthorizations));

    let a = m.step(AcmeEvent::Auths {
        token: "abc123".to_string(),
        proof: "proof-xyz".to_string(),
    });
    let (dir, name, content) = match a {
        IssuanceAction::PublishChallenge { dir, name, content } => (dir, name, content),
        other => panic!("expected PublishChallenge, got {:?}", other),
    };
    assert_eq!(dir, "./web/.well-known/acme-challenge");
    assert_eq!(name, "abc123");
    assert_eq!(content, "proof-xyz");
    // the application writes the proof atomically under the webroot
    let ops = atomic_write_plan(&dir, &name, &content, 0o644, "tok");
    run_plan(&mut fs, &ops);
    assert_eq!(
        fs.get("./web/.well-known/acme-challenge/abc123").map(String::as_str),
        Some("proof-xyz")
    );

    let a = m.step(AcmeEvent::Published);
    assert!(matches!(a, IssuanceAction::ValidateChallenge { timeout_ms: 5000 }));
    let a = m.step(AcmeEvent::ValidateOk);
    assert!(matches!(a, IssuanceAction::RefreshOrder));
    let a = m.step(AcmeEvent::Refreshed);
    assert!(matches!(a, IssuanceAction::ConfirmValidations));
    let a = m.step(AcmeEvent::Confirmed);
    assert!(matches!(a, IssuanceAction::Finalize { timeout_ms: 5000 }));
    let a = m.step(AcmeEvent::FinalizeOk);
    assert!(matches!(a, IssuanceAction::Download));

    // ninety days of validity from "now"
    let cert = make_cert(now + 90 * 86400);
    let a = m.step(AcmeEvent::DownloadOk {
        cert_pem: cert.clone(),
        key_pem: "KEYPEM".to_string(),
    });
    let bundle = match a {
        IssuanceAction::Persist { bundle } => bundle,
        other => panic!("expected Persist, got {:?}", other),
    };
    assert_eq!(bundle.domain, "example.com");
    assert_eq!(bundle.fullchain_pem, cert);
    // the chain slot deliberately duplicates the fullchain
    assert_eq!(bundle.chain_pem, cert);
    assert_eq!(bundle.private_key_pem, "KEYPEM");

    let ops = write_bundle_plan("./cert", "example.com", &bundle);
    run_plan(&mut fs, &ops);
    let stored = fs.get("./cert/example.com/fullchain.pem").unwrap();
    assert_eq!(days_left_at(stored, now), Some(90));

    let a = m.step(AcmeEvent::PersistOk);
    assert!(matches!(a, IssuanceAction::Done));
    assert_eq!(m.state, IssuanceState::Persisted);
}

#[test]
fn empty_authorizations_are_fatal() {
    let mut m = IssuanceMachine::new("example.com", "./web");
    m.step(AcmeEvent::OrderOk);
    m.step(AcmeEvent::NotConfirmed);
    let a = m.step(AcmeEvent::AuthsEmpty);
    assert!(matches!(a, IssuanceAction::Abort { error: IssuanceError::NoAuthorizations }));
    assert_eq!(m.state, IssuanceState::Failed(IssuanceError::NoAuthorizations));
}

#[test]
fn order_failure_aborts() {
    let mut m = IssuanceMachine::new("example.com", "./web");
    let a = m.step(AcmeEvent::OrderErr);
    assert!(matches!(a, IssuanceAction::Abort { error: IssuanceError::AcmeOrder }));
    assert_eq!(m.state, IssuanceState::Failed(IssuanceError::AcmeOrder));
}

#[test]
fn validation_poll_loop_is_bounded() {
    let mut m = IssuanceMachine::new("example.com", "./web");
    m.step(AcmeEvent::OrderOk);
    let mut rounds = 0;
    loop {
        match m.step(AcmeEvent::NotConfirmed) {
            IssuanceAction::FetchAuthorizations => {
                rounds += 1;
                assert!(rounds <= 10, "the poll loop must stop at its bound");
                m.step(AcmeEvent::Auths {
                    token: "t".to_string(),
                    proof: "p".to_string(),
                });
                m.step(AcmeEvent::Published);
                m.step(AcmeEvent::ValidateOk);
                m.step(AcmeEvent::Refreshed);
            }
            IssuanceAction::Abort { error } => {
                assert_eq!(error, IssuanceError::PollLimit);
                break;
            }
            other => panic!("unexpected action {:?}", other),
        }
    }
    assert_eq!(rounds, 10);
    assert_eq!(m.state, IssuanceState::Failed(IssuanceError::PollLimit));
}

#[test]
fn store_failures_abort_without_a_bundle() {
    let mut m = IssuanceMachine::new("example.com", "./web");
    m.step(AcmeEvent::OrderOk);
    m.step(AcmeEvent::NotConfirmed);
    m.step(AcmeEvent::Auths { token: "t".to_string(), proof: "p".to_string() });
    let a = m.step(AcmeEvent::PublishErr);
    assert!(matches!(a, IssuanceAction::Abort { error: IssuanceError::StoreFailure }));
}

#[test]
fn each_acme_step_failure_has_its_own_error() {
    // authorization fetch
    let mut m = IssuanceMachine::new("example.com", "./web");
    m.step(AcmeEvent::OrderOk);
    m.step(AcmeEvent::NotConfirmed);
    let a = m.step(AcmeEvent::AuthsErr);
    assert!(matches!(a, IssuanceAction::Abort { error: IssuanceError::AcmeAuthorizations }));

    // challenge validation
    let mut m = IssuanceMachine::new("example.com", "./web");
    m.step(AcmeEvent::OrderOk);
    m.step(AcmeEvent::NotConfirmed);
    m.step(AcmeEvent::Auths { token: "t".to_string(), proof: "p".to_string() });
    m.step(AcmeEvent::Published);
    let a = m.step(AcmeEvent::ValidateErr);
    assert!(matches!(a, IssuanceAction::Abort { error: IssuanceError::AcmeValidation }));

    // order refresh
    let mut m = IssuanceMachine::new("example.com", "./web");
    m.step(AcmeEvent::OrderOk);
    m.step(AcmeEvent::NotConfirmed);
    m.step(AcmeEvent::Auths { token: "t".to_string(), proof: "p".to_string() });
    m.step(AcmeEvent::Published);
    m.step(AcmeEvent::ValidateOk);
    let a = m.step(AcmeEvent::RefreshErr);
    assert!(matches!(a, IssuanceAction::Abort { error: IssuanceError::AcmeRefresh }));

    // finalize
    let mut m = IssuanceMachine::new("example.com", "./web");
    m.step(AcmeEvent::OrderOk);
    m.step(AcmeEvent::Confirmed);
    let a = m.step(AcmeEvent::FinalizeErr);
    assert!(matches!(a, IssuanceAction::Abort { error: IssuanceError::AcmeFinalize }));

    // download
    let mut m = IssuanceMachine::new("example.com", "./web");
    m.step(AcmeEvent::OrderOk);
    m.step(AcmeEvent::Confirmed);
    m.step(AcmeEvent::FinalizeOk);
    let a = m.step(AcmeEvent::DownloadErr);
    assert!(matches!(a, IssuanceAction::Abort { error: IssuanceError::AcmeDownload }));

    // persistence
    let mut m = IssuanceMachine::new("example.com", "./web");
    m.step(AcmeEvent::OrderOk);
    m.step(AcmeEvent::Confirmed);
    m.step(AcmeEvent::FinalizeOk);
    m.step(AcmeEvent::DownloadOk { cert_pem: "C".to_string(), key_pem: "K".to_string() });
    let a = m.step(AcmeEvent::PersistErr);
    assert!(matches!(a, IssuanceAction::Abort { error: IssuanceError::StoreFailure }));
}

#[test]
fn mismatched_answers_fail_the_run() {
    let mut m = IssuanceMachine::new("example.com", "./web");
    let a = m.step(AcmeEvent::FinalizeOk);
    assert!(matches!(a, IssuanceAction::Abort { error: IssuanceError::Protocol }));
    assert_eq!(m.state, IssuanceState::Failed(IssuanceError::Protocol));
}
