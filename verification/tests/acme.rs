use turbine::acme::{
    account_contact, account_path, authorization_step, cached_certificate_paths, certificate_poll,
    challenge_poll, directory_url, handle_challenge_request, is_cert_valid, provisioning_unavailable,
    renewal_due, AuthorizationState, AuthorizationStep, CertificatePoll, ChallengePoll, OrderState,
};
use turbine::compat::StrMap;

#[test]
fn test_handle_challenge_request() {
    let mut tokens = StrMap::new();
    tokens.insert("test-token-123".to_string(), "key-auth-456".to_string());

    assert_eq!(
        handle_challenge_request("/.well-known/acme-challenge/test-token-123", &tokens),
        Some("key-auth-456".to_string())
    );
    assert_eq!(
        handle_challenge_request("/.well-known/acme-challenge/unknown", &tokens),
        None
    );
    assert_eq!(handle_challenge_request("/other/path", &tokens), None);
    // Prevent path traversal in token
    assert_eq!(
        handle_challenge_request("/.well-known/acme-challenge/../../etc/passwd", &tokens),
        None
    );
}

#[test]
fn test_is_cert_valid_empty() {
    assert!(!is_cert_valid(""));
    assert!(!is_cert_valid("not a certificate"));
}

#[test]
fn cert_pem_with_a_certificate_section_is_valid() {
    assert!(is_cert_valid("-----BEGIN CERTIFICATE-----\nAAAA\n-----END CERTIFICATE-----\n"));
    assert!(!is_cert_valid("BEGIN CERTIFICATE but no section"));
}

#[test]
fn cache_files() {
    let c = cached_certificate_paths("/var/lib/turbine/acme");
    assert_eq!(c.cert_path, "/var/lib/turbine/acme/cert.pem");
    assert_eq!(c.key_path, "/var/lib/turbine/acme/key.pem");
    assert_eq!(account_path("/var/acme/"), "/var/acme/account.json");
}

#[test]
fn renewal_after_sixty_days() {
    assert!(!renewal_due(Some(60 * 24 * 3600)));
    assert!(renewal_due(Some(60 * 24 * 3600 + 1)));
    assert!(renewal_due(None));
}

#[test]
fn provisioning_steps() {
    assert_eq!(directory_url(true), "https://acme-staging-v02.api.letsencrypt.org/directory");
    assert_eq!(directory_url(false), "https://acme-v02.api.letsencrypt.org/directory");
    assert_eq!(account_contact(Some("a@b.c")), vec!["mailto:a@b.c".to_string()]);
    assert!(account_contact(None).is_empty());
    assert_eq!(authorization_step(AuthorizationState::Pending), AuthorizationStep::Answer);
    assert_eq!(authorization_step(AuthorizationState::Valid), AuthorizationStep::Skip);
    assert_eq!(authorization_step(AuthorizationState::Revoked), AuthorizationStep::Fail);
    assert_eq!(challenge_poll(OrderState::Ready, 3), ChallengePoll::Finalize);
    assert_eq!(challenge_poll(OrderState::Valid, 3), ChallengePoll::Finalize);
    assert_eq!(challenge_poll(OrderState::Invalid, 0), ChallengePoll::Invalid);
    assert_eq!(challenge_poll(OrderState::Pending, 0), ChallengePoll::Again(1));
    assert_eq!(challenge_poll(OrderState::Processing, 29), ChallengePoll::Again(30));
    assert_eq!(challenge_poll(OrderState::Pending, 30), ChallengePoll::TimedOut);
    assert_eq!(certificate_poll(OrderState::Valid), CertificatePoll::Download);
    assert_eq!(certificate_poll(OrderState::Invalid), CertificatePoll::Invalid);
    assert_eq!(certificate_poll(OrderState::Processing), CertificatePoll::Again);
}

#[test]
fn provisioning_unavailable_message() {
    assert_eq!(
        provisioning_unavailable("/var/acme"),
        "ACME provisioning requires the 'acme' feature. Rebuild with: cargo build --features acme\nOr manually place cert.pem and key.pem in /var/acme"
    );
}
