use domo::rmq::decide::{
    Decision, DenyReason, Session, UserFacts, decide_user, decide_user_identity, decide_user_subject,
    decide_vhost, expected_client_id, is_service_account_id,
};

const SA: &str = "01a0be43-4c1e-4f8f-9c0a-2f1d3b5e7a90";
const OTHER_SA: &str = "7f2c9d10-55aa-4b3c-8e21-0d4f6a8b1c33";

/// A fixed clock, well inside the session's lifetime.
const NOW: i64 = 1_700_000_000;

fn session() -> Session {
    Session {
        tenant_id: "11111111-1111-1111-1111-111111111111".into(),
        tenant_slug: "lakeside".into(),
        exp: 4_102_444_800,
    }
}

fn facts<'a>(
    username: &'a str,
    vhost: Option<&'a str>,
    client_id: Option<&'a str>,
    token_sub: Option<&'a str>,
) -> UserFacts<'a> {
    UserFacts {
        username,
        vhost,
        client_id,
        token_sub,
    }
}

#[test]
fn rmq_user_connect_allowed_when_every_hop_agrees() {
    let cid = format!("CN={SA}");
    let f = facts(SA, Some("domo"), Some(&cid), Some(SA));
    assert_eq!(decide_user(&f), Decision::Allow);
}

#[test]
fn rmq_user_connect_refused_when_client_id_is_not_the_certificate_subject() {
    // This is the hop that makes a stolen token useless without the cert.
    let cid = format!("CN={OTHER_SA}");
    let f = facts(SA, Some("domo"), Some(&cid), Some(SA));
    assert_eq!(
        decide_user(&f),
        Decision::Deny(DenyReason::ClientIdNotBoundToUsername)
    );
}

#[test]
fn rmq_user_connect_refused_when_token_names_another_account() {
    let cid = format!("CN={SA}");
    let f = facts(SA, Some("domo"), Some(&cid), Some(OTHER_SA));
    assert_eq!(
        decide_user(&f),
        Decision::Deny(DenyReason::TokenSubjectMismatch)
    );
}

#[test]
fn connect_refused_without_a_verified_token() {
    let cid = format!("CN={SA}");
    let f = facts(SA, Some("domo"), Some(&cid), None);
    assert_eq!(decide_user(&f), Decision::Deny(DenyReason::TokenDidNotVerify));
}

#[test]
fn connect_refused_without_a_client_id() {
    let f = facts(SA, Some("domo"), None, Some(SA));
    assert_eq!(decide_user(&f), Decision::Deny(DenyReason::ClientIdMissing));
}

#[test]
fn rmq_user_other_vhosts_are_never_reachable() {
    let cid = format!("CN={SA}");
    let f = facts(SA, Some("/"), Some(&cid), Some(SA));
    assert_eq!(decide_user(&f), Decision::Deny(DenyReason::VhostNotDomo));
    assert_eq!(
        decide_vhost("/", Some(&session()), NOW),
        Decision::Deny(DenyReason::VhostNotDomo)
    );
}

#[test]
fn the_vhost_endpoint_denies_without_a_session() {
    assert_eq!(decide_vhost("domo", None, NOW), Decision::Deny(DenyReason::NoSession));
    assert_eq!(decide_vhost("domo", Some(&session()), NOW), Decision::Allow);
}

#[test]
fn rmq_user_the_wire_body_never_leaks_a_reason() {
    assert_eq!(Decision::Allow.body(), "allow");
    for reason in [
        DenyReason::VhostNotDomo,
        DenyReason::ClientIdNotBoundToUsername,
        DenyReason::TokenSubjectMismatch,
    ] {
        assert_eq!(Decision::Deny(reason).body(), "deny");
    }
}

#[test]
fn the_identity_half_needs_no_token_at_all() {
    let cid = format!("CN={SA}");
    assert_eq!(
        decide_user_identity(SA, Some("domo"), Some(&cid)),
        Decision::Allow
    );
}

#[test]
fn a_user_name_that_is_not_an_account_identifier_is_refused() {
    assert!(is_service_account_id(SA));
    assert!(!is_service_account_id("sa-1"));
    assert!(!is_service_account_id("domo:01a0be43-4c1e-4f8f-9c0a-2f1d3b5e7a90"));
    let f = facts("sa-1", Some("domo"), Some("CN=sa-1"), Some("sa-1"));
    assert_eq!(
        decide_user(&f),
        Decision::Deny(DenyReason::UsernameNotAServiceAccount)
    );
}

#[test]
fn a_missing_vhost_is_the_domo_vhost() {
    let cid = format!("CN={SA}");
    assert_eq!(decide_user_identity(SA, None, Some(&cid)), Decision::Allow);
}

#[test]
fn the_subject_half_compares_the_verified_subject_only() {
    assert_eq!(decide_user_subject(SA, Some(SA)), Decision::Allow);
    assert_eq!(
        decide_user_subject(SA, Some(OTHER_SA)),
        Decision::Deny(DenyReason::TokenSubjectMismatch)
    );
    assert_eq!(
        decide_user_subject(SA, None),
        Decision::Deny(DenyReason::TokenDidNotVerify)
    );
}

#[test]
fn the_client_identifier_is_the_certificate_subject() {
    assert_eq!(expected_client_id(SA), format!("CN={SA}"));
}

#[test]
fn a_session_stops_at_its_expiry() {
    let s = session();
    assert!(s.is_live(s.exp - 1));
    assert!(!s.is_live(s.exp));
    assert_eq!(
        decide_vhost("domo", Some(&s), s.exp),
        Decision::Deny(DenyReason::SessionExpired)
    );
}

#[test]
fn every_refusal_reason_has_an_operator_message() {
    assert_eq!(
        Decision::Deny(DenyReason::NoSession).reason(),
        Some(DenyReason::NoSession)
    );
    assert_eq!(Decision::Allow.reason(), None);
    for reason in [
        DenyReason::VhostNotDomo,
        DenyReason::UsernameNotAServiceAccount,
        DenyReason::ClientIdMissing,
        DenyReason::ClientIdNotBoundToUsername,
        DenyReason::TokenDidNotVerify,
        DenyReason::TokenSubjectMismatch,
        DenyReason::NoSession,
        DenyReason::SessionExpired,
        DenyReason::MalformedRequest,
        DenyReason::UnknownTenant,
        DenyReason::ResourceNotOwned,
        DenyReason::RoutingKeyOutsideNamespace,
    ] {
        assert!(!reason.message().is_empty());
    }
}
