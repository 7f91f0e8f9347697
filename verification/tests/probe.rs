use domo::probe::matrix::{AttemptAction, AttemptEvent, AttemptState, attempt_payload, attempt_start, attempt_step};
use domo::probe::tracer::{TracerAction, TracerEvent, TracerFailure, tracer_plan, tracer_running, tracer_start, tracer_step, tracer_verdict};
use domo::probe::fixtures::{fixture_stem, keypair_is_current};
use domo::probe::cases::{Credential, Expect, OTHER, PEER, Password, Probe, Target, UNBOUND, all, connect};
use domo::probe::fixtures::{DeviceAuth, Fixture, LoginRefusal, accept_device_token, fixture_path, stacked,
    tenant_ca_path};
use domo::probe::matrix::{AttemptError, ConnectCode, Observed, SignatureError, build_attempt, classify,
    corrupt_signature, cross_tenant_outcome, field, forged_identity, settle};

fn probe_fixture() -> Fixture {
    Fixture::assemble(
        "sa-1".to_owned(),
        "lakeside".to_owned(),
        b"LEAF",
        b"KEY".to_vec(),
        b"CA",
    )
}

#[test]
fn the_matrix_runs_every_case_in_order() {
    let cases = all();
    let names: Vec<&str> = cases.iter().map(|c| c.name).collect();
    assert_eq!(
        names,
        vec![
            "positive",
            "mismatched-cert",
            "malformed-token",
            "bad-signature",
            "wrong-tenant",
            "no-client-cert",
            "other-tenant-ca",
            "cross-tenant-ca-issuance",
            "namespace-sibling",
            "namespace-other-tenant",
            "namespace-adjacent",
            "empty-cert-binding",
        ]
    );
    assert_eq!(cases[0].expect, Expect::Connected);
    assert_eq!(
        cases[1].probe,
        connect(Credential::CertOf(PEER), Password::OwnToken, Target::Own)
    );
    assert_eq!(cases[4].probe, connect(Credential::Own, Password::TokenOf(OTHER), Target::Own));
    assert_eq!(cases[7].probe, Probe::CrossTenantIssuance);
    assert_eq!(cases[11].probe, Probe::DeviceLogin { fixture: UNBOUND });
    assert_eq!(cases[11].expect, Expect::LoginUnauthorized);
    assert!(cases.iter().all(|c| !c.why.is_empty()));
}

#[test]
fn each_outcome_satisfies_only_its_own_expectation() {
    assert!(Observed::RoundTripped.satisfies(Expect::Connected));
    assert!(!Observed::ConnectedButNoRoundTrip.satisfies(Expect::Connected));
    assert!(Observed::Handshake("alert".into()).satisfies(Expect::HandshakeFailed));
    assert!(Observed::Refused(ConnectCode::BadClientId).satisfies(Expect::BrokerRejectedIdentity));
    assert!(!Observed::Refused(ConnectCode::NotAuthorized).satisfies(Expect::BrokerRejectedIdentity));
    assert!(Observed::Refused(ConnectCode::NotAuthorized).satisfies(Expect::AuthorizationDenied));
    assert!(Observed::Refused(ConnectCode::BadUserNamePassword).satisfies(Expect::AuthorizationDenied));
    assert!(!Observed::Refused(ConnectCode::BadClientId).satisfies(Expect::AuthorizationDenied));
    assert!(Observed::ClosedAfterConnect("eof".into()).satisfies(Expect::PublishRefused));
    assert!(Observed::Timeout.satisfies(Expect::PublishRefused));
    assert!(!Observed::Timeout.satisfies(Expect::Connected));
    assert!(Observed::LoginStatus(401).satisfies(Expect::LoginUnauthorized));
    assert!(Observed::LoginStatus(403).satisfies(Expect::LoginUnauthorized));
    assert!(!Observed::LoginStatus(200).satisfies(Expect::LoginUnauthorized));
    assert!(Observed::IssuanceRefused("no".into()).satisfies(Expect::IssuanceRefused));
    assert!(!Observed::IssuanceAccepted("yes".into()).satisfies(Expect::IssuanceRefused));
}

#[test]
fn outcomes_describe_the_layer_that_decided() {
    assert_eq!(
        Observed::Refused(ConnectCode::BadClientId).describe(),
        "CONNACK refusal: BadClientId"
    );
    assert_eq!(Observed::LoginStatus(403).describe(), "device login returned HTTP 403");
    assert_eq!(
        Observed::Handshake("alert".into()).describe(),
        "TLS handshake failure (alert)"
    );
    assert_eq!(Expect::PublishRefused.describe(), "the publish refused after a successful connect");
}

#[test]
fn a_connection_error_is_classified_by_when_it_came() {
    assert!(matches!(
        classify(Some(ConnectCode::NotAuthorized), "x".into(), true),
        Observed::Refused(ConnectCode::NotAuthorized)
    ));
    assert!(matches!(classify(None, "eof".into(), true), Observed::ClosedAfterConnect(ref e) if e == "eof"));
    assert!(matches!(classify(None, "alert".into(), false), Observed::Handshake(ref e) if e == "alert"));
}

#[test]
fn a_silent_attempt_is_settled_by_what_it_expected() {
    assert!(matches!(settle(true, true, false), Observed::RoundTripped));
    assert!(matches!(settle(true, false, false), Observed::Timeout));
    assert!(matches!(settle(true, false, true), Observed::ConnectedButNoRoundTrip));
    assert!(matches!(settle(false, false, true), Observed::Timeout));
}

#[test]
fn a_corrupted_signature_keeps_the_header_and_payload() {
    assert_eq!(corrupt_signature("aGVh.cGF5.azZ9").unwrap(), "aGVh.cGF5.baA0");
    assert_eq!(corrupt_signature("a.b.-_").unwrap_err(), SignatureError::Unalterable);
    assert_eq!(corrupt_signature("a.b.").unwrap_err(), SignatureError::Unalterable);
    assert_eq!(corrupt_signature("no-dots").unwrap_err(), SignatureError::NotAJwt);
    assert_eq!(corrupt_signature("x.y.z-").unwrap(), "x.y.a-");
}

#[test]
fn an_attempt_names_the_probe_and_varies_one_hop() {
    let probe = probe_fixture();
    let a = build_attempt(
        &probe,
        probe.chain.clone(),
        probe.key.clone(),
        Password::OwnToken,
        Target::Own,
        "h.p.s",
        "other",
        "sa-2",
        "summit",
    )
    .unwrap();
    assert_eq!(a.client_id, "CN=sa-1");
    assert_eq!(a.username, "sa-1");
    assert_eq!(a.password, "h.p.s");
    assert_eq!(a.subscribe, "domo/lakeside/sa-1/#");
    assert_eq!(a.publish, "domo/lakeside/sa-1/reported");
    assert!(a.expect_round_trip);
    assert_eq!(a.chain, b"LEAF\nCA".to_vec());

    let targets = [
        (Target::Sibling, "domo/lakeside/sa-2/reported"),
        (Target::OtherTenant, "domo/summit/sa-1/reported"),
        (Target::Adjacent, "domo/lakeside/sa-1-extra/reported"),
    ];
    for (target, topic) in targets {
        let a = build_attempt(&probe, Vec::new(), Vec::new(), Password::Malformed, target, "t", "o", "sa-2", "summit")
            .unwrap();
        assert_eq!(a.publish, topic);
        assert_eq!(a.password, "not-a-token");
        assert!(!a.expect_round_trip);
        assert!(a.chain.is_empty());
    }
}

#[test]
fn only_the_other_tenants_token_is_loaded() {
    let probe = probe_fixture();
    let a = build_attempt(&probe, Vec::new(), Vec::new(), Password::TokenOf(OTHER), Target::Own, "t", "o", "p", "s")
        .unwrap();
    assert_eq!(a.password, "o");
    assert_eq!(
        build_attempt(&probe, Vec::new(), Vec::new(), Password::TokenOf(PEER), Target::Own, "t", "o", "p", "s")
            .unwrap_err(),
        AttemptError::NoTokenFor(PEER)
    );
    assert_eq!(
        build_attempt(&probe, Vec::new(), Vec::new(), Password::CorruptSignature, Target::Own, "t", "o", "p", "s")
            .unwrap_err(),
        AttemptError::Signature(SignatureError::NotAJwt)
    );
    let a = build_attempt(&probe, Vec::new(), Vec::new(), Password::CorruptSignature, Target::Own, "h.p.s", "o", "p", "s")
        .unwrap();
    assert_eq!(a.password, "h.p.t");
}

#[test]
fn the_forged_identity_falls_back_to_the_other_tenants_device() {
    let probe = probe_fixture();
    let other = Fixture::assemble("sa-9".into(), "summit".into(), b"OLEAF", b"OKEY".to_vec(), b"OCA");
    let (chain, key) = forged_identity(&probe, Some(b"FORGED"), &other, b"OCA");
    assert_eq!(chain, b"FORGED\nOCA".to_vec());
    assert_eq!(key, b"KEY".to_vec());
    let (chain, key) = forged_identity(&probe, None, &other, b"OCA");
    assert_eq!(chain, b"OLEAF\nOCA".to_vec());
    assert_eq!(key, b"OKEY".to_vec());
}

#[test]
fn the_recorded_issuance_outcome_is_read_back() {
    let accepted = br#"{"accepted":true,"certificate_id":"c-1","certificate_tenant_id":"t-2","issuer_ca_id":"ca-2","acting_tenant":"lakeside","acting_tenant_id":"t-1"}"#;
    match cross_tenant_outcome(accepted).unwrap() {
        Observed::IssuanceAccepted(d) => assert_eq!(
            d,
            "certificate c-1 stamped with tenant t-2, issued by CA ca-2 on behalf of 'lakeside (t-1)'"
        ),
        other => panic!("expected an acceptance, got {other:?}"),
    }
    match cross_tenant_outcome(br#"{"accepted":false,"detail":"403 forbidden"}"#).unwrap() {
        Observed::IssuanceRefused(d) => assert_eq!(d, "403 forbidden"),
        other => panic!("expected a refusal, got {other:?}"),
    }
    match cross_tenant_outcome(br#"{}"#).unwrap() {
        Observed::IssuanceRefused(d) => assert_eq!(d, "?"),
        other => panic!("expected a refusal, got {other:?}"),
    }
    assert!(cross_tenant_outcome(b"not json").is_err());
    assert_eq!(field(br#"{"a":"b"}"#, "a"), "b");
    assert_eq!(field(br#"{"a":1}"#, "a"), "?");
}

#[test]
fn a_device_login_is_accepted_only_with_a_bearer_token() {
    let auth = DeviceAuth {
        access_token: "tok".into(),
        token_type: "Bearer".into(),
        expires_in: Some(900),
    };
    assert_eq!(accept_device_token(200, &auth).unwrap(), "tok");
    assert_eq!(accept_device_token(401, &auth).unwrap_err(), LoginRefusal::Status(401));
    let mac = DeviceAuth { token_type: "MAC".into(), ..auth.clone() };
    assert_eq!(accept_device_token(200, &mac).unwrap_err(), LoginRefusal::UnexpectedTokenType);
    let empty = DeviceAuth { access_token: String::new(), ..auth };
    assert_eq!(accept_device_token(200, &empty).unwrap_err(), LoginRefusal::EmptyToken);
}

#[test]
fn fixtures_are_kept_under_smoke() {
    assert_eq!(fixture_path("smoke-probe-device", "key"), "smoke/smoke-probe-device.key");
    assert_eq!(tenant_ca_path("summit"), "axiam/summit-ca.pem");
    assert_eq!(stacked(b"A", b"B"), b"A\nB".to_vec());
    let f = probe_fixture();
    assert_eq!(f.identity_pem(), b"LEAF\nCA\nKEY".to_vec());
}

#[test]
fn an_attempt_is_driven_by_what_the_broker_reports() {
    let s = attempt_start();
    assert_eq!(s, AttemptState { connected: false, round_tripped: false });
    let (s, a) = attempt_step(s, AttemptEvent::ConnAck(ConnectCode::Success), "t");
    assert!(s.connected && matches!(a, AttemptAction::Subscribe));
    let (s, a) = attempt_step(s, AttemptEvent::SubAck, "t");
    assert!(matches!(a, AttemptAction::Publish));
    let (s2, a) = attempt_step(s, AttemptEvent::Message("other".into()), "t");
    assert!(!s2.round_tripped && matches!(a, AttemptAction::Wait));
    let (s, _) = attempt_step(s, AttemptEvent::Message("t".into()), "t");
    assert!(s.round_tripped);
    let (_, a) = attempt_step(attempt_start(), AttemptEvent::ConnAck(ConnectCode::BadClientId), "t");
    assert!(matches!(a, AttemptAction::Finish(Observed::Refused(ConnectCode::BadClientId))));
    let (_, a) = attempt_step(s, AttemptEvent::Failed(None, "eof".into()), "t");
    assert!(matches!(a, AttemptAction::Finish(Observed::ClosedAfterConnect(_))));
    let (_, a) = attempt_step(attempt_start(), AttemptEvent::Failed(None, "alert".into()), "t");
    assert!(matches!(a, AttemptAction::Finish(Observed::Handshake(_))));
    assert_eq!(attempt_payload("sa-1"), r#"{"probe":"sa-1"}"#);
}

#[test]
fn the_tracer_needs_the_round_trip() {
    let plan = tracer_plan("lakeside", "sa-1");
    assert_eq!(plan.client_id, "CN=sa-1");
    assert_eq!(plan.topic, "domo/lakeside/sa-1/reported");
    assert_eq!(plan.filter, "domo/lakeside/sa-1/#");
    assert_eq!(plan.payload, r#"{"probe":"sa-1","state":"online"}"#);
    let s = tracer_start();
    assert!(tracer_running(s));
    assert_eq!(tracer_verdict(s), Err(TracerFailure::NeverSubscribed));
    let (s, a) = tracer_step(s, TracerEvent::ConnAck(ConnectCode::Success), &plan.topic);
    assert_eq!(a, TracerAction::Subscribe(ConnectCode::Success));
    let (s, a) = tracer_step(s, TracerEvent::SubAck, &plan.topic);
    assert_eq!(a, TracerAction::Publish);
    assert_eq!(tracer_verdict(s), Err(TracerFailure::NeverPublished));
    let (acked, _) = tracer_step(s, TracerEvent::PubAck, &plan.topic);
    assert_eq!(tracer_verdict(acked), Err(TracerFailure::NoRoundTrip));
    // The copy may arrive before the acknowledgement; the round trip alone passes.
    let (s, a) = tracer_step(s, TracerEvent::Message(plan.topic.clone()), &plan.topic);
    assert_eq!(a, TracerAction::RoundTrip);
    assert!(!tracer_running(s));
    assert_eq!(tracer_verdict(s), Ok(()));
    let (_, a) = tracer_step(s, TracerEvent::Failed("refused".into()), &plan.topic);
    assert_eq!(a, TracerAction::Fail("refused".into()));
}

#[test]
fn fixture_keys_are_reused_only_for_their_own_account() {
    assert!(keypair_is_current(true, true, Some("sa-1"), "sa-1"));
    assert!(!keypair_is_current(true, true, Some("sa-0"), "sa-1"));
    assert!(!keypair_is_current(true, false, Some("sa-1"), "sa-1"));
    assert!(!keypair_is_current(true, true, None, "sa-1"));
    assert_eq!(fixture_stem("smoke-probe-device.sa-id").as_deref(), Some("smoke-probe-device"));
    assert_eq!(fixture_stem("a.b.sa-id").as_deref(), Some("a.b"));
    assert_eq!(fixture_stem("smoke-probe-device.key"), None);
    assert_eq!(fixture_stem(".sa-id"), None);
    assert_eq!(fixture_stem("sa-id"), None);
}

#[test]
fn fixture_names_are_read_from_the_listing_and_sorted() {
    let listing: Vec<String> = ["smoke-peer-device.sa-id", "smoke-peer-device.key", "README", "smoke-other.sa-id", "b.sa-id"]
        .iter()
        .map(|s| (*s).to_owned())
        .collect();
    assert_eq!(
        domo::probe::fixtures::fixture_names(&listing),
        vec!["b".to_owned(), "smoke-other".to_owned(), "smoke-peer-device".to_owned()]
    );
}
