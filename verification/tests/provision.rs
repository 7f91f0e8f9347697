use domo::bootstrap::provision::{
    Binding, CertRecord, ListedResource, Named, Resolution, ServiceCertVerdict, StableId, VhostAction,
    binding_in_place, bound_certificate, contains_text, csr_header_accepted, demo_tenants, find_id, is_member,
    needs_trust_anchor, resolve_named, reusable_fixture_certificate, reusable_service_certificate,
    root_ca_position, roots, service_certificate_verdict, signing_ca_subject, stable_identifier, vhost_action,
    vhost_names,
};

fn named(id: u128, name: &str) -> Named {
    Named { id, name: name.to_owned() }
}

fn cert(id: u128, bound: Option<u128>, active: bool, issuer: u128, tenant: u128, matches_key: bool) -> CertRecord {
    CertRecord { id, bound_account: bound, active, issuer_ca_id: issuer, tenant_id: tenant, matches_key }
}

#[test]
fn a_natural_key_resolves_to_its_first_holder() {
    let list = [named(1, "a"), named(2, "b"), named(3, "b")];
    assert_eq!(find_id(&list, "b"), Some(2));
    assert_eq!(find_id(&list, "c"), None);
}

#[test]
fn resolving_before_creating_refuses_a_duplicate() {
    let list = [named(1, "apartment:x"), named(2, "apartment:y"), named(3, "apartment:y")];
    assert_eq!(resolve_named(&list, "apartment:x"), Resolution::Found(1));
    assert_eq!(resolve_named(&list, "apartment:z"), Resolution::Absent);
    assert_eq!(resolve_named(&list, "apartment:y"), Resolution::Ambiguous(2));
    assert_eq!(resolve_named(&[], "portfolio"), Resolution::Absent);
}

#[test]
fn the_roots_are_the_resources_without_a_parent() {
    let all = [
        ListedResource { id: 1, parent_id: None, name: "portfolio".into(), tenant_id: 9 },
        ListedResource { id: 2, parent_id: Some(1), name: "site:a".into(), tenant_id: 9 },
        ListedResource { id: 3, parent_id: None, name: "portfolio".into(), tenant_id: 9 },
    ];
    let r = roots(&all);
    assert_eq!(r.iter().map(|n| n.id).collect::<Vec<_>>(), vec![1, 3]);
    assert_eq!(resolve_named(&r, "portfolio"), Resolution::Ambiguous(2));
}

#[test]
fn a_stable_identifier_must_differ_from_the_name() {
    assert_eq!(stable_identifier(Some("5f0c"), "portfolio"), StableId::Distinct("5f0c".into()));
    assert_eq!(stable_identifier(Some("portfolio"), "portfolio"), StableId::NotDistinct);
    assert_eq!(stable_identifier(Some(""), "portfolio"), StableId::NotDistinct);
    assert_eq!(stable_identifier(None, "portfolio"), StableId::Missing);
}

#[test]
fn a_binding_counts_only_at_its_own_scope() {
    let b = [
        Binding { group_id: 1, resource_id: None },
        Binding { group_id: 1, resource_id: Some(7) },
    ];
    assert!(binding_in_place(&b, 1, 7));
    assert!(!binding_in_place(&b, 1, 8));
    assert!(!binding_in_place(&b, 2, 7));
    assert!(is_member(&[4, 5], 5));
    assert!(!is_member(&[4, 5], 6));
}

#[test]
fn certificates_are_reused_only_for_the_key_held() {
    let certs = [
        cert(10, Some(1), true, 100, 9, false),
        cert(11, Some(1), false, 100, 9, true),
        cert(12, Some(1), true, 100, 9, true),
        cert(13, None, true, 100, 9, true),
    ];
    assert_eq!(bound_certificate(&certs, 1), Some(0));
    assert_eq!(bound_certificate(&certs, 2), None);
    assert_eq!(reusable_service_certificate(&certs, 1), Some(2));
    assert_eq!(reusable_fixture_certificate(&certs, None, 100), Some(3));
    assert_eq!(reusable_fixture_certificate(&certs, Some(1), 100), Some(2));
    assert_eq!(reusable_fixture_certificate(&certs, Some(1), 200), None);
}

#[test]
fn a_service_account_has_exactly_one_certificate_from_its_own_ca() {
    let good = [cert(1, Some(5), true, 100, 9, true), cert(2, Some(5), false, 100, 9, true)];
    assert_eq!(service_certificate_verdict(&good, 5, 100, 9), ServiceCertVerdict::Good);
    let two = [cert(1, Some(5), true, 100, 9, true), cert(2, Some(5), true, 100, 9, true)];
    assert_eq!(service_certificate_verdict(&two, 5, 100, 9), ServiceCertVerdict::ActiveCount(2));
    assert_eq!(service_certificate_verdict(&[], 5, 100, 9), ServiceCertVerdict::ActiveCount(0));
    let foreign = [cert(1, Some(5), true, 200, 9, true)];
    assert_eq!(service_certificate_verdict(&foreign, 5, 100, 9), ServiceCertVerdict::WrongIssuer(200));
    let stamped = [cert(1, Some(5), true, 100, 8, true)];
    assert_eq!(service_certificate_verdict(&stamped, 5, 100, 9), ServiceCertVerdict::WrongTenant(8));
}

#[test]
fn a_legacy_request_header_is_refused() {
    assert!(csr_header_accepted("-----BEGIN CERTIFICATE REQUEST-----\nMIIB\n"));
    assert!(!csr_header_accepted("-----BEGIN NEW CERTIFICATE REQUEST-----\nMIIB\n"));
    assert!(contains_text("abcabd", "abd"));
    assert!(!contains_text("ab", "abc"));
    assert!(contains_text("ab", ""));
}

#[test]
fn the_organization_tenant_gets_no_signing_ca() {
    let tenants = [named(1, "organization"), named(2, "lakeside"), named(3, "summit")];
    let demo = demo_tenants(&tenants);
    assert_eq!(demo.iter().map(|t| t.name.as_str()).collect::<Vec<_>>(), vec!["lakeside", "summit"]);
    assert_eq!(signing_ca_subject("Lakeside Residences"), "Lakeside Residences Signing CA");
    assert!(needs_trust_anchor(None));
    assert!(needs_trust_anchor(Some(false)));
    assert!(!needs_trust_anchor(Some(true)));
}

#[test]
fn the_root_is_found_by_its_payload() {
    let root = "-----BEGIN CERTIFICATE-----\nAAAA\nBBBB\n-----END CERTIFICATE-----\n";
    let other = "-----BEGIN CERTIFICATE-----\nCCCC\n-----END CERTIFICATE-----\n";
    let rewrapped = "-----BEGIN CERTIFICATE-----\r\nAAAABBBB\r\n-----END CERTIFICATE-----";
    let cas = vec![other.to_owned(), rewrapped.to_owned()];
    assert_eq!(root_ca_position(&cas, root), Some(1));
    assert_eq!(root_ca_position(&cas[..1], root), None);
}

#[test]
fn the_broker_stage_never_touches_the_default_vhost() {
    let names = vhost_names(br#"[{"name":"/"},{"tracing":false},{"name":"domo"}]"#);
    assert_eq!(names, vec!["/".to_owned(), "domo".to_owned()]);
    assert_eq!(vhost_action(&names), VhostAction::Reuse);
    assert_eq!(vhost_action(&["/".to_owned()]), VhostAction::Create);
    assert_eq!(vhost_action(&["domo".to_owned()]), VhostAction::Refuse);
    assert!(vhost_names(b"{}").is_empty());
}
