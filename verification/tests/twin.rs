use domo::rmq::connect::{ConnectRoute, VerifiedToken, answer_resource, answer_topic, answer_vhost, connect_finish,
    connect_route};
use domo::rmq::decide::{Decision, DenyReason};
use domo::rmq::forms::{ResourceReq, TopicReq, UserReq, VhostReq};
use domo::rmq::decide::Session;
use domo::tenants::{Cached, SessionCache, tenant_map};
use domo::tls::{TlsError, client_config, client_config_with_identity, client_identity, root_certificates,
    server_config};

const SA: &str = "01a0be43-4c1e-4f8f-9c0a-2f1d3b5e7a90";
const LAKESIDE_ID: &str = "11111111-1111-1111-1111-111111111111";
const NOW: i64 = 1_700_000_000;

fn user_req(client_id: Option<&str>) -> UserReq {
    UserReq {
        username: SA.into(),
        password: "token".into(),
        vhost: Some("domo".into()),
        client_id: client_id.map(str::to_owned),
    }
}

#[test]
fn a_connect_is_routed_to_its_tenants_verifier() {
    let cid = format!("CN={SA}");
    assert_eq!(
        connect_route(&user_req(Some(&cid)), Some(LAKESIDE_ID.into()), Some("lakeside".into())),
        ConnectRoute::Verify { tenant_id: LAKESIDE_ID.into(), tenant_slug: "lakeside".into() }
    );
    assert_eq!(
        connect_route(&user_req(Some(&cid)), Some(LAKESIDE_ID.into()), None),
        ConnectRoute::Deny(DenyReason::UnknownTenant)
    );
    assert_eq!(
        connect_route(&user_req(Some(&cid)), None, None),
        ConnectRoute::Deny(DenyReason::UnknownTenant)
    );
    assert_eq!(
        connect_route(&user_req(None), Some(LAKESIDE_ID.into()), Some("lakeside".into())),
        ConnectRoute::Deny(DenyReason::ClientIdMissing)
    );
}

fn vhost_req() -> VhostReq {
    VhostReq { username: SA.into(), vhost: "domo".into(), ip: None, tags: None }
}

#[test]
fn a_successful_connect_caches_the_tenant_and_the_tokens_own_expiry() {
    let mut cache = SessionCache::new();
    let verified = VerifiedToken { sub: SA.into(), exp: NOW + 3_600 };
    let d = connect_finish(SA, Some(verified), LAKESIDE_ID.into(), "lakeside".into(), &mut cache);
    assert_eq!(d, Decision::Allow);
    let s = cache.get(SA).unwrap();
    assert_eq!(s.tenant_id, LAKESIDE_ID);
    assert_eq!(s.tenant_slug, "lakeside");
    assert_eq!(s.exp, NOW + 3_600);
    assert_eq!(answer_vhost(&cache, &vhost_req(), NOW), Decision::Allow);
    assert_eq!(
        answer_vhost(&cache, &vhost_req(), NOW + 3_600),
        Decision::Deny(DenyReason::SessionExpired)
    );
    let topic = TopicReq {
        username: SA.into(),
        vhost: "domo".into(),
        resource: "topic".into(),
        name: "amq.topic".into(),
        permission: "write".into(),
        routing_key: format!("domo.lakeside.{SA}.reported"),
        tags: None,
        variable_map_username: None,
        variable_map_vhost: None,
        variable_map_client_id: None,
    };
    assert_eq!(answer_topic(&cache, &topic, NOW), Decision::Allow);
    let resource = ResourceReq {
        username: SA.into(),
        vhost: "domo".into(),
        resource: "exchange".into(),
        name: "amq.topic".into(),
        permission: "write".into(),
        tags: None,
    };
    assert_eq!(answer_resource(&cache, &resource, NOW), Decision::Allow);
}

#[test]
fn a_refused_connect_caches_nothing() {
    let mut cache = SessionCache::new();
    let other = VerifiedToken { sub: "someone-else".into(), exp: NOW + 3_600 };
    let d = connect_finish(SA, Some(other), LAKESIDE_ID.into(), "lakeside".into(), &mut cache);
    assert_eq!(d, Decision::Deny(DenyReason::TokenSubjectMismatch));
    assert!(cache.is_empty());
    let d = connect_finish(SA, None, LAKESIDE_ID.into(), "lakeside".into(), &mut cache);
    assert_eq!(d, Decision::Deny(DenyReason::TokenDidNotVerify));
    assert!(cache.is_empty());
    assert_eq!(answer_vhost(&cache, &vhost_req(), NOW), Decision::Deny(DenyReason::NoSession));
}

#[test]
fn the_tenant_map_rereads_only_when_the_file_moved() {
    let doc = format!(r#"{{"{LAKESIDE_ID}":"lakeside"}}"#);
    let map = tenant_map(Some(doc.as_bytes()), Some(5));
    assert_eq!(map.lookup(LAKESIDE_ID).as_deref(), Some("lakeside"));
    assert_eq!(map.resolve(LAKESIDE_ID, Some(9)), Cached::Hit("lakeside".into()));
    assert_eq!(map.resolve("unknown", Some(5)), Cached::Miss);
    assert_eq!(map.resolve("unknown", Some(6)), Cached::Stale);
    assert_eq!(map.resolve("unknown", None), Cached::Stale);
    let empty = tenant_map(Some(b"not json"), None);
    assert!(empty.slugs.is_empty());
    assert_eq!(empty.resolve("unknown", None), Cached::Miss);
    assert!(tenant_map(None, None).slugs.is_empty());
    assert!(tenant_map(Some(br#"{"a":1}"#), None).slugs.is_empty());
}

fn self_signed() -> (String, String) {
    let key = rcgen::KeyPair::generate_for(&rcgen::PKCS_ED25519).unwrap();
    let params = rcgen::CertificateParams::new(vec!["twin".to_owned()]).unwrap();
    let cert = params.self_signed(&key).unwrap();
    (cert.pem(), key.serialize_pem())
}

#[test]
fn tls_configurations_trust_only_the_given_root() {
    let (cert, key) = self_signed();
    assert_eq!(root_certificates(cert.as_bytes()).unwrap().len(), 1);
    assert_eq!(root_certificates(b"").unwrap_err(), TlsError::NoRootCertificate);
    assert!(client_config(cert.as_bytes()).is_ok());
    assert_eq!(client_config(b"").unwrap_err(), TlsError::NoRootCertificate);
    assert!(client_config_with_identity(cert.as_bytes(), cert.as_bytes(), key.as_bytes()).is_ok());
    assert_eq!(
        client_config_with_identity(cert.as_bytes(), b"", key.as_bytes()).unwrap_err(),
        TlsError::EmptyChain
    );
    assert_eq!(
        client_config_with_identity(cert.as_bytes(), cert.as_bytes(), cert.as_bytes()).unwrap_err(),
        TlsError::NoKey
    );
    assert_eq!(client_identity(cert.as_bytes(), b"").unwrap_err(), TlsError::NoKey);
    assert!(server_config(cert.as_bytes(), key.as_bytes()).is_ok());
    assert_eq!(server_config(cert.as_bytes(), b"").unwrap_err(), TlsError::NoKey);
}

#[test]
fn the_first_bad_section_of_a_root_bundle_decides_the_error() {
    let (cert, key) = self_signed();
    let rejected = "-----BEGIN CERTIFICATE-----\nAAAA\n-----END CERTIFICATE-----\n";
    let malformed = "-----BEGIN CERTIFICATE-----\n!!!!\n-----END CERTIFICATE-----\n";
    assert_eq!(root_certificates(rejected.as_bytes()).unwrap_err(), TlsError::RejectedRoot);
    assert_eq!(root_certificates(malformed.as_bytes()).unwrap_err(), TlsError::MalformedRoot);
    let rejected_first = format!("{rejected}{malformed}");
    assert_eq!(root_certificates(rejected_first.as_bytes()).unwrap_err(), TlsError::RejectedRoot);
    let malformed_first = format!("{malformed}{rejected}");
    assert_eq!(root_certificates(malformed_first.as_bytes()).unwrap_err(), TlsError::MalformedRoot);
    assert_eq!(client_config(rejected.as_bytes()).unwrap_err(), TlsError::RejectedRoot);
    assert_eq!(
        client_config_with_identity(rejected.as_bytes(), cert.as_bytes(), key.as_bytes()).unwrap_err(),
        TlsError::RejectedRoot
    );
    // A key that does not belong to the leaf is refused by rustls.
    let (_, other_key) = self_signed();
    assert_eq!(server_config(cert.as_bytes(), other_key.as_bytes()).unwrap_err(), TlsError::Refused);
}

#[test]
fn a_write_grows_the_cache_only_for_a_new_name() {
    let mut cache = SessionCache::new();
    assert!(cache.is_empty());
    let s = |exp: i64| Session { tenant_id: LAKESIDE_ID.into(), tenant_slug: "lakeside".into(), exp };
    cache.insert(SA, s(NOW));
    assert_eq!(cache.len(), 1);
    cache.insert(SA, s(NOW + 1));
    assert_eq!(cache.len(), 1);
    assert_eq!(cache.get(SA).unwrap().exp, NOW + 1);
    cache.insert("another-account", s(NOW));
    assert_eq!(cache.len(), 2);
    assert!(!cache.is_empty());
    assert_eq!(cache.get(SA).unwrap().exp, NOW + 1);
}
