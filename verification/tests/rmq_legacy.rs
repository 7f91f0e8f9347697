use base64::Engine as _;
use domo::rmq::{Decision, Session, UserFacts, decide_resource, decide_topic, decide_user, decide_vhost,
    peek_tenant_id};

fn session() -> Session {
    Session {
        tenant_id: "11111111-1111-1111-1111-111111111111".into(),
        tenant_slug: "lakeside".into(),
        exp: 4_102_444_800,
    }
}

#[test]
fn rmq_connect_allowed_when_every_hop_agrees() {
    let f = UserFacts {
        username: "sa-1",
        vhost: Some("domo"),
        client_id: Some("CN=sa-1"),
        jwt_sub: Some("sa-1"),
    };
    assert_eq!(decide_user(&f), Decision::Allow);
}

#[test]
fn rmq_connect_refused_when_client_id_is_not_the_certificate_subject() {
    // This is the hop that makes a stolen token useless without the cert.
    let f = UserFacts {
        username: "sa-1",
        vhost: Some("domo"),
        client_id: Some("CN=sa-2"),
        jwt_sub: Some("sa-1"),
    };
    assert!(!decide_user(&f).is_allow());
}

#[test]
fn rmq_connect_refused_when_token_names_another_account() {
    let f = UserFacts {
        username: "sa-1",
        vhost: Some("domo"),
        client_id: Some("CN=sa-1"),
        jwt_sub: Some("sa-2"),
    };
    assert!(!decide_user(&f).is_allow());
}

#[test]
fn connect_refused_without_a_verified_token_or_a_client_id() {
    let base = UserFacts {
        username: "sa-1",
        vhost: Some("domo"),
        client_id: Some("CN=sa-1"),
        jwt_sub: None,
    };
    assert!(!decide_user(&base).is_allow());

    let no_cid = UserFacts {
        client_id: None,
        jwt_sub: Some("sa-1"),
        ..base.clone()
    };
    assert!(!decide_user(&no_cid).is_allow());
}

#[test]
fn rmq_other_vhosts_are_never_reachable() {
    let f = UserFacts {
        username: "sa-1",
        vhost: Some("/"),
        client_id: Some("CN=sa-1"),
        jwt_sub: Some("sa-1"),
    };
    assert!(!decide_user(&f).is_allow());
    assert!(!decide_vhost("/", Some(&session())).is_allow());
}

#[test]
fn resources_are_limited_to_the_shared_exchange_and_own_queues() {
    let s = session();
    assert!(decide_resource("domo", "sa-1", "exchange", "amq.topic", Some(&s)).is_allow());
    assert!(
        decide_resource(
            "domo",
            "sa-1",
            "queue",
            "mqtt-subscription-CN=sa-1qos0",
            Some(&s)
        )
        .is_allow()
    );
    // Another device's queue.
    assert!(
        !decide_resource(
            "domo",
            "sa-1",
            "queue",
            "mqtt-subscription-CN=sa-2qos0",
            Some(&s)
        )
        .is_allow()
    );
    // Any other exchange.
    assert!(!decide_resource("domo", "sa-1", "exchange", "amq.fanout", Some(&s)).is_allow());
}

#[test]
fn topics_are_confined_to_the_devices_own_space() {
    let s = session();
    assert!(decide_topic("domo", "sa-1", "domo.lakeside.sa-1.reported", Some(&s)).is_allow());
    assert!(decide_topic("domo", "sa-1", "domo.lakeside.sa-1.#", Some(&s)).is_allow());
    assert!(!decide_topic("domo", "sa-1", "domo.lakeside.sa-2.reported", Some(&s)).is_allow());
    assert!(!decide_topic("domo", "sa-1", "domo.harbour.sa-1.reported", Some(&s)).is_allow());
}

#[test]
fn rmq_everything_denies_without_a_session() {
    assert!(!decide_vhost("domo", None).is_allow());
    assert!(!decide_resource("domo", "sa-1", "exchange", "amq.topic", None).is_allow());
    assert!(!decide_topic("domo", "sa-1", "domo.lakeside.sa-1.x", None).is_allow());
}

#[test]
fn rmq_tenant_peek_reads_the_claim_without_verifying() {
    let payload = base64::engine::general_purpose::URL_SAFE_NO_PAD
        .encode(br#"{"sub":"sa-1","tenant_id":"t-9"}"#);
    let jwt = format!("aGVhZGVy.{payload}.c2ln");
    assert_eq!(peek_tenant_id(&jwt).as_deref(), Some("t-9"));
    assert_eq!(peek_tenant_id("not-a-jwt"), None);
}

#[test]
fn rmq_the_wire_body_never_leaks_a_reason() {
    assert_eq!(Decision::Allow.body(), "allow");
    assert_eq!(Decision::Deny("anything at all").body(), "deny");
}

#[test]
fn a_queue_named_after_the_user_but_not_derived_from_it_is_denied() {
    let s = session();
    assert!(decide_resource("domo", "sa-1", "queue", "mqtt-will-CN=sa-1", Some(&s)).is_allow());
    assert!(!decide_resource("domo", "sa-1", "queue", "mqtt-will-CN=sa-12", Some(&s)).is_allow());
    assert!(!decide_resource("domo", "sa-1", "queue", "mqtt-subscription-CN=sa-1", Some(&s)).is_allow());
    assert!(!decide_resource("domo", "sa-1", "queue", "mqtt-subscription-CN=sa-1qos2", Some(&s)).is_allow());
    assert!(!decide_resource("/", "sa-1", "exchange", "amq.topic", Some(&s)).is_allow());
}
