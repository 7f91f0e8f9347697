use base64::Engine as _;
use domo::tenants::{M2M_AUDIENCE, peek_tenant_id};

const SA: &str = "01a0be43-4c1e-4f8f-9c0a-2f1d3b5e7a90";
const HARBOUR_ID: &str = "22222222-2222-2222-2222-222222222222";

/// A device access token, shaped like AXIAM's own, signed with an in-process
/// Ed25519 key.
fn signed_device_token(sub: &str, tenant_id: &str) -> String {
    let kp = rcgen::KeyPair::generate_for(&rcgen::PKCS_ED25519)
        .expect("generating a fixture Ed25519 key");
    let encoding = jsonwebtoken::EncodingKey::from_ed_der(&kp.serialize_der());
    let mut header = jsonwebtoken::Header::new(jsonwebtoken::Algorithm::EdDSA);
    header.kid = Some("kid".to_owned());
    let mut claims = serde_json::Map::new();
    claims.insert("sub".into(), serde_json::Value::String(sub.to_owned()));
    claims.insert("tenant_id".into(), serde_json::Value::String(tenant_id.to_owned()));
    claims.insert("iss".into(), serde_json::Value::String("https://axiam.test".into()));
    claims.insert("aud".into(), serde_json::Value::String(M2M_AUDIENCE.into()));
    claims.insert("exp".into(), serde_json::Value::from(4_102_444_800_i64));
    claims.insert("iat".into(), serde_json::Value::from(1_700_000_000_i64));
    jsonwebtoken::encode(&header, &serde_json::Value::Object(claims), &encoding)
        .expect("signing a fixture token")
}

#[test]
fn rmq_tokens_tenant_peek_reads_the_claim_without_verifying() {
    let token = signed_device_token(SA, HARBOUR_ID);
    assert_eq!(peek_tenant_id(&token).as_deref(), Some(HARBOUR_ID));
}

#[test]
fn tenant_peek_is_total_on_garbage() {
    for garbage in ["", "not-a-jwt", "a.b", "a.!!!.c", "....."] {
        assert_eq!(
            peek_tenant_id(garbage),
            None,
            "{garbage:?} must not yield a tenant"
        );
    }
}

fn segment(json: &[u8]) -> String {
    base64::engine::general_purpose::URL_SAFE_NO_PAD.encode(json)
}

#[test]
fn tenant_peek_reads_only_the_second_segment() {
    let claim = segment(br#"{"tenant_id":"t-1"}"#);
    let other = segment(br#"{"tenant_id":"t-2"}"#);
    assert_eq!(peek_tenant_id(&format!("{claim}.{other}.x")).as_deref(), Some("t-2"));
    // Two segments are enough for the peek: the signature is not its concern.
    assert_eq!(peek_tenant_id(&format!("x.{other}")).as_deref(), Some("t-2"));
}

#[test]
fn tenant_peek_needs_a_string_claim() {
    let numeric = segment(br#"{"tenant_id":7}"#);
    let missing = segment(br#"{"sub":"sa-1"}"#);
    let not_json = segment(b"tenant_id");
    assert_eq!(peek_tenant_id(&format!("h.{numeric}.s")), None);
    assert_eq!(peek_tenant_id(&format!("h.{missing}.s")), None);
    assert_eq!(peek_tenant_id(&format!("h.{not_json}.s")), None);
    // Padded base64 is not the token alphabet.
    assert_eq!(peek_tenant_id("h.eyJ0ZW5hbnRfaWQiOiJ0LTEifQ==.s"), None);
}
