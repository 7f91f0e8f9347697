use domo::bootstrap::stages::{Credentials, DOMAIN_ID_KEY, SUPER_ADMIN_PATH, account_name, cert_path, key_path,
    password_from, same_certificate, tenant_admin_path};

const CERT: &str = "-----BEGIN CERTIFICATE-----\nMIIBszCCAVmg\nAwIBAgIU\n-----END CERTIFICATE-----\n";

#[test]
fn service_accounts_are_named_service_at_tenant() {
    assert_eq!(account_name("mgmt", "lakeside"), "mgmt@lakeside");
    assert_eq!(cert_path("mgmt", "lakeside"), "axiam/service/mgmt@lakeside.pem");
    assert_eq!(key_path("mgmt", "lakeside"), "axiam/service/mgmt@lakeside.key");
}

#[test]
fn credentials_are_kept_per_tenant() {
    assert_eq!(tenant_admin_path("lakeside"), "axiam/tenant-admin-lakeside.json");
    assert_eq!(SUPER_ADMIN_PATH, "axiam/super-admin.json");
    assert_eq!(DOMAIN_ID_KEY, "domo_id");
    let c = Credentials::tenant_admin("domo", "lakeside", password_from("tail"));
    assert_eq!(c.email, "admin@lakeside.domo.local");
    assert_eq!(c.username, "lakeside-admin");
    assert_eq!(c.password, "Ax1!tail");
    assert_eq!(c.org_slug, "domo");
    let s = Credentials::super_admin("domo", password_from("x"));
    assert_eq!(s.email, "admin@domo.local");
    assert_eq!(s.username, "admin");
}

#[test]
fn certificates_compare_by_their_payload() {
    let rewrapped = "-----BEGIN CERTIFICATE-----\r\nMIIBszCCAVmgAwIBAgIU\r\n-----END CERTIFICATE-----";
    assert!(same_certificate(CERT, rewrapped));
    assert!(same_certificate(CERT, CERT));
    let other = "-----BEGIN CERTIFICATE-----\nMIIBszCCAVmgAwIBAgIV\n-----END CERTIFICATE-----\n";
    assert!(!same_certificate(CERT, other));
    // An empty payload matches nothing, itself included.
    assert!(!same_certificate("", ""));
    assert!(!same_certificate("-----BEGIN X-----\n-----END X-----", "-----BEGIN X-----\n-----END X-----"));
}
