use domo::bootstrap::org::{OrgAction, OrgEvent, OrgPhase, org_start, org_step, setup_token};
use domo::hand_rolled::{
    AdminFailure, AdminStep, BootstrapOutcome, HandRolled, LoginFailure, activation_body, admin_next,
    assignment_body, bootstrap_body, id_by_field, login_body, login_token, new_user_body, role_users_path,
    usable_id, user_path, user_search_path,
};
use domo::keys::{carries_public_key, identity_request};

const USER_ID: &str = "01a0be43-4c1e-4f8f-9c0a-2f1d3b5e7a90";
const ROLE_ID: &str = "7f2c9d10-55aa-4b3c-8e21-0d4f6a8b1c33";

#[test]
fn an_organization_that_signs_in_is_left_alone() {
    let (phase, action) = org_start();
    assert_eq!(action, OrgAction::SignIn);
    assert_eq!(org_step(phase, OrgEvent::SignedIn), (OrgPhase::Probing, OrgAction::Finish));
}

#[test]
fn a_consumed_gate_without_a_working_credential_needs_a_reset() {
    let (p, a) = org_step(OrgPhase::Probing, OrgEvent::SignInRefused);
    assert_eq!((p, a), (OrgPhase::Bootstrapping, OrgAction::CallBootstrap));
    let (p, a) = org_step(p, OrgEvent::Bootstrapped(BootstrapOutcome::GateConsumed));
    assert_eq!((p, a), (OrgPhase::Retrying, OrgAction::SignIn));
    assert_eq!(org_step(p, OrgEvent::SignInRefused).1, OrgAction::ResetRequired);
    assert_eq!(org_step(p, OrgEvent::SignedIn), (OrgPhase::Verifying, OrgAction::CheckSession));
}

#[test]
fn a_created_organization_proves_its_session() {
    let (p, a) = org_step(OrgPhase::Bootstrapping, OrgEvent::Bootstrapped(BootstrapOutcome::Created));
    assert_eq!((p, a), (OrgPhase::Verifying, OrgAction::CheckSession));
    assert_eq!(org_step(p, OrgEvent::Session(false)).1, OrgAction::SignInAndFinish);
    assert_eq!(org_step(p, OrgEvent::Session(true)).1, OrgAction::Finish);
    assert_eq!(org_step(OrgPhase::Probing, OrgEvent::Session(true)).1, OrgAction::Unexpected);
    assert_eq!(setup_token(Some("given"), Some("saved")).as_deref(), Some("given"));
    assert_eq!(setup_token(None, Some("saved")).as_deref(), Some("saved"));
    assert_eq!(setup_token(None, None), None);
}

#[test]
fn a_session_echoes_its_csrf_token_only_when_mutating() {
    let mut s = HandRolled::new("https://axiam:8090//");
    assert_eq!(s.base, "https://axiam:8090");
    assert!(!s.is_authenticated());
    assert_eq!(s.url("/api/v1/users"), "https://axiam:8090/api/v1/users");
    assert!(s.headers(None, true).is_empty());
    s.signed_in("tok".into());
    assert!(s.is_authenticated());
    assert_eq!(s.headers(None, true), vec![("X-CSRF-Token", "tok".to_owned())]);
    assert!(s.headers(None, false).is_empty());
    assert_eq!(
        s.headers(Some("t-1"), true),
        vec![("X-CSRF-Token", "tok".to_owned()), ("X-Axiam-Tenant", "t-1".to_owned())]
    );
    assert_eq!(login_token(200, Some("x".into())), Ok("x".to_owned()));
    assert_eq!(login_token(200, None), Err(LoginFailure::NoCsrfToken));
    assert_eq!(login_token(401, Some("x".into())), Err(LoginFailure::Status(401)));
}

fn json(bytes: &[u8]) -> serde_json::Value {
    serde_json::from_slice(bytes).unwrap()
}

#[test]
fn request_bodies_carry_exactly_their_fields() {
    let b = json(&bootstrap_body("Domo Demo", "domo", "a@b", "admin", "pw\"x", None));
    assert_eq!(b.as_object().unwrap().len(), 5);
    assert_eq!(b["password"], "pw\"x");
    assert!(b.get("setup_token").is_none());
    let b = json(&bootstrap_body("Domo Demo", "domo", "a@b", "admin", "pw", Some("tok")));
    assert_eq!(b["setup_token"], "tok");
    assert_eq!(json(&login_body("domo", "a@b", "pw"))["username_or_email"], "a@b");
    assert_eq!(json(&new_user_body("u", "e", "p"))["email"], "e");
    assert_eq!(json(&activation_body())["status"], "Active");
    assert_eq!(json(&assignment_body("id-1"))["user_id"], "id-1");
    assert_eq!(user_path("id-1"), "/api/v1/users/id-1");
    assert_eq!(user_search_path("lakeside-admin"), "/api/v1/users?search=lakeside-admin");
    assert_eq!(role_users_path("r-1"), "/api/v1/roles/r-1/users");
}

#[test]
fn identifiers_are_read_only_when_they_parse() {
    assert_eq!(usable_id(format!(r#"{{"id":"{USER_ID}"}}"#).as_bytes()).as_deref(), Some(USER_ID));
    assert_eq!(usable_id(br#"{"id":"not-a-uuid"}"#), None);
    assert_eq!(usable_id(br#"{"id":7}"#), None);
    let list = format!(r#"{{"items":[{{"name":"viewer","id":"x"}},{{"name":"super-admin","id":"{ROLE_ID}"}}]}}"#);
    assert_eq!(id_by_field(list.as_bytes(), "name", "super-admin").as_deref(), Some(ROLE_ID));
    assert_eq!(id_by_field(list.as_bytes(), "name", "viewer"), None);
}

#[test]
fn a_tenant_admin_is_created_activated_and_granted() {
    let created = format!(r#"{{"id":"{USER_ID}"}}"#);
    let s = admin_next(AdminStep::CreateUser, "lakeside-admin", 201, created.as_bytes());
    assert_eq!(s, AdminStep::Activate(USER_ID.into()));
    let s = admin_next(s, "lakeside-admin", 200, b"null");
    assert_eq!(s, AdminStep::ListRoles(USER_ID.into()));
    let roles = format!(r#"[{{"name":"super-admin","id":"{ROLE_ID}"}}]"#);
    let s = admin_next(s, "lakeside-admin", 200, roles.as_bytes());
    assert_eq!(s, AdminStep::Assign(USER_ID.into(), ROLE_ID.into()));
    let s = admin_next(s, "lakeside-admin", 409, b"");
    assert_eq!(s, AdminStep::Done(USER_ID.into()));
}

#[test]
fn an_existing_tenant_admin_is_resolved_by_name() {
    let s = admin_next(AdminStep::CreateUser, "lakeside-admin", 409, b"");
    assert_eq!(s, AdminStep::SearchUser);
    let found = format!(r#"[{{"username":"lakeside-admin","id":"{USER_ID}"}}]"#);
    assert_eq!(
        admin_next(AdminStep::SearchUser, "lakeside-admin", 200, found.as_bytes()),
        AdminStep::Activate(USER_ID.into())
    );
    assert_eq!(
        admin_next(AdminStep::SearchUser, "someone-else", 200, found.as_bytes()),
        AdminStep::Failed(AdminFailure::NotResolvable)
    );
    assert_eq!(
        admin_next(AdminStep::SearchUser, "lakeside-admin", 500, found.as_bytes()),
        AdminStep::Failed(AdminFailure::ListingStatus(500))
    );
    assert_eq!(
        admin_next(AdminStep::CreateUser, "lakeside-admin", 400, b""),
        AdminStep::Failed(AdminFailure::CreationStatus(400))
    );
    assert_eq!(
        admin_next(AdminStep::CreateUser, "lakeside-admin", 201, b"{}"),
        AdminStep::Failed(AdminFailure::NoUsableId)
    );
    assert_eq!(
        admin_next(AdminStep::Activate("u".into()), "x", 403, b""),
        AdminStep::Failed(AdminFailure::ActivationStatus(403))
    );
    assert_eq!(
        admin_next(AdminStep::ListRoles("u".into()), "x", 200, b"[]"),
        AdminStep::Failed(AdminFailure::NoSuperAdminRole)
    );
    assert_eq!(
        admin_next(AdminStep::Assign("u".into(), "r".into()), "x", 500, b""),
        AdminStep::Failed(AdminFailure::AssignmentStatus(500))
    );
}

#[test]
fn a_held_key_is_reused_and_a_missing_one_generated() {
    let fresh = identity_request(USER_ID, None).unwrap();
    assert!(fresh.generated);
    assert!(fresh.csr_pem.contains("BEGIN CERTIFICATE REQUEST"));
    assert!(fresh.key_pem.contains("BEGIN PRIVATE KEY"));
    let again = identity_request(USER_ID, Some(&fresh.key_pem)).unwrap();
    assert!(!again.generated);
    assert_eq!(again.key_pem, fresh.key_pem);
    assert!(identity_request(USER_ID, Some("not a key")).is_err());
}

#[test]
fn a_certificate_is_reused_only_with_the_key_it_was_issued_for() {
    let held = identity_request(USER_ID, None).unwrap();
    let key = rcgen::KeyPair::from_pem(&held.key_pem).unwrap();
    let cert = rcgen::CertificateParams::new(Vec::<String>::new()).unwrap().self_signed(&key).unwrap().pem();
    assert!(carries_public_key(cert.as_bytes(), &held.key_pem));
    let other = identity_request(USER_ID, None).unwrap();
    assert!(!carries_public_key(cert.as_bytes(), &other.key_pem));
    assert!(!carries_public_key(b"not a certificate", &held.key_pem));
    assert!(!carries_public_key(cert.as_bytes(), "not a key"));
}
