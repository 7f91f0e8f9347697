//! The broker's HTTP authorization backend: the first-generation decisions,
//! whose refusals carry a free-text reason, and the request forms.
//!
//! The broker calls four endpoints for every CONNECT, publish and subscribe,
//! and expects `200` with a body of exactly `allow` or `deny`.

pub mod connect;
pub mod decide;
pub mod forms;

use vstd::prelude::*;
use vstd::string::*;

use crate::DOMO_VHOST;
use crate::rmq::decide::opt_str;
use crate::tenants::{opt_string, spec_peek_tenant_id};
use crate::text::{concat3, str_eq};
use crate::topic::{owns_routing_key, spec_device_routing_prefix};

verus! {

/// The answer the broker understands.
#[derive(Debug, Clone, PartialEq, Eq)]
pub enum Decision {
    Allow,
    /// Denied. The reason is for the operator log, never for the wire.
    Deny(&'static str),
}

impl Decision {
    /// The literal body the broker expects.
    pub fn body(&self) -> (r: &'static str)
        ensures
            r@ == (if *self is Allow { "allow"@ } else { "deny"@ }),
    {
        match self {
            Decision::Allow => "allow",
            Decision::Deny(_) => "deny",
        }
    }

    pub fn is_allow(&self) -> (r: bool)
        ensures
            r == (*self is Allow),
    {
        match self {
            Decision::Allow => true,
            Decision::Deny(_) => false,
        }
    }
}

/// An authenticated device session, cached after a successful CONNECT.
#[derive(Debug, Clone, PartialEq, Eq)]
pub struct Session {
    pub tenant_id: String,
    pub tenant_slug: String,
    pub exp: i64,
}

/// What the broker tells us at CONNECT, plus the verified token's subject.
///
/// `jwt_sub` is `None` when verification failed.
#[derive(Debug, Clone)]
pub struct UserFacts<'a> {
    pub username: &'a str,
    pub vhost: Option<&'a str>,
    pub client_id: Option<&'a str>,
    pub jwt_sub: Option<&'a str>,
}

/// The refusal reason of a decision, as characters; empty for an allow.
pub open spec fn reason_of(d: Decision) -> Seq<char> {
    match d {
        Decision::Allow => Seq::empty(),
        Decision::Deny(m) => m@,
    }
}

/// A CONNECT: a non-empty user name, a stated virtual host that is `domo`,
/// a client identifier that is `CN=` and the user name, and a verified token
/// naming the same user name, checked in that order.
pub open spec fn spec_user(
    username: Seq<char>,
    vhost: Option<Seq<char>>,
    client_id: Option<Seq<char>>,
    jwt_sub: Option<Seq<char>>,
) -> Option<Seq<char>> {
    if username.len() == 0 {
        Some("empty username"@)
    } else if vhost is Some && vhost->0 != DOMO_VHOST@ {
        Some("vhost is not domo"@)
    } else if client_id is None {
        Some("no client_id derived from the certificate"@)
    } else if client_id->0 != "CN="@ + username {
        Some("client_id does not match CN=<username>"@)
    } else if jwt_sub is None {
        Some("token did not verify"@)
    } else if jwt_sub->0 != username {
        Some("token subject does not match the connecting account"@)
    } else {
        None
    }
}

/// The outcome a spec answer stands for: `None` allows, `Some(reason)`
/// refuses with that reason.
pub open spec fn matches_outcome(d: Decision, want: Option<Seq<char>>) -> bool {
    match want {
        None => d is Allow,
        Some(m) => d is Deny && reason_of(d) == m,
    }
}

/// Decide a CONNECT.
pub fn decide_user(f: &UserFacts<'_>) -> (r: Decision)
    ensures
        matches_outcome(r, spec_user(f.username@, opt_str(f.vhost), opt_str(f.client_id), opt_str(f.jwt_sub))),
{
    if f.username.unicode_len() == 0 {
        return Decision::Deny("empty username");
    }
    if let Some(v) = f.vhost {
        if !str_eq(v, DOMO_VHOST) {
            return Decision::Deny("vhost is not domo");
        }
    }
    match f.client_id {
        Some(cid) => {
            let expected = concat3("CN=", f.username, "");
            proof {
                reveal_strlit("");
                assert("CN="@ + f.username@ + ""@ =~= "CN="@ + f.username@);
            }
            if !str_eq(cid, expected.as_str()) {
                return Decision::Deny("client_id does not match CN=<username>");
            }
        },
        None => return Decision::Deny("no client_id derived from the certificate"),
    }
    match f.jwt_sub {
        Some(sub) => if str_eq(sub, f.username) {
            Decision::Allow
        } else {
            Decision::Deny("token subject does not match the connecting account")
        },
        None => Decision::Deny("token did not verify"),
    }
}

/// A virtual-host check: only `domo`, and only with a session.
pub open spec fn spec_vhost(vhost: Seq<char>, has_session: bool) -> Option<Seq<char>> {
    if vhost != DOMO_VHOST@ {
        Some("vhost is not domo"@)
    } else if !has_session {
        Some("no authenticated session for this user"@)
    } else {
        None
    }
}

/// Decide a vhost access check.
pub fn decide_vhost(vhost: &str, session: Option<&Session>) -> (r: Decision)
    ensures
        matches_outcome(r, spec_vhost(vhost@, session is Some)),
{
    if !str_eq(vhost, DOMO_VHOST) {
        return Decision::Deny("vhost is not domo");
    }
    if session.is_none() {
        return Decision::Deny("no authenticated session for this user");
    }
    Decision::Allow
}

/// The MQTT plugin's per-client queue names, for `client_id = "CN=<username>"`.
pub open spec fn spec_owns_mqtt_queue(username: Seq<char>, name: Seq<char>) -> bool {
    crate::rmq::decide::spec_owns_mqtt_queue(username, name)
}

/// Whether `name` is one of this user's own MQTT plumbing queues.
pub fn owns_mqtt_queue(username: &str, name: &str) -> (r: bool)
    ensures
        r == spec_owns_mqtt_queue(username@, name@),
{
    crate::rmq::decide::owns_mqtt_queue(username, name)
}

/// A resource check: the shared `amq.topic` exchange and the device's own
/// queues, with a session in `domo`, and nothing else.
pub open spec fn spec_resource(
    vhost: Seq<char>,
    username: Seq<char>,
    resource: Seq<char>,
    name: Seq<char>,
    has_session: bool,
) -> Option<Seq<char>> {
    if vhost != DOMO_VHOST@ {
        Some("vhost is not domo"@)
    } else if !has_session {
        Some("no authenticated session for this user"@)
    } else if resource == "exchange"@ && name == "amq.topic"@ {
        None
    } else if resource == "queue"@ && spec_owns_mqtt_queue(username, name) {
        None
    } else {
        Some("resource is not owned by this device"@)
    }
}

/// Decide a resource (exchange/queue) check.
pub fn decide_resource(
    vhost: &str,
    username: &str,
    resource: &str,
    name: &str,
    session: Option<&Session>,
) -> (r: Decision)
    ensures
        matches_outcome(r, spec_resource(vhost@, username@, resource@, name@, session is Some)),
{
    if !str_eq(vhost, DOMO_VHOST) {
        return Decision::Deny("vhost is not domo");
    }
    if session.is_none() {
        return Decision::Deny("no authenticated session for this user");
    }
    if str_eq(resource, "exchange") && str_eq(name, "amq.topic") {
        return Decision::Allow;
    }
    if str_eq(resource, "queue") && owns_mqtt_queue(username, name) {
        return Decision::Allow;
    }
    Decision::Deny("resource is not owned by this device")
}

/// A topic check: allowed only beneath `domo.<tenant_slug>.<username>.` of
/// the session's tenant.
pub open spec fn spec_topic(
    vhost: Seq<char>,
    username: Seq<char>,
    routing_key: Seq<char>,
    session: Option<Session>,
) -> Option<Seq<char>> {
    if vhost != DOMO_VHOST@ {
        Some("vhost is not domo"@)
    } else {
        match session {
            None => Some("no authenticated session for this user"@),
            Some(s) => if spec_device_routing_prefix(s.tenant_slug@, username).is_prefix_of(routing_key) {
                None
            } else {
                Some("routing key is outside the device's own topic space"@)
            },
        }
    }
}

/// The session an optional reference points at.
pub open spec fn opt_session(s: Option<&Session>) -> Option<Session> {
    match s {
        Some(x) => Some(*x),
        None => None,
    }
}

/// Decide a topic (routing-key) check.
pub fn decide_topic(vhost: &str, username: &str, routing_key: &str, session: Option<&Session>) -> (r: Decision)
    ensures
        matches_outcome(r, spec_topic(vhost@, username@, routing_key@, opt_session(session))),
{
    if !str_eq(vhost, DOMO_VHOST) {
        return Decision::Deny("vhost is not domo");
    }
    let s = match session {
        Some(s) => s,
        None => return Decision::Deny("no authenticated session for this user"),
    };
    if owns_routing_key(s.tenant_slug.as_str(), username, routing_key) {
        Decision::Allow
    } else {
        Decision::Deny("routing key is outside the device's own topic space")
    }
}

/// Read `tenant_id` out of a JWT **without verifying it**.
pub fn peek_tenant_id(jwt: &str) -> (r: Option<String>)
    ensures
        opt_string(r) == spec_peek_tenant_id(jwt@),
{
    crate::tenants::peek_tenant_id(jwt)
}

// Wire forms. The broker's field set varies by version, so a missing
// optional field must produce a deny rather than a parse failure.

/// `POST /rmq/user`.
#[derive(Debug, Clone)]
pub struct UserReq {
    pub username: String,
    pub password: String,
    pub vhost: Option<String>,
    pub client_id: Option<String>,
}

/// `POST /rmq/vhost`.
#[derive(Debug, Clone)]
pub struct VhostReq {
    pub username: String,
    pub vhost: String,
}

/// `POST /rmq/resource`. `permission` is captured but not branched on.
#[derive(Debug, Clone)]
pub struct ResourceReq {
    pub username: String,
    pub vhost: String,
    pub resource: String,
    pub name: String,
    pub permission: String,
}

/// `POST /rmq/topic`. Only `routing_key` decides; the rest documents the
/// payload.
#[derive(Debug, Clone)]
pub struct TopicReq {
    pub username: String,
    pub vhost: String,
    pub resource: String,
    pub name: String,
    pub permission: String,
    pub routing_key: String,
}

/// A CONNECT is allowed exactly when the user name is not empty, the
/// virtual host is absent or `domo`, the client identifier is `CN=` and the
/// user name, and the verified token names the user name. The broker omits
/// the virtual host on this path in some configurations, so an absent one is
/// decided exactly as `domo` would be, and any other stated one is refused.
pub proof fn lemma_connect_allowed_exactly(
    username: Seq<char>,
    vhost: Option<Seq<char>>,
    client_id: Option<Seq<char>>,
    jwt_sub: Option<Seq<char>>,
)
    ensures
        (spec_user(username, vhost, client_id, jwt_sub) is None) <==> (username.len() > 0
            && (vhost is None || vhost == Some(DOMO_VHOST@))
            && client_id == Some("CN="@ + username)
            && jwt_sub == Some(username)),
        spec_user(username, None, client_id, jwt_sub) == spec_user(username, Some(DOMO_VHOST@), client_id, jwt_sub),
        (username.len() > 0 && vhost is Some && vhost->0 != DOMO_VHOST@) ==> spec_user(username, vhost, client_id, jwt_sub)
            == Some("vhost is not domo"@),
{
}

} // verus!
