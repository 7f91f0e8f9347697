//! The four authorization decisions of the broker's HTTP backend.
//!
//! Nothing here reads the clock, the filesystem or the network: every fact a
//! decision needs is passed in, the outcome of token verification and the
//! current time included.
//!
//! # The identity chain
//!
//! 1. The broker refuses a CONNECT whose `client_id` differs from the
//!    certificate's subject.
//! 2. Here: `client_id == "CN=" + username`.
//! 3. Here: the verified token's `sub` equals `username`.

use vstd::prelude::*;
use vstd::string::*;

use crate::DOMO_VHOST;
use crate::codec::{uuid_accepts, uuid_parses};
use crate::text::{concat3, contains_char, str_eq};
use crate::topic::{owns_routing_key, spec_device_routing_prefix};

verus! {

/// The marker the broker renders in front of a CN-only certificate subject.
pub const CN_MARKER: &'static str = "CN=";

/// The one exchange every device shares.
pub const SHARED_TOPIC_EXCHANGE: &'static str = "amq.topic";

/// Why a request was refused.
///
/// Fieldless, so a reason can never carry request content.
#[derive(Debug, Clone, Copy, PartialEq, Eq, Structural)]
pub enum DenyReason {
    /// The request named a virtual host other than `domo`.
    VhostNotDomo,
    /// The user name is not a service-account identifier.
    UsernameNotAServiceAccount,
    /// The broker derived no client identifier from the certificate.
    ClientIdMissing,
    /// The client identifier is not this user name with the marker prefixed.
    ClientIdNotBoundToUsername,
    /// Verification failed, or was never attempted.
    TokenDidNotVerify,
    /// The token verified but names a different account.
    TokenSubjectMismatch,
    /// No cached session for this user name.
    NoSession,
    /// The cached session's token has expired.
    SessionExpired,
    /// The request did not parse against this endpoint's strict form.
    MalformedRequest,
    /// The token's tenant has no verifier registered.
    UnknownTenant,
    /// The named exchange or queue is not this device's.
    ResourceNotOwned,
    /// The routing key lies outside this device's own namespace.
    RoutingKeyOutsideNamespace,
}

/// The operator-log text of each reason.
pub open spec fn spec_message(r: DenyReason) -> Seq<char> {
    match r {
        DenyReason::VhostNotDomo => "virtual host is not domo"@,
        DenyReason::UsernameNotAServiceAccount => "user name is not a service-account identifier"@,
        DenyReason::ClientIdMissing => "no client identifier derived from the certificate"@,
        DenyReason::ClientIdNotBoundToUsername => "client identifier is not the marker-prefixed user name"@,
        DenyReason::TokenDidNotVerify => "token did not verify"@,
        DenyReason::TokenSubjectMismatch => "token subject does not name the connecting account"@,
        DenyReason::NoSession => "no authenticated session for this user"@,
        DenyReason::SessionExpired => "the cached session has expired"@,
        DenyReason::MalformedRequest => "request did not parse"@,
        DenyReason::UnknownTenant => "tenant is not known to this Twin"@,
        DenyReason::ResourceNotOwned => "resource is not owned by this device"@,
        DenyReason::RoutingKeyOutsideNamespace => "routing key is outside the device's own namespace"@,
    }
}

impl DenyReason {
    /// A constant, credential-free explanation for the operator log.
    pub fn message(self) -> (r: &'static str)
        ensures
            r@ == spec_message(self),
    {
        match self {
            DenyReason::VhostNotDomo => "virtual host is not domo",
            DenyReason::UsernameNotAServiceAccount => "user name is not a service-account identifier",
            DenyReason::ClientIdMissing => "no client identifier derived from the certificate",
            DenyReason::ClientIdNotBoundToUsername => "client identifier is not the marker-prefixed user name",
            DenyReason::TokenDidNotVerify => "token did not verify",
            DenyReason::TokenSubjectMismatch => "token subject does not name the connecting account",
            DenyReason::NoSession => "no authenticated session for this user",
            DenyReason::SessionExpired => "the cached session has expired",
            DenyReason::MalformedRequest => "request did not parse",
            DenyReason::UnknownTenant => "tenant is not known to this Twin",
            DenyReason::ResourceNotOwned => "resource is not owned by this device",
            DenyReason::RoutingKeyOutsideNamespace => "routing key is outside the device's own namespace",
        }
    }
}

/// The answer the broker understands.
#[derive(Debug, Clone, Copy, PartialEq, Eq, Structural)]
pub enum Decision {
    Allow,
    /// Refused. The reason is for the operator log; the wire only sees `deny`.
    Deny(DenyReason),
}

/// The literal body the broker receives for a decision.
pub open spec fn spec_body(d: Decision) -> Seq<char> {
    match d {
        Decision::Allow => "allow"@,
        Decision::Deny(_) => "deny"@,
    }
}

impl Decision {
    /// The literal body the broker expects, for either outcome.
    pub fn body(self) -> (r: &'static str)
        ensures
            r@ == spec_body(self),
    {
        match self {
            Decision::Allow => "allow",
            Decision::Deny(_) => "deny",
        }
    }

    pub fn is_allow(self) -> (r: bool)
        ensures
            r == (self is Allow),
    {
        match self {
            Decision::Allow => true,
            Decision::Deny(_) => false,
        }
    }

    /// The refusal reason, when there is one.
    pub fn reason(self) -> (r: Option<DenyReason>)
        ensures
            r == match self {
                Decision::Allow => None,
                Decision::Deny(x) => Some(x),
            },
    {
        match self {
            Decision::Allow => None,
            Decision::Deny(x) => Some(x),
        }
    }
}

/// An authenticated device session, cached after a successful CONNECT.
#[derive(Debug, Clone, PartialEq, Eq)]
pub struct Session {
    pub tenant_id: String,
    pub tenant_slug: String,
    /// The token's own expiry, in Unix seconds.
    pub exp: i64,
}

impl Session {
    /// Whether this session is still inside its token's lifetime.
    pub fn is_live(&self, now: i64) -> (r: bool)
        ensures
            r == (now < self.exp),
    {
        now < self.exp
    }
}

/// What a cached session lookup allows: the session itself, or why not.
pub open spec fn spec_live_session(session: Option<Session>, now: i64) -> Result<Session, DenyReason> {
    match session {
        None => Err(DenyReason::NoSession),
        Some(s) => if now < s.exp {
            Ok(s)
        } else {
            Err(DenyReason::SessionExpired)
        },
    }
}

/// Resolve a cached session to itself, or to the reason it cannot serve.
fn live_session(session: Option<&Session>, now: i64) -> (r: Result<&Session, DenyReason>)
    ensures
        match spec_live_session(opt_session(session), now) {
            Ok(s) => r matches Ok(x) && *x == s,
            Err(e) => r == Err::<&Session, DenyReason>(e),
        },
{
    match session {
        None => Err(DenyReason::NoSession),
        Some(s) => if !s.is_live(now) {
            Err(DenyReason::SessionExpired)
        } else {
            Ok(s)
        },
    }
}

/// The session an optional reference points at.
pub open spec fn opt_session(s: Option<&Session>) -> Option<Session> {
    match s {
        Some(x) => Some(*x),
        None => None,
    }
}

/// The characters of an optional string slice.
pub open spec fn opt_str(s: Option<&str>) -> Option<Seq<char>> {
    match s {
        Some(x) => Some(x@),
        None => None,
    }
}

/// A user name shaped like a service-account identifier: a UUID, and
/// nothing the broker would split at a colon.
pub open spec fn spec_is_service_account_id(username: Seq<char>) -> bool {
    !username.contains(':') && uuid_accepts(username)
}

/// Whether a user name is shaped like a service-account identifier.
pub fn is_service_account_id(username: &str) -> (r: bool)
    ensures
        r == spec_is_service_account_id(username@),
{
    !contains_char(username, ':') && uuid_parses(username)
}

/// What the broker tells us at CONNECT, plus the outcome of verification.
///
/// `token_sub` is `None` when verification failed.
#[derive(Debug, Clone)]
pub struct UserFacts<'a> {
    pub username: &'a str,
    pub vhost: Option<&'a str>,
    pub client_id: Option<&'a str>,
    pub token_sub: Option<&'a str>,
}

/// `CN=` followed by the user name.
pub open spec fn spec_expected_client_id(username: Seq<char>) -> Seq<char> {
    CN_MARKER@ + username
}

/// The client identifier this user name, and only this one, may present.
pub fn expected_client_id(username: &str) -> (r: String)
    ensures
        r@ == spec_expected_client_id(username@),
{
    let mut r = String::from_str(CN_MARKER);
    r.append(username);
    r
}

/// The identity half of a CONNECT: virtual host, user-name shape, and the
/// binding of the client identifier to the user name, checked in that order.
pub open spec fn spec_user_identity(
    username: Seq<char>,
    vhost: Option<Seq<char>>,
    client_id: Option<Seq<char>>,
) -> Decision {
    if vhost is Some && vhost->0 != DOMO_VHOST@ {
        Decision::Deny(DenyReason::VhostNotDomo)
    } else if !spec_is_service_account_id(username) {
        Decision::Deny(DenyReason::UsernameNotAServiceAccount)
    } else {
        match client_id {
            None => Decision::Deny(DenyReason::ClientIdMissing),
            Some(cid) => if cid == spec_expected_client_id(username) {
                Decision::Allow
            } else {
                Decision::Deny(DenyReason::ClientIdNotBoundToUsername)
            },
        }
    }
}

/// The token half of a CONNECT: the verified subject must be this account.
pub open spec fn spec_user_subject(username: Seq<char>, token_sub: Option<Seq<char>>) -> Decision {
    match token_sub {
        None => Decision::Deny(DenyReason::TokenDidNotVerify),
        Some(sub) => if sub == username {
            Decision::Allow
        } else {
            Decision::Deny(DenyReason::TokenSubjectMismatch)
        },
    }
}

/// A whole CONNECT: the identity half first, then the token half.
pub open spec fn spec_user(
    username: Seq<char>,
    vhost: Option<Seq<char>>,
    client_id: Option<Seq<char>>,
    token_sub: Option<Seq<char>>,
) -> Decision {
    let identity = spec_user_identity(username, vhost, client_id);
    if identity is Allow {
        spec_user_subject(username, token_sub)
    } else {
        identity
    }
}

/// Decide a CONNECT end to end.
pub fn decide_user(f: &UserFacts<'_>) -> (r: Decision)
    ensures
        r == spec_user(f.username@, opt_str(f.vhost), opt_str(f.client_id), opt_str(f.token_sub)),
{
    let identity = decide_user_identity(f.username, f.vhost, f.client_id);
    if !identity.is_allow() {
        return identity;
    }
    decide_user_subject(f.username, f.token_sub)
}

/// The purely local half of a CONNECT decision. No token is consulted.
pub fn decide_user_identity(username: &str, vhost: Option<&str>, client_id: Option<&str>) -> (r: Decision)
    ensures
        r == spec_user_identity(username@, opt_str(vhost), opt_str(client_id)),
{
    if let Some(v) = vhost {
        if !str_eq(v, DOMO_VHOST) {
            return Decision::Deny(DenyReason::VhostNotDomo);
        }
    }
    if !is_service_account_id(username) {
        return Decision::Deny(DenyReason::UsernameNotAServiceAccount);
    }
    match client_id {
        Some(cid) => {
            let expected = expected_client_id(username);
            if str_eq(cid, expected.as_str()) {
                Decision::Allow
            } else {
                Decision::Deny(DenyReason::ClientIdNotBoundToUsername)
            }
        },
        None => Decision::Deny(DenyReason::ClientIdMissing),
    }
}

/// The token half of a CONNECT decision.
pub fn decide_user_subject(username: &str, token_sub: Option<&str>) -> (r: Decision)
    ensures
        r == spec_user_subject(username@, opt_str(token_sub)),
{
    match token_sub {
        Some(sub) => if str_eq(sub, username) {
            Decision::Allow
        } else {
            Decision::Deny(DenyReason::TokenSubjectMismatch)
        },
        None => Decision::Deny(DenyReason::TokenDidNotVerify),
    }
}

/// A virtual-host check: only `domo`, and only for a live session.
pub open spec fn spec_vhost(vhost: Seq<char>, session: Option<Session>, now: i64) -> Decision {
    if vhost != DOMO_VHOST@ {
        Decision::Deny(DenyReason::VhostNotDomo)
    } else {
        match spec_live_session(session, now) {
            Ok(_) => Decision::Allow,
            Err(e) => Decision::Deny(e),
        }
    }
}

/// Decide a virtual-host check.
pub fn decide_vhost(vhost: &str, session: Option<&Session>, now: i64) -> (r: Decision)
    ensures
        r == spec_vhost(vhost@, opt_session(session), now),
{
    if !str_eq(vhost, DOMO_VHOST) {
        return Decision::Deny(DenyReason::VhostNotDomo);
    }
    match live_session(session, now) {
        Ok(_) => Decision::Allow,
        Err(reason) => Decision::Deny(reason),
    }
}

/// The broker's per-client queue names for `client_id = "CN=<username>"`.
pub open spec fn spec_owns_mqtt_queue(username: Seq<char>, name: Seq<char>) -> bool {
    let cid = spec_expected_client_id(username);
    ||| name == "mqtt-subscription-"@ + cid + "qos0"@
    ||| name == "mqtt-subscription-"@ + cid + "qos1"@
    ||| name == "mqtt-will-"@ + cid
}

/// Whether `name` is one of this user's own MQTT plumbing queues.
pub fn owns_mqtt_queue(username: &str, name: &str) -> (r: bool)
    ensures
        r == spec_owns_mqtt_queue(username@, name@),
{
    let cid = expected_client_id(username);
    let q0 = concat3("mqtt-subscription-", cid.as_str(), "qos0");
    let q1 = concat3("mqtt-subscription-", cid.as_str(), "qos1");
    let will = concat3("mqtt-will-", cid.as_str(), "");
    proof {
        reveal_strlit("");
        assert("mqtt-will-"@ + cid@ + ""@ =~= "mqtt-will-"@ + cid@);
    }
    str_eq(name, q0.as_str()) || str_eq(name, q1.as_str()) || str_eq(name, will.as_str())
}

/// A resource check: the shared topic exchange and the device's own queues,
/// for a live session in `domo`, and nothing else.
pub open spec fn spec_resource(
    vhost: Seq<char>,
    username: Seq<char>,
    resource: Seq<char>,
    name: Seq<char>,
    session: Option<Session>,
    now: i64,
) -> Decision {
    if vhost != DOMO_VHOST@ {
        Decision::Deny(DenyReason::VhostNotDomo)
    } else if spec_live_session(session, now) is Err {
        Decision::Deny(spec_live_session(session, now)->Err_0)
    } else if resource == "exchange"@ && name == SHARED_TOPIC_EXCHANGE@ {
        Decision::Allow
    } else if resource == "queue"@ && spec_owns_mqtt_queue(username, name) {
        Decision::Allow
    } else {
        Decision::Deny(DenyReason::ResourceNotOwned)
    }
}

/// Decide a resource (exchange/queue) check.
pub fn decide_resource(
    vhost: &str,
    username: &str,
    resource: &str,
    name: &str,
    session: Option<&Session>,
    now: i64,
) -> (r: Decision)
    ensures
        r == spec_resource(vhost@, username@, resource@, name@, opt_session(session), now),
{
    if !str_eq(vhost, DOMO_VHOST) {
        return Decision::Deny(DenyReason::VhostNotDomo);
    }
    if let Err(reason) = live_session(session, now) {
        return Decision::Deny(reason);
    }
    if str_eq(resource, "exchange") && str_eq(name, SHARED_TOPIC_EXCHANGE) {
        return Decision::Allow;
    }
    if str_eq(resource, "queue") && owns_mqtt_queue(username, name) {
        return Decision::Allow;
    }
    Decision::Deny(DenyReason::ResourceNotOwned)
}

/// A topic check: only beneath `domo.<tenant_slug>.<username>.` of the live
/// session's tenant.
pub open spec fn spec_topic(
    vhost: Seq<char>,
    username: Seq<char>,
    routing_key: Seq<char>,
    session: Option<Session>,
    now: i64,
) -> Decision {
    if vhost != DOMO_VHOST@ {
        Decision::Deny(DenyReason::VhostNotDomo)
    } else {
        match spec_live_session(session, now) {
            Err(e) => Decision::Deny(e),
            Ok(s) => if spec_device_routing_prefix(s.tenant_slug@, username).is_prefix_of(routing_key) {
                Decision::Allow
            } else {
                Decision::Deny(DenyReason::RoutingKeyOutsideNamespace)
            },
        }
    }
}

/// Decide a topic (routing-key) check.
pub fn decide_topic(
    vhost: &str,
    username: &str,
    routing_key: &str,
    session: Option<&Session>,
    now: i64,
) -> (r: Decision)
    ensures
        r == spec_topic(vhost@, username@, routing_key@, opt_session(session), now),
{
    if !str_eq(vhost, DOMO_VHOST) {
        return Decision::Deny(DenyReason::VhostNotDomo);
    }
    let s = match live_session(session, now) {
        Ok(s) => s,
        Err(reason) => return Decision::Deny(reason),
    };
    if owns_routing_key(s.tenant_slug.as_str(), username, routing_key) {
        Decision::Allow
    } else {
        Decision::Deny(DenyReason::RoutingKeyOutsideNamespace)
    }
}

/// Cancelling a shared prefix and a shared suffix.
proof fn lemma_cancel_affixes(p: Seq<char>, a: Seq<char>, b: Seq<char>, q: Seq<char>)
    requires
        p + a + q == p + b + q,
    ensures
        a == b,
{
    let x = p + a + q;
    let y = p + b + q;
    assert(x.len() == y.len());
    assert forall|i: int| 0 <= i < a.len() implies a[i] == b[i] by {
        assert(x[p.len() + i] == a[i]);
        assert(y[p.len() + i] == b[i]);
    }
    assert(a =~= b);
}

/// An allowed CONNECT binds the certificate, the connection and the token to
/// one account: the client identifier is `CN=` followed by the user name, the
/// verified token names that same user name, the user name is shaped like a
/// service account, and a stated virtual host is `domo`.
pub proof fn lemma_allowed_connect_binds_one_identity(
    username: Seq<char>,
    vhost: Option<Seq<char>>,
    client_id: Option<Seq<char>>,
    token_sub: Option<Seq<char>>,
)
    requires
        spec_user(username, vhost, client_id, token_sub) is Allow,
    ensures
        client_id == Some(spec_expected_client_id(username)),
        token_sub == Some(username),
        spec_is_service_account_id(username),
        vhost is Some ==> vhost->0 == DOMO_VHOST@,
{
}

/// The wire never carries a reason: every refusal is the body `deny`.
pub proof fn lemma_refusal_body_is_constant(reason: DenyReason)
    ensures
        spec_body(Decision::Deny(reason)) == "deny"@,
{
}

/// Without a live session, the three token-less checks all refuse, whatever
/// else the request names.
pub proof fn lemma_no_live_session_denies_everything(
    vhost: Seq<char>,
    username: Seq<char>,
    resource: Seq<char>,
    name: Seq<char>,
    routing_key: Seq<char>,
    session: Option<Session>,
    now: i64,
)
    requires
        spec_live_session(session, now) is Err,
    ensures
        spec_vhost(vhost, session, now) is Deny,
        spec_resource(vhost, username, resource, name, session, now) is Deny,
        spec_topic(vhost, username, routing_key, session, now) is Deny,
{
}

/// A session that has expired stays expired: once the token's expiry has
/// passed, no later moment brings the session back.
pub proof fn lemma_expiry_is_final(s: Session, now: i64, later: i64)
    requires
        now <= later,
        spec_live_session(Some(s), now) is Err,
    ensures
        spec_live_session(Some(s), later) == Err::<Session, DenyReason>(DenyReason::SessionExpired),
{
}

/// Each MQTT plumbing queue belongs to at most one user name.
pub proof fn lemma_queue_owner_is_unique(u1: Seq<char>, u2: Seq<char>, name: Seq<char>)
    requires
        spec_owns_mqtt_queue(u1, name),
        spec_owns_mqtt_queue(u2, name),
    ensures
        u1 == u2,
{
    reveal_strlit("mqtt-subscription-");
    reveal_strlit("mqtt-will-");
    reveal_strlit("qos0");
    reveal_strlit("qos1");
    reveal_strlit("CN=");
    let sub = "mqtt-subscription-"@ + CN_MARKER@;
    let will = "mqtt-will-"@ + CN_MARKER@;
    let c1 = spec_expected_client_id(u1);
    let c2 = spec_expected_client_id(u2);
    assert("mqtt-subscription-"@ + c1 =~= sub + u1);
    assert("mqtt-subscription-"@ + c2 =~= sub + u2);
    assert("mqtt-will-"@ + c1 =~= will + u1);
    assert("mqtt-will-"@ + c2 =~= will + u2);
    let is_sub1 = name == "mqtt-subscription-"@ + c1 + "qos0"@ || name == "mqtt-subscription-"@ + c1 + "qos1"@;
    let is_sub2 = name == "mqtt-subscription-"@ + c2 + "qos0"@ || name == "mqtt-subscription-"@ + c2 + "qos1"@;
    if is_sub1 && !is_sub2 {
        assert(name[5] == 's');
        assert(name[5] == 'w');
    } else if !is_sub1 && is_sub2 {
        assert(name[5] == 'w');
        assert(name[5] == 's');
    } else if is_sub1 && is_sub2 {
        let q1 = if name == "mqtt-subscription-"@ + c1 + "qos0"@ { "qos0"@ } else { "qos1"@ };
        let q2 = if name == "mqtt-subscription-"@ + c2 + "qos0"@ { "qos0"@ } else { "qos1"@ };
        assert(name == sub + u1 + q1);
        assert(name == sub + u2 + q2);
        assert(u1.len() == u2.len());
        if q1 != q2 {
            assert(name[name.len() - 1] == q1[3]);
            assert(name[name.len() - 1] == q2[3]);
        }
        lemma_cancel_affixes(sub, u1, u2, q1);
    } else {
        assert(name == will + u1 + seq![]);
        assert(name == will + u2 + seq![]);
        lemma_cancel_affixes(will, u1, u2, seq![]);
    }
}

/// Two devices never both get a routing key allowed: when no tenant slug and
/// no user name holds a `.`, a key allowed for two requests is allowed for
/// one tenant and one user name.
pub proof fn lemma_topic_allowance_is_exclusive(
    vhost: Seq<char>,
    u1: Seq<char>,
    s1: Session,
    u2: Seq<char>,
    s2: Session,
    routing_key: Seq<char>,
    now: i64,
)
    requires
        !u1.contains('.'),
        !u2.contains('.'),
        !s1.tenant_slug@.contains('.'),
        !s2.tenant_slug@.contains('.'),
        spec_topic(vhost, u1, routing_key, Some(s1), now) is Allow,
        spec_topic(vhost, u2, routing_key, Some(s2), now) is Allow,
    ensures
        u1 == u2,
        s1.tenant_slug@ == s2.tenant_slug@,
{
    crate::topic::lemma_ownership_is_exclusive(
        s1.tenant_slug@,
        u1,
        s2.tenant_slug@,
        u2,
        routing_key,
    );
}

/// A CONNECT is allowed exactly when a stated virtual host is `domo`, the
/// user name is shaped like a service account, the client identifier is
/// `CN=` and the user name, and the verified token names the user name. An
/// absent virtual host (the broker omits it on this path in some
/// configurations) is decided exactly as `domo` would be.
pub proof fn lemma_connect_allowed_exactly(
    username: Seq<char>,
    vhost: Option<Seq<char>>,
    client_id: Option<Seq<char>>,
    token_sub: Option<Seq<char>>,
)
    ensures
        (spec_user(username, vhost, client_id, token_sub) is Allow) <==> ((vhost is None || vhost == Some(DOMO_VHOST@))
            && spec_is_service_account_id(username)
            && client_id == Some("CN="@ + username)
            && token_sub == Some(username)),
        spec_user(username, None, client_id, token_sub) == spec_user(username, Some(DOMO_VHOST@), client_id, token_sub),
        (vhost is Some && vhost->0 != DOMO_VHOST@) ==> spec_user(username, vhost, client_id, token_sub)
            == Decision::Deny(DenyReason::VhostNotDomo),
{
    reveal_strlit("CN=");
    assert(CN_MARKER@ == "CN="@);
}

} // verus!
