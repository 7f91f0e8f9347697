//! The four broker endpoints, end to end: what each answers for the form it
//! was posted, and what a CONNECT leaves behind.
//!
//! Only the CONNECT carries a token. It is routed by the tenant the token
//! claims to exactly one verifier; a tenant this Twin does not serve is
//! refused before any key set is consulted. A successful CONNECT caches the
//! tenant and the token's own expiry under the user name, and the three
//! token-less endpoints decide from that cache alone.

use vstd::prelude::*;
use vstd::string::*;

use crate::rmq::decide::{
    Decision, DenyReason, Session, decide_resource, decide_topic, decide_user_identity, decide_user_subject,
    decide_vhost, opt_session, opt_str, spec_resource, spec_topic, spec_user_identity, spec_user_subject,
    spec_vhost,
};
use crate::rmq::forms::{ResourceReq, TopicReq, UserReq, VhostReq};
use crate::tenants::SessionCache;

verus! {

/// Where a CONNECT goes once its local half is decided.
#[derive(Debug, Clone, PartialEq, Eq)]
pub enum ConnectRoute {
    /// Refused without any token work.
    Deny(DenyReason),
    /// Verify the token with this tenant's own verifier.
    Verify { tenant_id: String, tenant_slug: String },
}

/// The local half of a CONNECT: the identity decision, then the tenant the
/// token claims, which must be one this Twin serves. `tenant_id` is what the
/// unverified peek read; `tenant_slug` is what the tenant map resolved it to.
pub fn connect_route(req: &UserReq, tenant_id: Option<String>, tenant_slug: Option<String>) -> (r: ConnectRoute)
    ensures
        match spec_user_identity(req.username@, opt_string(req.vhost), opt_string(req.client_id)) {
            Decision::Deny(reason) => r == ConnectRoute::Deny(reason),
            Decision::Allow => match (tenant_id, tenant_slug) {
                (Some(t), Some(s)) => r == (ConnectRoute::Verify { tenant_id: t, tenant_slug: s }),
                _ => r == ConnectRoute::Deny(DenyReason::UnknownTenant),
            },
        },
{
    let vhost = match &req.vhost {
        Some(v) => Some(v.as_str()),
        None => None,
    };
    let client_id = match &req.client_id {
        Some(c) => Some(c.as_str()),
        None => None,
    };
    match decide_user_identity(req.username.as_str(), vhost, client_id) {
        Decision::Deny(reason) => ConnectRoute::Deny(reason),
        Decision::Allow => match (tenant_id, tenant_slug) {
            (Some(t), Some(s)) => ConnectRoute::Verify { tenant_id: t, tenant_slug: s },
            _ => ConnectRoute::Deny(DenyReason::UnknownTenant),
        },
    }
}

/// The characters of an optional string.
pub open spec fn opt_string(s: Option<String>) -> Option<Seq<char>> {
    match s {
        Some(x) => Some(x@),
        None => None,
    }
}

/// What the tenant's verifier established of a token that verified.
#[derive(Debug, Clone)]
pub struct VerifiedToken {
    /// The token's subject.
    pub sub: String,
    /// The token's own expiry, in Unix seconds.
    pub exp: i64,
}

/// The token half of a CONNECT. An allowed CONNECT caches the tenant and the
/// token's own expiry for the user name; a refused one caches nothing.
pub fn connect_finish(
    username: &str,
    verified: Option<VerifiedToken>,
    tenant_id: String,
    tenant_slug: String,
    cache: &mut SessionCache,
) -> (r: Decision)
    ensures
        r == spec_user_subject(username@, match verified { Some(v) => Some(v.sub@), None => None }),
        r is Allow ==> final(cache).view() == old(cache).view().insert(
            username@,
            Session { tenant_id, tenant_slug, exp: verified->0.exp },
        ),
        r is Deny ==> final(cache).view() == old(cache).view(),
{
    let (sub, exp) = match verified {
        Some(v) => (Some(v.sub), v.exp),
        None => (None, 0),
    };
    let sub_str = match &sub {
        Some(s) => Some(s.as_str()),
        None => None,
    };
    let d = decide_user_subject(username, sub_str);
    if d.is_allow() {
        cache.insert(username, Session { tenant_id, tenant_slug, exp });
    }
    d
}

/// `POST /rmq/vhost`: the virtual host, against the session cached for the
/// user name.
pub fn answer_vhost(cache: &SessionCache, req: &VhostReq, now: i64) -> (r: Decision)
    ensures
        r == spec_vhost(req.vhost@, cached(cache, req.username@), now),
{
    let s = cache.get(req.username.as_str());
    decide_vhost(req.vhost.as_str(), s.as_ref(), now)
}

/// `POST /rmq/resource`: the exchange or queue, against the cached session.
pub fn answer_resource(cache: &SessionCache, req: &ResourceReq, now: i64) -> (r: Decision)
    ensures
        r == spec_resource(req.vhost@, req.username@, req.resource@, req.name@, cached(cache, req.username@), now),
{
    let s = cache.get(req.username.as_str());
    decide_resource(req.vhost.as_str(), req.username.as_str(), req.resource.as_str(), req.name.as_str(),
        s.as_ref(), now)
}

/// `POST /rmq/topic`: the routing key, against the cached session.
pub fn answer_topic(cache: &SessionCache, req: &TopicReq, now: i64) -> (r: Decision)
    ensures
        r == spec_topic(req.vhost@, req.username@, req.routing_key@, cached(cache, req.username@), now),
{
    let s = cache.get(req.username.as_str());
    decide_topic(req.vhost.as_str(), req.username.as_str(), req.routing_key.as_str(), s.as_ref(), now)
}

/// The session cached for a user name, if any.
pub open spec fn cached(cache: &SessionCache, username: Seq<char>) -> Option<Session> {
    if cache.view().contains_key(username) {
        Some(cache.view()[username])
    } else {
        None
    }
}

/// A refused CONNECT leaves the token-less endpoints without evidence: with
/// no session cached for the user name, the virtual host, every exchange and
/// queue, and every routing key are refused.
pub proof fn lemma_no_session_no_access(
    cache: &SessionCache,
    username: Seq<char>,
    vhost: Seq<char>,
    resource: Seq<char>,
    name: Seq<char>,
    routing_key: Seq<char>,
    now: i64,
)
    requires
        !cache.view().contains_key(username),
    ensures
        spec_vhost(vhost, cached(cache, username), now) is Deny,
        spec_resource(vhost, username, resource, name, cached(cache, username), now) is Deny,
        spec_topic(vhost, username, routing_key, cached(cache, username), now) is Deny,
{
}

} // verus!
