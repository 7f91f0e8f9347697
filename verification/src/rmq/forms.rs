//! One request form per broker endpoint.
//!
//! The broker posts `application/x-www-form-urlencoded` bodies; the HTTP
//! layer parses them into these plain forms before any decision is made.

use vstd::prelude::*;

verus! {

/// `POST /rmq/user` — the CONNECT decision. `password` is the device's
/// access token.
#[derive(Debug, Clone)]
pub struct UserReq {
    pub username: String,
    pub password: String,
    /// Absent in some broker configurations; checked when present.
    pub vhost: Option<String>,
    /// Optional at the type level: a request without one must reach the
    /// decision and be denied there, not fail to parse.
    pub client_id: Option<String>,
}

/// `POST /rmq/vhost`.
#[derive(Debug, Clone)]
pub struct VhostReq {
    pub username: String,
    pub vhost: String,
    pub ip: Option<String>,
    pub tags: Option<String>,
}

/// `POST /rmq/resource`. `permission` is captured but not branched on.
#[derive(Debug, Clone)]
pub struct ResourceReq {
    pub username: String,
    pub vhost: String,
    pub resource: String,
    pub name: String,
    pub permission: String,
    pub tags: Option<String>,
}

/// `POST /rmq/topic`: the exchange in `name`, the AMQP-translated topic in
/// `routing_key`, and the connection's own identity repeated.
#[derive(Debug, Clone)]
pub struct TopicReq {
    pub username: String,
    pub vhost: String,
    pub resource: String,
    pub name: String,
    pub permission: String,
    pub routing_key: String,
    pub tags: Option<String>,
    pub variable_map_username: Option<String>,
    pub variable_map_vhost: Option<String>,
    pub variable_map_client_id: Option<String>,
}

} // verus!
