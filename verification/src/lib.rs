//! Authorization and naming core of the Domo device platform.
#![allow(unused_imports)]

use vstd::prelude::*;

pub mod bootstrap;
pub mod codec;
pub mod hand_rolled;
pub mod keys;
pub mod probe;
pub mod rmq;
pub mod secrets;
pub mod tenants;
pub mod text;
pub mod tls;
pub mod topic;

verus! {

/// The reserved tenant slug for organization-level work.
pub const ORG_TENANT_SLUG: &'static str = "organization";

/// The MQTT vhost devices connect to.
pub const DOMO_VHOST: &'static str = "domo";

} // verus!
