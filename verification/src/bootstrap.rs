//! Provisioning rules: the role catalog, the naming scheme, and the small
//! decisions the provisioning stages make.

pub mod catalog;
pub mod manifest;
pub mod naming;
pub mod org;
pub mod provision;
pub mod smoke;
pub mod stages;
pub mod verdicts;
