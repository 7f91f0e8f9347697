//! The catalog projected onto the SDK's declarative management manifest.
//!
//! The manifest-local key of a permission is its own action and that of a
//! role its own name: validation proves both unique within a tenant, so a
//! second, synthetic key would only be one more thing to keep in step.
//!
//! Groups are deliberately not projected: a structural group's whole point is
//! the resource its role binding is scoped to, and the manifest carries no
//! resource scope on a group-to-role binding. And no role is ever made
//! global: these roles reach a subject through a group scoped to one
//! resource, and a global role would reach the whole tenant.

use vstd::prelude::*;

use axiam_sdk::management::manifest::{GrantSpec, ManagementManifest, PermissionSpec, RoleSpec};

use crate::bootstrap::catalog::{Catalog, PermissionEntry, RoleEntry, views};

verus! {

/// `axiam_sdk::management::manifest::ManagementManifest`, carried whole.
#[verifier::external_type_specification]
#[verifier::external_body]
pub struct ExManagementManifest(ManagementManifest);

/// The manifest's permissions, in order: key, action and description.
pub uninterp spec fn manifest_permissions(m: ManagementManifest) -> Seq<(Seq<char>, Seq<char>, Seq<char>)>;

/// The manifest's roles, in order: key, name, description, whether the role
/// is global, the permission keys of its grants, and whether every grant is
/// an unscoped allow.
pub uninterp spec fn manifest_roles(m: ManagementManifest)
    -> Seq<(Seq<char>, Seq<char>, Seq<char>, bool, Seq<Seq<char>>, bool)>;

/// How many entries the manifest holds in its other sections: resources,
/// groups, users, service accounts and network segments.
pub uninterp spec fn manifest_others(m: ManagementManifest) -> nat;

/// Calls `ManagementManifest::new`, which is the type's `Default`: every
/// section empty.
#[verifier::external_body]
fn empty_manifest() -> (r: ManagementManifest)
    ensures
        manifest_permissions(r) == Seq::<(Seq<char>, Seq<char>, Seq<char>)>::empty(),
        manifest_roles(r) == Seq::<(Seq<char>, Seq<char>, Seq<char>, bool, Seq<Seq<char>>, bool)>::empty(),
        manifest_others(r) == 0,
{
    ManagementManifest::new()
}

/// Calls `ManagementManifest::with_permission` with `PermissionSpec::new`,
/// which pushes the permission onto the manifest's list and touches nothing
/// else.
#[verifier::external_body]
fn add_permission(m: ManagementManifest, key: &str, action: &str, description: &str) -> (r: ManagementManifest)
    ensures
        manifest_permissions(r) == manifest_permissions(m).push((key@, action@, description@)),
        manifest_roles(r) == manifest_roles(m),
        manifest_others(r) == manifest_others(m),
{
    m.with_permission(PermissionSpec::new(key, action, description))
}

/// Calls `RoleSpec::new`, which makes a role that is not global, then
/// `RoleSpec::granting` with `GrantSpec::allow` (an unscoped allow) for each
/// key in order, then `ManagementManifest::with_role`, which pushes the role
/// onto the manifest's list and touches nothing else.
#[verifier::external_body]
fn add_role(m: ManagementManifest, key: &str, name: &str, description: &str, grants: &[String])
    -> (r: ManagementManifest)
    ensures
        manifest_roles(r) == manifest_roles(m).push((key@, name@, description@, false, views(grants@), true)),
        manifest_permissions(r) == manifest_permissions(m),
        manifest_others(r) == manifest_others(m),
{
    let mut role = RoleSpec::new(key, name, description);
    for g in grants {
        role = role.granting(GrantSpec::allow(g.clone()));
    }
    m.with_role(role)
}

/// What a catalog's permissions become: each keyed by its own action.
pub open spec fn permission_specs(ps: Seq<PermissionEntry>) -> Seq<(Seq<char>, Seq<char>, Seq<char>)> {
    ps.map_values(|p: PermissionEntry| (p.action@, p.action@, p.description@))
}

/// What a catalog's roles become: each keyed by its own name, never global,
/// granting exactly its declared actions as unscoped allows.
pub open spec fn role_specs(rs: Seq<RoleEntry>) -> Seq<(Seq<char>, Seq<char>, Seq<char>, bool, Seq<Seq<char>>, bool)> {
    rs.map_values(|r: RoleEntry| (r.name@, r.name@, r.description@, false, views(r.permissions@), true))
}

impl Catalog {
    /// Project the catalog onto the management manifest: its permissions and
    /// its roles, in order, and nothing else.
    pub fn to_manifest(&self) -> (r: ManagementManifest)
        ensures
            manifest_permissions(r) == permission_specs(self.permissions@),
            manifest_roles(r) == role_specs(self.roles@),
            manifest_others(r) == 0,
    {
        let mut m = empty_manifest();
        let mut i: usize = 0;
        while i < self.permissions.len()
            invariant
                i <= self.permissions.len(),
                manifest_permissions(m) == permission_specs(self.permissions@.take(i as int)),
                manifest_roles(m) == Seq::<(Seq<char>, Seq<char>, Seq<char>, bool, Seq<Seq<char>>, bool)>::empty(),
                manifest_others(m) == 0,
            decreases self.permissions.len() - i,
        {
            let p = &self.permissions[i];
            m = add_permission(m, p.action.as_str(), p.action.as_str(), p.description.as_str());
            i = i + 1;
            assert(permission_specs(self.permissions@.take(i as int)) =~= permission_specs(
                self.permissions@.take(i - 1),
            ).push((p.action@, p.action@, p.description@)));
        }
        assert(self.permissions@.take(self.permissions.len() as int) =~= self.permissions@);
        let mut j: usize = 0;
        while j < self.roles.len()
            invariant
                j <= self.roles.len(),
                manifest_permissions(m) == permission_specs(self.permissions@),
                manifest_roles(m) == role_specs(self.roles@.take(j as int)),
                manifest_others(m) == 0,
            decreases self.roles.len() - j,
        {
            let r = &self.roles[j];
            m = add_role(m, r.name.as_str(), r.name.as_str(), r.description.as_str(), r.permissions.as_slice());
            j = j + 1;
            assert(role_specs(self.roles@.take(j as int)) =~= role_specs(self.roles@.take(j - 1)).push(
                (r.name@, r.name@, r.description@, false, views(r.permissions@), true),
            ));
        }
        assert(self.roles@.take(self.roles.len() as int) =~= self.roles@);
        m
    }
}

} // verus!
