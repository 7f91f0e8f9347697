//! The declarative role and permission catalog.
//!
//! Roles and permissions are tenant-wide and carry no resource scope. Before
//! any of them reaches AXIAM, [`Catalog::validate`] refuses what cannot be
//! applied and names the offending entry: a wildcard (every `resource:verb`
//! pair is written out), a role granting an action nothing defines, a
//! duplicate, or an empty name.

use vstd::prelude::*;
use vstd::string::*;

use crate::text::{chars_of, is_blank, is_blank_seq, push_char, push_decimal, decimal, str_eq};

verus! {

/// Default location of the catalog, relative to the repository root.
pub const DEFAULT_PATH: &'static str = "authz/catalog.toml";

/// One permission — an action, tenant-wide.
#[derive(Debug, Clone)]
pub struct PermissionEntry {
    /// The `resource:verb` pair. Its own natural key.
    pub action: String,
    /// Human-readable description. AXIAM requires one.
    pub description: String,
}

/// One role and the actions it grants.
#[derive(Debug, Clone)]
pub struct RoleEntry {
    /// The role's name — its natural key within a tenant.
    pub name: String,
    /// Human-readable description. AXIAM requires one.
    pub description: String,
    /// The actions this role grants, each naming a [`PermissionEntry`].
    pub permissions: Vec<String>,
}

/// The structural groups a resource type gets eagerly.
#[derive(Debug, Clone)]
pub struct GroupTemplate {
    /// The AXIAM `resource_type` discriminator this template applies to.
    pub resource_type: String,
    /// The role names whose groups are created with the resource.
    pub roles: Vec<String>,
}

/// The whole catalog.
#[derive(Debug, Clone)]
pub struct Catalog {
    /// Schema version, so a later incompatible shape can be detected.
    pub version: u32,
    /// The group-name pattern.
    pub group_pattern: String,
    pub permissions: Vec<PermissionEntry>,
    pub roles: Vec<RoleEntry>,
    pub group_templates: Vec<GroupTemplate>,
}

/// Why a catalog cannot be applied. Every variant names its entry.
#[derive(Debug, Clone)]
pub enum CatalogError {
    UnsupportedVersion(u32),
    EmptyGroupPattern,
    EmptyAction,
    /// An action holding a wildcard character.
    WildcardAction(String, char),
    EmptyPermissionDescription(String),
    DuplicatePermission(String),
    EmptyRoleName,
    /// A role name holding a wildcard character.
    WildcardRoleName(String, char),
    EmptyRoleDescription(String),
    DuplicateRole(String),
    /// Role, granted action, and the wildcard character it holds.
    WildcardGrant(String, String, char),
    /// Role and the granted action no permission defines.
    DanglingGrant(String, String),
    /// Role and the action it grants twice.
    DuplicateGrant(String, String),
    EmptyResourceType,
    DuplicateTemplate(String),
    /// Resource type and the role no role block defines.
    UndefinedTemplateRole(String, String),
}

/// A catalog refusal over character sequences.
pub enum CatalogFault {
    UnsupportedVersion(u32),
    EmptyGroupPattern,
    EmptyAction,
    WildcardAction(Seq<char>, char),
    EmptyPermissionDescription(Seq<char>),
    DuplicatePermission(Seq<char>),
    EmptyRoleName,
    WildcardRoleName(Seq<char>, char),
    EmptyRoleDescription(Seq<char>),
    DuplicateRole(Seq<char>),
    WildcardGrant(Seq<char>, Seq<char>, char),
    DanglingGrant(Seq<char>, Seq<char>),
    DuplicateGrant(Seq<char>, Seq<char>),
    EmptyResourceType,
    DuplicateTemplate(Seq<char>),
    UndefinedTemplateRole(Seq<char>, Seq<char>),
}

impl View for CatalogError {
    type V = CatalogFault;

    open spec fn view(&self) -> CatalogFault {
        match self {
            CatalogError::UnsupportedVersion(v) => CatalogFault::UnsupportedVersion(*v),
            CatalogError::EmptyGroupPattern => CatalogFault::EmptyGroupPattern,
            CatalogError::EmptyAction => CatalogFault::EmptyAction,
            CatalogError::WildcardAction(a, c) => CatalogFault::WildcardAction(a@, *c),
            CatalogError::EmptyPermissionDescription(a) => CatalogFault::EmptyPermissionDescription(a@),
            CatalogError::DuplicatePermission(a) => CatalogFault::DuplicatePermission(a@),
            CatalogError::EmptyRoleName => CatalogFault::EmptyRoleName,
            CatalogError::WildcardRoleName(n, c) => CatalogFault::WildcardRoleName(n@, *c),
            CatalogError::EmptyRoleDescription(n) => CatalogFault::EmptyRoleDescription(n@),
            CatalogError::DuplicateRole(n) => CatalogFault::DuplicateRole(n@),
            CatalogError::WildcardGrant(n, a, c) => CatalogFault::WildcardGrant(n@, a@, *c),
            CatalogError::DanglingGrant(n, a) => CatalogFault::DanglingGrant(n@, a@),
            CatalogError::DuplicateGrant(n, a) => CatalogFault::DuplicateGrant(n@, a@),
            CatalogError::EmptyResourceType => CatalogFault::EmptyResourceType,
            CatalogError::DuplicateTemplate(t) => CatalogFault::DuplicateTemplate(t@),
            CatalogError::UndefinedTemplateRole(t, r) => CatalogFault::UndefinedTemplateRole(t@, r@),
        }
    }
}

/// Characters a server might one day read as "all of them".
pub open spec fn is_wildcard(c: char) -> bool {
    c == '*' || c == '?' || c == '%'
}

/// The first wildcard character of `s`, if it holds one.
pub open spec fn first_wildcard(s: Seq<char>) -> Option<char>
    decreases s.len(),
{
    if s.len() == 0 {
        None
    } else if is_wildcard(s[0]) {
        Some(s[0])
    } else {
        first_wildcard(s.drop_first())
    }
}

/// The first wildcard character of `s`, if it holds one.
pub fn wildcard_in(s: &str) -> (r: Option<char>)
    ensures
        r == first_wildcard(s@),
{
    let v = chars_of(s);
    let mut i: usize = 0;
    assert(s@.skip(0) =~= s@);
    while i < v.len()
        invariant
            v@ == s@,
            i <= v.len(),
            first_wildcard(s@) == first_wildcard(s@.skip(i as int)),
        decreases v.len() - i,
    {
        proof {
            assert(s@.skip(i as int).drop_first() =~= s@.skip(i + 1));
        }
        if v[i] == '*' || v[i] == '?' || v[i] == '%' {
            return Some(v[i]);
        }
        i = i + 1;
    }
    proof {
        assert(s@.skip(i as int).len() == 0);
    }
    None
}

/// The characters of each string.
pub open spec fn views(v: Seq<String>) -> Seq<Seq<char>> {
    v.map_values(|x: String| x@)
}

/// The actions of the permissions.
pub open spec fn actions_of(ps: Seq<PermissionEntry>) -> Seq<Seq<char>> {
    ps.map_values(|p: PermissionEntry| p.action@)
}

/// The names of the roles.
pub open spec fn names_of(rs: Seq<RoleEntry>) -> Seq<Seq<char>> {
    rs.map_values(|r: RoleEntry| r.name@)
}

/// The resource types of the templates.
pub open spec fn types_of(ts: Seq<GroupTemplate>) -> Seq<Seq<char>> {
    ts.map_values(|t: GroupTemplate| t.resource_type@)
}

/// What is wrong with permission `i`, given the ones before it.
pub open spec fn permission_fault(ps: Seq<PermissionEntry>, i: int) -> Option<CatalogFault> {
    let a = ps[i].action@;
    if is_blank_seq(a) {
        Some(CatalogFault::EmptyAction)
    } else if first_wildcard(a) is Some {
        Some(CatalogFault::WildcardAction(a, first_wildcard(a)->0))
    } else if is_blank_seq(ps[i].description@) {
        Some(CatalogFault::EmptyPermissionDescription(a))
    } else if actions_of(ps).take(i).contains(a) {
        Some(CatalogFault::DuplicatePermission(a))
    } else {
        None
    }
}

/// The first fault among the first `k` permissions.
pub open spec fn first_permission_fault(ps: Seq<PermissionEntry>, k: int) -> Option<CatalogFault>
    decreases k,
{
    if k <= 0 {
        None
    } else {
        match first_permission_fault(ps, k - 1) {
            Some(f) => Some(f),
            None => permission_fault(ps, k - 1),
        }
    }
}

/// What is wrong with grant `j` of role `r`, given every defined action.
pub open spec fn grant_fault(r: RoleEntry, actions: Seq<Seq<char>>, j: int) -> Option<CatalogFault> {
    let g = r.permissions@[j]@;
    if first_wildcard(g) is Some {
        Some(CatalogFault::WildcardGrant(r.name@, g, first_wildcard(g)->0))
    } else if !actions.contains(g) {
        Some(CatalogFault::DanglingGrant(r.name@, g))
    } else if views(r.permissions@).take(j).contains(g) {
        Some(CatalogFault::DuplicateGrant(r.name@, g))
    } else {
        None
    }
}

/// The first fault among the first `k` grants of role `r`.
pub open spec fn first_grant_fault(r: RoleEntry, actions: Seq<Seq<char>>, k: int) -> Option<CatalogFault>
    decreases k,
{
    if k <= 0 {
        None
    } else {
        match first_grant_fault(r, actions, k - 1) {
            Some(f) => Some(f),
            None => grant_fault(r, actions, k - 1),
        }
    }
}

/// What is wrong with role `i`, given the ones before it and every defined
/// action.
pub open spec fn role_fault(rs: Seq<RoleEntry>, actions: Seq<Seq<char>>, i: int) -> Option<CatalogFault> {
    let n = rs[i].name@;
    if is_blank_seq(n) {
        Some(CatalogFault::EmptyRoleName)
    } else if first_wildcard(n) is Some {
        Some(CatalogFault::WildcardRoleName(n, first_wildcard(n)->0))
    } else if is_blank_seq(rs[i].description@) {
        Some(CatalogFault::EmptyRoleDescription(n))
    } else if names_of(rs).take(i).contains(n) {
        Some(CatalogFault::DuplicateRole(n))
    } else {
        first_grant_fault(rs[i], actions, rs[i].permissions@.len() as int)
    }
}

/// The first fault among the first `k` roles.
pub open spec fn first_role_fault(rs: Seq<RoleEntry>, actions: Seq<Seq<char>>, k: int) -> Option<CatalogFault>
    decreases k,
{
    if k <= 0 {
        None
    } else {
        match first_role_fault(rs, actions, k - 1) {
            Some(f) => Some(f),
            None => role_fault(rs, actions, k - 1),
        }
    }
}

/// The first role of template `t`, among its first `k`, that no role defines.
pub open spec fn first_template_role_fault(t: GroupTemplate, names: Seq<Seq<char>>, k: int) -> Option<CatalogFault>
    decreases k,
{
    if k <= 0 {
        None
    } else {
        match first_template_role_fault(t, names, k - 1) {
            Some(f) => Some(f),
            None => if names.contains(t.roles@[k - 1]@) {
                None
            } else {
                Some(CatalogFault::UndefinedTemplateRole(t.resource_type@, t.roles@[k - 1]@))
            },
        }
    }
}

/// What is wrong with template `i`, given the ones before it and every role
/// name.
pub open spec fn template_fault(ts: Seq<GroupTemplate>, names: Seq<Seq<char>>, i: int) -> Option<CatalogFault> {
    let t = ts[i].resource_type@;
    if is_blank_seq(t) {
        Some(CatalogFault::EmptyResourceType)
    } else if types_of(ts).take(i).contains(t) {
        Some(CatalogFault::DuplicateTemplate(t))
    } else {
        first_template_role_fault(ts[i], names, ts[i].roles@.len() as int)
    }
}

/// The first fault among the first `k` templates.
pub open spec fn first_template_fault(ts: Seq<GroupTemplate>, names: Seq<Seq<char>>, k: int) -> Option<CatalogFault>
    decreases k,
{
    if k <= 0 {
        None
    } else {
        match first_template_fault(ts, names, k - 1) {
            Some(f) => Some(f),
            None => template_fault(ts, names, k - 1),
        }
    }
}

/// The first reason a catalog cannot be applied, checked in the order a
/// reader meets them: version, group pattern, permissions, roles (each with
/// its grants), group templates. `None` when there is none.
pub open spec fn spec_validate(c: Catalog) -> Option<CatalogFault> {
    let ps = c.permissions@;
    let rs = c.roles@;
    let ts = c.group_templates@;
    if c.version != 1 {
        Some(CatalogFault::UnsupportedVersion(c.version))
    } else if is_blank_seq(c.group_pattern@) {
        Some(CatalogFault::EmptyGroupPattern)
    } else if first_permission_fault(ps, ps.len() as int) is Some {
        first_permission_fault(ps, ps.len() as int)
    } else if first_role_fault(rs, actions_of(ps), rs.len() as int) is Some {
        first_role_fault(rs, actions_of(ps), rs.len() as int)
    } else {
        first_template_fault(ts, names_of(rs), ts.len() as int)
    }
}

/// Once a fault is found, checking further entries does not change it.
proof fn lemma_permission_fault_stable(ps: Seq<PermissionEntry>, k: int, m: int)
    requires
        0 <= k <= m,
        first_permission_fault(ps, k) is Some,
    ensures
        first_permission_fault(ps, m) == first_permission_fault(ps, k),
    decreases m - k,
{
    if m > k {
        lemma_permission_fault_stable(ps, k, m - 1);
    }
}

/// Once a fault is found, checking further entries does not change it.
proof fn lemma_grant_fault_stable(r: RoleEntry, actions: Seq<Seq<char>>, k: int, m: int)
    requires
        0 <= k <= m,
        first_grant_fault(r, actions, k) is Some,
    ensures
        first_grant_fault(r, actions, m) == first_grant_fault(r, actions, k),
    decreases m - k,
{
    if m > k {
        lemma_grant_fault_stable(r, actions, k, m - 1);
    }
}

/// Once a fault is found, checking further entries does not change it.
proof fn lemma_role_fault_stable(rs: Seq<RoleEntry>, actions: Seq<Seq<char>>, k: int, m: int)
    requires
        0 <= k <= m,
        first_role_fault(rs, actions, k) is Some,
    ensures
        first_role_fault(rs, actions, m) == first_role_fault(rs, actions, k),
    decreases m - k,
{
    if m > k {
        lemma_role_fault_stable(rs, actions, k, m - 1);
    }
}

/// Once a fault is found, checking further entries does not change it.
proof fn lemma_template_role_fault_stable(t: GroupTemplate, names: Seq<Seq<char>>, k: int, m: int)
    requires
        0 <= k <= m,
        first_template_role_fault(t, names, k) is Some,
    ensures
        first_template_role_fault(t, names, m) == first_template_role_fault(t, names, k),
    decreases m - k,
{
    if m > k {
        lemma_template_role_fault_stable(t, names, k, m - 1);
    }
}

/// Once a fault is found, checking further entries does not change it.
proof fn lemma_template_fault_stable(ts: Seq<GroupTemplate>, names: Seq<Seq<char>>, k: int, m: int)
    requires
        0 <= k <= m,
        first_template_fault(ts, names, k) is Some,
    ensures
        first_template_fault(ts, names, m) == first_template_fault(ts, names, k),
    decreases m - k,
{
    if m > k {
        lemma_template_fault_stable(ts, names, k, m - 1);
    }
}

/// Whether `ps[0..upto]` defines the action `a`.
fn action_defined(ps: &Vec<PermissionEntry>, upto: usize, a: &str) -> (r: bool)
    requires
        upto <= ps.len(),
    ensures
        r == actions_of(ps@).take(upto as int).contains(a@),
{
    let mut i: usize = 0;
    while i < upto
        invariant
            upto <= ps.len(),
            i <= upto,
            forall|j: int| 0 <= j < i ==> ps@[j].action@ != a@,
        decreases upto - i,
    {
        if str_eq(ps[i].action.as_str(), a) {
            assert(actions_of(ps@).take(upto as int)[i as int] == a@);
            return true;
        }
        i = i + 1;
    }
    proof {
        if actions_of(ps@).take(upto as int).contains(a@) {
            let j = choose|j: int| 0 <= j < upto && actions_of(ps@).take(upto as int)[j] == a@;
            assert(ps@[j].action@ == a@);
        }
    }
    false
}

/// Whether `rs[0..upto]` names the role `n`.
fn role_defined(rs: &Vec<RoleEntry>, upto: usize, n: &str) -> (r: bool)
    requires
        upto <= rs.len(),
    ensures
        r == names_of(rs@).take(upto as int).contains(n@),
{
    let mut i: usize = 0;
    while i < upto
        invariant
            upto <= rs.len(),
            i <= upto,
            forall|j: int| 0 <= j < i ==> rs@[j].name@ != n@,
        decreases upto - i,
    {
        if str_eq(rs[i].name.as_str(), n) {
            assert(names_of(rs@).take(upto as int)[i as int] == n@);
            return true;
        }
        i = i + 1;
    }
    proof {
        if names_of(rs@).take(upto as int).contains(n@) {
            let j = choose|j: int| 0 <= j < upto && names_of(rs@).take(upto as int)[j] == n@;
            assert(rs@[j].name@ == n@);
        }
    }
    false
}

/// Whether `ts[0..upto]` has a template for resource type `t`.
fn template_defined(ts: &Vec<GroupTemplate>, upto: usize, t: &str) -> (r: bool)
    requires
        upto <= ts.len(),
    ensures
        r == types_of(ts@).take(upto as int).contains(t@),
{
    let mut i: usize = 0;
    while i < upto
        invariant
            upto <= ts.len(),
            i <= upto,
            forall|j: int| 0 <= j < i ==> ts@[j].resource_type@ != t@,
        decreases upto - i,
    {
        if str_eq(ts[i].resource_type.as_str(), t) {
            assert(types_of(ts@).take(upto as int)[i as int] == t@);
            return true;
        }
        i = i + 1;
    }
    proof {
        if types_of(ts@).take(upto as int).contains(t@) {
            let j = choose|j: int| 0 <= j < upto && types_of(ts@).take(upto as int)[j] == t@;
            assert(ts@[j].resource_type@ == t@);
        }
    }
    false
}

/// Whether `v[0..upto]` holds the text `s`.
fn string_in(v: &Vec<String>, upto: usize, s: &str) -> (r: bool)
    requires
        upto <= v.len(),
    ensures
        r == views(v@).take(upto as int).contains(s@),
{
    let mut i: usize = 0;
    while i < upto
        invariant
            upto <= v.len(),
            i <= upto,
            forall|j: int| 0 <= j < i ==> v@[j]@ != s@,
        decreases upto - i,
    {
        if str_eq(v[i].as_str(), s) {
            assert(views(v@).take(upto as int)[i as int] == s@);
            return true;
        }
        i = i + 1;
    }
    proof {
        if views(v@).take(upto as int).contains(s@) {
            let j = choose|j: int| 0 <= j < upto && views(v@).take(upto as int)[j] == s@;
            assert(v@[j]@ == s@);
        }
    }
    false
}

/// An owned copy of a string.
fn own(s: &String) -> (r: String)
    ensures
        r@ == s@,
{
    s.clone()
}

/// Check permission `i`.
fn check_permission(ps: &Vec<PermissionEntry>, i: usize) -> (r: Result<(), CatalogError>)
    requires
        i < ps.len(),
    ensures
        match r {
            Ok(_) => permission_fault(ps@, i as int) is None,
            Err(e) => permission_fault(ps@, i as int) == Some(e@),
        },
{
    let p = &ps[i];
    if is_blank(p.action.as_str()) {
        return Err(CatalogError::EmptyAction);
    }
    if let Some(c) = wildcard_in(p.action.as_str()) {
        return Err(CatalogError::WildcardAction(own(&p.action), c));
    }
    if is_blank(p.description.as_str()) {
        return Err(CatalogError::EmptyPermissionDescription(own(&p.action)));
    }
    if action_defined(ps, i, p.action.as_str()) {
        return Err(CatalogError::DuplicatePermission(own(&p.action)));
    }
    Ok(())
}

/// Check grant `j` of role `r` against the actions `ps` defines.
fn check_grant(ps: &Vec<PermissionEntry>, r: &RoleEntry, j: usize) -> (res: Result<(), CatalogError>)
    requires
        j < r.permissions.len(),
    ensures
        match res {
            Ok(_) => grant_fault(*r, actions_of(ps@), j as int) is None,
            Err(e) => grant_fault(*r, actions_of(ps@), j as int) == Some(e@),
        },
{
    let g = &r.permissions[j];
    if let Some(c) = wildcard_in(g.as_str()) {
        return Err(CatalogError::WildcardGrant(own(&r.name), own(g), c));
    }
    if !action_defined(ps, ps.len(), g.as_str()) {
        proof {
            assert(actions_of(ps@).take(ps.len() as int) =~= actions_of(ps@));
        }
        return Err(CatalogError::DanglingGrant(own(&r.name), own(g)));
    }
    proof {
        assert(actions_of(ps@).take(ps.len() as int) =~= actions_of(ps@));
    }
    if string_in(&r.permissions, j, g.as_str()) {
        return Err(CatalogError::DuplicateGrant(own(&r.name), own(g)));
    }
    Ok(())
}

/// Check role `i`, grants included.
#[verifier::loop_isolation(false)]
fn check_role(ps: &Vec<PermissionEntry>, rs: &Vec<RoleEntry>, i: usize) -> (res: Result<(), CatalogError>)
    requires
        i < rs.len(),
    ensures
        match res {
            Ok(_) => role_fault(rs@, actions_of(ps@), i as int) is None,
            Err(e) => role_fault(rs@, actions_of(ps@), i as int) == Some(e@),
        },
{
    let r = &rs[i];
    if is_blank(r.name.as_str()) {
        return Err(CatalogError::EmptyRoleName);
    }
    if let Some(c) = wildcard_in(r.name.as_str()) {
        return Err(CatalogError::WildcardRoleName(own(&r.name), c));
    }
    if is_blank(r.description.as_str()) {
        return Err(CatalogError::EmptyRoleDescription(own(&r.name)));
    }
    if role_defined(rs, i, r.name.as_str()) {
        return Err(CatalogError::DuplicateRole(own(&r.name)));
    }
    let mut j: usize = 0;
    while j < r.permissions.len()
        invariant
            j <= r.permissions.len(),
            first_grant_fault(*r, actions_of(ps@), j as int) is None,
        decreases r.permissions.len() - j,
    {
        match check_grant(ps, r, j) {
            Ok(_) => {},
            Err(e) => {
                proof {
                    lemma_grant_fault_stable(*r, actions_of(ps@), j + 1, r.permissions.len() as int);
                }
                return Err(e);
            },
        }
        j = j + 1;
    }
    Ok(())
}

/// Check template `i`, its roles included.
#[verifier::loop_isolation(false)]
fn check_template(ts: &Vec<GroupTemplate>, rs: &Vec<RoleEntry>, i: usize) -> (res: Result<(), CatalogError>)
    requires
        i < ts.len(),
    ensures
        match res {
            Ok(_) => template_fault(ts@, names_of(rs@), i as int) is None,
            Err(e) => template_fault(ts@, names_of(rs@), i as int) == Some(e@),
        },
{
    let t = &ts[i];
    if is_blank(t.resource_type.as_str()) {
        return Err(CatalogError::EmptyResourceType);
    }
    if template_defined(ts, i, t.resource_type.as_str()) {
        return Err(CatalogError::DuplicateTemplate(own(&t.resource_type)));
    }
    proof {
        assert(names_of(rs@).take(rs.len() as int) =~= names_of(rs@));
    }
    let mut k: usize = 0;
    while k < t.roles.len()
        invariant
            k <= t.roles.len(),
            names_of(rs@).take(rs.len() as int) =~= names_of(rs@),
            first_template_role_fault(*t, names_of(rs@), k as int) is None,
        decreases t.roles.len() - k,
    {
        if !role_defined(rs, rs.len(), t.roles[k].as_str()) {
            proof {
                lemma_template_role_fault_stable(*t, names_of(rs@), k + 1, t.roles.len() as int);
            }
            return Err(CatalogError::UndefinedTemplateRole(own(&t.resource_type), own(&t.roles[k])));
        }
        k = k + 1;
    }
    Ok(())
}

impl Catalog {
    /// Reject a catalog that cannot be applied, before any network call.
    ///
    /// Every error names the offending entry.
    #[verifier::loop_isolation(false)]
    pub fn validate(&self) -> (r: Result<(), CatalogError>)
        ensures
            match r {
                Ok(_) => spec_validate(*self) is None,
                Err(e) => spec_validate(*self) == Some(e@),
            },
    {
        if self.version != 1 {
            return Err(CatalogError::UnsupportedVersion(self.version));
        }
        if is_blank(self.group_pattern.as_str()) {
            return Err(CatalogError::EmptyGroupPattern);
        }
        let mut i: usize = 0;
        while i < self.permissions.len()
            invariant
                i <= self.permissions.len(),
                first_permission_fault(self.permissions@, i as int) is None,
            decreases self.permissions.len() - i,
        {
            match check_permission(&self.permissions, i) {
                Ok(_) => {},
                Err(e) => {
                    proof {
                        lemma_permission_fault_stable(self.permissions@, i + 1, self.permissions.len() as int);
                    }
                    return Err(e);
                },
            }
            i = i + 1;
        }
        let mut i: usize = 0;
        while i < self.roles.len()
            invariant
                i <= self.roles.len(),
                first_role_fault(self.roles@, actions_of(self.permissions@), i as int) is None,
            decreases self.roles.len() - i,
        {
            match check_role(&self.permissions, &self.roles, i) {
                Ok(_) => {},
                Err(e) => {
                    proof {
                        lemma_role_fault_stable(self.roles@, actions_of(self.permissions@), i + 1, self.roles.len() as int);
                    }
                    return Err(e);
                },
            }
            i = i + 1;
        }
        let mut i: usize = 0;
        while i < self.group_templates.len()
            invariant
                i <= self.group_templates.len(),
                first_template_fault(self.group_templates@, names_of(self.roles@), i as int) is None,
            decreases self.group_templates.len() - i,
        {
            match check_template(&self.group_templates, &self.roles, i) {
                Ok(_) => {},
                Err(e) => {
                    proof {
                        lemma_template_fault_stable(self.group_templates@, names_of(self.roles@), i + 1, self.group_templates.len() as int);
                    }
                    return Err(e);
                },
            }
            i = i + 1;
        }
        Ok(())
    }
}

/// Text free of wildcard characters.
pub open spec fn no_wildcard(s: Seq<char>) -> bool {
    forall|i: int| 0 <= i < s.len() ==> !is_wildcard(#[trigger] s[i])
}

/// A permission with an action, no wildcard in it, and a description.
pub open spec fn permission_ok(p: PermissionEntry) -> bool {
    &&& !is_blank_seq(p.action@)
    &&& no_wildcard(p.action@)
    &&& !is_blank_seq(p.description@)
}

/// A role with a name free of wildcards and a description, granting only
/// defined, wildcard-free actions, each at most once.
pub open spec fn role_ok(r: RoleEntry, actions: Seq<Seq<char>>) -> bool {
    &&& !is_blank_seq(r.name@)
    &&& no_wildcard(r.name@)
    &&& !is_blank_seq(r.description@)
    &&& forall|j: int| 0 <= j < r.permissions@.len() ==> no_wildcard(#[trigger] r.permissions@[j]@)
    &&& forall|j: int| 0 <= j < r.permissions@.len() ==> actions.contains(#[trigger] r.permissions@[j]@)
    &&& views(r.permissions@).no_duplicates()
}

/// A template with a resource type, naming only defined roles.
pub open spec fn template_ok(t: GroupTemplate, names: Seq<Seq<char>>) -> bool {
    &&& !is_blank_seq(t.resource_type@)
    &&& forall|k: int| 0 <= k < t.roles@.len() ==> names.contains(#[trigger] t.roles@[k]@)
}

/// A catalog that can be applied: version 1, a group pattern, and every
/// permission, role and template well formed and named uniquely.
pub open spec fn catalog_well_formed(c: Catalog) -> bool {
    let ps = c.permissions@;
    let rs = c.roles@;
    let ts = c.group_templates@;
    &&& c.version == 1
    &&& !is_blank_seq(c.group_pattern@)
    &&& forall|i: int| 0 <= i < ps.len() ==> permission_ok(#[trigger] ps[i])
    &&& actions_of(ps).no_duplicates()
    &&& forall|i: int| 0 <= i < rs.len() ==> role_ok(#[trigger] rs[i], actions_of(ps))
    &&& names_of(rs).no_duplicates()
    &&& forall|i: int| 0 <= i < ts.len() ==> template_ok(#[trigger] ts[i], names_of(rs))
    &&& types_of(ts).no_duplicates()
}

proof fn lemma_first_wildcard_none(s: Seq<char>)
    ensures
        (first_wildcard(s) is None) == no_wildcard(s),
    decreases s.len(),
{
    if s.len() > 0 {
        lemma_first_wildcard_none(s.drop_first());
        if no_wildcard(s.drop_first()) && !is_wildcard(s[0]) {
            assert forall|i: int| 0 <= i < s.len() implies !is_wildcard(#[trigger] s[i]) by {
                if i > 0 {
                    assert(s[i] == s.drop_first()[i - 1]);
                }
            }
        }
        if no_wildcard(s) {
            assert(!is_wildcard(s[0]));
            assert forall|i: int| 0 <= i < s.drop_first().len() implies !is_wildcard(#[trigger] s.drop_first()[i]) by {
                assert(s.drop_first()[i] == s[i + 1]);
            }
        }
    }
}

proof fn lemma_no_dup_push<A>(s: Seq<A>, x: A)
    ensures
        s.push(x).no_duplicates() == (s.no_duplicates() && !s.contains(x)),
{
    let t = s.push(x);
    if t.no_duplicates() {
        assert forall|i: int, j: int| 0 <= i < s.len() && 0 <= j < s.len() && i != j implies s[i] != s[j] by {
            assert(t[i] == s[i] && t[j] == s[j]);
        }
        if s.contains(x) {
            let i = choose|i: int| 0 <= i < s.len() && s[i] == x;
            assert(t[i] == t[s.len() as int]);
        }
    }
    if s.no_duplicates() && !s.contains(x) {
        assert forall|i: int, j: int| 0 <= i < t.len() && 0 <= j < t.len() && i != j implies t[i] != t[j] by {
            if i == s.len() {
                assert(s.contains(t[j]));
            } else if j == s.len() {
                assert(s.contains(t[i]));
            }
        }
    }
}

proof fn lemma_permissions_prefix(ps: Seq<PermissionEntry>, k: int)
    requires
        0 <= k <= ps.len(),
    ensures
        (first_permission_fault(ps, k) is None) == ((forall|i: int| 0 <= i < k ==> permission_ok(#[trigger] ps[i]))
            && actions_of(ps).take(k).no_duplicates()),
    decreases k,
{
    if k > 0 {
        lemma_permissions_prefix(ps, k - 1);
        lemma_first_wildcard_none(ps[k - 1].action@);
        let acts = actions_of(ps);
        assert(acts.take(k) =~= acts.take(k - 1).push(acts[k - 1]));
        lemma_no_dup_push(acts.take(k - 1), acts[k - 1]);
    } else {
        assert(actions_of(ps).take(0).no_duplicates());
    }
}

proof fn lemma_grants_prefix(r: RoleEntry, actions: Seq<Seq<char>>, k: int)
    requires
        0 <= k <= r.permissions@.len(),
    ensures
        (first_grant_fault(r, actions, k) is None) == (
            (forall|j: int| 0 <= j < k ==> no_wildcard(#[trigger] r.permissions@[j]@) && actions.contains(r.permissions@[j]@))
            && views(r.permissions@).take(k).no_duplicates()),
    decreases k,
{
    if k > 0 {
        lemma_grants_prefix(r, actions, k - 1);
        lemma_first_wildcard_none(r.permissions@[k - 1]@);
        let vs = views(r.permissions@);
        assert(vs.take(k) =~= vs.take(k - 1).push(vs[k - 1]));
        lemma_no_dup_push(vs.take(k - 1), vs[k - 1]);
    } else {
        assert(views(r.permissions@).take(0).no_duplicates());
    }
}

proof fn lemma_roles_prefix(rs: Seq<RoleEntry>, actions: Seq<Seq<char>>, k: int)
    requires
        0 <= k <= rs.len(),
    ensures
        (first_role_fault(rs, actions, k) is None) == ((forall|i: int| 0 <= i < k ==> role_ok(#[trigger] rs[i], actions))
            && names_of(rs).take(k).no_duplicates()),
    decreases k,
{
    if k > 0 {
        lemma_roles_prefix(rs, actions, k - 1);
        let r = rs[k - 1];
        lemma_first_wildcard_none(r.name@);
        lemma_grants_prefix(r, actions, r.permissions@.len() as int);
        assert(views(r.permissions@).take(r.permissions@.len() as int) =~= views(r.permissions@));
        let ns = names_of(rs);
        assert(ns.take(k) =~= ns.take(k - 1).push(ns[k - 1]));
        lemma_no_dup_push(ns.take(k - 1), ns[k - 1]);
    } else {
        assert(names_of(rs).take(0).no_duplicates());
    }
}

proof fn lemma_template_roles_prefix(t: GroupTemplate, names: Seq<Seq<char>>, k: int)
    requires
        0 <= k <= t.roles@.len(),
    ensures
        (first_template_role_fault(t, names, k) is None) == (forall|j: int| 0 <= j < k ==> names.contains(#[trigger] t.roles@[j]@)),
    decreases k,
{
    if k > 0 {
        lemma_template_roles_prefix(t, names, k - 1);
    }
}

proof fn lemma_templates_prefix(ts: Seq<GroupTemplate>, names: Seq<Seq<char>>, k: int)
    requires
        0 <= k <= ts.len(),
    ensures
        (first_template_fault(ts, names, k) is None) == ((forall|i: int| 0 <= i < k ==> template_ok(#[trigger] ts[i], names))
            && types_of(ts).take(k).no_duplicates()),
    decreases k,
{
    if k > 0 {
        lemma_templates_prefix(ts, names, k - 1);
        let t = ts[k - 1];
        lemma_template_roles_prefix(t, names, t.roles@.len() as int);
        let ty = types_of(ts);
        assert(ty.take(k) =~= ty.take(k - 1).push(ty[k - 1]));
        lemma_no_dup_push(ty.take(k - 1), ty[k - 1]);
    } else {
        assert(types_of(ts).take(0).no_duplicates());
    }
}

/// A catalog is accepted exactly when it is well formed: version 1, a group
/// pattern, every permission with an action free of wildcards and a
/// description, actions unique, every role with a wildcard-free name and a
/// description granting only defined, wildcard-free actions at most once
/// each, role names unique, and every template with a resource type naming
/// only defined roles, resource types unique.
pub proof fn lemma_accepted_iff_well_formed(c: Catalog)
    ensures
        (spec_validate(c) is None) == catalog_well_formed(c),
{
    let ps = c.permissions@;
    let rs = c.roles@;
    let ts = c.group_templates@;
    lemma_permissions_prefix(ps, ps.len() as int);
    lemma_roles_prefix(rs, actions_of(ps), rs.len() as int);
    lemma_templates_prefix(ts, names_of(rs), ts.len() as int);
    assert(actions_of(ps).take(ps.len() as int) =~= actions_of(ps));
    assert(names_of(rs).take(rs.len() as int) =~= names_of(rs));
    assert(types_of(ts).take(ts.len() as int) =~= types_of(ts));
}

/// The operator-facing text of a refusal. Each names what it found.
pub open spec fn fault_message(f: CatalogFault) -> Seq<char> {
    match f {
        CatalogFault::UnsupportedVersion(v) => "catalog version "@ + decimal(v as nat)
            + " is not supported by this build (expected 1)"@,
        CatalogFault::EmptyGroupPattern => "`group_pattern` is empty; the group naming scheme has no other source"@,
        CatalogFault::EmptyAction => "a permission has an empty action"@,
        CatalogFault::WildcardAction(a, c) => "permission '"@ + a + "' contains the wildcard character '"@
            + seq![c] + "'; D-16 requires every resource:verb pair to be written out"@,
        CatalogFault::EmptyPermissionDescription(a) => "permission '"@ + a + "' has an empty description"@,
        CatalogFault::DuplicatePermission(a) => "permission '"@ + a + "' is defined more than once"@,
        CatalogFault::EmptyRoleName => "a role has an empty name"@,
        CatalogFault::WildcardRoleName(n, c) => "role '"@ + n + "' contains the wildcard character '"@
            + seq![c] + "'"@,
        CatalogFault::EmptyRoleDescription(n) => "role '"@ + n + "' has an empty description"@,
        CatalogFault::DuplicateRole(n) => "role '"@ + n + "' is defined more than once"@,
        CatalogFault::WildcardGrant(n, a, c) => "role '"@ + n + "' grants '"@ + a
            + "', which contains the wildcard character '"@ + seq![c] + "'; D-16 requires it to be expanded"@,
        CatalogFault::DanglingGrant(n, a) => "role '"@ + n + "' grants '"@ + a
            + "', which no [[permission]] block defines"@,
        CatalogFault::DuplicateGrant(n, a) => "role '"@ + n + "' grants '"@ + a + "' more than once"@,
        CatalogFault::EmptyResourceType => "a group template has an empty resource_type"@,
        CatalogFault::DuplicateTemplate(t) => "group template for resource type '"@ + t
            + "' is defined more than once"@,
        CatalogFault::UndefinedTemplateRole(t, r) => "group template for '"@ + t + "' names role '"@ + r
            + "', which no [[role]] block defines"@,
    }
}

impl CatalogError {
    /// The operator-facing text of this refusal, naming the entry at fault.
    pub fn message(&self) -> (r: String)
        ensures
            r@ == fault_message(self@),
    {
        let mut m = String::new();
        match self {
            CatalogError::UnsupportedVersion(v) => {
                m.append("catalog version ");
                push_decimal(&mut m, *v);
                m.append(" is not supported by this build (expected 1)");
            },
            CatalogError::EmptyGroupPattern => {
                m.append("`group_pattern` is empty; the group naming scheme has no other source");
            },
            CatalogError::EmptyAction => {
                m.append("a permission has an empty action");
            },
            CatalogError::WildcardAction(a, c) => {
                m.append("permission '");
                m.append(a.as_str());
                m.append("' contains the wildcard character '");
                push_char(&mut m, *c);
                m.append("'; D-16 requires every resource:verb pair to be written out");
            },
            CatalogError::EmptyPermissionDescription(a) => {
                m.append("permission '");
                m.append(a.as_str());
                m.append("' has an empty description");
            },
            CatalogError::DuplicatePermission(a) => {
                m.append("permission '");
                m.append(a.as_str());
                m.append("' is defined more than once");
            },
            CatalogError::EmptyRoleName => {
                m.append("a role has an empty name");
            },
            CatalogError::WildcardRoleName(n, c) => {
                m.append("role '");
                m.append(n.as_str());
                m.append("' contains the wildcard character '");
                push_char(&mut m, *c);
                m.append("'");
            },
            CatalogError::EmptyRoleDescription(n) => {
                m.append("role '");
                m.append(n.as_str());
                m.append("' has an empty description");
            },
            CatalogError::DuplicateRole(n) => {
                m.append("role '");
                m.append(n.as_str());
                m.append("' is defined more than once");
            },
            CatalogError::WildcardGrant(n, a, c) => {
                m.append("role '");
                m.append(n.as_str());
                m.append("' grants '");
                m.append(a.as_str());
                m.append("', which contains the wildcard character '");
                push_char(&mut m, *c);
                m.append("'; D-16 requires it to be expanded");
            },
            CatalogError::DanglingGrant(n, a) => {
                m.append("role '");
                m.append(n.as_str());
                m.append("' grants '");
                m.append(a.as_str());
                m.append("', which no [[permission]] block defines");
            },
            CatalogError::DuplicateGrant(n, a) => {
                m.append("role '");
                m.append(n.as_str());
                m.append("' grants '");
                m.append(a.as_str());
                m.append("' more than once");
            },
            CatalogError::EmptyResourceType => {
                m.append("a group template has an empty resource_type");
            },
            CatalogError::DuplicateTemplate(t) => {
                m.append("group template for resource type '");
                m.append(t.as_str());
                m.append("' is defined more than once");
            },
            CatalogError::UndefinedTemplateRole(t, r) => {
                m.append("group template for '");
                m.append(t.as_str());
                m.append("' names role '");
                m.append(r.as_str());
                m.append("', which no [[role]] block defines");
            },
        }
        assert(m@ =~= fault_message(self@));
        m
    }
}

/// The roles of the first template for `resource_type`; empty when no
/// template names that type.
pub open spec fn spec_roles_for(ts: Seq<GroupTemplate>, resource_type: Seq<char>) -> Seq<Seq<char>>
    decreases ts.len(),
{
    if ts.len() == 0 {
        Seq::empty()
    } else if ts[0].resource_type@ == resource_type {
        views(ts[0].roles@)
    } else {
        spec_roles_for(ts.drop_first(), resource_type)
    }
}

/// Owned copies of a list of strings.
fn copy_strings(v: &Vec<String>) -> (r: Vec<String>)
    ensures
        views(r@) == views(v@),
{
    let mut r: Vec<String> = Vec::new();
    let mut i: usize = 0;
    while i < v.len()
        invariant
            i <= v.len(),
            views(r@) =~= views(v@).take(i as int),
        decreases v.len() - i,
    {
        let c = v[i].clone();
        let ghost prev = r@;
        r.push(c);
        assert(views(r@) =~= views(prev).push(v@[i as int]@));
        assert(views(v@).take(i + 1) =~= views(v@).take(i as int).push(v@[i as int]@));
        i = i + 1;
    }
    assert(views(v@).take(v.len() as int) =~= views(v@));
    r
}

impl Catalog {
    /// The eager structural roles for `resource_type`.
    ///
    /// An unlisted type returns an empty set, which is the right answer for a
    /// device: its grant group is created on first grant, not eagerly.
    pub fn roles_for(&self, resource_type: &str) -> (r: Vec<String>)
        ensures
            views(r@) == spec_roles_for(self.group_templates@, resource_type@),
    {
        let ts = &self.group_templates;
        let mut i: usize = 0;
        assert(ts@.skip(0) =~= ts@);
        while i < ts.len()
            invariant
                ts@ == self.group_templates@,
                i <= ts.len(),
                spec_roles_for(ts@, resource_type@) == spec_roles_for(ts@.skip(i as int), resource_type@),
            decreases ts.len() - i,
        {
            assert(ts@.skip(i as int).drop_first() =~= ts@.skip(i + 1));
            assert(ts@.skip(i as int)[0] == ts@[i as int]);
            if str_eq(ts[i].resource_type.as_str(), resource_type) {
                return copy_strings(&ts[i].roles);
            }
            i = i + 1;
        }
        let r: Vec<String> = Vec::new();
        assert(views(r@) =~= Seq::<Seq<char>>::empty());
        r
    }
}

} // verus!
