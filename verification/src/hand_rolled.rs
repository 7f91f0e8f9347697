//! The decisions around the AXIAM calls the SDK does not cover.
//!
//! The calls themselves are made by the HTTP layer. What goes into them (the
//! URL, the headers, the JSON bodies) and what their answers mean (from the
//! status code and the JSON that came back) is decided here.

use vstd::prelude::*;
use vstd::string::*;

use crate::codec::{json_array, json_array_elements, json_array_field, json_array_member, json_object,
    json_object_text, json_string_field, json_string_member, uuid_accepts, uuid_parses};
use crate::text::{chars_of, concat3, str_eq};

verus! {

/// How an organization-level principal names the tenant a request is about.
pub const ACTING_TENANT_HEADER: &'static str = "X-Axiam-Tenant";

/// The header a mutating call must echo after login.
pub const CSRF_HEADER: &'static str = "X-CSRF-Token";

/// Outcome of the one-shot `/admin/bootstrap` call.
#[derive(Debug, Clone, Copy, PartialEq, Eq, Structural)]
pub enum BootstrapOutcome {
    /// 201 — the organization and super-admin were created by this call.
    Created,
    /// 409 — already initialised; the existing super-admin stands.
    AlreadyInitialised,
    /// 403 — the setup-token gate was already consumed. Not fatal on its
    /// own: the caller falls through to signing in with saved credentials.
    GateConsumed,
}

/// What a bootstrap status means: 200 and 201 created, 409 already
/// initialised, 403 gate consumed, anything else a failure.
pub open spec fn spec_bootstrap_outcome(status: u16) -> Option<BootstrapOutcome> {
    if status == 200 || status == 201 {
        Some(BootstrapOutcome::Created)
    } else if status == 409 {
        Some(BootstrapOutcome::AlreadyInitialised)
    } else if status == 403 {
        Some(BootstrapOutcome::GateConsumed)
    } else {
        None
    }
}

/// Classify the status of `POST /api/v1/admin/bootstrap`; `None` is a
/// failure the caller reports without echoing the body.
pub fn bootstrap_outcome(status: u16) -> (r: Option<BootstrapOutcome>)
    ensures
        r == spec_bootstrap_outcome(status),
{
    if status == 200 || status == 201 {
        Some(BootstrapOutcome::Created)
    } else if status == 409 {
        Some(BootstrapOutcome::AlreadyInitialised)
    } else if status == 403 {
        Some(BootstrapOutcome::GateConsumed)
    } else {
        None
    }
}

/// What creating the tenant admin answered.
#[derive(Debug, Clone, Copy, PartialEq, Eq, Structural)]
pub enum UserCreation {
    /// 200 or 201: the body carries the new user's id.
    Created,
    /// 409: the user exists and is resolved by user name instead.
    Exists,
    /// Anything else.
    Failed,
}

/// Classify the status of creating the tenant admin.
pub fn user_creation(status: u16) -> (r: UserCreation)
    ensures
        r == (if status == 200 || status == 201 {
            UserCreation::Created
        } else if status == 409 {
            UserCreation::Exists
        } else {
            UserCreation::Failed
        }),
{
    if status == 200 || status == 201 {
        UserCreation::Created
    } else if status == 409 {
        UserCreation::Exists
    } else {
        UserCreation::Failed
    }
}

/// Whether assigning `super-admin` succeeded: 200, 201 and 204 did it, 409
/// means it was already in place.
pub fn role_assignment_accepted(status: u16) -> (r: bool)
    ensures
        r == (status == 200 || status == 201 || status == 204 || status == 409),
{
    status == 200 || status == 201 || status == 204 || status == 409
}

/// Whether a status is a success (2xx).
pub fn is_success(status: u16) -> (r: bool)
    ensures
        r == (200 <= status && status < 300),
{
    200 <= status && status < 300
}

/// The elements of a list answer, whichever envelope it came in: the
/// `items` member when that is an array, else the document itself when it
/// is an array, else nothing.
pub open spec fn spec_items(doc: Seq<u8>) -> Seq<Seq<u8>> {
    match json_array_member(doc, "items"@) {
        Some(a) => a,
        None => match json_array_elements(doc) {
            Some(a) => a,
            None => Seq::empty(),
        },
    }
}

/// The elements of a list answer, each as its serialized bytes.
pub fn items(value: &[u8]) -> (r: Vec<Vec<u8>>)
    ensures
        r.deep_view() == spec_items(value@),
{
    match json_array_field(value, "items") {
        Some(a) => a,
        None => match json_array(value) {
            Some(a) => a,
            None => Vec::new(),
        },
    }
}

/// Whether a list element's string member `field` is `wanted`.
pub open spec fn element_matches(e: Seq<u8>, field: Seq<char>, wanted: Seq<char>) -> bool {
    json_string_member(e, field) == Some(wanted)
}

/// The first list element whose `field` equals `wanted`.
pub fn find_by(value: &[u8], field: &str, wanted: &str) -> (r: Option<Vec<u8>>)
    ensures
        match r {
            Some(e) => exists|i: int|
                0 <= i < spec_items(value@).len() && spec_items(value@)[i] == e@
                    && element_matches(spec_items(value@)[i], field@, wanted@)
                    && forall|j: int| 0 <= j < i ==> !element_matches(#[trigger] spec_items(value@)[j], field@, wanted@),
            None => forall|i: int|
                0 <= i < spec_items(value@).len() ==> !element_matches(#[trigger] spec_items(value@)[i], field@, wanted@),
        },
{
    let list = items(value);
    let ghost s = spec_items(value@);
    let mut i: usize = 0;
    while i < list.len()
        invariant
            list.deep_view() == s,
            s == spec_items(value@),
            i <= list.len(),
            forall|j: int| 0 <= j < i ==> !element_matches(#[trigger] s[j], field@, wanted@),
        decreases list.len() - i,
    {
        let e = &list[i];
        proof {
            assert(s[i as int] == e@);
        }
        match json_string_field(e.as_slice(), field) {
            Some(v) => {
                if crate::text::str_eq(v.as_str(), wanted) {
                    return Some(e.clone());
                }
            },
            None => {},
        }
        i = i + 1;
    }
    None
}

/// `s` without any trailing `c`.
pub open spec fn trim_trailing(s: Seq<char>, c: char) -> Seq<char>
    decreases s.len(),
{
    if s.len() > 0 && s.last() == c {
        trim_trailing(s.drop_last(), c)
    } else {
        s
    }
}

/// The headers a request carries: the CSRF token on a mutating call once
/// login captured one, and the acting tenant when the call names one.
pub open spec fn spec_headers(csrf: Option<Seq<char>>, tenant: Option<Seq<char>>, mutating: bool)
    -> Seq<(Seq<char>, Seq<char>)> {
    let with_csrf: Seq<(Seq<char>, Seq<char>)> = match csrf {
        Some(t) => if mutating { seq![(CSRF_HEADER@, t)] } else { Seq::empty() },
        None => Seq::empty(),
    };
    match tenant {
        Some(t) => with_csrf.push((ACTING_TENANT_HEADER@, t)),
        None => with_csrf,
    }
}

/// Where the hand-rolled AXIAM calls go, and the CSRF token their session
/// echoes on every mutating call. Forgetting the token does not look like a
/// CSRF error: it surfaces as a bare 403, which reads like an authorization
/// bug.
#[derive(Debug, Clone)]
pub struct HandRolled {
    pub base: String,
    pub csrf: Option<String>,
}

impl HandRolled {
    /// A session against `base_url`, its trailing slashes removed, not yet
    /// signed in.
    pub fn new(base_url: &str) -> (r: HandRolled)
        ensures
            r.base@ == trim_trailing(base_url@, '/'),
            r.csrf is None,
    {
        let v = chars_of(base_url);
        let mut n: usize = v.len();
        assert(base_url@.take(n as int) =~= base_url@);
        while n > 0 && v[n - 1] == '/'
            invariant
                v@ == base_url@,
                n <= v.len(),
                trim_trailing(base_url@, '/') == trim_trailing(base_url@.take(n as int), '/'),
            decreases n,
        {
            proof {
                assert(base_url@.take(n as int).drop_last() =~= base_url@.take(n - 1));
            }
            n = n - 1;
        }
        proof {
            assert(base_url@.take(n as int) =~= base_url@.subrange(0, n as int));
        }
        HandRolled { base: base_url.substring_char(0, n).to_owned(), csrf: None }
    }

    /// The full URL of an API path.
    pub fn url(&self, path: &str) -> (r: String)
        ensures
            r@ == self.base@ + path@,
    {
        let mut r = self.base.clone();
        r.append(path);
        r
    }

    /// The headers a request carries.
    pub fn headers(&self, tenant: Option<&str>, mutating: bool) -> (r: Vec<(&'static str, String)>)
        ensures
            r@.map_values(|h: (&'static str, String)| (h.0@, h.1@)) == spec_headers(
                match self.csrf { Some(t) => Some(t@), None => None },
                match tenant { Some(t) => Some(t@), None => None },
                mutating,
            ),
    {
        let mut h: Vec<(&'static str, String)> = Vec::new();
        if mutating {
            match &self.csrf {
                Some(t) => h.push((CSRF_HEADER, t.clone())),
                None => {},
            }
        }
        match tenant {
            Some(t) => h.push((ACTING_TENANT_HEADER, t.to_owned())),
            None => {},
        }
        assert(h@.map_values(|h: (&'static str, String)| (h.0@, h.1@)) =~= spec_headers(
            match self.csrf { Some(t) => Some(t@), None => None },
            match tenant { Some(t) => Some(t@), None => None },
            mutating,
        ));
        h
    }

    /// Whether this session has signed in.
    pub fn is_authenticated(&self) -> (r: bool)
        ensures
            r == self.csrf is Some,
    {
        self.csrf.is_some()
    }

    /// Remember the CSRF token a successful login returned.
    pub fn signed_in(&mut self, csrf: String)
        ensures
            final(self).base == old(self).base,
            final(self).csrf == Some(csrf),
    {
        self.csrf = Some(csrf);
    }
}

/// Why a login did not establish a session.
#[derive(Debug, Clone, Copy, PartialEq, Eq, Structural)]
pub enum LoginFailure {
    /// The login answered this status.
    Status(u16),
    /// It succeeded but returned no CSRF token to echo.
    NoCsrfToken,
}

/// The CSRF token a login answer establishes: only a success carrying one.
pub fn login_token(status: u16, csrf: Option<String>) -> (r: Result<String, LoginFailure>)
    ensures
        !(200 <= status < 300) ==> r == Err::<String, LoginFailure>(LoginFailure::Status(status)),
        200 <= status < 300 ==> match csrf {
            Some(t) => r == Ok::<String, LoginFailure>(t),
            None => r == Err::<String, LoginFailure>(LoginFailure::NoCsrfToken),
        },
{
    if !is_success(status) {
        return Err(LoginFailure::Status(status));
    }
    match csrf {
        Some(t) => Ok(t),
        None => Err(LoginFailure::NoCsrfToken),
    }
}

/// The one-shot organization creation route.
pub const BOOTSTRAP_PATH: &'static str = "/api/v1/admin/bootstrap";
/// The cookie-jar login route.
pub const LOGIN_PATH: &'static str = "/api/v1/auth/login";
/// The users of the acting tenant.
pub const USERS_PATH: &'static str = "/api/v1/users";
/// The roles of the acting tenant.
pub const ROLES_PATH: &'static str = "/api/v1/roles";

/// One user of the acting tenant.
pub fn user_path(user_id: &str) -> (r: String)
    ensures
        r@ == USERS_PATH@ + "/"@ + user_id@,
{
    concat3(USERS_PATH, "/", user_id)
}

/// A search of the acting tenant's users.
pub fn user_search_path(username: &str) -> (r: String)
    ensures
        r@ == USERS_PATH@ + "?search="@ + username@,
{
    concat3(USERS_PATH, "?search=", username)
}

/// The users holding one role.
pub fn role_users_path(role_id: &str) -> (r: String)
    ensures
        r@ == ROLES_PATH@ + "/"@ + role_id@ + "/users"@,
{
    let mut r = concat3(ROLES_PATH, "/", role_id);
    r.append("/users");
    r
}

/// The members of a JSON body, as character sequences.
pub open spec fn members_view(m: Seq<(String, String)>) -> Seq<(Seq<char>, Seq<char>)> {
    m.map_values(|p: (String, String)| (p.0@, p.1@))
}

fn member(k: &str, v: &str) -> (r: (String, String))
    ensures
        r.0@ == k@,
        r.1@ == v@,
{
    (k.to_owned(), v.to_owned())
}

/// The body of the bootstrap call. The setup token rides along when there
/// is one; the deprecated tenant fields are never sent.
pub fn bootstrap_body(org_name: &str, org_slug: &str, email: &str, username: &str, password: &str,
    setup_token: Option<&str>) -> (r: Vec<u8>)
    ensures
        r@ == json_object_text({
            let base = seq![
                ("organization_name"@, org_name@),
                ("organization_slug"@, org_slug@),
                ("email"@, email@),
                ("username"@, username@),
                ("password"@, password@),
            ];
            match setup_token {
                Some(t) => base.push(("setup_token"@, t@)),
                None => base,
            }
        }),
{
    let mut m: Vec<(String, String)> = Vec::new();
    m.push(member("organization_name", org_name));
    m.push(member("organization_slug", org_slug));
    m.push(member("email", email));
    m.push(member("username", username));
    m.push(member("password", password));
    match setup_token {
        Some(t) => m.push(member("setup_token", t)),
        None => {},
    }
    let r = json_object(m.as_slice());
    proof {
        let base = seq![
            ("organization_name"@, org_name@),
            ("organization_slug"@, org_slug@),
            ("email"@, email@),
            ("username"@, username@),
            ("password"@, password@),
        ];
        let want = match setup_token {
            Some(t) => base.push(("setup_token"@, t@)),
            None => base,
        };
        assert(members_view(m@) =~= want);
    }
    r
}

/// The body of the login call.
pub fn login_body(org_slug: &str, username_or_email: &str, password: &str) -> (r: Vec<u8>)
    ensures
        r@ == json_object_text(seq![
            ("org_slug"@, org_slug@),
            ("username_or_email"@, username_or_email@),
            ("password"@, password@),
        ]),
{
    let m = vec![member("org_slug", org_slug), member("username_or_email", username_or_email),
        member("password", password)];
    let r = json_object(m.as_slice());
    assert(members_view(m@) =~= seq![
        ("org_slug"@, org_slug@),
        ("username_or_email"@, username_or_email@),
        ("password"@, password@),
    ]);
    r
}

/// The body creating a tenant's admin user.
pub fn new_user_body(username: &str, email: &str, password: &str) -> (r: Vec<u8>)
    ensures
        r@ == json_object_text(seq![("username"@, username@), ("email"@, email@), ("password"@, password@)]),
{
    let m = vec![member("username", username), member("email", email), member("password", password)];
    let r = json_object(m.as_slice());
    assert(members_view(m@) =~= seq![("username"@, username@), ("email"@, email@), ("password"@, password@)]);
    r
}

/// The body activating a user: created users wait for a verification no
/// mailbox will ever deliver.
pub fn activation_body() -> (r: Vec<u8>)
    ensures
        r@ == json_object_text(seq![("status"@, "Active"@)]),
{
    let m = vec![member("status", "Active")];
    let r = json_object(m.as_slice());
    assert(members_view(m@) =~= seq![("status"@, "Active"@)]);
    r
}

/// The body assigning a role to a user, with no resource: a grant across
/// the acting tenant and nothing outside it.
pub fn assignment_body(user_id: &str) -> (r: Vec<u8>)
    ensures
        r@ == json_object_text(seq![("user_id"@, user_id@)]),
{
    let m = vec![member("user_id", user_id)];
    let r = json_object(m.as_slice());
    assert(members_view(m@) =~= seq![("user_id"@, user_id@)]);
    r
}

/// The `id` member of a document, when it is an identifier.
pub open spec fn spec_usable_id(doc: Seq<u8>) -> Option<Seq<char>> {
    match json_string_member(doc, "id"@) {
        Some(id) => if uuid_accepts(id) { Some(id) } else { None },
        None => None,
    }
}

/// The identifier a document names in its `id` member, when it parses as
/// one.
pub fn usable_id(doc: &[u8]) -> (r: Option<String>)
    ensures
        match spec_usable_id(doc@) {
            Some(id) => r matches Some(x) && x@ == id,
            None => r is None,
        },
{
    match json_string_field(doc, "id") {
        Some(id) => {
            if uuid_parses(id.as_str()) {
                Some(id)
            } else {
                None
            }
        },
        None => None,
    }
}

/// The identifier of the first list element whose `field` is `wanted`.
pub open spec fn spec_id_by_field(list: Seq<u8>, field: Seq<char>, wanted: Seq<char>) -> Option<Seq<char>> {
    let s = spec_items(list);
    if exists|i: int| 0 <= i < s.len() && element_matches(s[i], field, wanted) {
        let i = choose|i: int| 0 <= i < s.len() && element_matches(s[i], field, wanted)
            && forall|j: int| 0 <= j < i ==> !element_matches(#[trigger] s[j], field, wanted);
        spec_usable_id(s[i])
    } else {
        None
    }
}

/// The identifier of the first list element whose `field` is `wanted`, when
/// that element names a usable one.
pub fn id_by_field(list: &[u8], field: &str, wanted: &str) -> (r: Option<String>)
    ensures
        match spec_id_by_field(list@, field@, wanted@) {
            Some(id) => r matches Some(x) && x@ == id,
            None => r is None,
        },
{
    let found = find_by(list, field, wanted);
    let ghost s = spec_items(list@);
    match found {
        Some(e) => {
            proof {
                let i = choose|i: int|
                    0 <= i < s.len() && s[i] == e@ && element_matches(s[i], field@, wanted@)
                        && forall|j: int| 0 <= j < i ==> !element_matches(#[trigger] s[j], field@, wanted@);
                let k = choose|k: int| 0 <= k < s.len() && element_matches(s[k], field@, wanted@)
                    && forall|j: int| 0 <= j < k ==> !element_matches(#[trigger] s[j], field@, wanted@);
                if k < i {
                    assert(!element_matches(s[k], field@, wanted@));
                }
                if i < k {
                    assert(!element_matches(s[i], field@, wanted@));
                }
                assert(i == k);
            }
            usable_id(e.as_slice())
        },
        None => None,
    }
}

/// The role a tenant's admin is given, seeded in every tenant.
pub const SUPER_ADMIN_ROLE: &'static str = "super-admin";

/// Why a tenant admin could not be provisioned.
#[derive(Debug, Clone, Copy, PartialEq, Eq, Structural)]
pub enum AdminFailure {
    /// Creating the user answered this status.
    CreationStatus(u16),
    /// The creation answer named no usable identifier.
    NoUsableId,
    /// A listing answered this status.
    ListingStatus(u16),
    /// The user exists but the search did not resolve it by user name.
    NotResolvable,
    /// Activating the user answered this status.
    ActivationStatus(u16),
    /// The tenant has no usable super-admin role.
    NoSuperAdminRole,
    /// Assigning the role answered this status.
    AssignmentStatus(u16),
}

/// Where provisioning a tenant admin stands, and so which call comes next.
#[derive(Debug, Clone, PartialEq, Eq)]
pub enum AdminStep {
    /// Create the user.
    CreateUser,
    /// The user exists already: search for it by user name.
    SearchUser,
    /// Activate this user.
    Activate(String),
    /// List the tenant's roles, for this user.
    ListRoles(String),
    /// Assign this role to this user.
    Assign(String, String),
    /// This user is the tenant's admin.
    Done(String),
    /// Provisioning failed.
    Failed(AdminFailure),
}

/// The next step, from the answer (status and body) to the current one.
/// Creation that conflicts falls back to a search by user name rather than
/// failing, and an assignment already in place counts as done.
pub fn admin_next(step: AdminStep, username: &str, status: u16, body: &[u8]) -> (r: AdminStep)
    ensures
        match step {
            AdminStep::CreateUser => if status == 200 || status == 201 {
                match spec_usable_id(body@) {
                    Some(id) => r matches AdminStep::Activate(u) && u@ == id,
                    None => r == AdminStep::Failed(AdminFailure::NoUsableId),
                }
            } else if status == 409 {
                r == AdminStep::SearchUser
            } else {
                r == AdminStep::Failed(AdminFailure::CreationStatus(status))
            },
            AdminStep::SearchUser => if !(200 <= status < 300) {
                r == AdminStep::Failed(AdminFailure::ListingStatus(status))
            } else {
                match spec_id_by_field(body@, "username"@, username@) {
                    Some(id) => r matches AdminStep::Activate(u) && u@ == id,
                    None => r == AdminStep::Failed(AdminFailure::NotResolvable),
                }
            },
            AdminStep::Activate(u) => if 200 <= status < 300 {
                r == AdminStep::ListRoles(u)
            } else {
                r == AdminStep::Failed(AdminFailure::ActivationStatus(status))
            },
            AdminStep::ListRoles(u) => if !(200 <= status < 300) {
                r == AdminStep::Failed(AdminFailure::ListingStatus(status))
            } else {
                match spec_id_by_field(body@, "name"@, SUPER_ADMIN_ROLE@) {
                    Some(id) => r matches AdminStep::Assign(u2, role) && u2 == u && role@ == id,
                    None => r == AdminStep::Failed(AdminFailure::NoSuperAdminRole),
                }
            },
            AdminStep::Assign(u, _) => if status == 200 || status == 201 || status == 204 || status == 409 {
                r == AdminStep::Done(u)
            } else {
                r == AdminStep::Failed(AdminFailure::AssignmentStatus(status))
            },
            AdminStep::Done(u) => r == AdminStep::Done(u),
            AdminStep::Failed(f) => r == AdminStep::Failed(f),
        },
{
    match step {
        AdminStep::CreateUser => match user_creation(status) {
            UserCreation::Created => match usable_id(body) {
                Some(id) => AdminStep::Activate(id),
                None => AdminStep::Failed(AdminFailure::NoUsableId),
            },
            UserCreation::Exists => AdminStep::SearchUser,
            UserCreation::Failed => AdminStep::Failed(AdminFailure::CreationStatus(status)),
        },
        AdminStep::SearchUser => {
            if !is_success(status) {
                AdminStep::Failed(AdminFailure::ListingStatus(status))
            } else {
                match id_by_field(body, "username", username) {
                    Some(id) => AdminStep::Activate(id),
                    None => AdminStep::Failed(AdminFailure::NotResolvable),
                }
            }
        },
        AdminStep::Activate(u) => {
            if is_success(status) {
                AdminStep::ListRoles(u)
            } else {
                AdminStep::Failed(AdminFailure::ActivationStatus(status))
            }
        },
        AdminStep::ListRoles(u) => {
            if !is_success(status) {
                AdminStep::Failed(AdminFailure::ListingStatus(status))
            } else {
                match id_by_field(body, "name", SUPER_ADMIN_ROLE) {
                    Some(role) => AdminStep::Assign(u, role),
                    None => AdminStep::Failed(AdminFailure::NoSuperAdminRole),
                }
            }
        },
        AdminStep::Assign(u, role) => {
            if role_assignment_accepted(status) {
                AdminStep::Done(u)
            } else {
                AdminStep::Failed(AdminFailure::AssignmentStatus(status))
            }
        },
        AdminStep::Done(u) => AdminStep::Done(u),
        AdminStep::Failed(f) => AdminStep::Failed(f),
    }
}

/// Whenever a call names a tenant, its headers carry the acting-tenant
/// header with that tenant, mutating or not; a call that names none carries
/// no acting-tenant header. Whether the call mutates decides only the CSRF
/// header: a mutating call of a signed-in session echoes its token, and a
/// call that does not mutate carries no CSRF header at all.
pub proof fn lemma_mutating_governs_only_the_csrf_header(
    csrf: Option<Seq<char>>,
    tenant: Option<Seq<char>>,
    mutating: bool,
    name: Seq<char>,
    value: Seq<char>,
)
    ensures
        tenant matches Some(t) ==> spec_headers(csrf, tenant, mutating).contains((ACTING_TENANT_HEADER@, t)),
        tenant is None ==> !spec_headers(csrf, tenant, mutating).contains((ACTING_TENANT_HEADER@, value)),
        (mutating && csrf is Some) ==> spec_headers(csrf, tenant, mutating).contains((CSRF_HEADER@, csrf->0)),
        !mutating ==> !spec_headers(csrf, tenant, mutating).contains((CSRF_HEADER@, value)),
        name != CSRF_HEADER@ ==> (spec_headers(csrf, tenant, true).contains((name, value))
            <==> spec_headers(csrf, tenant, false).contains((name, value))),
{
    reveal_strlit("X-Axiam-Tenant");
    reveal_strlit("X-CSRF-Token");
    assert(ACTING_TENANT_HEADER@ != CSRF_HEADER@) by {
        assert(ACTING_TENANT_HEADER@[2] != CSRF_HEADER@[2]);
    }
    let h = spec_headers(csrf, tenant, mutating);
    match tenant {
        Some(t) => {
            assert(h[h.len() - 1] == (ACTING_TENANT_HEADER@, t));
        },
        None => {},
    }
    if mutating && csrf is Some {
        assert(h[0] == (CSRF_HEADER@, csrf->0));
    }
    let a = spec_headers(csrf, tenant, true);
    let b = spec_headers(csrf, tenant, false);
    if name != CSRF_HEADER@ {
        if a.contains((name, value)) {
            let k = choose|k: int| 0 <= k < a.len() && a[k] == (name, value);
            assert(b[b.len() - 1] == (name, value));
        }
        if b.contains((name, value)) {
            let k = choose|k: int| 0 <= k < b.len() && b[k] == (name, value);
            assert(a[a.len() - 1] == (name, value));
        }
    }
}

} // verus!
