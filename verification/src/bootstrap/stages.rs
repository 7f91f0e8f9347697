//! The computable parts of the provisioning stages: credential records and
//! where they are kept, service-account naming, and certificate comparison.

use vstd::prelude::*;
use vstd::string::*;

use crate::text::{chars_of, concat3, is_whitespace, is_ws, push_char};

verus! {

/// The metadata key holding a resource's stable domain identifier.
///
/// The readable name is for humans; this is what later work joins on, so a
/// site can be renamed without breaking anything that points at it.
pub const DOMAIN_ID_KEY: &'static str = "domo_id";

/// Where the super-admin's credentials are kept in the secrets tree.
pub const SUPER_ADMIN_PATH: &'static str = "axiam/super-admin.json";

/// Credentials persisted under `.secrets/axiam/`.
#[derive(Debug, Clone)]
pub struct Credentials {
    pub org_slug: String,
    pub email: String,
    pub username: String,
    pub password: String,
}

/// Environment shared by every stage.
#[derive(Debug, Clone)]
pub struct Env {
    pub axiam_url: String,
    pub org_slug: String,
    pub root_pem: Vec<u8>,
}

/// A generated password: a fixed head with an upper-case letter, a
/// lower-case letter, a digit and a symbol, then a random tail.
pub open spec fn spec_password(tail: Seq<char>) -> Seq<char> {
    "Ax1!"@ + tail
}

/// A generated password around a random tail.
pub fn password_from(tail: &str) -> (r: String)
    ensures
        r@ == spec_password(tail@),
{
    let mut r = String::from_str("Ax1!");
    r.append(tail);
    r
}

impl Credentials {
    /// The organization super-admin's record.
    pub fn super_admin(org_slug: &str, password: String) -> (r: Credentials)
        ensures
            r.org_slug@ == org_slug@,
            r.email@ == "admin@domo.local"@,
            r.username@ == "admin"@,
            r.password == password,
    {
        Credentials {
            org_slug: org_slug.to_owned(),
            email: String::from_str("admin@domo.local"),
            username: String::from_str("admin"),
            password,
        }
    }

    /// One tenant's admin record: `admin@{tenant}.domo.local`, user name
    /// `{tenant}-admin`.
    pub fn tenant_admin(org_slug: &str, tenant_slug: &str, password: String) -> (r: Credentials)
        ensures
            r.org_slug@ == org_slug@,
            r.email@ == "admin@"@ + tenant_slug@ + ".domo.local"@,
            r.username@ == tenant_slug@ + "-admin"@,
            r.password == password,
    {
        let mut username = String::from_str(tenant_slug);
        username.append("-admin");
        Credentials {
            org_slug: org_slug.to_owned(),
            email: concat3("admin@", tenant_slug, ".domo.local"),
            username,
            password,
        }
    }
}

/// Where one tenant admin's credentials are kept in the secrets tree.
pub fn tenant_admin_path(tenant_slug: &str) -> (r: String)
    ensures
        r@ == "axiam/tenant-admin-"@ + tenant_slug@ + ".json"@,
{
    concat3("axiam/tenant-admin-", tenant_slug, ".json")
}

/// `mgmt@lakeside` — a service account's natural key.
pub open spec fn spec_account_name(service: Seq<char>, slug: Seq<char>) -> Seq<char> {
    service + "@"@ + slug
}

/// `mgmt@lakeside` — a service account's natural key, and the file stem of
/// its credentials.
pub fn account_name(service: &str, slug: &str) -> (r: String)
    ensures
        r@ == spec_account_name(service@, slug@),
{
    concat3(service, "@", slug)
}

/// Where a service account's certificate is kept.
pub fn cert_path(service: &str, slug: &str) -> (r: String)
    ensures
        r@ == "axiam/service/"@ + spec_account_name(service@, slug@) + ".pem"@,
{
    let name = account_name(service, slug);
    concat3("axiam/service/", name.as_str(), ".pem")
}

/// Where a service account's private key is kept.
pub fn key_path(service: &str, slug: &str) -> (r: String)
    ensures
        r@ == "axiam/service/"@ + spec_account_name(service@, slug@) + ".key"@,
{
    let name = account_name(service, slug);
    concat3("axiam/service/", name.as_str(), ".key")
}

/// The armor marker that opens a PEM boundary line.
pub open spec fn is_armor_line(s: Seq<char>, line_start: int) -> bool {
    "-----"@.is_prefix_of(s.skip(line_start))
}

/// The characters of `s` from position `i` on that a PEM body consists of:
/// every character that is not white space and does not sit on a line
/// starting with `-----`. `line_start` is where the line holding `i` begins.
pub open spec fn pem_body_from(s: Seq<char>, i: int, line_start: int) -> Seq<char>
    decreases s.len() - i,
{
    if i < 0 || i >= s.len() {
        Seq::empty()
    } else {
        let keep = !is_armor_line(s, line_start) && !is_ws(s[i]);
        let next = if s[i] == '\n' { i + 1 } else { line_start };
        (if keep { seq![s[i]] } else { Seq::empty() }) + pem_body_from(s, i + 1, next)
    }
}

/// The base64 payload of a PEM text: its armor lines and white space removed.
pub open spec fn pem_body(s: Seq<char>) -> Seq<char> {
    pem_body_from(s, 0, 0)
}

/// Whether the five characters at `at` are `-----`.
fn armor_at(v: &Vec<char>, at: usize) -> (r: bool)
    requires
        at <= v.len(),
    ensures
        r == "-----"@.is_prefix_of(v@.skip(at as int)),
{
    proof {
        reveal_strlit("-----");
    }
    if v.len() - at < 5 {
        return false;
    }
    let r = v[at] == '-' && v[at + 1] == '-' && v[at + 2] == '-' && v[at + 3] == '-' && v[at + 4] == '-';
    proof {
        if r {
            assert("-----"@ =~= v@.skip(at as int).subrange(0, 5));
        } else {
            let t = v@.skip(at as int);
            if "-----"@.is_prefix_of(t) {
                assert(t[0] == "-----"@[0] && t[1] == "-----"@[1] && t[2] == "-----"@[2]);
                assert(t[3] == "-----"@[3] && t[4] == "-----"@[4]);
            }
        }
    }
    r
}

/// The base64 payload of a PEM text.
fn pem_payload(s: &str) -> (r: String)
    ensures
        r@ == pem_body(s@),
{
    let v = chars_of(s);
    let mut out = String::new();
    let mut i: usize = 0;
    let mut line_start: usize = 0;
    let mut armor = armor_at(&v, 0);
    while i < v.len()
        invariant
            v@ == s@,
            i <= v.len(),
            line_start <= i,
            armor == is_armor_line(s@, line_start as int),
            out@ + pem_body_from(s@, i as int, line_start as int) == pem_body(s@),
        decreases v.len() - i,
    {
        let c = v[i];
        let ghost before = out@;
        let ghost ls0 = line_start as int;
        let ghost i0 = i as int;
        if !armor && !is_whitespace(c) {
            push_char(&mut out, c);
        }
        if c == '\n' {
            line_start = i + 1;
            armor = armor_at(&v, i + 1);
        }
        i = i + 1;
        proof {
            let keep = !is_armor_line(s@, ls0) && !is_ws(c);
            let piece: Seq<char> = if keep { seq![c] } else { Seq::empty() };
            assert(pem_body_from(s@, i0, ls0) == piece + pem_body_from(s@, i0 + 1, line_start as int));
            assert(out@ == before + piece);
            assert(out@ + pem_body_from(s@, i as int, line_start as int) =~= before + (piece + pem_body_from(s@, i0 + 1, line_start as int)));
        }
    }
    assert(out@ =~= pem_body(s@));
    out
}

/// Compare two PEM certificates by their base64 payload.
///
/// Fingerprint formats differ between renderings, so the certificate body
/// itself is the comparison that cannot disagree on formatting. An empty
/// payload matches nothing.
pub fn same_certificate(a: &str, b: &str) -> (r: bool)
    ensures
        r == (pem_body(a@).len() > 0 && pem_body(a@) == pem_body(b@)),
{
    let x = pem_payload(a);
    let y = pem_payload(b);
    x.as_str().unicode_len() > 0 && x == y
}

} // verus!
