//! The decisions of the provisioning stages, taken over what AXIAM listed.
//!
//! Every create resolves by natural key first: AXIAM holds no uniqueness
//! index on resource names, so two siblings with the same name can both
//! exist, and an authorization decision about one of them would depend on
//! list order. A name found twice is therefore refused, never picked.
//!
//! A certificate is reused only when it is bound to the right account, still
//! active and, where a key is held, issued for that very key: one issued for
//! an older keypair is worse than none, because the two halves of the mTLS
//! identity would disagree.

use vstd::prelude::*;
use vstd::string::*;

use crate::bootstrap::stages::{pem_body, same_certificate};
use crate::codec::{json_array, json_array_elements, json_string_field, json_string_member};
use crate::text::{chars_of, concat3, str_eq};
use crate::{DOMO_VHOST, ORG_TENANT_SLUG};

verus! {

/// A listed object by identifier and natural key: an account, a group, a
/// user, a role, a tenant or a resource.
#[derive(Debug, Clone)]
pub struct Named {
    pub id: u128,
    pub name: String,
}

/// Position `i` holds the first entry named `name`.
pub open spec fn first_named_at(s: Seq<Named>, name: Seq<char>, i: int) -> bool {
    &&& 0 <= i < s.len()
    &&& s[i].name@ == name
    &&& forall|j: int| 0 <= j < i ==> s[j].name@ != name
}

/// Some entry is named `name`.
pub open spec fn has_named(s: Seq<Named>, name: Seq<char>) -> bool {
    exists|i: int| 0 <= i < s.len() && s[i].name@ == name
}

/// How many entries are named `name`.
pub open spec fn count_named(s: Seq<Named>, name: Seq<char>) -> nat
    decreases s.len(),
{
    if s.len() == 0 {
        0
    } else {
        count_named(s.drop_last(), name) + if s.last().name@ == name { 1nat } else { 0nat }
    }
}

/// The identifier of the first entry named `name`, as a lookup by natural
/// key finds it.
pub fn find_id(entries: &[Named], name: &str) -> (r: Option<u128>)
    ensures
        match r {
            Some(id) => exists|i: int| first_named_at(entries@, name@, i) && entries@[i].id == id,
            None => !has_named(entries@, name@),
        },
{
    let mut i: usize = 0;
    while i < entries.len()
        invariant
            i <= entries.len(),
            forall|j: int| 0 <= j < i ==> entries@[j].name@ != name@,
        decreases entries.len() - i,
    {
        if str_eq(entries[i].name.as_str(), name) {
            assert(first_named_at(entries@, name@, i as int));
            return Some(entries[i].id);
        }
        i = i + 1;
    }
    None
}

/// What resolving a natural key under one parent found.
#[derive(Debug, Clone, Copy, PartialEq, Eq, Structural)]
pub enum Resolution {
    /// Exactly one entry has the name; this is its identifier.
    Found(u128),
    /// No entry has it: the caller creates it.
    Absent,
    /// This many entries have it: a decision about it would be ambiguous.
    Ambiguous(usize),
}

/// Resolve before create: the one entry named `name`, none, or a refusal
/// naming how many there are.
pub fn resolve_named(entries: &[Named], name: &str) -> (r: Resolution)
    ensures
        count_named(entries@, name@) == 0 ==> r == Resolution::Absent,
        count_named(entries@, name@) == 1 ==> exists|i: int|
            first_named_at(entries@, name@, i) && r == Resolution::Found(entries@[i].id),
        count_named(entries@, name@) > 1 ==> r == Resolution::Ambiguous(count_named(entries@, name@) as usize),
{
    let mut count: usize = 0;
    let mut first: Option<u128> = None;
    let mut i: usize = 0;
    while i < entries.len()
        invariant
            i <= entries.len(),
            count == count_named(entries@.take(i as int), name@),
            count <= i,
            count == 0 <==> first is None,
            first matches Some(id) ==> exists|k: int| first_named_at(entries@, name@, k) && entries@[k].id == id,
            first is None ==> forall|j: int| 0 <= j < i ==> entries@[j].name@ != name@,
        decreases entries.len() - i,
    {
        proof {
            assert(entries@.take(i + 1).drop_last() =~= entries@.take(i as int));
        }
        if str_eq(entries[i].name.as_str(), name) {
            if first.is_none() {
                assert(first_named_at(entries@, name@, i as int));
                first = Some(entries[i].id);
            }
            count = count + 1;
        }
        i = i + 1;
    }
    proof {
        assert(entries@.take(entries.len() as int) =~= entries@);
    }
    if count > 1 {
        Resolution::Ambiguous(count)
    } else {
        match first {
            Some(id) => Resolution::Found(id),
            None => Resolution::Absent,
        }
    }
}

/// A resource as a tenant lists it.
#[derive(Debug, Clone)]
pub struct ListedResource {
    pub id: u128,
    pub parent_id: Option<u128>,
    pub name: String,
    pub tenant_id: u128,
}

/// The roots of a listing, in listing order, by identifier and name.
pub open spec fn spec_roots(s: Seq<ListedResource>) -> Seq<Named>
    decreases s.len(),
{
    if s.len() == 0 {
        Seq::empty()
    } else if s.last().parent_id is None {
        spec_roots(s.drop_last()).push(Named { id: s.last().id, name: s.last().name })
    } else {
        spec_roots(s.drop_last())
    }
}

/// The resources of a listing that have no parent: a tenant's roots.
pub fn roots(all: &[ListedResource]) -> (r: Vec<Named>)
    ensures
        r@ == spec_roots(all@),
{
    let mut r: Vec<Named> = Vec::new();
    let mut i: usize = 0;
    while i < all.len()
        invariant
            i <= all.len(),
            r@ == spec_roots(all@.take(i as int)),
        decreases all.len() - i,
    {
        proof {
            assert(all@.take(i + 1).drop_last() =~= all@.take(i as int));
        }
        if all[i].parent_id.is_none() {
            r.push(Named { id: all[i].id, name: all[i].name.clone() });
        }
        i = i + 1;
    }
    proof {
        assert(all@.take(all.len() as int) =~= all@);
    }
    r
}

/// How a resource's stable domain identifier reads.
#[derive(Debug, Clone, PartialEq, Eq)]
pub enum StableId {
    /// Present, not empty, and not the resource's readable name.
    Distinct(String),
    /// Present but empty or equal to the readable name.
    NotDistinct,
    /// Absent from the metadata.
    Missing,
}

/// Classify the identifier a resource's metadata carries: later phases join
/// on it, so it must exist and must not merely repeat the readable name.
pub fn stable_identifier(domain_id: Option<&str>, name: &str) -> (r: StableId)
    ensures
        match domain_id {
            None => r == StableId::Missing,
            Some(d) => if d@.len() > 0 && d@ != name@ {
                r matches StableId::Distinct(x) && x@ == d@
            } else {
                r == StableId::NotDistinct
            },
        },
{
    match domain_id {
        None => StableId::Missing,
        Some(d) => {
            if d.unicode_len() > 0 && !str_eq(d, name) {
                StableId::Distinct(d.to_owned())
            } else {
                StableId::NotDistinct
            }
        },
    }
}

/// A role bound to a group, scoped to a resource or to nothing.
#[derive(Debug, Clone, Copy, PartialEq, Eq, Structural)]
pub struct Binding {
    pub group_id: u128,
    pub resource_id: Option<u128>,
}

/// Whether the role is bound to this group scoped to this very resource.
/// A binding at another scope does not count: it would reach elsewhere.
pub fn binding_in_place(bindings: &[Binding], group_id: u128, resource_id: u128) -> (r: bool)
    ensures
        r == exists|i: int| 0 <= i < bindings@.len() && bindings@[i].group_id == group_id
            && bindings@[i].resource_id == Some(resource_id),
{
    let mut i: usize = 0;
    while i < bindings.len()
        invariant
            i <= bindings.len(),
            forall|j: int| 0 <= j < i ==> !(bindings@[j].group_id == group_id
                && bindings@[j].resource_id == Some(resource_id)),
        decreases bindings.len() - i,
    {
        if bindings[i].group_id == group_id && bindings[i].resource_id == Some(resource_id) {
            return true;
        }
        i = i + 1;
    }
    false
}

/// Whether an identifier is among a group's members.
pub fn is_member(members: &[u128], id: u128) -> (r: bool)
    ensures
        r == members@.contains(id),
{
    let mut i: usize = 0;
    while i < members.len()
        invariant
            i <= members.len(),
            forall|j: int| 0 <= j < i ==> members@[j] != id,
        decreases members.len() - i,
    {
        if members[i] == id {
            assert(members@[i as int] == id);
            return true;
        }
        i = i + 1;
    }
    false
}

/// A certificate as a tenant lists it.
#[derive(Debug, Clone, Copy, PartialEq, Eq, Structural)]
pub struct CertRecord {
    pub id: u128,
    /// The service account it is bound to, if any.
    pub bound_account: Option<u128>,
    /// Not revoked and not expired.
    pub active: bool,
    pub issuer_ca_id: u128,
    pub tenant_id: u128,
    /// It certifies the public key of the request the caller holds now.
    pub matches_key: bool,
}

/// Position `i` is the first certificate satisfying `p`.
pub open spec fn first_cert_at(s: Seq<CertRecord>, p: spec_fn(CertRecord) -> bool, i: int) -> bool {
    &&& 0 <= i < s.len()
    &&& p(s[i])
    &&& forall|j: int| 0 <= j < i ==> !p(#[trigger] s[j])
}

/// No certificate satisfies `p`.
pub open spec fn no_cert(s: Seq<CertRecord>, p: spec_fn(CertRecord) -> bool) -> bool {
    forall|j: int| 0 <= j < s.len() ==> !p(#[trigger] s[j])
}

/// Bound to this account.
pub open spec fn bound_to(account: u128) -> spec_fn(CertRecord) -> bool {
    |c: CertRecord| c.bound_account == Some(account)
}

/// Bound to this account, active, and issued for the key held now.
pub open spec fn reusable_for(account: u128) -> spec_fn(CertRecord) -> bool {
    |c: CertRecord| c.bound_account == Some(account) && c.active && c.matches_key
}

/// Active, bound as wanted (or deliberately to nothing), issued by this CA,
/// and issued for the key held now.
pub open spec fn reusable_fixture(binding: Option<u128>, issuer: u128) -> spec_fn(CertRecord) -> bool {
    |c: CertRecord| c.active && c.bound_account == binding && c.issuer_ca_id == issuer && c.matches_key
}

/// Active and bound to this account.
pub open spec fn active_for(account: u128) -> spec_fn(CertRecord) -> bool {
    |c: CertRecord| c.bound_account == Some(account) && c.active
}

/// The certificate already bound to a device's account, if any: a re-run
/// reuses it rather than piling up leaves.
pub fn bound_certificate(certs: &[CertRecord], account: u128) -> (r: Option<usize>)
    ensures
        match r {
            Some(i) => first_cert_at(certs@, bound_to(account), i as int),
            None => no_cert(certs@, bound_to(account)),
        },
{
    let mut i: usize = 0;
    while i < certs.len()
        invariant
            i <= certs.len(),
            forall|j: int| 0 <= j < i ==> !bound_to(account)(#[trigger] certs@[j]),
        decreases certs.len() - i,
    {
        if certs[i].bound_account == Some(account) {
            return Some(i);
        }
        i = i + 1;
    }
    None
}

/// The service certificate to reuse: bound to the account, active, and
/// issued for the key on disk.
pub fn reusable_service_certificate(certs: &[CertRecord], account: u128) -> (r: Option<usize>)
    ensures
        match r {
            Some(i) => first_cert_at(certs@, reusable_for(account), i as int),
            None => no_cert(certs@, reusable_for(account)),
        },
{
    let mut i: usize = 0;
    while i < certs.len()
        invariant
            i <= certs.len(),
            forall|j: int| 0 <= j < i ==> !reusable_for(account)(#[trigger] certs@[j]),
        decreases certs.len() - i,
    {
        let c = certs[i];
        if c.bound_account == Some(account) && c.active && c.matches_key {
            return Some(i);
        }
        i = i + 1;
    }
    None
}

/// The fixture certificate to reuse: active, bound as the fixture wants it
/// (to its account, or deliberately to nothing), issued by the expected CA,
/// and issued for the key the fixture holds now.
pub fn reusable_fixture_certificate(certs: &[CertRecord], binding: Option<u128>, issuer: u128) -> (r: Option<usize>)
    ensures
        match r {
            Some(i) => first_cert_at(certs@, reusable_fixture(binding, issuer), i as int),
            None => no_cert(certs@, reusable_fixture(binding, issuer)),
        },
{
    let mut i: usize = 0;
    while i < certs.len()
        invariant
            i <= certs.len(),
            forall|j: int| 0 <= j < i ==> !reusable_fixture(binding, issuer)(#[trigger] certs@[j]),
        decreases certs.len() - i,
    {
        let c = certs[i];
        if c.active && c.bound_account == binding && c.issuer_ca_id == issuer && c.matches_key {
            return Some(i);
        }
        i = i + 1;
    }
    None
}

/// The certificates satisfying `p`, in listing order.
pub open spec fn certs_where(s: Seq<CertRecord>, p: spec_fn(CertRecord) -> bool) -> Seq<CertRecord>
    decreases s.len(),
{
    if s.len() == 0 {
        Seq::empty()
    } else if p(s.last()) {
        certs_where(s.drop_last(), p).push(s.last())
    } else {
        certs_where(s.drop_last(), p)
    }
}

/// What the check of one service account's certificates found.
#[derive(Debug, Clone, Copy, PartialEq, Eq, Structural)]
pub enum ServiceCertVerdict {
    /// Exactly one active certificate, issued by the tenant's own CA and
    /// carrying the tenant.
    Good,
    /// This many active certificates are bound to it, not one: a re-run
    /// minted a second identity, or none exists.
    ActiveCount(usize),
    /// The one active certificate was issued by this other CA.
    WrongIssuer(u128),
    /// The one active certificate carries this other tenant.
    WrongTenant(u128),
}

/// The verdict on one service account: asserted by count, then by issuer,
/// then by tenant.
pub open spec fn spec_service_verdict(certs: Seq<CertRecord>, account: u128, issuer: u128, tenant: u128)
    -> ServiceCertVerdict {
    let bound = certs_where(certs, active_for(account));
    if bound.len() != 1 {
        ServiceCertVerdict::ActiveCount(bound.len() as usize)
    } else if bound[0].issuer_ca_id != issuer {
        ServiceCertVerdict::WrongIssuer(bound[0].issuer_ca_id)
    } else if bound[0].tenant_id != tenant {
        ServiceCertVerdict::WrongTenant(bound[0].tenant_id)
    } else {
        ServiceCertVerdict::Good
    }
}

/// Check that a service account has exactly one active certificate, issued
/// by its own tenant's signing CA.
pub fn service_certificate_verdict(certs: &[CertRecord], account: u128, issuer: u128, tenant: u128)
    -> (r: ServiceCertVerdict)
    ensures
        r == spec_service_verdict(certs@, account, issuer, tenant),
{
    let mut bound: Vec<CertRecord> = Vec::new();
    let mut i: usize = 0;
    while i < certs.len()
        invariant
            i <= certs.len(),
            bound@ == certs_where(certs@.take(i as int), active_for(account)),
            bound@.len() <= i,
        decreases certs.len() - i,
    {
        proof {
            assert(certs@.take(i + 1).drop_last() =~= certs@.take(i as int));
        }
        let c = certs[i];
        if c.bound_account == Some(account) && c.active {
            bound.push(c);
        }
        i = i + 1;
    }
    proof {
        assert(certs@.take(certs.len() as int) =~= certs@);
    }
    if bound.len() != 1 {
        ServiceCertVerdict::ActiveCount(bound.len())
    } else if bound[0].issuer_ca_id != issuer {
        ServiceCertVerdict::WrongIssuer(bound[0].issuer_ca_id)
    } else if bound[0].tenant_id != tenant {
        ServiceCertVerdict::WrongTenant(bound[0].tenant_id)
    } else {
        ServiceCertVerdict::Good
    }
}

/// The legacy OpenSSL request header, which AXIAM does not accept.
pub const LEGACY_CSR_HEADER: &'static str = "BEGIN NEW CERTIFICATE REQUEST";

/// `pat` occurs in `s` starting at `k`.
pub open spec fn occurs_at(s: Seq<char>, pat: Seq<char>, k: int) -> bool {
    0 <= k && k + pat.len() <= s.len() && s.subrange(k, k + pat.len()) == pat
}

/// Whether `pat` occurs anywhere in `s`.
pub open spec fn occurs_in(s: Seq<char>, pat: Seq<char>) -> bool {
    exists|k: int| occurs_at(s, pat, k)
}

/// Whether `pat` occurs in `s`.
pub fn contains_text(s: &str, pat: &str) -> (r: bool)
    ensures
        r == occurs_in(s@, pat@),
{
    let v = chars_of(s);
    let p = chars_of(pat);
    if p.len() > v.len() {
        assert forall|k: int| !occurs_at(s@, pat@, k) by {}
        return false;
    }
    let last = v.len() - p.len();
    let mut k: usize = 0;
    while k <= last
        invariant
            v@ == s@,
            p@ == pat@,
            p.len() <= v.len(),
            last == v.len() - p.len(),
            k <= last + 1,
            forall|j: int| 0 <= j < k ==> !occurs_at(s@, pat@, j),
        decreases last + 1 - k,
    {
        let mut m: usize = 0;
        while m < p.len() && v[k + m] == p[m]
            invariant
                v@ == s@,
                p@ == pat@,
                k + p.len() <= v.len(),
                m <= p.len(),
                forall|t: int| 0 <= t < m ==> v@[k + t] == p@[t],
            decreases p.len() - m,
        {
            m = m + 1;
        }
        if m == p.len() {
            assert(s@.subrange(k as int, k + pat@.len()) =~= pat@);
            assert(occurs_at(s@, pat@, k as int));
            return true;
        }
        assert(!occurs_at(s@, pat@, k as int)) by {
            if occurs_at(s@, pat@, k as int) {
                assert(s@.subrange(k as int, k + pat@.len())[m as int] == pat@[m as int]);
            }
        }
        k = k + 1;
    }
    assert forall|j: int| !occurs_at(s@, pat@, j) by {
        if 0 <= j && j < k {
        }
    }
    false
}

/// Whether a certificate request carries a header AXIAM accepts: the legacy
/// `BEGIN NEW CERTIFICATE REQUEST` form is refused before anything is sent.
pub fn csr_header_accepted(csr_pem: &str) -> (r: bool)
    ensures
        r == !occurs_in(csr_pem@, LEGACY_CSR_HEADER@),
{
    !contains_text(csr_pem, LEGACY_CSR_HEADER)
}

/// The demo tenants of an organization, in listing order: every tenant but
/// the reserved organization-level one, which holds no devices and gets no
/// signing CA.
pub open spec fn spec_demo_tenants(s: Seq<Named>) -> Seq<Named>
    decreases s.len(),
{
    if s.len() == 0 {
        Seq::empty()
    } else if s.last().name@ != ORG_TENANT_SLUG@ {
        spec_demo_tenants(s.drop_last()).push(s.last())
    } else {
        spec_demo_tenants(s.drop_last())
    }
}

/// The demo tenants among an organization's tenants, each named by its slug.
pub fn demo_tenants(tenants: &[Named]) -> (r: Vec<Named>)
    ensures
        r@.len() == spec_demo_tenants(tenants@).len(),
        forall|i: int| 0 <= i < r@.len() ==> (#[trigger] r@[i]).id == spec_demo_tenants(tenants@)[i].id
            && r@[i].name@ == spec_demo_tenants(tenants@)[i].name@,
{
    let mut r: Vec<Named> = Vec::new();
    let mut i: usize = 0;
    while i < tenants.len()
        invariant
            i <= tenants.len(),
            r@.len() == spec_demo_tenants(tenants@.take(i as int)).len(),
            forall|k: int| 0 <= k < r@.len() ==> (#[trigger] r@[k]).id == spec_demo_tenants(tenants@.take(i as int))[k].id
                && r@[k].name@ == spec_demo_tenants(tenants@.take(i as int))[k].name@,
        decreases tenants.len() - i,
    {
        proof {
            assert(tenants@.take(i + 1).drop_last() =~= tenants@.take(i as int));
        }
        if !str_eq(tenants[i].name.as_str(), ORG_TENANT_SLUG) {
            r.push(Named { id: tenants[i].id, name: tenants[i].name.clone() });
        }
        i = i + 1;
    }
    assert(tenants@.take(tenants.len() as int) =~= tenants@);
    r
}

/// The position of the organization root among the CAs already imported,
/// compared by certificate payload: the first whose payload is the root's.
pub fn root_ca_position(ca_pems: &[String], root_pem: &str) -> (r: Option<usize>)
    ensures
        match r {
            Some(i) => i < ca_pems@.len() && pem_body(ca_pems@[i as int]@).len() > 0
                && pem_body(ca_pems@[i as int]@) == pem_body(root_pem@)
                && forall|j: int| 0 <= j < i ==> !(pem_body(#[trigger] ca_pems@[j]@).len() > 0
                    && pem_body(ca_pems@[j]@) == pem_body(root_pem@)),
            None => forall|j: int| 0 <= j < ca_pems@.len() ==> !(pem_body(#[trigger] ca_pems@[j]@).len() > 0
                && pem_body(ca_pems@[j]@) == pem_body(root_pem@)),
        },
{
    let mut i: usize = 0;
    while i < ca_pems.len()
        invariant
            i <= ca_pems.len(),
            forall|j: int| 0 <= j < i ==> !(pem_body(#[trigger] ca_pems@[j]@).len() > 0
                && pem_body(ca_pems@[j]@) == pem_body(root_pem@)),
        decreases ca_pems.len() - i,
    {
        if same_certificate(ca_pems[i].as_str(), root_pem) {
            return Some(i);
        }
        i = i + 1;
    }
    None
}

/// Whether the root still has to be made the mTLS trust anchor: unless the
/// listing says it already is.
pub fn needs_trust_anchor(anchor: Option<bool>) -> (r: bool)
    ensures
        r == (anchor != Some(true)),
{
    match anchor {
        Some(true) => false,
        _ => true,
    }
}

/// The subject a tenant's signing CA is generated with: the bare common
/// name, which AXIAM wraps into a distinguished name itself.
pub fn signing_ca_subject(tenant_name: &str) -> (r: String)
    ensures
        r@ == tenant_name@ + " Signing CA"@,
{
    let mut r = String::from_str(tenant_name);
    r.append(" Signing CA");
    r
}

/// The `name` members of the broker's vhost listing, in order, skipping
/// elements without one.
pub open spec fn spec_vhost_names(elements: Seq<Seq<u8>>) -> Seq<Seq<char>>
    decreases elements.len(),
{
    if elements.len() == 0 {
        Seq::empty()
    } else {
        match json_string_member(elements.last(), "name"@) {
            Some(n) => spec_vhost_names(elements.drop_last()).push(n),
            None => spec_vhost_names(elements.drop_last()),
        }
    }
}

/// The names the broker's vhost listing holds; nothing when the body is not
/// a JSON array.
pub fn vhost_names(body: &[u8]) -> (r: Vec<String>)
    ensures
        match json_array_elements(body@) {
            Some(e) => r.deep_view() == spec_vhost_names(e),
            None => r@.len() == 0,
        },
{
    let elements = match json_array(body) {
        Some(e) => e,
        None => return Vec::new(),
    };
    let ghost all = elements.deep_view();
    let mut r: Vec<String> = Vec::new();
    let mut i: usize = 0;
    while i < elements.len()
        invariant
            i <= elements.len(),
            all == elements.deep_view(),
            r.deep_view() == spec_vhost_names(all.take(i as int)),
        decreases elements.len() - i,
    {
        proof {
            assert(all.take(i + 1).drop_last() =~= all.take(i as int));
            assert(all.take(i + 1).last() == elements[i as int]@);
        }
        match json_string_field(elements[i].as_slice(), "name") {
            Some(n) => {
                r.push(n);
                proof {
                    assert(r.deep_view() =~= spec_vhost_names(all.take(i + 1)));
                }
            },
            None => {},
        }
        i = i + 1;
    }
    assert(all.take(elements.len() as int) =~= all);
    r
}

/// What the broker stage does about its vhost.
#[derive(Debug, Clone, Copy, PartialEq, Eq, Structural)]
pub enum VhostAction {
    /// AXIAM's own `/` vhost is missing: something upstream destroyed it,
    /// and creating ours would paper over that.
    Refuse,
    /// Ours exists already.
    Reuse,
    /// Ours is missing: create it, and touch nothing else.
    Create,
}

/// Decide the broker stage from the vhosts that exist: refuse without `/`,
/// reuse `domo` when present, create it otherwise.
pub fn vhost_action(names: &[String]) -> (r: VhostAction)
    ensures
        r == (if !names.deep_view().contains("/"@) {
            VhostAction::Refuse
        } else if names.deep_view().contains(DOMO_VHOST@) {
            VhostAction::Reuse
        } else {
            VhostAction::Create
        }),
{
    let mut has_root = false;
    let mut has_ours = false;
    let mut i: usize = 0;
    while i < names.len()
        invariant
            i <= names.len(),
            has_root == names.deep_view().take(i as int).contains("/"@),
            has_ours == names.deep_view().take(i as int).contains(DOMO_VHOST@),
        decreases names.len() - i,
    {
        let ghost before = names.deep_view().take(i as int);
        proof {
            assert(names.deep_view().take(i + 1) =~= before.push(names[i as int]@));
        }
        if str_eq(names[i].as_str(), "/") {
            has_root = true;
        }
        if str_eq(names[i].as_str(), DOMO_VHOST) {
            has_ours = true;
        }
        proof {
            let after = names.deep_view().take(i + 1);
            assert(after.contains("/"@) == (before.contains("/"@) || names[i as int]@ == "/"@)) by {
                if after.contains("/"@) {
                    let k = choose|k: int| 0 <= k < after.len() && after[k] == "/"@;
                    if k < i {
                        assert(before[k] == "/"@);
                    }
                }
                if before.contains("/"@) {
                    let k = choose|k: int| 0 <= k < before.len() && before[k] == "/"@;
                    assert(after[k] == "/"@);
                }
                if names[i as int]@ == "/"@ {
                    assert(after[i as int] == "/"@);
                }
            }
            assert(after.contains(DOMO_VHOST@) == (before.contains(DOMO_VHOST@) || names[i as int]@ == DOMO_VHOST@)) by {
                if after.contains(DOMO_VHOST@) {
                    let k = choose|k: int| 0 <= k < after.len() && after[k] == DOMO_VHOST@;
                    if k < i {
                        assert(before[k] == DOMO_VHOST@);
                    }
                }
                if before.contains(DOMO_VHOST@) {
                    let k = choose|k: int| 0 <= k < before.len() && before[k] == DOMO_VHOST@;
                    assert(after[k] == DOMO_VHOST@);
                }
                if names[i as int]@ == DOMO_VHOST@ {
                    assert(after[i as int] == DOMO_VHOST@);
                }
            }
        }
        i = i + 1;
    }
    assert(names.deep_view().take(names.len() as int) =~= names.deep_view());
    if !has_root {
        VhostAction::Refuse
    } else if has_ours {
        VhostAction::Reuse
    } else {
        VhostAction::Create
    }
}

/// No certificate satisfies `p`: none is kept.
proof fn lemma_where_none(s: Seq<CertRecord>, p: spec_fn(CertRecord) -> bool)
    requires
        forall|k: int| 0 <= k < s.len() ==> !p(#[trigger] s[k]),
    ensures
        certs_where(s, p).len() == 0,
    decreases s.len(),
{
    if s.len() > 0 {
        assert(!p(s[s.len() - 1]));
        lemma_where_none(s.drop_last(), p);
    }
}

/// Exactly the certificate at `j` satisfies `p`: it alone is kept.
proof fn lemma_where_single(s: Seq<CertRecord>, j: int, p: spec_fn(CertRecord) -> bool)
    requires
        0 <= j < s.len(),
        p(s[j]),
        forall|k: int| 0 <= k < s.len() && k != j ==> !p(#[trigger] s[k]),
    ensures
        certs_where(s, p) == seq![s[j]],
    decreases s.len(),
{
    let d = s.drop_last();
    if j == s.len() - 1 {
        assert forall|k: int| 0 <= k < d.len() implies !p(#[trigger] d[k]) by {
            assert(d[k] == s[k]);
        }
        lemma_where_none(d, p);
        assert(certs_where(d, p) =~= Seq::<CertRecord>::empty());
        assert(certs_where(s, p) =~= seq![s[j]]);
    } else {
        assert(!p(s[s.len() - 1]));
        assert forall|k: int| 0 <= k < d.len() && k != j implies !p(#[trigger] d[k]) by {
            assert(d[k] == s[k]);
        }
        assert(d[j] == s[j]);
        lemma_where_single(d, j, p);
    }
}

/// A certificate that does not satisfy `p`, put anywhere, changes nothing of
/// what is kept.
proof fn lemma_where_ignores(s: Seq<CertRecord>, k: int, c: CertRecord, p: spec_fn(CertRecord) -> bool)
    requires
        0 <= k <= s.len(),
        !p(c),
    ensures
        certs_where(s.insert(k, c), p) == certs_where(s, p),
    decreases s.len(),
{
    let t = s.insert(k, c);
    if k == s.len() {
        assert(t.drop_last() =~= s);
        assert(t.last() == c);
    } else {
        assert(t.drop_last() =~= s.drop_last().insert(k, c));
        assert(t.last() == s.last());
        lemma_where_ignores(s.drop_last(), k, c, p);
    }
}

/// The verdict on a service account reads only that account's certificates:
/// a certificate bound to another account, or to none, put anywhere in the
/// listing, never changes it, whether or not it is active.
pub proof fn lemma_verdict_reads_only_the_account(
    certs: Seq<CertRecord>,
    k: int,
    other: CertRecord,
    account: u128,
    issuer: u128,
    tenant: u128,
)
    requires
        0 <= k <= certs.len(),
        other.bound_account != Some(account),
    ensures
        spec_service_verdict(certs.insert(k, other), account, issuer, tenant) == spec_service_verdict(
            certs, account, issuer, tenant),
{
    lemma_where_ignores(certs, k, other, active_for(account));
}

/// With exactly one active certificate bound to the account, issued by the
/// tenant's own CA and carrying the tenant, the account is good; with none,
/// the verdict counts none.
pub proof fn lemma_one_own_certificate_is_good(
    certs: Seq<CertRecord>,
    j: int,
    account: u128,
    issuer: u128,
    tenant: u128,
)
    requires
        0 <= j < certs.len(),
        certs[j].bound_account == Some(account),
        certs[j].active,
        certs[j].issuer_ca_id == issuer,
        certs[j].tenant_id == tenant,
        forall|k: int| 0 <= k < certs.len() && k != j ==> !((#[trigger] certs[k]).bound_account == Some(account)
            && certs[k].active),
    ensures
        spec_service_verdict(certs, account, issuer, tenant) == ServiceCertVerdict::Good,
{
    lemma_where_single(certs, j, active_for(account));
}

/// An account with no active certificate bound to it is reported as having
/// none.
pub proof fn lemma_no_own_certificate_counts_none(certs: Seq<CertRecord>, account: u128, issuer: u128, tenant: u128)
    requires
        forall|k: int| 0 <= k < certs.len() ==> !((#[trigger] certs[k]).bound_account == Some(account)
            && certs[k].active),
    ensures
        spec_service_verdict(certs, account, issuer, tenant) == ServiceCertVerdict::ActiveCount(0),
{
    lemma_where_none(certs, active_for(account));
}

} // verus!
