//! The resource and group naming scheme.
//!
//! These names are the only lookup key the rest of the project has: nothing
//! maps a domain object to its AXIAM resource or group except the name built
//! here. A second place formatting `installer@site:{slug}` by hand would work
//! until the day it did not, and the failure would be a group nothing looks
//! for rather than an error.
//!
//! # Why the slug rules are this strict
//!
//! Lowercase letters, digits and hyphens, and nothing else. A dot would split
//! an MQTT topic segment, since the topic scheme maps path separators onto
//! dots; a colon would repoint the broker's virtual-host split, which happens
//! at the last colon of a user name. Neither fails where the slug is
//! accepted, so both are refused here by name.

use vstd::prelude::*;
use vstd::string::*;

use crate::text::{chars_of, concat3, contains_char, is_blank, is_blank_seq, push_char};

verus! {

/// A node of the resource hierarchy.
///
/// Devices hang off a common area or an apartment, never directly off a site
/// or a building, which keeps an operate grant from cascading into an
/// apartment.
#[derive(Debug, Clone, Copy, PartialEq, Eq, Structural)]
pub enum Kind {
    /// A tenant's root.
    Portfolio,
    /// A property.
    Site,
    /// A site's common area — where site-level devices live.
    SiteCommon,
    /// A building within a site.
    Building,
    /// A building's common area — where building-level devices live.
    BuildingCommon,
    /// A dwelling.
    Apartment,
    /// A single device.
    Device,
}

/// AXIAM's `resource_type` discriminator of each kind. Both common areas
/// share `common`: they differ in where they sit, not in what they are.
pub open spec fn spec_resource_type(kind: Kind) -> Seq<char> {
    match kind {
        Kind::Portfolio => "portfolio"@,
        Kind::Site => "site"@,
        Kind::SiteCommon => "common"@,
        Kind::BuildingCommon => "common"@,
        Kind::Building => "building"@,
        Kind::Apartment => "apartment"@,
        Kind::Device => "device"@,
    }
}

/// AXIAM's `resource_type` discriminator for a kind.
pub fn resource_type(kind: Kind) -> (r: &'static str)
    ensures
        r@ == spec_resource_type(kind),
{
    match kind {
        Kind::Portfolio => "portfolio",
        Kind::Site => "site",
        Kind::SiteCommon | Kind::BuildingCommon => "common",
        Kind::Building => "building",
        Kind::Apartment => "apartment",
        Kind::Device => "device",
    }
}

/// The type prefix a resource name carries.
pub open spec fn spec_prefix(kind: Kind) -> Seq<char> {
    match kind {
        Kind::Portfolio => "portfolio"@,
        Kind::Site => "site"@,
        Kind::SiteCommon => "common:site"@,
        Kind::Building => "building"@,
        Kind::BuildingCommon => "common:building"@,
        Kind::Apartment => "apartment"@,
        Kind::Device => "device"@,
    }
}

/// The type prefix a resource name carries.
fn prefix(kind: Kind) -> (r: &'static str)
    ensures
        r@ == spec_prefix(kind),
{
    match kind {
        Kind::Portfolio => "portfolio",
        Kind::Site => "site",
        Kind::SiteCommon => "common:site",
        Kind::Building => "building",
        Kind::BuildingCommon => "common:building",
        Kind::Apartment => "apartment",
        Kind::Device => "device",
    }
}

/// Why a slug or a name was refused.
#[derive(Debug, Clone)]
pub enum NamingError {
    /// The slug is empty.
    EmptySlug,
    /// The slug holds a dot.
    Dot(String),
    /// The slug holds a colon.
    Colon(String),
    /// The slug holds this character, which is neither a lowercase letter, a
    /// digit, nor a hyphen.
    Forbidden(String, char),
    /// A group was asked for with no role name.
    NoRole,
}

/// A naming refusal over character sequences.
pub enum NamingFault {
    EmptySlug,
    Dot(Seq<char>),
    Colon(Seq<char>),
    Forbidden(Seq<char>, char),
    NoRole,
}

impl View for NamingError {
    type V = NamingFault;

    open spec fn view(&self) -> NamingFault {
        match self {
            NamingError::EmptySlug => NamingFault::EmptySlug,
            NamingError::Dot(s) => NamingFault::Dot(s@),
            NamingError::Colon(s) => NamingFault::Colon(s@),
            NamingError::Forbidden(s, c) => NamingFault::Forbidden(s@, *c),
            NamingError::NoRole => NamingFault::NoRole,
        }
    }
}

/// A character a slug may hold.
pub open spec fn slug_char(c: char) -> bool {
    ('a' <= c && c <= 'z') || ('0' <= c && c <= '9') || c == '-'
}

/// The first character of `s` that a slug may not hold.
pub open spec fn first_forbidden(s: Seq<char>) -> Option<char>
    decreases s.len(),
{
    if s.len() == 0 {
        None
    } else if !slug_char(s[0]) {
        Some(s[0])
    } else {
        first_forbidden(s.drop_first())
    }
}

/// Why a slug is refused, if it is: empty first, then a dot anywhere, then a
/// colon anywhere, then the first other forbidden character.
pub open spec fn spec_validate_slug(s: Seq<char>) -> Option<NamingFault> {
    if s.len() == 0 {
        Some(NamingFault::EmptySlug)
    } else if s.contains('.') {
        Some(NamingFault::Dot(s))
    } else if s.contains(':') {
        Some(NamingFault::Colon(s))
    } else if first_forbidden(s) is Some {
        Some(NamingFault::Forbidden(s, first_forbidden(s)->0))
    } else {
        None
    }
}

/// A slug every downstream system can carry.
pub open spec fn is_valid_slug(s: Seq<char>) -> bool {
    s.len() > 0 && forall|i: int| 0 <= i < s.len() ==> slug_char(#[trigger] s[i])
}

proof fn lemma_first_forbidden_none(s: Seq<char>)
    ensures
        (first_forbidden(s) is None) == (forall|i: int| 0 <= i < s.len() ==> slug_char(#[trigger] s[i])),
    decreases s.len(),
{
    if s.len() > 0 {
        lemma_first_forbidden_none(s.drop_first());
        assert forall|i: int| 0 < i < s.len() implies s[i] == s.drop_first()[i - 1] by {}
        if first_forbidden(s) is None {
            assert forall|i: int| 0 <= i < s.len() implies slug_char(#[trigger] s[i]) by {
                if i > 0 {
                    assert(s[i] == s.drop_first()[i - 1]);
                }
            }
        }
        if forall|i: int| 0 <= i < s.len() ==> slug_char(#[trigger] s[i]) {
            assert(slug_char(s[0]));
            assert forall|i: int| 0 <= i < s.drop_first().len() implies slug_char(#[trigger] s.drop_first()[i]) by {
                assert(s.drop_first()[i] == s[i + 1]);
            }
        }
    }
}

/// A slug is accepted exactly when it is non-empty and made only of
/// lowercase letters, digits and hyphens.
pub proof fn lemma_accepted_slug_is_valid(s: Seq<char>)
    ensures
        (spec_validate_slug(s) is None) == is_valid_slug(s),
{
    lemma_first_forbidden_none(s);
    if s.contains('.') {
        let i = choose|i: int| 0 <= i < s.len() && s[i] == '.';
        assert(!slug_char(s[i]));
    }
    if s.contains(':') {
        let i = choose|i: int| 0 <= i < s.len() && s[i] == ':';
        assert(!slug_char(s[i]));
    }
    if is_valid_slug(s) {
        assert(!s.contains('.')) by {
            if s.contains('.') {
                let i = choose|i: int| 0 <= i < s.len() && s[i] == '.';
                assert(slug_char(s[i]));
            }
        }
        assert(!s.contains(':')) by {
            if s.contains(':') {
                let i = choose|i: int| 0 <= i < s.len() && s[i] == ':';
                assert(slug_char(s[i]));
            }
        }
    }
}

/// The first character a slug may not hold, if any.
fn find_forbidden(s: &str) -> (r: Option<char>)
    ensures
        r == first_forbidden(s@),
{
    let v = chars_of(s);
    let mut i: usize = 0;
    assert(s@.skip(0) =~= s@);
    while i < v.len()
        invariant
            v@ == s@,
            i <= v.len(),
            first_forbidden(s@) == first_forbidden(s@.skip(i as int)),
        decreases v.len() - i,
    {
        proof {
            assert(s@.skip(i as int).drop_first() =~= s@.skip(i + 1));
        }
        let c = v[i];
        if !(('a' <= c && c <= 'z') || ('0' <= c && c <= '9') || c == '-') {
            return Some(c);
        }
        i = i + 1;
    }
    proof {
        assert(s@.skip(i as int).len() == 0);
    }
    None
}

/// Accept only the slug form every downstream system can carry.
pub fn validate_slug(slug: &str) -> (r: Result<(), NamingError>)
    ensures
        match r {
            Ok(_) => spec_validate_slug(slug@) is None,
            Err(e) => spec_validate_slug(slug@) == Some(e@),
        },
{
    if slug.unicode_len() == 0 {
        return Err(NamingError::EmptySlug);
    }
    if contains_char(slug, '.') {
        return Err(NamingError::Dot(slug.to_owned()));
    }
    if contains_char(slug, ':') {
        return Err(NamingError::Colon(slug.to_owned()));
    }
    if let Some(c) = find_forbidden(slug) {
        return Err(NamingError::Forbidden(slug.to_owned(), c));
    }
    Ok(())
}

/// The readable, type-prefixed resource name: `{prefix}:{slug}`, or the
/// bare `portfolio` for a tenant's one root.
pub open spec fn spec_resource_name(kind: Kind, slug: Seq<char>) -> Result<Seq<char>, NamingFault> {
    if kind == Kind::Portfolio {
        Ok(spec_prefix(kind))
    } else if spec_validate_slug(slug) is Some {
        Err(spec_validate_slug(slug)->0)
    } else {
        Ok(spec_prefix(kind) + seq![':'] + slug)
    }
}

/// What a naming result stands for, over character sequences.
pub open spec fn name_view(r: Result<String, NamingError>) -> Result<Seq<char>, NamingFault> {
    match r {
        Ok(s) => Ok(s@),
        Err(e) => Err(e@),
    }
}

/// The readable, type-prefixed resource name.
///
/// A portfolio takes no slug: a tenant has exactly one root.
pub fn resource_name(kind: Kind, slug: &str) -> (r: Result<String, NamingError>)
    ensures
        name_view(r) == spec_resource_name(kind, slug@),
{
    if kind == Kind::Portfolio {
        return Ok(String::from_str(prefix(kind)));
    }
    match validate_slug(slug) {
        Ok(_) => {},
        Err(e) => return Err(e),
    }
    let r = concat3(prefix(kind), ":", slug);
    proof {
        reveal_strlit(":");
        assert(r@ =~= spec_prefix(kind) + seq![':'] + slug@);
    }
    Ok(r)
}

/// The `{building}-{unit}` slug an apartment is named by.
pub open spec fn spec_apartment_slug(building: Seq<char>, unit: Seq<char>) -> Result<Seq<char>, NamingFault> {
    if spec_validate_slug(building) is Some {
        Err(spec_validate_slug(building)->0)
    } else if spec_validate_slug(unit) is Some {
        Err(spec_validate_slug(unit)->0)
    } else {
        Ok(building + seq!['-'] + unit)
    }
}

/// The `{building}-{unit}` slug an apartment is named by, so unit `1` of two
/// different towers cannot collide.
pub fn apartment_slug(building: &str, unit: &str) -> (r: Result<String, NamingError>)
    ensures
        name_view(r) == spec_apartment_slug(building@, unit@),
{
    match validate_slug(building) {
        Ok(_) => {},
        Err(e) => return Err(e),
    }
    match validate_slug(unit) {
        Ok(_) => {},
        Err(e) => return Err(e),
    }
    let r = concat3(building, "-", unit);
    proof {
        reveal_strlit("-");
        assert(r@ =~= building@ + seq!['-'] + unit@);
    }
    Ok(r)
}

/// The group holding `role` scoped to one resource: `{role}@{resource name}`.
pub open spec fn spec_group_name(role: Seq<char>, kind: Kind, slug: Seq<char>) -> Result<Seq<char>, NamingFault> {
    if is_blank_seq(role) {
        Err(NamingFault::NoRole)
    } else if spec_validate_slug(role) is Some {
        Err(spec_validate_slug(role)->0)
    } else {
        match spec_resource_name(kind, slug) {
            Err(e) => Err(e),
            Ok(n) => Ok(role + seq!['@'] + n),
        }
    }
}

/// The group that holds `role` scoped to one resource.
///
/// The group name contains the resource name verbatim, so a human reading a
/// denial can see both at once.
pub fn group_name(role: &str, kind: Kind, slug: &str) -> (r: Result<String, NamingError>)
    ensures
        name_view(r) == spec_group_name(role@, kind, slug@),
{
    if is_blank(role) {
        return Err(NamingError::NoRole);
    }
    match validate_slug(role) {
        Ok(_) => {},
        Err(e) => return Err(e),
    }
    let name = match resource_name(kind, slug) {
        Ok(n) => n,
        Err(e) => return Err(e),
    };
    let r = concat3(role, "@", name.as_str());
    proof {
        reveal_strlit("@");
        assert(r@ =~= role@ + seq!['@'] + name@);
    }
    Ok(r)
}

/// The structural groups created eagerly with a resource of each kind.
pub open spec fn spec_structural_groups(kind: Kind) -> Seq<Seq<char>> {
    match kind {
        Kind::Portfolio => seq!["property-manager"@],
        Kind::Site => seq!["installer"@, "concierge"@],
        Kind::SiteCommon => seq!["common-operator"@, "common-device-manager"@],
        Kind::BuildingCommon => seq!["common-operator"@, "common-device-manager"@],
        Kind::Apartment => seq!["resident"@],
        Kind::Building => Seq::empty(),
        Kind::Device => Seq::empty(),
    }
}

/// The structural groups created eagerly with a resource of this kind.
///
/// Empty for a device: its grant group is created on the first grant and
/// deleted on revoke. Empty for a building too: its devices live under its
/// common area, and an installer reaches it through the site's binding.
pub fn structural_groups_for(kind: Kind) -> (r: Vec<&'static str>)
    ensures
        r@.map_values(|s: &'static str| s@) == spec_structural_groups(kind),
{
    let r: Vec<&'static str> = match kind {
        Kind::Portfolio => vec!["property-manager"],
        Kind::Site => vec!["installer", "concierge"],
        Kind::SiteCommon | Kind::BuildingCommon => vec!["common-operator", "common-device-manager"],
        Kind::Apartment => vec!["resident"],
        Kind::Building | Kind::Device => Vec::new(),
    };
    assert(r@.map_values(|s: &'static str| s@) =~= spec_structural_groups(kind));
    r
}

/// The operator-facing text of a naming refusal.
pub open spec fn naming_message(f: NamingFault) -> Seq<char> {
    match f {
        NamingFault::EmptySlug => "a slug must not be empty"@,
        NamingFault::Dot(s) => "slug '"@ + s + "' contains '.': the MQTT topic scheme maps path separators onto dots, so a dot here would split a topic segment"@,
        NamingFault::Colon(s) => "slug '"@ + s + "' contains ':': the broker splits a virtual host from a user name at the last colon, so a colon here would repoint that split"@,
        NamingFault::Forbidden(s, c) => "slug '"@ + s + "' contains '"@ + seq![c] + "': only lowercase letters, digits and hyphens are accepted"@,
        NamingFault::NoRole => "a group needs a role name"@,
    }
}

impl NamingError {
    /// The operator-facing text of this refusal, naming the slug at fault.
    pub fn message(&self) -> (r: String)
        ensures
            r@ == naming_message(self@),
    {
        let mut m = String::new();
        match self {
            NamingError::EmptySlug => m.append("a slug must not be empty"),
            NamingError::Dot(s) => {
                m.append("slug '");
                m.append(s.as_str());
                m.append("' contains '.': the MQTT topic scheme maps path separators onto dots, so a dot here would split a topic segment");
            },
            NamingError::Colon(s) => {
                m.append("slug '");
                m.append(s.as_str());
                m.append("' contains ':': the broker splits a virtual host from a user name at the last colon, so a colon here would repoint that split");
            },
            NamingError::Forbidden(s, c) => {
                m.append("slug '");
                m.append(s.as_str());
                m.append("' contains '");
                push_char(&mut m, *c);
                m.append("': only lowercase letters, digits and hyphens are accepted");
            },
            NamingError::NoRole => m.append("a group needs a role name"),
        }
        assert(m@ =~= naming_message(self@));
        m
    }
}

/// Two resources never share a name: a resource name determines its kind,
/// and, below the portfolio, its slug.
pub proof fn lemma_resource_name_is_injective(k1: Kind, s1: Seq<char>, k2: Kind, s2: Seq<char>)
    requires
        spec_resource_name(k1, s1) is Ok,
        spec_resource_name(k2, s2) is Ok,
        spec_resource_name(k1, s1)->Ok_0 == spec_resource_name(k2, s2)->Ok_0,
    ensures
        k1 == k2,
        k1 != Kind::Portfolio ==> s1 == s2,
{
    reveal_strlit("portfolio");
    reveal_strlit("site");
    reveal_strlit("common:site");
    reveal_strlit("building");
    reveal_strlit("common:building");
    reveal_strlit("apartment");
    reveal_strlit("device");
    let n = spec_resource_name(k1, s1)->Ok_0;
    if k1 != Kind::Portfolio {
        lemma_accepted_slug_is_valid(s1);
    }
    if k2 != Kind::Portfolio {
        lemma_accepted_slug_is_valid(s2);
    }
    if k1 == Kind::Portfolio && k2 != Kind::Portfolio {
        assert(n.len() == 9);
        let p = spec_prefix(k2);
        assert(n[p.len() as int] == ':');
        assert(false);
    } else if k2 == Kind::Portfolio && k1 != Kind::Portfolio {
        assert(n.len() == 9);
        let p = spec_prefix(k1);
        assert(n[p.len() as int] == ':');
        assert(false);
    } else if k1 != Kind::Portfolio {
        let p1 = spec_prefix(k1);
        let p2 = spec_prefix(k2);
        let len = n.len() as int;
        assert(n[len - s1.len() - 1] == ':');
        assert(n[len - s2.len() - 1] == ':');
        if s1.len() < s2.len() {
            let i = len - s1.len() - 1;
            assert(n[i] == s2[i - p2.len() - 1]);
            assert(slug_char(s2[i - p2.len() - 1]));
        }
        if s2.len() < s1.len() {
            let i = len - s2.len() - 1;
            assert(n[i] == s1[i - p1.len() - 1]);
            assert(slug_char(s1[i - p1.len() - 1]));
        }
        assert(s1.len() == s2.len());
        assert(p1.len() == p2.len());
        assert forall|i: int| 0 <= i < s1.len() implies s1[i] == s2[i] by {
            assert(n[p1.len() + 1 + i] == s1[i]);
            assert(n[p2.len() + 1 + i] == s2[i]);
        }
        assert(s1 =~= s2);
        assert forall|i: int| 0 <= i < p1.len() implies p1[i] == p2[i] by {
            assert(n[i] == p1[i]);
            assert(n[i] == p2[i]);
        }
        assert(p1 =~= p2);
        if k1 != k2 {
            assert(p1 != p2);
        }
    }
}

/// Two valid slugs compose into a valid apartment slug.
pub proof fn lemma_apartment_slug_is_valid(building: Seq<char>, unit: Seq<char>)
    requires
        is_valid_slug(building),
        is_valid_slug(unit),
    ensures
        spec_apartment_slug(building, unit) is Ok,
        is_valid_slug(spec_apartment_slug(building, unit)->Ok_0),
{
    lemma_accepted_slug_is_valid(building);
    lemma_accepted_slug_is_valid(unit);
    let a = building + seq!['-'] + unit;
    assert forall|i: int| 0 <= i < a.len() implies slug_char(#[trigger] a[i]) by {
        if i < building.len() {
            assert(a[i] == building[i]);
        } else if i > building.len() {
            assert(a[i] == unit[i - building.len() - 1]);
        }
    }
}

} // verus!
