//! The smoke fixtures: the reserved name prefix, which names teardown may
//! delete, and the order it deletes them in.
//!
//! Every fixture name carries [`PREFIX`] on its *slug*, after the type
//! prefix — `site:smoke-park`, not `smoke-site:park` — and teardown deletes
//! by that prefix alone, so a seed name that happened to carry it would be
//! destroyed without a word. That is why the prefix is reserved rather than
//! merely suggested.

use vstd::prelude::*;
use vstd::string::*;

use crate::bootstrap::provision::{ListedResource, Named};
use crate::bootstrap::naming::{Kind, NamingError, NamingFault, apartment_slug, spec_apartment_slug, is_valid_slug, lemma_accepted_slug_is_valid, slug_char,
    spec_group_name, spec_prefix, spec_resource_name};
use crate::text::{after_first, after_last, concat3, last_field, lemma_after_last_at, lemma_take_until,
    split_once_after, starts_with, take_until, trim, trim_str, spec_second_field};

verus! {

/// The reserved fixture prefix.
pub const PREFIX: &'static str = "smoke-";

/// The tenant the smoke branch is built in.
pub const TENANT: &'static str = "lakeside";

/// The other demo tenant — never given a branch, and the source of the
/// cross-tenant negatives.
pub const OTHER_TENANT: &'static str = "summit";

/// The smoke site.
pub const SITE: &'static str = "smoke-park";

/// Both common areas carry the same slug: they then share the common-area
/// type prefix and differ only by parent, which asks the duplicate-sibling
/// question for real rather than assuming it away.
pub const COMMON: &'static str = "smoke-lobby";

/// The smoke building.
pub const BUILDING: &'static str = "smoke-tower";

/// The smoke apartment's unit within its building.
pub const UNIT: &'static str = "a1";

/// The probe's device.
pub const DEVICE: &'static str = "smoke-probe-light";

/// The peer's device, in the same apartment.
pub const PEER_DEVICE: &'static str = "smoke-peer-light";

/// A device's own role, held through a group scoped to that device and
/// created lazily, on first use.
pub const DEVICE_SELF_ROLE: &'static str = "device-self";

/// The probe's own device service account.
pub const PROBE_ACCOUNT: &'static str = "smoke-probe-device";

/// A second device in the same apartment.
pub const PEER_ACCOUNT: &'static str = "smoke-peer-device";

/// An account deliberately never given a bound certificate.
pub const UNBOUND_ACCOUNT: &'static str = "smoke-unbound-device";

/// A device account in the other tenant.
pub const OTHER_ACCOUNT: &'static str = "smoke-summit-device";

/// The user the membership sequence moves in and out of groups.
pub const TEST_USER: &'static str = "smoke-resident";

/// Where the cross-tenant issuance experiment leaves its answer.
pub const OUTCOME_PATH: &'static str = "smoke/cross-tenant-issuance.json";

/// The forged-common-name leaf, when AXIAM agrees to mint one.
pub const FORGED_PEM: &'static str = "smoke/forged-cn.pem";

/// That leaf's id, so teardown can revoke it.
pub const FORGED_ID: &'static str = "smoke/forged-cn.id";

/// Where a fixture publishes its service-account id for the probe to read.
pub fn sa_id_path(account: &str) -> (r: String)
    ensures
        r@ == "smoke/"@ + account@ + ".sa-id"@,
{
    concat3("smoke/", account, ".sa-id")
}

/// A fixture name without the reserved prefix.
#[derive(Debug, Clone)]
pub struct Unprefixed(pub String);

impl Unprefixed {
    /// The operator-facing text of this refusal.
    pub fn message(&self) -> (r: String)
        ensures
            r@ == "fixture '"@ + self.0@ + "' does not carry the reserved 'smoke-' prefix"@,
    {
        concat3("fixture '", self.0.as_str(), "' does not carry the reserved 'smoke-' prefix")
    }
}

/// Refuse any fixture name that does not carry the reserved prefix.
pub fn ensure_prefixed(name: &str) -> (r: Result<(), Unprefixed>)
    ensures
        r is Ok == PREFIX@.is_prefix_of(name@),
        r matches Err(e) ==> e.0@ == name@,
{
    if !starts_with(name, PREFIX) {
        return Err(Unprefixed(name.to_owned()));
    }
    Ok(())
}

/// A resource name whose slug — the part after its last `:` — carries the
/// reserved prefix.
pub open spec fn spec_is_smoke_name(name: Seq<char>) -> bool {
    PREFIX@.is_prefix_of(after_last(name, ':'))
}

/// True when a resource name's slug carries the reserved prefix.
pub fn is_smoke_name(name: &str) -> (r: bool)
    ensures
        r == spec_is_smoke_name(name@),
{
    starts_with(last_field(name, ':'), PREFIX)
}

/// `{role}@{resource name}` where the resource name is a fixture's.
pub open spec fn spec_is_smoke_group(name: Seq<char>) -> bool {
    match after_first(name, '@') {
        Some(r) => spec_is_smoke_name(r),
        None => false,
    }
}

/// True for `{role}@{resource name}` where the resource name is a fixture's.
pub fn is_smoke_group(name: &str) -> (r: bool)
    ensures
        r == spec_is_smoke_group(name@),
{
    match split_once_after(name, '@') {
        Some(r) => is_smoke_name(r),
        None => false,
    }
}

/// Teardown recognizes exactly the resources whose slug carries the prefix:
/// for every kind below the portfolio, a name built by the naming scheme is
/// a fixture's if and only if its slug starts with `smoke-`.
pub proof fn lemma_smoke_name_follows_slug(kind: Kind, slug: Seq<char>)
    requires
        kind != Kind::Portfolio,
        spec_resource_name(kind, slug) is Ok,
    ensures
        spec_is_smoke_name(spec_resource_name(kind, slug)->Ok_0) == PREFIX@.is_prefix_of(slug),
{
    lemma_accepted_slug_is_valid(slug);
    let p = spec_prefix(kind);
    let n = p + seq![':'] + slug;
    assert forall|k: int| p.len() + 1 <= k < n.len() implies n[k] != ':' by {
        assert(n[k] == slug[k - p.len() - 1]);
        assert(slug_char(slug[k - p.len() - 1]));
    }
    lemma_after_last_at(n, ':', p.len() as int + 1);
    assert(n.skip(p.len() as int + 1) =~= slug);
}

/// Teardown recognizes exactly the groups of fixture resources: a group
/// name built by the naming scheme is a fixture's if and only if the slug of
/// its resource starts with `smoke-`.
pub proof fn lemma_smoke_group_follows_slug(role: Seq<char>, kind: Kind, slug: Seq<char>)
    requires
        kind != Kind::Portfolio,
        spec_group_name(role, kind, slug) is Ok,
    ensures
        spec_is_smoke_group(spec_group_name(role, kind, slug)->Ok_0) == PREFIX@.is_prefix_of(slug),
{
    lemma_accepted_slug_is_valid(role);
    let name = spec_resource_name(kind, slug)->Ok_0;
    let g = role + seq!['@'] + name;
    assert forall|k: int| 0 <= k < role.len() implies g[k] != '@' by {
        assert(g[k] == role[k]);
        assert(slug_char(role[k]));
    }
    assert(g[role.len() as int] == '@');
    assert(g.contains('@'));
    lemma_take_until(g, '@', role.len() as int);
    assert(g.take(role.len() as int) =~= role);
    assert(g.skip(role.len() as int + 1) =~= name);
    lemma_smoke_name_follows_slug(kind, slug);
}

/// The first line of a message, trimmed: what a one-line report shows.
pub open spec fn spec_first_line(s: Seq<char>) -> Seq<char> {
    trim(crate::text::take_until(s, '\n'))
}

/// The first line of an error, so a multi-line message does not break the
/// one-line-per-case report.
pub fn first_line(s: &str) -> (r: String)
    ensures
        r@ == spec_first_line(s@),
{
    let v = crate::text::chars_of(s);
    let mut i: usize = 0;
    while i < v.len() && v[i] != '\n'
        invariant
            v@ == s@,
            i <= v.len(),
            forall|k: int| 0 <= k < i ==> v@[k] != '\n',
        decreases v.len() - i,
    {
        i = i + 1;
    }
    proof {
        lemma_take_until(s@, '\n', i as int);
        assert(s@.take(i as int) =~= s@.subrange(0, i as int));
    }
    let line = s.substring_char(0, i);
    trim_str(line).to_owned()
}

/// A resource and its parent, by identifier, as the teardown walk reads
/// them from a tenant's listing.
#[derive(Debug, Clone, Copy, PartialEq, Eq, Structural)]
pub struct ResourceLink {
    pub id: u128,
    pub parent_id: Option<u128>,
}

/// The parent of the first listed resource with this identifier; `None`
/// when it is a root or is not listed.
pub open spec fn parent_in(all: Seq<ResourceLink>, id: u128) -> Option<u128>
    decreases all.len(),
{
    if all.len() == 0 {
        None
    } else if all[0].id == id {
        all[0].parent_id
    } else {
        parent_in(all.drop_first(), id)
    }
}

/// The number of parent links followed from `cursor`, starting from `d`,
/// stopping past the listing's length so a cycle cannot run forever.
pub open spec fn depth_from(all: Seq<ResourceLink>, cursor: Option<u128>, d: int) -> int
    decreases all.len() - d,
{
    match cursor {
        None => d,
        Some(id) => if d + 1 > all.len() {
            d + 1
        } else {
            depth_from(all, parent_in(all, id), d + 1)
        },
    }
}

/// How many parents a resource has, walked over the tenant's full listing.
pub open spec fn spec_depth(r: ResourceLink, all: Seq<ResourceLink>) -> int {
    depth_from(all, r.parent_id, 0)
}

/// The parent of the first listed resource with this identifier.
fn find_parent(all: &[ResourceLink], id: u128) -> (r: Option<u128>)
    ensures
        r == parent_in(all@, id),
{
    let mut i: usize = 0;
    assert(all@.skip(0) =~= all@);
    while i < all.len()
        invariant
            i <= all.len(),
            parent_in(all@, id) == parent_in(all@.skip(i as int), id),
        decreases all.len() - i,
    {
        assert(all@.skip(i as int).drop_first() =~= all@.skip(i + 1));
        assert(all@.skip(i as int)[0] == all@[i as int]);
        if all[i].id == id {
            return all[i].parent_id;
        }
        i = i + 1;
    }
    assert(all@.skip(i as int).len() == 0);
    None
}

/// How many parents a resource has, walked over the tenant's full listing.
///
/// Bounded by the listing's length: a cycle would otherwise spin forever.
pub fn depth_of(resource: &ResourceLink, all: &[ResourceLink]) -> (r: usize)
    requires
        all@.len() < usize::MAX,
    ensures
        r == spec_depth(*resource, all@),
{
    let mut depth: usize = 0;
    let mut cursor = resource.parent_id;
    loop
        invariant
            all@.len() < usize::MAX,
            depth <= all@.len(),
            depth_from(all@, cursor, depth as int) == spec_depth(*resource, all@),
        decreases all@.len() - depth,
    {
        match cursor {
            None => return depth,
            Some(id) => {
                depth = depth + 1;
                if depth > all.len() {
                    return depth;
                }
                cursor = find_parent(all, id);
            },
        }
    }
}

proof fn lemma_depth_shift(all: Seq<ResourceLink>, cursor: Option<u128>, d: int)
    requires
        0 <= d,
        depth_from(all, cursor, d) <= all.len(),
    ensures
        depth_from(all, cursor, d + 1) == depth_from(all, cursor, d) + 1,
    decreases all.len() - d,
{
    match cursor {
        None => {
            assert(depth_from(all, cursor, d + 1) == d + 1);
            assert(depth_from(all, cursor, d) == d);
        },
        Some(id) => {
            let next = parent_in(all, id);
            if d + 2 <= all.len() {
                lemma_depth_shift(all, next, d + 1);
            } else {
                assert(d + 1 == all.len());
                assert(depth_from(all, cursor, d) == depth_from(all, next, d + 1));
                if next is Some {
                    assert(depth_from(all, next, d + 1) == d + 2);
                }
                assert(depth_from(all, next, d + 1) == d + 1);
                assert(depth_from(all, cursor, d + 1) == d + 2);
            }
        },
    }
}

/// Leaf-first: a resource lies exactly one level deeper than its parent, so
/// sorting by depth, deepest first, removes every child before its parent.
/// Holds whenever the parent's own walk ends inside the listing's length,
/// which an acyclic listing guarantees.
pub proof fn lemma_child_is_one_deeper(child: ResourceLink, parent: ResourceLink, all: Seq<ResourceLink>)
    requires
        child.parent_id == Some(parent.id),
        all.len() > 0,
        parent_in(all, parent.id) == parent.parent_id,
        spec_depth(parent, all) < all.len(),
    ensures
        spec_depth(child, all) == spec_depth(parent, all) + 1,
{
    lemma_depth_shift(all, parent.parent_id, 0);
}

/// A listed resource's link to its parent.
pub open spec fn link_of(r: ListedResource) -> ResourceLink {
    ResourceLink { id: r.id, parent_id: r.parent_id }
}

/// The links of a whole listing, in listing order.
pub open spec fn links_of(s: Seq<ListedResource>) -> Seq<ResourceLink> {
    s.map_values(|r: ListedResource| link_of(r))
}

/// The fixture resources of `s`, in listing order, each with its depth in
/// the full listing `links`.
pub open spec fn smoke_depths(s: Seq<ListedResource>, links: Seq<ResourceLink>) -> Seq<(usize, u128)>
    decreases s.len(),
{
    if s.len() == 0 {
        Seq::empty()
    } else if spec_is_smoke_name(s.last().name@) {
        smoke_depths(s.drop_last(), links).push((spec_depth(link_of(s.last()), links) as usize, s.last().id))
    } else {
        smoke_depths(s.drop_last(), links)
    }
}

/// The identifiers at depth `d`, in order.
pub open spec fn at_depth(items: Seq<(usize, u128)>, d: int) -> Seq<u128>
    decreases items.len(),
{
    if items.len() == 0 {
        Seq::empty()
    } else if items.last().0 == d {
        at_depth(items.drop_last(), d).push(items.last().1)
    } else {
        at_depth(items.drop_last(), d)
    }
}

/// The identifiers at depths `top - 1` down to `lo`, deepest group first,
/// each group in order.
pub open spec fn from_depth(items: Seq<(usize, u128)>, top: int, lo: int) -> Seq<u128>
    decreases top - lo,
{
    if top <= lo {
        Seq::empty()
    } else {
        at_depth(items, top - 1) + from_depth(items, top - 1, lo)
    }
}

/// The order teardown removes a tenant's fixture resources in: grouped by
/// depth, deepest group first, each group in listing order. No depth
/// exceeds the listing's length plus one.
pub open spec fn spec_leaf_first(s: Seq<ListedResource>) -> Seq<u128> {
    from_depth(smoke_depths(s, links_of(s)), s.len() + 2int, 0)
}

proof fn lemma_from_depth_low(items: Seq<(usize, u128)>, top: int, lo: int)
    requires
        lo < top,
    ensures
        from_depth(items, top, lo) == from_depth(items, top, lo + 1) + at_depth(items, lo),
    decreases top - lo,
{
    if top - 1 > lo {
        lemma_from_depth_low(items, top - 1, lo);
        assert(from_depth(items, top, lo) =~= from_depth(items, top, lo + 1) + at_depth(items, lo));
    } else {
        assert(from_depth(items, top - 1, lo) =~= Seq::<u128>::empty());
        assert(from_depth(items, top, lo + 1) =~= Seq::<u128>::empty());
        assert(from_depth(items, top, lo) =~= at_depth(items, lo));
    }
}

/// The fixture resources of a listing in the order teardown removes them:
/// deepest first, so no parent is removed while it still has children.
pub fn leaf_first(resources: &[ListedResource]) -> (r: Vec<u128>)
    requires
        resources@.len() + 2 < usize::MAX,
    ensures
        r@ == spec_leaf_first(resources@),
{
    let mut links: Vec<ResourceLink> = Vec::new();
    let mut i: usize = 0;
    while i < resources.len()
        invariant
            i <= resources.len(),
            links@ == links_of(resources@.take(i as int)),
        decreases resources.len() - i,
    {
        links.push(ResourceLink { id: resources[i].id, parent_id: resources[i].parent_id });
        i = i + 1;
        assert(links@ =~= links_of(resources@.take(i as int)));
    }
    assert(resources@.take(resources.len() as int) =~= resources@);
    let ghost all = links_of(resources@);
    let mut items: Vec<(usize, u128)> = Vec::new();
    let mut i: usize = 0;
    while i < resources.len()
        invariant
            i <= resources.len(),
            links@ == all,
            all == links_of(resources@),
            all.len() == resources@.len(),
            resources@.len() + 2 < usize::MAX,
            items@ == smoke_depths(resources@.take(i as int), all),
        decreases resources.len() - i,
    {
        proof {
            assert(resources@.take(i + 1).drop_last() =~= resources@.take(i as int));
        }
        if is_smoke_name(resources[i].name.as_str()) {
            let link = ResourceLink { id: resources[i].id, parent_id: resources[i].parent_id };
            let d = depth_of(&link, links.as_slice());
            items.push((d, resources[i].id));
        }
        i = i + 1;
    }
    let top: usize = resources.len() + 2;
    let mut out: Vec<u128> = Vec::new();
    let mut n: usize = top;
    while n > 0
        invariant
            n <= top,
            top == resources@.len() + 2,
            items@ == smoke_depths(resources@, all),
            out@ == from_depth(items@, top as int, n as int),
        decreases n,
    {
        let d = n - 1;
        let mut j: usize = 0;
        let mut group: Vec<u128> = Vec::new();
        while j < items.len()
            invariant
                j <= items.len(),
                group@ == at_depth(items@.take(j as int), d as int),
            decreases items.len() - j,
        {
            proof {
                assert(items@.take(j + 1).drop_last() =~= items@.take(j as int));
            }
            if items[j].0 == d {
                group.push(items[j].1);
            }
            j = j + 1;
        }
        proof {
            assert(items@.take(items.len() as int) =~= items@);
            lemma_from_depth_low(items@, top as int, d as int);
        }
        out.append(&mut group);
        n = d;
    }
    out
}

/// The identifiers of the entries whose name satisfies `p`, in order.
pub open spec fn ids_where(s: Seq<Named>, p: spec_fn(Seq<char>) -> bool) -> Seq<u128>
    decreases s.len(),
{
    if s.len() == 0 {
        Seq::empty()
    } else if p(s.last().name@) {
        ids_where(s.drop_last(), p).push(s.last().id)
    } else {
        ids_where(s.drop_last(), p)
    }
}

/// A fixture group: `{role}@{resource name}` over a fixture's resource.
pub open spec fn smoke_group_name() -> spec_fn(Seq<char>) -> bool {
    |n: Seq<char>| spec_is_smoke_group(n)
}

/// A fixture account or user: its name carries the reserved prefix.
pub open spec fn prefixed_name() -> spec_fn(Seq<char>) -> bool {
    |n: Seq<char>| PREFIX@.is_prefix_of(n)
}

/// What teardown removes from one tenant, each list in removal order.
#[derive(Debug, Clone)]
pub struct TeardownPlan {
    /// Groups first: a group bound to a resource can outlive it and would
    /// then be an orphan nothing looks for.
    pub groups: Vec<u128>,
    /// Resources leaf-first, because a parent with children cannot go.
    pub resources: Vec<u128>,
    pub accounts: Vec<u128>,
    pub users: Vec<u128>,
}

fn prefixed_ids(entries: &[Named]) -> (r: Vec<u128>)
    ensures
        r@ == ids_where(entries@, prefixed_name()),
{
    let mut r: Vec<u128> = Vec::new();
    let mut i: usize = 0;
    while i < entries.len()
        invariant
            i <= entries.len(),
            r@ == ids_where(entries@.take(i as int), prefixed_name()),
        decreases entries.len() - i,
    {
        proof {
            assert(entries@.take(i + 1).drop_last() =~= entries@.take(i as int));
        }
        if starts_with(entries[i].name.as_str(), PREFIX) {
            r.push(entries[i].id);
        }
        i = i + 1;
    }
    assert(entries@.take(entries.len() as int) =~= entries@);
    r
}

/// Everything of one tenant that teardown removes, and nothing else: the
/// fixture groups, the fixture resources leaf-first, and the accounts and
/// users whose names carry the reserved prefix.
pub fn teardown_plan(groups: &[Named], resources: &[ListedResource], accounts: &[Named], users: &[Named])
    -> (r: TeardownPlan)
    requires
        resources@.len() + 2 < usize::MAX,
    ensures
        r.groups@ == ids_where(groups@, smoke_group_name()),
        r.resources@ == spec_leaf_first(resources@),
        r.accounts@ == ids_where(accounts@, prefixed_name()),
        r.users@ == ids_where(users@, prefixed_name()),
{
    let mut g: Vec<u128> = Vec::new();
    let mut i: usize = 0;
    while i < groups.len()
        invariant
            i <= groups.len(),
            g@ == ids_where(groups@.take(i as int), smoke_group_name()),
        decreases groups.len() - i,
    {
        proof {
            assert(groups@.take(i + 1).drop_last() =~= groups@.take(i as int));
        }
        if is_smoke_group(groups[i].name.as_str()) {
            g.push(groups[i].id);
        }
        i = i + 1;
    }
    assert(groups@.take(groups.len() as int) =~= groups@);
    TeardownPlan {
        groups: g,
        resources: leaf_first(resources),
        accounts: prefixed_ids(accounts),
        users: prefixed_ids(users),
    }
}

proof fn lemma_parent_in_unique(all: Seq<ResourceLink>, k: int)
    requires
        0 <= k < all.len(),
        forall|a: int, b: int| 0 <= a < b < all.len() ==> all[a].id != all[b].id,
    ensures
        parent_in(all, all[k].id) == all[k].parent_id,
    decreases all.len(),
{
    if k > 0 {
        let rest = all.drop_first();
        assert(rest[k - 1] == all[k]);
        assert(all[0].id != all[k].id);
        lemma_parent_in_unique(rest, k - 1);
    }
}

proof fn lemma_depth_from_at_least(all: Seq<ResourceLink>, cursor: Option<u128>, d: int)
    ensures
        depth_from(all, cursor, d) >= d,
    decreases all.len() - d,
{
    if let Some(id) = cursor {
        if d + 1 <= all.len() {
            lemma_depth_from_at_least(all, parent_in(all, id), d + 1);
        }
    }
}

proof fn lemma_smoke_depths_has(s: Seq<ListedResource>, links: Seq<ResourceLink>, k: int)
    requires
        0 <= k < s.len(),
        spec_is_smoke_name(s[k].name@),
    ensures
        exists|m: int| 0 <= m < smoke_depths(s, links).len()
            && smoke_depths(s, links)[m] == (spec_depth(link_of(s[k]), links) as usize, s[k].id),
    decreases s.len(),
{
    let items = smoke_depths(s, links);
    if k == s.len() - 1 {
        assert(items[items.len() - 1] == (spec_depth(link_of(s[k]), links) as usize, s[k].id));
    } else {
        let t = s.drop_last();
        assert(t[k] == s[k]);
        lemma_smoke_depths_has(t, links, k);
        let m = choose|m: int| 0 <= m < smoke_depths(t, links).len()
            && smoke_depths(t, links)[m] == (spec_depth(link_of(t[k]), links) as usize, t[k].id);
        assert(items[m] == smoke_depths(t, links)[m]);
    }
}

proof fn lemma_at_depth_has(items: Seq<(usize, u128)>, d: int, m: int)
    requires
        0 <= m < items.len(),
        items[m].0 == d,
    ensures
        at_depth(items, d).contains(items[m].1),
    decreases items.len(),
{
    if m == items.len() - 1 {
        assert(at_depth(items, d)[at_depth(items, d).len() - 1] == items[m].1);
    } else {
        let t = items.drop_last();
        assert(t[m] == items[m]);
        lemma_at_depth_has(t, d, m);
        let x = choose|x: int| 0 <= x < at_depth(t, d).len() && at_depth(t, d)[x] == items[m].1;
        assert(at_depth(items, d)[x] == items[m].1);
    }
}

proof fn lemma_from_depth_split(items: Seq<(usize, u128)>, top: int, mid: int, lo: int)
    requires
        lo <= mid <= top,
    ensures
        from_depth(items, top, lo) == from_depth(items, top, mid) + from_depth(items, mid, lo),
    decreases top - mid,
{
    if mid < top {
        lemma_from_depth_split(items, top - 1, mid, lo);
        assert(from_depth(items, top, lo) =~= from_depth(items, top, mid) + from_depth(items, mid, lo));
    } else {
        assert(from_depth(items, top, mid) =~= Seq::<u128>::empty());
        assert(from_depth(items, top, lo) =~= from_depth(items, top, mid) + from_depth(items, mid, lo));
    }
}

proof fn lemma_from_depth_has(items: Seq<(usize, u128)>, top: int, lo: int, d: int, x: u128)
    requires
        lo <= d < top,
        at_depth(items, d).contains(x),
    ensures
        from_depth(items, top, lo).contains(x),
    decreases top - lo,
{
    let g = at_depth(items, top - 1);
    let rest = from_depth(items, top - 1, lo);
    assert(from_depth(items, top, lo) == g + rest);
    if d == top - 1 {
        let i = choose|i: int| 0 <= i < g.len() && g[i] == x;
        assert((g + rest)[i] == x);
    } else {
        lemma_from_depth_has(items, top - 1, lo, d, x);
        let i = choose|i: int| 0 <= i < rest.len() && rest[i] == x;
        assert((g + rest)[g.len() + i] == x);
    }
}

/// Teardown removes every child before its parent.
///
/// For two fixture resources of one listing, one the parent of the other,
/// the child's identifier comes before the parent's in the removal order.
/// Stated for listings whose identifiers are distinct and where the
/// parent's own walk to its root ends inside the listing (no cycle above
/// it), within the machine limit the plan itself needs.
pub proof fn lemma_children_go_first(s: Seq<ListedResource>, ci: int, pi: int)
    requires
        0 <= ci < s.len(),
        0 <= pi < s.len(),
        s.len() + 2 < usize::MAX,
        forall|a: int, b: int| 0 <= a < b < s.len() ==> s[a].id != s[b].id,
        s[ci].parent_id == Some(s[pi].id),
        spec_is_smoke_name(s[ci].name@),
        spec_is_smoke_name(s[pi].name@),
        spec_depth(link_of(s[pi]), links_of(s)) < s.len(),
    ensures
        exists|i: int, j: int| 0 <= i < j < spec_leaf_first(s).len()
            && spec_leaf_first(s)[i] == s[ci].id && spec_leaf_first(s)[j] == s[pi].id,
{
    let links = links_of(s);
    let c = link_of(s[ci]);
    let p = link_of(s[pi]);
    assert(links[pi] == p);
    assert forall|a: int, b: int| 0 <= a < b < links.len() implies links[a].id != links[b].id by {
        assert(links[a].id == s[a].id && links[b].id == s[b].id);
    }
    lemma_parent_in_unique(links, pi);
    lemma_child_is_one_deeper(c, p, links);
    let dp = spec_depth(p, links);
    let dc = spec_depth(c, links);
    lemma_depth_from_at_least(links, p.parent_id, 0);
    assert(dc == dp + 1);
    assert(0 <= dp);
    let items = smoke_depths(s, links);
    lemma_smoke_depths_has(s, links, ci);
    lemma_smoke_depths_has(s, links, pi);
    let mc = choose|m: int| 0 <= m < items.len() && items[m] == (dc as usize, s[ci].id);
    let mp = choose|m: int| 0 <= m < items.len() && items[m] == (dp as usize, s[pi].id);
    lemma_at_depth_has(items, dc, mc);
    lemma_at_depth_has(items, dp, mp);
    let top: int = s.len() + 2int;
    let mid = dp + 1;
    lemma_from_depth_split(items, top, mid, 0);
    let first = from_depth(items, top, mid);
    let second = from_depth(items, mid, 0);
    assert(spec_leaf_first(s) == first + second);
    lemma_from_depth_has(items, top, mid, dc, s[ci].id);
    lemma_from_depth_has(items, mid, 0, dp, s[pi].id);
    let i = choose|i: int| 0 <= i < first.len() && first[i] == s[ci].id;
    let j = choose|j: int| 0 <= j < second.len() && second[j] == s[pi].id;
    assert((first + second)[i] == s[ci].id);
    assert((first + second)[first.len() + j] == s[pi].id);
}

/// Why the smoke branch cannot be built as declared.
#[derive(Debug, Clone)]
pub enum BranchError {
    /// A slug of the branch is not a valid slug.
    Naming(NamingError),
    /// A slug of the branch lacks the reserved prefix.
    Unprefixed(Unprefixed),
}

/// Every slug of the smoke branch, with this apartment slug.
pub open spec fn branch_slugs(apartment: Seq<char>) -> Seq<Seq<char>> {
    seq![SITE@, COMMON@, BUILDING@, DEVICE@, PEER_DEVICE@, apartment]
}

/// Every slug of the branch carries the reserved prefix.
pub open spec fn branch_prefixed(apartment: Seq<char>) -> bool {
    forall|i: int| 0 <= i < 6 ==> PREFIX@.is_prefix_of(#[trigger] branch_slugs(apartment)[i])
}

/// The apartment slug of the smoke branch, once every slug of the branch is
/// checked to carry the reserved prefix: checked rather than assumed, so an
/// edit that drops the prefix cannot create a fixture teardown never sees.
pub fn branch_apartment_slug() -> (r: Result<String, BranchError>)
    ensures
        match spec_apartment_slug(BUILDING@, UNIT@) {
            Err(f) => r matches Err(BranchError::Naming(e)) && e@ == f,
            Ok(a) => if branch_prefixed(a) {
                r matches Ok(x) && x@ == a
            } else {
                r matches Err(BranchError::Unprefixed(_))
            },
        },
{
    let apartment = match apartment_slug(BUILDING, UNIT) {
        Ok(a) => a,
        Err(e) => return Err(BranchError::Naming(e)),
    };
    let slugs = [SITE, COMMON, BUILDING, DEVICE, PEER_DEVICE, apartment.as_str()];
    let ghost want = branch_slugs(apartment@);
    assert(slugs@.map_values(|x: &str| x@) =~= want);
    let mut i: usize = 0;
    while i < 6
        invariant
            i <= 6,
            slugs@.len() == 6,
            slugs@.map_values(|x: &str| x@) == want,
            want == branch_slugs(apartment@),
            spec_apartment_slug(BUILDING@, UNIT@) == Ok::<Seq<char>, NamingFault>(apartment@),
            forall|j: int| 0 <= j < i ==> PREFIX@.is_prefix_of(#[trigger] want[j]),
        decreases 6 - i,
    {
        assert(slugs@.map_values(|x: &str| x@)[i as int] == slugs@[i as int]@);
        match ensure_prefixed(slugs[i]) {
            Ok(()) => {},
            Err(e) => {
                assert(!PREFIX@.is_prefix_of(want[i as int]));
                assert(!branch_prefixed(apartment@));
                return Err(BranchError::Unprefixed(e));
            },
        }
        i = i + 1;
    }
    Ok(apartment)
}

} // verus!
