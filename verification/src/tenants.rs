//! The user-to-session cache and the unverified tenant peek.
//!
//! AXIAM's key-set endpoint is organization-wide, so a valid signature proves
//! only that *some* tenant of the organization issued a token. Each tenant
//! therefore gets its own verifier, and a token is routed to exactly one of
//! them by the tenant it claims; [`peek_tenant_id`] reads that claim.

use vstd::prelude::*;
use vstd::string::*;

use crate::codec::{base64_url_decoded, decode_base64_url, json_string_field, json_string_map, json_string_member,
    json_string_pairs};
use crate::text::{second_field, spec_second_field, str_eq};

pub use crate::rmq::decide::Session;

verus! {

/// The audience AXIAM stamps on a device (machine-to-machine) token.
pub const M2M_AUDIENCE: &'static str = "axiam:m2m";

/// The claim a token names its tenant by.
pub const TENANT_CLAIM: &'static str = "tenant_id";

/// What the unverified peek reads out of a token: the `tenant_id` string
/// member of the JSON that the second `.`-separated field decodes to.
pub open spec fn spec_peek_tenant_id(jwt: Seq<char>) -> Option<Seq<char>> {
    match spec_second_field(jwt, '.') {
        None => None,
        Some(payload) => match base64_url_decoded(payload) {
            None => None,
            Some(raw) => json_string_member(raw, TENANT_CLAIM@),
        },
    }
}

/// The characters of an optional owned string.
pub open spec fn opt_string(s: Option<String>) -> Option<Seq<char>> {
    match s {
        Some(x) => Some(x@),
        None => None,
    }
}

/// Read `tenant_id` out of a token **without verifying it**.
///
/// This only chooses which verifier to use; the chosen verifier asserts the
/// tenant itself, so a token lying about its tenant fails a moment later.
pub fn peek_tenant_id(jwt: &str) -> (r: Option<String>)
    ensures
        opt_string(r) == spec_peek_tenant_id(jwt@),
{
    let payload = match second_field(jwt, '.') {
        Some(p) => p,
        None => return None,
    };
    let raw = match decode_base64_url(payload) {
        Some(raw) => raw,
        None => return None,
    };
    json_string_field(raw.as_slice(), TENANT_CLAIM)
}

/// An exact copy of a session.
pub fn copy_session(s: &Session) -> (r: Session)
    ensures
        r == *s,
{
    Session { tenant_id: s.tenant_id.clone(), tenant_slug: s.tenant_slug.clone(), exp: s.exp }
}

/// The in-memory user-to-session cache.
///
/// Filled by a successful CONNECT and read by the three token-less endpoints.
pub struct SessionCache {
    entries: Vec<(String, Session)>,
}

/// The user names of a list of entries, as character sequences.
pub open spec fn keys_of(e: Seq<(String, Session)>) -> Seq<Seq<char>> {
    e.map_values(|p: (String, Session)| p.0@)
}

/// The position of a user name among the keys.
pub open spec fn slot(keys: Seq<Seq<char>>, k: Seq<char>) -> int {
    choose|i: int| 0 <= i < keys.len() && keys[i] == k
}

/// The map a list of entries with distinct user names stands for.
pub open spec fn map_of(e: Seq<(String, Session)>) -> Map<Seq<char>, Session> {
    Map::new(|k: Seq<char>| keys_of(e).contains(k), |k: Seq<char>| e[slot(keys_of(e), k)].1)
}

impl SessionCache {
    /// No user name appears twice.
    #[verifier::type_invariant]
    closed spec fn inv(self) -> bool {
        keys_of(self.entries@).no_duplicates()
    }

    /// The cache as a map from user name to session.
    pub closed spec fn view(&self) -> Map<Seq<char>, Session> {
        map_of(self.entries@)
    }

    /// An empty cache.
    pub fn new() -> (r: Self)
        ensures
            r.view() == Map::<Seq<char>, Session>::empty(),
    {
        let r = SessionCache { entries: Vec::new() };
        assert(r.view() =~= Map::<Seq<char>, Session>::empty());
        r
    }

    /// The session cached for this user name, if any.
    pub fn get(&self, username: &str) -> (r: Option<Session>)
        ensures
            r == (if self.view().contains_key(username@) {
                Some(self.view()[username@])
            } else {
                None
            }),
    {
        proof {
            use_type_invariant(self);
        }
        let ghost keys = keys_of(self.entries@);
        let mut i: usize = 0;
        while i < self.entries.len()
            invariant
                keys == keys_of(self.entries@),
                keys.no_duplicates(),
                i <= self.entries.len(),
                forall|j: int| 0 <= j < i ==> keys[j] != username@,
            decreases self.entries.len() - i,
        {
            if str_eq(self.entries[i].0.as_str(), username) {
                proof {
                    assert(keys[i as int] == username@);
                    assert(keys.contains(username@));
                    let s = slot(keys, username@);
                    assert(keys[s] == username@);
                }
                return Some(copy_session(&self.entries[i].1));
            }
            i = i + 1;
        }
        assert(!keys.contains(username@));
        None
    }

    /// Cache `session` for `username`, replacing any earlier one.
    pub fn insert(&mut self, username: &str, session: Session)
        ensures
            final(self).view() == old(self).view().insert(username@, session),
    {
        proof {
            use_type_invariant(&*self);
        }
        let ghost old_e = self.entries@;
        let ghost keys = keys_of(old_e);
        let mut i: usize = 0;
        while i < self.entries.len()
            invariant
                self.entries@ == old_e,
                old_e == old(self).entries@,
                keys == keys_of(old_e),
                keys.no_duplicates(),
                i <= self.entries.len(),
                forall|j: int| 0 <= j < i ==> keys[j] != username@,
            decreases self.entries.len() - i,
        {
            if str_eq(self.entries[i].0.as_str(), username) {
                let key = String::from_str(username);
                let ghost new_e = old_e.update(i as int, (key, session));
                proof {
                    assert(keys_of(new_e) =~= keys);
                    assert(map_of(new_e) =~= map_of(old_e).insert(username@, session)) by {
                        assert forall|k: Seq<char>| #[trigger] keys.contains(k) implies
                            new_e[slot(keys, k)].1 == (if k == username@ { session } else { old_e[slot(keys, k)].1 }) by {
                            let s = slot(keys, k);
                            assert(keys[s] == k);
                            if k == username@ {
                                assert(keys[i as int] == username@);
                            }
                        }
                        assert(keys[i as int] == username@);
                        assert(keys.contains(username@));
                    }
                }
                let mut entries: Vec<(String, Session)> = Vec::new();
                std::mem::swap(&mut entries, &mut self.entries);
                entries.set(i, (key, session));
                assert(entries@ == new_e);
                self.entries = entries;
                return;
            }
            i = i + 1;
        }
        let key = String::from_str(username);
        let ghost new_e = old_e.push((key, session));
        proof {
            assert(!keys.contains(username@));
            assert(keys_of(new_e) =~= keys.push(username@));
            let nk = keys.push(username@);
            assert(nk.no_duplicates()) by {
                assert forall|a: int, b: int| 0 <= a < nk.len() && 0 <= b < nk.len() && a != b implies nk[a] != nk[b] by {
                    if a == keys.len() {
                        assert(keys.contains(nk[b]));
                    } else if b == keys.len() {
                        assert(keys.contains(nk[a]));
                    }
                }
            }
            assert(map_of(new_e) =~= map_of(old_e).insert(username@, session)) by {
                assert forall|k: Seq<char>| #[trigger] nk.contains(k) implies
                    new_e[slot(nk, k)].1 == (if k == username@ { session } else { old_e[slot(keys, k)].1 }) by {
                    let s = slot(nk, k);
                    assert(nk[s] == k);
                    if k == username@ {
                        assert(nk[keys.len() as int] == username@);
                    } else {
                        assert(s < keys.len());
                        let t = slot(keys, k);
                        assert(keys.contains(k)) by {
                            assert(keys[s] == k);
                        }
                        assert(keys[t] == k);
                    }
                }
                assert forall|k: Seq<char>| #[trigger] nk.contains(k) <==> (keys.contains(k) || k == username@) by {
                    if nk.contains(k) && k != username@ {
                        let s = choose|s: int| 0 <= s < nk.len() && nk[s] == k;
                        assert(keys[s] == k);
                    }
                    if keys.contains(k) {
                        let s = choose|s: int| 0 <= s < keys.len() && keys[s] == k;
                        assert(nk[s] == k);
                    }
                    if k == username@ {
                        assert(nk[keys.len() as int] == k);
                    }
                }
            }
        }
        let mut entries: Vec<(String, Session)> = Vec::new();
        std::mem::swap(&mut entries, &mut self.entries);
        entries.push((key, session));
        assert(entries@ == new_e);
        self.entries = entries;
    }

    /// How many user names have a cached session.
    pub fn len(&self) -> (r: usize)
        ensures
            r == self.view().len(),
    {
        proof {
            use_type_invariant(self);
            let keys = keys_of(self.entries@);
            keys.unique_seq_to_set();
            assert(self.view().dom() =~= keys.to_set());
        }
        self.entries.len()
    }

    /// Whether no session is cached.
    pub fn is_empty(&self) -> (r: bool)
        ensures
            r == (self.view().len() == 0),
    {
        self.len() == 0
    }
}

/// A read gives back what the last write for that user name wrote, and a
/// write for one user name leaves every other user name's entry as it was.
pub proof fn lemma_read_after_insert(
    before: SessionCache,
    after: SessionCache,
    username: Seq<char>,
    session: Session,
    other: Seq<char>,
)
    requires
        after.view() == before.view().insert(username, session),
        other != username,
    ensures
        after.view().contains_key(username),
        after.view()[username] == session,
        after.view().contains_key(other) == before.view().contains_key(other),
        before.view().contains_key(other) ==> after.view()[other] == before.view()[other],
{
}

/// A cache holds finitely many user names: its map's domain is the set of
/// the user names it lists.
pub proof fn lemma_cache_is_finite(c: SessionCache)
    ensures
        c.view().dom().finite(),
{
    let keys = keys_of(c.entries@);
    assert(c.view().dom() =~= keys.to_set());
    vstd::seq_lib::seq_to_set_is_finite(keys);
}

/// After a write, the cache holds one more user name unless that name was
/// already there, and it is not empty.
pub proof fn lemma_insert_grows(before: SessionCache, after: SessionCache, username: Seq<char>, session: Session)
    requires
        after.view() == before.view().insert(username, session),
    ensures
        after.view().len() == before.view().len() + (if before.view().contains_key(username) { 0int } else { 1int }),
        after.view().len() > 0,
{
    lemma_cache_is_finite(before);
    let d = before.view().dom();
    assert(after.view().dom() =~= d.insert(username));
    vstd::set::axiom_set_insert_len(d, username);
    if d.contains(username) {
        vstd::set_lib::lemma_set_empty_equivalency_len(d);
        if d.len() == 0 {
            assert(!Set::<Seq<char>>::empty().contains(username));
        }
    }
}

/// The tenant map's members as character sequences.
pub open spec fn pairs_view(p: Seq<(String, String)>) -> Seq<(Seq<char>, Seq<char>)> {
    p.map_values(|m: (String, String)| (m.0@, m.1@))
}

/// The slug paired with the first occurrence of `id`, if any.
pub open spec fn slug_in(p: Seq<(Seq<char>, Seq<char>)>, id: Seq<char>) -> Option<Seq<char>>
    decreases p.len(),
{
    if p.len() == 0 {
        None
    } else if p[0].0 == id {
        Some(p[0].1)
    } else {
        slug_in(p.drop_first(), id)
    }
}

/// Tenant identifier to slug, as the bootstrap publishes it, with the
/// modification time of the file it was read from.
#[derive(Debug, Clone)]
pub struct TenantMap {
    pub slugs: Vec<(String, String)>,
    /// When the file was last modified, as seen when it was read; `None`
    /// when it could not be seen.
    pub read_at: Option<u128>,
}

/// What a lookup found in the map held.
#[derive(Debug, Clone, PartialEq, Eq)]
pub enum Cached {
    /// The tenant's slug.
    Hit(String),
    /// Unknown, and the file has not changed since it was read: a miss
    /// costs nothing more than looking at the file's modification time.
    Miss,
    /// Unknown, and the file has changed: read it again before answering.
    Stale,
}

/// The map a tenant-map file yields: its members when it parses as an
/// object of strings, and nothing otherwise. A missing or malformed file is
/// not fatal: no tenant resolves, so every decision that needs one denies.
pub fn tenant_map(doc: Option<&[u8]>, read_at: Option<u128>) -> (r: TenantMap)
    ensures
        r.read_at == read_at,
        match doc {
            Some(d) => match json_string_map(d@) {
                Some(m) => pairs_view(r.slugs@) == m,
                None => r.slugs@.len() == 0,
            },
            None => r.slugs@.len() == 0,
        },
{
    let slugs = match doc {
        Some(d) => match json_string_pairs(d) {
            Some(v) => v,
            None => Vec::new(),
        },
        None => Vec::new(),
    };
    TenantMap { slugs, read_at }
}

impl TenantMap {
    /// The slug of a tenant identifier.
    pub fn lookup(&self, tenant_id: &str) -> (r: Option<String>)
        ensures
            match slug_in(pairs_view(self.slugs@), tenant_id@) {
                Some(s) => r matches Some(x) && x@ == s,
                None => r is None,
            },
    {
        let ghost all = pairs_view(self.slugs@);
        let mut i: usize = 0;
        assert(all.skip(0) =~= all);
        while i < self.slugs.len()
            invariant
                all == pairs_view(self.slugs@),
                i <= self.slugs.len(),
                slug_in(all, tenant_id@) == slug_in(all.skip(i as int), tenant_id@),
            decreases self.slugs.len() - i,
        {
            proof {
                assert(all.skip(i as int).drop_first() =~= all.skip(i + 1));
                assert(all.skip(i as int)[0] == all[i as int]);
            }
            if str_eq(self.slugs[i].0.as_str(), tenant_id) {
                return Some(self.slugs[i].1.clone());
            }
            i = i + 1;
        }
        assert(all.skip(i as int).len() == 0);
        None
    }

    /// Resolve a tenant identifier against the map held, given the file's
    /// modification time now: a hit answers at once, and a miss re-reads the
    /// file only when it has changed since the map was read.
    pub fn resolve(&self, tenant_id: &str, on_disk: Option<u128>) -> (r: Cached)
        ensures
            (r is Hit) == (slug_in(pairs_view(self.slugs@), tenant_id@) is Some),
            (r is Miss) == (slug_in(pairs_view(self.slugs@), tenant_id@) is None && self.read_at == on_disk),
            (r is Stale) == (slug_in(pairs_view(self.slugs@), tenant_id@) is None && self.read_at != on_disk),
            r matches Cached::Hit(x) ==> x@ == slug_in(pairs_view(self.slugs@), tenant_id@)->0,
    {
        match self.lookup(tenant_id) {
            Some(s) => Cached::Hit(s),
            None => {
                if self.read_at == on_disk {
                    Cached::Miss
                } else {
                    Cached::Stale
                }
            },
        }
    }
}

} // verus!
