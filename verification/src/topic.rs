//! The MQTT topic scheme and its broker routing-key translation.
//!
//! Every device topic is `domo/{tenant_slug}/{sa_uuid}/…`. The tenant slug and
//! the service-account identifier are both in the path, so an authorization
//! decision can be made from the topic alone: a routing key is allowed only
//! under the connecting device's own prefix.

use vstd::prelude::*;
use vstd::string::*;

use crate::text::{chars_of, push_char, starts_with};

verus! {

/// Root segment of every topic.
pub const TOPIC_ROOT: &'static str = "domo";

/// `domo/{tenant}/{account}`, the MQTT prefix one device owns.
pub open spec fn spec_device_prefix(tenant: Seq<char>, sa: Seq<char>) -> Seq<char> {
    TOPIC_ROOT@ + seq!['/'] + tenant + seq!['/'] + sa
}

/// `domo.{tenant}.{account}.`, the routing-key prefix one device owns.
pub open spec fn spec_device_routing_prefix(tenant: Seq<char>, sa: Seq<char>) -> Seq<char> {
    TOPIC_ROOT@ + seq!['.'] + tenant + seq!['.'] + sa + seq!['.']
}

/// Position `i` of `s` is a whole `/`-separated segment on its own.
pub open spec fn is_whole_segment(s: Seq<char>, i: int) -> bool {
    &&& 0 <= i < s.len()
    &&& (i == 0 || s[i - 1] == '/')
    &&& (i == s.len() - 1 || s[i + 1] == '/')
}

/// How one character of an MQTT topic reads in the routing key.
pub open spec fn routed_char(s: Seq<char>, i: int) -> char {
    if s[i] == '/' {
        '.'
    } else if s[i] == '+' && is_whole_segment(s, i) {
        '*'
    } else {
        s[i]
    }
}

/// The routing key of an MQTT topic: `/` becomes `.`, a `+` segment becomes
/// `*`, and everything else (the `#` wildcard included) is kept.
pub open spec fn spec_routing_key(s: Seq<char>) -> Seq<char> {
    Seq::new(s.len(), |i: int| routed_char(s, i))
}

/// A topic whose translation is unambiguous: it holds no `.` (which the
/// broker reads as a separator) and no `*` segment (which the broker reads
/// as its wildcard).
pub open spec fn is_translatable(s: Seq<char>) -> bool {
    &&& !s.contains('.')
    &&& forall|i: int| 0 <= i < s.len() && s[i] == '*' ==> !is_whole_segment(s, i)
}

/// The MQTT topic prefix owned by one device.
pub fn device_prefix(tenant_slug: &str, sa_uuid: &str) -> (r: String)
    ensures
        r@ == spec_device_prefix(tenant_slug@, sa_uuid@),
{
    let mut r = String::from_str(TOPIC_ROOT);
    r.append("/");
    r.append(tenant_slug);
    r.append("/");
    r.append(sa_uuid);
    proof {
        reveal_strlit("/");
    }
    r
}

/// Translate an MQTT topic (or filter) to its broker routing-key form.
///
/// Returns `None` rather than a silently-altered key for a topic the
/// translation could not carry across unambiguously.
pub fn to_routing_key(topic: &str) -> (r: Option<String>)
    ensures
        is_translatable(topic@) ==> (r matches Some(k) && k@ == spec_routing_key(topic@)),
        !is_translatable(topic@) ==> r is None,
{
    let s = chars_of(topic);
    let n = s.len();
    let mut out = String::new();
    let mut i: usize = 0;
    while i < n
        invariant
            s@ == topic@,
            n == s@.len(),
            i <= n,
            out@ =~= Seq::new(i as nat, |j: int| routed_char(s@, j)),
            forall|j: int| 0 <= j < i ==> s@[j] != '.',
            forall|j: int| 0 <= j < i && s@[j] == '*' ==> !is_whole_segment(s@, j),
        decreases n - i,
    {
        let c = s[i];
        let starts = i == 0 || s[i - 1] == '/';
        let ends = i + 1 == n || s[i + 1] == '/';
        if c == '.' {
            assert(topic@[i as int] == '.');
            return None;
        }
        if c == '*' && starts && ends {
            assert(is_whole_segment(topic@, i as int));
            return None;
        }
        if c == '/' {
            push_char(&mut out, '.');
        } else if c == '+' && starts && ends {
            push_char(&mut out, '*');
        } else {
            push_char(&mut out, c);
        }
        i = i + 1;
    }
    assert(out@ =~= spec_routing_key(topic@));
    Some(out)
}

/// The routing-key prefix owned by one device, trailing separator included.
fn device_routing_prefix(tenant_slug: &str, sa_uuid: &str) -> (r: String)
    ensures
        r@ == spec_device_routing_prefix(tenant_slug@, sa_uuid@),
{
    let mut r = String::from_str(TOPIC_ROOT);
    r.append(".");
    r.append(tenant_slug);
    r.append(".");
    r.append(sa_uuid);
    r.append(".");
    proof {
        reveal_strlit(".");
    }
    r
}

/// True when `routing_key` names a topic the given device owns.
pub fn owns_routing_key(tenant_slug: &str, sa_uuid: &str, routing_key: &str) -> (r: bool)
    ensures
        r == spec_device_routing_prefix(tenant_slug@, sa_uuid@).is_prefix_of(routing_key@),
{
    let prefix = device_routing_prefix(tenant_slug, sa_uuid);
    starts_with(routing_key, prefix.as_str())
}


/// Two devices never share a routing key.
///
/// When no tenant slug and no account identifier holds a `.`, a routing key
/// owned by two devices is owned by one and the same device: a device whose
/// identifier merely extends another's (`u-1` and `u-12`) owns nothing of it.
pub proof fn lemma_ownership_is_exclusive(
    t1: Seq<char>,
    s1: Seq<char>,
    t2: Seq<char>,
    s2: Seq<char>,
    key: Seq<char>,
)
    requires
        !t1.contains('.'),
        !s1.contains('.'),
        !t2.contains('.'),
        !s2.contains('.'),
        spec_device_routing_prefix(t1, s1).is_prefix_of(key),
        spec_device_routing_prefix(t2, s2).is_prefix_of(key),
    ensures
        t1 == t2,
        s1 == s2,
{
    reveal_strlit("domo");
    let p1 = spec_device_routing_prefix(t1, s1);
    let p2 = spec_device_routing_prefix(t2, s2);
    assert(forall|i: int| 0 <= i < p1.len() ==> p1[i] == key[i]);
    assert(forall|i: int| 0 <= i < p2.len() ==> p2[i] == key[i]);
    let a: int = 5 + t1.len() as int;
    let b: int = 5 + t2.len() as int;
    assert(p1[a] == '.');
    assert(p2[b] == '.');
    if t1.len() < t2.len() {
        assert(p2[a] == t2[t1.len() as int]);
        assert(t2.contains(t2[t1.len() as int]));
    }
    if t2.len() < t1.len() {
        assert(p1[b] == t1[t2.len() as int]);
        assert(t1.contains(t1[t2.len() as int]));
    }
    assert(t1.len() == t2.len());
    assert forall|j: int| 0 <= j < t1.len() implies t1[j] == t2[j] by {
        assert(p1[5 + j] == t1[j]);
        assert(p2[5 + j] == t2[j]);
    }
    assert(t1 =~= t2);
    let c: int = a + 1 + s1.len();
    let d: int = a + 1 + s2.len();
    assert(p1[c] == '.');
    assert(p2[d] == '.');
    if s1.len() < s2.len() {
        assert(p2[c] == s2[s1.len() as int]);
        assert(s2.contains(s2[s1.len() as int]));
    }
    if s2.len() < s1.len() {
        assert(p1[d] == s1[s2.len() as int]);
        assert(s1.contains(s1[s2.len() as int]));
    }
    assert(s1.len() == s2.len());
    assert forall|j: int| 0 <= j < s1.len() implies s1[j] == s2[j] by {
        assert(p1[a + 1 + j] == s1[j]);
        assert(p2[a + 1 + j] == s2[j]);
    }
    assert(s1 =~= s2);
}

/// A topic beneath a device's own MQTT prefix translates to a routing key
/// that the same device owns, so the two spellings of the scheme agree.
pub proof fn lemma_own_topics_route_to_own_keys(tenant: Seq<char>, sa: Seq<char>, rest: Seq<char>)
    requires
        !tenant.contains('/'),
        !tenant.contains('+'),
        !sa.contains('/'),
        !sa.contains('+'),
        is_translatable(spec_device_prefix(tenant, sa) + seq!['/'] + rest),
    ensures
        spec_device_routing_prefix(tenant, sa).is_prefix_of(
            spec_routing_key(spec_device_prefix(tenant, sa) + seq!['/'] + rest),
        ),
{
    reveal_strlit("domo");
    let topic = spec_device_prefix(tenant, sa) + seq!['/'] + rest;
    let p = spec_device_routing_prefix(tenant, sa);
    let k = spec_routing_key(topic);
    assert forall|i: int| 0 <= i < p.len() implies p[i] == k[i] by {
        if i < 4 {
        } else if i == 4 {
        } else if i < 5 + tenant.len() {
            assert(topic[i] == tenant[i - 5]);
            assert(tenant.contains(tenant[i - 5]));
        } else if i == 5 + tenant.len() {
        } else if i < 6 + tenant.len() + sa.len() {
            assert(topic[i] == sa[i - 6 - tenant.len()]);
            assert(sa.contains(sa[i - 6 - tenant.len()]));
        } else {
        }
    }
    assert(p =~= k.subrange(0, p.len() as int));
}

/// The translation is unambiguous on the topics it accepts: two different
/// topics never translate to the same routing key.
pub proof fn lemma_routing_key_is_injective(a: Seq<char>, b: Seq<char>)
    requires
        is_translatable(a),
        is_translatable(b),
        spec_routing_key(a) == spec_routing_key(b),
    ensures
        a == b,
{
    let ka = spec_routing_key(a);
    let kb = spec_routing_key(b);
    assert(a.len() == ka.len() && b.len() == kb.len());
    assert forall|i: int| 0 <= i < a.len() implies (a[i] == '/') == (b[i] == '/') by {
        assert(ka[i] == kb[i]);
        assert(a[i] != '.' && b[i] != '.') by {
            if a[i] == '.' {
                assert(a.contains(a[i]));
            }
            if b[i] == '.' {
                assert(b.contains(b[i]));
            }
        }
    }
    assert forall|i: int| 0 <= i < a.len() implies a[i] == b[i] by {
        assert(ka[i] == kb[i]);
        assert(a[i] != '.' && b[i] != '.') by {
            if a[i] == '.' {
                assert(a.contains(a[i]));
            }
            if b[i] == '.' {
                assert(b.contains(b[i]));
            }
        }
        assert(is_whole_segment(a, i) == is_whole_segment(b, i)) by {
            if i > 0 {
                assert((a[i - 1] == '/') == (b[i - 1] == '/'));
            }
            if i < a.len() - 1 {
                assert((a[i + 1] == '/') == (b[i + 1] == '/'));
            }
        }
    }
    assert(a =~= b);
}

} // verus!
