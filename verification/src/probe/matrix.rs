//! Judging one attempt of the connect matrix.
//!
//! Every attempt is classified by the *layer* that refused it, not by
//! whether it failed: a TLS alert before any CONNACK, a CONNACK carrying a
//! refusal, and a connection accepted and then closed when the device
//! published somewhere it does not own are three different facts.

use vstd::prelude::*;
use vstd::string::*;

use crate::codec::{json_bool_field, json_bool_member, json_is_valid, json_parses, json_string_field,
    json_string_member};
use crate::probe::cases::{Expect, OTHER, Password, Target};
use crate::probe::fixtures::{Fixture, spec_stacked, stacked};
use crate::tenants::opt_string;
use crate::text::{after_last, chars_of, concat3, lemma_after_last_at, push_char, str_eq};
use crate::topic::{device_prefix, lemma_ownership_is_exclusive, spec_device_prefix, spec_device_routing_prefix,
    spec_routing_key};

verus! {

/// The broker's CONNACK return codes.
#[derive(Debug, Clone, Copy, PartialEq, Eq, Structural)]
pub enum ConnectCode {
    Success,
    RefusedProtocolVersion,
    BadClientId,
    ServiceUnavailable,
    BadUserNamePassword,
    NotAuthorized,
}

/// The name of a return code, as the report prints it.
pub open spec fn spec_code_name(c: ConnectCode) -> Seq<char> {
    match c {
        ConnectCode::Success => "Success"@,
        ConnectCode::RefusedProtocolVersion => "RefusedProtocolVersion"@,
        ConnectCode::BadClientId => "BadClientId"@,
        ConnectCode::ServiceUnavailable => "ServiceUnavailable"@,
        ConnectCode::BadUserNamePassword => "BadUserNamePassword"@,
        ConnectCode::NotAuthorized => "NotAuthorized"@,
    }
}

fn code_name(c: ConnectCode) -> (r: &'static str)
    ensures
        r@ == spec_code_name(c),
{
    match c {
        ConnectCode::Success => "Success",
        ConnectCode::RefusedProtocolVersion => "RefusedProtocolVersion",
        ConnectCode::BadClientId => "BadClientId",
        ConnectCode::ServiceUnavailable => "ServiceUnavailable",
        ConnectCode::BadUserNamePassword => "BadUserNamePassword",
        ConnectCode::NotAuthorized => "NotAuthorized",
    }
}

/// What actually happened, classified by the layer that decided it.
#[derive(Debug, Clone)]
pub enum Observed {
    RoundTripped,
    ConnectedButNoRoundTrip,
    Handshake(String),
    Refused(ConnectCode),
    ClosedAfterConnect(String),
    Timeout,
    LoginStatus(u16),
    /// AXIAM refused a request naming another tenant's signing CA.
    IssuanceRefused(String),
    /// AXIAM minted it; the detail names the certificate and its tenant.
    IssuanceAccepted(String),
}

/// Whether an outcome is what a case expects: the broker's own
/// client-identifier refusal for an identity mismatch, a credentials
/// refusal for a denied authorization, a closed connection or a silent
/// timeout for a refused publish, and 401 or 403 for a refused login.
pub open spec fn spec_satisfies(o: Observed, e: Expect) -> bool {
    match (e, o) {
        (Expect::Connected, Observed::RoundTripped) => true,
        (Expect::HandshakeFailed, Observed::Handshake(_)) => true,
        (Expect::BrokerRejectedIdentity, Observed::Refused(ConnectCode::BadClientId)) => true,
        (Expect::AuthorizationDenied, Observed::Refused(ConnectCode::NotAuthorized)) => true,
        (Expect::AuthorizationDenied, Observed::Refused(ConnectCode::BadUserNamePassword)) => true,
        (Expect::PublishRefused, Observed::ClosedAfterConnect(_)) => true,
        (Expect::PublishRefused, Observed::Timeout) => true,
        (Expect::LoginUnauthorized, Observed::LoginStatus(s)) => s == 401 || s == 403,
        (Expect::IssuanceRefused, Observed::IssuanceRefused(_)) => true,
        _ => false,
    }
}

/// One report line's account of what happened.
pub open spec fn spec_observed_text(o: Observed) -> Seq<char> {
    match o {
        Observed::RoundTripped => "connected, published, subscribed, message came back"@,
        Observed::ConnectedButNoRoundTrip => "connected but the message never came back"@,
        Observed::Handshake(e) => "TLS handshake failure ("@ + e@ + ")"@,
        Observed::Refused(c) => "CONNACK refusal: "@ + spec_code_name(c),
        Observed::ClosedAfterConnect(e) => "connection closed after CONNACK ("@ + e@ + ")"@,
        Observed::Timeout => "no decision within the attempt timeout"@,
        Observed::LoginStatus(s) => "device login returned HTTP "@ + crate::text::decimal(s as nat),
        Observed::IssuanceRefused(d) => "AXIAM refused the request ("@ + d@ + ")"@,
        Observed::IssuanceAccepted(d) => "AXIAM ISSUED the certificate — the cross-tenant gap is confirmed: "@ + d@,
    }
}

impl Observed {
    /// One report line's account of what happened.
    pub fn describe(&self) -> (r: String)
        ensures
            r@ == spec_observed_text(*self),
    {
        match self {
            Observed::RoundTripped => String::from_str("connected, published, subscribed, message came back"),
            Observed::ConnectedButNoRoundTrip => String::from_str("connected but the message never came back"),
            Observed::Handshake(e) => concat3("TLS handshake failure (", e.as_str(), ")"),
            Observed::Refused(c) => {
                let mut r = String::from_str("CONNACK refusal: ");
                r.append(code_name(*c));
                r
            },
            Observed::ClosedAfterConnect(e) => concat3("connection closed after CONNACK (", e.as_str(), ")"),
            Observed::Timeout => String::from_str("no decision within the attempt timeout"),
            Observed::LoginStatus(s) => {
                let mut r = String::from_str("device login returned HTTP ");
                crate::text::push_decimal(&mut r, *s as u32);
                r
            },
            Observed::IssuanceRefused(d) => concat3("AXIAM refused the request (", d.as_str(), ")"),
            Observed::IssuanceAccepted(d) => {
                let mut r = String::from_str("AXIAM ISSUED the certificate — the cross-tenant gap is confirmed: ");
                r.append(d.as_str());
                r
            },
        }
    }

    /// Whether this outcome satisfies the case's expectation.
    pub fn satisfies(&self, expect: Expect) -> (r: bool)
        ensures
            r == spec_satisfies(*self, expect),
    {
        match (expect, self) {
            (Expect::Connected, Observed::RoundTripped) => true,
            (Expect::HandshakeFailed, Observed::Handshake(_)) => true,
            (Expect::BrokerRejectedIdentity, Observed::Refused(ConnectCode::BadClientId)) => true,
            (Expect::AuthorizationDenied, Observed::Refused(ConnectCode::NotAuthorized)) => true,
            (Expect::AuthorizationDenied, Observed::Refused(ConnectCode::BadUserNamePassword)) => true,
            (Expect::PublishRefused, Observed::ClosedAfterConnect(_)) => true,
            (Expect::PublishRefused, Observed::Timeout) => true,
            (Expect::LoginUnauthorized, Observed::LoginStatus(s)) => *s == 401 || *s == 403,
            (Expect::IssuanceRefused, Observed::IssuanceRefused(_)) => true,
            _ => false,
        }
    }
}

/// Which layer a connection error came from: a refusal code is the
/// broker's answer; without one, an error after CONNACK closed the
/// connection, and one before it broke the handshake.
pub fn classify(refused: Option<ConnectCode>, detail: String, connected: bool) -> (r: Observed)
    ensures
        r == match refused {
            Some(c) => Observed::Refused(c),
            None => if connected {
                Observed::ClosedAfterConnect(detail)
            } else {
                Observed::Handshake(detail)
            },
        },
{
    match refused {
        Some(c) => Observed::Refused(c),
        None => if connected {
            Observed::ClosedAfterConnect(detail)
        } else {
            Observed::Handshake(detail)
        },
    }
}

/// How an attempt that ran out of events ended: a message that came back
/// is a round trip; a connected attempt whose publish was expected to be
/// refused timed out, which is that refusal; a connected attempt that
/// expected its message back did not get it; and no connection at all is a
/// timeout.
pub fn settle(connected: bool, round_tripped: bool, expect_round_trip: bool) -> (r: Observed)
    ensures
        r == (if round_tripped {
            Observed::RoundTripped
        } else if connected && !expect_round_trip {
            Observed::Timeout
        } else if connected {
            Observed::ConnectedButNoRoundTrip
        } else {
            Observed::Timeout
        }),
{
    if round_tripped {
        Observed::RoundTripped
    } else if connected && !expect_round_trip {
        Observed::Timeout
    } else if connected {
        Observed::ConnectedButNoRoundTrip
    } else {
        Observed::Timeout
    }
}

/// A member of the recorded outcome as text, `?` when absent.
pub open spec fn spec_field(raw: Seq<u8>, key: Seq<char>) -> Seq<char> {
    match json_string_member(raw, key) {
        Some(v) => v,
        None => "?"@,
    }
}

/// A member of the recorded outcome as text, `?` when absent.
pub fn field(raw: &[u8], key: &str) -> (r: String)
    ensures
        r@ == spec_field(raw@, key@),
{
    match json_string_field(raw, key) {
        Some(v) => v,
        None => String::from_str("?"),
    }
}

/// The recorded cross-tenant issuance outcome was not valid JSON.
#[derive(Debug, Clone, Copy, PartialEq, Eq, Structural)]
pub struct OutcomeNotJson;

/// The detail text of a recorded acceptance.
pub open spec fn spec_acceptance_detail(raw: Seq<u8>) -> Seq<char> {
    "certificate "@ + spec_field(raw, "certificate_id"@) + " stamped with tenant "@
        + spec_field(raw, "certificate_tenant_id"@) + ", issued by CA "@ + spec_field(raw, "issuer_ca_id"@)
        + " on behalf of '"@ + spec_field(raw, "acting_tenant"@) + " ("@
        + spec_field(raw, "acting_tenant_id"@) + ")'"@
}

/// Read the answer the certificate stage recorded for the cross-tenant
/// experiment.
pub fn cross_tenant_outcome(raw: &[u8]) -> (r: Result<Observed, OutcomeNotJson>)
    ensures
        !json_parses(raw@) ==> r is Err,
        json_parses(raw@) && json_bool_member(raw@, "accepted"@) == Some(true) ==>
            (r matches Ok(Observed::IssuanceAccepted(d)) && d@ == spec_acceptance_detail(raw@)),
        json_parses(raw@) && json_bool_member(raw@, "accepted"@) != Some(true) ==>
            (r matches Ok(Observed::IssuanceRefused(d)) && d@ == spec_field(raw@, "detail"@)),
{
    if !json_is_valid(raw) {
        return Err(OutcomeNotJson);
    }
    if json_bool_field(raw, "accepted") == Some(true) {
        let mut d = String::from_str("certificate ");
        d.append(field(raw, "certificate_id").as_str());
        d.append(" stamped with tenant ");
        d.append(field(raw, "certificate_tenant_id").as_str());
        d.append(", issued by CA ");
        d.append(field(raw, "issuer_ca_id").as_str());
        d.append(" on behalf of '");
        d.append(field(raw, "acting_tenant").as_str());
        d.append(" (");
        d.append(field(raw, "acting_tenant_id").as_str());
        d.append(")'");
        assert(d@ =~= spec_acceptance_detail(raw@));
        Ok(Observed::IssuanceAccepted(d))
    } else {
        Ok(Observed::IssuanceRefused(field(raw, "detail")))
    }
}

/// A signature character moved one step along its class: `a`–`y`, `A`–`Y`
/// and `0`–`8` to the next, `z`, `Z` and `9` back to the first, anything
/// else kept.
pub open spec fn flip_char(c: char) -> char {
    if ('a' <= c && c <= 'y') || ('A' <= c && c <= 'Y') || ('0' <= c && c <= '8') {
        ((c as u32) + 1) as char
    } else if c == 'z' {
        'a'
    } else if c == 'Z' {
        'A'
    } else if c == '9' {
        '0'
    } else {
        c
    }
}

fn flip(c: char) -> (r: char)
    ensures
        r == flip_char(c),
{
    if ('a' <= c && c <= 'y') || ('A' <= c && c <= 'Y') || ('0' <= c && c <= '8') {
        let n = c as u8;
        (n + 1) as char
    } else if c == 'z' {
        'a'
    } else if c == 'Z' {
        'A'
    } else if c == '9' {
        '0'
    } else {
        c
    }
}

/// Every character of a signature moved one step along its class.
pub open spec fn flip_all(s: Seq<char>) -> Seq<char> {
    Seq::new(s.len(), |i: int| flip_char(s[i]))
}

/// The text before the last `.` of `s`, when it holds one.
pub open spec fn before_last(s: Seq<char>, c: char) -> Seq<char> {
    s.take(s.len() - after_last(s, c).len() - 1)
}

/// Why a token's signature could not be corrupted.
#[derive(Debug, Clone, Copy, PartialEq, Eq, Structural)]
pub enum SignatureError {
    /// The token holds no `.`: it is not a three-segment JWT.
    NotAJwt,
    /// No character of the signature segment could be moved.
    Unalterable,
}

/// The token a case sends when its signature must fail: the same header and
/// payload, the signature segment with every character moved.
pub open spec fn spec_corrupted(token: Seq<char>) -> Seq<char> {
    before_last(token, '.') + seq!['.'] + flip_all(after_last(token, '.'))
}

/// Replace a token's signature segment with a different one of the same
/// shape: the header and payload still parse, so the request reaches
/// signature verification and is refused there rather than at the shape
/// check.
pub fn corrupt_signature(token: &str) -> (r: Result<String, SignatureError>)
    ensures
        !token@.contains('.') ==> r == Err::<String, SignatureError>(SignatureError::NotAJwt),
        token@.contains('.') && flip_all(after_last(token@, '.')) == after_last(token@, '.')
            ==> r == Err::<String, SignatureError>(SignatureError::Unalterable),
        token@.contains('.') && flip_all(after_last(token@, '.')) != after_last(token@, '.')
            ==> (r matches Ok(t) && t@ == spec_corrupted(token@)),
{
    let v = chars_of(token);
    let n = v.len();
    let mut a: usize = n;
    while a > 0 && v[a - 1] != '.'
        invariant
            v@ == token@,
            n == v.len(),
            a <= n,
            forall|k: int| a <= k < n ==> v@[k] != '.',
        decreases a,
    {
        a = a - 1;
    }
    if a == 0 {
        assert(!token@.contains('.')) by {
            if token@.contains('.') {
                let k = choose|k: int| 0 <= k < token@.len() && token@[k] == '.';
                assert(v@[k] != '.');
            }
        }
        return Err(SignatureError::NotAJwt);
    }
    let ghost sig = token@.skip(a as int);
    proof {
        assert(token@[a - 1] == '.');
        assert(token@.contains('.'));
        lemma_after_last_at(token@, '.', a as int);
    }
    let mut r = String::from_str(token.substring_char(0, a));
    let mut changed = false;
    let mut j: usize = a;
    while j < n
        invariant
            v@ == token@,
            n == v.len(),
            0 < a <= j <= n,
            sig == token@.skip(a as int),
            r@ == token@.take(a as int) + flip_all(sig).take(j - a),
            changed == exists|k: int| 0 <= k < j - a && #[trigger] flip_char(sig[k]) != sig[k],
        decreases n - j,
    {
        let c = v[j];
        let f = flip(c);
        proof {
            assert(sig[j - a] == c);
        }
        if f != c {
            changed = true;
        }
        push_char(&mut r, f);
        j = j + 1;
        proof {
            assert(flip_all(sig).take(j - a) =~= flip_all(sig).take(j - 1 - a).push(f));
            if !changed {
                assert forall|k: int| 0 <= k < j - a implies flip_char(sig[k]) == sig[k] by {
                    if k < j - 1 - a {
                    } else {
                        assert(sig[k] == c);
                    }
                }
            } else if f == c {
                let k0 = choose|k: int| 0 <= k < j - 1 - a && #[trigger] flip_char(sig[k]) != sig[k];
                assert(0 <= k0 < j - a);
            } else {
                assert(flip_char(sig[j - 1 - a]) != sig[j - 1 - a]);
            }
        }
    }
    proof {
        assert(flip_all(sig).take(n - a) =~= flip_all(sig));
        assert(after_last(token@, '.') == sig);
        assert(before_last(token@, '.') =~= token@.take(a - 1));
    }
    if !changed {
        proof {
            assert(flip_all(sig) =~= sig);
        }
        return Err(SignatureError::Unalterable);
    }
    proof {
        let k0 = choose|k: int| 0 <= k < n - a && #[trigger] flip_char(sig[k]) != sig[k];
        assert(flip_all(sig)[k0] != sig[k0]);
        assert(flip_all(sig) != sig);
        assert(r@ =~= spec_corrupted(token@)) by {
            assert(token@.take(a as int) =~= token@.take(a - 1) + seq!['.']);
        }
    }
    Ok(r)
}

/// Everything one MQTT attempt needs.
#[derive(Debug, Clone)]
pub struct Attempt {
    pub client_id: String,
    pub username: String,
    pub password: String,
    /// Empty when the case presents no client certificate at all.
    pub chain: Vec<u8>,
    pub key: Vec<u8>,
    pub subscribe: String,
    pub publish: String,
    /// True when the publish is expected to land in the device's own
    /// namespace, so a round trip is the success signal.
    pub expect_round_trip: bool,
}

/// The forged-common-name identity: the probe's own key, with the forged
/// leaf chained to the other tenant's signing CA, the authority that signed
/// it. Without a forged leaf on disk, the other tenant's own device
/// identity stands in: the same boundary, tested less sharply.
pub fn forged_identity(probe: &Fixture, forged_leaf: Option<&[u8]>, other: &Fixture, other_ca: &[u8])
    -> (r: (Vec<u8>, Vec<u8>))
    ensures
        match forged_leaf {
            Some(leaf) => r.0@ == spec_stacked(leaf@, other_ca@) && r.1@ == probe.key@,
            None => r.0@ == other.chain@ && r.1@ == other.key@,
        },
{
    match forged_leaf {
        Some(leaf) => (stacked(leaf, other_ca), probe.key.clone()),
        None => (other.chain.clone(), other.key.clone()),
    }
}

/// Why an attempt could not be assembled.
#[derive(Debug, Clone, Copy, PartialEq, Eq)]
pub enum AttemptError {
    /// Only the other tenant's device has a token loaded.
    NoTokenFor(&'static str),
    /// The probe's token could not be given a corrupt signature.
    Signature(SignatureError),
}

/// The topic a case publishes to: under the probe's own prefix, a sibling's,
/// the other tenant's with the probe's own identifier, or one whose
/// identifier extends the probe's own.
pub open spec fn spec_publish_topic(
    target: Target,
    tenant: Seq<char>,
    sa: Seq<char>,
    peer_sa: Seq<char>,
    other_tenant: Seq<char>,
) -> Seq<char> {
    match target {
        Target::Own => spec_device_prefix(tenant, sa) + "/reported"@,
        Target::Sibling => spec_device_prefix(tenant, peer_sa) + "/reported"@,
        Target::OtherTenant => spec_device_prefix(other_tenant, sa) + "/reported"@,
        Target::Adjacent => spec_device_prefix(tenant, sa + "-extra"@) + "/reported"@,
    }
}

/// What the password field carries, when the case's password can be made.
pub open spec fn spec_password(password: Password, probe_token: Seq<char>, other_token: Seq<char>)
    -> Option<Seq<char>> {
    match password {
        Password::OwnToken => Some(probe_token),
        Password::Malformed => Some("not-a-token"@),
        Password::CorruptSignature => if probe_token.contains('.') && flip_all(after_last(probe_token, '.'))
            != after_last(probe_token, '.') {
            Some(spec_corrupted(probe_token))
        } else {
            None
        },
        Password::TokenOf(name) => if name@ == OTHER@ {
            Some(other_token)
        } else {
            None
        },
    }
}

/// Assemble the credentials and topics one case calls for. The client
/// identifier and the user name always name the probe: a case varies one
/// hop of the chain at a time, so a refusal names which hop refused.
pub fn build_attempt(
    probe: &Fixture,
    chain: Vec<u8>,
    key: Vec<u8>,
    password: Password,
    target: Target,
    probe_token: &str,
    other_token: &str,
    peer_sa: &str,
    other_tenant: &str,
) -> (r: Result<Attempt, AttemptError>)
    ensures
        spec_password(password, probe_token@, other_token@) is None <==> r is Err,
        match password {
            Password::TokenOf(name) => name@ != OTHER@ ==> r == Err::<Attempt, AttemptError>(AttemptError::NoTokenFor(name)),
            Password::CorruptSignature => !probe_token@.contains('.') ==> r == Err::<Attempt, AttemptError>(
                AttemptError::Signature(SignatureError::NotAJwt)),
            _ => true,
        },
        r matches Ok(a) ==> {
            &&& a.client_id@ == "CN="@ + probe.sa_id@
            &&& a.username@ == probe.sa_id@
            &&& Some(a.password@) == spec_password(password, probe_token@, other_token@)
            &&& a.chain == chain
            &&& a.key == key
            &&& a.subscribe@ == spec_device_prefix(probe.tenant@, probe.sa_id@) + "/#"@
            &&& a.publish@ == spec_publish_topic(target, probe.tenant@, probe.sa_id@, peer_sa@, other_tenant@)
            &&& a.expect_round_trip == (target == Target::Own)
        },
{
    let password = match password {
        Password::OwnToken => probe_token.to_owned(),
        Password::Malformed => String::from_str("not-a-token"),
        Password::CorruptSignature => match corrupt_signature(probe_token) {
            Ok(t) => t,
            Err(e) => return Err(AttemptError::Signature(e)),
        },
        Password::TokenOf(name) => {
            if str_eq(name, OTHER) {
                other_token.to_owned()
            } else {
                return Err(AttemptError::NoTokenFor(name));
            }
        },
    };
    let own = device_prefix(probe.tenant.as_str(), probe.sa_id.as_str());
    let publish_prefix = match target {
        Target::Own => device_prefix(probe.tenant.as_str(), probe.sa_id.as_str()),
        Target::Sibling => device_prefix(probe.tenant.as_str(), peer_sa),
        Target::OtherTenant => device_prefix(other_tenant, probe.sa_id.as_str()),
        Target::Adjacent => {
            let mut extended = String::from_str(probe.sa_id.as_str());
            extended.append("-extra");
            device_prefix(probe.tenant.as_str(), extended.as_str())
        },
    };
    let mut publish = publish_prefix;
    publish.append("/reported");
    let mut subscribe = own;
    subscribe.append("/#");
    let mut client_id = String::from_str("CN=");
    client_id.append(probe.sa_id.as_str());
    let expect_round_trip = match target {
        Target::Own => true,
        _ => false,
    };
    Ok(Attempt {
        client_id,
        username: probe.sa_id.clone(),
        password,
        chain,
        key,
        subscribe,
        publish,
        expect_round_trip,
    })
}

/// Beneath a device's prefix, with no `/` or `+` in the tenant, the account
/// or the rest, the routing key is the routing prefix followed by the rest.
proof fn lemma_prefixed_topic_routes(tenant: Seq<char>, sa: Seq<char>, rest: Seq<char>)
    requires
        !tenant.contains('/'),
        !tenant.contains('+'),
        !sa.contains('/'),
        !sa.contains('+'),
        !rest.contains('/'),
        !rest.contains('+'),
    ensures
        spec_routing_key(spec_device_prefix(tenant, sa) + seq!['/'] + rest)
            == spec_device_routing_prefix(tenant, sa) + rest,
{
    reveal_strlit("domo");
    let topic = spec_device_prefix(tenant, sa) + seq!['/'] + rest;
    let key = spec_device_routing_prefix(tenant, sa) + rest;
    let k = spec_routing_key(topic);
    let a: int = 5 + tenant.len() as int;
    let b: int = a + 1 + sa.len() as int;
    assert forall|i: int| 0 <= i < topic.len() implies k[i] == key[i] by {
        if i < 4 {
        } else if i == 4 {
        } else if i < a {
            assert(topic[i] == tenant[i - 5]);
            assert(tenant.contains(tenant[i - 5]));
        } else if i == a {
        } else if i < b {
            assert(topic[i] == sa[i - a - 1]);
            assert(sa.contains(sa[i - a - 1]));
        } else if i == b {
        } else {
            assert(topic[i] == rest[i - b - 1]);
            assert(rest.contains(rest[i - b - 1]));
        }
    }
    assert(k =~= key);
}

/// Of the four places a case publishes to, only the probe's own namespace
/// is beneath the probe's routing prefix: a sibling's, the other tenant's,
/// and one whose identifier merely extends the probe's own are all outside
/// it, because the boundary falls on a separator.
///
/// Stated for names that hold none of `.`, `/` and `+`, with the sibling's
/// identifier different from the probe's and the other tenant different
/// from the probe's own.
pub proof fn lemma_only_own_target_is_owned(
    target: Target,
    tenant: Seq<char>,
    sa: Seq<char>,
    peer_sa: Seq<char>,
    other_tenant: Seq<char>,
)
    requires
        !tenant.contains('.') && !tenant.contains('/') && !tenant.contains('+'),
        !sa.contains('.') && !sa.contains('/') && !sa.contains('+'),
        !peer_sa.contains('.') && !peer_sa.contains('/') && !peer_sa.contains('+'),
        !other_tenant.contains('.') && !other_tenant.contains('/') && !other_tenant.contains('+'),
        peer_sa != sa,
        other_tenant != tenant,
    ensures
        spec_device_routing_prefix(tenant, sa).is_prefix_of(
            spec_routing_key(spec_publish_topic(target, tenant, sa, peer_sa, other_tenant)),
        ) <==> target == Target::Own,
{
    reveal_strlit("/reported");
    reveal_strlit("reported");
    reveal_strlit("-extra");
    let rest = "reported"@;
    assert("/reported"@ =~= seq!['/'] + rest);
    assert(!rest.contains('/') && !rest.contains('+')) by {
        if rest.contains('/') || rest.contains('+') {
            let k = choose|k: int| 0 <= k < rest.len() && (rest[k] == '/' || rest[k] == '+');
            assert(rest[k] != '/' && rest[k] != '+');
        }
    }
    let (t2, s2) = match target {
        Target::Own => (tenant, sa),
        Target::Sibling => (tenant, peer_sa),
        Target::OtherTenant => (other_tenant, sa),
        Target::Adjacent => (tenant, sa + "-extra"@),
    };
    let extra = "-extra"@;
    assert(!(sa + extra).contains('.') && !(sa + extra).contains('/') && !(sa + extra).contains('+')) by {
        let e = sa + extra;
        if e.contains('.') || e.contains('/') || e.contains('+') {
            let k = choose|k: int| 0 <= k < e.len() && (e[k] == '.' || e[k] == '/' || e[k] == '+');
            if k < sa.len() {
                assert(sa.contains(e[k]));
            } else {
                assert(e[k] == extra[k - sa.len()]);
            }
        }
    }
    let topic = spec_publish_topic(target, tenant, sa, peer_sa, other_tenant);
    assert(topic =~= spec_device_prefix(t2, s2) + seq!['/'] + rest);
    lemma_prefixed_topic_routes(t2, s2, rest);
    let key = spec_routing_key(topic);
    assert(spec_device_routing_prefix(t2, s2).is_prefix_of(key)) by {
        assert(key.subrange(0, spec_device_routing_prefix(t2, s2).len() as int)
            =~= spec_device_routing_prefix(t2, s2));
    }
    if spec_device_routing_prefix(tenant, sa).is_prefix_of(key) {
        lemma_ownership_is_exclusive(tenant, sa, t2, s2, key);
        if target == Target::Adjacent {
            assert((sa + extra).len() > sa.len());
        }
    }
}

/// How far one MQTT attempt has come.
#[derive(Debug, Clone, Copy, PartialEq, Eq, Structural)]
pub struct AttemptState {
    /// A CONNACK accepting the connection was seen.
    pub connected: bool,
    /// The published message came back on the subscription.
    pub round_tripped: bool,
}

/// What the broker connection reported next.
#[derive(Debug, Clone)]
pub enum AttemptEvent {
    /// A CONNACK with this return code.
    ConnAck(ConnectCode),
    /// The subscription was acknowledged.
    SubAck,
    /// A message arrived on this topic.
    Message(String),
    /// Anything else the connection reported.
    Other,
    /// The connection failed: with the broker's refusal code when it gave
    /// one, and the error's text.
    Failed(Option<ConnectCode>, String),
}

/// What the driver does next.
#[derive(Debug, Clone)]
pub enum AttemptAction {
    /// Subscribe to the attempt's filter.
    Subscribe,
    /// Publish to the attempt's topic.
    Publish,
    /// Keep polling.
    Wait,
    /// Disconnect and report this outcome.
    Finish(Observed),
}

/// A fresh attempt: not connected, nothing came back.
pub fn attempt_start() -> (r: AttemptState)
    ensures
        r == (AttemptState { connected: false, round_tripped: false }),
{
    AttemptState { connected: false, round_tripped: false }
}

/// One step of an attempt: an accepting CONNACK connects and subscribes, a
/// refusing one ends the attempt with that refusal, the subscription's
/// acknowledgement publishes, the message coming back on the publish topic
/// completes the round trip, and a failed connection is classified by
/// whether a CONNACK was seen before it.
pub fn attempt_step(state: AttemptState, event: AttemptEvent, publish: &str) -> (r: (AttemptState, AttemptAction))
    ensures
        match event {
            AttemptEvent::ConnAck(code) => if code == ConnectCode::Success {
                r.0 == (AttemptState { connected: true, ..state }) && r.1 is Subscribe
            } else {
                r.0 == state && (r.1 matches AttemptAction::Finish(o) && o == Observed::Refused(code))
            },
            AttemptEvent::SubAck => r.0 == state && r.1 is Publish,
            AttemptEvent::Message(topic) => if topic@ == publish@ {
                r.0 == (AttemptState { round_tripped: true, ..state }) && r.1 is Wait
            } else {
                r.0 == state && r.1 is Wait
            },
            AttemptEvent::Other => r.0 == state && r.1 is Wait,
            AttemptEvent::Failed(refused, detail) => r.0 == state && (r.1 matches AttemptAction::Finish(o)
                && o == match refused {
                    Some(c) => Observed::Refused(c),
                    None => if state.connected {
                        Observed::ClosedAfterConnect(detail)
                    } else {
                        Observed::Handshake(detail)
                    },
                }),
        },
{
    match event {
        AttemptEvent::ConnAck(code) => {
            if code == ConnectCode::Success {
                (AttemptState { connected: true, round_tripped: state.round_tripped }, AttemptAction::Subscribe)
            } else {
                (state, AttemptAction::Finish(Observed::Refused(code)))
            }
        },
        AttemptEvent::SubAck => (state, AttemptAction::Publish),
        AttemptEvent::Message(topic) => {
            if str_eq(topic.as_str(), publish) {
                (AttemptState { connected: state.connected, round_tripped: true }, AttemptAction::Wait)
            } else {
                (state, AttemptAction::Wait)
            }
        },
        AttemptEvent::Other => (state, AttemptAction::Wait),
        AttemptEvent::Failed(refused, detail) => (state, AttemptAction::Finish(classify(refused, detail, state.connected))),
    }
}

/// The payload an attempt publishes: the probe naming itself.
pub fn attempt_payload(username: &str) -> (r: String)
    ensures
        r@ == "{\"probe\":\""@ + username@ + "\"}"@,
{
    concat3("{\"probe\":\"", username, "\"}")
}

/// Each expectation names the one layer that must have decided: a round trip
/// for a connection, a TLS failure for a refused handshake, the broker's
/// client-identifier refusal for an identity mismatch, a CONNACK refusal with
/// `NotAuthorized` or `BadUserNamePassword` (and nothing else) for a denied
/// authorization, a closed connection or a silent timeout for a refused
/// publish, HTTP 401 or 403 for a refused login, and AXIAM's refusal for a
/// cross-tenant issuance. So an outcome satisfies at most one expectation,
/// and an outcome no expectation names (a connection without the round trip,
/// an issuance AXIAM accepted) satisfies none.
pub proof fn lemma_each_expectation_names_one_layer(o: Observed, e: Expect, e2: Expect)
    ensures
        e == Expect::Connected ==> (spec_satisfies(o, e) <==> o is RoundTripped),
        e == Expect::HandshakeFailed ==> (spec_satisfies(o, e) <==> o is Handshake),
        e == Expect::BrokerRejectedIdentity ==> (spec_satisfies(o, e) <==> o == Observed::Refused(
            ConnectCode::BadClientId)),
        e == Expect::AuthorizationDenied ==> (spec_satisfies(o, e) <==> (o == Observed::Refused(
            ConnectCode::NotAuthorized) || o == Observed::Refused(ConnectCode::BadUserNamePassword))),
        e == Expect::PublishRefused ==> (spec_satisfies(o, e) <==> (o is ClosedAfterConnect || o is Timeout)),
        e == Expect::LoginUnauthorized ==> (spec_satisfies(o, e) <==> (o is LoginStatus && (o->LoginStatus_0 == 401
            || o->LoginStatus_0 == 403))),
        e == Expect::IssuanceRefused ==> (spec_satisfies(o, e) <==> o is IssuanceRefused),
        o is Handshake ==> (spec_satisfies(o, e) <==> e == Expect::HandshakeFailed),
        o is ConnectedButNoRoundTrip || o is IssuanceAccepted ==> !spec_satisfies(o, e),
        spec_satisfies(o, e) && spec_satisfies(o, e2) ==> e == e2,
{
}

} // verus!
