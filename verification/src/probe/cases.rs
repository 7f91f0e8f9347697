//! The connect matrix, declared as data.
//!
//! The table *is* the claim the matrix makes about the device identity
//! chain, and a case that is missing is visible as a missing row. Expected
//! outcomes name which layer refuses, and with what signal: a TLS handshake
//! failure and an authorization refusal are different facts, and a harness
//! that only checked "connect failed" would pass either way.

use vstd::prelude::*;

verus! {

/// The probe itself: a device of the first tenant.
pub const PROBE: &'static str = "smoke-probe-device";
/// A second device of the first tenant, in the same apartment.
pub const PEER: &'static str = "smoke-peer-device";
/// An account whose certificate was issued but deliberately never bound.
pub const UNBOUND: &'static str = "smoke-unbound-device";
/// A device of the other tenant, with a certificate from that tenant's CA.
pub const OTHER: &'static str = "smoke-summit-device";

/// Which certificate and key the attempt presents at the TLS handshake.
#[derive(Debug, Clone, Copy, PartialEq, Eq)]
pub enum Credential {
    /// The probe's own leaf, chained to its tenant's signing CA.
    Own,
    /// Another fixture's leaf — the certificate half of the identity swapped
    /// out while the credential half stays the probe's.
    CertOf(&'static str),
    /// A leaf carrying the probe's own common name, signed by the other
    /// tenant's authority.
    ForgedCommonName,
    /// No client certificate at all.
    NoCertificate,
}

/// What rides in the CONNECT password field.
#[derive(Debug, Clone, Copy, PartialEq, Eq)]
pub enum Password {
    /// The token the probe's own device login returned.
    OwnToken,
    /// A string that is not a token at all.
    Malformed,
    /// The probe's own token with its signature segment corrupted.
    CorruptSignature,
    /// A valid token belonging to another fixture.
    TokenOf(&'static str),
}

/// Where the attempt publishes once it is connected.
#[derive(Debug, Clone, Copy, PartialEq, Eq, Structural)]
pub enum Target {
    /// The probe's own namespace.
    Own,
    /// A sibling device's namespace in the same tenant.
    Sibling,
    /// The probe's own identifier, in the other tenant's namespace.
    OtherTenant,
    /// A namespace whose name extends the probe's own.
    Adjacent,
}

/// The outcome a case asserts, naming the layer that must refuse.
#[derive(Debug, Clone, Copy, PartialEq, Eq, Structural)]
pub enum Expect {
    /// CONNACK accepted, subscribe and publish acknowledged, message back.
    Connected,
    /// Refused at the TLS handshake, before any CONNACK exists.
    HandshakeFailed,
    /// Refused by the broker at CONNECT because the client identifier is not
    /// the certificate's subject.
    BrokerRejectedIdentity,
    /// Refused by the authorization backend: a CONNACK carrying a refusal.
    AuthorizationDenied,
    /// Connected, then refused when it published outside its own namespace.
    PublishRefused,
    /// The REST device login refused the certificate: 401 or 403.
    LoginUnauthorized,
    /// AXIAM refused to sign a request under another tenant's signing CA.
    IssuanceRefused,
}

/// What each expectation reads as in the report.
pub open spec fn spec_describe(e: Expect) -> Seq<char> {
    match e {
        Expect::Connected => "connect, subscribe, publish and a round trip"@,
        Expect::HandshakeFailed => "a TLS handshake failure, before any CONNACK"@,
        Expect::BrokerRejectedIdentity => "a CONNACK refusing the client identifier"@,
        Expect::AuthorizationDenied => "a CONNACK refusing the credentials"@,
        Expect::PublishRefused => "the publish refused after a successful connect"@,
        Expect::LoginUnauthorized => "the device login to refuse (HTTP 401 or 403)"@,
        Expect::IssuanceRefused => "AXIAM to refuse a certificate request naming another tenant's signing CA"@,
    }
}

impl Expect {
    pub fn describe(self) -> (r: &'static str)
        ensures
            r@ == spec_describe(self),
    {
        match self {
            Expect::Connected => "connect, subscribe, publish and a round trip",
            Expect::HandshakeFailed => "a TLS handshake failure, before any CONNACK",
            Expect::BrokerRejectedIdentity => "a CONNACK refusing the client identifier",
            Expect::AuthorizationDenied => "a CONNACK refusing the credentials",
            Expect::PublishRefused => "the publish refused after a successful connect",
            Expect::LoginUnauthorized => "the device login to refuse (HTTP 401 or 403)",
            Expect::IssuanceRefused => "AXIAM to refuse a certificate request naming another tenant's signing CA",
        }
    }
}

/// How a case exercises the chain.
#[derive(Debug, Clone, Copy, PartialEq, Eq)]
pub enum Probe {
    /// A full MQTT attempt.
    Connect { credential: Credential, password: Password, target: Target },
    /// The REST device login only — the hop that happens before MQTT exists.
    DeviceLogin { fixture: &'static str },
    /// The recorded outcome of the cross-tenant issuance experiment.
    CrossTenantIssuance,
}

/// One named case.
#[derive(Debug, Clone, Copy)]
pub struct Case {
    pub name: &'static str,
    pub probe: Probe,
    pub expect: Expect,
    /// What this case would let through if it stopped failing.
    pub why: &'static str,
}

/// A full MQTT attempt with this credential, password and target.
pub fn connect(credential: Credential, password: Password, target: Target) -> (r: Probe)
    ensures
        r == (Probe::Connect { credential, password, target }),
{
    Probe::Connect { credential, password, target }
}

/// The matrix, in the order it runs: each case's name, probe and expected
/// outcome.
pub open spec fn spec_matrix() -> Seq<(Seq<char>, Probe, Expect)> {
    seq![
        ("positive"@, Probe::Connect { credential: Credential::Own, password: Password::OwnToken, target: Target::Own }, Expect::Connected),
        ("mismatched-cert"@, Probe::Connect { credential: Credential::CertOf(PEER), password: Password::OwnToken, target: Target::Own }, Expect::BrokerRejectedIdentity),
        ("malformed-token"@, Probe::Connect { credential: Credential::Own, password: Password::Malformed, target: Target::Own }, Expect::AuthorizationDenied),
        ("bad-signature"@, Probe::Connect { credential: Credential::Own, password: Password::CorruptSignature, target: Target::Own }, Expect::AuthorizationDenied),
        ("wrong-tenant"@, Probe::Connect { credential: Credential::Own, password: Password::TokenOf(OTHER), target: Target::Own }, Expect::AuthorizationDenied),
        ("no-client-cert"@, Probe::Connect { credential: Credential::NoCertificate, password: Password::OwnToken, target: Target::Own }, Expect::HandshakeFailed),
        ("other-tenant-ca"@, Probe::Connect { credential: Credential::ForgedCommonName, password: Password::OwnToken, target: Target::Own }, Expect::BrokerRejectedIdentity),
        ("cross-tenant-ca-issuance"@, Probe::CrossTenantIssuance, Expect::IssuanceRefused),
        ("namespace-sibling"@, Probe::Connect { credential: Credential::Own, password: Password::OwnToken, target: Target::Sibling }, Expect::PublishRefused),
        ("namespace-other-tenant"@, Probe::Connect { credential: Credential::Own, password: Password::OwnToken, target: Target::OtherTenant }, Expect::PublishRefused),
        ("namespace-adjacent"@, Probe::Connect { credential: Credential::Own, password: Password::OwnToken, target: Target::Adjacent }, Expect::PublishRefused),
        ("empty-cert-binding"@, Probe::DeviceLogin { fixture: UNBOUND }, Expect::LoginUnauthorized),
    ]
}

/// Every case, in the order they run.
pub fn all() -> (r: Vec<Case>)
    ensures
        r@.len() == spec_matrix().len(),
        forall|i: int| 0 <= i < r@.len() ==> (#[trigger] r@[i]).name@ == spec_matrix()[i].0
            && r@[i].probe == spec_matrix()[i].1 && r@[i].expect == spec_matrix()[i].2,
{
    let r = vec![
        Case {
            name: "positive",
            probe: connect(Credential::Own, Password::OwnToken, Target::Own),
            expect: Expect::Connected,
            why: "the whole chain — certificate, client identifier, user name, token subject and topic namespace — agreeing end to end",
        },
        Case {
            name: "mismatched-cert",
            probe: connect(Credential::CertOf(PEER), Password::OwnToken, Target::Own),
            expect: Expect::BrokerRejectedIdentity,
            why: "a stolen token to be replayed with any certificate the holder happens to own",
        },
        Case {
            name: "malformed-token",
            probe: connect(Credential::Own, Password::Malformed, Target::Own),
            expect: Expect::AuthorizationDenied,
            why: "anything at all in the password field to authenticate a device",
        },
        Case {
            name: "bad-signature",
            probe: connect(Credential::Own, Password::CorruptSignature, Target::Own),
            expect: Expect::AuthorizationDenied,
            why: "a token forged by anyone who can read a real one's claims",
        },
        Case {
            name: "wrong-tenant",
            probe: connect(Credential::Own, Password::TokenOf(OTHER), Target::Own),
            expect: Expect::AuthorizationDenied,
            why: "one tenant's device credentials to be used against another tenant's",
        },
        Case {
            name: "no-client-cert",
            probe: connect(Credential::NoCertificate, Password::OwnToken, Target::Own),
            expect: Expect::HandshakeFailed,
            why: "the broker's peer-certificate requirement to be silently off, which looks identical to a working setup from any harness that only checks 'connect failed'",
        },
        Case {
            name: "other-tenant-ca",
            probe: connect(Credential::ForgedCommonName, Password::OwnToken, Target::Own),
            expect: Expect::BrokerRejectedIdentity,
            why: "a certificate minted under another tenant's authority to speak for this one",
        },
        Case {
            name: "cross-tenant-ca-issuance",
            probe: Probe::CrossTenantIssuance,
            expect: Expect::IssuanceRefused,
            why: "any tenant administrator to mint certificates under any other tenant's signing CA, which is the whole of what the per-tenant CA tier is for",
        },
        Case {
            name: "namespace-sibling",
            probe: connect(Credential::Own, Password::OwnToken, Target::Sibling),
            expect: Expect::PublishRefused,
            why: "a device to write into the topics of the device next door",
        },
        Case {
            name: "namespace-other-tenant",
            probe: connect(Credential::Own, Password::OwnToken, Target::OtherTenant),
            expect: Expect::PublishRefused,
            why: "a device to write across the tenant boundary",
        },
        Case {
            name: "namespace-adjacent",
            probe: connect(Credential::Own, Password::OwnToken, Target::Adjacent),
            expect: Expect::PublishRefused,
            why: "a device whose identifier merely extends another's to write into it — the one case a prefix comparison would pass",
        },
        Case {
            name: "empty-cert-binding",
            probe: Probe::DeviceLogin { fixture: UNBOUND },
            expect: Expect::LoginUnauthorized,
            why: "a certificate that was issued but never bound to authenticate as somebody",
        },
    ];
    r
}

} // verus!
