//! TLS configuration against the one organization root.
//!
//! The demo has exactly one trust anchor, so a client configuration trusts
//! the organization root and nothing else: no fallback to the platform trust
//! store, because a certificate that does not chain to the root must fail,
//! not quietly succeed against a public authority. A client identity is the
//! leaf followed by its intermediates, and one private key.

use std::sync::Arc;

use rustls::crypto::aws_lc_rs::default_provider;
use rustls::pki_types::{PrivateKeyDer, PrivatePkcs1KeyDer, PrivatePkcs8KeyDer, PrivateSec1KeyDer};
use rustls::{ClientConfig, RootCertStore, ServerConfig};
use vstd::prelude::*;

verus! {

/// `rustls::ClientConfig`, carried whole.
#[verifier::external_type_specification]
#[verifier::external_body]
pub struct ExClientConfig(rustls::ClientConfig);

/// `rustls::ServerConfig`, carried whole.
#[verifier::external_type_specification]
#[verifier::external_body]
pub struct ExServerConfig(rustls::ServerConfig);

/// The certificate sections `rustls_pemfile::certs` yields from a PEM text,
/// in order, up to and including the first that fails to parse: the DER
/// body of each, and `None` for the failing one.
pub uninterp spec fn pem_certificate_items(pem: Seq<u8>) -> Seq<Option<Seq<u8>>>;

/// Whether `RootCertStore::add` accepts this DER certificate as a trust
/// anchor.
pub uninterp spec fn rustls_anchor_accepted(der: Seq<u8>) -> bool;

/// Every section parsed.
pub open spec fn all_parsed(items: Seq<Option<Seq<u8>>>) -> bool {
    forall|i: int| 0 <= i < items.len() ==> (#[trigger] items[i]) is Some
}

/// The DER bodies of the `CERTIFICATE` sections of a PEM text, in order,
/// when every section parses.
pub open spec fn pem_certificates(pem: Seq<u8>) -> Option<Seq<Seq<u8>>> {
    let items = pem_certificate_items(pem);
    if all_parsed(items) {
        Some(items.map_values(|x: Option<Seq<u8>>| x->0))
    } else {
        None
    }
}

/// The first fault of a root bundle's sections, read in order as rustls is
/// handed them: a section that does not parse, or a certificate rustls
/// rejects as an anchor.
pub open spec fn first_root_fault(items: Seq<Option<Seq<u8>>>) -> Option<TlsError>
    decreases items.len(),
{
    if items.len() == 0 {
        None
    } else {
        match items[0] {
            None => Some(TlsError::MalformedRoot),
            Some(d) => if !rustls_anchor_accepted(d) {
                Some(TlsError::RejectedRoot)
            } else {
                first_root_fault(items.drop_first())
            },
        }
    }
}

/// The trust anchors of a root bundle, or why there are none: the first
/// fault of its sections, else no certificate at all, else its certificates.
pub open spec fn spec_root_anchors(pem: Seq<u8>) -> Result<Seq<Seq<u8>>, TlsError> {
    let items = pem_certificate_items(pem);
    match first_root_fault(items) {
        Some(e) => Err(e),
        None => if items.len() == 0 {
            Err(TlsError::NoRootCertificate)
        } else {
            Ok(items.map_values(|x: Option<Seq<u8>>| x->0))
        },
    }
}

/// The first private-key section of a PEM text, when the text parses:
/// `Some(None)` when it holds none.
pub uninterp spec fn pem_private_key(pem: Seq<u8>) -> Option<Option<(KeyKind, Seq<u8>)>>;

/// Whether the client builder of `build_client_config` accepts these
/// anchors into its `RootCertStore` and, when there is one, this identity
/// (the chain, leaf first, and the key's encoding and DER body).
pub uninterp spec fn rustls_client_accepts(
    anchors: Seq<Seq<u8>>,
    identity: Option<(Seq<Seq<u8>>, KeyKind, Seq<u8>)>,
) -> bool;

/// Whether the server builder of `build_server_config` accepts this chain
/// and this key (its encoding and DER body).
pub uninterp spec fn rustls_server_accepts(chain: Seq<Seq<u8>>, kind: KeyKind, key: Seq<u8>) -> bool;

/// Which encoding a private key's DER body is in.
#[derive(Debug, Clone, Copy, PartialEq, Eq, Structural)]
pub enum KeyKind {
    Pkcs1,
    Sec1,
    Pkcs8,
}

/// A private key's encoding and DER body.
#[derive(Debug, Clone)]
pub struct KeyDer {
    pub kind: KeyKind,
    pub der: Vec<u8>,
}

/// Reads every certificate of `pem` with `rustls_pemfile::certs`, keeping
/// each DER body; `None` when any section fails to parse.
///
/// Trusted: the result is named [`pem_certificates`].
#[verifier::external_body]
pub(crate) fn parse_certificates(pem: &[u8]) -> (r: Option<Vec<Vec<u8>>>)
    ensures
        match r {
            Some(v) => pem_certificates(pem@) == Some(v.deep_view()),
            None => pem_certificates(pem@) is None,
        },
{
    rustls_pemfile::certs(&mut &pem[..]).map(|c| c.map(|d| d.to_vec())).collect::<Result<Vec<_>, _>>().ok()
}

/// Reads the certificate sections of `pem` with `rustls_pemfile::certs`, in
/// order, stopping after the first that fails to parse.
///
/// Trusted: the items are named [`pem_certificate_items`].
#[verifier::external_body]
fn certificate_items(pem: &[u8]) -> (r: Vec<Option<Vec<u8>>>)
    ensures
        r@.len() == pem_certificate_items(pem@).len(),
        forall|i: int| 0 <= i < r@.len() ==> match #[trigger] r@[i] {
            Some(d) => pem_certificate_items(pem@)[i] == Some(d@),
            None => pem_certificate_items(pem@)[i] is None,
        },
{
    let mut items = Vec::new();
    for c in rustls_pemfile::certs(&mut &pem[..]) {
        match c {
            Ok(d) => items.push(Some(d.to_vec())),
            Err(_) => {
                items.push(None);
                break;
            },
        }
    }
    items
}

/// Adds `der` to an empty `RootCertStore` with `RootCertStore::add` and
/// reports whether it was accepted; acceptance depends on the certificate
/// alone.
///
/// Trusted: the answer is named [`rustls_anchor_accepted`].
#[verifier::external_body]
fn anchor_accepted(der: &[u8]) -> (r: bool)
    ensures
        r == rustls_anchor_accepted(der@),
{
    RootCertStore::empty().add(rustls::pki_types::CertificateDer::from(der.to_vec())).is_ok()
}

/// Reads the first private key of `pem` with `rustls_pemfile::private_key`,
/// keeping its encoding and DER body; `None` when the text fails to parse.
///
/// Trusted: the result is named [`pem_private_key`].
#[verifier::external_body]
fn parse_private_key(pem: &[u8]) -> (r: Option<Option<KeyDer>>)
    ensures
        match r {
            Some(Some(k)) => pem_private_key(pem@) == Some(Some((k.kind, k.der@))),
            Some(None) => pem_private_key(pem@) == Some(None::<(KeyKind, Seq<u8>)>),
            None => pem_private_key(pem@) is None,
        },
{
    match rustls_pemfile::private_key(&mut &pem[..]).ok()? {
        None => Some(None),
        Some(PrivateKeyDer::Pkcs1(k)) => Some(Some(KeyDer { kind: KeyKind::Pkcs1, der: k.secret_pkcs1_der().to_vec() })),
        Some(PrivateKeyDer::Sec1(k)) => Some(Some(KeyDer { kind: KeyKind::Sec1, der: k.secret_sec1_der().to_vec() })),
        Some(PrivateKeyDer::Pkcs8(k)) => Some(Some(KeyDer { kind: KeyKind::Pkcs8, der: k.secret_pkcs8_der().to_vec() })),
        Some(_) => None,
    }
}

/// An identity as plain values: the chain and the key's encoding and body.
pub open spec fn identity_view(identity: Option<(Vec<Vec<u8>>, KeyDer)>) -> Option<(Seq<Seq<u8>>, KeyKind, Seq<u8>)> {
    match identity {
        Some((c, k)) => Some((c.deep_view(), k.kind, k.der@)),
        None => None,
    }
}

/// Builds a client configuration with the `aws-lc-rs` provider and the safe
/// default protocol versions, trusting exactly `anchors` (each added with
/// `RootCertStore::add`), presenting `identity` when there is one.
///
/// Trusted. Whether rustls accepts the anchors and the identity depends on
/// their bytes alone (each anchor is parsed by `RootCertStore::add`, the
/// identity by `CertifiedKey::from_der`, which also checks that the key
/// matches the leaf), so that answer is named [`rustls_client_accepts`].
/// What the configuration holds is not claimed: the type is opaque here.
#[verifier::external_body]
fn build_client_config(anchors: Vec<Vec<u8>>, identity: Option<(Vec<Vec<u8>>, KeyDer)>) -> (r: Option<
    rustls::ClientConfig,
>)
    ensures
        (r is Some) == rustls_client_accepts(anchors.deep_view(), identity_view(identity)),
{
    let mut store = RootCertStore::empty();
    for a in anchors {
        store.add(a.into()).ok()?;
    }
    let b = ClientConfig::builder_with_provider(Arc::new(default_provider())).with_safe_default_protocol_versions();
    let b = b.ok()?.with_root_certificates(store);
    let Some((chain, key)) = identity else { return Some(b.with_no_client_auth()) };
    let key: PrivateKeyDer<'static> = match key.kind {
        KeyKind::Pkcs1 => PrivatePkcs1KeyDer::from(key.der).into(),
        KeyKind::Sec1 => PrivateSec1KeyDer::from(key.der).into(),
        KeyKind::Pkcs8 => PrivatePkcs8KeyDer::from(key.der).into(),
    };
    b.with_client_auth_cert(chain.into_iter().map(Into::into).collect(), key).ok()
}

/// Builds a server configuration with the `aws-lc-rs` provider, TLS 1.3
/// only, no client authentication, and this certificate chain and key.
///
/// Trusted. Whether rustls accepts the pair depends on their bytes alone
/// (`CertifiedKey::from_der` parses the key and checks it matches the
/// leaf), so that answer is named [`rustls_server_accepts`]. What the
/// configuration holds is not claimed: the type is opaque here.
#[verifier::external_body]
fn build_server_config(chain: Vec<Vec<u8>>, key: KeyDer) -> (r: Option<rustls::ServerConfig>)
    ensures
        (r is Some) == rustls_server_accepts(chain.deep_view(), key.kind, key.der@),
{
    let key: PrivateKeyDer<'static> = match key.kind {
        KeyKind::Pkcs1 => PrivatePkcs1KeyDer::from(key.der).into(),
        KeyKind::Sec1 => PrivateSec1KeyDer::from(key.der).into(),
        KeyKind::Pkcs8 => PrivatePkcs8KeyDer::from(key.der).into(),
    };
    let b = ServerConfig::builder_with_provider(Arc::new(default_provider()));
    let b = b.with_protocol_versions(&[&rustls::version::TLS13]);
    b.ok()?.with_no_client_auth().with_single_cert(chain.into_iter().map(Into::into).collect(), key).ok()
}

/// Why a TLS configuration could not be built.
#[derive(Debug, Clone, Copy, PartialEq, Eq, Structural)]
pub enum TlsError {
    /// The root bundle holds a section that does not parse.
    MalformedRoot,
    /// rustls rejected a certificate of the root bundle as a trust anchor.
    RejectedRoot,
    /// The root bundle holds no certificate.
    NoRootCertificate,
    /// The certificate chain holds a section that does not parse.
    MalformedChain,
    /// The certificate chain is empty.
    EmptyChain,
    /// The private key's text does not parse.
    MalformedKey,
    /// No private key section was found.
    NoKey,
    /// rustls refused the anchors, the chain or the key.
    Refused,
}

/// The trust anchors of a root bundle: its certificates, read in order and
/// each handed to rustls as it is read, so the first section that fails to
/// parse or that rustls rejects decides the error. There must be at least
/// one certificate.
pub fn root_certificates(root_pem: &[u8]) -> (r: Result<Vec<Vec<u8>>, TlsError>)
    ensures
        match spec_root_anchors(root_pem@) {
            Err(e) => r == Err::<Vec<Vec<u8>>, TlsError>(e),
            Ok(a) => r matches Ok(v) && v.deep_view() == a,
        },
{
    let items = certificate_items(root_pem);
    let ghost all = pem_certificate_items(root_pem@);
    let mut out: Vec<Vec<u8>> = Vec::new();
    let mut i: usize = 0;
    assert(all.skip(0) =~= all);
    while i < items.len()
        invariant
            all == pem_certificate_items(root_pem@),
            items@.len() == all.len(),
            forall|j: int| 0 <= j < items@.len() ==> match #[trigger] items@[j] {
                Some(d) => all[j] == Some(d@),
                None => all[j] is None,
            },
            i <= items.len(),
            first_root_fault(all) == first_root_fault(all.skip(i as int)),
            out.deep_view() == all.take(i as int).map_values(|x: Option<Seq<u8>>| x->0),
            forall|j: int| 0 <= j < i ==> (#[trigger] all[j]) is Some,
        decreases items.len() - i,
    {
        proof {
            assert(all.skip(i as int).drop_first() =~= all.skip(i + 1));
            assert(all.skip(i as int)[0] == all[i as int]);
        }
        match &items[i] {
            None => {
                return Err(TlsError::MalformedRoot);
            },
            Some(d) => {
                if !anchor_accepted(d.as_slice()) {
                    return Err(TlsError::RejectedRoot);
                }
                let ghost before = out.deep_view();
                let ghost old_out = out;
                let c = d.clone();
                assert(c@ =~= d@);
                assert(items@[i as int] matches Some(x) && all[i as int] == Some(x@));
                out.push(c);
                proof {
                    assert(c.deep_view() =~= c@);
                    assert(out.deep_view() =~= before.push(c@)) by {
                        assert forall|j: int| 0 <= j < out@.len() implies #[trigger] out.deep_view()[j]
                            == before.push(c@)[j] by {
                            if j < before.len() {
                                assert(out@[j] == old_out@[j]);
                            }
                        }
                    }
                    assert(all.take(i + 1) =~= all.take(i as int).push(all[i as int]));
                    assert(out.deep_view() =~= all.take(i + 1).map_values(|x: Option<Seq<u8>>| x->0));
                }
            },
        }
        i = i + 1;
    }
    assert(all.take(i as int) =~= all);
    assert(all.skip(i as int).len() == 0);
    if out.len() == 0 {
        return Err(TlsError::NoRootCertificate);
    }
    Ok(out)
}

/// A client identity: the chain, leaf first, and its private key.
pub fn client_identity(chain_pem: &[u8], key_pem: &[u8]) -> (r: Result<(Vec<Vec<u8>>, KeyDer), TlsError>)
    ensures
        match pem_certificates(chain_pem@) {
            None => r == Err::<(Vec<Vec<u8>>, KeyDer), TlsError>(TlsError::MalformedChain),
            Some(c) => if c.len() == 0 {
                r == Err::<(Vec<Vec<u8>>, KeyDer), TlsError>(TlsError::EmptyChain)
            } else {
                match pem_private_key(key_pem@) {
                    None => r == Err::<(Vec<Vec<u8>>, KeyDer), TlsError>(TlsError::MalformedKey),
                    Some(None) => r == Err::<(Vec<Vec<u8>>, KeyDer), TlsError>(TlsError::NoKey),
                    Some(Some(k)) => r matches Ok(p) && p.0.deep_view() == c && p.1.kind == k.0 && p.1.der@ == k.1,
                }
            },
        },
{
    let chain = match parse_certificates(chain_pem) {
        None => return Err(TlsError::MalformedChain),
        Some(v) => v,
    };
    if chain.len() == 0 {
        return Err(TlsError::EmptyChain);
    }
    match parse_private_key(key_pem) {
        None => Err(TlsError::MalformedKey),
        Some(None) => Err(TlsError::NoKey),
        Some(Some(k)) => Ok((chain, k)),
    }
}

/// A client configuration that trusts the organization root and presents no
/// identity. Succeeds when the root bundle yields its anchors and rustls
/// builds a configuration from them.
pub fn client_config(root_pem: &[u8]) -> (r: Result<rustls::ClientConfig, TlsError>)
    ensures
        match spec_root_anchors(root_pem@) {
            Err(e) => r == Err::<rustls::ClientConfig, TlsError>(e),
            Ok(a) => (r is Ok) == rustls_client_accepts(a, None)
                && (r is Err ==> r == Err::<rustls::ClientConfig, TlsError>(TlsError::Refused)),
        },
{
    let anchors = match root_certificates(root_pem) {
        Ok(a) => a,
        Err(e) => return Err(e),
    };
    match build_client_config(anchors, None) {
        Some(c) => Ok(c),
        None => Err(TlsError::Refused),
    }
}

/// A client configuration that trusts the organization root and presents an
/// mTLS identity. The identity is checked first, then the root.
pub fn client_config_with_identity(root_pem: &[u8], chain_pem: &[u8], key_pem: &[u8])
    -> (r: Result<rustls::ClientConfig, TlsError>)
    ensures
        match pem_certificates(chain_pem@) {
            None => r == Err::<rustls::ClientConfig, TlsError>(TlsError::MalformedChain),
            Some(c) => if c.len() == 0 {
                r == Err::<rustls::ClientConfig, TlsError>(TlsError::EmptyChain)
            } else {
                match pem_private_key(key_pem@) {
                    None => r == Err::<rustls::ClientConfig, TlsError>(TlsError::MalformedKey),
                    Some(None) => r == Err::<rustls::ClientConfig, TlsError>(TlsError::NoKey),
                    Some(Some(k)) => match spec_root_anchors(root_pem@) {
                        Err(e) => r == Err::<rustls::ClientConfig, TlsError>(e),
                        Ok(a) => (r is Ok) == rustls_client_accepts(a, Some((c, k.0, k.1)))
                            && (r is Err ==> r == Err::<rustls::ClientConfig, TlsError>(TlsError::Refused)),
                    },
                }
            },
        },
{
    let identity = match client_identity(chain_pem, key_pem) {
        Ok(i) => i,
        Err(e) => return Err(e),
    };
    let anchors = match root_certificates(root_pem) {
        Ok(a) => a,
        Err(e) => return Err(e),
    };
    match build_client_config(anchors, Some(identity)) {
        Some(c) => Ok(c),
        None => Err(TlsError::Refused),
    }
}

/// The Twin's listener configuration: TLS 1.3 only, this certificate chain
/// and key, no client authentication.
pub fn server_config(cert_pem: &[u8], key_pem: &[u8]) -> (r: Result<rustls::ServerConfig, TlsError>)
    ensures
        match pem_certificates(cert_pem@) {
            None => r == Err::<rustls::ServerConfig, TlsError>(TlsError::MalformedChain),
            Some(c) => match pem_private_key(key_pem@) {
                None => r == Err::<rustls::ServerConfig, TlsError>(TlsError::MalformedKey),
                Some(None) => r == Err::<rustls::ServerConfig, TlsError>(TlsError::NoKey),
                Some(Some(k)) => (r is Ok) == rustls_server_accepts(c, k.0, k.1)
                    && (r is Err ==> r == Err::<rustls::ServerConfig, TlsError>(TlsError::Refused)),
            },
        },
{
    let chain = match parse_certificates(cert_pem) {
        None => return Err(TlsError::MalformedChain),
        Some(v) => v,
    };
    let key = match parse_private_key(key_pem) {
        None => return Err(TlsError::MalformedKey),
        Some(None) => return Err(TlsError::NoKey),
        Some(Some(k)) => k,
    };
    match build_server_config(chain, key) {
        Some(c) => Ok(c),
        None => Err(TlsError::Refused),
    }
}

} // verus!
