//! Keypairs and the certificate requests that name them.
//!
//! The subject of a request is the identity: the broker derives the client
//! identifier from it, and AXIAM resolves the account from it, so it is the
//! account's identifier and nothing else. A key once generated is reused for
//! as long as its account lives, because a certificate is bound to one public
//! key: a fresh key on every run would leave the certificate on disk paired
//! with a key it does not match.

use vstd::prelude::*;

use crate::tls::{parse_certificates, pem_certificates};

verus! {

/// Whether `rcgen::KeyPair::from_pem` reads this text as a key whose
/// `KeyPair::algorithm` is `PKCS_ED25519`.
pub uninterp spec fn key_is_ed25519(key_pem: Seq<char>) -> bool;

/// Generates an Ed25519 keypair with `rcgen::KeyPair::generate_for` and
/// writes it as PKCS#8 PEM with `KeyPair::serialize_pem`.
///
/// Trusted. The key is random, so only what holds of every outcome is
/// claimed: a key that comes out is an Ed25519 key that `from_pem` reads
/// back. `None` says the generation failed (the system's random source can).
#[verifier::external_body]
fn generate_key_pem() -> (r: Option<String>)
    ensures
        r matches Some(k) ==> key_is_ed25519(k@),
{
    rcgen::KeyPair::generate_for(&rcgen::PKCS_ED25519).ok().map(|k| k.serialize_pem())
}

/// What `rcgen::CertificateSigningRequestParams::from_pem` reads back from a
/// PEM certificate request whose subject is one common name: that common
/// name's text and the raw subject public key.
pub uninterp spec fn csr_identity(csr_pem: Seq<char>) -> Option<(Seq<char>, Seq<u8>)>;

/// Reads `key_pem` with `rcgen::KeyPair::from_pem`, sets the distinguished
/// name to the single common name `common_name` on parameters with no
/// alternative names, and writes `CertificateParams::serialize_request` as
/// PEM.
///
/// Trusted. `serialize_request` writes the parameters' distinguished name as
/// the subject and the key's public key as the subject public key, so a
/// request that comes out names `common_name` and carries the key's public
/// key, as [`csr_identity`] reads it back. The rest of the text is not
/// claimed: rcgen documents that two calls do not give the same request. A
/// key that does not parse gives `None`; otherwise `None` says one of the
/// later steps failed, which for an Ed25519 key cannot happen: parameters
/// with no alternative names build, a request with the defaults has nothing
/// `serialize_request` refuses, an Ed25519 signature takes no randomness and
/// cannot fail, and PEM encoding cannot fail.
#[verifier::external_body]
fn request_pem(common_name: &str, key_pem: &str) -> (r: Option<String>)
    ensures
        public_key_raw_of(key_pem@) is None ==> r is None,
        key_is_ed25519(key_pem@) ==> r is Some,
        r matches Some(t) ==> (public_key_raw_of(key_pem@) matches Some(k)
            && csr_identity(t@) == Some((common_name@, k))),
{
    let key = rcgen::KeyPair::from_pem(key_pem).ok()?;
    let mut params = rcgen::CertificateParams::new(Vec::<String>::new()).ok()?;
    let mut dn = rcgen::DistinguishedName::new();
    dn.push(rcgen::DnType::CommonName, common_name.to_owned());
    params.distinguished_name = dn;
    params.serialize_request(&key).ok()?.pem().ok()
}

/// A keypair and a request naming one account.
#[derive(Debug, Clone)]
pub struct KeyMaterial {
    /// The private key, PKCS#8 PEM. It never leaves the host that made it.
    pub key_pem: String,
    /// The certificate request, PEM.
    pub csr_pem: String,
    /// The key was generated by this call rather than reused.
    pub generated: bool,
}

/// Why no request could be made.
#[derive(Debug, Clone, Copy, PartialEq, Eq, Structural)]
pub enum KeyError {
    /// A new keypair could not be generated.
    Generation,
    /// The request could not be built or signed with the key.
    Request,
}

/// A request whose subject is `common_name`, signed with the key already
/// held when there is one, and with a freshly generated one otherwise.
pub fn identity_request(common_name: &str, existing_key: Option<&str>) -> (r: Result<KeyMaterial, KeyError>)
    ensures
        match existing_key {
            Some(k) => match r {
                Ok(m) => m.key_pem@ == k@ && !m.generated,
                Err(e) => e == KeyError::Request,
            },
            None => match r {
                Ok(m) => m.generated,
                Err(_) => true,
            },
        },
        existing_key matches Some(k) && public_key_raw_of(k@) is None ==> r == Err::<KeyMaterial, KeyError>(
            KeyError::Request),
        r matches Ok(m) ==> (public_key_raw_of(m.key_pem@) matches Some(p)
            && csr_identity(m.csr_pem@) == Some((common_name@, p))),
        existing_key matches Some(k) && key_is_ed25519(k@) ==> r is Ok,
        existing_key is None ==> (r is Err ==> r == Err::<KeyMaterial, KeyError>(KeyError::Generation)),
        r matches Ok(m) ==> (m.generated ==> key_is_ed25519(m.key_pem@)),
{
    let (key_pem, generated) = match existing_key {
        Some(k) => (k.to_owned(), false),
        None => match generate_key_pem() {
            Some(k) => (k, true),
            None => return Err(KeyError::Generation),
        },
    };
    match request_pem(common_name, key_pem.as_str()) {
        Some(csr_pem) => Ok(KeyMaterial { key_pem, csr_pem, generated }),
        None => Err(KeyError::Request),
    }
}

/// The raw public key `rcgen` reads from a PEM private key, when the key
/// parses.
pub uninterp spec fn public_key_raw_of(key_pem: Seq<char>) -> Option<Seq<u8>>;

/// Reads `key_pem` with `rcgen::KeyPair::from_pem` and copies out
/// `KeyPair::public_key_raw`.
///
/// Trusted: the bytes are named [`public_key_raw_of`], a function of the
/// text alone; `None` exactly when the key does not parse, which an Ed25519
/// key does.
#[verifier::external_body]
fn public_key_raw(key_pem: &str) -> (r: Option<Vec<u8>>)
    ensures
        key_is_ed25519(key_pem@) ==> r is Some,
        match r {
            Some(v) => public_key_raw_of(key_pem@) == Some(v@),
            None => public_key_raw_of(key_pem@) is None,
        },
{
    rcgen::KeyPair::from_pem(key_pem).ok().map(|k| k.public_key_raw().to_vec())
}

/// `needle` occurs in `hay` starting at `k`.
pub open spec fn bytes_at(hay: Seq<u8>, needle: Seq<u8>, k: int) -> bool {
    0 <= k && k + needle.len() <= hay.len() && hay.subrange(k, k + needle.len()) == needle
}

/// `needle` occurs somewhere in `hay`.
pub open spec fn bytes_occur(hay: Seq<u8>, needle: Seq<u8>) -> bool {
    exists|k: int| bytes_at(hay, needle, k)
}

/// Some certificate of the list carries this non-empty public key.
pub open spec fn spec_carries_key(certs: Option<Seq<Seq<u8>>>, key: Option<Seq<u8>>) -> bool {
    match certs {
        Some(c) => match key {
            Some(k) => k.len() > 0 && carried_by(c, k),
            None => false,
        },
        None => false,
    }
}

/// Some certificate of the list carries the key.
pub open spec fn carried_by(certs: Seq<Seq<u8>>, key: Seq<u8>) -> bool {
    exists|i: int| 0 <= i < certs.len() && bytes_occur(#[trigger] certs[i], key)
}

/// Whether `needle` occurs in `hay`.
fn occurs_in_bytes(hay: &[u8], needle: &[u8]) -> (r: bool)
    ensures
        r == bytes_occur(hay@, needle@),
{
    if needle.len() > hay.len() {
        assert forall|k: int| !bytes_at(hay@, needle@, k) by {}
        return false;
    }
    let last = hay.len() - needle.len();
    let mut k: usize = 0;
    while k <= last
        invariant
            needle.len() <= hay.len(),
            last == hay.len() - needle.len(),
            k <= last + 1,
            forall|j: int| 0 <= j < k ==> !bytes_at(hay@, needle@, j),
        decreases last + 1 - k,
    {
        let mut m: usize = 0;
        while m < needle.len() && hay[k + m] == needle[m]
            invariant
                k + needle.len() <= hay.len(),
                m <= needle.len(),
                forall|t: int| 0 <= t < m ==> hay@[k + t] == needle@[t],
            decreases needle.len() - m,
        {
            m = m + 1;
        }
        if m == needle.len() {
            assert(hay@.subrange(k as int, k + needle@.len()) =~= needle@);
            assert(bytes_at(hay@, needle@, k as int));
            return true;
        }
        assert(!bytes_at(hay@, needle@, k as int)) by {
            if bytes_at(hay@, needle@, k as int) {
                assert(hay@.subrange(k as int, k + needle@.len())[m as int] == needle@[m as int]);
            }
        }
        k = k + 1;
    }
    assert forall|j: int| !bytes_at(hay@, needle@, j) by {
        if 0 <= j && j < k {
        }
    }
    false
}

/// Whether a certificate is one issued for this key: some certificate of
/// the PEM text carries the key's raw public key (for an Ed25519 key, the
/// 32 bytes of its subject public key). A certificate is bound to one public
/// key, so one issued for an earlier key must not be reused with this one.
pub fn carries_public_key(cert_pem: &[u8], key_pem: &str) -> (r: bool)
    ensures
        r == spec_carries_key(pem_certificates(cert_pem@), public_key_raw_of(key_pem@)),
{
    let key = match public_key_raw(key_pem) {
        Some(k) => k,
        None => return false,
    };
    let certs = match parse_certificates(cert_pem) {
        Some(c) => c,
        None => return false,
    };
    if key.len() == 0 {
        return false;
    }
    let ghost c = certs.deep_view();
    assert(pem_certificates(cert_pem@) == Some(c));
    assert(public_key_raw_of(key_pem@) == Some(key@));
    let mut i: usize = 0;
    while i < certs.len()
        invariant
            c == certs.deep_view(),
            key@.len() > 0,
            pem_certificates(cert_pem@) == Some(c),
            public_key_raw_of(key_pem@) == Some(key@),
            i <= certs.len(),
            forall|j: int| 0 <= j < i ==> !bytes_occur(#[trigger] c[j], key@),
        decreases certs.len() - i,
    {
        if occurs_in_bytes(certs[i].as_slice(), key.as_slice()) {
            assert(c[i as int] == certs@[i as int]@);
            assert(bytes_occur(c[i as int], key@));
            assert(carried_by(c, key@));
            return true;
        }
        assert(c[i as int] == certs@[i as int]@);
        i = i + 1;
    }
    false
}

} // verus!
