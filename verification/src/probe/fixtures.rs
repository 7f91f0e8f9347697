//! A smoke fixture's identity: the account it names, the tenant that issued
//! it, and the material it presents.
//!
//! A fixture is only usable when its certificate and private key are a
//! matching pair and the certificate is chained to the CA that signed it.

use vstd::prelude::*;
use vstd::string::*;

use crate::text::{after_last, chars_of, chars_sorted, concat3, lemma_after_last_at, sort_strings, str_eq};

verus! {

/// `POST /api/v1/auth/device` response.
#[derive(Debug, Clone)]
pub struct DeviceAuth {
    pub access_token: String,
    pub token_type: String,
    pub expires_in: Option<i64>,
}

/// One fixture's on-disk identity.
#[derive(Debug, Clone)]
pub struct Fixture {
    pub sa_id: String,
    pub tenant: String,
    /// Leaf first, then the issuing tenant's signing CA. Without the
    /// intermediate, neither AXIAM nor the broker can anchor the leaf.
    pub chain: Vec<u8>,
    pub key: Vec<u8>,
}

/// Two PEM blocks, one after the other, a newline between them.
pub open spec fn spec_stacked(first: Seq<u8>, second: Seq<u8>) -> Seq<u8> {
    first + seq![10u8] + second
}

/// Two PEM blocks, one after the other, a newline between them.
pub fn stacked(first: &[u8], second: &[u8]) -> (r: Vec<u8>)
    ensures
        r@ == spec_stacked(first@, second@),
{
    let mut r: Vec<u8> = Vec::new();
    let mut i: usize = 0;
    while i < first.len()
        invariant
            i <= first.len(),
            r@ == first@.take(i as int),
        decreases first.len() - i,
    {
        r.push(first[i]);
        i = i + 1;
        assert(r@ =~= first@.take(i as int));
    }
    r.push(10u8);
    let mut j: usize = 0;
    while j < second.len()
        invariant
            j <= second.len(),
            r@ == first@ + seq![10u8] + second@.take(j as int),
        decreases second.len() - j,
    {
        r.push(second[j]);
        j = j + 1;
        assert(r@ =~= first@ + seq![10u8] + second@.take(j as int));
    }
    assert(second@.take(second.len() as int) =~= second@);
    assert(first@.take(first.len() as int) =~= first@);
    r
}

impl Fixture {
    /// Assemble a fixture from what the secrets tree holds for it: the
    /// issued leaf is chained to its tenant's signing CA.
    pub fn assemble(sa_id: String, tenant: String, leaf: &[u8], key: Vec<u8>, ca: &[u8]) -> (r: Fixture)
        ensures
            r.sa_id == sa_id,
            r.tenant == tenant,
            r.chain@ == spec_stacked(leaf@, ca@),
            r.key == key,
    {
        Fixture { sa_id, tenant, chain: stacked(leaf, ca), key }
    }

    /// The mTLS identity a device login presents: the chain, then the key.
    pub fn identity_pem(&self) -> (r: Vec<u8>)
        ensures
            r@ == spec_stacked(self.chain@, self.key@),
    {
        stacked(self.chain.as_slice(), self.key.as_slice())
    }
}

/// Where each part of a fixture is kept in the secrets tree.
pub fn fixture_path(name: &str, extension: &str) -> (r: String)
    ensures
        r@ == "smoke/"@ + name@ + "."@ + extension@,
{
    let mut r = concat3("smoke/", name, ".");
    r.append(extension);
    r
}

/// Where a tenant's signing CA is kept in the secrets tree.
pub fn tenant_ca_path(tenant: &str) -> (r: String)
    ensures
        r@ == "axiam/"@ + tenant@ + "-ca.pem"@,
{
    concat3("axiam/", tenant, "-ca.pem")
}

/// Why a device login's answer was refused.
#[derive(Debug, Clone, Copy, PartialEq, Eq, Structural)]
pub enum LoginRefusal {
    /// The login did not answer 200; the status is kept.
    Status(u16),
    /// The token type is not `Bearer`.
    UnexpectedTokenType,
    /// The access token is empty.
    EmptyToken,
}

/// Accept the token of a device login that answered 200 with a non-empty
/// bearer token, and nothing else.
pub fn accept_device_token(status: u16, auth: &DeviceAuth) -> (r: Result<String, LoginRefusal>)
    ensures
        status != 200 ==> r == Err::<String, LoginRefusal>(LoginRefusal::Status(status)),
        status == 200 && auth.token_type@ != "Bearer"@ ==> r == Err::<String, LoginRefusal>(LoginRefusal::UnexpectedTokenType),
        status == 200 && auth.token_type@ == "Bearer"@ && auth.access_token@.len() == 0
            ==> r == Err::<String, LoginRefusal>(LoginRefusal::EmptyToken),
        status == 200 && auth.token_type@ == "Bearer"@ && auth.access_token@.len() > 0
            ==> (r matches Ok(t) && t@ == auth.access_token@),
{
    if status != 200 {
        return Err(LoginRefusal::Status(status));
    }
    if !str_eq(auth.token_type.as_str(), "Bearer") {
        return Err(LoginRefusal::UnexpectedTokenType);
    }
    if auth.access_token.as_str().unicode_len() == 0 {
        return Err(LoginRefusal::EmptyToken);
    }
    Ok(auth.access_token.clone())
}

/// Whether the keypair and request on disk can be reused: both exist, and
/// they were generated for this very account. A new account gets a new key,
/// because a certificate bound to the old key would be an mTLS identity whose
/// halves disagree.
pub fn keypair_is_current(key_exists: bool, csr_exists: bool, generated_for: Option<&str>, sa_id: &str) -> (r: bool)
    ensures
        r == (key_exists && csr_exists && match generated_for {
            Some(f) => f@ == sa_id@,
            None => false,
        }),
{
    key_exists && csr_exists && match generated_for {
        Some(f) => str_eq(f, sa_id),
        None => false,
    }
}

/// The file stem of a file whose extension is `sa-id`: the text before its
/// last `.`, when that is not empty and the text after it is `sa-id`.
pub open spec fn spec_fixture_stem(file_name: Seq<char>) -> Option<Seq<char>> {
    let ext = after_last(file_name, '.');
    let stem = file_name.take(file_name.len() - ext.len() - 1);
    if file_name.contains('.') && stem.len() > 0 && ext == "sa-id"@ {
        Some(stem)
    } else {
        None
    }
}

/// The fixture a published account-id file belongs to, read from its name.
pub fn fixture_stem(file_name: &str) -> (r: Option<String>)
    ensures
        match spec_fixture_stem(file_name@) {
            Some(s) => r matches Some(x) && x@ == s,
            None => r is None,
        },
{
    let v = chars_of(file_name);
    let n = v.len();
    let mut a: usize = n;
    while a > 0 && v[a - 1] != '.'
        invariant
            v@ == file_name@,
            n == v.len(),
            a <= n,
            forall|k: int| a <= k < n ==> v@[k] != '.',
        decreases a,
    {
        a = a - 1;
    }
    if a == 0 {
        assert(!file_name@.contains('.')) by {
            if file_name@.contains('.') {
                let k = choose|k: int| 0 <= k < file_name@.len() && file_name@[k] == '.';
                assert(v@[k] != '.');
            }
        }
        return None;
    }
    proof {
        assert(file_name@[a - 1] == '.');
        lemma_after_last_at(file_name@, '.', a as int);
    }
    let ext = file_name.substring_char(a, n);
    let stem = file_name.substring_char(0, a - 1);
    proof {
        assert(ext@ =~= after_last(file_name@, '.'));
        assert(stem@ =~= file_name@.take(file_name@.len() - after_last(file_name@, '.').len() - 1));
    }
    if a - 1 > 0 && str_eq(ext, "sa-id") {
        Some(stem.to_owned())
    } else {
        None
    }
}

/// The fixtures a directory listing names, in listing order: the stem of
/// every account-id file.
pub open spec fn spec_fixture_stems(names: Seq<Seq<char>>) -> Seq<Seq<char>>
    decreases names.len(),
{
    if names.len() == 0 {
        Seq::empty()
    } else {
        match spec_fixture_stem(names.last()) {
            Some(s) => spec_fixture_stems(names.drop_last()).push(s),
            None => spec_fixture_stems(names.drop_last()),
        }
    }
}

/// The fixtures whose account ids the bootstrap published, from the names of
/// the files in the fixture directory, sorted.
pub fn fixture_names(file_names: &[String]) -> (r: Vec<String>)
    ensures
        chars_sorted(r.deep_view()),
        r.deep_view().to_multiset() == spec_fixture_stems(file_names.deep_view()).to_multiset(),
{
    let mut stems: Vec<String> = Vec::new();
    let mut i: usize = 0;
    while i < file_names.len()
        invariant
            i <= file_names.len(),
            stems.deep_view() == spec_fixture_stems(file_names.deep_view().take(i as int)),
        decreases file_names.len() - i,
    {
        proof {
            assert(file_names.deep_view().take(i + 1).drop_last() =~= file_names.deep_view().take(i as int));
            assert(file_names.deep_view().take(i + 1).last() == file_names[i as int]@);
        }
        match fixture_stem(file_names[i].as_str()) {
            Some(s) => {
                stems.push(s);
                proof {
                    assert(stems.deep_view() =~= spec_fixture_stems(file_names.deep_view().take(i + 1)));
                }
            },
            None => {},
        }
        i = i + 1;
    }
    assert(file_names.deep_view().take(file_names.len() as int) =~= file_names.deep_view());
    sort_strings(stems)
}

} // verus!
