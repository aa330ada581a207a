//! Local secrets, kept apart from ordinary configuration: their kinds, where
//! each is filed, and which secrets a configuration carries.

use vstd::prelude::*;

use crate::named::NamedValues;

verus! {

#[derive(Debug, Clone, Copy, PartialEq, Eq, Structural)]
pub enum SecretKind {
    ApiCredential,
    ProviderSession,
    Configuration,
    RuntimeState,
}

/// A stored secret blob.
#[derive(Debug)]
pub struct StoredSecret {
    pub kind: SecretKind,
    pub name: String,
    pub value: String,
}

/// The directory of each kind of secret.
pub open spec fn kind_dir_spec(kind: SecretKind) -> Seq<char> {
    match kind {
        SecretKind::ApiCredential => "api-credentials"@,
        SecretKind::ProviderSession => "provider-sessions"@,
        SecretKind::Configuration => "configuration"@,
        SecretKind::RuntimeState => "runtime-state"@,
    }
}

pub fn kind_dir(kind: SecretKind) -> (r: &'static str)
    ensures
        r@ == kind_dir_spec(kind),
{
    match kind {
        SecretKind::ApiCredential => "api-credentials",
        SecretKind::ProviderSession => "provider-sessions",
        SecretKind::Configuration => "configuration",
        SecretKind::RuntimeState => "runtime-state",
    }
}

/// The SHA-256 digest `sha2::Sha256` computes for `data`.
pub uninterp spec fn sha256_of(data: Seq<u8>) -> Seq<u8>;

/// Hashes `data` with `sha2::Sha256`. The claim: the digest is the named
/// function of the bytes, and it is 32 bytes long.
#[verifier::external_body]
fn sha256(data: &[u8]) -> (r: Vec<u8>)
    ensures
        r@ == sha256_of(data@),
        r@.len() == 32,
{
    <sha2::Sha256 as sha2::Digest>::digest(data).to_vec()
}

/// The lower-case hexadecimal digit of `n` (below 16).
pub open spec fn hex_digit(n: int) -> char {
    if n < 10 {
        (48 + n) as char
    } else {
        (87 + n) as char
    }
}

/// Each byte as two lower-case hexadecimal digits, high half first.
pub open spec fn hex_text(b: Seq<u8>) -> Seq<char>
    decreases b.len(),
{
    if b.len() == 0 {
        Seq::empty()
    } else {
        hex_text(b.drop_last()) + seq![hex_digit((b.last() / 16) as int), hex_digit((b.last() % 16) as int)]
    }
}

/// The hexadecimal digit character for `n` (below 16).
fn hex_char(n: u8) -> (c: char)
    requires
        n < 16,
    ensures
        c == hex_digit(n as int),
{
    if n < 10 {
        (48 + n) as char
    } else {
        (87 + n) as char
    }
}

/// Encodes bytes as `hex::encode` does: each byte as two lower-case
/// hexadecimal digits, high half first.
fn hex_encode(bytes: &[u8]) -> (r: String)
    ensures
        r@ == hex_text(bytes@),
{
    let mut out = String::new();
    let mut i: usize = 0;
    while i < bytes.len()
        invariant
            i <= bytes@.len(),
            out@ == hex_text(bytes@.take(i as int)),
        decreases bytes.len() - i,
    {
        let b = bytes[i];
        proof {
            let t = bytes@.take(i + 1);
            assert(t.drop_last() =~= bytes@.take(i as int));
            assert(t.last() == b);
        }
        crate::text::push_char(&mut out, hex_char(b / 16));
        crate::text::push_char(&mut out, hex_char(b % 16));
        proof {
            assert(out@ =~= hex_text(bytes@.take(i as int)) + seq![hex_digit((b / 16) as int), hex_digit((b % 16) as int)]);
        }
        i = i + 1;
    }
    assert(bytes@.take(bytes@.len() as int) =~= bytes@);
    out
}

/// The file name of secret `name`: the hexadecimal SHA-256 digest of the
/// name's UTF-8 bytes, then `.secret`.
pub open spec fn secret_file_spec(name: Seq<char>) -> Seq<char> {
    hex_text(sha256_of(vstd::utf8::encode_utf8(name))) + ".secret"@
}

/// Where a secret is filed below the store's root: the directory of its
/// kind, and its file name.
pub fn secret_location(kind: SecretKind, name: &str) -> (r: (&'static str, String))
    ensures
        r.0@ == kind_dir_spec(kind),
        r.1@ == secret_file_spec(name@),
{
    let digest = sha256(name.as_bytes());
    let mut file = hex_encode(digest.as_slice());
    file.append(".secret");
    (kind_dir(kind), file)
}

/// The secrets a configuration carries: the API key as an API credential
/// named `api_key`, then each extra value as a configuration secret under
/// its own name, in name order.
pub open spec fn config_secrets(api_key: Option<Seq<char>>, extra: Seq<(Seq<char>, Seq<char>)>) -> Seq<
    (SecretKind, Seq<char>, Seq<char>),
> {
    let key: Seq<(SecretKind, Seq<char>, Seq<char>)> = match api_key {
        Some(k) => seq![(SecretKind::ApiCredential, "api_key"@, k)],
        None => Seq::empty(),
    };
    key + extra.map_values(|e: (Seq<char>, Seq<char>)| (SecretKind::Configuration, e.0, e.1))
}

/// The views of secrets.
pub open spec fn secret_views(s: Seq<StoredSecret>) -> Seq<(SecretKind, Seq<char>, Seq<char>)> {
    s.map_values(|x: StoredSecret| (x.kind, x.name@, x.value@))
}

/// Local secret store; reading and writing its files is the caller's.
pub struct SecretStore;

impl SecretStore {
    /// Split the secrets out of a configuration (see `config_secrets`).
    pub fn split_from_config(api_key: Option<&str>, extra: &NamedValues) -> (r: Vec<StoredSecret>)
        ensures
            secret_views(r@) == config_secrets(
                match api_key {
                    Some(k) => Some(k@),
                    None => None,
                },
                extra.pairs(),
            ),
            crate::named::names_sorted(extra.pairs()),
    {
        let mut out: Vec<StoredSecret> = Vec::new();
        if let Some(key) = api_key {
            out.push(
                StoredSecret {
                    kind: SecretKind::ApiCredential,
                    name: String::from_str("api_key"),
                    value: String::from_str(key),
                },
            );
        }
        let ghost head = secret_views(out@);
        let entries = extra.entries();
        let mut i: usize = 0;
        while i < entries.len()
            invariant
                crate::named::pair_views(entries@) == extra.pairs(),
                i <= entries@.len(),
                secret_views(out@) == head + extra.pairs().take(i as int).map_values(
                    |e: (Seq<char>, Seq<char>)| (SecretKind::Configuration, e.0, e.1),
                ),
            decreases entries.len() - i,
        {
            let ghost before = secret_views(out@);
            out.push(
                StoredSecret {
                    kind: SecretKind::Configuration,
                    name: entries[i].0.clone(),
                    value: entries[i].1.clone(),
                },
            );
            proof {
                let f = |e: (Seq<char>, Seq<char>)| (SecretKind::Configuration, e.0, e.1);
                assert(extra.pairs()[i as int] == (entries@[i as int].0@, entries@[i as int].1@));
                assert(extra.pairs().take(i + 1).map_values(f) =~= extra.pairs().take(i as int).map_values(
                    f,
                ).push(f(extra.pairs()[i as int])));
                assert(secret_views(out@) =~= before.push(f(extra.pairs()[i as int])));
            }
            i = i + 1;
        }
        proof {
            assert(extra.pairs().take(i as int) =~= extra.pairs());
            assert(secret_views(out@) =~= config_secrets(
                match api_key {
                    Some(k) => Some(k@),
                    None => None,
                },
                extra.pairs(),
            ));
        }
        out
    }
}

} // verus!
