//! One-way hashing of token secrets, keyed with the server-wide secret key.

use vstd::prelude::*;
use vstd::utf8::encode_utf8;

use crate::error::AuthError;
use crate::random::random_alphanumeric;

verus! {

#[verifier::external_type_specification]
#[verifier::external_body]
pub struct ExArgon2Error(argon2::Error);

/// The encoded Argon2 digest of `pwd` with `salt`, keyed with `secret`.
pub uninterp spec fn argon2_encoding(pwd: Seq<char>, salt: Seq<char>, secret: Seq<char>) -> Seq<
    char,
>;

/// Whether `pwd`, keyed with `secret`, matches the encoded digest; `None`
/// where the digest cannot be decoded or its parameters are refused.
pub uninterp spec fn argon2_verdict(encoded: Seq<char>, pwd: Seq<char>, secret: Seq<char>) -> Option<
    bool,
>;

/// The length of the UTF-8 encoding of `s`.
pub open spec fn byte_len(s: Seq<char>) -> nat {
    encode_utf8(s).len()
}

/// Whether Argon2 with its default parameters accepts these inputs: a salt of
/// at least 8 bytes, and no input longer than `u32::MAX` bytes.
pub open spec fn argon2_accepts(pwd: Seq<char>, salt: Seq<char>, secret: Seq<char>) -> bool {
    &&& 8 <= byte_len(salt) <= u32::MAX
    &&& byte_len(pwd) <= u32::MAX
    &&& byte_len(secret) <= u32::MAX
}

/// Relies on `argon2::hash_encoded` with the default configuration and
/// `secret` as its key: it fails exactly where the lengths are out of range;
/// otherwise the digest depends on its inputs alone and
/// `argon2::verify_encoded_ext` accepts the same password and key against it.
#[verifier::external_body]
fn hash_encoded(pwd: &str, salt: &str, secret: &str) -> (r: Result<String, argon2::Error>)
    ensures
        r is Ok <==> argon2_accepts(pwd@, salt@, secret@),
        r matches Ok(d) ==> d@ == argon2_encoding(pwd@, salt@, secret@) && argon2_verdict(
            d@,
            pwd@,
            secret@,
        ) == Some(true),
{
    let config = argon2::Config { secret: secret.as_bytes(), ..argon2::Config::default() };
    argon2::hash_encoded(pwd.as_bytes(), salt.as_bytes(), &config)
}

/// Relies on `argon2::verify_encoded_ext` with `secret` as key and no
/// associated data: its answer depends on its inputs alone.
#[verifier::external_body]
fn verify_encoded(encoded: &str, pwd: &str, secret: &str) -> (r: Result<bool, argon2::Error>)
    ensures
        r is Ok <==> argon2_verdict(encoded@, pwd@, secret@) is Some,
        r matches Ok(b) ==> argon2_verdict(encoded@, pwd@, secret@) == Some(b),
{
    argon2::verify_encoded_ext(encoded, pwd.as_bytes(), secret.as_bytes(), &[])
}

/// Hashes and checks secrets with a memory-hard function keyed with the
/// deployment's secret key, so that stored digests are of no use without it.
pub struct SecretHasher {
    pub key: String,
}

/// The length of the random salt drawn for each digest.
pub const SALT_LEN: usize = 16;

impl SecretHasher {
    pub fn new(key: String) -> (r: SecretHasher)
        ensures
            r.key == key,
    {
        SecretHasher { key }
    }

    /// The digest of `value` with the given salt. Fails, as an internal
    /// error, only where Argon2 refuses the lengths of its inputs.
    pub fn make_with_salt(&self, value: &str, salt: &str) -> (r: Result<String, AuthError>)
        ensures
            r is Ok <==> argon2_accepts(value@, salt@, self.key@),
            r matches Ok(d) ==> d@ == argon2_encoding(value@, salt@, self.key@) && argon2_verdict(
                d@,
                value@,
                self.key@,
            ) == Some(true),
            r matches Err(e) ==> e == AuthError::HashingFault,
    {
        match hash_encoded(value, salt, self.key.as_str()) {
            Ok(d) => Ok(d),
            Err(_) => Err(AuthError::HashingFault),
        }
    }

    /// The digest of `value` with a freshly drawn random salt.
    pub fn make(&self, value: &str) -> (r: Result<String, AuthError>)
        ensures
            r matches Ok(d) ==> argon2_verdict(d@, value@, self.key@) == Some(true),
            r matches Err(e) ==> e == AuthError::HashingFault,
            (byte_len(value@) <= u32::MAX && byte_len(self.key@) <= u32::MAX) ==> r is Ok,
    {
        let salt = random_alphanumeric(SALT_LEN);
        proof {
            lemma_ascii_byte_len(salt@);
        }
        self.make_with_salt(value, salt.as_str())
    }

    /// Whether `value` is the secret that `digest` was made from. A digest
    /// that cannot be read is an internal error, never a plain mismatch.
    pub fn check(&self, digest: &str, value: &str) -> (r: Result<bool, AuthError>)
        ensures
            r is Ok <==> argon2_verdict(digest@, value@, self.key@) is Some,
            r matches Ok(b) ==> argon2_verdict(digest@, value@, self.key@) == Some(b),
            r matches Err(e) ==> e == AuthError::HashingFault,
    {
        match verify_encoded(digest, value, self.key.as_str()) {
            Ok(b) => Ok(b),
            Err(_) => Err(AuthError::HashingFault),
        }
    }
}

/// A string of ASCII letters and digits takes one byte per character.
pub proof fn lemma_ascii_byte_len(s: Seq<char>)
    requires
        forall|i: int| 0 <= i < s.len() ==> crate::random::is_alphanumeric(#[trigger] s[i]),
    ensures
        byte_len(s) == s.len(),
{
    assert(vstd::utf8::is_ascii_chars(s)) by {
        assert forall|i: int| 0 <= i < s.len() implies '\0' <= #[trigger] s[i] <= '\u{7f}' by {
            assert(crate::random::is_alphanumeric(s[i]));
        }
    }
    vstd::utf8::is_ascii_chars_encode_utf8(s);
}

} // verus!
