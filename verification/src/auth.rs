//! Admin authentication: password hashes, session tokens (only their hashes
//! are stored), bearer tokens, and the failed-login policy.

use vstd::prelude::*;
use vstd::string::*;
use crate::text::chars_of;
use sha2::Digest;
use rand::RngCore;
use argon2::PasswordHasher;
use argon2::PasswordVerifier;

verus! {

broadcast use vstd::string::group_string_axioms;

/// Failed logins within the window that get an IP address blacklisted.
pub const MAX_FAILED_ATTEMPTS: i64 = 3;

/// Lifetime of an admin session, in hours.
pub const SESSION_DURATION_HOURS: i64 = 24;

/// Window over which failed logins are counted, in minutes.
pub const FAILED_ATTEMPTS_WINDOW_MINUTES: i64 = 15;

/// Error answered to an unauthenticated admin request.
#[derive(Debug)]
pub struct AuthError {
    pub error: String,
}

/// Admin login request.
#[derive(Debug)]
pub struct LoginRequest {
    pub password: String,
}

/// Admin login answer: the session token and when it expires.
#[derive(Debug)]
pub struct LoginResponse {
    pub token: String,
    pub expires_at: String,
}

/// The lowercase hexadecimal digit of `v` (0 to 15).
pub open spec fn hex_digit(v: int) -> char {
    if v < 10 {
        (48 + v) as char
    } else {
        (87 + v) as char
    }
}

/// Lowercase hexadecimal text of `b`: two digits per byte, high nibble first.
pub open spec fn hex_text(b: Seq<u8>) -> Seq<char>
    decreases b.len(),
{
    if b.len() == 0 {
        Seq::empty()
    } else {
        hex_text(b.drop_last()) + seq![hex_digit(b.last() as int / 16), hex_digit(b.last() as int % 16)]
    }
}

pub proof fn lemma_hex_text_len(b: Seq<u8>)
    ensures
        hex_text(b).len() == 2 * b.len(),
    decreases b.len(),
{
    if b.len() > 0 {
        lemma_hex_text_len(b.drop_last());
    }
}

/// The SHA-256 digest of `data`.
pub uninterp spec fn sha256_digest(data: Seq<u8>) -> Seq<u8>;

/// Whether `password` matches the Argon2 PHC hash string `phc` (false when
/// `phc` is not a valid hash string).
pub uninterp spec fn argon2_verifies(password: Seq<u8>, phc: Seq<char>) -> bool;

/// `hex::encode`: lowercase hexadecimal text of the bytes.
#[verifier::external_body]
fn hex_encode(bytes: &[u8]) -> (s: String)
    ensures
        s@ == hex_text(bytes@),
{
    hex::encode(bytes)
}

/// `Sha256` digest of the bytes.
#[verifier::external_body]
fn sha256(data: &[u8]) -> (d: [u8; 32])
    ensures
        d@ == sha256_digest(data@),
{
    let mut hasher = sha2::Sha256::new();
    hasher.update(data);
    hasher.finalize().into()
}

/// 64 bytes from the thread-local random generator (`fill_bytes`); nothing
/// is stated of their values.
#[verifier::external_body]
fn random_64_bytes() -> (b: [u8; 64]) {
    let mut bytes = [0u8; 64];
    rand::thread_rng().fill_bytes(&mut bytes);
    bytes
}

/// Parse `phc` as a password hash string and check `password` against it
/// with the default Argon2 configuration (`PasswordHash::new`, then
/// `verify_password`); false when either fails.
#[verifier::external_body]
fn argon2_verify(password: &str, phc: &str) -> (ok: bool)
    ensures
        ok == argon2_verifies(password.spec_bytes(), phc@),
{
    match argon2::PasswordHash::new(phc) {
        Ok(parsed) => argon2::Argon2::default().verify_password(password.as_bytes(), &parsed).is_ok(),
        Err(_) => false,
    }
}

#[verifier::external_type_specification]
#[verifier::external_body]
pub struct ExPasswordHashError(argon2::password_hash::Error);

/// Hash `password` with the default Argon2 configuration and a fresh random
/// salt (`SaltString::generate`, `hash_password`), as a PHC string. The
/// salt is random, so only this is stated: a hash that is returned verifies
/// the same password.
#[verifier::external_body]
fn argon2_hash(password: &str) -> (r: Result<String, argon2::password_hash::Error>)
    ensures
        r matches Ok(h) ==> argon2_verifies(password.spec_bytes(), h@),
{
    let salt = argon2::password_hash::SaltString::generate(&mut rand::rngs::OsRng);
    match argon2::Argon2::default().hash_password(password.as_bytes(), &salt) {
        Ok(h) => Ok(h.to_string()),
        Err(e) => Err(e),
    }
}

/// Why hashing a password failed.
#[derive(Debug)]
pub enum PasswordHashError {
    /// The hashing library refused the input or its parameters.
    Hashing,
}

/// Whether `password` matches the stored Argon2 hash.
pub fn verify_password(password: &str, password_hash: &str) -> (ok: bool)
    ensures
        ok == argon2_verifies(password.spec_bytes(), password_hash@),
{
    argon2_verify(password, password_hash)
}

/// An Argon2 hash of `password` with a fresh random salt.
pub fn hash_password(password: &str) -> (r: Result<String, PasswordHashError>)
    ensures
        r matches Ok(h) ==> argon2_verifies(password.spec_bytes(), h@),
{
    match argon2_hash(password) {
        Ok(h) => Ok(h),
        Err(_) => Err(PasswordHashError::Hashing),
    }
}

/// A new session token: 64 random bytes in hexadecimal (128 characters).
pub fn generate_session_token() -> (t: String)
    ensures
        t@.len() == 128,
        exists|b: Seq<u8>| b.len() == 64 && t@ == hex_text(b),
{
    let bytes = random_64_bytes();
    let t = hex_encode(&bytes);
    proof {
        lemma_hex_text_len(bytes@);
    }
    t
}

/// The stored form of a session token: its SHA-256 digest in hexadecimal
/// (64 characters).
pub fn hash_token(token: &str) -> (h: String)
    ensures
        h@ == hex_text(sha256_digest(token.spec_bytes())),
        h@.len() == 64,
{
    let digest = sha256(token.as_bytes());
    let h = hex_encode(&digest);
    proof {
        lemma_hex_text_len(digest@);
    }
    h
}

/// The token of an `Authorization` header value: what follows `Bearer `.
pub open spec fn bearer_token(value: Seq<char>) -> Option<Seq<char>> {
    if value.len() >= 7 && value.subrange(0, 7) == "Bearer "@ {
        Some(value.subrange(7, value.len() as int))
    } else {
        None
    }
}

/// The bearer token of an `Authorization` header, if present and well formed.
pub fn extract_bearer_token(authorization: Option<&str>) -> (r: Option<String>)
    ensures
        authorization is None ==> r is None,
        authorization matches Some(v) ==> match bearer_token(v@) {
            Some(t) => r matches Some(s) && s@ == t,
            None => r is None,
        },
{
    let value = match authorization {
        Some(v) => v,
        None => return None,
    };
    let chars = chars_of(value);
    let prefix = chars_of("Bearer ");
    proof {
        reveal_strlit("Bearer ");
    }
    if chars.len() < 7 {
        return None;
    }
    let mut i: usize = 0;
    while i < 7
        invariant
            i <= 7,
            chars@ == value@,
            authorization == Some(value),
            chars@.len() >= 7,
            prefix@ == "Bearer "@,
            prefix@.len() == 7,
            forall|t: int| 0 <= t < i ==> chars@[t] == prefix@[t],
        decreases 7 - i,
    {
        if chars[i] != prefix[i] {
            proof {
                assert(chars@.subrange(0, 7)[i as int] != prefix@[i as int]);
            }
            return None;
        }
        i = i + 1;
    }
    assert(chars@.subrange(0, 7) =~= "Bearer "@);
    let n = value.unicode_len();
    Some(value.substring_char(7, n).to_owned())
}

/// Whether the failed logins counted in the window get the address
/// blacklisted.
pub fn should_blacklist(failed_attempts: i64) -> (b: bool)
    ensures
        b == (failed_attempts >= MAX_FAILED_ATTEMPTS),
{
    failed_attempts >= MAX_FAILED_ATTEMPTS
}

} // verus!
