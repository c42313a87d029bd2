use vstd::prelude::*;
use crate::models::{PasswordError, User};
use argon2::password_hash::{PasswordHash, PasswordHasher, PasswordVerifier, Salt, SaltString};
use argon2::Argon2;

verus! {

/// Whether `phc` parses as a PHC string and Argon2, run with the algorithm,
/// version, parameters and salt written in it, accepts `password` against it.
pub uninterp spec fn argon2_accepts(password: Seq<char>, phc: Seq<char>) -> bool;

/// Whether `c` belongs to the standard Base64 alphabet.
pub open spec fn is_b64_char(c: char) -> bool {
    ('A' <= c && c <= 'Z') || ('a' <= c && c <= 'z') || ('0' <= c && c <= '9') || c == '+'
        || c == '/'
}

/// Whether `s` is the unpadded standard Base64 text of 16 bytes: 22
/// characters of the alphabet, the last of which carries no trailing bits.
pub open spec fn is_salt_text(s: Seq<char>) -> bool {
    &&& s.len() == 22
    &&& forall|i: int| 0 <= i < s.len() ==> is_b64_char(#[trigger] s[i])
    &&& (s[21] == 'A' || s[21] == 'Q' || s[21] == 'g' || s[21] == 'w')
}

/// The longest password, in characters, that Argon2 is sure to take: its
/// UTF-8 form stays within the `u32::MAX` bytes that Argon2 accepts.
pub const MAX_PASSWORD_CHARS: usize = 0x3FFF_FFFF;

/// Relies on `SaltString::generate` over `rand::thread_rng`: 16 random
/// bytes, as their unpadded standard Base64 text.
#[verifier::external_body]
fn fresh_salt() -> (r: String)
    ensures
        is_salt_text(r@),
{
    SaltString::generate(&mut rand::thread_rng()).as_str().to_string()
}

/// The PHC string that Argon2 with its default parameters makes of
/// `password` under the Base64 salt `salt`.
pub uninterp spec fn argon2_phc(password: Seq<char>, salt: Seq<char>) -> Seq<char>;

/// The text of the error that parsing `phc` as a PHC string gives, or
/// `None` where it parses.
pub uninterp spec fn phc_parse_error(phc: Seq<char>) -> Option<Seq<char>>;

/// What every PHC string that Argon2 makes with its default parameters
/// starts with: algorithm Argon2id, version 19, 19456 KiB of memory, two
/// passes, one lane.
pub open spec fn argon2id_default_prefix() -> Seq<char> {
    seq!['$', 'a', 'r', 'g', 'o', 'n', '2', 'i', 'd', '$', 'v', '=', '1', '9', '$', 'm', '=', '1', '9',
    '4', '5', '6', ',', 't', '=', '2', ',', 'p', '=', '1', '$']
}

/// Whether `h` is a PHC string of the default Argon2id parameters that
/// embeds `salt`, followed by a separator and the hash output.
pub open spec fn embeds_salt(h: Seq<char>, salt: Seq<char>) -> bool {
    let n = argon2id_default_prefix().len() as int;
    &&& h.len() > n + salt.len()
    &&& h.subrange(0, n as int) == argon2id_default_prefix()
    &&& h.subrange(n as int, n + salt.len()) == salt
    &&& h[n + salt.len()] == '$'
}

/// Relies on `Salt::from_b64` and `Argon2::hash_password` with the default
/// parameters, printed by `PasswordHash`'s `Display`: a PHC string that
/// Argon2 accepts for the same password, which writes out the parameters
/// and the salt, or the text of the error. It succeeds for a salt of 16
/// bytes and a password within Argon2's length limit.
#[verifier::external_body]
fn argon2_hash(password: &str, salt: &str) -> (r: Result<String, String>)
    ensures
        r is Ok ==> r->Ok_0@ == argon2_phc(password@, salt@),
        r is Ok ==> argon2_accepts(password@, r->Ok_0@),
        r is Ok ==> embeds_salt(r->Ok_0@, salt@),
        is_salt_text(salt@) && password@.len() <= MAX_PASSWORD_CHARS ==> r is Ok,
{
    match Salt::from_b64(salt) {
        Ok(s) => match Argon2::default().hash_password(password.as_bytes(), s) {
            Ok(h) => Ok(h.to_string()),
            Err(e) => Err(e.to_string()),
        },
        Err(e) => Err(e.to_string()),
    }
}

/// Relies on `PasswordHash::new` and `Argon2::verify_password`: the text of
/// the parse error where `phc` is not a PHC string, else whether Argon2
/// accepts `password` against it.
#[verifier::external_body]
fn argon2_verify(password: &str, phc: &str) -> (r: Result<bool, String>)
    ensures
        match phc_parse_error(phc@) {
            Some(t) => r is Err && r->Err_0@ == t && !argon2_accepts(password@, phc@),
            None => r == Ok::<bool, String>(argon2_accepts(password@, phc@)),
        },
{
    match PasswordHash::new(phc) {
        Ok(h) => Ok(Argon2::default().verify_password(password.as_bytes(), &h).is_ok()),
        Err(e) => Err(e.to_string()),
    }
}

/// Hashes with distinct salts never coincide: each embeds its own salt.
pub proof fn lemma_distinct_salts_distinct_hashes(password: Seq<char>, s1: Seq<char>, s2: Seq<char>)
    requires
        embeds_salt(argon2_phc(password, s1), s1),
        embeds_salt(argon2_phc(password, s2), s2),
        s1.len() == s2.len(),
        s1 != s2,
    ensures
        argon2_phc(password, s1) != argon2_phc(password, s2),
{
    let n = argon2id_default_prefix().len() as int;
    if argon2_phc(password, s1) == argon2_phc(password, s2) {
        assert(s1 == argon2_phc(password, s1).subrange(n, n + s1.len()));
    }
}

/// Why a registration or a login was refused.
#[derive(Debug, Clone, Copy, PartialEq, Eq, Structural)]
pub enum AuthError {
    DuplicateUser,
    NotFound,
    InvalidCredential,
    HashingError,
    TokenError,
}

/// Hashes `password` with Argon2's default parameters under the Base64
/// salt `salt`. It succeeds for a salt of 16 bytes.
pub fn hash_password_with_salt(password: &str, salt: &str) -> (r: Result<String, PasswordError>)
    ensures
        match r {
            Ok(h) => h@ == argon2_phc(password@, salt@) && argon2_accepts(password@, h@)
                && embeds_salt(h@, salt@),
            Err(e) => e is HashingError,
        },
        is_salt_text(salt@) && password@.len() <= MAX_PASSWORD_CHARS ==> r is Ok,
{
    match argon2_hash(password, salt) {
        Ok(h) => Ok(h),
        Err(e) => Err(PasswordError::HashingError(e)),
    }
}

/// Hashes `password` with Argon2 and a fresh random salt of 16 bytes.
pub fn hash_password(password: &str) -> (r: Result<String, PasswordError>)
    ensures
        match r {
            Ok(h) => exists|salt: Seq<char>|
                is_salt_text(salt) && h@ == argon2_phc(password@, salt) && embeds_salt(h@, salt),
            Err(e) => e is HashingError,
        },
        r is Ok ==> argon2_accepts(password@, r->Ok_0@),
        password@.len() <= MAX_PASSWORD_CHARS ==> r is Ok,
{
    let salt = fresh_salt();
    hash_password_with_salt(password, salt.as_str())
}

/// Checks the password `hash` against the stored PHC string `password`:
/// `Ok(true)` where Argon2 accepts it; where the string does not parse, a
/// verification error with the parser's text; otherwise a verification
/// error saying that verification failed.
pub fn verify_password(hash: &str, password: &str) -> (r: Result<bool, PasswordError>)
    ensures
        r is Ok <==> argon2_accepts(hash@, password@),
        match r {
            Ok(b) => b,
            Err(e) => e is VerificationError && e->VerificationError_0@ == (match phc_parse_error(
                password@,
            ) {
                Some(t) => t,
                None => "Password verification failed"@,
            }),
        },
{
    match argon2_verify(hash, password) {
        Ok(true) => Ok(true),
        Ok(false) => Err(
            PasswordError::VerificationError("Password verification failed".to_owned()),
        ),
        Err(t) => Err(PasswordError::VerificationError(t)),
    }
}

/// The account that registering `username` with `password` creates, given
/// whether the name is `already_taken`.
pub fn registration(username: String, already_taken: bool, password: &str) -> (r: Result<
    User,
    AuthError,
>)
    ensures
        already_taken ==> r == Err::<User, AuthError>(AuthError::DuplicateUser),
        !already_taken ==> match r {
            Ok(u) => u.username@ == username@ && argon2_accepts(password@, u.password_hash@),
            Err(e) => e == AuthError::HashingError,
        },
        !already_taken && password@.len() <= MAX_PASSWORD_CHARS ==> r is Ok,
{
    if already_taken {
        return Err(AuthError::DuplicateUser);
    }
    match hash_password(password) {
        Ok(h) => Ok(User { username, password_hash: h }),
        Err(_) => Err(AuthError::HashingError),
    }
}

/// Checks `password` against the account found for a login, if any.
pub fn check_credentials(stored: Option<&User>, password: &str) -> (r: Result<(), AuthError>)
    ensures
        match stored {
            None => r == Err::<(), AuthError>(AuthError::NotFound),
            Some(u) => if argon2_accepts(password@, u.password_hash@) {
                r is Ok
            } else {
                r == Err::<(), AuthError>(AuthError::InvalidCredential)
            },
        },
{
    match stored {
        None => Err(AuthError::NotFound),
        Some(u) => match verify_password(password, u.password_hash.as_str()) {
            Ok(_) => Ok(()),
            Err(_) => Err(AuthError::InvalidCredential),
        },
    }
}

} // verus!
