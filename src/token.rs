use vstd::prelude::*;
use crate::auth::AuthError;

verus! {

/// How long an identity token stays valid, in seconds.
pub const TOKEN_LIFETIME_SECS: i64 = 3600;

/// What an identity token asserts: its subject and when it expires, in
/// seconds since the Unix epoch.
#[derive(Debug)]
pub struct Claims {
    pub sub: String,
    pub exp: usize,
}

/// Relies on `chrono::Utc::now` and `DateTime::timestamp`: the current time
/// in seconds since the Unix epoch (it panics on a clock set before the
/// epoch). Nothing more is known of its value.
#[verifier::external_body]
fn unix_now() -> (r: i64) {
    chrono::Utc::now().timestamp()
}

/// The claims of a token for `username` issued at `now`, which expires one
/// lifetime later; `None` where that instant is before the epoch or does
/// not fit a `usize`.
pub fn claims_for(username: &str, now: i64) -> (r: Option<Claims>)
    ensures
        (0 <= now + TOKEN_LIFETIME_SECS <= usize::MAX) <==> r is Some,
        r is Some ==> r->Some_0.sub@ == username@ && r->Some_0.exp == now + TOKEN_LIFETIME_SECS,
{
    if now < -TOKEN_LIFETIME_SECS {
        return None;
    }
    let exp: u64 = if now >= 0 {
        now as u64 + TOKEN_LIFETIME_SECS as u64
    } else {
        (now + TOKEN_LIFETIME_SECS) as u64
    };
    if exp > usize::MAX as u64 {
        return None;
    }
    Some(Claims { sub: username.to_owned(), exp: exp as usize })
}

/// The claims of a token for `username` issued now.
pub fn token_claims(username: &str) -> (r: Result<Claims, AuthError>)
    ensures
        match r {
            Ok(c) => c.sub@ == username@,
            Err(e) => e == AuthError::TokenError,
        },
{
    match claims_for(username, unix_now()) {
        Some(c) => Ok(c),
        None => Err(AuthError::TokenError),
    }
}

} // verus!
