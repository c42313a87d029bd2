use chat_relay::auth::{
    check_credentials, hash_password, hash_password_with_salt, registration, verify_password, AuthError,
};
use chat_relay::directory::UserDirectory;
use chat_relay::models::{PasswordError, User};
use chat_relay::token::{claims_for, token_claims, TOKEN_LIFETIME_SECS};

#[test]
fn hashed_password_verifies() {
    let h = hash_password("secret").unwrap();
    assert_ne!(h, "secret");
    assert!(h.starts_with("$argon2"));
    assert_eq!(verify_password("secret", &h).unwrap(), true);
    match verify_password("other", &h) {
        Err(PasswordError::VerificationError(text)) => {
            assert_eq!(text, "Password verification failed")
        }
        other => panic!("expected a verification error, got {:?}", other),
    }
}

#[test]
fn unparsable_hash_fails_verification() {
    assert!(matches!(verify_password("secret", "secret"), Err(PasswordError::VerificationError(_))));
    match verify_password("secret", "not-a-hash") {
        Err(PasswordError::VerificationError(text)) => {
            assert_eq!(text, "password hash string missing field")
        }
        other => panic!("expected a parse error, got {:?}", other),
    }
    match verify_password("secret", "") {
        Err(PasswordError::VerificationError(text)) => {
            assert_ne!(text, "Password verification failed")
        }
        other => panic!("expected a parse error, got {:?}", other),
    }
}

#[test]
fn salted_hash_is_a_function_of_password_and_salt() {
    let salt = "c2FsdHNhbHRzYWx0c2FsdA";
    let h1 = hash_password_with_salt("pw", salt).unwrap();
    let h2 = hash_password_with_salt("pw", salt).unwrap();
    assert_eq!(h1, h2);
    assert!(h1.starts_with("$argon2id$v=19$m=19456,t=2,p=1$c2FsdHNhbHRzYWx0c2FsdA$"));
    let other = hash_password_with_salt("pw", "b3RoZXJzYWx0b3RoZXJzYQ").unwrap();
    assert_ne!(h1, other);
    assert!(verify_password("pw", &other).is_ok());
}

#[test]
fn short_salt_fails_hashing() {
    assert!(matches!(hash_password_with_salt("pw", "abc"), Err(PasswordError::HashingError(_))));
}

#[test]
fn fresh_hashes_differ() {
    let a = hash_password("pw").unwrap();
    let b = hash_password("pw").unwrap();
    assert_ne!(a, b);
    assert!(a.starts_with("$argon2id$v=19$m=19456,t=2,p=1$"));
}

#[test]
fn password_error_messages() {
    assert_eq!(PasswordError::HashingError("x".to_string()).message(), "Hashing error: x");
    assert_eq!(
        PasswordError::VerificationError("y".to_string()).message(),
        "Verification error: y"
    );
}

#[test]
fn registration_refuses_taken_names() {
    assert_eq!(registration("bob".to_string(), true, "pw").err(), Some(AuthError::DuplicateUser));
    let u = registration("bob".to_string(), false, "pw").unwrap();
    assert_eq!(u.username, "bob");
    assert!(verify_password("pw", &u.password_hash).is_ok());
}

#[test]
fn credentials_are_checked() {
    assert_eq!(check_credentials(None, "pw"), Err(AuthError::NotFound));
    let u = User { username: "eve".to_string(), password_hash: hash_password("pw").unwrap() };
    assert_eq!(check_credentials(Some(&u), "pw"), Ok(()));
    assert_eq!(check_credentials(Some(&u), "nope"), Err(AuthError::InvalidCredential));
}

#[test]
fn duplicate_registration_keeps_first_record() {
    let mut dir = UserDirectory::new();
    assert_eq!(dir.register("alice".to_string(), "first"), Ok(1));
    assert_eq!(dir.register("alice".to_string(), "second"), Err(AuthError::DuplicateUser));
    assert_eq!(dir.login(&"alice".to_string(), "first"), Ok(1));
    assert_eq!(dir.login(&"alice".to_string(), "second"), Err(AuthError::InvalidCredential));
}

#[test]
fn wrong_password_gives_no_token() {
    let mut dir = UserDirectory::new();
    assert_eq!(dir.register("carol".to_string(), "right"), Ok(1));
    let outcome = dir.login(&"carol".to_string(), "wrong");
    assert_eq!(outcome, Err(AuthError::InvalidCredential));
    let token = outcome.and_then(|_| token_claims("carol"));
    assert!(token.is_err());
}

#[test]
fn unknown_user_is_not_found() {
    let dir = UserDirectory::new();
    assert_eq!(dir.login(&"nobody".to_string(), "pw"), Err(AuthError::NotFound));
}

#[test]
fn claims_expire_after_one_hour() {
    let c = claims_for("dave", 1_700_000_000).unwrap();
    assert_eq!(c.sub, "dave");
    assert_eq!(c.exp, 1_700_003_600);
    assert_eq!(TOKEN_LIFETIME_SECS, 3600);
    assert_eq!(claims_for("dave", -3600).unwrap().exp, 0);
    assert!(claims_for("dave", -3601).is_none());
    let now = token_claims("dave").unwrap();
    assert_eq!(now.sub, "dave");
    assert!(now.exp > 1_700_000_000);
}

#[test]
fn token_is_issued_only_for_accepted_credentials() {
    let mut dir = UserDirectory::new();
    assert_eq!(dir.register("frank".to_string(), "pw").unwrap(), 1);
    assert_eq!(
        dir.login_with_token(&"frank".to_string(), "wrong").err(),
        Some(AuthError::InvalidCredential)
    );
    assert_eq!(dir.login_with_token(&"ghost".to_string(), "pw").err(), Some(AuthError::NotFound));
    let (id, claims) = dir.login_with_token(&"frank".to_string(), "pw").unwrap();
    assert_eq!(id, 1);
    assert_eq!(claims.sub, "frank");
}

#[test]
fn empty_password_still_hashes() {
    let h = hash_password("").unwrap();
    assert!(matches!(verify_password("", &h), Ok(true)));
}
