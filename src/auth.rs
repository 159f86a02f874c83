//! Credential checks and the issue of tokens on login and registration.
//!
//! The user store is reached by the caller: it first asks `check_credentials`
//! whether the store is to be asked at all, then hands what the store said to
//! `login` or `register`.
use vstd::prelude::*;
use crate::codec::{issue, issued_token, Claims, Keys};

verus! {

/// How long an issued token stays valid: 24 hours, in seconds.
pub const TOKEN_TTL: u64 = 86400;

/// Why a login or a registration fails.
#[derive(Clone, Copy, Debug, PartialEq, Eq, Structural)]
pub enum AuthError {
    /// The user name or the password is empty.
    MissingCredentials,
    /// No user has these credentials (login), or the user could not be
    /// created (registration).
    WrongCredentials,
    /// The token could not be made.
    TokenCreation,
}

/// What a successful login or registration hands back.
#[derive(Clone, Debug)]
pub struct AuthBody {
    pub token: String,
    pub subject: u128,
}

/// Empty credentials are refused before any store is asked.
pub fn check_credentials(username: &str, password: &str) -> (r: Result<(), AuthError>)
    ensures
        (username@.len() == 0 || password@.len() == 0) ==> r == Err::<(), AuthError>(
            AuthError::MissingCredentials,
        ),
        (username@.len() > 0 && password@.len() > 0) ==> r is Ok,
{
    if username.is_empty() || password.is_empty() {
        Err(AuthError::MissingCredentials)
    } else {
        Ok(())
    }
}

/// The token body for `subject`, with a token that expires `TOKEN_TTL`
/// seconds after `now`.
pub open spec fn granted(secret: Seq<u8>, subject: u128, now: u64, b: AuthBody) -> bool {
    &&& now + TOKEN_TTL <= u64::MAX
    &&& b.subject == subject
    &&& b.token@ == issued_token(secret, Claims { sub: subject, exp: (now + TOKEN_TTL) as u64 })
}

/// What `login` and `register` hand back once the store has answered with
/// `found` (the subject, or `None`).
pub open spec fn store_outcome(
    secret: Seq<u8>,
    found: Option<u128>,
    now: u64,
    r: Result<AuthBody, AuthError>,
) -> bool {
    match found {
        None => r == Err::<AuthBody, AuthError>(AuthError::WrongCredentials),
        Some(id) => match r {
            Ok(b) => granted(secret, id, now, b),
            Err(e) => e == AuthError::TokenCreation,
        },
    }
}

/// Issues the token body for `subject`.
fn grant(keys: &Keys, subject: u128, now: u64) -> (r: Result<AuthBody, AuthError>)
    ensures
        r matches Ok(b) ==> granted(keys.secret@, subject, now, b),
        r matches Err(e) ==> e == AuthError::TokenCreation,
        now + TOKEN_TTL > u64::MAX ==> r is Err,
        now + TOKEN_TTL <= u64::MAX ==> r is Ok,
{
    match issue(keys, subject, TOKEN_TTL, now) {
        Some(token) => Ok(AuthBody { token, subject }),
        None => Err(AuthError::TokenCreation),
    }
}

/// Finishes a login once the store has looked the credentials up: `found`
/// is the subject whose user name and password they are, if any.
pub fn login(keys: &Keys, found: Option<u128>, now: u64) -> (r: Result<AuthBody, AuthError>)
    ensures
        store_outcome(keys.secret@, found, now, r),
        found is Some && now + TOKEN_TTL > u64::MAX ==> r == Err::<AuthBody, AuthError>(
            AuthError::TokenCreation,
        ),
        found is Some && now + TOKEN_TTL <= u64::MAX ==> r is Ok,
{
    match found {
        None => Err(AuthError::WrongCredentials),
        Some(id) => grant(keys, id, now),
    }
}

/// Finishes a registration once the store has tried to create the user:
/// `created` is the new subject, or `None` where the store refused (a user of
/// that name exists, for one).
pub fn register(keys: &Keys, created: Option<u128>, now: u64) -> (r: Result<AuthBody, AuthError>)
    ensures
        store_outcome(keys.secret@, created, now, r),
        created is Some && now + TOKEN_TTL > u64::MAX ==> r == Err::<AuthBody, AuthError>(
            AuthError::TokenCreation,
        ),
        created is Some && now + TOKEN_TTL <= u64::MAX ==> r is Ok,
{
    match created {
        None => Err(AuthError::WrongCredentials),
        Some(id) => grant(keys, id, now),
    }
}

} // verus!
