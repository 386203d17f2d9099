//! Credential management: password hashing and checking, and the payload
//! and error vocabulary of the authentication endpoints.

use vstd::prelude::*;
use vstd::string::StringExecFns;

verus! {

/// Why an authentication step failed.
#[derive(Clone, Copy, Debug, PartialEq, Eq, Structural)]
pub enum AuthError {
    /// The submitted credentials do not match the stored ones.
    WrongCredentials,
    /// The request carried no credentials at all.
    MissingCredentials,
    /// Signing a fresh session token failed.
    TokenCreation,
    /// The request carried a token with a bad signature or past its expiry.
    InvalidToken,
}

/// The user-facing message for an authentication error.
pub open spec fn spec_message(e: AuthError) -> Seq<char> {
    match e {
        AuthError::WrongCredentials => "Wrong credentials"@,
        AuthError::MissingCredentials => "Missing credentials"@,
        AuthError::TokenCreation => "Token creation error"@,
        AuthError::InvalidToken => "Invalid token"@,
    }
}

/// The HTTP status for an authentication error: 401 for wrong credentials,
/// 500 for a signing failure, 400 for a missing or invalid token.
pub open spec fn spec_status(e: AuthError) -> u16 {
    match e {
        AuthError::WrongCredentials => 401,
        AuthError::MissingCredentials => 400,
        AuthError::TokenCreation => 500,
        AuthError::InvalidToken => 400,
    }
}

impl AuthError {
    /// The message shown in the JSON error body for this error.
    pub fn message(&self) -> (r: &'static str)
        ensures
            r@ == spec_message(*self),
    {
        match self {
            AuthError::WrongCredentials => "Wrong credentials",
            AuthError::MissingCredentials => "Missing credentials",
            AuthError::TokenCreation => "Token creation error",
            AuthError::InvalidToken => "Invalid token",
        }
    }

    /// The HTTP status code this error maps to.
    pub fn status_code(&self) -> (r: u16)
        ensures
            r == spec_status(*self),
    {
        match self {
            AuthError::WrongCredentials => 401,
            AuthError::MissingCredentials => 400,
            AuthError::TokenCreation => 500,
            AuthError::InvalidToken => 400,
        }
    }
}

/// The credentials a client submits: an identifier and a secret.
#[derive(Clone, Debug)]
pub struct AuthPayload {
    pub client_id: String,
    pub client_secret: String,
}

/// A bearer token handed back to a client.
#[derive(Clone, Debug)]
pub struct AuthBody {
    pub access_token: String,
    pub token_type: String,
}

impl AuthBody {
    /// Wraps an access token as a bearer credential.
    pub fn new(access_token: String) -> (r: AuthBody)
        ensures
            r.access_token == access_token,
            r.token_type@ == "Bearer"@,
    {
        AuthBody { access_token, token_type: String::from_str("Bearer") }
    }
}

/// Whether bcrypt's password check accepts `password` against the hash
/// string `hash`. The check re-derives the digest from the salt and cost
/// stored inside the hash string and compares, so for fixed arguments the
/// outcome is the same in every process; a malformed hash counts as no
/// match.
pub uninterp spec fn bcrypt_matches(password: Seq<char>, hash: Seq<char>) -> bool;

/// Relies on bcrypt::hash with the default cost: a fresh hash embeds the
/// salt it was derived with, and bcrypt::verify on the same password then
/// recomputes and matches it. The hash string is always exactly 60 ASCII
/// characters and starts with the version-and-cost prefix "$2b$12$", so it
/// is never the password handed in unless that password already had this
/// shape. The salt comes from the operating system's randomness, so nothing
/// else is promised of the hash string, and failure (for instance when no
/// randomness is available) is left open.
#[verifier::external_body]
pub fn hash_password(password: &str) -> (r: Option<String>)
    ensures
        r matches Some(h) ==> bcrypt_matches(password@, h@) && h@.len() == 60
            && vstd::utf8::is_ascii_chars(h@) && h@.subrange(0, 7) == "$2b$12$"@,
{
    bcrypt::hash(password, bcrypt::DEFAULT_COST).ok()
}

/// Relies on bcrypt::verify: for a fixed password and hash string the
/// outcome is deterministic. A verification error (malformed hash, unknown
/// prefix) is deliberately indistinguishable from a wrong password: the
/// check fails closed and never reports an error to its caller. In
/// particular a stored hash that is not exactly 60 ASCII characters is
/// rejected before anything is computed, so it never verifies.
#[verifier::external_body]
pub fn check_password(password: &String, hash: &String) -> (r: bool)
    ensures
        r == bcrypt_matches(password@, hash@),
        hash@.len() != 60 || !vstd::utf8::is_ascii_chars(hash@) ==> r == false,
{
    match bcrypt::verify(password.as_str(), hash.as_str()) {
        Ok(result) => result,
        Err(_) => false,
    }
}

} // verus!
