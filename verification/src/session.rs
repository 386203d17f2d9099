//! Session tokens and the identity guard: issuing a signed, time-limited
//! claim for a user, and checking the claim a request carries.
//!
//! The signing configuration is an explicitly constructed `Keys` value
//! handed to these functions at startup. Decoding validates the signature
//! only; the expiry is checked here against a caller-supplied clock, so the
//! outcome of the underlying decode depends on nothing but the token and the
//! secret.

use vstd::prelude::*;
use vstd::slice::slice_to_vec;
use vstd::string::StringExecFns;
use crate::auth::{AuthError, AuthPayload, bcrypt_matches, check_password, hash_password};
use crate::digits::{all_dec_digits, dec_val, parse_i32};
use crate::plant::User;

verus! {

/// Seconds in the 30 days a session token stays valid.
pub const SESSION_LIFETIME_SECONDS: usize = 30 * 24 * 60 * 60;

/// The signing configuration: the server-held symmetric secret both the
/// encoding and the decoding side derive their key from.
pub struct Keys {
    pub secret: Vec<u8>,
}

impl Keys {
    /// Builds the signing configuration from the server secret.
    pub fn new(secret: &[u8]) -> (r: Keys)
        ensures
            r.secret@ == secret@,
    {
        Keys { secret: slice_to_vec(secret) }
    }
}

/// The claim set carried inside a session token: a subject, the expiry as a
/// timestamp in whole seconds, and the authenticated user id.
#[derive(Clone, Debug)]
pub struct Claims {
    pub sub: String,
    pub exp: usize,
    pub user_id: i32,
}

/// The claims recovered from a token by HS256 decoding with the given
/// secret: the subject, user id and expiry when the token is a well-formed
/// JWT whose signature verifies under the secret and whose payload carries
/// those three claims readably, and nothing otherwise. With expiry
/// validation turned off this depends on the token and the secret alone.
pub uninterp spec fn token_claims(token: Seq<char>, secret: Seq<u8>) -> Option<
    (Seq<char>, i32, usize),
>;

/// Relies on jsonwebtoken::encode with the HS256 default header, and on
/// jsonwebtoken::decode with the same secret: decoding a freshly signed
/// token recovers exactly the claims that went in. Under the RustCrypto
/// provider this build enables, signing with a symmetric secret cannot
/// fail: the HMAC accepts a key of any length, its signing step is
/// infallible, and serializing the claim map cannot fail; so a token is
/// always produced.
#[verifier::external_body]
fn encode_claims(claims: &Claims, secret: &Vec<u8>) -> (r: Option<String>)
    ensures
        r is Some,
        r matches Some(tok) ==> token_claims(tok@, secret@) == Some(
            (claims.sub@, claims.user_id, claims.exp),
        ),
{
    let mut payload = serde_json::Map::new();
    payload.insert("sub".to_string(), serde_json::Value::from(claims.sub.clone()));
    payload.insert("exp".to_string(), serde_json::Value::from(claims.exp as u64));
    payload.insert("user_id".to_string(), serde_json::Value::from(claims.user_id));
    let key = jsonwebtoken::EncodingKey::from_secret(secret.as_slice());
    let header = jsonwebtoken::Header::default();
    jsonwebtoken::encode(&header, &serde_json::Value::Object(payload), &key).ok()
}

/// Relies on jsonwebtoken::decode restricted to HS256 with expiry
/// validation turned off: the outcome is then a function of the token and
/// the secret alone, and is the claim set exactly when the signature
/// verifies and the payload carries a readable subject, user id and
/// expiry; anything else yields nothing. Expiry is checked by the callers.
#[verifier::external_body]
fn decode_claims(token: &str, secret: &Vec<u8>) -> (r: Option<Claims>)
    ensures
        match r {
            Some(c) => token_claims(token@, secret@) == Some((c.sub@, c.user_id, c.exp)),
            None => token_claims(token@, secret@) is None,
        },
{
    let mut validation = jsonwebtoken::Validation::new(jsonwebtoken::Algorithm::HS256);
    validation.validate_exp = false;
    validation.required_spec_claims.clear();
    let key = jsonwebtoken::DecodingKey::from_secret(secret.as_slice());
    let data = jsonwebtoken::decode::<serde_json::Value>(token, &key, &validation).ok()?;
    let sub = data.claims.get("sub")?.as_str()?.to_string();
    let user_id = i32::try_from(data.claims.get("user_id")?.as_i64()?).ok()?;
    let exp = usize::try_from(data.claims.get("exp")?.as_u64()?).ok()?;
    Some(Claims { sub, exp, user_id })
}

/// What checking a session token at time `now` yields: the user id of a
/// signature-valid, unexpired token, and `InvalidToken` otherwise.
pub open spec fn session_outcome(token: Seq<char>, secret: Seq<u8>, now: usize) -> Result<
    i32,
    AuthError,
> {
    match token_claims(token, secret) {
        Some(claims) => if now < claims.2 {
            Ok(claims.1)
        } else {
            Err(AuthError::InvalidToken)
        },
        None => Err(AuthError::InvalidToken),
    }
}

/// Issues a signed session token for `user_id` at time `now` (whole
/// seconds), expiring 30 days later. Signing a claim set with a symmetric
/// secret always succeeds, so a token is owed; `TokenCreation`, the
/// taxonomy's signing failure, is what a failing signer would report.
pub fn issue_session_token(user_id: i32, now: usize, keys: &Keys) -> (r: Result<String, AuthError>)
    requires
        now + SESSION_LIFETIME_SECONDS <= usize::MAX,
    ensures
        r is Ok,
        r matches Ok(tok) ==> token_claims(tok@, keys.secret@) == Some(
            ("b@b"@, user_id, (now + SESSION_LIFETIME_SECONDS) as usize),
        ),
{
    let claims = Claims {
        sub: String::from_str("b@b"),
        exp: now + SESSION_LIFETIME_SECONDS,
        user_id,
    };
    match encode_claims(&claims, &keys.secret) {
        Some(tok) => Ok(tok),
        None => Err(AuthError::TokenCreation),
    }
}

/// Checks a session token at time `now`: a bad signature or a claim whose
/// expiry is not after `now` yields `InvalidToken`; otherwise the user id
/// of the claim.
pub fn decode_session_token(token: &str, keys: &Keys, now: usize) -> (r: Result<i32, AuthError>)
    ensures
        r == session_outcome(token@, keys.secret@, now),
{
    match decode_claims(token, &keys.secret) {
        Some(c) => if now < c.exp {
            Ok(c.user_id)
        } else {
            Err(AuthError::InvalidToken)
        },
        None => Err(AuthError::InvalidToken),
    }
}

/// The view of the optional `token` cookie a request carried.
pub open spec fn token_view(token: Option<&str>) -> Option<Seq<char>> {
    match token {
        Some(t) => Some(t@),
        None => None,
    }
}

/// What the guard yields for a request: `MissingCredentials` without a
/// token, and the session outcome of the token otherwise.
pub open spec fn guard_outcome(token: Option<Seq<char>>, secret: Seq<u8>, now: usize) -> Result<
    i32,
    AuthError,
> {
    match token {
        Some(t) => session_outcome(t, secret, now),
        None => Err(AuthError::MissingCredentials),
    }
}

/// The only authorization boundary: a request without a `token` cookie is
/// rejected with `MissingCredentials`; one whose token has a bad signature
/// or is expired with `InvalidToken`; otherwise the authenticated user id
/// is handed to the downstream handler. Whether the resource later touched
/// belongs to that user is not re-checked here.
pub fn extract_user_id(token: Option<&str>, keys: &Keys, now: usize) -> (r: Result<i32, AuthError>)
    ensures
        r == guard_outcome(token_view(token), keys.secret@, now),
{
    match token {
        Some(t) => decode_session_token(t, keys, now),
        None => Err(AuthError::MissingCredentials),
    }
}

/// The two states of the session guard.
#[derive(Clone, Copy, Debug, PartialEq, Eq, Structural)]
pub enum SessionState {
    Unauthenticated,
    Authenticated(i32),
}

/// Runs the guard and reports the resulting state: `Authenticated` with the
/// user id exactly when the guard accepts the request.
pub fn check_auth(token: Option<&str>, keys: &Keys, now: usize) -> (r: SessionState)
    ensures
        match guard_outcome(token_view(token), keys.secret@, now) {
            Ok(uid) => r == SessionState::Authenticated(uid),
            Err(_) => r == SessionState::Unauthenticated,
        },
{
    match extract_user_id(token, keys, now) {
        Ok(uid) => SessionState::Authenticated(uid),
        Err(_) => SessionState::Unauthenticated,
    }
}

/// The cookie attribute string wrapping a session token: HTTP-only, strict
/// same-site delivery. No Secure flag is applied, as the tracker ships
/// without one.
pub open spec fn cookie_text(token: Seq<char>) -> Seq<char> {
    "token="@ + token + "; HttpOnly; SameSite=Strict"@
}

/// Wraps a session token in its cookie attribute string.
pub fn session_cookie(token: &str) -> (r: String)
    ensures
        r@ == cookie_text(token@),
{
    let mut s = String::from_str("token=");
    s.append(token);
    s.append("; HttpOnly; SameSite=Strict");
    s
}

/// Issues the session cookie for a newly authenticated user whose id is
/// carried in decimal in `payload.client_id`, as the login and signup
/// flows hand it over.
pub fn get_jwt_cookie_for_new_user(payload: &AuthPayload, now: usize, keys: &Keys) -> (r: Result<
    String,
    AuthError,
>)
    requires
        payload.client_id@.len() > 0,
        all_dec_digits(payload.client_id@),
        dec_val(payload.client_id@) <= i32::MAX,
        now + SESSION_LIFETIME_SECONDS <= usize::MAX,
    ensures
        r is Ok,
        r matches Ok(c) ==> exists|tok: Seq<char>|
            #![auto]
            c@ == cookie_text(tok) && token_claims(tok, keys.secret@) == Some(
                ("b@b"@, dec_val(payload.client_id@) as i32, (now + SESSION_LIFETIME_SECONDS) as usize),
            ),
{
    match parse_i32(payload.client_id.as_str()) {
        Some(user_id) => match issue_session_token(user_id, now, keys) {
            Ok(tok) => {
                let cookie = session_cookie(tok.as_str());
                proof {
                    assert(cookie@ == cookie_text(tok@) && token_claims(tok@, keys.secret@)
                        == Some(
                        (
                            "b@b"@,
                            dec_val(payload.client_id@) as i32,
                            (now + SESSION_LIFETIME_SECONDS) as usize,
                        ),
                    ));
                }
                Ok(cookie)
            },
            Err(e) => Err(e),
        },
        None => Err(AuthError::TokenCreation),
    }
}

/// The decision of the demonstration token endpoint: empty credentials are
/// rejected as missing, credentials other than the fixed demonstration pair
/// as wrong; the demonstration pair itself always yields a token for user 1
/// with the fixed demonstration expiry.
pub fn authorize(payload: &AuthPayload, keys: &Keys) -> (r: Result<String, AuthError>)
    ensures
        payload.client_id@.len() == 0 || payload.client_secret@.len() == 0 ==> r == Err::<
            String,
            AuthError,
        >(AuthError::MissingCredentials),
        payload.client_id@.len() > 0 && payload.client_secret@.len() > 0 && (payload.client_id@
            != "foo"@ || payload.client_secret@ != "bar"@) ==> r == Err::<String, AuthError>(
            AuthError::WrongCredentials,
        ),
        payload.client_id@ == "foo"@ && payload.client_secret@ == "bar"@ ==> r is Ok,
        r matches Ok(tok) ==> payload.client_id@ == "foo"@ && payload.client_secret@ == "bar"@
            && token_claims(tok@, keys.secret@) == Some(("b@b.com"@, 1i32, 2000000000usize)),
{
    proof {
        reveal_strlit("foo");
        reveal_strlit("bar");
    }
    if payload.client_id.as_str().is_empty() || payload.client_secret.as_str().is_empty() {
        return Err(AuthError::MissingCredentials);
    }
    let foo = String::from_str("foo");
    let bar = String::from_str("bar");
    if payload.client_id != foo || payload.client_secret != bar {
        return Err(AuthError::WrongCredentials);
    }
    let claims = Claims { sub: String::from_str("b@b.com"), exp: 2000000000, user_id: 1 };
    match encode_claims(&claims, &keys.secret) {
        Some(tok) => Ok(tok),
        None => Err(AuthError::TokenCreation),
    }
}

/// The login decision: a password that does not match the stored hash is
/// rejected with `WrongCredentials`; a matching password always earns a
/// fresh session cookie for the user.
pub fn login_user(user: &User, password: &String, now: usize, keys: &Keys) -> (r: Result<
    String,
    AuthError,
>)
    requires
        now + SESSION_LIFETIME_SECONDS <= usize::MAX,
    ensures
        !bcrypt_matches(password@, user.password_hash@) ==> r == Err::<String, AuthError>(
            AuthError::WrongCredentials,
        ),
        r matches Ok(c) ==> bcrypt_matches(password@, user.password_hash@) && exists|
            tok: Seq<char>,
        |
            #![auto]
            c@ == cookie_text(tok) && token_claims(tok, keys.secret@) == Some(
                ("b@b"@, user.user_id, (now + SESSION_LIFETIME_SECONDS) as usize),
            ),
        bcrypt_matches(password@, user.password_hash@) ==> r is Ok,
{
    if !check_password(password, &user.password_hash) {
        return Err(AuthError::WrongCredentials);
    }
    match issue_session_token(user.user_id, now, keys) {
        Ok(tok) => {
            let cookie = session_cookie(tok.as_str());
            proof {
                assert(cookie@ == cookie_text(tok@) && token_claims(tok@, keys.secret@) == Some(
                    ("b@b"@, user.user_id, (now + SESSION_LIFETIME_SECONDS) as usize),
                ));
            }
            Ok(cookie)
        },
        Err(e) => Err(e),
    }
}

/// The signup decision: hash the submitted password and issue a session
/// cookie for the newly assigned user id. The result pairs the hash to
/// store — a 60-character bcrypt string, never the plaintext — with the
/// cookie to set. Signing cannot fail, so the one failure left is the
/// hashing step, reported as `TokenCreation`, the taxonomy's only
/// server-side failure.
pub fn signup_user(user_id: i32, password: &str, now: usize, keys: &Keys) -> (r: Result<
    (String, String),
    AuthError,
>)
    requires
        now + SESSION_LIFETIME_SECONDS <= usize::MAX,
    ensures
        r matches Ok(pair) ==> bcrypt_matches(password@, pair.0@) && pair.0@.len() == 60
            && vstd::utf8::is_ascii_chars(pair.0@) && pair.0@.subrange(0, 7) == "$2b$12$"@
            && exists|tok: Seq<char>|
            #![auto]
            pair.1@ == cookie_text(tok) && token_claims(tok, keys.secret@) == Some(
                ("b@b"@, user_id, (now + SESSION_LIFETIME_SECONDS) as usize),
            ),
        r matches Err(e) ==> e == AuthError::TokenCreation,
{
    let hash = match hash_password(password) {
        Some(h) => h,
        None => {
            return Err(AuthError::TokenCreation);
        },
    };
    match issue_session_token(user_id, now, keys) {
        Ok(tok) => {
            let cookie = session_cookie(tok.as_str());
            proof {
                assert(cookie@ == cookie_text(tok@) && token_claims(tok@, keys.secret@) == Some(
                    ("b@b"@, user_id, (now + SESSION_LIFETIME_SECONDS) as usize),
                ));
            }
            Ok((hash, cookie))
        },
        Err(e) => Err(e),
    }
}

/// A token issued for a user decodes to that same user id at any moment
/// before its expiry, and to `InvalidToken` at any moment from the expiry
/// on.
pub proof fn lemma_issued_token_outcome(
    tok: Seq<char>,
    secret: Seq<u8>,
    sub: Seq<char>,
    user_id: i32,
    exp: usize,
    t: usize,
)
    ensures
        token_claims(tok, secret) == Some((sub, user_id, exp)) && t < exp ==> session_outcome(
            tok,
            secret,
            t,
        ) == Ok::<i32, AuthError>(user_id),
        token_claims(tok, secret) == Some((sub, user_id, exp)) && t >= exp ==> session_outcome(
            tok,
            secret,
            t,
        ) == Err::<i32, AuthError>(AuthError::InvalidToken),
{
}

} // verus!
