use plant_track::auth::{hash_password, AuthError, AuthPayload};
use plant_track::session::{
    authorize, check_auth, decode_session_token, extract_user_id, get_jwt_cookie_for_new_user,
    issue_session_token, login_user, session_cookie, signup_user, Keys, SessionState,
    SESSION_LIFETIME_SECONDS,
};
use plant_track::plant::User;

fn keys() -> Keys {
    Keys::new(b"a test secret, held by the server")
}

#[test]
fn issued_token_decodes_to_its_user() {
    let keys = keys();
    let now: usize = 1_700_000_000;
    let token = issue_session_token(42, now, &keys).expect("signing succeeds");
    assert_eq!(decode_session_token(&token, &keys, now), Ok(42));
    assert_eq!(decode_session_token(&token, &keys, now + SESSION_LIFETIME_SECONDS - 1), Ok(42));
}

#[test]
fn expired_token_is_invalid() {
    let keys = keys();
    let now: usize = 1_700_000_000;
    let token = issue_session_token(42, now, &keys).expect("signing succeeds");
    let expiry = now + SESSION_LIFETIME_SECONDS;
    assert_eq!(decode_session_token(&token, &keys, expiry), Err(AuthError::InvalidToken));
    assert_eq!(decode_session_token(&token, &keys, expiry + 5000), Err(AuthError::InvalidToken));
}

#[test]
fn token_signed_with_other_secret_is_invalid() {
    let keys = keys();
    let other = Keys::new(b"another secret entirely");
    let now: usize = 1_700_000_000;
    let token = issue_session_token(42, now, &other).expect("signing succeeds");
    assert_eq!(decode_session_token(&token, &keys, now), Err(AuthError::InvalidToken));
}

#[test]
fn garbage_token_is_invalid() {
    let keys = keys();
    assert_eq!(decode_session_token("not.a.token", &keys, 0), Err(AuthError::InvalidToken));
    assert_eq!(decode_session_token("", &keys, 0), Err(AuthError::InvalidToken));
}

#[test]
fn request_without_token_lacks_credentials() {
    let keys = keys();
    assert_eq!(extract_user_id(None, &keys, 0), Err(AuthError::MissingCredentials));
}

#[test]
fn guard_states_follow_the_token() {
    let keys = keys();
    let now: usize = 1_700_000_000;
    let token = issue_session_token(7, now, &keys).expect("signing succeeds");
    assert_eq!(check_auth(Some(&token), &keys, now), SessionState::Authenticated(7));
    assert_eq!(check_auth(Some("bad token"), &keys, now), SessionState::Unauthenticated);
    assert_eq!(check_auth(None, &keys, now), SessionState::Unauthenticated);
}

#[test]
fn cookie_wraps_token_with_attributes() {
    assert_eq!(session_cookie("abc"), "token=abc; HttpOnly; SameSite=Strict");
}

#[test]
fn cookie_for_new_user_carries_a_valid_session() {
    let keys = keys();
    let now: usize = 1_700_000_000;
    let payload = AuthPayload {
        client_id: String::from("31"),
        client_secret: String::from("irrelevant"),
    };
    let cookie = get_jwt_cookie_for_new_user(&payload, now, &keys).expect("signing succeeds");
    let token = cookie
        .strip_prefix("token=")
        .and_then(|rest| rest.strip_suffix("; HttpOnly; SameSite=Strict"))
        .expect("cookie has the expected shape");
    assert_eq!(decode_session_token(token, &keys, now), Ok(31));
}

#[test]
fn authorize_rejects_empty_credentials() {
    let keys = keys();
    let payload = AuthPayload { client_id: String::new(), client_secret: String::from("bar") };
    assert_eq!(authorize(&payload, &keys), Err(AuthError::MissingCredentials));
    let payload = AuthPayload { client_id: String::from("foo"), client_secret: String::new() };
    assert_eq!(authorize(&payload, &keys), Err(AuthError::MissingCredentials));
}

#[test]
fn authorize_rejects_unknown_credentials() {
    let keys = keys();
    let payload = AuthPayload { client_id: String::from("foo"), client_secret: String::from("baz") };
    assert_eq!(authorize(&payload, &keys), Err(AuthError::WrongCredentials));
}

#[test]
fn authorize_issues_demo_token() {
    let keys = keys();
    let payload = AuthPayload { client_id: String::from("foo"), client_secret: String::from("bar") };
    let token = authorize(&payload, &keys).expect("signing succeeds");
    assert_eq!(decode_session_token(&token, &keys, 1_700_000_000), Ok(1));
    // The demonstration expiry is fixed.
    assert_eq!(
        decode_session_token(&token, &keys, 2_000_000_000),
        Err(AuthError::InvalidToken)
    );
}

#[test]
fn login_rejects_wrong_password() {
    let keys = keys();
    let hash = hash_password("right horse").expect("hashing succeeds");
    let user = User {
        user_id: 5,
        first_name: String::from("A"),
        last_name: String::from("B"),
        email: String::from("a@example.com"),
        password_hash: hash,
        phone: None,
    };
    assert_eq!(
        login_user(&user, &String::from("wrong horse"), 1_700_000_000, &keys),
        Err(AuthError::WrongCredentials)
    );
}

#[test]
fn login_issues_session_cookie() {
    let keys = keys();
    let now: usize = 1_700_000_000;
    let hash = hash_password("right horse").expect("hashing succeeds");
    let user = User {
        user_id: 5,
        first_name: String::from("A"),
        last_name: String::from("B"),
        email: String::from("a@example.com"),
        password_hash: hash,
        phone: None,
    };
    let cookie = login_user(&user, &String::from("right horse"), now, &keys)
        .expect("login succeeds");
    let token = cookie
        .strip_prefix("token=")
        .and_then(|rest| rest.strip_suffix("; HttpOnly; SameSite=Strict"))
        .expect("cookie has the expected shape");
    assert_eq!(decode_session_token(token, &keys, now), Ok(5));
}

#[test]
fn signup_hashes_and_issues_cookie() {
    let keys = keys();
    let now: usize = 1_700_000_000;
    let (hash, cookie) = signup_user(9, "first password", now, &keys).expect("signup succeeds");
    assert!(plant_track::auth::check_password(&String::from("first password"), &hash));
    let token = cookie
        .strip_prefix("token=")
        .and_then(|rest| rest.strip_suffix("; HttpOnly; SameSite=Strict"))
        .expect("cookie has the expected shape");
    assert_eq!(decode_session_token(token, &keys, now), Ok(9));
}
