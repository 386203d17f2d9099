use plant_track::auth::{check_password, hash_password, AuthBody, AuthError};

#[test]
fn fresh_hash_verifies() {
    let hash = hash_password("hunter2").expect("hashing succeeds");
    assert!(check_password(&String::from("hunter2"), &hash));
}

#[test]
fn wrong_password_is_rejected() {
    let hash = hash_password("hunter2").expect("hashing succeeds");
    assert!(!check_password(&String::from("hunter3"), &hash));
    assert!(!check_password(&String::from(""), &hash));
}

#[test]
fn empty_password_round_trips() {
    let hash = hash_password("").expect("hashing succeeds");
    assert!(check_password(&String::from(""), &hash));
    assert!(!check_password(&String::from("x"), &hash));
}

#[test]
fn fresh_hash_has_bcrypt_shape() {
    let hash = hash_password("hunter2").expect("hashing succeeds");
    assert_eq!(hash.len(), 60);
    assert!(hash.is_ascii());
    assert!(hash.starts_with("$2b$12$"));
    assert_ne!(hash, "hunter2");
}

#[test]
fn malformed_hash_fails_closed() {
    assert!(!check_password(&String::from("hunter2"), &String::from("not a bcrypt hash")));
    assert!(!check_password(&String::from("hunter2"), &String::from("")));
}

#[test]
fn error_messages_and_statuses() {
    assert_eq!(AuthError::WrongCredentials.message(), "Wrong credentials");
    assert_eq!(AuthError::MissingCredentials.message(), "Missing credentials");
    assert_eq!(AuthError::TokenCreation.message(), "Token creation error");
    assert_eq!(AuthError::InvalidToken.message(), "Invalid token");
    assert_eq!(AuthError::WrongCredentials.status_code(), 401);
    assert_eq!(AuthError::MissingCredentials.status_code(), 400);
    assert_eq!(AuthError::TokenCreation.status_code(), 500);
    assert_eq!(AuthError::InvalidToken.status_code(), 400);
}

#[test]
fn auth_body_wraps_bearer_token() {
    let body = AuthBody::new(String::from("abc.def.ghi"));
    assert_eq!(body.access_token, "abc.def.ghi");
    assert_eq!(body.token_type, "Bearer");
}
