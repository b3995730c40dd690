//! Credential endpoints: registration, token issuance, authentication,
//! expiry and revocation.

use vertex::auth::{hash_password, prepare_username, HashSchemeVersion};
use vertex::handler::{ServerConfig, ServerState};
use vertex::proto::{AuthError, TokenCreationOptions, UserCredentials};
use vertex::{TokenPermissionFlags, PERM_ALL};

fn config() -> ServerConfig {
    ServerConfig { token_expiry_days: 30, max_invite_codes_per_community: 5 }
}

fn creds(username: &str, password: &str) -> UserCredentials {
    UserCredentials { username: username.to_string(), password: password.to_string() }
}

fn options() -> TokenCreationOptions {
    TokenCreationOptions {
        device_name: None,
        expiration_date: None,
        permission_flags: TokenPermissionFlags(PERM_ALL),
    }
}

#[test]
fn prepare_username_trims_and_folds() {
    let out = prepare_username("  Alice ").expect("name should be accepted");
    assert_eq!(out, b"alice".to_vec());
}

#[test]
fn prepare_username_rejects_bad_bytes() {
    assert!(prepare_username("al ice").is_err());
    assert!(prepare_username("   ").is_err());
    assert!(prepare_username("al!ce").is_err());
}

#[test]
fn prepare_username_accepts_digits_and_separators() {
    let out = prepare_username("User_07-x").expect("name should be accepted");
    assert_eq!(out, b"user_07-x".to_vec());
}

#[test]
fn digest_is_deterministic_and_scheme_dependent() {
    let a = hash_password("hunter2", HashSchemeVersion::V2);
    let b = hash_password("hunter2", HashSchemeVersion::V2);
    let c = hash_password("hunter2", HashSchemeVersion::V1);
    let d = hash_password("hunter3", HashSchemeVersion::V2);
    assert_eq!(a, b);
    assert_ne!(a, c);
    assert_ne!(a, d);
}

#[test]
fn register_rejects_duplicates_and_bad_input() {
    let mut state = ServerState::new(config());
    assert!(state.register(creds("alice", "pw!"), None).is_ok());
    assert_eq!(
        state.register(creds("  ALICE ", "other"), None),
        Err(AuthError::UsernameAlreadyExists)
    );
    assert_eq!(state.register(creds("???", "pw"), None), Err(AuthError::InvalidUsername));
    assert_eq!(state.register(creds("bob", ""), None), Err(AuthError::InvalidPassword));
}

#[test]
fn token_round_trip_until_revoked_or_expired() {
    let mut state = ServerState::new(config());
    state.register(creds("alice", "pw!"), None).expect("registration should succeed");

    let (device, token) = state
        .create_token(creds("alice", "pw!"), options(), 1_000)
        .expect("token creation should succeed");

    // the freshly issued token authenticates
    let auth = state.authenticate(device, token, 1_100).expect("token should authenticate");
    let (_user, perms, _hsv) = auth;
    assert_eq!(perms, TokenPermissionFlags(PERM_ALL));

    // it keeps authenticating within the expiry window
    state.authenticate(device, token, 2_000).expect("token should still authenticate");

    // past the window it is expired
    let expired_at = 2_000 + 31 * vertex::SECONDS_PER_DAY;
    assert_eq!(state.authenticate(device, token, expired_at), Err(AuthError::TokenExpired));

    // once revoked it is gone entirely
    state.revoke_token(creds("alice", "pw!"), device).expect("revocation should succeed");
    assert_eq!(state.authenticate(device, token, 2_100), Err(AuthError::InvalidToken));
}

#[test]
fn wrong_credentials_are_rejected() {
    let mut state = ServerState::new(config());
    state.register(creds("alice", "pw!"), None).expect("registration should succeed");
    assert_eq!(
        state.create_token(creds("alice", "nope"), options(), 0).err(),
        Some(AuthError::IncorrectCredentials)
    );
    assert_eq!(
        state.create_token(creds("nobody", "pw!"), options(), 0).err(),
        Some(AuthError::IncorrectCredentials)
    );
}

#[test]
fn locked_banned_compromised_accounts_are_refused() {
    let mut state = ServerState::new(config());
    let alice = state.register(creds("alice", "pw!"), None).unwrap();
    state.db.set_locked(alice, true).unwrap();
    assert_eq!(state.create_token(creds("alice", "pw!"), options(), 0), Err(AuthError::UserLocked));
    state.db.set_locked(alice, false).unwrap();
    state.db.set_banned(alice, true).unwrap();
    assert_eq!(state.create_token(creds("alice", "pw!"), options(), 0), Err(AuthError::UserBanned));
}

#[test]
fn change_password_invalidates_other_logins() {
    let mut state = ServerState::new(config());
    state.register(creds("alice", "pw!"), None).unwrap();
    let (device, token) = state.create_token(creds("alice", "pw!"), options(), 0).unwrap();

    state
        .change_password(creds("alice", "pw!"), "fresh".to_string())
        .expect("password change should succeed");

    // the old token was deleted by the change
    assert_eq!(state.authenticate(device, token, 10), Err(AuthError::InvalidToken));

    // the new password works, the old one does not
    assert!(state.create_token(creds("alice", "fresh"), options(), 20).is_ok());
    assert_eq!(
        state.create_token(creds("alice", "pw!"), options(), 20).err(),
        Some(AuthError::IncorrectCredentials)
    );
}

#[test]
fn bad_token_value_is_rejected() {
    let mut state = ServerState::new(config());
    state.register(creds("alice", "pw!"), None).unwrap();
    let (device, token) = state.create_token(creds("alice", "pw!"), options(), 0).unwrap();
    let wrong = vertex::AuthToken(token.0 ^ 1);
    assert_eq!(state.authenticate(device, wrong, 1), Err(AuthError::InvalidToken));
}
