use imgstore::credentials::{
    UserCredentials, UserError, UserStore, create_user, create_user_with_costs, validate_user,
};
use imgstore::token::{TOKEN_TTL_SECONDS, bearer_token, issue_token, verify_token};

// Cheap hashing costs so each test stays fast; the costs are baked into the
// stored hash, so verification picks them up from there.
const M: u32 = 64;
const T: u32 = 1;
const P: u32 = 1;

fn creds(username: &str, password: &str) -> UserCredentials {
    UserCredentials { username: username.to_string(), password: password.to_string() }
}

#[test]
fn create_then_validate_succeeds() {
    let mut users = UserStore::new();
    let c = creds("alice", "correct horse");
    let created = create_user_with_costs(&mut users, &c, 7, M, T, P).expect("fresh username");
    assert_eq!(created.username, "alice");
    assert_eq!(created.created_at, 7);
    // The stored value is a self-describing hash, never the plaintext.
    assert_ne!(created.password, "correct horse");
    assert!(created.password.starts_with("$argon2id$"));
    let validated = validate_user(&users, &c).expect("same credentials validate");
    assert_eq!(validated.username, "alice");
}

#[test]
fn wrong_password_is_invalid_credentials() {
    let mut users = UserStore::new();
    create_user_with_costs(&mut users, &creds("alice", "right"), 0, M, T, P).unwrap();
    let r = validate_user(&users, &creds("alice", "wrong"));
    assert!(matches!(r, Err(UserError::InvalidCredentials)));
}

#[test]
fn unknown_user_is_indistinguishable_from_wrong_password() {
    let mut users = UserStore::new();
    create_user_with_costs(&mut users, &creds("alice", "right"), 0, M, T, P).unwrap();
    let unknown = validate_user(&users, &creds("bob", "right"));
    let wrong = validate_user(&users, &creds("alice", "wrong"));
    assert!(matches!(unknown, Err(UserError::InvalidCredentials)));
    assert!(matches!(wrong, Err(UserError::InvalidCredentials)));
}

#[test]
fn duplicate_username_is_rejected() {
    let mut users = UserStore::new();
    create_user_with_costs(&mut users, &creds("alice", "one"), 0, M, T, P).unwrap();
    let r = create_user_with_costs(&mut users, &creds("alice", "two"), 1, M, T, P);
    assert!(matches!(r, Err(UserError::UsernameExists)));
}

#[test]
fn empty_password_does_not_validate_other_passwords() {
    let mut users = UserStore::new();
    create_user_with_costs(&mut users, &creds("edge", ""), 0, M, T, P).unwrap();
    assert!(validate_user(&users, &creds("edge", "")).is_ok());
    assert!(matches!(
        validate_user(&users, &creds("edge", "x")),
        Err(UserError::InvalidCredentials)
    ));
}

#[test]
fn unicode_password_round_trips_and_near_misses_fail() {
    let mut users = UserStore::new();
    create_user_with_costs(&mut users, &creds("uni", "pässwörd✓"), 0, M, T, P).unwrap();
    assert!(validate_user(&users, &creds("uni", "pässwörd✓")).is_ok());
    assert!(matches!(
        validate_user(&users, &creds("uni", "pässwörd")),
        Err(UserError::InvalidCredentials)
    ));
}

#[test]
fn long_password_round_trips_and_truncations_fail() {
    let long: String = "a".repeat(1024);
    let mut users = UserStore::new();
    create_user_with_costs(&mut users, &creds("long", &long), 0, M, T, P).unwrap();
    assert!(validate_user(&users, &creds("long", &long)).is_ok());
    let shorter: String = "a".repeat(1023);
    assert!(matches!(
        validate_user(&users, &creds("long", &shorter)),
        Err(UserError::InvalidCredentials)
    ));
}

#[test]
fn stored_hash_is_not_a_valid_password() {
    let mut users = UserStore::new();
    let user = create_user_with_costs(&mut users, &creds("alice", "pw"), 0, M, T, P).unwrap();
    let r = validate_user(&users, &creds("alice", &user.password));
    assert!(matches!(r, Err(UserError::InvalidCredentials)));
}

#[test]
fn rejected_hashing_costs_are_a_hash_error() {
    let mut users = UserStore::new();
    // A zero memory cost is below the hashing layer's minimum.
    let r = create_user_with_costs(&mut users, &creds("alice", "pw"), 0, 0, 1, 1);
    assert!(matches!(r, Err(UserError::HashError)));
    // Nothing was stored: the username is still free.
    assert!(create_user_with_costs(&mut users, &creds("alice", "pw"), 0, M, T, P).is_ok());
}

#[test]
fn default_costs_create_and_validate() {
    let mut users = UserStore::new();
    let c = creds("alice", "pw");
    let user = create_user(&mut users, &c, 0).expect("fresh username");
    assert!(user.password.starts_with("$argon2id$"));
    assert!(validate_user(&users, &c).is_ok());
}

#[test]
fn stored_hash_is_a_self_describing_argon2id_string() {
    let mut users = UserStore::new();
    let user = create_user_with_costs(&mut users, &creds("alice", "pw"), 0, M, T, P).unwrap();
    assert!(user.password.starts_with("$argon2id$v=19$m=64,t=1,p=1$"));
    // Prefix, 22 characters of encoded salt, a separator, 43 of the digest.
    assert_eq!(user.password.len(), "$argon2id$v=19$m=64,t=1,p=1$".len() + 66);
}

#[test]
fn bearer_token_extraction() {
    assert_eq!(bearer_token("Bearer abc.def.ghi"), Some("abc.def.ghi"));
    assert_eq!(bearer_token("Bearer "), Some(""));
    assert_eq!(bearer_token("Bearer é✓"), Some("é✓"));
    assert_eq!(bearer_token("bearer abc"), None);
    assert_eq!(bearer_token("Bearer"), None);
    assert_eq!(bearer_token(""), None);
    assert_eq!(bearer_token("Basic abc"), None);
}

#[test]
fn token_validates_before_expiry_and_not_after() {
    let secret = b"server-held secret";
    let now: u64 = 1_700_000_000;
    let token = issue_token("alice", secret, now).expect("signing succeeds");
    let claims = verify_token(&token, secret, now).expect("fresh token validates");
    assert_eq!(claims.sub, "alice");
    assert_eq!(claims.exp, now + TOKEN_TTL_SECONDS);
    assert!(verify_token(&token, secret, now + TOKEN_TTL_SECONDS - 1).is_some());
    assert!(verify_token(&token, secret, now + TOKEN_TTL_SECONDS).is_none());
    assert!(verify_token(&token, secret, now + TOKEN_TTL_SECONDS + 1).is_none());
}

#[test]
fn token_signed_with_another_secret_is_rejected() {
    let now: u64 = 1_700_000_000;
    let token = issue_token("alice", b"secret one", now).expect("signing succeeds");
    assert!(verify_token(&token, b"secret two", now).is_none());
}

#[test]
fn garbage_tokens_are_rejected() {
    let now: u64 = 1_700_000_000;
    assert!(verify_token("", b"secret", now).is_none());
    assert!(verify_token("not.a.token", b"secret", now).is_none());
    let real = issue_token("alice", b"secret", now).unwrap();
    let mut tampered = real.clone();
    tampered.push('x');
    assert!(verify_token(&tampered, b"secret", now).is_none());
}
