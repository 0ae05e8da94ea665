use rapina::auth::AuthConfig;
use reeverb::auth::{check_credentials, login, me, register, register_with, LoginRequest, RegisterRequest};
use reeverb::error::{ApiError, AuthError};
use reeverb::model::Store;
use uuid::Uuid;

fn config() -> AuthConfig {
    AuthConfig::new("test-secret", 3600)
}

fn now() -> u64 {
    std::time::SystemTime::now().duration_since(std::time::UNIX_EPOCH).unwrap().as_secs()
}

fn unique_email() -> String {
    format!("test-{}@example.com", Uuid::new_v4())
}

// An account whose password is hashed at the lowest work factor, so that
// checking it stays quick.
fn add_account(db: &mut Store, email: &str, password: &str, name: Option<&str>) -> String {
    let hash = bcrypt::hash(password, 4).unwrap();
    let req = RegisterRequest {
        email: email.to_string(),
        password: password.to_string(),
        name: name.map(|n| n.to_string()),
    };
    let resp = register_with(db, req, Uuid::new_v4().as_u128(), hash, "token".to_string(), 3600).unwrap();
    resp.user.id
}

#[test]
fn register_returns_token_and_user() {
    let mut db = Store::new();
    let email = unique_email();
    let req = RegisterRequest {
        email: email.clone(),
        password: "password123".to_string(),
        name: Some("Test User".to_string()),
    };
    let res = register(&mut db, &config(), req, now()).unwrap();
    assert!(!res.token.is_empty());
    assert_eq!(res.expires_in, 3600);
    assert_eq!(res.user.email, email);
    assert_eq!(res.user.name, Some("Test User".to_string()));
    assert!(Uuid::parse_str(&res.user.id).is_ok());
    let stored = db.users[0].password_hash.clone().unwrap();
    assert_ne!(stored, "password123");
    assert!(bcrypt::verify("password123", &stored).unwrap());
    assert_eq!(config().decode(&res.token).unwrap().sub, res.user.id);
}

#[test]
fn register_duplicate_email_returns_conflict() {
    let mut db = Store::new();
    let email = unique_email();
    add_account(&mut db, &email, "password123", None);
    let req = RegisterRequest { email: email.clone(), password: "other".to_string(), name: None };
    let res = register(&mut db, &config(), req, now());
    assert!(matches!(res, Err(ApiError::Conflict)));
    assert_eq!(res.unwrap_err().status(), 409);
    assert_eq!(db.users.len(), 1);
}

#[test]
fn login_returns_token() {
    let mut db = Store::new();
    let email = unique_email();
    add_account(&mut db, &email, "password123", None);
    let res = login(&db, &config(), LoginRequest { email: email.clone(), password: "password123".to_string() }, now())
        .unwrap();
    assert!(!res.token.is_empty());
    assert_eq!(res.user.email, email);
    assert_eq!(config().decode(&res.token).unwrap().sub, res.user.id);
}

#[test]
fn login_wrong_password_returns_unauthorized() {
    let mut db = Store::new();
    let email = unique_email();
    add_account(&mut db, &email, "password123", None);
    let res = login(&db, &config(), LoginRequest { email, password: "wrong".to_string() }, now());
    assert!(matches!(res, Err(ApiError::Unauthenticated)));
    assert_eq!(res.unwrap_err().status(), 401);
}

#[test]
fn login_nonexistent_email_returns_unauthorized() {
    let db = Store::new();
    let res = login(
        &db,
        &config(),
        LoginRequest { email: "nobody@example.com".to_string(), password: "password123".to_string() },
        now(),
    );
    assert!(matches!(res, Err(ApiError::Unauthenticated)));
}

#[test]
fn me_with_valid_token_returns_user() {
    let mut db = Store::new();
    let email = unique_email();
    let subject = add_account(&mut db, &email, "password123", Some("Auth User"));
    let user = me(&db, &subject).unwrap();
    assert_eq!(user.email, email);
    assert_eq!(user.name, Some("Auth User".to_string()));
    assert_eq!(user.id, subject);
}

#[test]
fn me_without_token_returns_unauthorized() {
    let db = Store::new();
    assert!(matches!(me(&db, ""), Err(ApiError::Unauthenticated)));
}

#[test]
fn me_with_invalid_token_returns_unauthorized() {
    let db = Store::new();
    assert!(matches!(me(&db, "invalid.token.here"), Err(ApiError::Unauthenticated)));
}

#[test]
fn me_for_unknown_account_is_unauthenticated() {
    let mut db = Store::new();
    add_account(&mut db, &unique_email(), "password123", None);
    let stranger = Uuid::new_v4().to_string();
    assert!(matches!(me(&db, &stranger), Err(ApiError::Unauthenticated)));
}

#[test]
fn account_without_password_cannot_log_in() {
    let mut db = Store::new();
    let email = unique_email();
    add_account(&mut db, &email, "password123", None);
    db.users[0].password_hash = None;
    let res = check_credentials(&db, &email, &"password123".to_string());
    assert!(matches!(res, Err(ApiError::Unauthenticated)));
}

#[test]
fn malformed_stored_hash_cannot_log_in() {
    let mut db = Store::new();
    let email = unique_email();
    add_account(&mut db, &email, "password123", None);
    db.users[0].password_hash = Some("not-a-hash".to_string());
    let res = check_credentials(&db, &email, &"password123".to_string());
    assert!(matches!(res, Err(ApiError::Unauthenticated)));
}

#[test]
fn check_credentials_finds_the_account() {
    let mut db = Store::new();
    add_account(&mut db, &unique_email(), "first", None);
    let email = unique_email();
    add_account(&mut db, &email, "second", None);
    assert_eq!(check_credentials(&db, &email, &"second".to_string()).unwrap(), 1);
}

#[test]
fn register_with_reused_identifier_is_internal() {
    let mut db = Store::new();
    let pid = Uuid::new_v4().as_u128();
    let first = RegisterRequest { email: unique_email(), password: "a".to_string(), name: None };
    register_with(&mut db, first, pid, "h".to_string(), "t".to_string(), 60).unwrap();
    let second = RegisterRequest { email: unique_email(), password: "b".to_string(), name: None };
    let res = register_with(&mut db, second, pid, "h".to_string(), "t".to_string(), 60);
    assert!(matches!(res, Err(ApiError::Internal)));
    assert_eq!(db.users.len(), 1);
}

#[test]
fn register_with_keeps_token_and_ids() {
    let mut db = Store::new();
    let pid = 0xa1a2a3a4b1b2c1c2d1d2d3d4d5d6d7d8u128;
    let req = RegisterRequest { email: "a@example.com".to_string(), password: "a".to_string(), name: None };
    let res = register_with(&mut db, req, pid, "h".to_string(), "tok".to_string(), 60).unwrap();
    assert_eq!(res.token, "tok");
    assert_eq!(res.expires_in, 60);
    assert_eq!(res.user.id, "a1a2a3a4-b1b2-c1c2-d1d2-d3d4d5d6d7d8");
    assert_eq!(res.user.avatar_url, None);
    assert_eq!(db.users[0].id, 1);
    assert_eq!(db.users[0].password_hash, Some("h".to_string()));
    assert_eq!(db.next_id, 2);
}

#[test]
fn auth_errors_map_to_statuses() {
    assert_eq!(AuthError::InvalidCredentials.into_api_error().status(), 401);
    assert_eq!(AuthError::EmailTaken.into_api_error().status(), 409);
    assert_eq!(AuthError::HashError.into_api_error().status(), 500);
    assert_eq!(AuthError::Internal.into_api_error().status(), 500);
    assert_eq!(AuthError::EmailTaken.message(), "email already registered");
    assert_eq!(AuthError::InvalidCredentials.message(), "invalid credentials");
    let table = AuthError::error_variants();
    let statuses: Vec<u16> = table.iter().map(|v| v.status).collect();
    assert_eq!(statuses, vec![401, 409, 500]);
    assert_eq!(table[0].description, "Invalid email or password");
}

#[test]
fn token_whose_expiry_overflows_is_refused() {
    let mut db = Store::new();
    let email = unique_email();
    add_account(&mut db, &email, "password123", None);
    let long = AuthConfig::new("test-secret", u64::MAX);
    let res = login(&db, &long, LoginRequest { email, password: "password123".to_string() }, now());
    assert!(matches!(res, Err(ApiError::Internal)));
}

#[test]
fn token_carries_issue_time_and_expiry() {
    let mut db = Store::new();
    let email = unique_email();
    let subject = add_account(&mut db, &email, "password123", None);
    let t = now();
    let res = login(&db, &config(), LoginRequest { email, password: "password123".to_string() }, t).unwrap();
    let claims = config().decode(&res.token).unwrap();
    assert_eq!(claims.sub, subject);
    assert_eq!(claims.iat, t);
    assert_eq!(claims.exp, t + 3600);
    assert_eq!(res.expires_in, 3600);
}
