use shop_core::auth::{Auth, THIRTY_DAYS};
use shop_core::claims::Role;
use shop_core::error::{AppError, AuthErrorCode, Fault, Invalid};
use shop_core::guard::RoleGuard;

fn auth() -> Auth {
    Auth::new(Some("password-secret".to_string()), Some("token-secret".to_string()))
}

#[test]
fn hashed_password_verifies() {
    let a = auth();
    let h = a.hash_password("Str0ng!Pw").unwrap();
    assert_ne!(h, "Str0ng!Pw");
    assert!(h.starts_with("$argon2id$"));
    assert_eq!(a.verify_password("Str0ng!Pw", &h), Ok(true));
}

#[test]
fn other_password_does_not_verify() {
    let a = auth();
    let h = a.hash_password("Str0ng!Pw").unwrap();
    assert_eq!(a.verify_password("Str0ng!Px", &h), Ok(false));
}

#[test]
fn hashes_are_salted() {
    let a = auth();
    let h1 = a.hash_password("Str0ng!Pw").unwrap();
    let h2 = a.hash_password("Str0ng!Pw").unwrap();
    assert_ne!(h1, h2);
}

#[test]
fn hash_of_other_secret_does_not_verify() {
    let a = auth();
    let b = Auth::new(Some("another-secret".to_string()), Some("token-secret".to_string()));
    let h = a.hash_password("Str0ng!Pw").unwrap();
    assert_eq!(b.verify_password("Str0ng!Pw", &h), Ok(false));
}

#[test]
fn malformed_hash_is_an_error() {
    let a = auth();
    assert_eq!(
        a.verify_password("Str0ng!Pw", "not a hash"),
        Err(AppError::Internal(Fault::MalformedPasswordHash))
    );
}

#[test]
fn missing_password_secret_is_an_error() {
    let a = Auth::new(None, Some("token-secret".to_string()));
    assert_eq!(a.hash_password("Str0ng!Pw"), Err(AppError::Internal(Fault::MissingPasswordSecret)));
}

#[test]
fn issued_token_verifies_to_its_claims() {
    let a = auth();
    let t = a.create_token_at(42, Role::Customer, 3600, 1_700_000_000).unwrap();
    let c = a.verify_token_at(&t, 1_700_000_000).unwrap();
    assert_eq!(c.user_id, 42);
    assert_eq!(c.role, Role::Customer);
    assert_eq!(c.iat, 1_700_000_000);
    assert_eq!(c.exp, 1_700_003_600);
}

#[test]
fn token_is_valid_up_to_its_expiry_second() {
    let a = auth();
    let t = a.create_token_at(7, Role::Supplier, 10, 100).unwrap();
    assert!(a.verify_token_at(&t, 110).is_ok());
    assert_eq!(
        a.verify_token_at(&t, 111),
        Err(AppError::Auth { code: AuthErrorCode::TokenExpired, user_id: None })
    );
}

#[test]
fn token_with_negative_lifetime_is_expired_at_once() {
    let a = auth();
    let t = a.create_token_at(1, Role::Customer, -1, 1_000).unwrap();
    assert_eq!(
        a.verify_token_at(&t, 1_000),
        Err(AppError::Auth { code: AuthErrorCode::TokenExpired, user_id: None })
    );
}

#[test]
fn token_with_clock_round_trips() {
    let a = auth();
    let t = a.create_token(5, Role::Supplier, 60).unwrap();
    let c = a.verify_token(&t).unwrap();
    assert_eq!((c.user_id, c.role), (5, Role::Supplier));
    let expired = a.create_token(5, Role::Supplier, -1).unwrap();
    assert_eq!(
        a.verify_token(&expired),
        Err(AppError::Auth { code: AuthErrorCode::TokenExpired, user_id: None })
    );
}

#[test]
fn token_has_three_url_safe_parts() {
    let a = auth();
    let t = a.create_token_at(42, Role::Customer, 3600, 1_700_000_000).unwrap();
    let parts: Vec<&str> = t.split('.').collect();
    assert_eq!(parts.len(), 3);
    assert_eq!(parts[0], "eyJ0eXAiOiJKV1QiLCJhbGciOiJIUzI1NiJ9");
    assert_eq!(
        parts[1],
        "eyJ1c2VyX2lkIjoiNDIiLCJyb2xlIjoiY3VzdG9tZXIiLCJleHAiOjE3MDAwMDM2MDAsImlhdCI6MTcwMDAwMDAwMH0"
    );
    assert_eq!(parts[2].len(), 43);
    assert!(t.chars().all(|c| c.is_ascii_alphanumeric() || c == '-' || c == '_' || c == '.'));
}

#[test]
fn token_of_other_secret_is_invalid() {
    let a = auth();
    let b = Auth::new(None, Some("other".to_string()));
    let t = a.create_token_at(42, Role::Customer, 3600, 100).unwrap();
    assert_eq!(
        b.verify_token_at(&t, 100),
        Err(AppError::Auth { code: AuthErrorCode::InvalidCredentials, user_id: None })
    );
}

#[test]
fn tampered_token_is_invalid() {
    let a = auth();
    let t = a.create_token_at(42, Role::Customer, 3600, 100).unwrap();
    let other = a.create_token_at(43, Role::Supplier, 3600, 100).unwrap();
    let p: Vec<&str> = t.split('.').collect();
    let q: Vec<&str> = other.split('.').collect();
    let forged = format!("{}.{}.{}", p[0], q[1], p[2]);
    let invalid = Err(AppError::Auth { code: AuthErrorCode::InvalidCredentials, user_id: None });
    assert_eq!(a.verify_token_at(&forged, 100), invalid);
    assert_eq!(a.verify_token_at("garbage", 100), invalid);
    assert_eq!(a.verify_token_at("a.b.c", 100), invalid);
    assert_eq!(a.verify_token_at("", 100), invalid);
    assert_eq!(a.verify_token_at("é.é.é", 100), invalid);
}

#[test]
fn missing_token_secret_is_an_error() {
    let a = Auth::new(None, None);
    assert_eq!(a.create_token_at(1, Role::Customer, 10, 0), Err(AppError::Internal(Fault::MissingTokenSecret)));
    assert_eq!(a.verify_token_at("x.y.z", 0), Err(AppError::Internal(Fault::MissingTokenSecret)));
}

#[test]
fn expiry_past_the_clock_range_is_an_error() {
    let a = auth();
    assert_eq!(
        a.create_token_at(1, Role::Customer, i64::MAX, 10),
        Err(AppError::Internal(Fault::TimeOutOfRange))
    );
}

#[test]
fn refresh_keeps_subject_and_role() {
    let a = auth();
    let t = a.create_token_at(9, Role::Supplier, 60, 1_000).unwrap();
    let r = a.refresh_token_at(&t, 1_030).unwrap();
    let c = a.verify_token_at(&r, 1_030).unwrap();
    assert_eq!((c.user_id, c.role, c.iat, c.exp), (9, Role::Supplier, 1_030, 1_030 + THIRTY_DAYS));
    assert!(a.verify_token_at(&t, 1_030).is_ok());
}

#[test]
fn refresh_of_expired_token_fails() {
    let a = auth();
    let t = a.create_token_at(9, Role::Supplier, 60, 1_000).unwrap();
    assert_eq!(
        a.refresh_token_at(&t, 2_000),
        Err(AppError::Auth { code: AuthErrorCode::TokenExpired, user_id: None })
    );
}

#[test]
fn verify_role_compares_the_claim() {
    let a = auth();
    let t = a.create_token(3, Role::Customer, 60).unwrap();
    assert_eq!(a.verify_role(&t, Role::Customer), Ok(true));
    assert_eq!(a.verify_role(&t, Role::Supplier), Ok(false));
}

#[test]
fn supplier_guard_refuses_customers() {
    let a = auth();
    let guard = RoleGuard::new(vec![Role::Supplier]);
    let customer = a.verify_token_at(&a.create_token_at(4, Role::Customer, 60, 0).unwrap(), 0).unwrap();
    let supplier = a.verify_token_at(&a.create_token_at(5, Role::Supplier, 60, 0).unwrap(), 0).unwrap();
    assert_eq!(
        guard.authorize(&customer),
        Err(AppError::Auth { code: AuthErrorCode::InsufficientPermissions, user_id: Some(4) })
    );
    assert_eq!(guard.authorize(&supplier), Ok(()));
}

#[test]
fn guard_checks_the_bearer_token() {
    let a = auth();
    let guard = RoleGuard::new(vec![Role::Customer, Role::Supplier]);
    let t = a.create_token_at(4, Role::Customer, 60, 0).unwrap();
    assert_eq!(guard.check_at(&a, Some(&t), 0).map(|c| c.user_id), Ok(4));
    assert_eq!(
        guard.check_at(&a, None, 0),
        Err(AppError::Auth { code: AuthErrorCode::InvalidCredentials, user_id: None })
    );
    assert_eq!(
        guard.check_at(&a, Some(&t), 61),
        Err(AppError::Auth { code: AuthErrorCode::TokenExpired, user_id: None })
    );
}

#[test]
fn password_strength_rules() {
    assert_eq!(Auth::check_password_strength("Str0ng!Pw"), Ok(()));
    let weak = Err(AppError::ValidationError(Invalid::WeakPassword));
    assert_eq!(Auth::check_password_strength("Sh0rt!p"), weak);
    assert_eq!(Auth::check_password_strength("nouppercase0!"), weak);
    assert_eq!(Auth::check_password_strength("NOLOWERCASE0!"), weak);
    assert_eq!(Auth::check_password_strength("NoDigitsHere!"), weak);
    assert_eq!(Auth::check_password_strength("NoSpecial123"), weak);
}

#[test]
fn email_rules() {
    assert_eq!(Auth::check_email("a@b.com"), Ok(()));
    assert_eq!(Auth::check_email("first.last+tag@mail.example.org"), Ok(()));
    let bad = Err(AppError::ValidationError(Invalid::MalformedEmail));
    assert_eq!(Auth::check_email("a@b"), bad);
    assert_eq!(Auth::check_email("@b.com"), bad);
    assert_eq!(Auth::check_email("a@.com"), bad);
    assert_eq!(Auth::check_email("a@b.c"), bad);
    assert_eq!(Auth::check_email("a@b.c0m"), bad);
    assert_eq!(Auth::check_email("a b@c.com"), bad);
    assert_eq!(Auth::check_email("a@b@c.com"), bad);
    assert_eq!(Auth::check_email(""), bad);
}

#[test]
fn error_codes_read_as_clients_expect() {
    assert_eq!(AuthErrorCode::InvalidCredentials.code(), "INVALID_CREDENTIALS");
    assert_eq!(AuthErrorCode::TokenExpired.code(), "TOKEN_EXPIRED");
    assert_eq!(AuthErrorCode::InsufficientPermissions.code(), "INSUFFICIENT_PERMISSIONS");
}
