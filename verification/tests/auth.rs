use web_service::error::Error;
use web_service::rate_limit::{allow_attempt, record_failure, LoginAttempts, MAX_FAILURES};
use web_service::routes::auth::{
    auth_response, authorize_change, begin_attempt, bearer_from_header, finish_guest_token,
    finish_login, finish_register, login_credentials, require_auth, start_login, start_register,
    validate_registration, Credentials,
};
use web_service::types::user::{AuthUser, LoginRequest, RegisterRequest, UserRole};

fn some(s: &str) -> Option<String> {
    Some(s.to_string())
}

fn guest(id: i32) -> AuthUser {
    AuthUser { id, role: UserRole::Token, username: None, display_name: Some(format!("guest-{id}")) }
}

#[test]
fn bearer_tokens() {
    assert_eq!(bearer_from_header(some("Bearer abc")), some("abc"));
    assert_eq!(bearer_from_header(some("bearer  abc  ")), some("abc"));
    assert_eq!(bearer_from_header(some("Bearer    ")), None);
    assert_eq!(bearer_from_header(some("Basic abc")), None);
    assert_eq!(bearer_from_header(some("BEARER abc")), None);
    assert_eq!(bearer_from_header(some("Bearerabc")), None);
    assert_eq!(bearer_from_header(None), None);
}

#[test]
fn mutations_need_a_session() {
    assert!(matches!(require_auth(None), Err(Error::Unauthorized)));
    assert!(matches!(require_auth(some("Bearer ")), Err(Error::Unauthorized)));
    assert_eq!(require_auth(some("Bearer s3cret")).unwrap(), "s3cret");
}

#[test]
fn registration_rules() {
    let ok = validate_registration(&RegisterRequest {
        username: "  alice ".to_string(),
        password: "password123".to_string(),
    });
    assert_eq!(ok.unwrap(), "alice");
    let short = validate_registration(&RegisterRequest {
        username: " ab ".to_string(),
        password: "password123".to_string(),
    });
    match short {
        Err(Error::ValidationError(m)) => assert_eq!(m, "username must be 3-64 characters"),
        other => panic!("{other:?}"),
    }
    let long = validate_registration(&RegisterRequest {
        username: "x".repeat(65),
        password: "password123".to_string(),
    });
    assert!(matches!(long, Err(Error::ValidationError(_))));
    let edge = validate_registration(&RegisterRequest {
        username: "x".repeat(64),
        password: "12345678".to_string(),
    });
    assert!(edge.is_ok());
    let weak = validate_registration(&RegisterRequest {
        username: "alice".to_string(),
        password: "1234567".to_string(),
    });
    match weak {
        Err(Error::ValidationError(m)) => assert_eq!(m, "password must be at least 8 characters"),
        other => panic!("{other:?}"),
    }
}

#[test]
fn lengths_are_counted_in_bytes() {
    // two characters, four bytes
    let r = validate_registration(&RegisterRequest {
        username: "éé".to_string(),
        password: "ääää".to_string(),
    });
    assert_eq!(r.unwrap(), "éé");
}

#[test]
fn login_credentials_choice() {
    let token = login_credentials(&LoginRequest {
        username: some("bob"),
        password: some("pw"),
        sign_in_token: some("  tok  "),
    });
    match token {
        Ok(Credentials::SignInToken(t)) => assert_eq!(t, "tok"),
        _ => panic!("expected token"),
    }
    let pw = login_credentials(&LoginRequest {
        username: some(" bob "),
        password: some(" pw "),
        sign_in_token: some("   "),
    });
    match pw {
        Ok(Credentials::Password { username, password }) => {
            assert_eq!(username, "bob");
            assert_eq!(password, " pw ");
        }
        _ => panic!("expected password"),
    }
    let none = login_credentials(&LoginRequest { username: some("bob"), password: some(""), sign_in_token: None });
    match none {
        Err(Error::ValidationError(m)) => assert_eq!(m, "provide username+password or sign_in_token"),
        _ => panic!("expected validation error"),
    }
}

#[test]
fn login_failures_are_counted_and_success_resets() {
    let mut a = LoginAttempts::new();
    for i in 0..MAX_FAILURES as u64 {
        assert!(begin_attempt(&mut a, "ip", i).is_ok());
        let r = finish_login(&mut a, "ip", i, Err(Error::Unauthorized));
        assert!(matches!(r, Err(Error::Unauthorized)));
    }
    assert!(matches!(begin_attempt(&mut a, "ip", 20), Err(Error::TooManyRequests)));
    let r = finish_login(&mut a, "ip", 21, Ok(guest(1)));
    assert_eq!(r.unwrap().id, 1);
    assert!(begin_attempt(&mut a, "ip", 22).is_ok());
}

#[test]
fn other_login_errors_are_not_counted() {
    let mut a = LoginAttempts::new();
    for i in 0..(2 * MAX_FAILURES as u64) {
        let r = finish_login(&mut a, "ip", i, Err(Error::DatabaseQueryError));
        assert!(matches!(r, Err(Error::DatabaseQueryError)));
    }
    assert!(allow_attempt(&mut a, "ip", 100));
}

#[test]
fn taken_names_are_counted() {
    let mut a = LoginAttempts::new();
    for i in 0..MAX_FAILURES as u64 {
        let r = finish_register(&mut a, "ip", i, Err(Error::Conflict("x".into())));
        match r {
            Err(Error::Conflict(m)) => assert_eq!(m, "username already taken"),
            other => panic!("{other:?}"),
        }
    }
    assert!(!allow_attempt(&mut a, "ip", 50));
    let ok = finish_register(&mut a, "ip", 51, Ok(guest(2)));
    assert!(ok.is_ok());
    assert!(allow_attempt(&mut a, "ip", 52));
}

#[test]
fn guest_sign_up_resets() {
    let mut a = LoginAttempts::new();
    for _ in 0..MAX_FAILURES {
        record_failure(&mut a, "ip", 1);
    }
    let r = finish_guest_token(&mut a, "ip", Ok((guest(9), "secret".to_string())));
    assert_eq!(r.unwrap().1, "secret");
    assert!(allow_attempt(&mut a, "ip", 2));
}

#[test]
fn replies_carry_the_public_user() {
    let r = auth_response("sess".to_string(), &guest(3), some("tok"));
    assert_eq!(r.token, "sess");
    assert_eq!(r.user.id, 3);
    assert_eq!(r.user.role, UserRole::Token);
    assert_eq!(r.sign_in_token.as_deref(), Some("tok"));
}

#[test]
fn changes_by_others_are_forbidden() {
    assert!(authorize_change(&guest(1), Some(1)).is_ok());
    assert!(matches!(authorize_change(&guest(1), Some(2)), Err(Error::Forbidden)));
    let admin = AuthUser { id: 7, role: UserRole::Admin, username: some("root"), display_name: None };
    assert!(authorize_change(&admin, Some(2)).is_ok());
}

#[test]
fn blocked_clients_are_refused_before_their_body_is_read() {
    let mut a = LoginAttempts::new();
    for _ in 0..MAX_FAILURES {
        record_failure(&mut a, "ip", 1);
    }
    let body = LoginRequest { username: None, password: None, sign_in_token: some("tok") };
    assert!(matches!(start_login(&mut a, "ip", 2, &body), Err(Error::TooManyRequests)));
    let reg = RegisterRequest { username: "alice".to_string(), password: "password123".to_string() };
    assert!(matches!(start_register(&mut a, "ip", 2, &reg), Err(Error::TooManyRequests)));
    let mut b = LoginAttempts::new();
    match start_login(&mut b, "ip", 2, &body) {
        Ok(Credentials::SignInToken(t)) => assert_eq!(t, "tok"),
        _ => panic!("expected token"),
    }
    assert_eq!(start_register(&mut b, "ip", 2, &reg).unwrap(), "alice");
    let bad = LoginRequest { username: None, password: None, sign_in_token: None };
    assert!(matches!(start_login(&mut b, "ip", 3, &bad), Err(Error::ValidationError(_))));
    assert!(allow_attempt(&mut b, "ip", 4));
}
