use web_service::auth_crypto::{check_password_row, hash_password, hash_token, verify_password};
use web_service::error::Error;
use web_service::store::user_of_found_row;
use web_service::types::user::UserRole;

const SALT: [u8; 16] = [7u8; 16];

#[test]
fn token_hash_is_sha256_hex() {
    assert_eq!(
        hash_token("abc"),
        "ba7816bf8f01cfea414140de5dae2223b00361a396177a9cb410ff61f20015ad"
    );
    assert_eq!(
        hash_token(""),
        "e3b0c44298fc1c149afbf4c8996fb92427ae41e4649b934ca495991b7852b855"
    );
    assert_eq!(hash_token("é").len(), 64);
    assert_ne!(hash_token("tok"), hash_token("tok "));
}

#[test]
fn hashed_password_verifies() {
    let h = hash_password("password123", &SALT).unwrap();
    assert_ne!(h, "password123");
    assert!(h.starts_with("$argon2"));
    assert_eq!(verify_password("password123", &h).unwrap(), true);
    assert_eq!(verify_password("password124", &h).unwrap(), false);
    assert!(matches!(verify_password("password123", "not a hash"), Err(Error::InternalServerError)));
}

#[test]
fn salts_that_are_too_short_are_refused() {
    assert!(matches!(hash_password("password123", &[1u8, 2]), Err(Error::InternalServerError)));
    assert!(matches!(hash_password("password123", &[1u8; 4]), Err(Error::InternalServerError)));
    assert!(matches!(hash_password("password123", &[1u8; 49]), Err(Error::InternalServerError)));
    assert!(hash_password("password123", &[1u8; 48]).is_ok());
}

fn row(role: &str, hash: Option<String>) -> Option<(i32, String, Option<String>, Option<String>, Option<String>)> {
    Some((
        3,
        role.to_string(),
        Some("testadmin".to_string()),
        Some("testadmin".to_string()),
        hash,
    ))
}

#[test]
fn bootstrap_admin_role() {
    let h = hash_password("testadminpass", &SALT).unwrap();
    let user = check_password_row(row("admin", Some(h)), "testadminpass").expect("admin login");
    assert_eq!(user.role, UserRole::Admin);
    assert_eq!(user.id, 3);
    assert_eq!(user.username.as_deref(), Some("testadmin"));
}

#[test]
fn password_login_outcomes() {
    let h = hash_password("secret-pass", &SALT).unwrap();
    assert!(matches!(check_password_row(None, "secret-pass"), Err(Error::Unauthorized)));
    assert!(matches!(check_password_row(row("user", None), "secret-pass"), Err(Error::Unauthorized)));
    assert!(matches!(
        check_password_row(row("user", Some("garbage".to_string())), "secret-pass"),
        Err(Error::InternalServerError)
    ));
    assert!(matches!(
        check_password_row(row("user", Some(h.clone())), "wrong-pass"),
        Err(Error::Unauthorized)
    ));
    assert!(matches!(
        check_password_row(row("root", Some(h.clone())), "secret-pass"),
        Err(Error::InternalServerError)
    ));
    assert_eq!(check_password_row(row("user", Some(h)), "secret-pass").unwrap().role, UserRole::User);
}

#[test]
fn token_lookups() {
    assert!(matches!(user_of_found_row(None), Err(Error::Unauthorized)));
    let u = user_of_found_row(Some((9, "token".to_string(), None, Some("guest-9".to_string())))).unwrap();
    assert_eq!(u.role, UserRole::Token);
    assert_eq!(u.display_name.as_deref(), Some("guest-9"));
    assert!(matches!(
        user_of_found_row(Some((9, "nobody".to_string(), None, None))),
        Err(Error::InternalServerError)
    ));
}
