use web_service::store::{guest_display_name, map_user_row};
use web_service::error::Error;
use web_service::types::user::{AuthUser, UserRole};

fn user(id: i32, role: UserRole) -> AuthUser {
    AuthUser { id, role, username: Some("ann".to_string()), display_name: None }
}

#[test]
fn role_names_round_trip() {
    for role in [UserRole::Admin, UserRole::User, UserRole::Token] {
        assert_eq!(UserRole::parse(role.as_str()), Some(role));
    }
    assert_eq!(UserRole::Admin.as_str(), "admin");
    assert_eq!(UserRole::User.as_str(), "user");
    assert_eq!(UserRole::Token.as_str(), "token");
    assert_eq!(UserRole::parse("Admin"), None);
    assert_eq!(UserRole::parse("moderator"), None);
    assert_eq!(UserRole::parse(""), None);
}

#[test]
fn only_admin_is_admin() {
    assert!(UserRole::Admin.is_admin());
    assert!(!UserRole::User.is_admin());
    assert!(!UserRole::Token.is_admin());
}

#[test]
fn ownership_rules() {
    let admin = user(1, UserRole::Admin);
    assert!(admin.can_modify(Some(2)));
    assert!(admin.can_modify(None));
    let owner = user(2, UserRole::User);
    assert!(owner.can_modify(Some(2)));
    assert!(!owner.can_modify(Some(3)));
    assert!(!owner.can_modify(None));
    let guest = user(3, UserRole::Token);
    assert!(guest.can_modify(Some(3)));
    assert!(!guest.can_modify(Some(2)));
}

#[test]
fn public_view_keeps_fields() {
    let u = AuthUser {
        id: 5,
        role: UserRole::Token,
        username: None,
        display_name: Some("guest-5".to_string()),
    };
    let p = u.to_public();
    assert_eq!(p.id, 5);
    assert_eq!(p.role, UserRole::Token);
    assert_eq!(p.username, None);
    assert_eq!(p.display_name.as_deref(), Some("guest-5"));
}

#[test]
fn rows_become_users() {
    let u = map_user_row(4, "admin", Some("root".to_string()), Some("root".to_string())).unwrap();
    assert_eq!(u.id, 4);
    assert_eq!(u.role, UserRole::Admin);
    assert_eq!(u.username.as_deref(), Some("root"));
    let err = map_user_row(4, "superuser", None, None).unwrap_err();
    assert!(matches!(err, Error::InternalServerError));
}

#[test]
fn guest_names() {
    assert_eq!(guest_display_name(17), "guest-17");
    assert_eq!(guest_display_name(0), "guest-0");
}
