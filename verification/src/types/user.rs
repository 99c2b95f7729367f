//! Users, their roles, and the bodies of the authentication requests.

use vstd::prelude::*;

use crate::text::str_eq;

verus! {

/// What an account may do.
#[derive(Debug, Clone, Copy, PartialEq, Eq, Structural)]
pub enum UserRole {
    /// May change any content.
    Admin,
    /// A full account with user name and password.
    User,
    /// A lightweight account whose only credential is a sign-in token.
    Token,
}

/// The stored name of each role.
pub open spec fn role_text(role: UserRole) -> Seq<char> {
    match role {
        UserRole::Admin => "admin"@,
        UserRole::User => "user"@,
        UserRole::Token => "token"@,
    }
}

/// The role that a stored name stands for, if any.
pub open spec fn role_of_text(s: Seq<char>) -> Option<UserRole> {
    if s == "admin"@ {
        Some(UserRole::Admin)
    } else if s == "user"@ {
        Some(UserRole::User)
    } else if s == "token"@ {
        Some(UserRole::Token)
    } else {
        None
    }
}

impl UserRole {
    /// The stored name of this role.
    pub fn as_str(&self) -> (r: &'static str)
        ensures
            r@ == role_text(*self),
    {
        match self {
            UserRole::Admin => "admin",
            UserRole::User => "user",
            UserRole::Token => "token",
        }
    }

    /// The role that the stored name `s` stands for; `None` for any other text.
    pub fn parse(s: &str) -> (r: Option<UserRole>)
        ensures
            r == role_of_text(s@),
    {
        if str_eq(s, "admin") {
            Some(UserRole::Admin)
        } else if str_eq(s, "user") {
            Some(UserRole::User)
        } else if str_eq(s, "token") {
            Some(UserRole::Token)
        } else {
            None
        }
    }

    /// Whether this is the administrator role.
    pub fn is_admin(&self) -> (r: bool)
        ensures
            r == (*self == UserRole::Admin),
    {
        match self {
            UserRole::Admin => true,
            _ => false,
        }
    }
}

/// Reading the stored name of a role gives the role back.
pub proof fn lemma_role_text_round_trip(role: UserRole)
    ensures
        role_of_text(role_text(role)) == Some(role),
{
    reveal_strlit("admin");
    reveal_strlit("user");
    reveal_strlit("token");
    assert("user"@.len() != "admin"@.len());
    assert("token"@[0] != "admin"@[0]);
    assert("token"@.len() != "user"@.len());
}

/// A name that reads as a role is that role's stored name.
pub proof fn lemma_role_text_unique(s: Seq<char>, role: UserRole)
    requires
        role_of_text(s) == Some(role),
    ensures
        s == role_text(role),
{
}

/// A user as replies show it.
#[derive(Debug, Clone)]
pub struct User {
    pub id: i32,
    pub role: UserRole,
    pub username: Option<String>,
    pub display_name: Option<String>,
}

/// The user that a request was authenticated as.
#[derive(Debug, Clone)]
pub struct AuthUser {
    pub id: i32,
    pub role: UserRole,
    pub username: Option<String>,
    pub display_name: Option<String>,
}

/// The views of an optional text.
pub open spec fn opt_view(o: Option<String>) -> Option<Seq<char>> {
    match o {
        Some(s) => Some(s@),
        None => None,
    }
}

/// A copy of an optional text.
pub fn clone_opt_string(o: &Option<String>) -> (r: Option<String>)
    ensures
        opt_view(r) == opt_view(*o),
{
    match o {
        Some(s) => Some(s.clone()),
        None => None,
    }
}

/// Whether a user may change content written by `author_id`: an administrator
/// may change anything, anyone else only what they wrote themselves.
pub open spec fn may_modify(id: i32, role: UserRole, author_id: Option<i32>) -> bool {
    role == UserRole::Admin || author_id == Some(id)
}

impl AuthUser {
    /// The user as replies show it.
    pub fn to_public(&self) -> (r: User)
        ensures
            r.id == self.id,
            r.role == self.role,
            opt_view(r.username) == opt_view(self.username),
            opt_view(r.display_name) == opt_view(self.display_name),
    {
        User {
            id: self.id,
            role: self.role,
            username: clone_opt_string(&self.username),
            display_name: clone_opt_string(&self.display_name),
        }
    }

    /// Whether this user may change content written by `author_id`.
    pub fn can_modify(&self, author_id: Option<i32>) -> (r: bool)
        ensures
            r == may_modify(self.id, self.role, author_id),
    {
        if self.role.is_admin() {
            return true;
        }
        match author_id {
            Some(id) => id == self.id,
            None => false,
        }
    }
}

/// The body of a request that opens a full account.
#[derive(Debug)]
pub struct RegisterRequest {
    pub username: String,
    pub password: String,
}

/// The body of a login: a user name with a password, or a sign-in token.
#[derive(Debug)]
pub struct LoginRequest {
    pub username: Option<String>,
    pub password: Option<String>,
    pub sign_in_token: Option<String>,
}

/// The reply to a successful login, registration or guest sign-up.
#[derive(Debug)]
pub struct AuthResponse {
    /// The new session's secret.
    pub token: String,
    pub user: User,
    /// The sign-in token of a new guest account, shown once.
    pub sign_in_token: Option<String>,
}

} // verus!
