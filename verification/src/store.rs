//! What the store computes around its queries: users from stored rows, and
//! the display name of a guest account.

use vstd::prelude::*;

use crate::error::Error;
use crate::number::{i32_text, i32_to_text};
use crate::types::user::{opt_view, role_of_text, AuthUser, UserRole};

verus! {

/// The user that a stored row describes; a row whose role is not one of the
/// stored role names is an `InternalServerError`.
pub fn map_user_row(
    id: i32,
    role: &str,
    username: Option<String>,
    display_name: Option<String>,
) -> (r: Result<AuthUser, Error>)
    ensures
        match role_of_text(role@) {
            Some(k) => r matches Ok(u) && u.id == id && u.role == k && opt_view(u.username)
                == opt_view(username) && opt_view(u.display_name) == opt_view(display_name),
            None => r == Err::<AuthUser, Error>(Error::InternalServerError),
        },
{
    match UserRole::parse(role) {
        Some(k) => Ok(AuthUser { id, role: k, username, display_name }),
        None => Err(Error::InternalServerError),
    }
}

/// The display name of the guest account `id`: `guest-` and the id.
pub fn guest_display_name(id: i32) -> (r: String)
    ensures
        r@ == "guest-"@ + i32_text(id),
{
    let mut s = String::from_str("guest-");
    let n = i32_to_text(id);
    s.append(n.as_str());
    s
}

/// The user of a row that a token lookup found: no row (an unknown or
/// expired token) is `Unauthorized`; otherwise as `map_user_row`.
pub fn user_of_found_row(row: Option<(i32, String, Option<String>, Option<String>)>) -> (r: Result<
    AuthUser,
    Error,
>)
    ensures
        match row {
            None => r == Err::<AuthUser, Error>(Error::Unauthorized),
            Some((id, role, username, display_name)) => match role_of_text(role@) {
                Some(k) => r matches Ok(u) && u.id == id && u.role == k && opt_view(u.username)
                    == opt_view(username) && opt_view(u.display_name) == opt_view(display_name),
                None => r == Err::<AuthUser, Error>(Error::InternalServerError),
            },
        },
{
    match row {
        None => Err(Error::Unauthorized),
        Some((id, role, username, display_name)) => map_user_row(
            id,
            role.as_str(),
            username,
            display_name,
        ),
    }
}

} // verus!
