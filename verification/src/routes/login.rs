//! Login with the shared administrator password.

use vstd::prelude::*;

use crate::text::str_eq;

verus! {

/// The reply to a login with the shared administrator password.
#[derive(Debug)]
pub struct LoginResponse {
    pub success: bool,
    pub message: String,
}

/// Checks `password` against the administrator password: success with status
/// 200, or failure with status 401.
pub fn login(password: &str, admin_password: &str) -> (r: (LoginResponse, u16))
    ensures
        password@ == admin_password@ ==> r.0.success && r.0.message@ == "Login successful"@ && r.1
            == 200,
        password@ != admin_password@ ==> !r.0.success && r.0.message@ == "Invalid password"@
            && r.1 == 401,
{
    if str_eq(password, admin_password) {
        (LoginResponse { success: true, message: String::from_str("Login successful") }, 200)
    } else {
        (LoginResponse { success: false, message: String::from_str("Invalid password") }, 401)
    }
}

} // verus!
