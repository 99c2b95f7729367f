//! Authentication: reading the bearer token, checking registration and login
//! bodies, and the rate limiting around each attempt.

use vstd::prelude::*;
use vstd::utf8::encode_utf8;

use crate::error::Error;
use crate::rate_limit::{
    allow_attempt, allows, clear_failures, failures_of, recent, record_failure, LoginAttempts,
};
use crate::text::{has_prefix, strip_prefix, trim, trimmed};
use crate::types::user::{
    may_modify, opt_view, AuthResponse, AuthUser, LoginRequest, RegisterRequest, UserRole,
};

verus! {

/// The session token that an `Authorization` header carries: the text after
/// `Bearer ` (or `bearer `), trimmed, when that is not empty.
pub open spec fn bearer_of(header: Option<Seq<char>>) -> Option<Seq<char>> {
    match header {
        None => None,
        Some(h) => {
            let rest = if has_prefix(h, "Bearer "@) {
                Some(h.skip("Bearer "@.len() as int))
            } else if has_prefix(h, "bearer "@) {
                Some(h.skip("bearer "@.len() as int))
            } else {
                None
            };
            match rest {
                None => None,
                Some(r) => if trimmed(r).len() == 0 {
                    None
                } else {
                    Some(trimmed(r))
                },
            }
        },
    }
}

/// The session token of an `Authorization` header, if it holds one.
pub fn bearer_from_header(auth_header: Option<String>) -> (r: Option<String>)
    ensures
        opt_view(r) == bearer_of(opt_view(auth_header)),
{
    match auth_header {
        None => None,
        Some(h) => {
            let rest = match strip_prefix(h.as_str(), "Bearer ") {
                Some(t) => Some(t),
                None => strip_prefix(h.as_str(), "bearer "),
            };
            match rest {
                None => None,
                Some(t) => {
                    let t = trim(t);
                    if t.is_empty() {
                        None
                    } else {
                        Some(String::from_str(t))
                    }
                },
            }
        },
    }
}

/// The session token that a request which changes data must carry; without
/// one the request is `Unauthorized`.
pub fn require_auth(auth_header: Option<String>) -> (r: Result<String, Error>)
    ensures
        match bearer_of(opt_view(auth_header)) {
            Some(t) => r matches Ok(s) && s@ == t,
            None => r == Err::<String, Error>(Error::Unauthorized),
        },
{
    match bearer_from_header(auth_header) {
        Some(t) => Ok(t),
        None => Err(Error::Unauthorized),
    }
}

/// The length in bytes of the UTF-8 encoding of `s`, as `str::len` gives it.
pub open spec fn utf8_len(s: Seq<char>) -> usize {
    encode_utf8(s).len() as usize
}

/// Shortest and longest user name, in bytes.
pub const USERNAME_MIN: usize = 3;

pub const USERNAME_MAX: usize = 64;

/// Shortest password, in bytes.
pub const PASSWORD_MIN: usize = 8;

/// Whether a registration with user name `u` (already trimmed) and password `p` is acceptable.
pub open spec fn registration_error(u: Seq<char>, p: Seq<char>) -> Option<Seq<char>> {
    if utf8_len(u) < USERNAME_MIN || utf8_len(u) > USERNAME_MAX {
        Some("username must be 3-64 characters"@)
    } else if utf8_len(p) < PASSWORD_MIN {
        Some("password must be at least 8 characters"@)
    } else {
        None
    }
}

/// Checks a registration body. The user name is trimmed and must then be 3 to
/// 64 bytes long; the password must be at least 8 bytes long. Gives the
/// trimmed user name.
pub fn validate_registration(body: &RegisterRequest) -> (r: Result<String, Error>)
    ensures
        match registration_error(trimmed(body.username@), body.password@) {
            None => r matches Ok(u) && u@ == trimmed(body.username@),
            Some(m) => r matches Err(Error::ValidationError(e)) && e@ == m,
        },
{
    let username = trim(body.username.as_str());
    let ulen = username.len();
    if ulen < USERNAME_MIN || ulen > USERNAME_MAX {
        return Err(Error::ValidationError(String::from_str("username must be 3-64 characters")));
    }
    if body.password.as_str().len() < PASSWORD_MIN {
        return Err(
            Error::ValidationError(String::from_str("password must be at least 8 characters")),
        );
    }
    Ok(String::from_str(username))
}

/// The credentials of a login.
pub enum Credentials {
    /// The secret of a guest account.
    SignInToken(String),
    /// The user name and password of a full account.
    Password { username: String, password: String },
}

/// The credentials a login body supplies: a sign-in token that is not blank
/// wins; else a user name that is not blank together with a password that is
/// not empty; else none.
pub open spec fn credentials_of(
    username: Option<Seq<char>>,
    password: Option<Seq<char>>,
    sign_in_token: Option<Seq<char>>,
) -> Option<(Option<Seq<char>>, Seq<char>)> {
    if sign_in_token is Some && trimmed(sign_in_token->0).len() > 0 {
        Some((None, trimmed(sign_in_token->0)))
    } else if username is Some && trimmed(username->0).len() > 0 && password is Some
        && password->0.len() > 0 {
        Some((Some(trimmed(username->0)), password->0))
    } else {
        None
    }
}

/// The view of credentials: the user name (none for a sign-in token) and the secret.
pub open spec fn credentials_view(c: Credentials) -> (Option<Seq<char>>, Seq<char>) {
    match c {
        Credentials::SignInToken(t) => (None, t@),
        Credentials::Password { username, password } => (Some(username@), password@),
    }
}

/// Picks the credentials of a login body, or refuses a body that has none.
pub fn login_credentials(body: &LoginRequest) -> (r: Result<Credentials, Error>)
    ensures
        match credentials_of(
            opt_view(body.username),
            opt_view(body.password),
            opt_view(body.sign_in_token),
        ) {
            Some(c) => r matches Ok(k) && credentials_view(k) == c,
            None => r matches Err(Error::ValidationError(m))
                && m@ == "provide username+password or sign_in_token"@,
        },
{
    if let Some(t) = &body.sign_in_token {
        let t = trim(t.as_str());
        if !t.is_empty() {
            return Ok(Credentials::SignInToken(String::from_str(t)));
        }
    }
    if let (Some(u), Some(p)) = (&body.username, &body.password) {
        let u = trim(u.as_str());
        if !u.is_empty() && !p.as_str().is_empty() {
            return Ok(Credentials::Password { username: String::from_str(u), password: p.clone() });
        }
    }
    Err(Error::ValidationError(String::from_str("provide username+password or sign_in_token")))
}

/// Starts an attempt of the client `key` at `now`: refused with
/// `TooManyRequests` while the client is blocked. Failures older than the
/// window are forgotten either way.
pub fn begin_attempt(attempts: &mut LoginAttempts, key: &str, now: u64) -> (r: Result<(), Error>)
    ensures
        final(attempts)@ == old(attempts)@.insert(key@, recent(failures_of(old(attempts)@, key@), now)),
        r is Ok <==> allows(old(attempts)@, key@, now),
        r is Err ==> r == Err::<(), Error>(Error::TooManyRequests),
{
    if allow_attempt(attempts, key, now) {
        Ok(())
    } else {
        Err(Error::TooManyRequests)
    }
}

/// Starts a login of the client `key` at `now`: refused with
/// `TooManyRequests` while the client is blocked, else the credentials of the
/// body (or the refusal of a body without any). A refused body is not counted
/// as a failure.
pub fn start_login(attempts: &mut LoginAttempts, key: &str, now: u64, body: &LoginRequest) -> (r:
    Result<Credentials, Error>)
    ensures
        final(attempts)@ == old(attempts)@.insert(key@, recent(failures_of(old(attempts)@, key@), now)),
        !allows(old(attempts)@, key@, now) ==> r matches Err(Error::TooManyRequests),
        allows(old(attempts)@, key@, now) ==> match credentials_of(
            opt_view(body.username),
            opt_view(body.password),
            opt_view(body.sign_in_token),
        ) {
            Some(c) => r matches Ok(k) && credentials_view(k) == c,
            None => r matches Err(Error::ValidationError(m))
                && m@ == "provide username+password or sign_in_token"@,
        },
{
    begin_attempt(attempts, key, now)?;
    login_credentials(body)
}

/// Starts a registration of the client `key` at `now`: refused with
/// `TooManyRequests` while the client is blocked, else the trimmed user name
/// of a body that passes the checks of `validate_registration`.
pub fn start_register(
    attempts: &mut LoginAttempts,
    key: &str,
    now: u64,
    body: &RegisterRequest,
) -> (r: Result<String, Error>)
    ensures
        final(attempts)@ == old(attempts)@.insert(key@, recent(failures_of(old(attempts)@, key@), now)),
        !allows(old(attempts)@, key@, now) ==> r matches Err(Error::TooManyRequests),
        allows(old(attempts)@, key@, now) ==> match registration_error(
            trimmed(body.username@),
            body.password@,
        ) {
            None => r matches Ok(u) && u@ == trimmed(body.username@),
            Some(m) => r matches Err(Error::ValidationError(e)) && e@ == m,
        },
{
    begin_attempt(attempts, key, now)?;
    validate_registration(body)
}

/// Ends a login of the client `key` at `now` with the outcome of the credential
/// check: success forgets the client's failures, a refusal of the credentials
/// is recorded as a failure; any other error changes nothing.
pub fn finish_login(
    attempts: &mut LoginAttempts,
    key: &str,
    now: u64,
    outcome: Result<AuthUser, Error>,
) -> (r: Result<AuthUser, Error>)
    ensures
        r == outcome,
        match outcome {
            Ok(_) => final(attempts)@ == old(attempts)@.remove(key@),
            Err(Error::Unauthorized) => final(attempts)@ == old(attempts)@.insert(
                key@,
                failures_of(old(attempts)@, key@).push(now),
            ),
            Err(_) => final(attempts)@ == old(attempts)@,
        },
{
    match outcome {
        Ok(user) => {
            clear_failures(attempts, key);
            Ok(user)
        },
        Err(Error::Unauthorized) => {
            record_failure(attempts, key, now);
            Err(Error::Unauthorized)
        },
        Err(e) => Err(e),
    }
}

/// Ends a registration of the client `key` at `now` with the outcome of
/// creating the account: success forgets the client's failures, a taken user
/// name is recorded as a failure and answered with a `Conflict`; any other
/// error changes nothing.
pub fn finish_register(
    attempts: &mut LoginAttempts,
    key: &str,
    now: u64,
    outcome: Result<AuthUser, Error>,
) -> (r: Result<AuthUser, Error>)
    ensures
        match outcome {
            Ok(_) => r == outcome && final(attempts)@ == old(attempts)@.remove(key@),
            Err(Error::Conflict(_)) => {
                &&& r matches Err(Error::Conflict(m)) && m@ == "username already taken"@
                &&& final(attempts)@ == old(attempts)@.insert(
                    key@,
                    failures_of(old(attempts)@, key@).push(now),
                )
            },
            Err(_) => r == outcome && final(attempts)@ == old(attempts)@,
        },
{
    match outcome {
        Ok(user) => {
            clear_failures(attempts, key);
            Ok(user)
        },
        Err(Error::Conflict(_)) => {
            record_failure(attempts, key, now);
            Err(Error::Conflict(String::from_str("username already taken")))
        },
        Err(e) => Err(e),
    }
}

/// Ends a guest sign-up of the client `key` with the outcome of creating the
/// account: success forgets the client's failures; an error changes nothing.
pub fn finish_guest_token(
    attempts: &mut LoginAttempts,
    key: &str,
    outcome: Result<(AuthUser, String), Error>,
) -> (r: Result<(AuthUser, String), Error>)
    ensures
        r == outcome,
        outcome is Ok ==> final(attempts)@ == old(attempts)@.remove(key@),
        outcome is Err ==> final(attempts)@ == old(attempts)@,
{
    if outcome.is_ok() {
        clear_failures(attempts, key);
    }
    outcome
}

/// The reply to a successful login, registration or guest sign-up.
pub fn auth_response(token: String, user: &AuthUser, sign_in_token: Option<String>) -> (r:
    AuthResponse)
    ensures
        r.token@ == token@,
        r.user.id == user.id,
        r.user.role == user.role,
        opt_view(r.user.username) == opt_view(user.username),
        opt_view(r.user.display_name) == opt_view(user.display_name),
        opt_view(r.sign_in_token) == opt_view(sign_in_token),
{
    AuthResponse { token, user: user.to_public(), sign_in_token }
}


/// Lets `user` change content written by `author_id` only when it may:
/// otherwise the request is `Forbidden`.
pub fn authorize_change(user: &AuthUser, author_id: Option<i32>) -> (r: Result<(), Error>)
    ensures
        may_modify(user.id, user.role, author_id) ==> r is Ok,
        !may_modify(user.id, user.role, author_id) ==> r == Err::<(), Error>(Error::Forbidden),
{
    if user.can_modify(author_id) {
        Ok(())
    } else {
        Err(Error::Forbidden)
    }
}

/// An administrator may change any content; any other user only content that
/// it wrote itself, and never content whose author is unknown.
pub proof fn lemma_ownership(id: i32, role: UserRole, author_id: Option<i32>)
    ensures
        role == UserRole::Admin ==> may_modify(id, role, author_id),
        role != UserRole::Admin ==> (may_modify(id, role, author_id) <==> author_id == Some(id)),
        role != UserRole::Admin && author_id is None ==> !may_modify(id, role, author_id),
{
}

/// A client that sends back, after `Bearer `, a token that has no whitespace
/// at either end is read as sending exactly that token.
pub proof fn lemma_bearer_round_trip(t: Seq<char>)
    requires
        t.len() > 0,
        trimmed(t) == t,
    ensures
        bearer_of(Some("Bearer "@ + t)) == Some(t),
{
    reveal_strlit("Bearer ");
    let h = "Bearer "@ + t;
    assert(h.subrange(0, "Bearer "@.len() as int) =~= "Bearer "@);
    assert(h.skip("Bearer "@.len() as int) =~= t);
}

/// With no usable sign-in token (none sent, or a blank one), a login body
/// with a user name that is not blank and a password that is not empty logs
/// in with the trimmed user name and the password as sent; a missing token
/// field and a blank one are read alike.
pub proof fn lemma_password_credentials(u: Seq<char>, p: Seq<char>, blank: Seq<char>)
    requires
        trimmed(u).len() > 0,
        p.len() > 0,
        trimmed(blank).len() == 0,
    ensures
        credentials_of(Some(u), Some(p), None) == Some((Some(trimmed(u)), p)),
        credentials_of(Some(u), Some(p), Some(blank)) == Some((Some(trimmed(u)), p)),
        credentials_of(Some(u), Some(p), None) == credentials_of(Some(u), Some(p), Some(blank)),
{
}

/// A sign-in token that is not blank is used (trimmed), whatever else the body holds.
pub proof fn lemma_token_credentials(u: Option<Seq<char>>, p: Option<Seq<char>>, t: Seq<char>)
    requires
        trimmed(t).len() > 0,
    ensures
        credentials_of(u, p, Some(t)) == Some((None::<Seq<char>>, trimmed(t))),
{
}

/// After `Bearer ` or `bearer `, the header's token is the rest trimmed, or
/// nothing when the rest is blank; both spellings of the scheme read alike.
pub proof fn lemma_bearer_schemes(t: Seq<char>)
    ensures
        bearer_of(Some(seq!['B', 'e', 'a', 'r', 'e', 'r', ' '] + t)) == (if trimmed(t).len() == 0 {
            None
        } else {
            Some(trimmed(t))
        }),
        bearer_of(Some(seq!['b', 'e', 'a', 'r', 'e', 'r', ' '] + t)) == (if trimmed(t).len() == 0 {
            None
        } else {
            Some(trimmed(t))
        }),
{
    reveal_strlit("Bearer ");
    reveal_strlit("bearer ");
    let hb = seq!['B', 'e', 'a', 'r', 'e', 'r', ' '] + t;
    let hl = seq!['b', 'e', 'a', 'r', 'e', 'r', ' '] + t;
    assert("Bearer "@ =~= seq!['B', 'e', 'a', 'r', 'e', 'r', ' ']);
    assert("bearer "@ =~= seq!['b', 'e', 'a', 'r', 'e', 'r', ' ']);
    assert(hb.subrange(0, 7) =~= "Bearer "@);
    assert(hb.skip(7) =~= t);
    assert(hl.subrange(0, 7) =~= "bearer "@);
    assert(hl.skip(7) =~= t);
    assert(hl[0] != 'B');
    assert(!has_prefix(hl, "Bearer "@)) by {
        assert(hl.subrange(0, 7)[0] != "Bearer "@[0]);
    }
}

/// A registration is accepted exactly when the trimmed user name is 3 to 64
/// bytes long and the password at least 8 bytes long; a user name out of
/// range is reported first, and nothing else about the name or password matters.
pub proof fn lemma_registration_rules(u: Seq<char>, p: Seq<char>)
    ensures
        (3 <= utf8_len(u) <= 64 && utf8_len(p) >= 8) ==> registration_error(u, p) is None,
        !(3 <= utf8_len(u) <= 64) ==> registration_error(u, p) == Some(
            "username must be 3-64 characters"@,
        ),
        (3 <= utf8_len(u) <= 64 && utf8_len(p) < 8) ==> registration_error(u, p) == Some(
            "password must be at least 8 characters"@,
        ),
{
}

} // verus!
