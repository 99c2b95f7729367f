//! Stored secrets: the SHA-256 digest of session and sign-in tokens, the
//! Argon2 hash of passwords, and the password check of a stored user row.

use argon2::password_hash::{PasswordHash, PasswordHasher, PasswordVerifier, SaltString};
use argon2::Argon2;
use sha2::{Digest, Sha256};
use vstd::prelude::*;
use vstd::utf8::encode_utf8;

use crate::error::Error;
use crate::store::map_user_row;
use crate::types::user::{opt_view, role_of_text, AuthUser};

verus! {

/// The SHA-256 digest of `data`.
pub uninterp spec fn sha256_digest(data: Seq<u8>) -> Seq<u8>;

/// Calls `sha2::Sha256::digest`. Trusted: the result is the digest named
/// `sha256_digest` of the input bytes, and it is 32 bytes long.
#[verifier::external_body]
fn sha256(data: &[u8]) -> (r: Vec<u8>)
    ensures
        r@ == sha256_digest(data@),
        r@.len() == 32,
{
    Sha256::digest(data).to_vec()
}

/// The lowercase hexadecimal digit of `n` (from 0 to 15).
pub open spec fn hex_digit(n: int) -> char {
    if n < 10 {
        ((n + ('0' as int)) as u32) as char
    } else {
        ((n - 10 + ('a' as int)) as u32) as char
    }
}

/// `bytes` written as lowercase hexadecimal, two digits per byte, high digit first.
pub open spec fn hex_lower(bytes: Seq<u8>) -> Seq<char>
    decreases bytes.len(),
{
    if bytes.len() == 0 {
        Seq::empty()
    } else {
        hex_lower(bytes.drop_last()) + seq![
            hex_digit(bytes.last() as int / 16),
            hex_digit(bytes.last() as int % 16),
        ]
    }
}

/// The one-character text of the hexadecimal digit `d`.
fn hex_digit_str(d: u8) -> (r: &'static str)
    requires
        d < 16,
    ensures
        r@ == seq![hex_digit(d as int)],
{
    proof {
        reveal_strlit("0");
        reveal_strlit("1");
        reveal_strlit("2");
        reveal_strlit("3");
        reveal_strlit("4");
        reveal_strlit("5");
        reveal_strlit("6");
        reveal_strlit("7");
        reveal_strlit("8");
        reveal_strlit("9");
        reveal_strlit("a");
        reveal_strlit("b");
        reveal_strlit("c");
        reveal_strlit("d");
        reveal_strlit("e");
        reveal_strlit("f");
    }
    match d {
        0 => "0",
        1 => "1",
        2 => "2",
        3 => "3",
        4 => "4",
        5 => "5",
        6 => "6",
        7 => "7",
        8 => "8",
        9 => "9",
        10 => "a",
        11 => "b",
        12 => "c",
        13 => "d",
        14 => "e",
        _ => "f",
    }
}

/// The stored form of a session or sign-in token: the SHA-256 digest of its
/// UTF-8 bytes, in lowercase hexadecimal. Only this form is kept in the database.
pub fn hash_token(token: &str) -> (r: String)
    ensures
        r@ == hex_lower(sha256_digest(encode_utf8(token@))),
{
    let digest = sha256(token.as_bytes());
    let ghost d = digest@;
    let mut out = String::new();
    let n = digest.len();
    let mut i: usize = 0;
    assert(d.take(0) =~= Seq::<u8>::empty());
    while i < n
        invariant
            digest@ == d,
            n == d.len(),
            i <= n,
            out@ == hex_lower(d.take(i as int)),
        decreases n - i,
    {
        let b = digest[i];
        assert(d.take(i + 1).drop_last() =~= d.take(i as int));
        assert(d.take(i + 1).last() == b);
        out.append(hex_digit_str(b / 16));
        out.append(hex_digit_str(b % 16));
        assert(out@ =~= hex_lower(d.take(i + 1)));
        i = i + 1;
    }
    assert(d.take(n as int) =~= d);
    out
}

/// Whether `password` matches the stored Argon2 hash `stored`; `None` when
/// `stored` is not a readable password hash.
pub uninterp spec fn argon2_check(password: Seq<u8>, stored: Seq<char>) -> Option<bool>;

/// The Argon2 hash (PHC string) of `password` with the salt `salt`, or `None`
/// when no hash can be made with that salt.
pub uninterp spec fn argon2_hash(password: Seq<u8>, salt: Seq<u8>) -> Option<Seq<char>>;

/// Calls `argon2::password_hash::PasswordHash::new` on `stored` and then
/// `Argon2::verify_password`. Trusted: the result is the value named
/// `argon2_check` of the arguments, with `None` for a hash that does not parse.
#[verifier::external_body]
fn argon2_verify(password: &[u8], stored: &str) -> (r: Option<bool>)
    ensures
        r == argon2_check(password@, stored@),
{
    match PasswordHash::new(stored) {
        Ok(parsed) => Some(Argon2::default().verify_password(password, &parsed).is_ok()),
        Err(_) => None,
    }
}

/// Calls `Argon2::hash_password` with the default parameters on `password`
/// and the salt `salt` (base64-encoded by `SaltString::encode_b64`). Trusted:
/// the result is the value named `argon2_hash` of the arguments, and a hash
/// it gives is accepted by `argon2_check` for the same password. A salt of
/// fewer than 3 or more than 48 bytes encodes to a salt string that
/// `SaltString` cannot hold (it panics), so such salts are not admitted.
#[verifier::external_body]
fn argon2_hash_with_salt(password: &[u8], salt: &[u8]) -> (r: Option<String>)
    requires
        3 <= salt@.len() <= 48,
    ensures
        opt_view(r) == argon2_hash(password@, salt@),
        r matches Some(h) ==> argon2_check(password@, h@) == Some(true),
{
    let salt = match SaltString::encode_b64(salt) {
        Ok(s) => s,
        Err(_) => return None,
    };
    Argon2::default().hash_password(password, &salt).ok().map(|h| h.to_string())
}

/// Shortest and longest salt, in bytes, that a password can be hashed with.
pub const SALT_MIN: usize = 3;

pub const SALT_MAX: usize = 48;

/// The stored form of `password`, hashed with Argon2 and the salt `salt`
/// (which the caller draws at random); `InternalServerError` when the salt
/// has fewer than `SALT_MIN` or more than `SALT_MAX` bytes, or when no hash
/// can be made with it.
pub fn hash_password(password: &str, salt: &[u8]) -> (r: Result<String, Error>)
    ensures
        !(SALT_MIN <= salt@.len() <= SALT_MAX) ==> r == Err::<String, Error>(
            Error::InternalServerError,
        ),
        SALT_MIN <= salt@.len() <= SALT_MAX ==> match argon2_hash(encode_utf8(password@), salt@) {
            Some(h) => r matches Ok(s) && s@ == h && argon2_check(encode_utf8(password@), h)
                == Some(true),
            None => r == Err::<String, Error>(Error::InternalServerError),
        },
{
    if salt.len() < SALT_MIN || salt.len() > SALT_MAX {
        return Err(Error::InternalServerError);
    }
    match argon2_hash_with_salt(password.as_bytes(), salt) {
        Some(h) => Ok(h),
        None => Err(Error::InternalServerError),
    }
}

/// Whether `password` matches the stored hash `stored`; `InternalServerError`
/// when the stored hash cannot be read.
pub fn verify_password(password: &str, stored: &str) -> (r: Result<bool, Error>)
    ensures
        match argon2_check(encode_utf8(password@), stored@) {
            Some(b) => r == Ok::<bool, Error>(b),
            None => r == Err::<bool, Error>(Error::InternalServerError),
        },
{
    match argon2_verify(password.as_bytes(), stored) {
        Some(b) => Ok(b),
        None => Err(Error::InternalServerError),
    }
}

/// A user row as the password login reads it: id, role, user name, display
/// name and password hash.
pub type PasswordRow = (i32, String, Option<String>, Option<String>, Option<String>);

/// The outcome of a password login against the row found for the user name:
/// no row, no stored hash, or a wrong password is `Unauthorized`; a stored hash
/// that cannot be read, or a role that is not a stored role name, is an
/// `InternalServerError`; otherwise the user of the row.
pub fn check_password_row(row: Option<PasswordRow>, password: &str) -> (r: Result<AuthUser, Error>)
    ensures
        match row {
            None => r == Err::<AuthUser, Error>(Error::Unauthorized),
            Some((id, role, username, display_name, hash)) => match hash {
                None => r == Err::<AuthUser, Error>(Error::Unauthorized),
                Some(h) => match argon2_check(encode_utf8(password@), h@) {
                    None => r == Err::<AuthUser, Error>(Error::InternalServerError),
                    Some(false) => r == Err::<AuthUser, Error>(Error::Unauthorized),
                    Some(true) => match role_of_text(role@) {
                        None => r == Err::<AuthUser, Error>(Error::InternalServerError),
                        Some(k) => r matches Ok(u) && u.id == id && u.role == k && opt_view(
                            u.username,
                        ) == opt_view(username) && opt_view(u.display_name) == opt_view(
                            display_name,
                        ),
                    },
                },
            },
        },
{
    match row {
        None => Err(Error::Unauthorized),
        Some((id, role, username, display_name, hash)) => match hash {
            None => Err(Error::Unauthorized),
            Some(h) => {
                if verify_password(password, h.as_str())? {
                    map_user_row(id, role.as_str(), username, display_name)
                } else {
                    Err(Error::Unauthorized)
                }
            },
        },
    }
}

/// The stored form of a digest is two lowercase hexadecimal digits per byte.
pub proof fn lemma_hex_lower_shape(bytes: Seq<u8>)
    ensures
        hex_lower(bytes).len() == 2 * bytes.len(),
        forall|k: int|
            0 <= k < hex_lower(bytes).len() ==> ('0' <= #[trigger] hex_lower(bytes)[k] <= '9') || (
            'a' <= hex_lower(bytes)[k] <= 'f'),
    decreases bytes.len(),
{
    if bytes.len() > 0 {
        let p = bytes.drop_last();
        lemma_hex_lower_shape(p);
        let h = hex_lower(bytes);
        let hp = hex_lower(p);
        assert forall|k: int| 0 <= k < h.len() implies ('0' <= #[trigger] h[k] <= '9') || ('a' <= h[k]
            <= 'f') by {
            if k < hp.len() {
                assert(h[k] == hp[k]);
            }
        }
    }
}

} // verus!
