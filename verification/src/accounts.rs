//! Admin accounts: password hashes (Argon2) and the checks on logins.
use vstd::prelude::*;

use argon2::password_hash::{PasswordHash, PasswordHasher, PasswordVerifier, SaltString};

use crate::error::{is_validation, DomainError};
use crate::text::{append_vec, chars_of, chars_of_string, eq_ignore_case, string_of, trim, trim_vec};

verus! {

/// The answer to any failed login, whatever failed.
pub open spec fn auth_failed_message() -> Seq<char> {
    "ログイン名またはパスワードが正しくありません"@
}

/// The fields of the new-user form.
pub struct CreateUserParams<'a> {
    pub login: &'a str,
    pub display_name: &'a str,
    pub password: &'a str,
}

/// The fields of the edit-user form.
pub struct UpdateUserParams<'a> {
    pub login: &'a str,
    pub display_name: &'a str,
    pub password: &'a str,
}

/// Whether Argon2 (default parameters) accepts `plain` for the PHC string `hash`.
pub uninterp spec fn argon2_accepts(plain: Seq<char>, hash: Seq<char>) -> bool;

/// argon2's `Argon2::default().hash_password` with a salt from the OS
/// random source (`SaltString::generate`), as a PHC string. The hash differs
/// from call to call; the crate documents that verifying the password against
/// the hash it made succeeds.
#[verifier::external_body]
fn argon2_hash(plain: &str) -> (r: Result<String, String>)
    ensures
        r matches Ok(h) ==> argon2_accepts(plain@, h@),
{
    let salt = SaltString::generate(&mut rand::rngs::OsRng);
    match argon2::Argon2::default().hash_password(plain.as_bytes(), &salt) {
        Ok(h) => Ok(h.to_string()),
        Err(e) => Err(e.to_string()),
    }
}

/// argon2's `PasswordHash::new` and `Argon2::default().verify_password`.
#[verifier::external_body]
fn argon2_verify(plain: &str, hash: &str) -> (b: bool)
    ensures
        b == argon2_accepts(plain@, hash@),
{
    match PasswordHash::new(hash) {
        Ok(parsed) => argon2::Argon2::default().verify_password(plain.as_bytes(), &parsed).is_ok(),
        Err(_) => false,
    }
}

/// A new Argon2 hash of a password; any hash it gives verifies the password.
pub fn hash_password(plain: &str) -> (r: Result<String, DomainError>)
    ensures
        r matches Ok(h) ==> argon2_accepts(plain@, h@),
        r matches Err(e) ==> e is Internal,
{
    match argon2_hash(plain) {
        Ok(h) => Ok(h),
        Err(e) => {
            let mut m = chars_of("password hash failed: ");
            let ev = chars_of_string(&e);
            append_vec(&mut m, &ev);
            Err(DomainError::Internal(string_of(&m)))
        },
    }
}

/// Whether the password matches the stored hash (a hash that cannot be read
/// matches nothing).
pub fn verify_password(plain: &str, hash: &str) -> (b: bool)
    ensures
        b == argon2_accepts(plain@, hash@),
{
    argon2_verify(plain, hash)
}

/// The login to look up: the trimmed login, when neither it nor the password is empty.
pub fn login_to_look_up(login: &str, password: &str) -> (r: Result<String, DomainError>)
    ensures
        trim(login@).len() > 0 && password@.len() > 0 ==> (r matches Ok(l) && l@ == trim(login@)),
        !(trim(login@).len() > 0 && password@.len() > 0) ==> is_validation(r, auth_failed_message()),
{
    let lv = chars_of(login);
    let t = trim_vec(&lv);
    let pv = chars_of(password);
    if t.len() == 0 || pv.len() == 0 {
        return Err(DomainError::Validation(String::from_str("ログイン名またはパスワードが正しくありません")));
    }
    Ok(string_of(&t))
}

/// The outcome of a login once the user was looked up: accepted only when
/// the user exists and the password matches the stored hash.
pub fn check_login(password: &str, stored_hash: Option<&str>) -> (r: Result<(), DomainError>)
    ensures
        (stored_hash matches Some(h) && argon2_accepts(password@, h@)) ==> r is Ok,
        !(stored_hash matches Some(h) && argon2_accepts(password@, h@)) ==> is_validation(r, auth_failed_message()),
{
    match stored_hash {
        Some(h) => if verify_password(password, h) {
            Ok(())
        } else {
            Err(DomainError::Validation(String::from_str("ログイン名またはパスワードが正しくありません")))
        },
        None => Err(DomainError::Validation(String::from_str("ログイン名またはパスワードが正しくありません"))),
    }
}

/// The submitted login names the user being edited (ASCII case ignored).
pub fn login_unchanged(submitted: &str, current: &str) -> (b: bool)
    ensures
        b == eq_ignore_case(trim(submitted@), current@),
{
    let sv = chars_of(submitted);
    let t = trim_vec(&sv);
    let cv = chars_of(current);
    if t.len() != cv.len() {
        return false;
    }
    let mut i: usize = 0;
    while i < t.len()
        invariant
            i <= t.len(),
            t@.len() == cv@.len(),
            t@ == trim(submitted@),
            cv@ == current@,
            forall|k: int| 0 <= k < i ==> #[trigger] crate::text::lower_spec(t@[k]) == crate::text::lower_spec(cv@[k]),
        decreases t.len() - i,
    {
        if crate::text::to_lower(t[i]) != crate::text::to_lower(cv[i]) {
            return false;
        }
        i += 1;
    }
    true
}

/// A user may be deleted unless it is the default `admin` (ASCII case
/// ignored); that one is a conflict.
pub fn check_user_deletable(login: &str) -> (r: Result<(), DomainError>)
    ensures
        r is Ok <==> !eq_ignore_case(login@, "admin"@),
        eq_ignore_case(login@, "admin"@) ==> crate::error::is_conflict(r, "既定の admin ユーザーは削除できません"@),
{
    proof {
        reveal_strlit("admin");
        crate::text::lemma_trim_no_ws("admin"@);
    }
    let protected = login_unchanged("admin", login);
    assert(eq_ignore_case("admin"@, login@) == eq_ignore_case(login@, "admin"@));
    if protected {
        return Err(DomainError::Conflict(String::from_str("既定の admin ユーザーは削除できません")));
    }
    Ok(())
}

} // verus!
