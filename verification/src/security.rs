//! Password hashing and the login decision. Hashing is delegated to bcrypt
//! behind trusted wrappers; what `verify` accepts is a function of password
//! and hash alone, so it is given a name that the login contract uses.

use vstd::prelude::*;
use crate::admin::Admin;
use crate::admin_store::{AdminRepository, has_email, idx_of_email};
use crate::errors::SubmissionError;

verus! {

/// Whether bcrypt's `verify` accepts `password` against `hash`. Depends on
/// the two arguments alone.
pub uninterp spec fn bcrypt_accepts(password: Seq<char>, hash: Seq<char>) -> bool;

/// The login form handed in by the view layer.
pub struct LoginFormData {
    pub email: String,
    pub password: String,
}

/// Relies on `bcrypt::hash` with `DEFAULT_COST`: the salt is drawn from OS
/// randomness, so nothing is assumed that depends on it. What holds of every
/// outcome: a bcrypt hash string is always exactly 60 characters, and
/// `bcrypt::verify` accepts the hashed password against it — `verify`
/// re-derives the digest from the cost and salt embedded in the hash string
/// and compares, so the round trip holds whatever salt was drawn. Errors are
/// mapped to `HashingError`.
#[verifier::external_body]
pub fn hash_password(password: &str) -> (r: Result<String, SubmissionError>)
    ensures
        r matches Ok(h) ==> h@.len() == 60 && bcrypt_accepts(password@, h@),
{
    bcrypt::hash(password, bcrypt::DEFAULT_COST).map_err(
        |e| SubmissionError::HashingError(format!("bcrypt error: {}", e)),
    )
}

/// Relies on `bcrypt::verify`: deterministic in password and hash; its `Ok`
/// value is [`bcrypt_accepts`]. A malformed stored hash yields an error,
/// mapped to `HashingError`.
#[verifier::external_body]
pub fn verify_password(password: &str, hash: &str) -> (r: Result<bool, SubmissionError>)
    ensures
        r matches Ok(b) ==> b == bcrypt_accepts(password@, hash@),
        r matches Err(e) ==> e matches SubmissionError::HashingError(_),
{
    bcrypt::verify(password, hash).map_err(
        |e| SubmissionError::HashingError(format!("bcrypt error: {}", e)),
    )
}

/// The login decision: the identity of the account whose email matches and
/// whose password hash accepts the password; `None` when the email is
/// unknown or the password is rejected — the two cases are indistinguishable
/// to the caller, as a login form must not reveal which part failed.
pub fn authenticate(repo: &AdminRepository, email: &str, password: &str) -> (r: Result<
    Option<i32>,
    SubmissionError,
>)
    requires
        repo.wf(),
    ensures
        !has_email(repo.rows_view(), email@) ==> r matches Ok(None::<i32>),
        has_email(repo.rows_view(), email@) ==> {
            let account = repo.rows_view()[idx_of_email(repo.rows_view(), email@)];
            match r {
                Ok(Some(id)) => id == account.id && bcrypt_accepts(
                    password@,
                    account.password_hash,
                ),
                Ok(None) => !bcrypt_accepts(password@, account.password_hash),
                Err(e) => e matches SubmissionError::HashingError(_),
            }
        },
{
    let found = match repo.find_admin_by_email(email) {
        Ok(found) => found,
        Err(e) => {
            return Err(e);
        },
    };
    match found {
        Some(account) => {
            match verify_password(password, account.password_hash.as_str()) {
                Ok(true) => Ok(Some(account.id)),
                Ok(false) => Ok(None),
                Err(e) => Err(e),
            }
        },
        None => Ok(None),
    }
}

} // verus!
