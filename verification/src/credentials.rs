//! Account credentials: password hashing and the login decision. The stored
//! user rows live in the identity service's database; this module holds every
//! decision taken on one row.

use vstd::prelude::*;
use crate::auth::{issue_claims, Claims};

verus! {

/// A stored user row, as plain values. The identifier is carried in its
/// rendered form, as the credential's subject field expects it.
#[derive(Debug)]
pub struct User {
    pub id: String,
    pub email: String,
    pub password_hash: String,
    pub role: String,
    pub created_at: i64,
}

/// What a client sends to log in.
#[derive(Debug)]
pub struct LoginRequest {
    pub email: String,
    pub password: String,
}

/// What a client sends to create an account.
#[derive(Debug)]
pub struct RegisterRequest {
    pub email: String,
    pub password: String,
}

/// The reply after a successful login or registration.
#[derive(Debug)]
pub struct AuthResponse {
    pub token: String,
    pub user_id: String,
    pub email: String,
    pub role: String,
}

/// A new account row ready to be stored; the role of every self-registered
/// account is the ordinary one.
#[derive(Debug)]
pub struct NewUser {
    pub email: String,
    pub password_hash: String,
    pub role: String,
}

/// Ways a credential operation fails.
#[derive(Clone, Copy, Debug, PartialEq, Eq, Structural)]
pub enum CredentialError {
    /// No account carries the given email.
    UnknownEmail,
    /// The password does not match the stored hash.
    WrongPassword,
    /// The password could not be hashed; nothing was stored.
    HashingFailed,
}

/// What bcrypt answers when a password is checked against a stored hash: a
/// match verdict, or a failure for a malformed hash. It depends on the two
/// strings alone.
pub uninterp spec fn bcrypt_verdict(password: Seq<char>, hashed: Seq<char>) -> Result<bool, ()>;

/// Relies on bcrypt::verify: it re-derives the hash from the password and the
/// salt stored in `hashed` and compares, a function of its two arguments.
#[verifier::external_body]
fn verify_password(password: &str, hashed: &str) -> (r: Result<bool, ()>)
    ensures
        r == bcrypt_verdict(password@, hashed@),
{
    match bcrypt::verify(password, hashed) {
        Ok(b) => Ok(b),
        Err(_) => Err(()),
    }
}

/// Relies on bcrypt::hash at the default cost: a salted hash of the password,
/// drawn from OS randomness, so nothing is promised of the value.
#[verifier::external_body]
fn hash_password(password: &str) -> (r: Result<String, ()>)
{
    match bcrypt::hash(password, bcrypt::DEFAULT_COST) {
        Ok(h) => Ok(h),
        Err(_) => Err(()),
    }
}

/// The login decision on the user row found (or not found) for the request's
/// email: unknown email and wrong password are rejected, a match yields fresh
/// claims for the account.
pub fn check_login(user: Option<&User>, password: &str) -> (r: Result<Claims, CredentialError>)
    ensures
        user is None <==> r == Err::<Claims, CredentialError>(CredentialError::UnknownEmail),
        r is Ok <==> (user matches Some(u) && bcrypt_verdict(password@, u.password_hash@) == Ok::<
            bool,
            (),
        >(true)),
        user matches Some(u) && bcrypt_verdict(password@, u.password_hash@) != Ok::<bool, ()>(true)
            ==> r == Err::<Claims, CredentialError>(CredentialError::WrongPassword),
        r matches Ok(c) ==> user matches Some(u) && c.sub@ == u.id@ && c.email@ == u.email@
            && c.role@ == u.role@ && c.exp == c.iat + 86400,
{
    let u = match user {
        Some(u) => u,
        None => {
            return Err(CredentialError::UnknownEmail);
        },
    };
    match verify_password(password, u.password_hash.as_str()) {
        Ok(true) => Ok(issue_claims(u.id.as_str(), u.email.as_str(), u.role.as_str())),
        _ => Err(CredentialError::WrongPassword),
    }
}

/// The reply body shown after login, registration or a profile read: the
/// account's data beside the (possibly empty) credential token.
pub fn auth_response_of(user: &User, token: String) -> (r: AuthResponse)
    ensures
        r.token@ == token@,
        r.user_id@ == user.id@,
        r.email@ == user.email@,
        r.role@ == user.role@,
{
    AuthResponse {
        token,
        user_id: user.id.clone(),
        email: user.email.clone(),
        role: user.role.clone(),
    }
}

/// The registration decision: hash the password and shape the new account row;
/// a hashing failure stores nothing.
pub fn prepare_registration(req: &RegisterRequest) -> (r: Result<NewUser, CredentialError>)
    ensures
        r matches Ok(nu) ==> nu.email@ == req.email@ && nu.role@ == "User"@,
        r is Err ==> r == Err::<NewUser, CredentialError>(CredentialError::HashingFailed),
{
    match hash_password(req.password.as_str()) {
        Ok(password_hash) => Ok(
            NewUser { email: req.email.clone(), password_hash, role: "User".to_owned() },
        ),
        Err(_) => Err(CredentialError::HashingFailed),
    }
}

} // verus!
