//! The identity/claims verifier's decision half: reading a bearer header,
//! turning verified claims into a principal, checking expiry, and role
//! checks. Signing and signature verification themselves are the identity
//! collaborator's job; every decision taken on what it yields is here.

use vstd::prelude::*;
use crate::errors::AdmissionError;

verus! {

/// Data carried inside a credential token.
#[derive(Debug)]
pub struct Claims {
    pub sub: String,
    pub email: String,
    pub role: String,
    /// Expiry, seconds since the Unix epoch.
    pub exp: u64,
    /// Issued-at, seconds since the Unix epoch.
    pub iat: u64,
}

/// An authenticated request's claims, as handed to a request handler.
#[derive(Debug)]
pub struct AuthUser(pub Claims);

/// Implemented by the application state that stores the shared signing secret.
pub trait HasJwtSecret {
    fn jwt_secret(&self) -> &str;
}

/// The role of a principal. `Admin` satisfies every role check; `Organizer`
/// is required for event-scoped administrative reads.
#[derive(Clone, Copy, Debug, PartialEq, Eq, Structural)]
pub enum Role {
    Member,
    Organizer,
    Admin,
}

/// An authenticated actor: a subject identifier and the role the verifier
/// asserted for it. Downstream code takes the role from here and nowhere else.
#[derive(Clone, Copy, Debug, PartialEq, Eq, Structural)]
pub struct Principal {
    pub subject: u128,
    pub role: Role,
}

/// The role a claims record names; anything but the two privileged names is an
/// ordinary member.
pub open spec fn role_of(s: Seq<char>) -> Role {
    if s == "Admin"@ {
        Role::Admin
    } else if s == "Organizer"@ {
        Role::Organizer
    } else {
        Role::Member
    }
}

pub fn parse_role(role: &String) -> (r: Role)
    ensures
        r == role_of(role@),
{
    if *role == "Admin".to_owned() {
        Role::Admin
    } else if *role == "Organizer".to_owned() {
        Role::Organizer
    } else {
        Role::Member
    }
}

/// The 128-bit value a string denotes as a UUID, where it denotes one.
pub uninterp spec fn uuid_of(s: Seq<char>) -> Option<u128>;

/// Relies on uuid::Uuid::parse_str and Uuid::as_u128: whether a string parses
/// as a UUID, and which 128-bit value it denotes, depend on the string alone.
#[verifier::external_body]
fn parse_uuid(s: &str) -> (r: Result<u128, ()>)
    ensures
        r matches Ok(v) ==> uuid_of(s@) == Some(v),
        r is Ok <==> uuid_of(s@) is Some,
{
    match uuid::Uuid::parse_str(s) {
        Ok(u) => Ok(u.as_u128()),
        Err(_) => Err(()),
    }
}

/// The principal a claims record names. A subject identifier that does not
/// parse is treated as an invalid credential, never defaulted.
pub fn principal_of_claims(claims: &Claims) -> (r: Result<Principal, AdmissionError>)
    ensures
        r matches Ok(p) ==> uuid_of(claims.sub@) == Some(p.subject) && p.role == role_of(
            claims.role@,
        ),
        r is Ok <==> uuid_of(claims.sub@) is Some,
        r is Err ==> r == Err::<Principal, AdmissionError>(AdmissionError::InvalidCredential),
{
    match parse_uuid(claims.sub.as_str()) {
        Ok(subject) => Ok(Principal { subject, role: parse_role(&claims.role) }),
        Err(_) => Err(AdmissionError::InvalidCredential),
    }
}

/// The verifier's whole decision on already signature-checked claims: reject
/// an expiry at or before `now` and an unparsable subject, otherwise yield the
/// principal.
pub fn authenticate_claims(claims: &Claims, now: u64) -> (r: Result<Principal, AdmissionError>)
    ensures
        r matches Ok(p) ==> claims.exp > now && uuid_of(claims.sub@) == Some(p.subject) && p.role
            == role_of(claims.role@),
        r is Ok <==> (claims.exp > now && uuid_of(claims.sub@) is Some),
        r is Err ==> r == Err::<Principal, AdmissionError>(AdmissionError::InvalidCredential),
{
    if claims.exp <= now {
        return Err(AdmissionError::InvalidCredential);
    }
    principal_of_claims(claims)
}

/// Splits `Bearer <token>` off an Authorization header; a missing or
/// malformed header is `Unauthenticated`.
pub fn parse_bearer<'a>(header: Option<&'a str>) -> (r: Result<&'a str, AdmissionError>)
    ensures
        r matches Ok(t) ==> header matches Some(h) && h@.len() >= 7 && h@.subrange(0, 7)
            == "Bearer "@ && t@ == h@.skip(7),
        r is Ok <==> (header matches Some(h) && h@.len() >= 7 && h@.subrange(0, 7) == "Bearer "@),
        r is Err ==> r == Err::<&'a str, AdmissionError>(AdmissionError::Unauthenticated),
{
    proof {
        reveal_strlit("Bearer ");
    }
    let h = match header {
        Some(h) => h,
        None => {
            return Err(AdmissionError::Unauthenticated);
        },
    };
    let n = h.unicode_len();
    if n < 7 {
        return Err(AdmissionError::Unauthenticated);
    }
    let marker = "Bearer ";
    for i in 0..7usize
        invariant
            header == Some(h),
            n == h@.len(),
            n >= 7,
            marker@ == "Bearer "@,
            marker@.len() == 7,
            forall|j: int| 0 <= j < i ==> h@[j] == marker@[j],
    {
        if h.get_char(i) != marker.get_char(i) {
            proof {
                assert(h@.subrange(0, 7) != "Bearer "@) by {
                    if h@.subrange(0, 7) == "Bearer "@ {
                        assert(h@.subrange(0, 7)[i as int] == "Bearer "@[i as int]);
                    }
                }
            }
            return Err(AdmissionError::Unauthenticated);
        }
    }
    proof {
        assert(h@.subrange(0, 7) =~= "Bearer "@);
    }
    let token = h.substring_char(7, n);
    proof {
        assert(token@ =~= h@.skip(7));
    }
    Ok(token)
}

/// The role gate used by name-based checks: the required role passes, and
/// `Admin` always passes.
pub fn require_role(claims: &Claims, required: &str) -> (r: Result<(), AdmissionError>)
    ensures
        r is Ok <==> (claims.role@ == required@ || claims.role@ == "Admin"@),
        r is Err ==> r == Err::<(), AdmissionError>(AdmissionError::Forbidden),
{
    if claims.role == required.to_owned() || claims.role == "Admin".to_owned() {
        Ok(())
    } else {
        Err(AdmissionError::Forbidden)
    }
}

impl Claims {
    /// Claims for a fresh credential issued at `now`, valid for 24 hours.
    pub fn new(user_id: &str, email: &str, role: &str, now: u64) -> (c: Claims)
        requires
            now <= u64::MAX - 86400,
        ensures
            c.sub@ == user_id@,
            c.email@ == email@,
            c.role@ == role@,
            c.iat == now,
            c.exp == now + 86400,
    {
        Claims {
            sub: user_id.to_owned(),
            email: email.to_owned(),
            role: role.to_owned(),
            exp: now + 24 * 3600,
            iat: now,
        }
    }
}

/// Relies on chrono::Utc::now and its timestamp method: the current wall-clock
/// time in seconds since the Unix epoch. Nothing can be promised of the value.
#[verifier::external_body]
fn now_seconds() -> (t: i64) {
    chrono::Utc::now().timestamp()
}

/// Claims for a fresh credential issued now, valid for 24 hours from the
/// moment of issue; a clock before the epoch is read as the epoch.
pub fn issue_claims(user_id: &str, email: &str, role: &str) -> (c: Claims)
    ensures
        c.sub@ == user_id@,
        c.email@ == email@,
        c.role@ == role@,
        c.exp == c.iat + 86400,
{
    let t = now_seconds();
    let now: u64 = if t < 0 {
        0
    } else {
        t as u64
    };
    Claims::new(user_id, email, role, now)
}

} // verus!
