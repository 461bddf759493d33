use admission_core::auth::{
    authenticate_claims, Claims, issue_claims, parse_bearer, parse_role, principal_of_claims,
    require_role, Role,
};
use admission_core::errors::{AdmissionError, AppError, status_of};

fn claims(sub: &str, role: &str, exp: u64) -> Claims {
    Claims {
        sub: sub.to_string(),
        email: "user@example.com".to_string(),
        role: role.to_string(),
        exp,
        iat: 0,
    }
}

#[test]
fn bearer_header_is_split_off() {
    assert_eq!(parse_bearer(Some("Bearer abc.def")).unwrap(), "abc.def");
    assert_eq!(parse_bearer(Some("Bearer ")).unwrap(), "");
}

#[test]
fn missing_or_malformed_header_is_unauthenticated() {
    assert_eq!(parse_bearer(None).unwrap_err(), AdmissionError::Unauthenticated);
    assert_eq!(parse_bearer(Some("Basic abc")).unwrap_err(), AdmissionError::Unauthenticated);
    assert_eq!(parse_bearer(Some("Bear")).unwrap_err(), AdmissionError::Unauthenticated);
    assert_eq!(parse_bearer(Some("bearer abc")).unwrap_err(), AdmissionError::Unauthenticated);
}

#[test]
fn roles_parse_with_member_as_the_default() {
    assert_eq!(parse_role(&"Admin".to_string()), Role::Admin);
    assert_eq!(parse_role(&"Organizer".to_string()), Role::Organizer);
    assert_eq!(parse_role(&"User".to_string()), Role::Member);
    assert_eq!(parse_role(&"admin".to_string()), Role::Member);
}

#[test]
fn principal_carries_the_parsed_subject() {
    let c = claims("550e8400-e29b-41d4-a716-446655440000", "Organizer", 10);
    let p = principal_of_claims(&c).unwrap();
    let expected = uuid::Uuid::parse_str("550e8400-e29b-41d4-a716-446655440000")
        .unwrap()
        .as_u128();
    assert_eq!(p.subject, expected);
    assert_eq!(p.role, Role::Organizer);
}

#[test]
fn unparsable_subject_is_an_invalid_credential() {
    let c = claims("not-a-uuid", "Admin", 10);
    assert_eq!(principal_of_claims(&c).unwrap_err(), AdmissionError::InvalidCredential);
}

#[test]
fn expired_claims_are_rejected() {
    let c = claims("550e8400-e29b-41d4-a716-446655440000", "User", 100);
    assert_eq!(authenticate_claims(&c, 100).unwrap_err(), AdmissionError::InvalidCredential);
    assert_eq!(authenticate_claims(&c, 250).unwrap_err(), AdmissionError::InvalidCredential);
    assert!(authenticate_claims(&c, 99).is_ok());
}

#[test]
fn fresh_claims_last_a_day() {
    let c = Claims::new("id-1", "a@b.c", "User", 1_000);
    assert_eq!(c.iat, 1_000);
    assert_eq!(c.exp, 87_400);
    assert_eq!(c.sub, "id-1");
    assert_eq!(c.email, "a@b.c");
    assert_eq!(c.role, "User");
    let issued = issue_claims("id-2", "x@y.z", "Admin");
    assert_eq!(issued.exp, issued.iat + 86_400);
}

#[test]
fn role_gate_admits_the_required_role_and_admins() {
    let org = claims("s", "Organizer", 10);
    assert!(require_role(&org, "Organizer").is_ok());
    assert_eq!(require_role(&org, "Admin").unwrap_err(), AdmissionError::Forbidden);
    let admin = claims("s", "Admin", 10);
    assert!(require_role(&admin, "Organizer").is_ok());
    let user = claims("s", "User", 10);
    assert_eq!(require_role(&user, "Organizer").unwrap_err(), AdmissionError::Forbidden);
}

#[test]
fn every_error_maps_to_its_status_class() {
    assert_eq!(status_of(AdmissionError::Unauthenticated), 401);
    assert_eq!(status_of(AdmissionError::InvalidCredential), 401);
    assert_eq!(status_of(AdmissionError::Forbidden), 403);
    assert_eq!(status_of(AdmissionError::AlreadyRegistered), 409);
    assert_eq!(status_of(AdmissionError::CapacityExceeded), 409);
    assert_eq!(status_of(AdmissionError::EventNotFound), 404);
    assert_eq!(status_of(AdmissionError::EventUnavailable), 503);
    assert_eq!(status_of(AdmissionError::NotFound), 404);
    assert_eq!(status_of(AdmissionError::Internal), 500);
}

#[test]
fn error_records_carry_code_and_message() {
    assert_eq!(AppError::bad_request("x").code, 400);
    assert_eq!(AppError::unauthorized("x").code, 401);
    assert_eq!(AppError::not_found("x").code, 404);
    let e = AppError::internal("boom");
    assert_eq!(e.code, 500);
    assert_eq!(e.message, "boom");
    let f = AppError::of_admission(AdmissionError::CapacityExceeded, "full");
    assert_eq!(f.code, 409);
    assert_eq!(f.message, "full");
}
