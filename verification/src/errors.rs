//! The error taxonomy of the admission core, and the wire-level error record
//! handed to clients.

use vstd::prelude::*;

verus! {

/// Every way an admission-core operation can be refused.
#[derive(Clone, Copy, Debug, PartialEq, Eq, Structural)]
pub enum AdmissionError {
    /// The credential is missing or not in `Bearer <token>` form.
    Unauthenticated,
    /// The credential does not verify, is expired, or names no valid subject.
    InvalidCredential,
    /// The requester's role or ownership does not permit the operation.
    Forbidden,
    /// The subject already holds a confirmed registration for the event.
    AlreadyRegistered,
    /// The event has no free seat left.
    CapacityExceeded,
    /// The capacity oracle reports that the event does not exist.
    EventNotFound,
    /// The capacity oracle could not be reached.
    EventUnavailable,
    /// The requested registration does not exist.
    NotFound,
    /// A storage-level failure; nothing was applied.
    Internal,
}

/// The HTTP-style status class under which each error is surfaced.
pub open spec fn spec_status_of(e: AdmissionError) -> u16 {
    match e {
        AdmissionError::Unauthenticated => 401,
        AdmissionError::InvalidCredential => 401,
        AdmissionError::Forbidden => 403,
        AdmissionError::AlreadyRegistered => 409,
        AdmissionError::CapacityExceeded => 409,
        AdmissionError::EventNotFound => 404,
        AdmissionError::EventUnavailable => 503,
        AdmissionError::NotFound => 404,
        AdmissionError::Internal => 500,
    }
}

pub fn status_of(e: AdmissionError) -> (code: u16)
    ensures
        code == spec_status_of(e),
{
    match e {
        AdmissionError::Unauthenticated => 401,
        AdmissionError::InvalidCredential => 401,
        AdmissionError::Forbidden => 403,
        AdmissionError::AlreadyRegistered => 409,
        AdmissionError::CapacityExceeded => 409,
        AdmissionError::EventNotFound => 404,
        AdmissionError::EventUnavailable => 503,
        AdmissionError::NotFound => 404,
        AdmissionError::Internal => 500,
    }
}

/// The error record sent to a client: a status code and a message.
#[derive(Debug)]
pub struct AppError {
    pub code: u16,
    pub message: String,
}

impl AppError {
    pub fn bad_request(msg: &str) -> (e: Self)
        ensures
            e.code == 400,
            e.message@ == msg@,
    {
        AppError { code: 400, message: msg.to_owned() }
    }

    pub fn unauthorized(msg: &str) -> (e: Self)
        ensures
            e.code == 401,
            e.message@ == msg@,
    {
        AppError { code: 401, message: msg.to_owned() }
    }

    pub fn not_found(msg: &str) -> (e: Self)
        ensures
            e.code == 404,
            e.message@ == msg@,
    {
        AppError { code: 404, message: msg.to_owned() }
    }

    pub fn internal(msg: &str) -> (e: Self)
        ensures
            e.code == 500,
            e.message@ == msg@,
    {
        AppError { code: 500, message: msg.to_owned() }
    }

    /// The error record for an admission error, carrying its status class.
    pub fn of_admission(e: AdmissionError, msg: &str) -> (r: Self)
        ensures
            r.code == spec_status_of(e),
            r.message@ == msg@,
    {
        AppError { code: status_of(e), message: msg.to_owned() }
    }
}

} // verus!
