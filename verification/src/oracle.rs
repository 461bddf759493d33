//! The capacity oracle's answer, and how one admission attempt reads it.
//! The catalog is a foreign service: the core sees only the decoded reply and
//! treats a missing event or an unreachable catalog as a hard failure that
//! leaves the ledger untouched.

use vstd::prelude::*;
use crate::errors::AdmissionError;

verus! {

/// The event catalog's view of one event, read per request; it bounds a single
/// admission decision and is not persisted here.
#[derive(Clone, Copy, Debug, PartialEq, Eq, Structural)]
pub struct EventSnapshot {
    pub id: u128,
    pub capacity: u32,
}

/// What came back from the capacity oracle, as plain values.
#[derive(Clone, Copy, Debug)]
pub enum OracleReply {
    /// A well-formed body: the catalog's success flag and, when present, the
    /// event snapshot.
    Body { success: bool, snapshot: Option<EventSnapshot> },
    /// Transport failure, timeout, or an unparsable body.
    Unreachable,
}

/// How a reply decides an admission attempt: a body without a snapshot, or
/// with the success flag down, means the event does not exist; an unreachable
/// catalog is a transient dependency failure.
pub open spec fn spec_interpret_oracle(reply: OracleReply) -> Result<EventSnapshot, AdmissionError> {
    match reply {
        OracleReply::Body { success, snapshot } => {
            if success {
                match snapshot {
                    Some(snap) => Ok(snap),
                    None => Err(AdmissionError::EventNotFound),
                }
            } else {
                Err(AdmissionError::EventNotFound)
            }
        },
        OracleReply::Unreachable => Err(AdmissionError::EventUnavailable),
    }
}

pub fn interpret_oracle(reply: &OracleReply) -> (r: Result<EventSnapshot, AdmissionError>)
    ensures
        r == spec_interpret_oracle(*reply),
{
    match reply {
        OracleReply::Body { success, snapshot } => {
            if *success {
                match snapshot {
                    Some(snap) => Ok(*snap),
                    None => Err(AdmissionError::EventNotFound),
                }
            } else {
                Err(AdmissionError::EventNotFound)
            }
        },
        OracleReply::Unreachable => Err(AdmissionError::EventUnavailable),
    }
}

} // verus!
