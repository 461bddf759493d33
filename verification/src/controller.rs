//! The admission controller: sequences one user-facing attempt — duplicate
//! check, capacity oracle, atomic reservation, ticket minting — and the
//! authorized read paths (tickets, listings, analytics).

use vstd::prelude::*;
use crate::auth::{Principal, Role};
use crate::errors::AdmissionError;
use crate::ledger::{
    cancelled_view, confirmed_count, event_rows, has_confirmed_pair, Ledger,
    Registration, RegStatus, RegView, ReserveError, ticket_code_used, views_of,
};
use crate::oracle::{OracleReply, spec_interpret_oracle, interpret_oracle};
use crate::stats::{
    cancelled_total, confirmed_total, event_cancelled_count, event_ids_of, event_total_count,
    EventStats, OverviewStats, subject_ids_of,
};

verus! {

/// What a client sends to register: the event it wants a seat for.
#[derive(Clone, Copy, Debug, PartialEq, Eq, Structural)]
pub struct RegisterRequest {
    pub event_id: u128,
}

/// What one admission attempt guarantees, given the oracle's reply and the
/// ticket code offered to the ledger. The checks run in a fixed order:
/// duplicate first, then the oracle's verdict, then capacity at write time.
pub open spec fn admit_post(
    pre: Seq<RegView>,
    post: Seq<RegView>,
    r: Result<RegView, AdmissionError>,
    subject: u128,
    event_id: u128,
    reply: OracleReply,
    code: Seq<char>,
    now: i64,
) -> bool {
    if has_confirmed_pair(pre, event_id, subject) {
        r == Err::<RegView, AdmissionError>(AdmissionError::AlreadyRegistered) && post == pre
    } else {
        match spec_interpret_oracle(reply) {
            Err(e) => r == Err::<RegView, AdmissionError>(e) && post == pre,
            Ok(snap) => {
                if confirmed_count(pre, event_id) >= snap.capacity {
                    r == Err::<RegView, AdmissionError>(AdmissionError::CapacityExceeded) && post
                        == pre
                } else if ticket_code_used(pre, code) {
                    r == Err::<RegView, AdmissionError>(AdmissionError::Internal) && post == pre
                } else {
                    &&& r is Ok
                    &&& r->Ok_0 == (RegView {
                        id: pre.len() as u64,
                        event_id,
                        subject_id: subject,
                        ticket_code: code,
                        status: RegStatus::Confirmed,
                        created_at: now,
                    })
                    &&& post == pre.push(r->Ok_0)
                }
            },
        }
    }
}

/// One admission attempt with the ticket code chosen by the caller: reject a
/// duplicate, read the oracle's verdict, and reserve atomically against the
/// ledger. Exactly one outcome is possible for each input.
pub fn decide_admission(
    ledger: &mut Ledger,
    requester: &Principal,
    event_id: u128,
    reply: &OracleReply,
    ticket_code: String,
    now: i64,
) -> (r: Result<Registration, AdmissionError>)
    requires
        old(ledger).wf(),
    ensures
        final(ledger).wf(),
        admit_post(
            old(ledger)@,
            final(ledger)@,
            match r {
                Ok(reg) => Ok(reg@),
                Err(e) => Err(e),
            },
            requester.subject,
            event_id,
            *reply,
            ticket_code@,
            now,
        ),
        r is Err ==> final(ledger)@ == old(ledger)@,
{
    if ledger.find_confirmed(event_id, requester.subject).is_some() {
        return Err(AdmissionError::AlreadyRegistered);
    }
    let snap = match interpret_oracle(reply) {
        Ok(snap) => snap,
        Err(e) => {
            return Err(e);
        },
    };
    match ledger.reserve(event_id, requester.subject, snap.capacity, ticket_code, now) {
        Ok(reg) => Ok(reg),
        Err(ReserveError::AlreadyRegistered) => Err(AdmissionError::AlreadyRegistered),
        Err(ReserveError::CapacityExceeded) => Err(AdmissionError::CapacityExceeded),
        Err(ReserveError::TicketCodeInUse) => Err(AdmissionError::Internal),
    }
}

/// Relies on uuid::Uuid::new_v4 and its hyphenated rendering: the first eight
/// characters of a rendered UUID are hexadecimal digits, so the uppercased
/// prefix is eight characters long. The value is random; only the length is
/// promised.
#[verifier::external_body]
fn random_code_suffix() -> (r: String)
    ensures
        r@.len() == 8,
{
    let rendered = uuid::Uuid::new_v4().to_string();
    rendered[..8].to_uppercase()
}

/// A freshly minted ticket code: the ticket marker followed by eight random
/// characters. Uniqueness is not minted here; the ledger enforces it at
/// reservation time.
pub fn mint_ticket_code() -> (code: String)
    ensures
        code@.len() == 12,
        code@.subrange(0, 4) == "TKT-"@,
{
    proof {
        reveal_strlit("TKT-");
    }
    let mut code = "TKT-".to_owned();
    let suffix = random_code_suffix();
    code.append(suffix.as_str());
    proof {
        assert(code@.subrange(0, 4) =~= "TKT-"@);
    }
    code
}

/// One user-facing admission attempt: mint a ticket code and decide the admission. The code
/// is drawn from a collision-resistant random source; on the rare collision
/// the ledger refuses the write and the attempt surfaces a storage failure,
/// leaving no partial state.
pub fn register_for_event(
    ledger: &mut Ledger,
    requester: &Principal,
    event_id: u128,
    reply: &OracleReply,
    now: i64,
) -> (r: Result<Registration, AdmissionError>)
    requires
        old(ledger).wf(),
    ensures
        final(ledger).wf(),
        r matches Ok(reg) ==> admit_post(
            old(ledger)@,
            final(ledger)@,
            Ok(reg@),
            requester.subject,
            event_id,
            *reply,
            reg@.ticket_code,
            now,
        ) && reg@.ticket_code.len() == 12,
        r is Err ==> final(ledger)@ == old(ledger)@,
        has_confirmed_pair(old(ledger)@, event_id, requester.subject) ==> r == Err::<
            Registration,
            AdmissionError,
        >(AdmissionError::AlreadyRegistered),
        !has_confirmed_pair(old(ledger)@, event_id, requester.subject) ==> (match spec_interpret_oracle(
            *reply,
        ) {
            Err(e) => r == Err::<Registration, AdmissionError>(e),
            Ok(snap) => {
                if confirmed_count(old(ledger)@, event_id) >= snap.capacity {
                    r == Err::<Registration, AdmissionError>(AdmissionError::CapacityExceeded)
                } else {
                    r is Ok || r == Err::<Registration, AdmissionError>(AdmissionError::Internal)
                }
            },
        }),
{
    let code = mint_ticket_code();
    decide_admission(ledger, requester, event_id, reply, code, now)
}

/// Cancel a registration on a requester's behalf: permitted to the owning
/// subject and to an administrator; cancelling an already-cancelled
/// registration succeeds again with the same row.
pub fn cancel_registration(
    ledger: &mut Ledger,
    requester: &Principal,
    registration_id: u64,
) -> (r: Result<Registration, AdmissionError>)
    requires
        old(ledger).wf(),
    ensures
        final(ledger).wf(),
        ({
            let i = registration_id as int;
            let pre = old(ledger)@;
            if i >= pre.len() {
                r == Err::<Registration, AdmissionError>(AdmissionError::NotFound) && final(ledger)@ == pre
            } else if pre[i].subject_id != requester.subject && requester.role != Role::Admin {
                r == Err::<Registration, AdmissionError>(AdmissionError::Forbidden) && final(ledger)@ == pre
            } else {
                (match r {
                    Ok(reg) => reg@ == cancelled_view(pre[i]),
                    Err(_) => false,
                }) && final(ledger)@ == pre.update(i, cancelled_view(pre[i]))
            }
        }),
{
    let is_admin = matches!(requester.role, Role::Admin);
    match ledger.cancel(registration_id, requester.subject, is_admin) {
        Ok(reg) => Ok(reg),
        Err(crate::ledger::CancelError::NotFound) => Err(AdmissionError::NotFound),
        Err(crate::ledger::CancelError::Forbidden) => Err(AdmissionError::Forbidden),
    }
}

/// A registration shown as the ticket: readable by its owning subject and by
/// an administrator.
pub fn get_ticket(ledger: &Ledger, requester: &Principal, registration_id: u64) -> (r: Result<
    Registration,
    AdmissionError,
>)
    requires
        ledger.wf(),
    ensures
        ({
            let i = registration_id as int;
            if i >= ledger@.len() {
                r == Err::<Registration, AdmissionError>(AdmissionError::NotFound)
            } else if ledger@[i].subject_id != requester.subject && requester.role != Role::Admin {
                r == Err::<Registration, AdmissionError>(AdmissionError::Forbidden)
            } else {
                match r {
                    Ok(reg) => reg@ == ledger@[i],
                    Err(_) => false,
                }
            }
        }),
{
    let reg = match ledger.get(registration_id) {
        Some(reg) => reg,
        None => {
            return Err(AdmissionError::NotFound);
        },
    };
    if reg.subject_id != requester.subject && !matches!(requester.role, Role::Admin) {
        return Err(AdmissionError::Forbidden);
    }
    Ok(reg)
}

/// Every registration for an event, oldest first; an event-scoped
/// administrative read, so only organizers and administrators pass.
pub fn event_registrations(ledger: &Ledger, requester: &Principal, event_id: u128) -> (r: Result<
    Vec<Registration>,
    AdmissionError,
>)
    requires
        ledger.wf(),
    ensures
        r is Ok <==> (requester.role == Role::Organizer || requester.role == Role::Admin),
        r matches Ok(rows) ==> views_of(rows@) == event_rows(ledger@, event_id),
        r is Err ==> r == Err::<Vec<Registration>, AdmissionError>(AdmissionError::Forbidden),
{
    if !matches!(requester.role, Role::Organizer | Role::Admin) {
        return Err(AdmissionError::Forbidden);
    }
    Ok(ledger.registrations_for_event(event_id))
}

/// Per-event statistics for organizers and administrators; zero-filled for an
/// event with no registrations, never a not-found error.
pub fn analytics_event(ledger: &Ledger, requester: &Principal, event_id: u128) -> (r: Result<
    EventStats,
    AdmissionError,
>)
    ensures
        r is Ok <==> (requester.role == Role::Organizer || requester.role == Role::Admin),
        r matches Ok(s) ==> s.event_id == event_id && s.total == event_total_count(
            ledger@,
            event_id,
        ) && s.confirmed == confirmed_count(ledger@, event_id) && s.cancelled
            == event_cancelled_count(ledger@, event_id) && s.total == s.confirmed + s.cancelled,
        r is Err ==> r == Err::<EventStats, AdmissionError>(AdmissionError::Forbidden),
{
    if !matches!(requester.role, Role::Organizer | Role::Admin) {
        return Err(AdmissionError::Forbidden);
    }
    Ok(ledger.event_stats(event_id))
}

/// System-wide totals, for administrators only.
pub fn analytics_overview(ledger: &Ledger, requester: &Principal) -> (r: Result<
    OverviewStats,
    AdmissionError,
>)
    ensures
        r is Ok <==> requester.role == Role::Admin,
        r matches Ok(o) ==> o.total_registrations == ledger@.len() && o.total_confirmed
            == confirmed_total(ledger@) && o.total_cancelled == cancelled_total(ledger@)
            && o.total_registrations == o.total_confirmed + o.total_cancelled && o.unique_events
            == event_ids_of(ledger@).to_set().len() && o.unique_users == subject_ids_of(
            ledger@,
        ).to_set().len(),
        r is Err ==> r == Err::<OverviewStats, AdmissionError>(AdmissionError::Forbidden),
{
    if !matches!(requester.role, Role::Admin) {
        return Err(AdmissionError::Forbidden);
    }
    Ok(ledger.overview())
}

} // verus!
