use admission_core::auth::{Principal, Role};
use admission_core::controller::{
    analytics_event, analytics_overview, cancel_registration, decide_admission,
    event_registrations, get_ticket, mint_ticket_code, register_for_event,
};
use admission_core::errors::AdmissionError;
use admission_core::ledger::{Ledger, RegStatus};
use admission_core::oracle::{EventSnapshot, OracleReply};

fn member(subject: u128) -> Principal {
    Principal { subject, role: Role::Member }
}

fn oracle_with_capacity(event_id: u128, capacity: u32) -> OracleReply {
    OracleReply::Body { success: true, snapshot: Some(EventSnapshot { id: event_id, capacity }) }
}

#[test]
fn one_seat_two_racing_registrations_admit_exactly_one() {
    let mut l = Ledger::new();
    let reply = oracle_with_capacity(1, 1);
    let a = register_for_event(&mut l, &member(7), 1, &reply, 100);
    let b = register_for_event(&mut l, &member(8), 1, &reply, 100);
    assert!(a.is_ok());
    assert_eq!(b.unwrap_err(), AdmissionError::CapacityExceeded);
    assert_eq!(l.count_confirmed(1), 1);
}

#[test]
fn registering_twice_for_one_event_is_rejected() {
    let mut l = Ledger::new();
    let reply = oracle_with_capacity(1, 5);
    register_for_event(&mut l, &member(7), 1, &reply, 100).unwrap();
    let again = register_for_event(&mut l, &member(7), 1, &reply, 101);
    assert_eq!(again.unwrap_err(), AdmissionError::AlreadyRegistered);
    assert_eq!(l.len(), 1);
}

#[test]
fn unreachable_oracle_aborts_with_event_unavailable_and_no_row() {
    let mut l = Ledger::new();
    let r = register_for_event(&mut l, &member(7), 1, &OracleReply::Unreachable, 100);
    assert_eq!(r.unwrap_err(), AdmissionError::EventUnavailable);
    assert_eq!(l.len(), 0);
}

#[test]
fn oracle_without_event_aborts_with_event_not_found() {
    let mut l = Ledger::new();
    let no_data = OracleReply::Body { success: true, snapshot: None };
    let r = register_for_event(&mut l, &member(7), 1, &no_data, 100);
    assert_eq!(r.unwrap_err(), AdmissionError::EventNotFound);
    let failed = OracleReply::Body {
        success: false,
        snapshot: Some(EventSnapshot { id: 1, capacity: 5 }),
    };
    let r2 = register_for_event(&mut l, &member(7), 1, &failed, 100);
    assert_eq!(r2.unwrap_err(), AdmissionError::EventNotFound);
    assert_eq!(l.len(), 0);
}

#[test]
fn admission_with_chosen_code_records_it() {
    let mut l = Ledger::new();
    let reply = oracle_with_capacity(1, 2);
    let reg =
        decide_admission(&mut l, &member(7), 1, &reply, "TKT-AAAAAAAA".to_string(), 100).unwrap();
    assert_eq!(reg.ticket_code, "TKT-AAAAAAAA");
    assert_eq!(reg.status, RegStatus::Confirmed);
}

#[test]
fn cancel_by_stranger_forbidden_then_owner_succeeds() {
    let mut l = Ledger::new();
    let reply = oracle_with_capacity(1, 5);
    let reg = register_for_event(&mut l, &member(7), 1, &reply, 100).unwrap();
    let stranger = cancel_registration(&mut l, &member(8), reg.id);
    assert_eq!(stranger.unwrap_err(), AdmissionError::Forbidden);
    let owner = cancel_registration(&mut l, &member(7), reg.id).unwrap();
    assert_eq!(owner.status, RegStatus::Cancelled);
    assert_eq!(owner.ticket_code, reg.ticket_code);
}

#[test]
fn cancel_errors_carry_the_admission_taxonomy() {
    let mut l = Ledger::new();
    assert_eq!(
        cancel_registration(&mut l, &member(7), 0).unwrap_err(),
        AdmissionError::NotFound
    );
    let reply = oracle_with_capacity(1, 5);
    let reg = register_for_event(&mut l, &member(7), 1, &reply, 100).unwrap();
    let admin = Principal { subject: 99, role: Role::Admin };
    let cancelled = cancel_registration(&mut l, &admin, reg.id).unwrap();
    assert_eq!(cancelled.status, RegStatus::Cancelled);
}

#[test]
fn minted_ticket_codes_have_the_published_shape() {
    let code = mint_ticket_code();
    assert_eq!(code.chars().count(), 12);
    assert!(code.starts_with("TKT-"));
}

#[test]
fn minted_ticket_codes_differ_between_calls() {
    assert_ne!(mint_ticket_code(), mint_ticket_code());
}

#[test]
fn ticket_readable_by_owner_and_admin_only() {
    let mut l = Ledger::new();
    let reply = oracle_with_capacity(1, 5);
    let reg = register_for_event(&mut l, &member(7), 1, &reply, 100).unwrap();
    assert_eq!(get_ticket(&l, &member(7), reg.id).unwrap().id, reg.id);
    let admin = Principal { subject: 99, role: Role::Admin };
    assert_eq!(get_ticket(&l, &admin, reg.id).unwrap().id, reg.id);
    assert_eq!(
        get_ticket(&l, &member(8), reg.id).unwrap_err(),
        AdmissionError::Forbidden
    );
    assert_eq!(get_ticket(&l, &member(7), 55).unwrap_err(), AdmissionError::NotFound);
}

#[test]
fn event_listing_needs_organizer_or_admin() {
    let mut l = Ledger::new();
    let reply = oracle_with_capacity(1, 5);
    register_for_event(&mut l, &member(7), 1, &reply, 100).unwrap();
    assert_eq!(
        event_registrations(&l, &member(7), 1).unwrap_err(),
        AdmissionError::Forbidden
    );
    let organizer = Principal { subject: 50, role: Role::Organizer };
    let rows = event_registrations(&l, &organizer, 1).unwrap();
    assert_eq!(rows.len(), 1);
    assert_eq!(rows[0].subject_id, 7);
}

#[test]
fn event_stats_are_zero_filled_for_an_event_without_registrations() {
    let l = Ledger::new();
    let organizer = Principal { subject: 50, role: Role::Organizer };
    let stats = analytics_event(&l, &organizer, 42).unwrap();
    assert_eq!(stats.event_id, 42);
    assert_eq!(stats.total, 0);
    assert_eq!(stats.confirmed, 0);
    assert_eq!(stats.cancelled, 0);
}

#[test]
fn event_stats_split_by_status_and_need_a_privileged_role() {
    let mut l = Ledger::new();
    let reply = oracle_with_capacity(1, 5);
    let a = register_for_event(&mut l, &member(7), 1, &reply, 100).unwrap();
    register_for_event(&mut l, &member(8), 1, &reply, 101).unwrap();
    register_for_event(&mut l, &member(9), 2, &oracle_with_capacity(2, 5), 102).unwrap();
    cancel_registration(&mut l, &member(7), a.id).unwrap();
    assert_eq!(
        analytics_event(&l, &member(7), 1).unwrap_err(),
        AdmissionError::Forbidden
    );
    let admin = Principal { subject: 99, role: Role::Admin };
    let stats = analytics_event(&l, &admin, 1).unwrap();
    assert_eq!(stats.total, 2);
    assert_eq!(stats.confirmed, 1);
    assert_eq!(stats.cancelled, 1);
}

#[test]
fn overview_forbidden_for_member_and_consistent_for_admin() {
    let mut l = Ledger::new();
    let r1 = oracle_with_capacity(1, 5);
    let r2 = oracle_with_capacity(2, 5);
    let a = register_for_event(&mut l, &member(7), 1, &r1, 100).unwrap();
    register_for_event(&mut l, &member(8), 1, &r1, 101).unwrap();
    register_for_event(&mut l, &member(7), 2, &r2, 102).unwrap();
    cancel_registration(&mut l, &member(7), a.id).unwrap();
    assert_eq!(
        analytics_overview(&l, &member(7)).unwrap_err(),
        AdmissionError::Forbidden
    );
    let organizer = Principal { subject: 50, role: Role::Organizer };
    assert_eq!(
        analytics_overview(&l, &organizer).unwrap_err(),
        AdmissionError::Forbidden
    );
    let admin = Principal { subject: 99, role: Role::Admin };
    let overview = analytics_overview(&l, &admin).unwrap();
    let s1 = analytics_event(&l, &admin, 1).unwrap();
    let s2 = analytics_event(&l, &admin, 2).unwrap();
    assert_eq!(overview.total_registrations, s1.total + s2.total);
    assert_eq!(overview.total_confirmed, s1.confirmed + s2.confirmed);
    assert_eq!(overview.total_cancelled, s1.cancelled + s2.cancelled);
    assert_eq!(overview.unique_events, 2);
    assert_eq!(overview.unique_users, 2);
}
