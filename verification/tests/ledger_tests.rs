use admission_core::ledger::{CancelError, Ledger, RegStatus, ReserveError};

fn code(s: &str) -> String {
    s.to_string()
}

#[test]
fn reserve_assigns_fields_and_counts() {
    let mut l = Ledger::new();
    let r = l.reserve(1, 7, 2, code("TKT-AAAAAAAA"), 100).unwrap();
    assert_eq!(r.id, 0);
    assert_eq!(r.event_id, 1);
    assert_eq!(r.subject_id, 7);
    assert_eq!(r.ticket_code, "TKT-AAAAAAAA");
    assert_eq!(r.status, RegStatus::Confirmed);
    assert_eq!(r.created_at, 100);
    assert_eq!(l.count_confirmed(1), 1);
    assert_eq!(l.count_confirmed(2), 0);
    assert_eq!(l.len(), 1);
}

#[test]
fn reserve_rejects_second_confirmed_registration_for_same_pair() {
    let mut l = Ledger::new();
    l.reserve(1, 7, 5, code("TKT-AAAAAAAA"), 100).unwrap();
    let r = l.reserve(1, 7, 5, code("TKT-BBBBBBBB"), 101);
    assert_eq!(r.unwrap_err(), ReserveError::AlreadyRegistered);
    assert_eq!(l.len(), 1);
    assert_eq!(l.count_confirmed(1), 1);
}

#[test]
fn reserve_rejects_when_capacity_reached() {
    let mut l = Ledger::new();
    l.reserve(1, 7, 1, code("TKT-AAAAAAAA"), 100).unwrap();
    let r = l.reserve(1, 8, 1, code("TKT-BBBBBBBB"), 101);
    assert_eq!(r.unwrap_err(), ReserveError::CapacityExceeded);
    assert_eq!(l.count_confirmed(1), 1);
}

#[test]
fn reserve_rejects_reused_ticket_code_even_across_events() {
    let mut l = Ledger::new();
    l.reserve(1, 7, 5, code("TKT-AAAAAAAA"), 100).unwrap();
    let r = l.reserve(2, 8, 5, code("TKT-AAAAAAAA"), 101);
    assert_eq!(r.unwrap_err(), ReserveError::TicketCodeInUse);
    assert_eq!(l.len(), 1);
}

#[test]
fn cancelling_frees_the_seat() {
    let mut l = Ledger::new();
    let a = l.reserve(1, 7, 1, code("TKT-AAAAAAAA"), 100).unwrap();
    l.cancel(a.id, 7, false).unwrap();
    let b = l.reserve(1, 8, 1, code("TKT-BBBBBBBB"), 101).unwrap();
    assert_eq!(b.subject_id, 8);
    assert_eq!(l.count_confirmed(1), 1);
}

#[test]
fn cancelled_subject_may_register_again() {
    let mut l = Ledger::new();
    let a = l.reserve(1, 7, 5, code("TKT-AAAAAAAA"), 100).unwrap();
    l.cancel(a.id, 7, false).unwrap();
    let again = l.reserve(1, 7, 5, code("TKT-BBBBBBBB"), 101).unwrap();
    assert_eq!(again.status, RegStatus::Confirmed);
    assert_eq!(l.count_confirmed(1), 1);
    assert_eq!(l.len(), 2);
}

#[test]
fn cancel_unknown_id_is_not_found() {
    let mut l = Ledger::new();
    assert_eq!(l.cancel(3, 7, false).unwrap_err(), CancelError::NotFound);
}

#[test]
fn cancel_by_non_owner_is_forbidden_but_admin_passes() {
    let mut l = Ledger::new();
    let a = l.reserve(1, 7, 5, code("TKT-AAAAAAAA"), 100).unwrap();
    assert_eq!(l.cancel(a.id, 8, false).unwrap_err(), CancelError::Forbidden);
    assert_eq!(l.get(a.id).unwrap().status, RegStatus::Confirmed);
    let cancelled = l.cancel(a.id, 8, true).unwrap();
    assert_eq!(cancelled.status, RegStatus::Cancelled);
}

#[test]
fn cancel_twice_is_idempotent() {
    let mut l = Ledger::new();
    let a = l.reserve(1, 7, 5, code("TKT-AAAAAAAA"), 100).unwrap();
    let first = l.cancel(a.id, 7, false).unwrap();
    assert_eq!(first.status, RegStatus::Cancelled);
    let second = l.cancel(a.id, 7, false).unwrap();
    assert_eq!(second.status, RegStatus::Cancelled);
    assert_eq!(second.id, first.id);
    assert_eq!(second.ticket_code, first.ticket_code);
    assert_eq!(l.len(), 1);
}

#[test]
fn bulk_cancel_hits_only_the_event() {
    let mut l = Ledger::new();
    l.reserve(1, 7, 5, code("TKT-AAAAAAAA"), 100).unwrap();
    l.reserve(1, 8, 5, code("TKT-BBBBBBBB"), 101).unwrap();
    l.reserve(2, 9, 5, code("TKT-CCCCCCCC"), 102).unwrap();
    l.bulk_cancel(1);
    assert_eq!(l.count_confirmed(1), 0);
    assert_eq!(l.count_confirmed(2), 1);
    assert_eq!(l.get(0).unwrap().status, RegStatus::Cancelled);
    assert_eq!(l.get(1).unwrap().status, RegStatus::Cancelled);
    assert_eq!(l.get(2).unwrap().status, RegStatus::Confirmed);
    assert_eq!(l.get(0).unwrap().ticket_code, "TKT-AAAAAAAA");
}

#[test]
fn find_confirmed_sees_only_confirmed_rows() {
    let mut l = Ledger::new();
    let a = l.reserve(1, 7, 5, code("TKT-AAAAAAAA"), 100).unwrap();
    assert!(l.find_confirmed(1, 7).is_some());
    assert!(l.find_confirmed(1, 8).is_none());
    assert!(l.find_confirmed(2, 7).is_none());
    l.cancel(a.id, 7, false).unwrap();
    assert!(l.find_confirmed(1, 7).is_none());
}

#[test]
fn listings_keep_order_per_event_and_reverse_per_subject() {
    let mut l = Ledger::new();
    l.reserve(1, 7, 9, code("TKT-AAAAAAAA"), 100).unwrap();
    l.reserve(2, 7, 9, code("TKT-BBBBBBBB"), 101).unwrap();
    l.reserve(1, 8, 9, code("TKT-CCCCCCCC"), 102).unwrap();
    let for_event = l.registrations_for_event(1);
    assert_eq!(for_event.len(), 2);
    assert_eq!(for_event[0].subject_id, 7);
    assert_eq!(for_event[1].subject_id, 8);
    let mine = l.registrations_for_subject(7);
    assert_eq!(mine.len(), 2);
    assert_eq!(mine[0].event_id, 2);
    assert_eq!(mine[1].event_id, 1);
}

#[test]
fn ticket_codes_stay_unique_across_the_ledger() {
    let mut l = Ledger::new();
    let a = l.reserve(1, 7, 9, code("TKT-AAAAAAAA"), 100).unwrap();
    let b = l.reserve(2, 7, 9, code("TKT-BBBBBBBB"), 101).unwrap();
    l.cancel(a.id, 7, false).unwrap();
    let c = l.reserve(1, 7, 9, code("TKT-CCCCCCCC"), 102).unwrap();
    let codes = vec![
        l.get(a.id).unwrap().ticket_code,
        l.get(b.id).unwrap().ticket_code,
        l.get(c.id).unwrap().ticket_code,
    ];
    for i in 0..codes.len() {
        for j in 0..codes.len() {
            if i != j {
                assert_ne!(codes[i], codes[j]);
            }
        }
    }
}
