use admission_core::auth::{Principal, Role};
use admission_core::events::{
    apply_event_update, build_event, can_modify_event, CreateEventRequest, EventQuery, Event,
    event_matches, filter_events, list_events, sort_events_by_date, str_contains,
    UpdateEventRequest,
};

fn create_request(title: &str, category: &str, date_time: i64) -> CreateEventRequest {
    CreateEventRequest {
        title: title.to_string(),
        description: format!("all about {}", title),
        location: "main hall".to_string(),
        date_time,
        capacity: 100,
        category: category.to_string(),
        image_url: None,
    }
}

fn stored_event(id: u128, title: &str, description: &str, category: &str) -> Event {
    Event {
        id,
        organizer_id: 50,
        title: title.to_string(),
        description: description.to_string(),
        location: "main hall".to_string(),
        date_time: 2_000,
        capacity: 100,
        category: category.to_string(),
        image_url: None,
        created_at: 1_000,
        updated_at: 1_000,
    }
}

#[test]
fn an_event_cannot_be_scheduled_in_the_past() {
    let req = create_request("Rust Meetup", "tech", 999);
    let err = build_event(&req, 50, 1, 1_000).unwrap_err();
    assert_eq!(err.code, 400);
    let ok = build_event(&req, 50, 1, 999).unwrap();
    assert_eq!(ok.date_time, 999);
}

#[test]
fn a_built_event_carries_the_request_and_the_clock() {
    let req = create_request("Rust Meetup", "tech", 5_000);
    let e = build_event(&req, 50, 7, 1_000).unwrap();
    assert_eq!(e.id, 7);
    assert_eq!(e.organizer_id, 50);
    assert_eq!(e.title, "Rust Meetup");
    assert_eq!(e.category, "tech");
    assert_eq!(e.capacity, 100);
    assert_eq!(e.created_at, 1_000);
    assert_eq!(e.updated_at, 1_000);
}

#[test]
fn only_the_owner_or_an_admin_may_modify() {
    let e = stored_event(1, "Rust Meetup", "talks", "tech");
    assert!(can_modify_event(&e, &Principal { subject: 50, role: Role::Organizer }));
    assert!(can_modify_event(&e, &Principal { subject: 99, role: Role::Admin }));
    assert!(!can_modify_event(&e, &Principal { subject: 51, role: Role::Organizer }));
    assert!(!can_modify_event(&e, &Principal { subject: 51, role: Role::Member }));
}

#[test]
fn updates_replace_present_fields_and_keep_absent_ones() {
    let e = stored_event(1, "Rust Meetup", "talks", "tech");
    let req = UpdateEventRequest {
        title: Some("Verus Meetup".to_string()),
        description: None,
        location: None,
        date_time: Some(9_000),
        capacity: None,
        category: None,
    };
    let u = apply_event_update(&e, &req, 3_000);
    assert_eq!(u.title, "Verus Meetup");
    assert_eq!(u.description, "talks");
    assert_eq!(u.location, "main hall");
    assert_eq!(u.date_time, 9_000);
    assert_eq!(u.capacity, 100);
    assert_eq!(u.category, "tech");
    assert_eq!(u.created_at, 1_000);
    assert_eq!(u.updated_at, 3_000);
    assert_eq!(u.id, 1);
    assert_eq!(u.organizer_id, 50);
}

#[test]
fn substring_search_finds_inner_matches_only() {
    assert!(str_contains("hello world", "lo w"));
    assert!(str_contains("hello world", ""));
    assert!(str_contains("hello world", "hello world"));
    assert!(!str_contains("hello world", "hello world!"));
    assert!(!str_contains("abc", "abd"));
    assert!(!str_contains("", "a"));
}

#[test]
fn search_matches_case_insensitively_in_title_and_description() {
    let e = stored_event(1, "Rust Meetup", "verified systems TALKS", "tech");
    let by_title = EventQuery { category: None, search: Some("MEET".to_string()) };
    assert!(event_matches(&e, &by_title));
    let by_description = EventQuery { category: None, search: Some("Talks".to_string()) };
    assert!(event_matches(&e, &by_description));
    let absent = EventQuery { category: None, search: Some("opera".to_string()) };
    assert!(!event_matches(&e, &absent));
}

#[test]
fn category_must_match_exactly() {
    let e = stored_event(1, "Rust Meetup", "talks", "tech");
    let same = EventQuery { category: Some("tech".to_string()), search: None };
    assert!(event_matches(&e, &same));
    let cased = EventQuery { category: Some("Tech".to_string()), search: None };
    assert!(!event_matches(&e, &cased));
}

#[test]
fn sorting_orders_events_by_ascending_date() {
    let mut a = stored_event(1, "Late", "third", "tech");
    a.date_time = 9_000;
    let mut b = stored_event(2, "Early", "first", "tech");
    b.date_time = 1_000;
    let mut c = stored_event(3, "Middle", "second", "tech");
    c.date_time = 5_000;
    let sorted = sort_events_by_date(vec![a, b, c]);
    assert_eq!(sorted.len(), 3);
    assert_eq!(sorted[0].id, 2);
    assert_eq!(sorted[1].id, 3);
    assert_eq!(sorted[2].id, 1);
}

#[test]
fn the_listing_filters_and_orders_by_date() {
    let mut a = stored_event(1, "Rust Meetup", "systems", "tech");
    a.date_time = 9_000;
    let mut b = stored_event(2, "Opera Night", "arias", "music");
    b.date_time = 1_000;
    let mut c = stored_event(3, "Verus Workshop", "proofs for rust code", "tech");
    c.date_time = 5_000;
    let events = vec![a, b, c];
    let q = EventQuery { category: Some("tech".to_string()), search: None };
    let out = list_events(&events, &q);
    assert_eq!(out.len(), 2);
    assert_eq!(out[0].id, 3);
    assert_eq!(out[1].id, 1);
}

#[test]
fn the_list_filter_keeps_matching_events_in_order() {
    let events = vec![
        stored_event(1, "Rust Meetup", "systems", "tech"),
        stored_event(2, "Opera Night", "arias", "music"),
        stored_event(3, "Verus Workshop", "proofs for rust code", "tech"),
    ];
    let q = EventQuery { category: Some("tech".to_string()), search: Some("RUST".to_string()) };
    let out = filter_events(&events, &q);
    assert_eq!(out.len(), 2);
    assert_eq!(out[0].id, 1);
    assert_eq!(out[1].id, 3);
    let none = EventQuery { category: Some("music".to_string()), search: Some("rust".to_string()) };
    assert_eq!(filter_events(&events, &none).len(), 0);
    let all = EventQuery { category: None, search: None };
    assert_eq!(filter_events(&events, &all).len(), 3);
}
