//! The event catalog's own logic: validating a new event's schedule, the
//! owner-or-admin gate for changes, field-wise update coalescing, and the
//! list filter (category match and case-insensitive substring search).

use vstd::prelude::*;
use crate::auth::{Principal, Role};
use crate::counting::lemma_filter_push;
use crate::errors::AppError;
use vstd::multiset::Multiset;

verus! {

/// One event row of the catalog, as plain values; timestamps are seconds
/// since the Unix epoch.
#[derive(Debug)]
pub struct Event {
    pub id: u128,
    pub organizer_id: u128,
    pub title: String,
    pub description: String,
    pub location: String,
    pub date_time: i64,
    pub capacity: u32,
    pub category: String,
    pub image_url: Option<String>,
    pub created_at: i64,
    pub updated_at: i64,
}

/// The mathematical value of an event row.
pub ghost struct EventView {
    pub id: u128,
    pub organizer_id: u128,
    pub title: Seq<char>,
    pub description: Seq<char>,
    pub location: Seq<char>,
    pub date_time: i64,
    pub capacity: u32,
    pub category: Seq<char>,
    pub image_url: Option<Seq<char>>,
    pub created_at: i64,
    pub updated_at: i64,
}

impl View for Event {
    type V = EventView;

    open spec fn view(&self) -> EventView {
        EventView {
            id: self.id,
            organizer_id: self.organizer_id,
            title: self.title@,
            description: self.description@,
            location: self.location@,
            date_time: self.date_time,
            capacity: self.capacity,
            category: self.category@,
            image_url: match self.image_url {
                Some(u) => Some(u@),
                None => None,
            },
            created_at: self.created_at,
            updated_at: self.updated_at,
        }
    }
}

impl Event {
    /// A field-for-field copy of the row.
    pub fn duplicate(&self) -> (c: Event)
        ensures
            c@ == self@,
    {
        Event {
            id: self.id,
            organizer_id: self.organizer_id,
            title: self.title.clone(),
            description: self.description.clone(),
            location: self.location.clone(),
            date_time: self.date_time,
            capacity: self.capacity,
            category: self.category.clone(),
            image_url: match &self.image_url {
                Some(u) => Some(u.clone()),
                None => None,
            },
            created_at: self.created_at,
            updated_at: self.updated_at,
        }
    }
}

/// What a client sends to create an event.
#[derive(Debug)]
pub struct CreateEventRequest {
    pub title: String,
    pub description: String,
    pub location: String,
    pub date_time: i64,
    pub capacity: u32,
    pub category: String,
    pub image_url: Option<String>,
}

/// What a client sends to change an event; absent fields keep their value.
#[derive(Debug)]
pub struct UpdateEventRequest {
    pub title: Option<String>,
    pub description: Option<String>,
    pub location: Option<String>,
    pub date_time: Option<i64>,
    pub capacity: Option<u32>,
    pub category: Option<String>,
}

/// List filter parameters: an exact category and a free-text search.
#[derive(Debug)]
pub struct EventQuery {
    pub category: Option<String>,
    pub search: Option<String>,
}

/// The mathematical value of a query.
pub ghost struct QueryView {
    pub category: Option<Seq<char>>,
    pub search: Option<Seq<char>>,
}

impl View for EventQuery {
    type V = QueryView;

    open spec fn view(&self) -> QueryView {
        QueryView {
            category: match self.category {
                Some(c) => Some(c@),
                None => None,
            },
            search: match self.search {
                Some(s) => Some(s@),
                None => None,
            },
        }
    }
}

/// An event may not be scheduled in the past.
pub fn event_schedule_ok(date_time: i64, now: i64) -> (b: bool)
    ensures
        b == (date_time >= now),
{
    date_time >= now
}

/// Shape a new catalog row from a creation request, refusing a date in the
/// past; the identifier and the clock come from the caller.
pub fn build_event(req: &CreateEventRequest, organizer_id: u128, id: u128, now: i64) -> (r: Result<
    Event,
    AppError,
>)
    ensures
        r is Ok <==> req.date_time >= now,
        r matches Ok(e) ==> e@ == (EventView {
            id,
            organizer_id,
            title: req.title@,
            description: req.description@,
            location: req.location@,
            date_time: req.date_time,
            capacity: req.capacity,
            category: req.category@,
            image_url: match req.image_url {
                Some(u) => Some(u@),
                None => None,
            },
            created_at: now,
            updated_at: now,
        }),
        r matches Err(e) ==> e.code == 400,
{
    if !event_schedule_ok(req.date_time, now) {
        return Err(AppError::bad_request("an event cannot be scheduled in the past"));
    }
    Ok(
        Event {
            id,
            organizer_id,
            title: req.title.clone(),
            description: req.description.clone(),
            location: req.location.clone(),
            date_time: req.date_time,
            capacity: req.capacity,
            category: req.category.clone(),
            image_url: match &req.image_url {
                Some(u) => Some(u.clone()),
                None => None,
            },
            created_at: now,
            updated_at: now,
        },
    )
}

/// Only the organizer that owns an event, or an administrator, may change or
/// remove it.
pub fn can_modify_event(e: &Event, requester: &Principal) -> (b: bool)
    ensures
        b == (e@.organizer_id == requester.subject || requester.role == Role::Admin),
{
    e.organizer_id == requester.subject || matches!(requester.role, Role::Admin)
}

/// Apply an update request to a row: each present field replaces the stored
/// one, each absent field keeps it, and the update timestamp is refreshed.
pub fn apply_event_update(e: &Event, req: &UpdateEventRequest, now: i64) -> (u: Event)
    ensures
        u@.id == e@.id,
        u@.organizer_id == e@.organizer_id,
        u@.title == (match req.title {
            Some(t) => t@,
            None => e@.title,
        }),
        u@.description == (match req.description {
            Some(d) => d@,
            None => e@.description,
        }),
        u@.location == (match req.location {
            Some(l) => l@,
            None => e@.location,
        }),
        u@.date_time == (match req.date_time {
            Some(d) => d,
            None => e@.date_time,
        }),
        u@.capacity == (match req.capacity {
            Some(c) => c,
            None => e@.capacity,
        }),
        u@.category == (match req.category {
            Some(c) => c@,
            None => e@.category,
        }),
        u@.image_url == e@.image_url,
        u@.created_at == e@.created_at,
        u@.updated_at == now,
{
    Event {
        id: e.id,
        organizer_id: e.organizer_id,
        title: match &req.title {
            Some(t) => t.clone(),
            None => e.title.clone(),
        },
        description: match &req.description {
            Some(d) => d.clone(),
            None => e.description.clone(),
        },
        location: match &req.location {
            Some(l) => l.clone(),
            None => e.location.clone(),
        },
        date_time: match req.date_time {
            Some(d) => d,
            None => e.date_time,
        },
        capacity: match req.capacity {
            Some(c) => c,
            None => e.capacity,
        },
        category: match &req.category {
            Some(c) => c.clone(),
            None => e.category.clone(),
        },
        image_url: match &e.image_url {
            Some(u) => Some(u.clone()),
            None => None,
        },
        created_at: e.created_at,
        updated_at: now,
    }
}

/// `needle` occurs in `hay` starting at position `k`.
pub open spec fn contains_at(hay: Seq<char>, needle: Seq<char>, k: int) -> bool {
    0 <= k && k + needle.len() <= hay.len() && hay.subrange(k, k + needle.len()) == needle
}

/// `needle` occurs somewhere in `hay`.
pub open spec fn contains_seq(hay: Seq<char>, needle: Seq<char>) -> bool {
    exists|k: int| contains_at(hay, needle, k)
}

/// Whether `needle` matches `hay` at position `k`.
fn match_at(hay: &str, needle: &str, k: usize) -> (b: bool)
    requires
        k + needle@.len() <= hay@.len(),
    ensures
        b == contains_at(hay@, needle@, k as int),
{
    let hn = hay.unicode_len();
    let nn = needle.unicode_len();
    for j in 0..nn
        invariant
            hn == hay@.len(),
            nn == needle@.len(),
            k + nn <= hn,
            forall|t: int| 0 <= t < j ==> hay@[k + t] == needle@[t],
    {
        if hay.get_char(k + j) != needle.get_char(j) {
            proof {
                assert(!contains_at(hay@, needle@, k as int)) by {
                    if hay@.subrange(k as int, k + nn) == needle@ {
                        assert(hay@.subrange(k as int, k + nn)[j as int] == needle@[j as int]);
                    }
                }
            }
            return false;
        }
    }
    proof {
        assert(hay@.subrange(k as int, k + nn) =~= needle@);
    }
    true
}

/// Substring search: whether `needle` occurs anywhere in `hay`.
pub fn str_contains(hay: &str, needle: &str) -> (b: bool)
    ensures
        b == contains_seq(hay@, needle@),
{
    let hn = hay.unicode_len();
    let nn = needle.unicode_len();
    if nn > hn {
        proof {
            assert(!contains_seq(hay@, needle@)) by {
                if contains_seq(hay@, needle@) {
                    let k = choose|k: int| contains_at(hay@, needle@, k);
                }
            }
        }
        return false;
    }
    if nn == 0 {
        proof {
            assert(hay@.subrange(0, 0) =~= needle@);
            assert(contains_at(hay@, needle@, 0));
        }
        return true;
    }
    let mut k: usize = 0;
    while k <= hn - nn
        invariant
            1 <= nn <= hn,
            hn == hay@.len(),
            nn == needle@.len(),
            k <= hn - nn + 1,
            forall|k2: int| 0 <= k2 < k ==> !contains_at(hay@, needle@, k2),
        decreases hn - nn + 1 - k,
    {
        if match_at(hay, needle, k) {
            return true;
        }
        k = k + 1;
    }
    proof {
        assert(!contains_seq(hay@, needle@)) by {
            if contains_seq(hay@, needle@) {
                let k2 = choose|k2: int| contains_at(hay@, needle@, k2);
                assert(k2 + nn <= hn);
            }
        }
    }
    false
}

/// The lowercase form of a string, whatever Unicode makes of it.
pub uninterp spec fn lower_of(s: Seq<char>) -> Seq<char>;

/// Relies on str::to_lowercase: the result depends on the characters alone.
#[verifier::external_body]
fn lowercase(s: &str) -> (r: String)
    ensures
        r@ == lower_of(s@),
{
    s.to_lowercase()
}

/// Whether an event passes the list filter: the category, when given, must
/// match exactly; the search text, when given, must occur case-insensitively
/// in the title or in the description.
pub open spec fn matches_query(e: EventView, q: QueryView) -> bool {
    &&& (match q.category {
        Some(c) => e.category == c,
        None => true,
    })
    &&& (match q.search {
        Some(s) => contains_seq(lower_of(e.title), lower_of(s)) || contains_seq(
            lower_of(e.description),
            lower_of(s),
        ),
        None => true,
    })
}

pub fn event_matches(e: &Event, q: &EventQuery) -> (b: bool)
    ensures
        b == matches_query(e@, q@),
{
    match &q.category {
        Some(c) => {
            if !(e.category == *c) {
                return false;
            }
        },
        None => {},
    }
    match &q.search {
        Some(s) => {
            let needle = lowercase(s.as_str());
            let title = lowercase(e.title.as_str());
            if str_contains(title.as_str(), needle.as_str()) {
                return true;
            }
            let description = lowercase(e.description.as_str());
            str_contains(description.as_str(), needle.as_str())
        },
        None => true,
    }
}

/// The mathematical values of a vector of event rows.
pub open spec fn event_views(rows: Seq<Event>) -> Seq<EventView> {
    rows.map_values(|e: Event| e@)
}

/// The rows that pass a query, in catalog order.
pub open spec fn matching_events(s: Seq<EventView>, q: QueryView) -> Seq<EventView> {
    s.filter(|e: EventView| matches_query(e, q))
}

pub proof fn lemma_matching_events_take_step(s: Seq<EventView>, q: QueryView, i: int)
    requires
        0 <= i < s.len(),
    ensures
        matching_events(s.take(i + 1), q) == (if matches_query(s[i], q) {
            matching_events(s.take(i), q).push(s[i])
        } else {
            matching_events(s.take(i), q)
        }),
{
    assert(s.take(i + 1) =~= s.take(i).push(s[i]));
    lemma_filter_push(s.take(i), |e: EventView| matches_query(e, q), s[i]);
}

/// The list endpoint's filter: every stored event that passes the query, in
/// catalog order.
pub fn filter_events(events: &Vec<Event>, q: &EventQuery) -> (out: Vec<Event>)
    ensures
        event_views(out@) == matching_events(event_views(events@), q@),
{
    let n = events.len();
    let mut out: Vec<Event> = Vec::new();
    for i in 0..n
        invariant
            n == events@.len(),
            event_views(out@) == matching_events(event_views(events@).take(i as int), q@),
    {
        proof {
            lemma_matching_events_take_step(event_views(events@), q@, i as int);
        }
        if event_matches(&events[i], q) {
            let ghost prev = out@;
            out.push(events[i].duplicate());
            proof {
                assert(event_views(out@) =~= event_views(prev).push(
                    event_views(events@)[i as int],
                ));
            }
        }
    }
    proof {
        assert(event_views(events@).take(n as int) =~= event_views(events@));
    }
    out
}

/// Catalog order for listings: ascending date.
pub open spec fn sorted_by_date(s: Seq<EventView>) -> bool {
    forall|i: int, j: int| 0 <= i < j < s.len() ==> s[i].date_time <= s[j].date_time
}

/// The position of an event with the earliest date.
fn min_date_index(rest: &Vec<Event>) -> (m: usize)
    requires
        rest@.len() > 0,
    ensures
        m < rest@.len(),
        forall|k: int|
            0 <= k < rest@.len() ==> event_views(rest@)[m as int].date_time <= event_views(
                rest@,
            )[k].date_time,
{
    let n = rest.len();
    let mut m: usize = 0;
    for i in 1..n
        invariant
            n == rest@.len(),
            m < i <= n,
            forall|k: int|
                0 <= k < i ==> event_views(rest@)[m as int].date_time <= event_views(
                    rest@,
                )[k].date_time,
    {
        if rest[i].date_time < rest[m].date_time {
            m = i;
        }
    }
    m
}

/// Sort events by ascending date: the result is ordered and holds exactly the
/// given rows.
pub fn sort_events_by_date(events: Vec<Event>) -> (out: Vec<Event>)
    ensures
        sorted_by_date(event_views(out@)),
        event_views(out@).to_multiset() == event_views(events@).to_multiset(),
{
    broadcast use vstd::seq_lib::group_to_multiset_ensures;
    broadcast use vstd::multiset::group_multiset_axioms;

    let mut rest = events;
    let mut out: Vec<Event> = Vec::new();
    let ghost orig = event_views(rest@).to_multiset();
    while rest.len() > 0
        invariant
            event_views(out@).to_multiset().add(event_views(rest@).to_multiset()) == orig,
            sorted_by_date(event_views(out@)),
            forall|i: int, j: int|
                0 <= i < event_views(out@).len() && 0 <= j < event_views(rest@).len()
                    ==> event_views(out@)[i].date_time <= event_views(rest@)[j].date_time,
        decreases rest@.len(),
    {
        broadcast use vstd::seq_lib::group_to_multiset_ensures;
        broadcast use vstd::multiset::group_multiset_axioms;

        let m = min_date_index(&rest);
        let ghost rest_pre = rest@;
        let ghost out_pre = out@;
        let x = rest.remove(m);
        let ghost xv = x@;
        out.push(x);
        proof {
            assert(event_views(rest@) =~= event_views(rest_pre).remove(m as int));
            assert(event_views(out@) =~= event_views(out_pre).push(xv));
            assert(event_views(rest_pre).contains(xv)) by {
                assert(event_views(rest_pre)[m as int] == xv);
            }
            assert(event_views(out@).to_multiset() =~= event_views(out_pre).to_multiset().insert(
                xv,
            ));
            assert(event_views(rest@).to_multiset() =~= event_views(rest_pre).to_multiset().remove(
                xv,
            ));
            assert(event_views(out@).to_multiset().add(event_views(rest@).to_multiset()) =~= orig);
            assert forall|i: int, j: int|
                0 <= i < j < event_views(out@).len() implies event_views(out@)[i].date_time
                <= event_views(out@)[j].date_time by {
                if j < out_pre.len() {
                    assert(event_views(out_pre)[i].date_time <= event_views(out_pre)[j].date_time);
                } else {
                    assert(event_views(out@)[j] == xv);
                    assert(event_views(out_pre)[i].date_time <= event_views(
                        rest_pre,
                    )[m as int].date_time);
                }
            }
            assert forall|i: int, j: int|
                0 <= i < event_views(out@).len() && 0 <= j < event_views(
                    rest@,
                ).len() implies event_views(out@)[i].date_time <= event_views(
                rest@,
            )[j].date_time by {
                let jj: int = if j < m as int {
                    j
                } else {
                    j + 1
                };
                assert(event_views(rest@)[j] == event_views(rest_pre)[jj]);
                assert(event_views(rest_pre)[m as int].date_time <= event_views(
                    rest_pre,
                )[jj].date_time);
                if i < out_pre.len() {
                    assert(event_views(out@)[i].date_time <= event_views(
                        rest_pre,
                    )[jj].date_time);
                } else {
                    assert(event_views(out@)[i] == xv);
                }
            }
        }
    }
    proof {
        assert(event_views(rest@).to_multiset() =~= Multiset::<EventView>::empty());
        assert(event_views(out@).to_multiset() =~= orig);
    }
    out
}

/// The list endpoint whole: every stored event that passes the query, ordered
/// by ascending date.
pub fn list_events(events: &Vec<Event>, q: &EventQuery) -> (out: Vec<Event>)
    ensures
        sorted_by_date(event_views(out@)),
        event_views(out@).to_multiset() == matching_events(event_views(events@), q@).to_multiset(),
{
    sort_events_by_date(filter_events(events, q))
}

} // verus!
