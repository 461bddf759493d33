//! Aggregation reporting over the ledger: per-event statistics and the
//! system-wide overview, as read-only, point-in-time snapshots.

use vstd::prelude::*;
use crate::counting::{count_where, lemma_count_where_split, lemma_count_where_take_step,
    lemma_count_where_zero};
use crate::ledger::{confirmed_count, is_cancelled_for, is_confirmed_for, is_for_event, Ledger,
    lemma_confirmed_count_take_step, RegStatus, RegView};

verus! {

/// Per-event counts. An event with no registrations has all counts zero;
/// asking for statistics is never an error.
#[derive(Clone, Copy, Debug, PartialEq, Eq, Structural)]
pub struct EventStats {
    pub event_id: u128,
    pub total: u64,
    pub confirmed: u64,
    pub cancelled: u64,
}

/// System-wide totals over the whole ledger.
#[derive(Clone, Copy, Debug, PartialEq, Eq, Structural)]
pub struct OverviewStats {
    pub total_registrations: u64,
    pub total_confirmed: u64,
    pub total_cancelled: u64,
    pub unique_events: u64,
    pub unique_users: u64,
}

/// Number of registrations (any status) for an event.
pub open spec fn event_total_count(s: Seq<RegView>, event_id: u128) -> nat {
    count_where(s, |r: RegView| is_for_event(r, event_id))
}

/// Number of cancelled registrations for an event.
pub open spec fn event_cancelled_count(s: Seq<RegView>, event_id: u128) -> nat {
    count_where(s, |r: RegView| is_cancelled_for(r, event_id))
}

/// Number of confirmed registrations over all events.
pub open spec fn confirmed_total(s: Seq<RegView>) -> nat {
    count_where(s, |r: RegView| r.status == RegStatus::Confirmed)
}

/// Number of cancelled registrations over all events.
pub open spec fn cancelled_total(s: Seq<RegView>) -> nat {
    count_where(s, |r: RegView| r.status == RegStatus::Cancelled)
}

/// The event ids of the rows, in ledger order.
pub open spec fn event_ids_of(s: Seq<RegView>) -> Seq<u128> {
    s.map_values(|r: RegView| r.event_id)
}

/// The subject ids of the rows, in ledger order.
pub open spec fn subject_ids_of(s: Seq<RegView>) -> Seq<u128> {
    s.map_values(|r: RegView| r.subject_id)
}

pub proof fn lemma_event_total_take_step(s: Seq<RegView>, event_id: u128, i: int)
    requires
        0 <= i < s.len(),
    ensures
        event_total_count(s.take(i + 1), event_id) == event_total_count(s.take(i), event_id) + (
        if is_for_event(s[i], event_id) {
            1int
        } else {
            0int
        }),
{
    lemma_count_where_take_step(s, |r: RegView| is_for_event(r, event_id), i);
}

pub proof fn lemma_event_cancelled_take_step(s: Seq<RegView>, event_id: u128, i: int)
    requires
        0 <= i < s.len(),
    ensures
        event_cancelled_count(s.take(i + 1), event_id) == event_cancelled_count(s.take(i), event_id)
            + (if is_cancelled_for(s[i], event_id) {
            1int
        } else {
            0int
        }),
{
    lemma_count_where_take_step(s, |r: RegView| is_cancelled_for(r, event_id), i);
}

pub proof fn lemma_confirmed_total_take_step(s: Seq<RegView>, i: int)
    requires
        0 <= i < s.len(),
    ensures
        confirmed_total(s.take(i + 1)) == confirmed_total(s.take(i)) + (if s[i].status
            == RegStatus::Confirmed {
            1int
        } else {
            0int
        }),
{
    lemma_count_where_take_step(s, |r: RegView| r.status == RegStatus::Confirmed, i);
}

/// Law: every registration for an event is either confirmed or cancelled, so
/// the total is the sum of the two.
pub proof fn lemma_event_counts_split(s: Seq<RegView>, event_id: u128)
    ensures
        event_total_count(s, event_id) == confirmed_count(s, event_id) + event_cancelled_count(
            s,
            event_id,
        ),
{
    lemma_count_where_split(
        s,
        |r: RegView| is_for_event(r, event_id),
        |r: RegView| is_confirmed_for(r, event_id),
        |r: RegView| is_cancelled_for(r, event_id),
    );
}

/// Law: every registration is either confirmed or cancelled, so the ledger
/// length is the sum of the two totals.
pub proof fn lemma_status_totals(s: Seq<RegView>)
    ensures
        confirmed_total(s) + cancelled_total(s) == s.len(),
    decreases s.len(),
{
    if s.len() > 0 {
        lemma_status_totals(s.drop_last());
    }
}

/// Law: an event with no registrations has total zero (and so confirmed and
/// cancelled zero as well): statistics are zero-filled, never missing.
pub proof fn lemma_event_total_zero(s: Seq<RegView>, event_id: u128)
    ensures
        (event_total_count(s, event_id) == 0) <==> (forall|i: int|
            0 <= i < s.len() ==> !is_for_event(#[trigger] s[i], event_id)),
{
    lemma_count_where_zero(s, |r: RegView| is_for_event(r, event_id));
}

/// Whether `x` occurs in the vector.
fn contains_u128(v: &Vec<u128>, x: u128) -> (b: bool)
    ensures
        b == v@.contains(x),
{
    let n = v.len();
    for i in 0..n
        invariant
            n == v@.len(),
            forall|j: int| 0 <= j < i ==> v@[j] != x,
    {
        if v[i] == x {
            assert(v@[i as int] == x);
            return true;
        }
    }
    false
}

/// The number of distinct values in `ids`.
fn count_distinct(ids: &Vec<u128>) -> (n: usize)
    ensures
        n == ids@.to_set().len(),
{
    let len = ids.len();
    let mut seen: Vec<u128> = Vec::new();
    for i in 0..len
        invariant
            len == ids@.len(),
            seen@.no_duplicates(),
            forall|x: u128| seen@.contains(x) <==> ids@.take(i as int).contains(x),
            seen@.len() <= i,
    {
        let ghost prev = seen@;
        let x = ids[i];
        if !contains_u128(&seen, x) {
            seen.push(x);
        }
        proof {
            assert(ids@.take(i + 1) =~= ids@.take(i as int).push(ids@[i as int]));
            assert forall|y: u128| seen@.contains(y) implies ids@.take(i + 1).contains(y) by {
                if prev.contains(y) {
                    let w = choose|w: int| 0 <= w < prev.len() && prev[w] == y;
                    assert(ids@.take(i as int).contains(y));
                    let v = choose|v: int| 0 <= v < ids@.take(i as int).len() && ids@.take(
                        i as int,
                    )[v] == y;
                    assert(ids@.take(i + 1)[v] == y);
                } else {
                    assert(seen@ == prev.push(x));
                    let w = choose|w: int| 0 <= w < seen@.len() && seen@[w] == y;
                    if w < prev.len() {
                        assert(prev[w] == y);
                    } else {
                        assert(y == x);
                        assert(ids@.take(i + 1)[i as int] == x);
                    }
                }
            }
            assert forall|y: u128| ids@.take(i + 1).contains(y) implies seen@.contains(y) by {
                let v = choose|v: int| 0 <= v < ids@.take(i + 1).len() && #[trigger] ids@.take(
                    i + 1,
                )[v] == y;
                if v < i {
                    assert(ids@.take(i as int)[v] == y);
                    assert(ids@.take(i as int).contains(y));
                    assert(prev.contains(y));
                    let w = choose|w: int| 0 <= w < prev.len() && prev[w] == y;
                    assert(seen@[w] == y);
                } else {
                    assert(y == x);
                    if prev.contains(x) {
                        let w = choose|w: int| 0 <= w < prev.len() && prev[w] == x;
                        assert(seen@[w] == x);
                    } else {
                        assert(seen@[seen@.len() - 1] == x);
                    }
                }
            }
            if !prev.contains(x) {
                assert forall|a: int, b: int|
                    0 <= a < b < seen@.len() implies seen@[a] != seen@[b] by {
                    if b == seen@.len() - 1 {
                        assert(seen@[b] == x);
                        if seen@[a] == x {
                            assert(prev[a] == x);
                            assert(prev.contains(x));
                        }
                    } else {
                        assert(prev[a] == seen@[a] && prev[b] == seen@[b]);
                    }
                }
            }
        }
    }
    proof {
        assert(ids@.take(len as int) =~= ids@);
        assert(seen@.to_set() =~= ids@.to_set());
        seen@.unique_seq_to_set();
    }
    seen.len()
}

impl Ledger {
    /// The event ids of all rows, in ledger order.
    fn event_id_column(&self) -> (ids: Vec<u128>)
        ensures
            ids@ == event_ids_of(self@),
    {
        let n = self.len();
        let mut ids: Vec<u128> = Vec::new();
        for i in 0..n
            invariant
                n == self@.len(),
                ids@ == event_ids_of(self@.take(i as int)),
        {
            ids.push(self.event_id_at(i));
            proof {
                assert(ids@ =~= event_ids_of(self@.take(i + 1)));
            }
        }
        proof {
            assert(self@.take(n as int) =~= self@);
        }
        ids
    }

    /// The subject ids of all rows, in ledger order.
    fn subject_id_column(&self) -> (ids: Vec<u128>)
        ensures
            ids@ == subject_ids_of(self@),
    {
        let n = self.len();
        let mut ids: Vec<u128> = Vec::new();
        for i in 0..n
            invariant
                n == self@.len(),
                ids@ == subject_ids_of(self@.take(i as int)),
        {
            ids.push(self.subject_id_at(i));
            proof {
                assert(ids@ =~= subject_ids_of(self@.take(i + 1)));
            }
        }
        proof {
            assert(self@.take(n as int) =~= self@);
        }
        ids
    }

    /// Per-event statistics: total, confirmed and cancelled counts, zero-filled
    /// when the event has no registrations (never a not-found error).
    pub fn event_stats(&self, event_id: u128) -> (stats: EventStats)
        ensures
            stats.event_id == event_id,
            stats.total == event_total_count(self@, event_id),
            stats.confirmed == confirmed_count(self@, event_id),
            stats.cancelled == event_cancelled_count(self@, event_id),
            stats.total == stats.confirmed + stats.cancelled,
            (forall|i: int| 0 <= i < self@.len() ==> !is_for_event(#[trigger] self@[i], event_id))
                ==> stats.total == 0 && stats.confirmed == 0 && stats.cancelled == 0,
    {
        let n = self.len();
        let mut total: usize = 0;
        let mut confirmed: usize = 0;
        let mut cancelled: usize = 0;
        for i in 0..n
            invariant
                n == self@.len(),
                total == event_total_count(self@.take(i as int), event_id),
                confirmed == confirmed_count(self@.take(i as int), event_id),
                cancelled == event_cancelled_count(self@.take(i as int), event_id),
                total <= i,
                confirmed <= i,
                cancelled <= i,
        {
            proof {
                lemma_event_total_take_step(self@, event_id, i as int);
                lemma_confirmed_count_take_step(self@, event_id, i as int);
                lemma_event_cancelled_take_step(self@, event_id, i as int);
            }
            if self.event_id_at(i) == event_id {
                total = total + 1;
                if self.status_at(i) == RegStatus::Confirmed {
                    confirmed = confirmed + 1;
                } else {
                    cancelled = cancelled + 1;
                }
            }
        }
        proof {
            assert(self@.take(n as int) =~= self@);
            lemma_event_counts_split(self@, event_id);
            lemma_event_total_zero(self@, event_id);
        }
        EventStats {
            event_id,
            total: total as u64,
            confirmed: confirmed as u64,
            cancelled: cancelled as u64,
        }
    }

    /// System-wide totals: registrations, confirmed, cancelled, and the number
    /// of distinct events and distinct subjects in the ledger.
    pub fn overview(&self) -> (o: OverviewStats)
        ensures
            o.total_registrations == self@.len(),
            o.total_confirmed == confirmed_total(self@),
            o.total_cancelled == cancelled_total(self@),
            o.total_registrations == o.total_confirmed + o.total_cancelled,
            o.unique_events == event_ids_of(self@).to_set().len(),
            o.unique_users == subject_ids_of(self@).to_set().len(),
    {
        let n = self.len();
        let mut confirmed: usize = 0;
        for i in 0..n
            invariant
                n == self@.len(),
                confirmed == confirmed_total(self@.take(i as int)),
                confirmed <= i,
        {
            proof {
                lemma_confirmed_total_take_step(self@, i as int);
            }
            if self.status_at(i) == RegStatus::Confirmed {
                confirmed = confirmed + 1;
            }
        }
        proof {
            assert(self@.take(n as int) =~= self@);
            lemma_status_totals(self@);
        }
        let cancelled = n - confirmed;
        let unique_events = count_distinct(&self.event_id_column());
        let unique_users = count_distinct(&self.subject_id_column());
        OverviewStats {
            total_registrations: n as u64,
            total_confirmed: confirmed as u64,
            total_cancelled: cancelled as u64,
            unique_events: unique_events as u64,
            unique_users: unique_users as u64,
        }
    }
}

} // verus!
