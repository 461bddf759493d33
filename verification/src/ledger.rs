//! The admission ledger: the authoritative table of registrations and their
//! confirmed/cancelled status. It owns the capacity, pair-uniqueness and
//! ticket-uniqueness invariants; `reserve` is the one atomic step that checks
//! and inserts together, so concurrent callers serialized on the ledger can
//! never overshoot capacity or double-book a subject.

use vstd::prelude::*;
use crate::counting::{
    count_where, lemma_count_where_le_len, lemma_count_where_push, lemma_count_where_take_step,
    lemma_count_where_update, lemma_filter_push,
};

verus! {

/// Status of a registration. `Confirmed -> Cancelled` is the only legal
/// transition; nothing leaves `Cancelled`.
#[derive(Clone, Copy, Debug, PartialEq, Eq, Structural)]
pub enum RegStatus {
    Confirmed,
    Cancelled,
}

/// One registration row: the unit of admission state. Rows are never deleted.
#[derive(Debug)]
pub struct Registration {
    /// Unique within the ledger; equals the row's position, since rows are
    /// retained forever.
    pub id: u64,
    pub event_id: u128,
    pub subject_id: u128,
    pub ticket_code: String,
    pub status: RegStatus,
    pub created_at: i64,
}

/// The mathematical value of a registration row.
pub ghost struct RegView {
    pub id: u64,
    pub event_id: u128,
    pub subject_id: u128,
    pub ticket_code: Seq<char>,
    pub status: RegStatus,
    pub created_at: i64,
}

impl View for Registration {
    type V = RegView;

    open spec fn view(&self) -> RegView {
        RegView {
            id: self.id,
            event_id: self.event_id,
            subject_id: self.subject_id,
            ticket_code: self.ticket_code@,
            status: self.status,
            created_at: self.created_at,
        }
    }
}

impl Registration {
    /// A field-for-field copy of the row.
    pub fn duplicate(&self) -> (c: Registration)
        ensures
            c@ == self@,
    {
        Registration {
            id: self.id,
            event_id: self.event_id,
            subject_id: self.subject_id,
            ticket_code: self.ticket_code.clone(),
            status: self.status,
            created_at: self.created_at,
        }
    }
}

pub open spec fn is_confirmed_for(r: RegView, event_id: u128) -> bool {
    r.event_id == event_id && r.status == RegStatus::Confirmed
}

pub open spec fn is_cancelled_for(r: RegView, event_id: u128) -> bool {
    r.event_id == event_id && r.status == RegStatus::Cancelled
}

pub open spec fn is_for_event(r: RegView, event_id: u128) -> bool {
    r.event_id == event_id
}

pub open spec fn is_confirmed_pair(r: RegView, event_id: u128, subject_id: u128) -> bool {
    r.event_id == event_id && r.subject_id == subject_id && r.status == RegStatus::Confirmed
}

/// Number of confirmed registrations for an event.
pub open spec fn confirmed_count(s: Seq<RegView>, event_id: u128) -> nat {
    count_where(s, |r: RegView| is_confirmed_for(r, event_id))
}

/// Whether a subject already holds a confirmed seat for an event.
pub open spec fn has_confirmed_pair(s: Seq<RegView>, event_id: u128, subject_id: u128) -> bool {
    exists|i: int| 0 <= i < s.len() && is_confirmed_pair(#[trigger] s[i], event_id, subject_id)
}

/// Whether a ticket code is already present anywhere in the ledger.
pub open spec fn ticket_code_used(s: Seq<RegView>, code: Seq<char>) -> bool {
    exists|i: int| 0 <= i < s.len() && (#[trigger] s[i]).ticket_code == code
}

pub proof fn lemma_confirmed_count_take_step(s: Seq<RegView>, event_id: u128, i: int)
    requires
        0 <= i < s.len(),
    ensures
        confirmed_count(s.take(i + 1), event_id) == confirmed_count(s.take(i), event_id) + (
        if is_confirmed_for(s[i], event_id) {
            1int
        } else {
            0int
        }),
{
    lemma_count_where_take_step(s, |r: RegView| is_confirmed_for(r, event_id), i);
}

pub proof fn lemma_confirmed_count_push(s: Seq<RegView>, event_id: u128, x: RegView)
    ensures
        confirmed_count(s.push(x), event_id) == confirmed_count(s, event_id) + (
        if is_confirmed_for(x, event_id) {
            1int
        } else {
            0int
        }),
{
    lemma_count_where_push(s, |r: RegView| is_confirmed_for(r, event_id), x);
}

pub proof fn lemma_confirmed_count_le_len(s: Seq<RegView>, event_id: u128)
    ensures
        confirmed_count(s, event_id) <= s.len(),
{
    lemma_count_where_le_len(s, |r: RegView| is_confirmed_for(r, event_id));
}

/// The row `r` turned into its cancelled form; every other field is kept,
/// and in particular the ticket code is never reassigned.
pub open spec fn cancelled_view(r: RegView) -> RegView {
    RegView { status: RegStatus::Cancelled, ..r }
}

/// The mathematical values of a vector of rows.
pub open spec fn views_of(rows: Seq<Registration>) -> Seq<RegView> {
    rows.map_values(|r: Registration| r@)
}

/// The rows of an event, in ledger (creation) order.
pub open spec fn event_rows(s: Seq<RegView>, event_id: u128) -> Seq<RegView> {
    s.filter(|r: RegView| is_for_event(r, event_id))
}

/// The rows of a subject, in ledger (creation) order.
pub open spec fn subject_rows(s: Seq<RegView>, subject_id: u128) -> Seq<RegView> {
    s.filter(|r: RegView| r.subject_id == subject_id)
}

pub proof fn lemma_event_rows_take_step(s: Seq<RegView>, event_id: u128, i: int)
    requires
        0 <= i < s.len(),
    ensures
        event_rows(s.take(i + 1), event_id) == (if is_for_event(s[i], event_id) {
            event_rows(s.take(i), event_id).push(s[i])
        } else {
            event_rows(s.take(i), event_id)
        }),
{
    assert(s.take(i + 1) =~= s.take(i).push(s[i]));
    lemma_filter_push(s.take(i), |r: RegView| is_for_event(r, event_id), s[i]);
}

pub proof fn lemma_subject_rows_take_step(s: Seq<RegView>, subject_id: u128, i: int)
    requires
        0 <= i < s.len(),
    ensures
        subject_rows(s.take(i + 1), subject_id) == (if s[i].subject_id == subject_id {
            subject_rows(s.take(i), subject_id).push(s[i])
        } else {
            subject_rows(s.take(i), subject_id)
        }),
{
    assert(s.take(i + 1) =~= s.take(i).push(s[i]));
    lemma_filter_push(s.take(i), |r: RegView| r.subject_id == subject_id, s[i]);
}

/// The authoritative store of registration attempts and their outcomes.
pub struct Ledger {
    regs: Vec<Registration>,
}

impl View for Ledger {
    type V = Seq<RegView>;

    closed spec fn view(&self) -> Seq<RegView> {
        self.regs@.map_values(|r: Registration| r@)
    }
}

/// Rejections of the atomic reservation step.
#[derive(Clone, Copy, Debug, PartialEq, Eq, Structural)]
pub enum ReserveError {
    /// The subject already holds a confirmed seat for the event.
    AlreadyRegistered,
    /// Admitting one more would exceed the event's capacity.
    CapacityExceeded,
    /// The offered ticket code is already in use; nothing was applied.
    TicketCodeInUse,
}

/// Rejections of a cancellation request.
#[derive(Clone, Copy, Debug, PartialEq, Eq, Structural)]
pub enum CancelError {
    NotFound,
    Forbidden,
}

/// What `reserve` guarantees, as a relation between the ledger before, the
/// ledger after, and the outcome (rows as mathematical values).
pub open spec fn reserve_post(
    pre: Seq<RegView>,
    post: Seq<RegView>,
    r: Result<RegView, ReserveError>,
    event_id: u128,
    subject_id: u128,
    capacity: u32,
    code: Seq<char>,
    now: i64,
) -> bool {
    if has_confirmed_pair(pre, event_id, subject_id) {
        r == Err::<RegView, ReserveError>(ReserveError::AlreadyRegistered) && post == pre
    } else if confirmed_count(pre, event_id) >= capacity {
        r == Err::<RegView, ReserveError>(ReserveError::CapacityExceeded) && post == pre
    } else if ticket_code_used(pre, code) {
        r == Err::<RegView, ReserveError>(ReserveError::TicketCodeInUse) && post == pre
    } else {
        &&& r is Ok
        &&& r->Ok_0 == (RegView {
            id: pre.len() as u64,
            event_id,
            subject_id,
            ticket_code: code,
            status: RegStatus::Confirmed,
            created_at: now,
        })
        &&& post == pre.push(r->Ok_0)
    }
}

/// What `cancel` guarantees. Under `wf`, a row's id equals its position, so
/// an id at or past the length does not exist.
pub open spec fn cancel_post(
    pre: Seq<RegView>,
    post: Seq<RegView>,
    r: Result<RegView, CancelError>,
    registration_id: u64,
    requester_subject: u128,
    requester_is_admin: bool,
) -> bool {
    let i = registration_id as int;
    if i >= pre.len() {
        r == Err::<RegView, CancelError>(CancelError::NotFound) && post == pre
    } else if pre[i].subject_id != requester_subject && !requester_is_admin {
        r == Err::<RegView, CancelError>(CancelError::Forbidden) && post == pre
    } else {
        r == Ok::<RegView, CancelError>(cancelled_view(pre[i])) && post == pre.update(
            i,
            cancelled_view(pre[i]),
        )
    }
}

impl Ledger {
    /// The data model's invariants: ids equal positions (hence unique),
    /// ticket codes are unique ledger-wide, and each (event, subject) pair has
    /// at most one confirmed row.
    pub closed spec fn wf(&self) -> bool {
        &&& forall|i: int| 0 <= i < self@.len() ==> (#[trigger] self@[i]).id == i as u64
        &&& forall|i: int, j: int|
            0 <= i < j < self@.len() ==> (#[trigger] self@[i]).ticket_code != (
            #[trigger] self@[j]).ticket_code
        &&& forall|i: int, j: int|
            0 <= i < j < self@.len() && (#[trigger] self@[i]).status == RegStatus::Confirmed && (
            #[trigger] self@[j]).status == RegStatus::Confirmed ==> !(self@[i].event_id
                == self@[j].event_id && self@[i].subject_id == self@[j].subject_id)
    }

    pub fn new() -> (l: Ledger)
        ensures
            l.wf(),
            l@ == Seq::<RegView>::empty(),
    {
        let l = Ledger { regs: Vec::new() };
        proof {
            assert(l@ =~= Seq::<RegView>::empty());
        }
        l
    }

    pub fn len(&self) -> (n: usize)
        ensures
            n == self@.len(),
    {
        self.regs.len()
    }

    /// The event id of the row at a position.
    pub fn event_id_at(&self, i: usize) -> (e: u128)
        requires
            i < self@.len(),
        ensures
            e == self@[i as int].event_id,
    {
        self.regs[i].event_id
    }

    /// The subject id of the row at a position.
    pub fn subject_id_at(&self, i: usize) -> (s: u128)
        requires
            i < self@.len(),
        ensures
            s == self@[i as int].subject_id,
    {
        self.regs[i].subject_id
    }

    /// The status of the row at a position.
    pub fn status_at(&self, i: usize) -> (st: RegStatus)
        requires
            i < self@.len(),
        ensures
            st == self@[i as int].status,
    {
        self.regs[i].status
    }

    /// The confirmed registration of a subject for an event, if any.
    pub fn find_confirmed(&self, event_id: u128, subject_id: u128) -> (r: Option<Registration>)
        requires
            self.wf(),
        ensures
            match r {
                Some(reg) => is_confirmed_pair(reg@, event_id, subject_id) && self@.contains(reg@),
                None => !has_confirmed_pair(self@, event_id, subject_id),
            },
    {
        let n = self.regs.len();
        for i in 0..n
            invariant
                n == self@.len(),
                forall|j: int|
                    0 <= j < i ==> !is_confirmed_pair(#[trigger] self@[j], event_id, subject_id),
        {
            let reg = &self.regs[i];
            if reg.event_id == event_id && reg.subject_id == subject_id && matches!(
                reg.status,
                RegStatus::Confirmed,
            ) {
                let found = reg.duplicate();
                assert(self@[i as int] == found@);
                return Some(found);
            }
            assert(!is_confirmed_pair(self@[i as int], event_id, subject_id));
        }
        None
    }

    /// The current number of confirmed registrations for an event.
    pub fn count_confirmed(&self, event_id: u128) -> (n: usize)
        ensures
            n == confirmed_count(self@, event_id),
    {
        let len = self.regs.len();
        let mut n: usize = 0;
        for i in 0..len
            invariant
                len == self@.len(),
                n == confirmed_count(self@.take(i as int), event_id),
                n <= i,
        {
            proof {
                lemma_confirmed_count_take_step(self@, event_id, i as int);
            }
            let reg = &self.regs[i];
            if reg.event_id == event_id && matches!(reg.status, RegStatus::Confirmed) {
                n = n + 1;
            }
        }
        proof {
            assert(self@.take(len as int) =~= self@);
        }
        n
    }

    /// Whether a ticket code is already in use anywhere in the ledger.
    fn ticket_in_use(&self, code: &String) -> (b: bool)
        ensures
            b == ticket_code_used(self@, code@),
    {
        let n = self.regs.len();
        for i in 0..n
            invariant
                n == self@.len(),
                forall|j: int| 0 <= j < i ==> (#[trigger] self@[j]).ticket_code != code@,
        {
            if self.regs[i].ticket_code == *code {
                assert(self@[i as int].ticket_code == code@);
                return true;
            }
        }
        false
    }

    /// The core atomic operation: check capacity, pair uniqueness and ticket
    /// uniqueness, and insert the confirmed row, as one indivisible step with
    /// respect to every other caller holding this ledger.
    pub fn reserve(
        &mut self,
        event_id: u128,
        subject_id: u128,
        capacity: u32,
        ticket_code: String,
        now: i64,
    ) -> (r: Result<Registration, ReserveError>)
        requires
            old(self).wf(),
        ensures
            final(self).wf(),
            reserve_post(
                old(self)@,
                final(self)@,
                match r {
                    Ok(reg) => Ok(reg@),
                    Err(e) => Err(e),
                },
                event_id,
                subject_id,
                capacity,
                ticket_code@,
                now,
            ),
            r is Err ==> final(self)@ == old(self)@,
            r is Ok ==> confirmed_count(final(self)@, event_id) == confirmed_count(
                old(self)@,
                event_id,
            ) + 1,
            r is Ok ==> confirmed_count(final(self)@, event_id) <= capacity,
    {
        let ghost pre = self@;
        if self.find_confirmed(event_id, subject_id).is_some() {
            return Err(ReserveError::AlreadyRegistered);
        }
        let count = self.count_confirmed(event_id);
        if count >= capacity as usize {
            return Err(ReserveError::CapacityExceeded);
        }
        if self.ticket_in_use(&ticket_code) {
            return Err(ReserveError::TicketCodeInUse);
        }
        let id = self.regs.len() as u64;
        let reg = Registration {
            id,
            event_id,
            subject_id,
            ticket_code,
            status: RegStatus::Confirmed,
            created_at: now,
        };
        let out = reg.duplicate();
        self.regs.push(reg);
        proof {
            assert(self@ =~= pre.push(out@));
            lemma_confirmed_count_push(pre, event_id, out@);
            lemma_confirmed_count_le_len(pre, event_id);
            assert forall|i: int, j: int|
                0 <= i < j < self@.len() && (#[trigger] self@[i]).status == RegStatus::Confirmed
                    && (#[trigger] self@[j]).status == RegStatus::Confirmed implies !(
            self@[i].event_id == self@[j].event_id && self@[i].subject_id == self@[j].subject_id) by {
                if j == self@.len() - 1 {
                    if self@[i].event_id == event_id && self@[i].subject_id == subject_id {
                        assert(is_confirmed_pair(pre[i], event_id, subject_id));
                        assert(has_confirmed_pair(pre, event_id, subject_id));
                    }
                }
            }
            assert forall|i: int, j: int|
                0 <= i < j < self@.len() implies (#[trigger] self@[i]).ticket_code != (
            #[trigger] self@[j]).ticket_code by {
                if j == self@.len() - 1 {
                    assert(!ticket_code_used(pre, self@[j].ticket_code));
                    assert(pre[i].ticket_code != self@[j].ticket_code);
                }
            }
        }
        Ok(out)
    }

    /// Transition one row from `Confirmed` to `Cancelled`, permitted only to
    /// the owning subject or an administrator. Cancelling an already-cancelled
    /// row is a no-op success.
    pub fn cancel(
        &mut self,
        registration_id: u64,
        requester_subject: u128,
        requester_is_admin: bool,
    ) -> (r: Result<Registration, CancelError>)
        requires
            old(self).wf(),
        ensures
            final(self).wf(),
            cancel_post(
                old(self)@,
                final(self)@,
                match r {
                    Ok(reg) => Ok(reg@),
                    Err(e) => Err(e),
                },
                registration_id,
                requester_subject,
                requester_is_admin,
            ),
            registration_id < old(self)@.len() && old(self)@[registration_id as int].status
                == RegStatus::Cancelled ==> final(self)@ == old(self)@,
    {
        let ghost pre = self@;
        let n = self.regs.len();
        if registration_id >= n as u64 {
            return Err(CancelError::NotFound);
        }
        let i = registration_id as usize;
        let reg = &self.regs[i];
        if reg.subject_id != requester_subject && !requester_is_admin {
            return Err(CancelError::Forbidden);
        }
        let cancelled = Registration {
            id: reg.id,
            event_id: reg.event_id,
            subject_id: reg.subject_id,
            ticket_code: reg.ticket_code.clone(),
            status: RegStatus::Cancelled,
            created_at: reg.created_at,
        };
        let out = cancelled.duplicate();
        self.regs.set(i, cancelled);
        proof {
            assert(out@ == cancelled_view(pre[i as int]));
            assert(self@ =~= pre.update(i as int, cancelled_view(pre[i as int])));
            if pre[i as int].status == RegStatus::Cancelled {
                assert(self@ =~= pre);
            }
            assert forall|a: int, b: int|
                0 <= a < b < self@.len() && (#[trigger] self@[a]).status == RegStatus::Confirmed
                    && (#[trigger] self@[b]).status == RegStatus::Confirmed implies !(
            self@[a].event_id == self@[b].event_id && self@[a].subject_id == self@[b].subject_id) by {
                assert(pre[a].status == RegStatus::Confirmed);
                assert(pre[b].status == RegStatus::Confirmed);
            }
        }
        Ok(out)
    }

    /// Cancel every confirmed registration for an event; used by the internal
    /// administrative hook when the event itself is removed upstream.
    pub fn bulk_cancel(&mut self, event_id: u128)
        requires
            old(self).wf(),
        ensures
            final(self).wf(),
            final(self)@.len() == old(self)@.len(),
            forall|i: int|
                0 <= i < old(self)@.len() ==> #[trigger] final(self)@[i] == (if is_confirmed_for(
                    old(self)@[i],
                    event_id,
                ) {
                    cancelled_view(old(self)@[i])
                } else {
                    old(self)@[i]
                }),
    {
        let ghost pre = self@;
        let n = self.regs.len();
        for i in 0..n
            invariant
                self.wf(),
                n == self@.len(),
                self@.len() == pre.len(),
                forall|j: int|
                    0 <= j < i ==> #[trigger] self@[j] == (if is_confirmed_for(pre[j], event_id) {
                        cancelled_view(pre[j])
                    } else {
                        pre[j]
                    }),
                forall|j: int| i <= j < pre.len() ==> #[trigger] self@[j] == pre[j],
        {
            let ghost mid = self@;
            let reg = &self.regs[i];
            if reg.event_id == event_id && matches!(reg.status, RegStatus::Confirmed) {
                let cancelled = Registration {
                    id: reg.id,
                    event_id: reg.event_id,
                    subject_id: reg.subject_id,
                    ticket_code: reg.ticket_code.clone(),
                    status: RegStatus::Cancelled,
                    created_at: reg.created_at,
                };
                self.regs.set(i, cancelled);
                proof {
                    assert(self@ =~= mid.update(i as int, cancelled_view(mid[i as int])));
                    assert forall|a: int, b: int|
                        0 <= a < b < self@.len() && (#[trigger] self@[a]).status
                            == RegStatus::Confirmed && (#[trigger] self@[b]).status
                            == RegStatus::Confirmed implies !(self@[a].event_id == self@[b].event_id
                        && self@[a].subject_id == self@[b].subject_id) by {
                        assert(mid[a].status == RegStatus::Confirmed);
                        assert(mid[b].status == RegStatus::Confirmed);
                    }
                }
            }
        }
    }

    /// Every registration for an event, oldest first.
    pub fn registrations_for_event(&self, event_id: u128) -> (rows: Vec<Registration>)
        ensures
            views_of(rows@) == event_rows(self@, event_id),
    {
        let n = self.regs.len();
        let mut rows: Vec<Registration> = Vec::new();
        for i in 0..n
            invariant
                n == self@.len(),
                views_of(rows@) == event_rows(self@.take(i as int), event_id),
        {
            proof {
                lemma_event_rows_take_step(self@, event_id, i as int);
            }
            let reg = &self.regs[i];
            if reg.event_id == event_id {
                let ghost prev = rows@;
                rows.push(reg.duplicate());
                proof {
                    assert(views_of(rows@) =~= views_of(prev).push(self@[i as int]));
                }
            }
        }
        proof {
            assert(self@.take(n as int) =~= self@);
        }
        rows
    }

    /// Every registration of a subject, newest first.
    pub fn registrations_for_subject(&self, subject_id: u128) -> (rows: Vec<Registration>)
        ensures
            views_of(rows@) == subject_rows(self@, subject_id).reverse(),
    {
        let n = self.regs.len();
        let mut forward: Vec<Registration> = Vec::new();
        for i in 0..n
            invariant
                n == self@.len(),
                views_of(forward@) == subject_rows(self@.take(i as int), subject_id),
        {
            proof {
                lemma_subject_rows_take_step(self@, subject_id, i as int);
            }
            let reg = &self.regs[i];
            if reg.subject_id == subject_id {
                let ghost prev = forward@;
                forward.push(reg.duplicate());
                proof {
                    assert(views_of(forward@) =~= views_of(prev).push(self@[i as int]));
                }
            }
        }
        proof {
            assert(self@.take(n as int) =~= self@);
        }
        let mut rows: Vec<Registration> = Vec::new();
        let mut j = forward.len();
        while j > 0
            invariant
                j <= forward@.len(),
                rows@.len() + j == forward@.len(),
                views_of(forward@) == subject_rows(self@, subject_id),
                forall|k: int|
                    0 <= k < rows@.len() ==> views_of(rows@)[k] == views_of(forward@)[forward@.len()
                        - 1 - k],
            decreases j,
        {
            j = j - 1;
            let ghost prev = rows@;
            rows.push(forward[j].duplicate());
            proof {
                assert forall|k: int| 0 <= k < rows@.len() implies views_of(rows@)[k] == views_of(
                    forward@,
                )[forward@.len() - 1 - k] by {
                    if k < prev.len() {
                        assert(views_of(rows@)[k] == views_of(prev)[k]);
                    } else {
                        assert(views_of(rows@)[k] == views_of(forward@)[j as int]);
                    }
                }
            }
        }
        proof {
            assert(views_of(rows@) =~= subject_rows(self@, subject_id).reverse());
        }
        rows
    }

    /// The row with the given id, if it exists.
    pub fn get(&self, registration_id: u64) -> (r: Option<Registration>)
        requires
            self.wf(),
        ensures
            match r {
                Some(reg) => registration_id < self@.len() && reg@ == self@[registration_id as int],
                None => registration_id >= self@.len(),
            },
    {
        let n = self.regs.len();
        if registration_id >= n as u64 {
            return None;
        }
        let i = registration_id as usize;
        Some(self.regs[i].duplicate())
    }
}

/// Law: under the ledger invariant a row's id equals its position, so ids are
/// unique and an id names at most one row.
pub proof fn lemma_id_is_position(l: Ledger, i: int)
    requires
        l.wf(),
        0 <= i < l@.len(),
    ensures
        l@[i].id == i as u64,
{
}

/// Law: one reservation never pushes the confirmed count of an event past the
/// capacity it was checked against. Since a failed reservation leaves the
/// ledger unchanged, by induction any sequence of `reserve` calls against an
/// event at capacity `capacity` keeps its confirmed count at or below
/// `capacity`, however the calls interleave.
pub proof fn lemma_reserve_bounds_confirmed_count(
    pre: Seq<RegView>,
    post: Seq<RegView>,
    r: Result<RegView, ReserveError>,
    event_id: u128,
    subject_id: u128,
    capacity: u32,
    code: Seq<char>,
    now: i64,
)
    requires
        reserve_post(pre, post, r, event_id, subject_id, capacity, code, now),
        confirmed_count(pre, event_id) <= capacity,
    ensures
        confirmed_count(post, event_id) <= capacity,
{
    if r is Ok {
        lemma_confirmed_count_push(pre, event_id, r->Ok_0);
    }
}

/// Law: a reservation leaves the confirmed count of every other event alone.
pub proof fn lemma_reserve_other_events_unchanged(
    pre: Seq<RegView>,
    post: Seq<RegView>,
    r: Result<RegView, ReserveError>,
    event_id: u128,
    subject_id: u128,
    capacity: u32,
    code: Seq<char>,
    now: i64,
    other: u128,
)
    requires
        reserve_post(pre, post, r, event_id, subject_id, capacity, code, now),
        other != event_id,
    ensures
        confirmed_count(post, other) == confirmed_count(pre, other),
{
    if r is Ok {
        lemma_confirmed_count_push(pre, other, r->Ok_0);
    }
}

pub proof fn lemma_confirmed_count_update(s: Seq<RegView>, event_id: u128, i: int, x: RegView)
    requires
        0 <= i < s.len(),
    ensures
        confirmed_count(s.update(i, x), event_id) == confirmed_count(s, event_id) - (
        if is_confirmed_for(s[i], event_id) {
            1int
        } else {
            0int
        }) + (if is_confirmed_for(x, event_id) {
            1int
        } else {
            0int
        }),
{
    lemma_count_where_update(s, |r: RegView| is_confirmed_for(r, event_id), i, x);
}

/// Law: a cancellation never increases any event's confirmed count.
pub proof fn lemma_cancel_never_adds_seats(
    pre: Seq<RegView>,
    post: Seq<RegView>,
    r: Result<RegView, CancelError>,
    registration_id: u64,
    requester_subject: u128,
    requester_is_admin: bool,
    event_id: u128,
)
    requires
        cancel_post(pre, post, r, registration_id, requester_subject, requester_is_admin),
    ensures
        confirmed_count(post, event_id) <= confirmed_count(pre, event_id),
{
    if r is Ok {
        let i = registration_id as int;
        lemma_confirmed_count_update(pre, event_id, i, cancelled_view(pre[i]));
    }
}

/// One serialized step against the ledger touching an event admitted at a
/// fixed capacity: some reservation for it, or some cancellation.
pub open spec fn ledger_step(
    pre: Seq<RegView>,
    post: Seq<RegView>,
    event_id: u128,
    capacity: u32,
) -> bool {
    ||| exists|subject_id: u128, code: Seq<char>, now: i64, r: Result<RegView, ReserveError>|
        reserve_post(pre, post, r, event_id, subject_id, capacity, code, now)
    ||| exists|
        registration_id: u64,
        requester_subject: u128,
        requester_is_admin: bool,
        r: Result<RegView, CancelError>,
    |
        cancel_post(pre, post, r, registration_id, requester_subject, requester_is_admin)
}

/// Law: however reservations and cancellations interleave, the ledger
/// serializes them, and an event admitted at capacity `capacity` never holds
/// more confirmed seats than that. `states` is any serialized history: each
/// neighbouring pair is one `reserve` or `cancel` outcome.
pub proof fn lemma_serialized_history_bounds_confirmed_count(
    states: Seq<Seq<RegView>>,
    event_id: u128,
    capacity: u32,
)
    requires
        states.len() > 0,
        confirmed_count(states[0], event_id) <= capacity,
        forall|i: int|
            0 <= i < states.len() - 1 ==> ledger_step(
                #[trigger] states[i],
                states[i + 1],
                event_id,
                capacity,
            ),
    ensures
        confirmed_count(states.last(), event_id) <= capacity,
    decreases states.len(),
{
    if states.len() > 1 {
        assert(ledger_step(states[0], states[1], event_id, capacity));
        if exists|subject_id: u128, code: Seq<char>, now: i64, r: Result<RegView, ReserveError>|
            reserve_post(states[0], states[1], r, event_id, subject_id, capacity, code, now) {
            let (subject_id, code, now, r) = choose|
                subject_id: u128,
                code: Seq<char>,
                now: i64,
                r: Result<RegView, ReserveError>,
            | reserve_post(states[0], states[1], r, event_id, subject_id, capacity, code, now);
            lemma_reserve_bounds_confirmed_count(
                states[0],
                states[1],
                r,
                event_id,
                subject_id,
                capacity,
                code,
                now,
            );
        } else {
            let (registration_id, requester_subject, requester_is_admin, r) = choose|
                registration_id: u64,
                requester_subject: u128,
                requester_is_admin: bool,
                r: Result<RegView, CancelError>,
            |
                cancel_post(
                    states[0],
                    states[1],
                    r,
                    registration_id,
                    requester_subject,
                    requester_is_admin,
                );
            lemma_cancel_never_adds_seats(
                states[0],
                states[1],
                r,
                registration_id,
                requester_subject,
                requester_is_admin,
                event_id,
            );
        }
        let rest = states.drop_first();
        assert forall|i: int| 0 <= i < rest.len() - 1 implies ledger_step(
            #[trigger] rest[i],
            rest[i + 1],
            event_id,
            capacity,
        ) by {
            assert(rest[i] == states[i + 1]);
            assert(rest[i + 1] == states[i + 2]);
        }
        lemma_serialized_history_bounds_confirmed_count(rest, event_id, capacity);
        assert(rest.last() == states.last());
    }
}

/// Law: at most one confirmed registration exists per (event, subject) pair;
/// two confirmed rows for the same pair are the same row.
pub proof fn lemma_at_most_one_confirmed_per_pair(
    l: Ledger,
    event_id: u128,
    subject_id: u128,
    i: int,
    j: int,
)
    requires
        l.wf(),
        0 <= i < l@.len(),
        0 <= j < l@.len(),
        is_confirmed_pair(l@[i], event_id, subject_id),
        is_confirmed_pair(l@[j], event_id, subject_id),
    ensures
        i == j,
{
}

/// Law: while a subject holds a confirmed registration for an event, a second
/// reservation for the same pair always fails with `AlreadyRegistered` and
/// changes nothing.
pub proof fn lemma_reserve_rejects_double_booking(
    pre: Seq<RegView>,
    post: Seq<RegView>,
    r: Result<RegView, ReserveError>,
    event_id: u128,
    subject_id: u128,
    capacity: u32,
    code: Seq<char>,
    now: i64,
)
    requires
        reserve_post(pre, post, r, event_id, subject_id, capacity, code, now),
        has_confirmed_pair(pre, event_id, subject_id),
    ensures
        r == Err::<RegView, ReserveError>(ReserveError::AlreadyRegistered),
        post == pre,
{
}

/// Law: cancelling is idempotent. After a successful cancellation, repeating
/// the same request returns the already-cancelled row again, as a success, and
/// leaves the ledger unchanged.
pub proof fn lemma_cancel_idempotent(
    pre: Seq<RegView>,
    mid: Seq<RegView>,
    post: Seq<RegView>,
    r1: Result<RegView, CancelError>,
    r2: Result<RegView, CancelError>,
    registration_id: u64,
    requester_subject: u128,
    requester_is_admin: bool,
)
    requires
        cancel_post(pre, mid, r1, registration_id, requester_subject, requester_is_admin),
        cancel_post(mid, post, r2, registration_id, requester_subject, requester_is_admin),
        r1 is Ok,
    ensures
        r2 == r1,
        post == mid,
{
    let i = registration_id as int;
    assert(mid[i] == cancelled_view(pre[i]));
    assert(cancelled_view(mid[i]) == mid[i]);
    assert(post =~= mid);
}

/// Law: ticket codes are unique across the whole ledger; two distinct rows
/// never carry the same code, whatever their events or statuses.
pub proof fn lemma_ticket_codes_unique(l: Ledger, i: int, j: int)
    requires
        l.wf(),
        0 <= i < l@.len(),
        0 <= j < l@.len(),
        i != j,
    ensures
        l@[i].ticket_code != l@[j].ticket_code,
{
}

} // verus!
