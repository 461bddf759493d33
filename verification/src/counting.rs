//! Counting elements of a sequence that satisfy a predicate, with the lemmas
//! the ledger proofs need: how a count changes under `push` and `take`, how it
//! splits over disjoint predicates, and how `filter` grows.

use vstd::prelude::*;

verus! {

/// Number of elements of `s` that satisfy `p`.
pub open spec fn count_where<A>(s: Seq<A>, p: spec_fn(A) -> bool) -> nat
    decreases s.len(),
{
    if s.len() == 0 {
        0
    } else {
        count_where(s.drop_last(), p) + (if p(s.last()) {
            1nat
        } else {
            0nat
        })
    }
}

pub proof fn lemma_count_where_push<A>(s: Seq<A>, p: spec_fn(A) -> bool, x: A)
    ensures
        count_where(s.push(x), p) == count_where(s, p) + (if p(x) {
            1int
        } else {
            0int
        }),
{
    assert(s.push(x).drop_last() =~= s);
    assert(s.push(x).last() == x);
}

pub proof fn lemma_count_where_take_step<A>(s: Seq<A>, p: spec_fn(A) -> bool, i: int)
    requires
        0 <= i < s.len(),
    ensures
        count_where(s.take(i + 1), p) == count_where(s.take(i), p) + (if p(s[i]) {
            1int
        } else {
            0int
        }),
{
    assert(s.take(i + 1) =~= s.take(i).push(s[i]));
    lemma_count_where_push(s.take(i), p, s[i]);
}

pub proof fn lemma_count_where_le_len<A>(s: Seq<A>, p: spec_fn(A) -> bool)
    ensures
        count_where(s, p) <= s.len(),
    decreases s.len(),
{
    if s.len() > 0 {
        lemma_count_where_le_len(s.drop_last(), p);
    }
}

pub proof fn lemma_count_where_zero<A>(s: Seq<A>, p: spec_fn(A) -> bool)
    ensures
        (count_where(s, p) == 0) <==> (forall|i: int| 0 <= i < s.len() ==> !p(s[i])),
    decreases s.len(),
{
    if s.len() > 0 {
        lemma_count_where_zero(s.drop_last(), p);
        assert(s.drop_last() =~= s.take(s.len() - 1));
        if forall|i: int| 0 <= i < s.len() ==> !p(s[i]) {
            assert(forall|i: int|
                0 <= i < s.drop_last().len() ==> s.drop_last()[i] == s[i] && !p(s.drop_last()[i]));
        }
        if count_where(s, p) == 0 {
            assert(forall|i: int| 0 <= i < s.len() - 1 ==> s.drop_last()[i] == s[i]);
            assert(!p(s.last()));
            assert(forall|i: int| 0 <= i < s.len() - 1 ==> !p(s[i]));
            assert(forall|i: int| 0 <= i < s.len() ==> !p(s[i]));
        }
    }
}

pub proof fn lemma_count_where_update<A>(s: Seq<A>, p: spec_fn(A) -> bool, i: int, x: A)
    requires
        0 <= i < s.len(),
    ensures
        count_where(s.update(i, x), p) == count_where(s, p) - (if p(s[i]) {
            1int
        } else {
            0int
        }) + (if p(x) {
            1int
        } else {
            0int
        }),
    decreases s.len(),
{
    if i == s.len() - 1 {
        assert(s.update(i, x).drop_last() =~= s.drop_last());
        assert(s.update(i, x).last() == x);
    } else {
        assert(s.update(i, x).drop_last() =~= s.drop_last().update(i, x));
        assert(s.update(i, x).last() == s.last());
        lemma_count_where_update(s.drop_last(), p, i, x);
    }
}

/// How `Seq::filter` treats one appended element.
pub proof fn lemma_filter_push<A>(s: Seq<A>, p: spec_fn(A) -> bool, x: A)
    ensures
        s.push(x).filter(p) == (if p(x) {
            s.filter(p).push(x)
        } else {
            s.filter(p)
        }),
{
    reveal(Seq::filter);
    assert(s.push(x).drop_last() =~= s);
    assert(s.push(x).last() == x);
}

/// Where `p` holds exactly when one of the disjoint predicates `q`, `r` holds,
/// the count under `p` is the sum of the counts under `q` and `r`.
pub proof fn lemma_count_where_split<A>(
    s: Seq<A>,
    p: spec_fn(A) -> bool,
    q: spec_fn(A) -> bool,
    r: spec_fn(A) -> bool,
)
    requires
        forall|a: A| #[trigger] p(a) <==> (q(a) || r(a)),
        forall|a: A| !(#[trigger] q(a) && r(a)),
    ensures
        count_where(s, p) == count_where(s, q) + count_where(s, r),
    decreases s.len(),
{
    if s.len() > 0 {
        lemma_count_where_split(s.drop_last(), p, q, r);
    }
}

} // verus!
