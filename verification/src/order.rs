//! The canonical listing orders of the catalog and a verified sort.
//!
//! Every listing the store returns is pinned to the deterministic sequence
//! [`sort_rows`]: an insertion sort under one of three descending orders,
//! with ties always broken by descending store identity. Because identities
//! are unique inside a store, each listing is uniquely determined.

use vstd::prelude::*;
use vstd::multiset::Multiset;
use crate::journal::{Journal, JournalView};

verus! {

/// Which listing order to apply.
#[derive(Clone, Copy)]
pub enum OrderKey {
    /// `(volume DESC, issue DESC, publication date DESC)`: the archive order.
    Archive,
    /// `(publication date DESC)`: most recent first, regardless of edition.
    DateOnly,
    /// `(issue DESC, publication date DESC)`: within a single volume.
    IssueDate,
}

/// The store identity used as the final tie-break (0 before first persist).
pub open spec fn row_id(j: JournalView) -> i64 {
    match j.id {
        Some(i) => i,
        None => 0,
    }
}

/// `a` sorts no later than `b` under `k`.
pub open spec fn key_leq(k: OrderKey, a: JournalView, b: JournalView) -> bool {
    match k {
        OrderKey::Archive => if a.volume_number != b.volume_number {
            a.volume_number > b.volume_number
        } else if a.issue_number != b.issue_number {
            a.issue_number > b.issue_number
        } else if a.publication_date != b.publication_date {
            a.publication_date > b.publication_date
        } else {
            row_id(a) >= row_id(b)
        },
        OrderKey::DateOnly => if a.publication_date != b.publication_date {
            a.publication_date > b.publication_date
        } else {
            row_id(a) >= row_id(b)
        },
        OrderKey::IssueDate => if a.issue_number != b.issue_number {
            a.issue_number > b.issue_number
        } else if a.publication_date != b.publication_date {
            a.publication_date > b.publication_date
        } else {
            row_id(a) >= row_id(b)
        },
    }
}

/// The sequence is sorted under `k`.
pub open spec fn ordered(k: OrderKey, s: Seq<JournalView>) -> bool {
    forall|i: int, j: int| 0 <= i < j < s.len() ==> key_leq(k, s[i], s[j])
}

/// Any two rows compare in at least one direction.
pub proof fn lemma_key_leq_total(k: OrderKey, a: JournalView, b: JournalView)
    ensures
        key_leq(k, a, b) || key_leq(k, b, a),
{
}

/// The order is transitive.
pub proof fn lemma_key_leq_trans(k: OrderKey, a: JournalView, b: JournalView, c: JournalView)
    requires
        key_leq(k, a, b),
        key_leq(k, b, c),
    ensures
        key_leq(k, a, c),
{
}

/// `x` placed at its first admissible position in `s`.
pub open spec fn insert_ordered(k: OrderKey, x: JournalView, s: Seq<JournalView>) -> Seq<
    JournalView,
>
    decreases s.len(),
{
    if s.len() == 0 {
        seq![x]
    } else if key_leq(k, x, s[0]) {
        seq![x] + s
    } else {
        seq![s[0]] + insert_ordered(k, x, s.drop_first())
    }
}

/// The rows of `s`, sorted under `k` by insertion from the front.
pub open spec fn sort_rows(k: OrderKey, s: Seq<JournalView>) -> Seq<JournalView>
    decreases s.len(),
{
    if s.len() == 0 {
        s
    } else {
        insert_ordered(k, s.last(), sort_rows(k, s.drop_last()))
    }
}

/// Inserting adds exactly `x` to the contents.
pub proof fn lemma_insert_ordered_multiset(k: OrderKey, x: JournalView, s: Seq<JournalView>)
    ensures
        insert_ordered(k, x, s).len() == s.len() + 1,
        insert_ordered(k, x, s).to_multiset() == s.to_multiset().insert(x),
    decreases s.len(),
{
    broadcast use vstd::seq_lib::group_seq_properties;

    if s.len() == 0 {
        assert(seq![x] =~= Seq::<JournalView>::empty().push(x));
        assert(seq![x].to_multiset() =~= s.to_multiset().insert(x));
    } else if key_leq(k, x, s[0]) {
        assert(seq![x] + s =~= (seq![x]).add(s));
        vstd::seq_lib::lemma_multiset_commutative(seq![x], s);
        assert(seq![x].to_multiset() =~= Multiset::<JournalView>::empty().insert(x));
        assert((seq![x] + s).to_multiset() =~= s.to_multiset().insert(x));
    } else {
        lemma_insert_ordered_multiset(k, x, s.drop_first());
        let rest = insert_ordered(k, x, s.drop_first());
        vstd::seq_lib::lemma_multiset_commutative(seq![s[0]], rest);
        assert(seq![s[0]].to_multiset() =~= Multiset::<JournalView>::empty().insert(s[0]));
        assert(s =~= seq![s[0]] + s.drop_first());
        vstd::seq_lib::lemma_multiset_commutative(seq![s[0]], s.drop_first());
        assert((seq![s[0]] + rest).to_multiset() =~= s.to_multiset().insert(x));
    }
}

/// Every element of the insertion result is `x` or an element of `s`.
pub proof fn lemma_insert_ordered_elems(k: OrderKey, x: JournalView, s: Seq<JournalView>)
    ensures
        forall|y: JournalView|
            insert_ordered(k, x, s).contains(y) <==> (y == x || s.contains(y)),
{
    broadcast use vstd::seq_lib::group_to_multiset_ensures;
    broadcast use vstd::multiset::group_multiset_axioms;

    lemma_insert_ordered_multiset(k, x, s);
    let r = insert_ordered(k, x, s);
    assert forall|y: JournalView| r.contains(y) <==> (y == x || s.contains(y)) by {
        assert(r.to_multiset().count(y) == s.to_multiset().insert(x).count(y));
        assert(s.to_multiset().insert(x).count(y) == s.to_multiset().count(y) + if y == x {
            1int
        } else {
            0int
        });
    }
}

/// Inserting into a sorted sequence keeps it sorted.
pub proof fn lemma_insert_ordered_sorted(k: OrderKey, x: JournalView, s: Seq<JournalView>)
    requires
        ordered(k, s),
    ensures
        ordered(k, insert_ordered(k, x, s)),
    decreases s.len(),
{
    if s.len() == 0 {
    } else if key_leq(k, x, s[0]) {
        let r = seq![x] + s;
        assert forall|i: int, j: int| 0 <= i < j < r.len() implies key_leq(k, r[i], r[j]) by {
            if i == 0 {
                if j == 1 {
                } else {
                    lemma_key_leq_trans(k, x, s[0], s[j - 1]);
                }
            }
        }
    } else {
        assert(ordered(k, s.drop_first()));
        lemma_insert_ordered_sorted(k, x, s.drop_first());
        lemma_insert_ordered_elems(k, x, s.drop_first());
        let tail = insert_ordered(k, x, s.drop_first());
        let r = seq![s[0]] + tail;
        lemma_key_leq_total(k, x, s[0]);
        assert forall|i: int, j: int| 0 <= i < j < r.len() implies key_leq(k, r[i], r[j]) by {
            if i == 0 {
                assert(tail.contains(tail[j - 1])) by {
                    assert(tail[j - 1] == tail[j - 1]);
                }
                if tail[j - 1] == x {
                } else {
                    assert(s.drop_first().contains(tail[j - 1]));
                    let m = choose|m: int|
                        0 <= m < s.drop_first().len() && s.drop_first()[m] == tail[j - 1];
                    assert(key_leq(k, s[0], s[m + 1]));
                }
            }
        }
    }
}

/// The sorted rows: same contents, ordered under `k`.
pub proof fn lemma_sort_rows_props(k: OrderKey, s: Seq<JournalView>)
    ensures
        sort_rows(k, s).len() == s.len(),
        sort_rows(k, s).to_multiset() == s.to_multiset(),
        ordered(k, sort_rows(k, s)),
    decreases s.len(),
{
    broadcast use vstd::seq_lib::group_seq_properties;

    if s.len() == 0 {
    } else {
        lemma_sort_rows_props(k, s.drop_last());
        lemma_insert_ordered_multiset(k, s.last(), sort_rows(k, s.drop_last()));
        lemma_insert_ordered_sorted(k, s.last(), sort_rows(k, s.drop_last()));
        assert(s.drop_last().to_multiset().insert(s.last()) =~= s.to_multiset()) by {
            assert(s =~= s.drop_last().push(s.last()));
        }
    }
}

/// Where the position scan stops is where [`insert_ordered`] places `x`.
proof fn lemma_insert_ordered_at(k: OrderKey, x: JournalView, s: Seq<JournalView>, p: int)
    requires
        0 <= p <= s.len(),
        forall|m: int| 0 <= m < p ==> !key_leq(k, x, #[trigger] s[m]),
        p < s.len() ==> key_leq(k, x, s[p]),
    ensures
        insert_ordered(k, x, s) == s.subrange(0, p) + seq![x] + s.subrange(p, s.len() as int),
    decreases s.len(),
{
    if s.len() == 0 {
        assert(insert_ordered(k, x, s) =~= s.subrange(0, p) + seq![x] + s.subrange(
            p,
            s.len() as int,
        ));
    } else if p == 0 {
        assert(key_leq(k, x, s[0]));
        assert(insert_ordered(k, x, s) =~= s.subrange(0, p) + seq![x] + s.subrange(
            p,
            s.len() as int,
        ));
    } else {
        assert(!key_leq(k, x, s[0]));
        lemma_insert_ordered_at(k, x, s.drop_first(), p - 1);
        assert(seq![s[0]] + (s.drop_first().subrange(0, p - 1) + seq![x] + s.drop_first().subrange(
            p - 1,
            s.len() - 1,
        )) =~= s.subrange(0, p) + seq![x] + s.subrange(p, s.len() as int));
    }
}

fn journal_row_id(a: &Journal) -> (r: i64)
    ensures
        r == row_id(a.deep_view()),
{
    match a.id {
        Some(i) => i,
        None => 0,
    }
}

/// Executable comparison agreeing with [`key_leq`].
fn journal_leq(k: OrderKey, a: &Journal, b: &Journal) -> (r: bool)
    ensures
        r == key_leq(k, a.deep_view(), b.deep_view()),
{
    match k {
        OrderKey::Archive => {
            if a.volume_number != b.volume_number {
                a.volume_number > b.volume_number
            } else if a.issue_number != b.issue_number {
                a.issue_number > b.issue_number
            } else if a.publication_date != b.publication_date {
                a.publication_date > b.publication_date
            } else {
                journal_row_id(a) >= journal_row_id(b)
            }
        },
        OrderKey::DateOnly => {
            if a.publication_date != b.publication_date {
                a.publication_date > b.publication_date
            } else {
                journal_row_id(a) >= journal_row_id(b)
            }
        },
        OrderKey::IssueDate => {
            if a.issue_number != b.issue_number {
                a.issue_number > b.issue_number
            } else if a.publication_date != b.publication_date {
                a.publication_date > b.publication_date
            } else {
                journal_row_id(a) >= journal_row_id(b)
            }
        },
    }
}

/// Sorts copies of the rows under `k`; the result is exactly [`sort_rows`].
pub fn sort_journals(k: OrderKey, rows: &Vec<Journal>) -> (r: Vec<Journal>)
    ensures
        r.deep_view() == sort_rows(k, rows.deep_view()),
{
    let mut out: Vec<Journal> = Vec::new();
    let mut i: usize = 0;
    proof {
        assert(out.deep_view() =~= sort_rows(k, rows.deep_view().take(0)));
    }
    while i < rows.len()
        invariant
            i <= rows.len(),
            out.deep_view() == sort_rows(k, rows.deep_view().take(i as int)),
        decreases rows.len() - i,
    {
        let x = rows[i].clone();
        let ghost xv = x.deep_view();
        let ghost before = out.deep_view();
        let mut j: usize = 0;
        while j < out.len() && !journal_leq(k, &x, &out[j])
            invariant
                j <= out.len(),
                out.deep_view() == before,
                x.deep_view() == xv,
                forall|m: int| 0 <= m < j ==> !key_leq(k, xv, #[trigger] before[m]),
            decreases out.len() - j,
        {
            j = j + 1;
        }
        proof {
            lemma_insert_ordered_at(k, xv, before, j as int);
        }
        out.insert(j, x);
        proof {
            assert(out.deep_view() =~= before.subrange(0, j as int) + seq![xv] + before.subrange(
                j as int,
                before.len() as int,
            ));
            let rs = rows.deep_view();
            assert(rs.take(i + 1).drop_last() =~= rs.take(i as int));
            assert(rs.take(i + 1).last() == rs[i as int]);
            assert(rs[i as int] == xv);
            assert(out.deep_view() == sort_rows(k, rs.take(i + 1)));
        }
        i = i + 1;
    }
    proof {
        assert(rows.deep_view().take(rows.len() as int) =~= rows.deep_view());
    }
    out
}

/// The page of `s` described by `limit` and `offset`: at most `limit`
/// elements starting at `offset`.
pub open spec fn page_of<T>(s: Seq<T>, limit: int, offset: int) -> Seq<T>
    recommends
        limit >= 0,
        offset >= 0,
{
    if offset >= s.len() {
        Seq::empty()
    } else if offset + limit >= s.len() {
        s.subrange(offset, s.len() as int)
    } else {
        s.subrange(offset, offset + limit)
    }
}

/// Copies one page out of `rows`.
pub fn page_journals(rows: &Vec<Journal>, limit: usize, offset: usize) -> (r: Vec<Journal>)
    ensures
        r.deep_view() == page_of(rows.deep_view(), limit as int, offset as int),
{
    let mut out: Vec<Journal> = Vec::new();
    if offset >= rows.len() {
        proof {
            assert(out.deep_view() =~= page_of(
                rows.deep_view(),
                limit as int,
                offset as int,
            ));
        }
        return out;
    }
    let end = if rows.len() - offset < limit {
        rows.len()
    } else {
        offset + limit
    };
    let mut i: usize = offset;
    while i < end
        invariant
            offset <= i <= end <= rows.len(),
            out.deep_view() == rows.deep_view().subrange(offset as int, i as int),
        decreases end - i,
    {
        let ghost before = out.deep_view();
        proof {
            assert(before.len() == i - offset);
            assert(out@.len() == before.len());
        }
        let x = rows[i].clone();
        out.push(x);
        proof {
            let rv = rows.deep_view();
            assert(out@.len() == i + 1 - offset);
            assert(out.deep_view().len() == out@.len());
            assert(out.deep_view().len() == i + 1 - offset);
            assert(rv.subrange(offset as int, i + 1).len() == i + 1 - offset);
            assert forall|m: int| 0 <= m < i + 1 - offset implies out.deep_view()[m]
                == rv.subrange(offset as int, i + 1)[m] by {
                if m < before.len() {
                    assert(out@[m] == out@.drop_last()[m]);
                    assert(out.deep_view()[m] == before[m]);
                    assert(before[m] == rv[offset + m]);
                } else {
                    assert(out@[m] == x);
                    assert(out.deep_view()[m] == x.deep_view());
                    assert(x.deep_view() == rv[i as int]);
                }
            }
            assert(out.deep_view() =~= rv.subrange(offset as int, i + 1));
        }
        i = i + 1;
    }
    proof {
        assert(out.deep_view() =~= page_of(rows.deep_view(), limit as int, offset as int));
    }
    out
}

} // verus!
