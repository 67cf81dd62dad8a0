//! The edition resolver: the "current edition" and "past issues" views,
//! derived from the catalog contents alone — no cached state, so they always
//! reflect the latest committed rows.

use vstd::prelude::*;
use crate::errors::SubmissionError;
use crate::journal::{Journal, JournalView};
use crate::journal_store::{JournalRepository, edition_rows, other_edition_rows};
use crate::order::{
    OrderKey, key_leq, lemma_sort_rows_props, page_of, page_journals, sort_journals,
    sort_rows,
};

verus! {

/// The latest edition key: the `(volume, issue)` pair of the first row in
/// archive order; present exactly when the catalog is non-empty.
pub open spec fn latest_key(rows: Seq<JournalView>) -> Option<(i32, i32)> {
    if rows.len() == 0 {
        None
    } else {
        let f = sort_rows(OrderKey::Archive, rows)[0];
        Some((f.volume_number, f.issue_number))
    }
}

/// `a` is lexicographically at most `b`.
pub open spec fn edition_key_leq(a: (i32, i32), b: (i32, i32)) -> bool {
    a.0 < b.0 || (a.0 == b.0 && a.1 <= b.1)
}

/// The latest edition key dominates the edition of every row: the current
/// edition really is the lexicographically greatest `(volume, issue)` pair
/// present in the catalog.
pub proof fn lemma_latest_key_dominates(rows: Seq<JournalView>, m: int)
    requires
        0 <= m < rows.len(),
    ensures
        latest_key(rows) matches Some(k) && edition_key_leq(
            (rows[m].volume_number, rows[m].issue_number),
            k,
        ),
{
    broadcast use vstd::seq_lib::group_to_multiset_ensures;
    broadcast use vstd::multiset::group_multiset_axioms;

    lemma_sort_rows_props(OrderKey::Archive, rows);
    let s = sort_rows(OrderKey::Archive, rows);
    assert(rows.contains(rows[m]));
    assert(rows.to_multiset().count(rows[m]) > 0);
    assert(s.to_multiset().count(rows[m]) > 0);
    assert(s.contains(rows[m]));
    let i = choose|i: int| 0 <= i < s.len() && s[i] == rows[m];
    if i > 0 {
        assert(key_leq(OrderKey::Archive, s[0], s[i]));
    }
}

/// The two edition views partition the catalog: every row belongs to the
/// current edition or to the past issues, and to exactly one of them.
pub proof fn lemma_edition_partition(rows: Seq<JournalView>, v: i32, i: i32)
    ensures
        edition_rows(rows, v, i).len() + other_edition_rows(rows, v, i).len() == rows.len(),
        edition_rows(rows, v, i).to_multiset().add(other_edition_rows(rows, v, i).to_multiset())
            == rows.to_multiset(),
    decreases rows.len(),
{
    broadcast use vstd::seq_lib::group_to_multiset_ensures;
    broadcast use vstd::multiset::group_multiset_axioms;

    reveal(Seq::filter);
    let p = |j: JournalView| j.volume_number == v && j.issue_number == i;
    let q = |j: JournalView| !(j.volume_number == v && j.issue_number == i);
    if rows.len() == 0 {
        assert(rows.filter(p).to_multiset().add(rows.filter(q).to_multiset()) =~= rows.to_multiset());
    } else {
        lemma_edition_partition(rows.drop_last(), v, i);
        let rest = rows.drop_last();
        let x = rows.last();
        assert(rows =~= rest.push(x));
        assert(rows.to_multiset() == rest.to_multiset().insert(x));
        if p(x) {
            assert(rows.filter(p) == rest.filter(p).push(x));
            assert(rows.filter(q) == rest.filter(q));
            assert(rows.filter(p).to_multiset() == rest.filter(p).to_multiset().insert(x));
        } else {
            assert(rows.filter(p) == rest.filter(p));
            assert(rows.filter(q) == rest.filter(q).push(x));
            assert(rows.filter(q).to_multiset() == rest.filter(q).to_multiset().insert(x));
        }
        assert(rows.filter(p).to_multiset().add(rows.filter(q).to_multiset()) =~= rows.to_multiset());
    }
}

impl JournalRepository {
    /// The `(volume, issue)` key of the current edition, or `None` on an
    /// empty catalog.
    pub fn get_latest_volume_issue(&self) -> (r: Option<(i32, i32)>)
        ensures
            r == latest_key(self.rows_view()),
    {
        let rows = self.raw_rows();
        let sorted = sort_journals(OrderKey::Archive, rows);
        proof {
            lemma_sort_rows_props(OrderKey::Archive, self.rows_view());
        }
        if sorted.len() == 0 {
            None
        } else {
            let v = sorted[0].volume_number;
            let i = sorted[0].issue_number;
            proof {
                assert(sorted.deep_view()[0] == sort_rows(OrderKey::Archive, self.rows_view())[0]);
            }
            Some((v, i))
        }
    }

    /// Up to `limit` rows of the current edition, most recently published
    /// first. An empty catalog yields an empty listing, not an error.
    pub fn get_current_edition(&self, limit: usize) -> (r: Result<Vec<Journal>, SubmissionError>)
        ensures
            self.rows_view().len() == 0 ==> (r matches Ok(v) && v@.len() == 0),
            self.rows_view().len() > 0 ==> (r matches Ok(v) && (latest_key(self.rows_view())
                matches Some(k) && v.deep_view() == page_of(
                sort_rows(OrderKey::DateOnly, edition_rows(self.rows_view(), k.0, k.1)),
                limit as int,
                0,
            ))),
    {
        match self.get_latest_volume_issue() {
            Some(key) => {
                let filtered = Self::rows_of_edition(self.raw_rows(), key.0, key.1);
                let sorted = sort_journals(OrderKey::DateOnly, &filtered);
                Ok(page_journals(&sorted, limit, 0))
            },
            None => {
                Ok(Vec::new())
            },
        }
    }

    /// One page of every row outside the current edition, in the canonical
    /// archive order. An empty catalog yields an empty listing, not an error.
    pub fn get_past_issues(&self, limit: usize, offset: usize) -> (r: Result<
        Vec<Journal>,
        SubmissionError,
    >)
        ensures
            self.rows_view().len() == 0 ==> (r matches Ok(v) && v@.len() == 0),
            self.rows_view().len() > 0 ==> (r matches Ok(v) && (latest_key(self.rows_view())
                matches Some(k) && v.deep_view() == page_of(
                sort_rows(OrderKey::Archive, other_edition_rows(self.rows_view(), k.0, k.1)),
                limit as int,
                offset as int,
            ))),
    {
        match self.get_latest_volume_issue() {
            Some(key) => {
                let filtered = Self::rows_outside_edition(self.raw_rows(), key.0, key.1);
                let sorted = sort_journals(OrderKey::Archive, &filtered);
                Ok(page_journals(&sorted, limit, offset))
            },
            None => {
                Ok(Vec::new())
            },
        }
    }
}

} // verus!
