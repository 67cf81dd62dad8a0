//! The catalog store for journal rows: create, update, read, delete and the
//! canonical listings.
//!
//! The store owns the rows and two invariants: identities are store-assigned,
//! positive, unique and below the next free identity; asset references are
//! globally unique. An insert or update that would duplicate another row's
//! asset reference fails with `Conflict` and changes nothing.

use vstd::prelude::*;
use crate::dates::now_timestamp;
use crate::errors::SubmissionError;
use crate::journal::{Journal, JournalView};
use crate::order::{
    OrderKey, page_of, page_journals, row_id, sort_journals, sort_rows,
};

verus! {

/// Some row carries the identity `id`.
pub open spec fn has_id(rows: Seq<JournalView>, id: i64) -> bool {
    exists|i: int| 0 <= i < rows.len() && rows[i].id == Some(id)
}

/// The index of the row carrying `id` (unique under [`rows_wf`]).
pub open spec fn idx_of_id(rows: Seq<JournalView>, id: i64) -> int {
    choose|i: int| 0 <= i < rows.len() && rows[i].id == Some(id)
}

/// Some row stores the asset reference `asset`.
pub open spec fn has_asset(rows: Seq<JournalView>, asset: Seq<char>) -> bool {
    exists|i: int| 0 <= i < rows.len() && rows[i].pdf_url == asset
}

/// Some row other than the one identified by `id` stores `asset`.
pub open spec fn has_asset_other(rows: Seq<JournalView>, asset: Seq<char>, id: i64) -> bool {
    exists|i: int| 0 <= i < rows.len() && rows[i].pdf_url == asset && rows[i].id != Some(id)
}

/// The stored form of an incoming record: identity and creation instant are
/// assigned by the store, every other field is taken from the record.
pub open spec fn stored_row(j: JournalView, id: i64, now: i64) -> JournalView {
    JournalView {
        id: Some(id),
        title: j.title,
        authors: j.authors,
        abstract_text: j.abstract_text,
        keywords: j.keywords,
        volume_number: j.volume_number,
        issue_number: j.issue_number,
        pages: j.pages,
        publication_date: j.publication_date,
        pdf_url: j.pdf_url,
        created_at: Some(now),
    }
}

/// The stored form of an update: identity and creation instant of the
/// existing row are kept, every mutable field is replaced.
pub open spec fn updated_row(existing: JournalView, j: JournalView) -> JournalView {
    JournalView {
        id: existing.id,
        title: j.title,
        authors: j.authors,
        abstract_text: j.abstract_text,
        keywords: j.keywords,
        volume_number: j.volume_number,
        issue_number: j.issue_number,
        pages: j.pages,
        publication_date: j.publication_date,
        pdf_url: j.pdf_url,
        created_at: existing.created_at,
    }
}

/// Well-formedness of the catalog contents: every row persisted with a
/// positive identity below `next_id`, identities unique, asset references
/// unique.
pub open spec fn rows_wf(rows: Seq<JournalView>, next_id: i64) -> bool {
    &&& 1 <= next_id
    &&& forall|i: int|
        0 <= i < rows.len() ==> ((#[trigger] rows[i]).id matches Some(id) && 1 <= id < next_id)
    &&& forall|i: int, j: int|
        0 <= i < j < rows.len() ==> (#[trigger] rows[i]).id != (#[trigger] rows[j]).id
    &&& forall|i: int, j: int|
        0 <= i < j < rows.len() ==> (#[trigger] rows[i]).pdf_url != (#[trigger] rows[j]).pdf_url
}

/// Rows that can be taken over as catalog contents: persisted identities in
/// range, identities unique, asset references unique.
pub open spec fn restorable(rows: Seq<JournalView>) -> bool {
    &&& forall|i: int|
        0 <= i < rows.len() ==> ((#[trigger] rows[i]).id matches Some(id) && 1 <= id < i64::MAX)
    &&& forall|i: int, j: int|
        0 <= i < j < rows.len() ==> (#[trigger] rows[i]).id != (#[trigger] rows[j]).id
    &&& forall|i: int, j: int|
        0 <= i < j < rows.len() ==> (#[trigger] rows[i]).pdf_url != (#[trigger] rows[j]).pdf_url
}

/// The rows whose edition is exactly `(v, i)`.
pub open spec fn edition_rows(rows: Seq<JournalView>, v: i32, i: i32) -> Seq<JournalView> {
    rows.filter(|j: JournalView| j.volume_number == v && j.issue_number == i)
}

/// The rows whose edition is not `(v, i)`.
pub open spec fn other_edition_rows(rows: Seq<JournalView>, v: i32, i: i32) -> Seq<JournalView> {
    rows.filter(|j: JournalView| !(j.volume_number == v && j.issue_number == i))
}

/// The rows of volume `v`.
pub open spec fn volume_rows(rows: Seq<JournalView>, v: i32) -> Seq<JournalView> {
    rows.filter(|j: JournalView| j.volume_number == v)
}

/// The catalog store for journal rows.
pub struct JournalRepository {
    rows: Vec<Journal>,
    next_id: i64,
}

impl JournalRepository {
    /// The persisted rows, in insertion order.
    pub closed spec fn rows_view(&self) -> Seq<JournalView> {
        self.rows.deep_view()
    }

    /// The next identity the store will assign.
    pub closed spec fn next_id_spec(&self) -> i64 {
        self.next_id
    }

    /// The store's invariant.
    pub open spec fn wf(&self) -> bool {
        rows_wf(self.rows_view(), self.next_id_spec())
    }

    /// An empty catalog; identities start at 1.
    pub fn new() -> (r: Self)
        ensures
            r.wf(),
            r.rows_view() == Seq::<JournalView>::empty(),
            r.next_id_spec() == 1,
    {
        let r = JournalRepository { rows: Vec::new(), next_id: 1 };
        proof {
            assert(r.rows_view() =~= Seq::<JournalView>::empty());
        }
        r
    }

    /// Whether the store can still assign a fresh identity; callers check
    /// this before an insert.
    pub fn can_assign_identity(&self) -> (r: bool)
        ensures
            r == (self.next_id_spec() < i64::MAX),
    {
        self.next_id < i64::MAX
    }

    /// Takes previously persisted rows over as the catalog contents,
    /// re-checking the invariants; `None` exactly when they do not hold.
    /// The next identity continues above the highest one present.
    pub fn restore(rows: Vec<Journal>) -> (r: Option<JournalRepository>)
        ensures
            restorable(rows.deep_view()) <==> r is Some,
            r matches Some(repo) ==> repo.wf() && repo.rows_view() == rows.deep_view(),
    {
        let ghost rv = rows.deep_view();
        let mut max_id: i64 = 0;
        let mut n: usize = 0;
        while n < rows.len()
            invariant
                n <= rows.len(),
                rv == rows.deep_view(),
                0 <= max_id < i64::MAX,
                forall|i: int|
                    0 <= i < n ==> ((#[trigger] rv[i]).id matches Some(id) && 1 <= id < i64::MAX),
                forall|i: int| 0 <= i < n ==> row_id(rv[i]) <= max_id,
                forall|i: int, j: int|
                    0 <= i < j < n ==> (#[trigger] rv[i]).id != (#[trigger] rv[j]).id,
                forall|i: int, j: int|
                    0 <= i < j < n ==> (#[trigger] rv[i]).pdf_url != (#[trigger] rv[j]).pdf_url,
            decreases rows.len() - n,
        {
            let id = match rows[n].id {
                Some(id) => id,
                None => {
                    return None;
                },
            };
            if id < 1 || id == i64::MAX {
                return None;
            }
            let mut m: usize = 0;
            while m < n
                invariant
                    m <= n < rows.len(),
                    rv == rows.deep_view(),
                    rv[n as int].id == Some(id),
                    forall|i: int|
                        0 <= i < m ==> (#[trigger] rv[i]).id != rv[n as int].id,
                    forall|i: int|
                        0 <= i < m ==> (#[trigger] rv[i]).pdf_url != rv[n as int].pdf_url,
                decreases n - m,
            {
                let same_id = match rows[m].id {
                    Some(other) => other == id,
                    None => false,
                };
                if same_id || rows[m].pdf_url == rows[n].pdf_url {
                    proof {
                        if restorable(rv) {
                            assert((rv[m as int]).id != (rv[n as int]).id);
                            assert((rv[m as int]).pdf_url != (rv[n as int]).pdf_url);
                        }
                    }
                    return None;
                }
                m = m + 1;
            }
            if id > max_id {
                max_id = id;
            }
            n = n + 1;
        }
        let repo = JournalRepository { rows, next_id: max_id + 1 };
        proof {
            assert forall|i: int|
                0 <= i < repo.rows_view().len() implies ((#[trigger] repo.rows_view()[i]).id
                matches Some(id) && 1 <= id < max_id + 1) by {
                assert(row_id(rv[i]) <= max_id);
            }
            assert(rows_wf(repo.rows_view(), repo.next_id_spec()));
        }
        Some(repo)
    }

    /// Inserts a record: assigns the next identity and the current instant,
    /// and appends the stored row. Fails with `Conflict`, changing nothing,
    /// exactly when another row already stores the same asset reference.
    pub fn save_journal(&mut self, journal: &Journal) -> (r: Result<i64, SubmissionError>)
        requires
            old(self).wf(),
            old(self).next_id_spec() < i64::MAX,
        ensures
            final(self).wf(),
            has_asset(old(self).rows_view(), journal.pdf_url@) ==> {
                &&& r matches Err(SubmissionError::Conflict(_))
                &&& final(self).rows_view() == old(self).rows_view()
                &&& final(self).next_id_spec() == old(self).next_id_spec()
            },
            !has_asset(old(self).rows_view(), journal.pdf_url@) ==> {
                &&& r matches Ok(id) && id == old(self).next_id_spec()
                &&& (exists|now: i64|
                    final(self).rows_view() == old(self).rows_view().push(
                        stored_row(journal.deep_view(), old(self).next_id_spec(), now),
                    ))
                &&& final(self).next_id_spec() == old(self).next_id_spec() + 1
            },
    {
        if Self::asset_taken(&self.rows, &journal.pdf_url, None) {
            return Err(
                SubmissionError::Conflict(
                    String::from_str("A journal with the same PDF filename already exists."),
                ),
            );
        }
        let id = self.next_id;
        let now = now_timestamp();
        let row = Journal {
            id: Some(id),
            title: journal.title.clone(),
            authors: journal.authors.clone(),
            abstract_text: journal.abstract_text.clone(),
            keywords: journal.keywords.clone(),
            volume_number: journal.volume_number,
            issue_number: journal.issue_number,
            pages: journal.pages.clone(),
            publication_date: journal.publication_date,
            pdf_url: journal.pdf_url.clone(),
            created_at: Some(now),
        };
        let ghost before = self.rows.deep_view();
        proof {
            assert(self.rows@.len() == before.len());
            assert(row.deep_view() =~= stored_row(journal.deep_view(), id, now));
        }
        self.rows.push(row);
        self.next_id = id + 1;
        proof {
            let rv = self.rows.deep_view();
            assert(rv.len() == before.len() + 1);
            assert forall|m: int| 0 <= m < before.len() implies rv[m] == before[m] by {}
            assert(rv[before.len() as int] == stored_row(journal.deep_view(), id, now));
            assert(rv =~= before.push(stored_row(journal.deep_view(), id, now)));
            assert forall|i: int|
                0 <= i < rv.len() implies (#[trigger] rv[i]).id matches Some(x) && 1 <= x
                < self.next_id by {}
            assert(rows_wf(rv, self.next_id_spec()));
        }
        Ok(id)
    }

    /// Replaces every mutable field of the row identified by the record's
    /// own `id`, keeping the stored identity and creation instant. Fails
    /// with `ValidationError` when the record has no identity, `NotFound`
    /// when no row carries it, and `Conflict` when a different row already
    /// stores the new asset reference; nothing changes on failure.
    pub fn update_journal(&mut self, journal: &Journal) -> (r: Result<(), SubmissionError>)
        requires
            old(self).wf(),
        ensures
            final(self).wf(),
            final(self).next_id_spec() == old(self).next_id_spec(),
            journal.id is None ==> (r matches Err(SubmissionError::ValidationError(_))
                && final(self).rows_view() == old(self).rows_view()),
            journal.id matches Some(id) ==> {
                &&& !has_id(old(self).rows_view(), id) ==> (r matches Err(
                    SubmissionError::NotFound(_),
                ) && final(self).rows_view() == old(self).rows_view())
                &&& has_id(old(self).rows_view(), id) && has_asset_other(
                    old(self).rows_view(),
                    journal.pdf_url@,
                    id,
                ) ==> (r matches Err(SubmissionError::Conflict(_)) && final(self).rows_view()
                    == old(self).rows_view())
                &&& has_id(old(self).rows_view(), id) && !has_asset_other(
                    old(self).rows_view(),
                    journal.pdf_url@,
                    id,
                ) ==> (r matches Ok(_) && final(self).rows_view() == old(self).rows_view().update(
                    idx_of_id(old(self).rows_view(), id),
                    updated_row(
                        old(self).rows_view()[idx_of_id(old(self).rows_view(), id)],
                        journal.deep_view(),
                    ),
                ))
            },
    {
        let id = match journal.id {
            Some(id) => id,
            None => {
                return Err(
                    SubmissionError::ValidationError(
                        String::from_str("Cannot update journal without ID"),
                    ),
                );
            },
        };
        let idx = match Self::find_by_id(&self.rows, id) {
            Some(idx) => idx,
            None => {
                return Err(
                    SubmissionError::NotFound(String::from_str("Journal not found for update")),
                );
            },
        };
        proof {
            lemma_found_is_idx_of_id(self.rows.deep_view(), id, idx as int);
        }
        if Self::asset_taken(&self.rows, &journal.pdf_url, Some(id)) {
            return Err(
                SubmissionError::Conflict(
                    String::from_str("A journal with the same PDF filename already exists."),
                ),
            );
        }
        let existing_created = self.rows[idx].created_at;
        let row = Journal {
            id: Some(id),
            title: journal.title.clone(),
            authors: journal.authors.clone(),
            abstract_text: journal.abstract_text.clone(),
            keywords: journal.keywords.clone(),
            volume_number: journal.volume_number,
            issue_number: journal.issue_number,
            pages: journal.pages.clone(),
            publication_date: journal.publication_date,
            pdf_url: journal.pdf_url.clone(),
            created_at: existing_created,
        };
        let ghost before = self.rows.deep_view();
        proof {
            assert(self.rows@.len() == before.len());
            assert(row.deep_view() =~= updated_row(before[idx as int], journal.deep_view()));
        }
        self.rows.set(idx, row);
        proof {
            let rv = self.rows.deep_view();
            assert(rv.len() == before.len());
            assert forall|m: int| 0 <= m < rv.len() && m != idx implies rv[m] == before[m] by {}
            assert(rv[idx as int] == updated_row(before[idx as int], journal.deep_view()));
            assert(rv =~= before.update(
                idx as int,
                updated_row(before[idx as int], journal.deep_view()),
            ));
            assert forall|i: int, j: int|
                0 <= i < j < rv.len() implies (#[trigger] rv[i]).pdf_url != (
            #[trigger] rv[j]).pdf_url by {
                if i == idx as int || j == idx as int {
                }
            }
            assert(rows_wf(rv, self.next_id_spec()));
        }
        Ok(())
    }

    /// Returns a copy of the row carrying `id`, or `NotFound`.
    pub fn get_journal_by_id(&self, id: i64) -> (r: Result<Journal, SubmissionError>)
        requires
            self.wf(),
        ensures
            has_id(self.rows_view(), id) ==> (r matches Ok(j) && j.deep_view() == self.rows_view()[
                idx_of_id(self.rows_view(), id)
            ]),
            !has_id(self.rows_view(), id) ==> r matches Err(SubmissionError::NotFound(_)),
    {
        match Self::find_by_id(&self.rows, id) {
            Some(idx) => {
                proof {
                    lemma_found_is_idx_of_id(self.rows.deep_view(), id, idx as int);
                }
                Ok(self.rows[idx].clone())
            },
            None => Err(SubmissionError::NotFound(String::from_str("Journal not found"))),
        }
    }

    /// Removes the row carrying `id` and returns its asset reference, so
    /// that the caller can run the blob-deletion step of the lifecycle
    /// protocol. Fails with `NotFound`, changing nothing, when no row
    /// carries `id`. The blob itself is never touched here.
    pub fn delete_journal_by_id(&mut self, id: i64) -> (r: Result<String, SubmissionError>)
        requires
            old(self).wf(),
        ensures
            final(self).wf(),
            final(self).next_id_spec() == old(self).next_id_spec(),
            !has_id(old(self).rows_view(), id) ==> (r matches Err(SubmissionError::NotFound(_))
                && final(self).rows_view() == old(self).rows_view()),
            has_id(old(self).rows_view(), id) ==> {
                &&& r matches Ok(a) && a@ == old(self).rows_view()[idx_of_id(
                    old(self).rows_view(),
                    id,
                )].pdf_url
                &&& final(self).rows_view() == old(self).rows_view().remove(
                    idx_of_id(old(self).rows_view(), id),
                )
                &&& !has_id(final(self).rows_view(), id)
            },
    {
        let idx = match Self::find_by_id(&self.rows, id) {
            Some(idx) => idx,
            None => {
                return Err(SubmissionError::NotFound(String::from_str("Journal not found")));
            },
        };
        proof {
            lemma_found_is_idx_of_id(self.rows.deep_view(), id, idx as int);
        }
        let ghost before = self.rows.deep_view();
        proof {
            assert(self.rows@.len() == before.len());
        }
        let removed = self.rows.remove(idx);
        proof {
            let rv = self.rows.deep_view();
            assert(rv.len() == before.len() - 1);
            assert forall|m: int| 0 <= m < rv.len() implies rv[m] == before.remove(idx as int)[m]
                by {}
            assert(rv =~= before.remove(idx as int));
            assert(rows_wf(rv, self.next_id_spec()));
            if has_id(rv, id) {
                let i = choose|i: int| 0 <= i < rv.len() && rv[i].id == Some(id);
                if i < idx as int {
                    assert(before[i].id == before[idx as int].id);
                } else {
                    assert(before[i + 1].id == before[idx as int].id);
                }
            }
        }
        Ok(removed.pdf_url)
    }

    /// One page of the archive listing: all rows in the canonical archive
    /// order `(volume DESC, issue DESC, publication date DESC)`.
    pub fn get_all_journals(&self, limit: usize, offset: usize) -> (r: Result<
        Vec<Journal>,
        SubmissionError,
    >)
        ensures
            r matches Ok(v) && v.deep_view() == page_of(
                sort_rows(OrderKey::Archive, self.rows_view()),
                limit as int,
                offset as int,
            ),
    {
        let sorted = sort_journals(OrderKey::Archive, &self.rows);
        Ok(page_journals(&sorted, limit, offset))
    }

    /// The complete catalog in the canonical archive order, for the archive
    /// grouping built by the view layer.
    pub fn get_all_journals_for_archive(&self) -> (r: Result<Vec<Journal>, SubmissionError>)
        ensures
            r matches Ok(v) && v.deep_view() == sort_rows(OrderKey::Archive, self.rows_view()),
    {
        Ok(sort_journals(OrderKey::Archive, &self.rows))
    }

    /// The `limit` most recently published rows, ignoring volume and issue.
    pub fn get_latest_journals(&self, limit: usize) -> (r: Result<Vec<Journal>, SubmissionError>)
        ensures
            r matches Ok(v) && v.deep_view() == page_of(
                sort_rows(OrderKey::DateOnly, self.rows_view()),
                limit as int,
                0,
            ),
    {
        let sorted = sort_journals(OrderKey::DateOnly, &self.rows);
        Ok(page_journals(&sorted, limit, 0))
    }

    /// One page of a volume/issue selection: for an exact pair, ordered by
    /// publication date; for a volume alone, ordered by issue then date.
    pub fn get_journals_by_volume_issue(
        &self,
        volume: i32,
        issue: Option<i32>,
        limit: usize,
        offset: usize,
    ) -> (r: Result<Vec<Journal>, SubmissionError>)
        ensures
            issue matches Some(iss) ==> (r matches Ok(v) && v.deep_view() == page_of(
                sort_rows(OrderKey::DateOnly, edition_rows(self.rows_view(), volume, iss)),
                limit as int,
                offset as int,
            )),
            issue is None ==> (r matches Ok(v) && v.deep_view() == page_of(
                sort_rows(OrderKey::IssueDate, volume_rows(self.rows_view(), volume)),
                limit as int,
                offset as int,
            )),
    {
        match issue {
            Some(iss) => {
                let filtered = Self::rows_of_edition(&self.rows, volume, iss);
                let sorted = sort_journals(OrderKey::DateOnly, &filtered);
                Ok(page_journals(&sorted, limit, offset))
            },
            None => {
                let filtered = Self::rows_of_volume(&self.rows, volume);
                let sorted = sort_journals(OrderKey::IssueDate, &filtered);
                Ok(page_journals(&sorted, limit, offset))
            },
        }
    }

    /// Copies of the rows whose edition is exactly `(v, i)`.
    pub(crate) fn rows_of_edition(rows: &Vec<Journal>, v: i32, i: i32) -> (r: Vec<Journal>)
        ensures
            r.deep_view() == edition_rows(rows.deep_view(), v, i),
    {
        let mut out: Vec<Journal> = Vec::new();
        let mut n: usize = 0;
        proof {
            reveal(Seq::filter);
            assert(out.deep_view() =~= rows.deep_view().take(0).filter(
                |jv: JournalView| jv.volume_number == v && jv.issue_number == i,
            ));
        }
        while n < rows.len()
            invariant
                n <= rows.len(),
                out.deep_view() == rows.deep_view().take(n as int).filter(
                    |jv: JournalView| jv.volume_number == v && jv.issue_number == i,
                ),
            decreases rows.len() - n,
        {
            let ghost before = out.deep_view();
            proof {
                assert(out@.len() == before.len());
            }
            if rows[n].volume_number == v && rows[n].issue_number == i {
                out.push(rows[n].clone());
            }
            proof {
                reveal(Seq::filter);
                let rv = rows.deep_view();
                let p = |jv: JournalView| jv.volume_number == v && jv.issue_number == i;
                assert(rv.take(n + 1).drop_last() =~= rv.take(n as int));
                assert(rv.take(n + 1).last() == rv[n as int]);
                if p(rv[n as int]) {
                    let x = rv[n as int];
                    assert(out.deep_view().len() == before.len() + 1);
                    assert forall|m: int| 0 <= m < before.len() implies out.deep_view()[m]
                        == before[m] by {}
                    assert(out.deep_view()[before.len() as int] == x);
                    assert(out.deep_view() =~= before.push(x));
                    assert(rv.take(n + 1).filter(p) == rv.take(n as int).filter(p).push(x));
                } else {
                    assert(rv.take(n + 1).filter(p) == rv.take(n as int).filter(p));
                }
            }
            n = n + 1;
        }
        proof {
            assert(rows.deep_view().take(rows.len() as int) =~= rows.deep_view());
        }
        out
    }

    /// Copies of the rows whose edition is not `(v, i)`.
    pub(crate) fn rows_outside_edition(rows: &Vec<Journal>, v: i32, i: i32) -> (r: Vec<Journal>)
        ensures
            r.deep_view() == other_edition_rows(rows.deep_view(), v, i),
    {
        let mut out: Vec<Journal> = Vec::new();
        let mut n: usize = 0;
        proof {
            reveal(Seq::filter);
            assert(out.deep_view() =~= rows.deep_view().take(0).filter(
                |jv: JournalView| !(jv.volume_number == v && jv.issue_number == i),
            ));
        }
        while n < rows.len()
            invariant
                n <= rows.len(),
                out.deep_view() == rows.deep_view().take(n as int).filter(
                    |jv: JournalView| !(jv.volume_number == v && jv.issue_number == i),
                ),
            decreases rows.len() - n,
        {
            let ghost before = out.deep_view();
            proof {
                assert(out@.len() == before.len());
            }
            if !(rows[n].volume_number == v && rows[n].issue_number == i) {
                out.push(rows[n].clone());
            }
            proof {
                reveal(Seq::filter);
                let rv = rows.deep_view();
                let p = |jv: JournalView| !(jv.volume_number == v && jv.issue_number == i);
                assert(rv.take(n + 1).drop_last() =~= rv.take(n as int));
                assert(rv.take(n + 1).last() == rv[n as int]);
                if p(rv[n as int]) {
                    let x = rv[n as int];
                    assert(out.deep_view().len() == before.len() + 1);
                    assert forall|m: int| 0 <= m < before.len() implies out.deep_view()[m]
                        == before[m] by {}
                    assert(out.deep_view()[before.len() as int] == x);
                    assert(out.deep_view() =~= before.push(x));
                    assert(rv.take(n + 1).filter(p) == rv.take(n as int).filter(p).push(x));
                } else {
                    assert(rv.take(n + 1).filter(p) == rv.take(n as int).filter(p));
                }
            }
            n = n + 1;
        }
        proof {
            assert(rows.deep_view().take(rows.len() as int) =~= rows.deep_view());
        }
        out
    }

    /// Copies of the rows of volume `v`.
    pub(crate) fn rows_of_volume(rows: &Vec<Journal>, v: i32) -> (r: Vec<Journal>)
        ensures
            r.deep_view() == volume_rows(rows.deep_view(), v),
    {
        let mut out: Vec<Journal> = Vec::new();
        let mut n: usize = 0;
        proof {
            reveal(Seq::filter);
            assert(out.deep_view() =~= rows.deep_view().take(0).filter(
                |jv: JournalView| jv.volume_number == v,
            ));
        }
        while n < rows.len()
            invariant
                n <= rows.len(),
                out.deep_view() == rows.deep_view().take(n as int).filter(
                    |jv: JournalView| jv.volume_number == v,
                ),
            decreases rows.len() - n,
        {
            let ghost before = out.deep_view();
            proof {
                assert(out@.len() == before.len());
            }
            if rows[n].volume_number == v {
                out.push(rows[n].clone());
            }
            proof {
                reveal(Seq::filter);
                let rv = rows.deep_view();
                let p = |jv: JournalView| jv.volume_number == v;
                assert(rv.take(n + 1).drop_last() =~= rv.take(n as int));
                assert(rv.take(n + 1).last() == rv[n as int]);
                if p(rv[n as int]) {
                    let x = rv[n as int];
                    assert(out.deep_view().len() == before.len() + 1);
                    assert forall|m: int| 0 <= m < before.len() implies out.deep_view()[m]
                        == before[m] by {}
                    assert(out.deep_view()[before.len() as int] == x);
                    assert(out.deep_view() =~= before.push(x));
                    assert(rv.take(n + 1).filter(p) == rv.take(n as int).filter(p).push(x));
                } else {
                    assert(rv.take(n + 1).filter(p) == rv.take(n as int).filter(p));
                }
            }
            n = n + 1;
        }
        proof {
            assert(rows.deep_view().take(rows.len() as int) =~= rows.deep_view());
        }
        out
    }

    /// Access to the raw rows for sibling components of the store.
    pub(crate) fn raw_rows(&self) -> (r: &Vec<Journal>)
        ensures
            r.deep_view() == self.rows_view(),
    {
        &self.rows
    }

    /// Whether some row (other than `excluding`, when given) stores `asset`.
    fn asset_taken(rows: &Vec<Journal>, asset: &String, excluding: Option<i64>) -> (r: bool)
        ensures
            r == match excluding {
                None => has_asset(rows.deep_view(), asset@),
                Some(id) => has_asset_other(rows.deep_view(), asset@, id),
            },
    {
        let mut n: usize = 0;
        while n < rows.len()
            invariant
                n <= rows.len(),
                forall|m: int|
                    0 <= m < n ==> !((#[trigger] rows.deep_view()[m]).pdf_url == asset@
                        && match excluding {
                            None => true,
                            Some(id) => rows.deep_view()[m].id != Some(id),
                        }),
            decreases rows.len() - n,
        {
            if rows[n].pdf_url == *asset {
                match excluding {
                    None => {
                        proof {
                            assert(rows.deep_view()[n as int].pdf_url == asset@);
                        }
                        return true;
                    },
                    Some(id) => {
                        let differs = match rows[n].id {
                            Some(rid) => rid != id,
                            None => true,
                        };
                        if differs {
                            proof {
                                assert(rows.deep_view()[n as int].pdf_url == asset@);
                                assert(rows.deep_view()[n as int].id != Some(id));
                            }
                            return true;
                        }
                    },
                }
            }
            n = n + 1;
        }
        false
    }

    /// The position of the first row carrying `id`.
    fn find_by_id(rows: &Vec<Journal>, id: i64) -> (r: Option<usize>)
        ensures
            match r {
                Some(i) => i < rows@.len() && rows.deep_view()[i as int].id == Some(id),
                None => !has_id(rows.deep_view(), id),
            },
    {
        let mut n: usize = 0;
        while n < rows.len()
            invariant
                n <= rows.len(),
                forall|m: int| 0 <= m < n ==> (#[trigger] rows.deep_view()[m]).id != Some(id),
            decreases rows.len() - n,
        {
            let found = match rows[n].id {
                Some(rid) => rid == id,
                None => false,
            };
            if found {
                return Some(n);
            }
            n = n + 1;
        }
        None
    }
}

/// Under unique identities the found index is the chosen one.
pub proof fn lemma_found_is_idx_of_id(rows: Seq<JournalView>, id: i64, i: int)
    requires
        forall|a: int, b: int|
            0 <= a < b < rows.len() ==> (#[trigger] rows[a]).id != (#[trigger] rows[b]).id,
        0 <= i < rows.len(),
        rows[i].id == Some(id),
    ensures
        has_id(rows, id),
        idx_of_id(rows, id) == i,
{
    assert(has_id(rows, id));
    let c = idx_of_id(rows, id);
    assert(0 <= c < rows.len() && rows[c].id == Some(id));
    if c != i {
        if c < i {
            assert(rows[c].id != rows[i].id);
        } else {
            assert(rows[i].id != rows[c].id);
        }
    }
}

} // verus!
