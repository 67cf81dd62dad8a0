//! Laws of the catalog: properties that relate several operations, stated
//! over the store's mathematical model and proved once for all contents.

use vstd::prelude::*;
use crate::journal::JournalView;
use crate::journal_store::{
    has_asset, has_id, idx_of_id, rows_wf, stored_row,
};
use crate::order::{page_of, sort_rows, OrderKey};

verus! {

/// Law: inserting a journal whose asset reference is free yields a
/// well-formed catalog in which that reference is now taken — so a second
/// insert with the same reference must conflict (per `save_journal`'s
/// contract) — and the first record's stored row sits unchanged at the end.
pub proof fn lemma_duplicate_asset_conflict(
    rows: Seq<JournalView>,
    next_id: i64,
    j1: JournalView,
    j2: JournalView,
    now: i64,
)
    requires
        rows_wf(rows, next_id),
        next_id < i64::MAX,
        !has_asset(rows, j1.pdf_url),
        j2.pdf_url == j1.pdf_url,
    ensures
        rows_wf(rows.push(stored_row(j1, next_id, now)), (next_id + 1) as i64),
        has_asset(rows.push(stored_row(j1, next_id, now)), j2.pdf_url),
        rows.push(stored_row(j1, next_id, now))[rows.len() as int] == stored_row(
            j1,
            next_id,
            now,
        ),
{
    let rows1 = rows.push(stored_row(j1, next_id, now));
    assert(rows1[rows.len() as int] == stored_row(j1, next_id, now));
    assert(rows1[rows.len() as int].pdf_url == j2.pdf_url);
    assert(rows_wf(rows1, (next_id + 1) as i64)) by {
        assert forall|i: int, j: int|
            0 <= i < j < rows1.len() implies (#[trigger] rows1[i]).pdf_url != (
        #[trigger] rows1[j]).pdf_url by {
            if j == rows.len() as int {
                if rows1[i].pdf_url == j1.pdf_url {
                    assert(has_asset(rows, j1.pdf_url));
                }
            }
        }
    }
}

/// Law: two consecutive pages of one ordered listing are adjacent slices —
/// together they form the double-length page at the same offset, and (under
/// the store's invariant, which makes rows pairwise distinct) they share no
/// row. Every row is covered exactly once across the pages.
pub proof fn lemma_paging_partition(
    rows: Seq<JournalView>,
    next_id: i64,
    limit: int,
    offset: int,
)
    requires
        rows_wf(rows, next_id),
        limit >= 0,
        offset >= 0,
    ensures
        page_of(sort_rows(OrderKey::Archive, rows), limit, offset) + page_of(
            sort_rows(OrderKey::Archive, rows),
            limit,
            offset + limit,
        ) == page_of(sort_rows(OrderKey::Archive, rows), 2 * limit, offset),
        forall|x: JournalView|
            !(page_of(sort_rows(OrderKey::Archive, rows), limit, offset).contains(x) && page_of(
                sort_rows(OrderKey::Archive, rows),
                limit,
                offset + limit,
            ).contains(x)),
{
    broadcast use vstd::seq_lib::group_to_multiset_ensures;
    broadcast use vstd::multiset::group_multiset_axioms;

    crate::order::lemma_sort_rows_props(OrderKey::Archive, rows);
    let s = sort_rows(OrderKey::Archive, rows);
    let p1 = page_of(s, limit, offset);
    let p2 = page_of(s, limit, offset + limit);
    let p12 = page_of(s, 2 * limit, offset);

    // Adjacent slices concatenate to the double page.
    assert(p1 + p2 =~= p12);

    // The catalog's rows are pairwise distinct: their identities differ.
    assert(rows.no_duplicates()) by {
        assert forall|i: int, j: int|
            0 <= i < rows.len() && 0 <= j < rows.len() && i != j implies rows[i] != rows[j] by {
            if i < j {
                assert(rows[i].id != rows[j].id);
            } else {
                assert(rows[j].id != rows[i].id);
            }
        }
    }
    rows.lemma_multiset_has_no_duplicates();
    assert forall|x: JournalView|
        s.to_multiset().contains(x) implies s.to_multiset().count(x) == 1 by {
        assert(rows.to_multiset().contains(x));
    }
    s.lemma_multiset_has_no_duplicates_conv();
    assert(s.no_duplicates());

    // Distinct positions hold distinct rows, so the slices are disjoint.
    assert forall|x: JournalView| !(p1.contains(x) && p2.contains(x)) by {
        if p1.contains(x) && p2.contains(x) {
            let a = choose|a: int| 0 <= a < p1.len() && p1[a] == x;
            let b = choose|b: int| 0 <= b < p2.len() && p2[b] == x;
            assert(s[offset + a] == x);
            assert(s[offset + limit + b] == x);
            assert(offset + a < offset + limit + b);
        }
    }
}

/// Law: after a row deletion the record is gone — no row carries the
/// identity any more, so a lookup of it must report `NotFound` (per
/// `get_journal_by_id`'s contract), even when the blob-removal step of the
/// delete protocol afterwards fails and the call reports the inconsistency.
pub proof fn lemma_delete_removes_row(rows: Seq<JournalView>, next_id: i64, id: i64)
    requires
        rows_wf(rows, next_id),
        has_id(rows, id),
    ensures
        !has_id(rows.remove(idx_of_id(rows, id)), id),
        rows_wf(rows.remove(idx_of_id(rows, id)), next_id),
{
    let idx = idx_of_id(rows, id);
    assert(0 <= idx < rows.len() && rows[idx].id == Some(id));
    let rest = rows.remove(idx);
    if has_id(rest, id) {
        let i = choose|i: int| 0 <= i < rest.len() && rest[i].id == Some(id);
        if i < idx {
            assert(rows[i].id == rows[idx].id);
        } else {
            assert(rows[i + 1].id == rows[idx].id);
        }
    }
}

} // verus!
