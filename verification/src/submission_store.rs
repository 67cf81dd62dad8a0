//! The append-only intake log for submissions: records are created once,
//! never updated or deleted, and listed most recently created first.

use vstd::prelude::*;
use crate::dates::now_timestamp;
use crate::errors::SubmissionError;
use crate::submission::{Submission, SubmissionView};

verus! {

/// The creation instant used for ordering (records without one sort last).
pub open spec fn sub_created(s: SubmissionView) -> i64 {
    match s.created_at {
        Some(t) => t,
        None => i64::MIN,
    }
}

/// The store identity used as the tie-break (0 before first persist).
pub open spec fn sub_id(s: SubmissionView) -> i64 {
    match s.id {
        Some(i) => i,
        None => 0,
    }
}

/// `a` sorts no later than `b`: created most recently first, ties broken by
/// descending identity.
pub open spec fn sub_leq(a: SubmissionView, b: SubmissionView) -> bool {
    if sub_created(a) != sub_created(b) {
        sub_created(a) > sub_created(b)
    } else {
        sub_id(a) >= sub_id(b)
    }
}

/// The sequence is sorted most recently created first.
pub open spec fn sub_ordered(s: Seq<SubmissionView>) -> bool {
    forall|i: int, j: int| 0 <= i < j < s.len() ==> sub_leq(s[i], s[j])
}

/// `x` placed at its first admissible position in `s`.
pub open spec fn sub_insert_ordered(x: SubmissionView, s: Seq<SubmissionView>) -> Seq<
    SubmissionView,
>
    decreases s.len(),
{
    if s.len() == 0 {
        seq![x]
    } else if sub_leq(x, s[0]) {
        seq![x] + s
    } else {
        seq![s[0]] + sub_insert_ordered(x, s.drop_first())
    }
}

/// The records of `s`, sorted most recently created first.
pub open spec fn sort_submissions_spec(s: Seq<SubmissionView>) -> Seq<SubmissionView>
    decreases s.len(),
{
    if s.len() == 0 {
        s
    } else {
        sub_insert_ordered(s.last(), sort_submissions_spec(s.drop_last()))
    }
}

/// One page from the front of `s`.
pub open spec fn sub_page_of(s: Seq<SubmissionView>, limit: int) -> Seq<SubmissionView> {
    if limit >= s.len() {
        s
    } else {
        s.subrange(0, limit)
    }
}

/// Where the position scan stops is where [`sub_insert_ordered`] places `x`.
proof fn lemma_sub_insert_ordered_at(x: SubmissionView, s: Seq<SubmissionView>, p: int)
    requires
        0 <= p <= s.len(),
        forall|m: int| 0 <= m < p ==> !sub_leq(x, #[trigger] s[m]),
        p < s.len() ==> sub_leq(x, s[p]),
    ensures
        sub_insert_ordered(x, s) == s.subrange(0, p) + seq![x] + s.subrange(p, s.len() as int),
    decreases s.len(),
{
    if s.len() == 0 {
        assert(sub_insert_ordered(x, s) =~= s.subrange(0, p) + seq![x] + s.subrange(
            p,
            s.len() as int,
        ));
    } else if p == 0 {
        assert(sub_leq(x, s[0]));
        assert(sub_insert_ordered(x, s) =~= s.subrange(0, p) + seq![x] + s.subrange(
            p,
            s.len() as int,
        ));
    } else {
        assert(!sub_leq(x, s[0]));
        lemma_sub_insert_ordered_at(x, s.drop_first(), p - 1);
        assert(seq![s[0]] + (s.drop_first().subrange(0, p - 1) + seq![x]
            + s.drop_first().subrange(p - 1, s.len() - 1)) =~= s.subrange(0, p) + seq![x]
            + s.subrange(p, s.len() as int));
    }
}

/// Sorting preserves the contents.
pub proof fn lemma_sub_insert_ordered_multiset(x: SubmissionView, s: Seq<SubmissionView>)
    ensures
        sub_insert_ordered(x, s).len() == s.len() + 1,
        sub_insert_ordered(x, s).to_multiset() == s.to_multiset().insert(x),
    decreases s.len(),
{
    broadcast use vstd::seq_lib::group_seq_properties;
    broadcast use vstd::multiset::group_multiset_axioms;

    if s.len() == 0 {
        assert(seq![x] =~= Seq::<SubmissionView>::empty().push(x));
        assert(seq![x].to_multiset() =~= s.to_multiset().insert(x));
    } else if sub_leq(x, s[0]) {
        vstd::seq_lib::lemma_multiset_commutative(seq![x], s);
        assert(seq![x].to_multiset() =~= vstd::multiset::Multiset::<
            SubmissionView,
        >::empty().insert(x));
        assert((seq![x] + s).to_multiset() =~= s.to_multiset().insert(x));
    } else {
        lemma_sub_insert_ordered_multiset(x, s.drop_first());
        let rest = sub_insert_ordered(x, s.drop_first());
        vstd::seq_lib::lemma_multiset_commutative(seq![s[0]], rest);
        assert(seq![s[0]].to_multiset() =~= vstd::multiset::Multiset::<
            SubmissionView,
        >::empty().insert(s[0]));
        assert(s =~= seq![s[0]] + s.drop_first());
        vstd::seq_lib::lemma_multiset_commutative(seq![s[0]], s.drop_first());
        assert((seq![s[0]] + rest).to_multiset() =~= s.to_multiset().insert(x));
    }
}

/// Inserting into a sorted sequence keeps it sorted.
pub proof fn lemma_sub_insert_ordered_sorted(x: SubmissionView, s: Seq<SubmissionView>)
    requires
        sub_ordered(s),
    ensures
        sub_ordered(sub_insert_ordered(x, s)),
    decreases s.len(),
{
    broadcast use vstd::seq_lib::group_to_multiset_ensures;
    broadcast use vstd::multiset::group_multiset_axioms;

    if s.len() == 0 {
    } else if sub_leq(x, s[0]) {
        let r = seq![x] + s;
        assert forall|i: int, j: int| 0 <= i < j < r.len() implies sub_leq(r[i], r[j]) by {
            if i == 0 && j > 1 {
                assert(sub_leq(s[0], s[j - 1]));
            }
        }
    } else {
        assert(sub_ordered(s.drop_first()));
        lemma_sub_insert_ordered_sorted(x, s.drop_first());
        lemma_sub_insert_ordered_multiset(x, s.drop_first());
        let tail = sub_insert_ordered(x, s.drop_first());
        let r = seq![s[0]] + tail;
        assert forall|i: int, j: int| 0 <= i < j < r.len() implies sub_leq(r[i], r[j]) by {
            if i == 0 {
                assert(tail.contains(tail[j - 1])) by {
                    assert(tail[j - 1] == tail[j - 1]);
                }
                assert(tail.to_multiset().count(tail[j - 1]) > 0);
                if tail[j - 1] == x {
                } else {
                    assert(s.drop_first().to_multiset().count(tail[j - 1]) > 0);
                    assert(s.drop_first().contains(tail[j - 1]));
                    let m = choose|m: int|
                        0 <= m < s.drop_first().len() && s.drop_first()[m] == tail[j - 1];
                    assert(sub_leq(s[0], s[m + 1]));
                }
            }
        }
    }
}

/// The sorted records: same contents, most recently created first.
pub proof fn lemma_sort_submissions_props(s: Seq<SubmissionView>)
    ensures
        sort_submissions_spec(s).len() == s.len(),
        sort_submissions_spec(s).to_multiset() == s.to_multiset(),
        sub_ordered(sort_submissions_spec(s)),
    decreases s.len(),
{
    broadcast use vstd::seq_lib::group_seq_properties;

    if s.len() == 0 {
    } else {
        lemma_sort_submissions_props(s.drop_last());
        lemma_sub_insert_ordered_multiset(s.last(), sort_submissions_spec(s.drop_last()));
        lemma_sub_insert_ordered_sorted(s.last(), sort_submissions_spec(s.drop_last()));
        assert(s.drop_last().to_multiset().insert(s.last()) =~= s.to_multiset()) by {
            assert(s =~= s.drop_last().push(s.last()));
        }
    }
}

/// Some record carries the identity `id`.
pub open spec fn sub_has_id(rows: Seq<SubmissionView>, id: i64) -> bool {
    exists|i: int| 0 <= i < rows.len() && rows[i].id == Some(id)
}

/// The index of the record carrying `id` (unique under the invariant).
pub open spec fn sub_idx_of_id(rows: Seq<SubmissionView>, id: i64) -> int {
    choose|i: int| 0 <= i < rows.len() && rows[i].id == Some(id)
}

/// The stored form of an incoming submission: identity and creation instant
/// are assigned by the store.
pub open spec fn stored_submission(s: SubmissionView, id: i64, now: i64) -> SubmissionView {
    SubmissionView {
        id: Some(id),
        full_name: s.full_name,
        email: s.email,
        phone: s.phone,
        title: s.title,
        abstract_text: s.abstract_text,
        pdf_url: s.pdf_url,
        created_at: Some(now),
    }
}

/// Records that can be taken over as the intake log: persisted identities
/// in range and unique.
pub open spec fn sub_restorable(rows: Seq<SubmissionView>) -> bool {
    &&& forall|i: int|
        0 <= i < rows.len() ==> ((#[trigger] rows[i]).id matches Some(id) && 1 <= id < i64::MAX)
    &&& forall|i: int, j: int|
        0 <= i < j < rows.len() ==> (#[trigger] rows[i]).id != (#[trigger] rows[j]).id
}

/// Well-formedness of the intake log.
pub open spec fn sub_rows_wf(rows: Seq<SubmissionView>, next_id: i64) -> bool {
    &&& 1 <= next_id
    &&& forall|i: int|
        0 <= i < rows.len() ==> ((#[trigger] rows[i]).id matches Some(id) && 1 <= id < next_id)
    &&& forall|i: int, j: int|
        0 <= i < j < rows.len() ==> (#[trigger] rows[i]).id != (#[trigger] rows[j]).id
}

/// The append-only intake log.
pub struct SubmissionRepository {
    rows: Vec<Submission>,
    next_id: i64,
}

impl SubmissionRepository {
    /// The persisted records, in insertion order.
    pub closed spec fn rows_view(&self) -> Seq<SubmissionView> {
        self.rows.deep_view()
    }

    /// The next identity the store will assign.
    pub closed spec fn next_id_spec(&self) -> i64 {
        self.next_id
    }

    /// The store's invariant.
    pub open spec fn wf(&self) -> bool {
        sub_rows_wf(self.rows_view(), self.next_id_spec())
    }

    /// An empty intake log; identities start at 1.
    pub fn new() -> (r: Self)
        ensures
            r.wf(),
            r.rows_view() == Seq::<SubmissionView>::empty(),
            r.next_id_spec() == 1,
    {
        let r = SubmissionRepository { rows: Vec::new(), next_id: 1 };
        proof {
            assert(r.rows_view() =~= Seq::<SubmissionView>::empty());
        }
        r
    }

    /// Whether the store can still assign a fresh identity; callers check
    /// this before an insert.
    pub fn can_assign_identity(&self) -> (r: bool)
        ensures
            r == (self.next_id_spec() < i64::MAX),
    {
        self.next_id < i64::MAX
    }

    /// Takes previously persisted records over as the intake log,
    /// re-checking the invariants; `None` exactly when they do not hold.
    /// The next identity continues above the highest one present.
    pub fn restore(rows: Vec<Submission>) -> (r: Option<SubmissionRepository>)
        ensures
            sub_restorable(rows.deep_view()) <==> r is Some,
            r matches Some(repo) ==> repo.wf() && repo.rows_view() == rows.deep_view(),
    {
        let ghost rv = rows.deep_view();
        let mut max_id: i64 = 0;
        let mut n: usize = 0;
        while n < rows.len()
            invariant
                n <= rows.len(),
                rv == rows.deep_view(),
                0 <= max_id < i64::MAX,
                forall|i: int|
                    0 <= i < n ==> ((#[trigger] rv[i]).id matches Some(id) && 1 <= id < i64::MAX),
                forall|i: int| 0 <= i < n ==> sub_id(rv[i]) <= max_id,
                forall|i: int, j: int|
                    0 <= i < j < n ==> (#[trigger] rv[i]).id != (#[trigger] rv[j]).id,
            decreases rows.len() - n,
        {
            let id = match rows[n].id {
                Some(id) => id,
                None => {
                    return None;
                },
            };
            if id < 1 || id == i64::MAX {
                return None;
            }
            let mut m: usize = 0;
            while m < n
                invariant
                    m <= n < rows.len(),
                    rv == rows.deep_view(),
                    rv[n as int].id == Some(id),
                    forall|i: int| 0 <= i < m ==> (#[trigger] rv[i]).id != rv[n as int].id,
                decreases n - m,
            {
                let same_id = match rows[m].id {
                    Some(other) => other == id,
                    None => false,
                };
                if same_id {
                    proof {
                        if sub_restorable(rv) {
                            assert((rv[m as int]).id != (rv[n as int]).id);
                        }
                    }
                    return None;
                }
                m = m + 1;
            }
            if id > max_id {
                max_id = id;
            }
            n = n + 1;
        }
        let repo = SubmissionRepository { rows, next_id: max_id + 1 };
        proof {
            assert forall|i: int|
                0 <= i < repo.rows_view().len() implies ((#[trigger] repo.rows_view()[i]).id
                matches Some(id) && 1 <= id < max_id + 1) by {
                assert(sub_id(rv[i]) <= max_id);
            }
            assert(sub_rows_wf(repo.rows_view(), repo.next_id_spec()));
        }
        Some(repo)
    }

    /// Appends a record with a store-assigned identity and creation instant.
    /// Duplicate asset references are allowed here: the intake log never
    /// enforces uniqueness.
    pub fn save_submission(&mut self, submission: &Submission) -> (r: Result<
        i64,
        SubmissionError,
    >)
        requires
            old(self).wf(),
            old(self).next_id_spec() < i64::MAX,
        ensures
            final(self).wf(),
            r matches Ok(id) && id == old(self).next_id_spec(),
            exists|now: i64|
                final(self).rows_view() == old(self).rows_view().push(
                    stored_submission(submission.deep_view(), old(self).next_id_spec(), now),
                ),
            final(self).next_id_spec() == old(self).next_id_spec() + 1,
    {
        let id = self.next_id;
        let now = now_timestamp();
        let row = Submission {
            id: Some(id),
            full_name: submission.full_name.clone(),
            email: submission.email.clone(),
            phone: submission.phone.clone(),
            title: submission.title.clone(),
            abstract_text: submission.abstract_text.clone(),
            pdf_url: submission.pdf_url.clone(),
            created_at: Some(now),
        };
        let ghost before = self.rows.deep_view();
        proof {
            assert(self.rows@.len() == before.len());
            assert(row.deep_view() =~= stored_submission(submission.deep_view(), id, now));
        }
        self.rows.push(row);
        self.next_id = id + 1;
        proof {
            let rv = self.rows.deep_view();
            assert(rv.len() == before.len() + 1);
            assert forall|m: int| 0 <= m < before.len() implies rv[m] == before[m] by {}
            assert(rv[before.len() as int] == stored_submission(submission.deep_view(), id, now));
            assert(rv =~= before.push(stored_submission(submission.deep_view(), id, now)));
            assert(sub_rows_wf(rv, self.next_id_spec()));
        }
        Ok(id)
    }

    /// Every record, most recently created first.
    pub fn get_all_submissions(&self) -> (r: Result<Vec<Submission>, SubmissionError>)
        ensures
            r matches Ok(v) && v.deep_view() == sort_submissions_spec(self.rows_view()),
    {
        Ok(Self::sort_submissions(&self.rows))
    }

    /// The `limit` most recently created records.
    pub fn get_recent_submissions(&self, limit: usize) -> (r: Result<
        Vec<Submission>,
        SubmissionError,
    >)
        ensures
            r matches Ok(v) && v.deep_view() == sub_page_of(
                sort_submissions_spec(self.rows_view()),
                limit as int,
            ),
    {
        let sorted = Self::sort_submissions(&self.rows);
        let mut out: Vec<Submission> = Vec::new();
        let end = if sorted.len() < limit {
            sorted.len()
        } else {
            limit
        };
        let mut i: usize = 0;
        proof {
            assert(out.deep_view() =~= sorted.deep_view().subrange(0, 0));
        }
        while i < end
            invariant
                i <= end <= sorted.len(),
                out.deep_view() == sorted.deep_view().subrange(0, i as int),
            decreases end - i,
        {
            let ghost before = out.deep_view();
            proof {
                assert(out@.len() == before.len());
            }
            let x = sorted[i].clone();
            out.push(x);
            proof {
                let sv = sorted.deep_view();
                assert(out.deep_view().len() == i + 1);
                assert forall|m: int| 0 <= m < i + 1 implies out.deep_view()[m] == sv.subrange(
                    0,
                    i + 1,
                )[m] by {
                    if m < before.len() {
                        assert(out.deep_view()[m] == before[m]);
                    }
                }
                assert(out.deep_view() =~= sv.subrange(0, i + 1));
            }
            i = i + 1;
        }
        proof {
            if limit as int >= sorted.deep_view().len() {
                assert(sorted.deep_view().subrange(0, end as int) =~= sorted.deep_view());
            }
            assert(out.deep_view() =~= sub_page_of(
                sort_submissions_spec(self.rows_view()),
                limit as int,
            ));
        }
        Ok(out)
    }

    /// Returns a copy of the record carrying `id`, or `NotFound`.
    pub fn get_submission_by_id(&self, id: i64) -> (r: Result<Submission, SubmissionError>)
        requires
            self.wf(),
        ensures
            sub_has_id(self.rows_view(), id) ==> (r matches Ok(s) && s.deep_view()
                == self.rows_view()[sub_idx_of_id(self.rows_view(), id)]),
            !sub_has_id(self.rows_view(), id) ==> r matches Err(SubmissionError::NotFound(_)),
    {
        let mut n: usize = 0;
        while n < self.rows.len()
            invariant
                n <= self.rows.len(),
                forall|m: int| 0 <= m < n ==> (#[trigger] self.rows.deep_view()[m]).id != Some(id),
                self.wf(),
            decreases self.rows.len() - n,
        {
            let found = match self.rows[n].id {
                Some(rid) => rid == id,
                None => false,
            };
            if found {
                proof {
                    lemma_sub_found_is_idx(self.rows.deep_view(), id, n as int);
                }
                return Ok(self.rows[n].clone());
            }
            n = n + 1;
        }
        proof {
            if sub_has_id(self.rows_view(), id) {
                let i = choose|i: int|
                    0 <= i < self.rows_view().len() && self.rows_view()[i].id == Some(id);
                assert(self.rows.deep_view()[i].id != Some(id));
            }
        }
        Err(SubmissionError::NotFound(String::from_str("Submission not found")))
    }

    /// Sorts copies of the records; the result is exactly
    /// [`sort_submissions_spec`].
    fn sort_submissions(rows: &Vec<Submission>) -> (r: Vec<Submission>)
        ensures
            r.deep_view() == sort_submissions_spec(rows.deep_view()),
    {
        let mut out: Vec<Submission> = Vec::new();
        let mut i: usize = 0;
        proof {
            assert(out.deep_view() =~= sort_submissions_spec(rows.deep_view().take(0)));
        }
        while i < rows.len()
            invariant
                i <= rows.len(),
                out.deep_view() == sort_submissions_spec(rows.deep_view().take(i as int)),
            decreases rows.len() - i,
        {
            let x = rows[i].clone();
            let ghost xv = x.deep_view();
            let ghost before = out.deep_view();
            proof {
                assert(out@.len() == before.len());
            }
            let mut j: usize = 0;
            while j < out.len() && !Self::submission_leq(&x, &out[j])
                invariant
                    j <= out.len(),
                    out.deep_view() == before,
                    x.deep_view() == xv,
                    forall|m: int| 0 <= m < j ==> !sub_leq(xv, #[trigger] before[m]),
                decreases out.len() - j,
            {
                j = j + 1;
            }
            proof {
                lemma_sub_insert_ordered_at(xv, before, j as int);
            }
            out.insert(j, x);
            proof {
                assert(out.deep_view() =~= before.subrange(0, j as int) + seq![xv]
                    + before.subrange(j as int, before.len() as int));
                let rs = rows.deep_view();
                assert(rs.take(i + 1).drop_last() =~= rs.take(i as int));
                assert(rs.take(i + 1).last() == rs[i as int]);
                assert(out.deep_view() == sort_submissions_spec(rs.take(i + 1)));
            }
            i = i + 1;
        }
        proof {
            assert(rows.deep_view().take(rows.len() as int) =~= rows.deep_view());
        }
        out
    }

    /// Executable comparison agreeing with [`sub_leq`].
    fn submission_leq(a: &Submission, b: &Submission) -> (r: bool)
        ensures
            r == sub_leq(a.deep_view(), b.deep_view()),
    {
        let ca = match a.created_at {
            Some(t) => t,
            None => i64::MIN,
        };
        let cb = match b.created_at {
            Some(t) => t,
            None => i64::MIN,
        };
        if ca != cb {
            ca > cb
        } else {
            let ia = match a.id {
                Some(i) => i,
                None => 0,
            };
            let ib = match b.id {
                Some(i) => i,
                None => 0,
            };
            ia >= ib
        }
    }
}

/// Under unique identities the found index is the chosen one.
proof fn lemma_sub_found_is_idx(rows: Seq<SubmissionView>, id: i64, i: int)
    requires
        forall|a: int, b: int|
            0 <= a < b < rows.len() ==> (#[trigger] rows[a]).id != (#[trigger] rows[b]).id,
        0 <= i < rows.len(),
        rows[i].id == Some(id),
    ensures
        sub_has_id(rows, id),
        sub_idx_of_id(rows, id) == i,
{
    assert(sub_has_id(rows, id));
    let c = sub_idx_of_id(rows, id);
    assert(0 <= c < rows.len() && rows[c].id == Some(id));
    if c != i {
        if c < i {
            assert(rows[c].id != rows[i].id);
        } else {
            assert(rows[i].id != rows[c].id);
        }
    }
}

} // verus!
