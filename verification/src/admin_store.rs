//! The administrator account store: lookup by login email and seeding.

use vstd::prelude::*;
use crate::admin::{Admin, AdminView};
use crate::errors::SubmissionError;

verus! {

/// Some account uses the login email `email`.
pub open spec fn has_email(rows: Seq<AdminView>, email: Seq<char>) -> bool {
    exists|i: int| 0 <= i < rows.len() && rows[i].email == email
}

/// The index of the account using `email` (unique under the invariant).
pub open spec fn idx_of_email(rows: Seq<AdminView>, email: Seq<char>) -> int {
    choose|i: int| 0 <= i < rows.len() && rows[i].email == email
}

/// Well-formedness of the account store: positive identities below the next
/// free one, identities unique, login emails unique.
pub open spec fn admin_rows_wf(rows: Seq<AdminView>, next_id: i32) -> bool {
    &&& 1 <= next_id
    &&& forall|i: int| 0 <= i < rows.len() ==> 1 <= (#[trigger] rows[i]).id < next_id
    &&& forall|i: int, j: int|
        0 <= i < j < rows.len() ==> (#[trigger] rows[i]).id != (#[trigger] rows[j]).id
    &&& forall|i: int, j: int|
        0 <= i < j < rows.len() ==> (#[trigger] rows[i]).email != (#[trigger] rows[j]).email
}

/// Accounts that can be taken over as the store contents: persisted
/// identities in range and unique, login emails unique.
pub open spec fn admin_restorable(rows: Seq<AdminView>) -> bool {
    &&& forall|i: int| 0 <= i < rows.len() ==> 1 <= (#[trigger] rows[i]).id < i32::MAX
    &&& forall|i: int, j: int|
        0 <= i < j < rows.len() ==> (#[trigger] rows[i]).id != (#[trigger] rows[j]).id
    &&& forall|i: int, j: int|
        0 <= i < j < rows.len() ==> (#[trigger] rows[i]).email != (#[trigger] rows[j]).email
}

/// The administrator account store.
pub struct AdminRepository {
    rows: Vec<Admin>,
    next_id: i32,
}

impl AdminRepository {
    /// The persisted accounts, in insertion order.
    pub closed spec fn rows_view(&self) -> Seq<AdminView> {
        self.rows.deep_view()
    }

    /// The next identity the store will assign.
    pub closed spec fn next_id_spec(&self) -> i32 {
        self.next_id
    }

    /// The store's invariant.
    pub open spec fn wf(&self) -> bool {
        admin_rows_wf(self.rows_view(), self.next_id_spec())
    }

    /// An empty account store; identities start at 1.
    pub fn new() -> (r: Self)
        ensures
            r.wf(),
            r.rows_view() == Seq::<AdminView>::empty(),
            r.next_id_spec() == 1,
    {
        let r = AdminRepository { rows: Vec::new(), next_id: 1 };
        proof {
            assert(r.rows_view() =~= Seq::<AdminView>::empty());
        }
        r
    }

    /// Whether the store can still assign a fresh identity; callers check
    /// this before an insert.
    pub fn can_assign_identity(&self) -> (r: bool)
        ensures
            r == (self.next_id_spec() < i32::MAX),
    {
        self.next_id < i32::MAX
    }

    /// Takes previously persisted accounts over as the store contents,
    /// re-checking the invariants; `None` exactly when they do not hold.
    /// The next identity continues above the highest one present.
    pub fn restore(rows: Vec<Admin>) -> (r: Option<AdminRepository>)
        ensures
            admin_restorable(rows.deep_view()) <==> r is Some,
            r matches Some(repo) ==> repo.wf() && repo.rows_view() == rows.deep_view(),
    {
        let ghost rv = rows.deep_view();
        let mut max_id: i32 = 0;
        let mut n: usize = 0;
        while n < rows.len()
            invariant
                n <= rows.len(),
                rv == rows.deep_view(),
                0 <= max_id < i32::MAX,
                forall|i: int| 0 <= i < n ==> 1 <= (#[trigger] rv[i]).id < i32::MAX,
                forall|i: int| 0 <= i < n ==> (#[trigger] rv[i]).id <= max_id,
                forall|i: int, j: int|
                    0 <= i < j < n ==> (#[trigger] rv[i]).id != (#[trigger] rv[j]).id,
                forall|i: int, j: int|
                    0 <= i < j < n ==> (#[trigger] rv[i]).email != (#[trigger] rv[j]).email,
            decreases rows.len() - n,
        {
            let id = rows[n].id;
            if id < 1 || id == i32::MAX {
                proof {
                    if admin_restorable(rv) {
                        assert(1 <= (rv[n as int]).id < i32::MAX);
                    }
                }
                return None;
            }
            let mut m: usize = 0;
            while m < n
                invariant
                    m <= n < rows.len(),
                    rv == rows.deep_view(),
                    rv[n as int].id == id,
                    forall|i: int| 0 <= i < m ==> (#[trigger] rv[i]).id != rv[n as int].id,
                    forall|i: int|
                        0 <= i < m ==> (#[trigger] rv[i]).email != rv[n as int].email,
                decreases n - m,
            {
                if rows[m].id == id || rows[m].email == rows[n].email {
                    proof {
                        if admin_restorable(rv) {
                            assert((rv[m as int]).id != (rv[n as int]).id);
                            assert((rv[m as int]).email != (rv[n as int]).email);
                        }
                    }
                    return None;
                }
                m = m + 1;
            }
            if id > max_id {
                max_id = id;
            }
            n = n + 1;
        }
        let repo = AdminRepository { rows, next_id: max_id + 1 };
        proof {
            assert(admin_rows_wf(repo.rows_view(), repo.next_id_spec()));
        }
        Some(repo)
    }

    /// Looks an account up by its login email; `Ok(None)` when no account
    /// uses it.
    pub fn find_admin_by_email(&self, email: &str) -> (r: Result<Option<Admin>, SubmissionError>)
        requires
            self.wf(),
        ensures
            has_email(self.rows_view(), email@) ==> (r matches Ok(a) && a matches Some(found)
                && found.deep_view() == self.rows_view()[idx_of_email(self.rows_view(), email@)]),
            !has_email(self.rows_view(), email@) ==> r matches Ok(None::<Admin>),
    {
        let wanted = String::from_str(email);
        let mut n: usize = 0;
        while n < self.rows.len()
            invariant
                n <= self.rows.len(),
                wanted@ == email@,
                forall|m: int|
                    0 <= m < n ==> (#[trigger] self.rows.deep_view()[m]).email != email@,
                self.wf(),
            decreases self.rows.len() - n,
        {
            if self.rows[n].email == wanted {
                proof {
                    lemma_email_found_is_idx(self.rows.deep_view(), email@, n as int);
                }
                return Ok(Some(self.rows[n].clone()));
            }
            n = n + 1;
        }
        proof {
            if has_email(self.rows_view(), email@) {
                let i = choose|i: int|
                    0 <= i < self.rows_view().len() && self.rows_view()[i].email == email@;
                assert(self.rows.deep_view()[i].email != email@);
            }
        }
        Ok(None)
    }

    /// Creates an account (used for seeding). Fails with `DatabaseError`,
    /// changing nothing, when the login email is already taken — the store
    /// never overwrites an account.
    pub fn create_admin(&mut self, email: &str, password_hash: &str) -> (r: Result<
        i64,
        SubmissionError,
    >)
        requires
            old(self).wf(),
            old(self).next_id_spec() < i32::MAX,
        ensures
            final(self).wf(),
            has_email(old(self).rows_view(), email@) ==> (r matches Err(
                SubmissionError::DatabaseError(_),
            ) && final(self).rows_view() == old(self).rows_view() && final(self).next_id_spec()
                == old(self).next_id_spec()),
            !has_email(old(self).rows_view(), email@) ==> {
                &&& r matches Ok(id) && id == old(self).next_id_spec() as i64
                &&& final(self).rows_view() == old(self).rows_view().push(
                    (AdminView {
                        id: old(self).next_id_spec(),
                        email: email@,
                        password_hash: password_hash@,
                    }),
                )
                &&& final(self).next_id_spec() == old(self).next_id_spec() + 1
            },
    {
        let wanted = String::from_str(email);
        let mut n: usize = 0;
        while n < self.rows.len()
            invariant
                n <= self.rows.len(),
                wanted@ == email@,
                forall|m: int|
                    0 <= m < n ==> (#[trigger] self.rows.deep_view()[m]).email != email@,
                self.wf(),
            decreases self.rows.len() - n,
        {
            if self.rows[n].email == wanted {
                proof {
                    assert(self.rows.deep_view()[n as int].email == email@);
                }
                return Err(
                    SubmissionError::DatabaseError(
                        String::from_str("UNIQUE constraint failed: admins.email"),
                    ),
                );
            }
            n = n + 1;
        }
        let id = self.next_id;
        let row = Admin {
            id,
            email: wanted,
            password_hash: String::from_str(password_hash),
        };
        let ghost before = self.rows.deep_view();
        proof {
            assert(self.rows@.len() == before.len());
            assert(row.deep_view() =~= (AdminView {
                id,
                email: email@,
                password_hash: password_hash@,
            }));
            if has_email(before, email@) {
                let i = choose|i: int| 0 <= i < before.len() && before[i].email == email@;
                assert(before[i].email != email@);
            }
        }
        self.rows.push(row);
        self.next_id = id + 1;
        proof {
            let rv = self.rows.deep_view();
            assert(rv.len() == before.len() + 1);
            assert forall|m: int| 0 <= m < before.len() implies rv[m] == before[m] by {}
            assert(rv =~= before.push(
                (AdminView { id, email: email@, password_hash: password_hash@ }),
            ));
            assert(admin_rows_wf(rv, self.next_id_spec()));
        }
        Ok(id as i64)
    }
}

/// Under unique emails the found index is the chosen one.
proof fn lemma_email_found_is_idx(rows: Seq<AdminView>, email: Seq<char>, i: int)
    requires
        forall|a: int, b: int|
            0 <= a < b < rows.len() ==> (#[trigger] rows[a]).email != (#[trigger] rows[b]).email,
        0 <= i < rows.len(),
        rows[i].email == email,
    ensures
        has_email(rows, email),
        idx_of_email(rows, email) == i,
{
    assert(has_email(rows, email));
    let c = idx_of_email(rows, email);
    assert(0 <= c < rows.len() && rows[c].email == email);
    if c != i {
        if c < i {
            assert(rows[c].email != rows[i].email);
        } else {
            assert(rows[i].email != rows[c].email);
        }
    }
}

} // verus!
