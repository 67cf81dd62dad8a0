//! The administrator account entity.

use vstd::prelude::*;

verus! {

/// One administrator account: identity, login email, bcrypt password hash.
pub struct Admin {
    pub id: i32,
    pub email: String,
    pub password_hash: String,
}

/// Mathematical image of an [`Admin`].
#[verifier::ext_equal]
pub ghost struct AdminView {
    pub id: i32,
    pub email: Seq<char>,
    pub password_hash: Seq<char>,
}

impl DeepView for Admin {
    type V = AdminView;

    open spec fn deep_view(&self) -> AdminView {
        AdminView { id: self.id, email: self.email@, password_hash: self.password_hash@ }
    }
}

impl Clone for Admin {
    fn clone(&self) -> (r: Self)
        ensures
            r.deep_view() == self.deep_view(),
    {
        let r = Admin {
            id: self.id,
            email: self.email.clone(),
            password_hash: self.password_hash.clone(),
        };
        proof {
            assert(r.deep_view() =~= self.deep_view());
        }
        r
    }
}

} // verus!
