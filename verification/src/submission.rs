//! The submission entity: one record of the append-only intake log, and the
//! ingestion-boundary validation rules applied to it.

use vstd::prelude::*;
use crate::dates::{format_ymd, ymd_display, MAX_RENDERED_TIMESTAMP};
use crate::response::{ValidationResponse, ValidationResponseView};
use crate::text::after_last;

verus! {

/// One manuscript submission. Submissions are created once and never
/// updated or deleted; uniqueness of `pdf_url` is not enforced for them.
pub struct Submission {
    pub id: Option<i64>,
    pub full_name: String,
    pub email: String,
    pub phone: String,
    pub title: String,
    pub abstract_text: String,
    pub pdf_url: String,
    pub created_at: Option<i64>,
}

/// Mathematical image of a [`Submission`].
#[verifier::ext_equal]
pub ghost struct SubmissionView {
    pub id: Option<i64>,
    pub full_name: Seq<char>,
    pub email: Seq<char>,
    pub phone: Seq<char>,
    pub title: Seq<char>,
    pub abstract_text: Seq<char>,
    pub pdf_url: Seq<char>,
    pub created_at: Option<i64>,
}

impl DeepView for Submission {
    type V = SubmissionView;

    open spec fn deep_view(&self) -> SubmissionView {
        SubmissionView {
            id: self.id,
            full_name: self.full_name@,
            email: self.email@,
            phone: self.phone@,
            title: self.title@,
            abstract_text: self.abstract_text@,
            pdf_url: self.pdf_url@,
            created_at: self.created_at,
        }
    }
}

impl Clone for Submission {
    fn clone(&self) -> (r: Self)
        ensures
            r.deep_view() == self.deep_view(),
    {
        let r = Submission {
            id: self.id,
            full_name: self.full_name.clone(),
            email: self.email.clone(),
            phone: self.phone.clone(),
            title: self.title.clone(),
            abstract_text: self.abstract_text.clone(),
            pdf_url: self.pdf_url.clone(),
            created_at: self.created_at,
        };
        proof {
            assert(r.deep_view() =~= self.deep_view());
        }
        r
    }
}

/// A character admitted in the local part of an address.
pub open spec fn local_char(c: char) -> bool {
    ('a' as int <= c as int && c as int <= 'z' as int) || ('A' as int <= c as int && c as int
        <= 'Z' as int) || ('0' as int <= c as int && c as int <= '9' as int) || c == '.' || c == '_'
        || c == '%' || c == '+' || c == '-'
}

/// A character admitted in the domain part of an address.
pub open spec fn domain_char(c: char) -> bool {
    ('a' as int <= c as int && c as int <= 'z' as int) || ('A' as int <= c as int && c as int
        <= 'Z' as int) || ('0' as int <= c as int && c as int <= '9' as int) || c == '.' || c == '-'
}

/// An ASCII letter.
pub open spec fn alpha_char(c: char) -> bool {
    ('a' as int <= c as int && c as int <= 'z' as int) || ('A' as int <= c as int && c as int
        <= 'Z' as int)
}

/// A well-formed address: a non-empty local part, `'@'`, a non-empty domain
/// part, `'.'`, and a final label of at least two letters.
pub open spec fn valid_email(s: Seq<char>) -> bool {
    exists|a: int, d: int|
        {
            &&& 1 <= a
            &&& a + 1 < d
            &&& d + 3 < s.len() + 1
            &&& s[a] == '@'
            &&& s[d] == '.'
            &&& (forall|i: int| 0 <= i < a ==> local_char(#[trigger] s[i]))
            &&& (forall|i: int| a < i < d ==> domain_char(#[trigger] s[i]))
            &&& (forall|i: int| d < i < s.len() ==> alpha_char(#[trigger] s[i]))
        }
}

/// Relies on `regex::Regex::new` (on a fixed valid pattern, so it cannot
/// fail) and `regex::Regex::is_match` with the anchored pattern
/// `^[a-zA-Z0-9._%+-]+@[a-zA-Z0-9.-]+\.[a-zA-Z]{2,}$`: a haystack matches
/// exactly when it splits as [`valid_email`] describes.
#[verifier::external_body]
fn email_matches(email: &str) -> (r: bool)
    ensures
        r == valid_email(email@),
{
    let email_regex = regex::Regex::new(r"^[a-zA-Z0-9._%+-]+@[a-zA-Z0-9.-]+\.[a-zA-Z]{2,}$")
        .unwrap();
    email_regex.is_match(email)
}

/// The field-level failures of a submission, in the order they are checked:
/// empty name, malformed address, phone length outside 10..=15, title shorter
/// than 10, abstract shorter than 100.
pub open spec fn validation_failures(s: SubmissionView) -> Seq<ValidationResponseView> {
    let e = Seq::<ValidationResponseView>::empty();
    let e = if s.full_name.len() == 0 {
        e.push(ValidationResponseView { field: "full_name"@, message: "Name cannot be empty"@ })
    } else {
        e
    };
    let e = if !valid_email(s.email) {
        e.push(ValidationResponseView { field: "email"@, message: "Invalid email address"@ })
    } else {
        e
    };
    let e = if s.phone.len() < 10 || s.phone.len() > 15 {
        e.push(
            ValidationResponseView {
                field: "phone"@,
                message: "Phone number must be between 10-15 digits"@,
            },
        )
    } else {
        e
    };
    let e = if s.title.len() < 10 {
        e.push(
            ValidationResponseView {
                field: "title"@,
                message: "Title must be at least 10 characters"@,
            },
        )
    } else {
        e
    };
    let e = if s.abstract_text.len() < 100 {
        e.push(
            ValidationResponseView {
                field: "abstract_text"@,
                message: "Abstract must be at least 100 characters"@,
            },
        )
    } else {
        e
    };
    e
}

impl Submission {
    /// A fresh intake record with no identity yet.
    pub fn new(
        full_name: String,
        email: String,
        phone: String,
        title: String,
        abstract_text: String,
        pdf_url: String,
        created_at: Option<i64>,
    ) -> (r: Self)
        ensures
            r.id is None,
            r.full_name@ == full_name@,
            r.email@ == email@,
            r.phone@ == phone@,
            r.title@ == title@,
            r.abstract_text@ == abstract_text@,
            r.pdf_url@ == pdf_url@,
            r.created_at == created_at,
    {
        Submission {
            id: None,
            full_name,
            email,
            phone,
            title,
            abstract_text,
            pdf_url,
            created_at,
        }
    }

    /// Checks the ingestion rules; `Ok` exactly when no rule fails, and
    /// otherwise every failure, in checking order.
    pub fn validate_submission(&self) -> (r: Result<(), Vec<ValidationResponse>>)
        ensures
            match r {
                Ok(()) => validation_failures(self.deep_view()).len() == 0,
                Err(v) => v.deep_view() == validation_failures(self.deep_view()) && v@.len() > 0,
            },
    {
        let mut failures: Vec<ValidationResponse> = Vec::new();
        proof {
            assert(failures.deep_view() =~= Seq::<ValidationResponseView>::empty());
        }
        if self.full_name.as_str().unicode_len() == 0 {
            let ghost before = failures.deep_view();
            failures.push(ValidationResponse::new("full_name", "Name cannot be empty"));
            proof {
                assert(failures.deep_view() =~= before.push(
                    ValidationResponseView {
                        field: "full_name"@,
                        message: "Name cannot be empty"@,
                    },
                ));
            }
        }
        if !email_matches(self.email.as_str()) {
            let ghost before = failures.deep_view();
            failures.push(ValidationResponse::new("email", "Invalid email address"));
            proof {
                assert(failures.deep_view() =~= before.push(
                    ValidationResponseView { field: "email"@, message: "Invalid email address"@ },
                ));
            }
        }
        let phone_len = self.phone.as_str().unicode_len();
        if phone_len < 10 || phone_len > 15 {
            let ghost before = failures.deep_view();
            failures.push(
                ValidationResponse::new("phone", "Phone number must be between 10-15 digits"),
            );
            proof {
                assert(failures.deep_view() =~= before.push(
                    ValidationResponseView {
                        field: "phone"@,
                        message: "Phone number must be between 10-15 digits"@,
                    },
                ));
            }
        }
        if self.title.as_str().unicode_len() < 10 {
            let ghost before = failures.deep_view();
            failures.push(
                ValidationResponse::new("title", "Title must be at least 10 characters"),
            );
            proof {
                assert(failures.deep_view() =~= before.push(
                    ValidationResponseView {
                        field: "title"@,
                        message: "Title must be at least 10 characters"@,
                    },
                ));
            }
        }
        if self.abstract_text.as_str().unicode_len() < 100 {
            let ghost before = failures.deep_view();
            failures.push(
                ValidationResponse::new("abstract_text", "Abstract must be at least 100 characters"),
            );
            proof {
                assert(failures.deep_view() =~= before.push(
                    ValidationResponseView {
                        field: "abstract_text"@,
                        message: "Abstract must be at least 100 characters"@,
                    },
                ));
            }
        }
        if failures.len() == 0 {
            proof {
                assert(failures.deep_view() =~= validation_failures(self.deep_view()));
            }
            Ok(())
        } else {
            proof {
                assert(failures.deep_view() =~= validation_failures(self.deep_view()));
            }
            Err(failures)
        }
    }

    /// The bare filename of the stored blob: the component after the last
    /// `'/'` of `pdf_url`, or `None` when that component is empty.
    pub fn pdf_filename(&self) -> (r: Option<String>)
        ensures
            match r {
                Some(name) => name@ == after_last(self.pdf_url@, '/') && name@.len() > 0,
                None => after_last(self.pdf_url@, '/').len() == 0,
            },
    {
        crate::text::filename_component(self.pdf_url.as_str())
    }

    /// The creation day as `YYYY-MM-DD`, or `"N/A"` when the record carries
    /// no renderable creation instant.
    pub fn formatted_date(&self) -> (r: String)
        ensures
            match self.created_at {
                Some(ts) => if 0 <= ts <= MAX_RENDERED_TIMESTAMP {
                    r@ == ymd_display(ts)
                } else {
                    r@ == "N/A"@
                },
                None => r@ == "N/A"@,
            },
    {
        match self.created_at {
            Some(ts) => {
                if 0 <= ts && ts <= MAX_RENDERED_TIMESTAMP {
                    format_ymd(ts)
                } else {
                    String::from_str("N/A")
                }
            },
            None => String::from_str("N/A"),
        }
    }
}

} // verus!
