//! The journal entity: a catalog row for one published article.

use vstd::prelude::*;
use crate::numfmt::{dec_rep, i64_to_string, i32_to_string};

verus! {

/// A catalog row for one published journal article. `id` and `created_at`
/// are store-assigned and absent before the first persist; `pdf_url` is the
/// asset reference, globally unique across journals.
pub struct Journal {
    pub id: Option<i64>,
    pub title: String,
    pub authors: String,
    pub abstract_text: String,
    pub keywords: String,
    pub volume_number: i32,
    pub issue_number: i32,
    pub pages: String,
    pub publication_date: i64,
    pub pdf_url: String,
    pub created_at: Option<i64>,
}

/// Mathematical image of a [`Journal`].
#[verifier::ext_equal]
pub ghost struct JournalView {
    pub id: Option<i64>,
    pub title: Seq<char>,
    pub authors: Seq<char>,
    pub abstract_text: Seq<char>,
    pub keywords: Seq<char>,
    pub volume_number: i32,
    pub issue_number: i32,
    pub pages: Seq<char>,
    pub publication_date: i64,
    pub pdf_url: Seq<char>,
    pub created_at: Option<i64>,
}

impl DeepView for Journal {
    type V = JournalView;

    open spec fn deep_view(&self) -> JournalView {
        JournalView {
            id: self.id,
            title: self.title@,
            authors: self.authors@,
            abstract_text: self.abstract_text@,
            keywords: self.keywords@,
            volume_number: self.volume_number,
            issue_number: self.issue_number,
            pages: self.pages@,
            publication_date: self.publication_date,
            pdf_url: self.pdf_url@,
            created_at: self.created_at,
        }
    }
}

impl Clone for Journal {
    fn clone(&self) -> (r: Self)
        ensures
            r.deep_view() == self.deep_view(),
    {
        let r = Journal {
            id: self.id,
            title: self.title.clone(),
            authors: self.authors.clone(),
            abstract_text: self.abstract_text.clone(),
            keywords: self.keywords.clone(),
            volume_number: self.volume_number,
            issue_number: self.issue_number,
            pages: self.pages.clone(),
            publication_date: self.publication_date,
            pdf_url: self.pdf_url.clone(),
            created_at: self.created_at,
        };
        proof {
            assert(r.deep_view() =~= self.deep_view());
        }
        r
    }
}

impl Journal {
    /// A fresh, not yet persisted row: no identity and no creation instant.
    pub fn new(
        title: String,
        authors: String,
        abstract_text: String,
        keywords: String,
        volume_number: i32,
        issue_number: i32,
        pages: String,
        publication_date: i64,
        pdf_url: String,
    ) -> (r: Self)
        ensures
            r.id is None,
            r.created_at is None,
            r.title@ == title@,
            r.authors@ == authors@,
            r.abstract_text@ == abstract_text@,
            r.keywords@ == keywords@,
            r.volume_number == volume_number,
            r.issue_number == issue_number,
            r.pages@ == pages@,
            r.publication_date == publication_date,
            r.pdf_url@ == pdf_url@,
    {
        Journal {
            id: None,
            title,
            authors,
            abstract_text,
            keywords,
            volume_number,
            issue_number,
            pages,
            publication_date,
            pdf_url,
            created_at: None,
        }
    }

    /// The identity in decimal, or the empty string before the first persist.
    pub fn id_string(&self) -> (r: String)
        requires
            self.id matches Some(i) ==> i >= 0,
        ensures
            match self.id {
                Some(i) => r@ == dec_rep(i as nat),
                None => r@ == Seq::<char>::empty(),
            },
    {
        match self.id {
            Some(i) => i64_to_string(i),
            None => String::new(),
        }
    }

    /// The asset path of this row: the stored filename resolved against the
    /// upload directory.
    pub fn pdf_url(&self) -> (r: String)
        ensures
            r@ == "data/uploads/"@ + self.pdf_url@,
    {
        String::from_str("data/uploads/").concat(self.pdf_url.as_str())
    }

    /// `"Vol. {volume} No. {issue}"`.
    pub fn volume_issue_display(&self) -> (r: String)
        requires
            self.volume_number >= 0,
            self.issue_number >= 0,
        ensures
            r@ == "Vol. "@ + dec_rep(self.volume_number as nat) + " No. "@ + dec_rep(
                self.issue_number as nat,
            ),
    {
        let mut s = String::from_str("Vol. ");
        s.append(i32_to_string(self.volume_number).as_str());
        s.append(" No. ");
        s.append(i32_to_string(self.issue_number).as_str());
        s
    }
}

} // verus!
