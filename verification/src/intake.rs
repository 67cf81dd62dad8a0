//! The ingestion boundary's compute side: assembling validated records from
//! extracted form fields, the submission intake pipeline, and the query
//! dispatch of the public journal API. The boundary's I/O side (multipart
//! parsing, blob writing) lives outside the library and hands in plain
//! values.

use vstd::prelude::*;
use crate::dates::{date_parse, parse_publication_date};
use crate::edition::latest_key;
use crate::errors::{joined_validation, SubmissionError};
use crate::journal::{Journal, JournalView};
use crate::journal_store::{edition_rows, other_edition_rows, volume_rows, JournalRepository};
use crate::order::{page_of, sort_rows, OrderKey};
use crate::submission::{validation_failures, Submission};
use crate::submission_store::{stored_submission, SubmissionRepository};

verus! {

/// The edit form for an existing journal row.
pub struct EditJournalForm {
    pub title: String,
    pub authors: String,
    pub abstract_text: String,
    pub keywords: String,
    pub volume_number: i32,
    pub issue_number: i32,
    pub pages: String,
    pub publication_date: String,
    pub pdf_url: String,
}

/// The query parameters of the public journal API.
pub struct JournalQueryParams {
    pub page: Option<i32>,
    pub limit: Option<i32>,
    pub category: Option<String>,
    pub volume: Option<i32>,
    pub issue: Option<i32>,
}

/// The category selector of the public journal API.
#[derive(Clone, Copy, Debug, PartialEq, Eq, Structural)]
pub enum JournalCategory {
    Latest,
    Current,
    Past,
    All,
}

/// `r` is a `ValidationError` carrying exactly `msg`.
pub open spec fn is_verr<T>(r: Result<T, SubmissionError>, msg: Seq<char>) -> bool {
    r matches Err(SubmissionError::ValidationError(m)) && m@ == msg
}

/// Builds the journal record the admin upload hands to the store: every
/// field is required, checked in a fixed order, and the publication date
/// must be a valid `YYYY-MM-DD` day.
pub fn build_journal_record(
    title: Option<String>,
    authors: Option<String>,
    abstract_text: Option<String>,
    keywords: Option<String>,
    volume_number: Option<i32>,
    issue_number: Option<i32>,
    pages: Option<String>,
    publication_date: Option<String>,
    pdf_filename: Option<String>,
) -> (r: Result<Journal, SubmissionError>)
    ensures
        title is None ==> is_verr(r, "Title is required"@),
        title is Some && authors is None ==> is_verr(r, "Authors are required"@),
        title is Some && authors is Some && abstract_text is None ==> is_verr(
            r,
            "Abstract is required"@,
        ),
        title is Some && authors is Some && abstract_text is Some && keywords is None ==> is_verr(
            r,
            "Keywords are required"@,
        ),
        title is Some && authors is Some && abstract_text is Some && keywords is Some
            && volume_number is None ==> is_verr(r, "Volume number is required"@),
        title is Some && authors is Some && abstract_text is Some && keywords is Some
            && volume_number is Some && issue_number is None ==> is_verr(
            r,
            "Issue number is required"@,
        ),
        title is Some && authors is Some && abstract_text is Some && keywords is Some
            && volume_number is Some && issue_number is Some && pages is None ==> is_verr(
            r,
            "Pages are required"@,
        ),
        title is Some && authors is Some && abstract_text is Some && keywords is Some
            && volume_number is Some && issue_number is Some && pages is Some && publication_date
            is None ==> is_verr(r, "Publication date is required"@),
        title is Some && authors is Some && abstract_text is Some && keywords is Some
            && volume_number is Some && issue_number is Some && pages is Some && publication_date
            is Some && pdf_filename is None ==> is_verr(r, "PDF file is required"@),
        title is Some && authors is Some && abstract_text is Some && keywords is Some
            && volume_number is Some && issue_number is Some && pages is Some && publication_date
            is Some && pdf_filename is Some ==> {
            if date_parse(publication_date->Some_0@) is None {
                is_verr(r, "Invalid publication date format"@)
            } else {
                r matches Ok(j) && {
                    &&& j.id is None
                    &&& j.created_at is None
                    &&& j.title@ == title->Some_0@
                    &&& j.authors@ == authors->Some_0@
                    &&& j.abstract_text@ == abstract_text->Some_0@
                    &&& j.keywords@ == keywords->Some_0@
                    &&& j.volume_number == volume_number->Some_0
                    &&& j.issue_number == issue_number->Some_0
                    &&& j.pages@ == pages->Some_0@
                    &&& Some(j.publication_date) == date_parse(publication_date->Some_0@)
                    &&& j.pdf_url@ == pdf_filename->Some_0@
                }
            }
        },
{
    let title = match title {
        Some(v) => v,
        None => {
            return Err(SubmissionError::ValidationError(String::from_str("Title is required")));
        },
    };
    let authors = match authors {
        Some(v) => v,
        None => {
            return Err(SubmissionError::ValidationError(String::from_str("Authors are required")));
        },
    };
    let abstract_text = match abstract_text {
        Some(v) => v,
        None => {
            return Err(
                SubmissionError::ValidationError(String::from_str("Abstract is required")),
            );
        },
    };
    let keywords = match keywords {
        Some(v) => v,
        None => {
            return Err(
                SubmissionError::ValidationError(String::from_str("Keywords are required")),
            );
        },
    };
    let volume_number = match volume_number {
        Some(v) => v,
        None => {
            return Err(
                SubmissionError::ValidationError(String::from_str("Volume number is required")),
            );
        },
    };
    let issue_number = match issue_number {
        Some(v) => v,
        None => {
            return Err(
                SubmissionError::ValidationError(String::from_str("Issue number is required")),
            );
        },
    };
    let pages = match pages {
        Some(v) => v,
        None => {
            return Err(SubmissionError::ValidationError(String::from_str("Pages are required")));
        },
    };
    let publication_date = match publication_date {
        Some(v) => v,
        None => {
            return Err(
                SubmissionError::ValidationError(
                    String::from_str("Publication date is required"),
                ),
            );
        },
    };
    let pdf_filename = match pdf_filename {
        Some(v) => v,
        None => {
            return Err(
                SubmissionError::ValidationError(String::from_str("PDF file is required")),
            );
        },
    };
    let ts = match parse_publication_date(publication_date.as_str()) {
        Some(ts) => ts,
        None => {
            return Err(
                SubmissionError::ValidationError(
                    String::from_str("Invalid publication date format"),
                ),
            );
        },
    };
    Ok(
        Journal::new(
            title,
            authors,
            abstract_text,
            keywords,
            volume_number,
            issue_number,
            pages,
            ts,
            pdf_filename,
        ),
    )
}

/// Builds the updated row the edit form describes: the date must parse and
/// no field may be empty. The record carries the target row's identity.
pub fn journal_from_edit_form(id: i64, form: &EditJournalForm) -> (r: Result<
    Journal,
    SubmissionError,
>)
    ensures
        date_parse(form.publication_date@) is None ==> is_verr(
            r,
            "Invalid publication date format"@,
        ),
        date_parse(form.publication_date@) is Some && (form.title@.len() == 0
            || form.authors@.len() == 0 || form.abstract_text@.len() == 0 || form.keywords@.len()
            == 0 || form.pages@.len() == 0 || form.pdf_url@.len() == 0) ==> is_verr(
            r,
            "All fields are required"@,
        ),
        date_parse(form.publication_date@) is Some && form.title@.len() > 0 && form.authors@.len()
            > 0 && form.abstract_text@.len() > 0 && form.keywords@.len() > 0 && form.pages@.len()
            > 0 && form.pdf_url@.len() > 0 ==> (r matches Ok(j) && {
            &&& j.id == Some(id)
            &&& j.created_at is None
            &&& j.title@ == form.title@
            &&& j.authors@ == form.authors@
            &&& j.abstract_text@ == form.abstract_text@
            &&& j.keywords@ == form.keywords@
            &&& j.volume_number == form.volume_number
            &&& j.issue_number == form.issue_number
            &&& j.pages@ == form.pages@
            &&& Some(j.publication_date) == date_parse(form.publication_date@)
            &&& j.pdf_url@ == form.pdf_url@
        }),
{
    let ts = match parse_publication_date(form.publication_date.as_str()) {
        Some(ts) => ts,
        None => {
            return Err(
                SubmissionError::ValidationError(
                    String::from_str("Invalid publication date format"),
                ),
            );
        },
    };
    if form.title.as_str().is_empty() || form.authors.as_str().is_empty()
        || form.abstract_text.as_str().is_empty() || form.keywords.as_str().is_empty()
        || form.pages.as_str().is_empty() || form.pdf_url.as_str().is_empty() {
        return Err(
            SubmissionError::ValidationError(String::from_str("All fields are required")),
        );
    }
    Ok(
        Journal {
            id: Some(id),
            title: form.title.clone(),
            authors: form.authors.clone(),
            abstract_text: form.abstract_text.clone(),
            keywords: form.keywords.clone(),
            volume_number: form.volume_number,
            issue_number: form.issue_number,
            pages: form.pages.clone(),
            publication_date: ts,
            pdf_url: form.pdf_url.clone(),
            created_at: None,
        },
    )
}

/// Builds the submission record the public form hands to the intake
/// pipeline: every field is required, checked in a fixed order. The stored
/// asset reference is the blob's bare filename — never a path; readers
/// resolve it against the upload directory.
pub fn build_submission_record(
    full_name: Option<String>,
    email: Option<String>,
    phone: Option<String>,
    title: Option<String>,
    abstract_text: Option<String>,
    pdf_filename: Option<String>,
) -> (r: Result<Submission, SubmissionError>)
    ensures
        full_name is None ==> is_verr(r, "Full name is required"@),
        full_name is Some && email is None ==> is_verr(r, "Email is required"@),
        full_name is Some && email is Some && phone is None ==> is_verr(r, "Phone is required"@),
        full_name is Some && email is Some && phone is Some && title is None ==> is_verr(
            r,
            "Title is required"@,
        ),
        full_name is Some && email is Some && phone is Some && title is Some && abstract_text
            is None ==> is_verr(r, "Abstract is required"@),
        full_name is Some && email is Some && phone is Some && title is Some && abstract_text
            is Some && pdf_filename is None ==> is_verr(r, "PDF file is required"@),
        full_name is Some && email is Some && phone is Some && title is Some && abstract_text
            is Some && pdf_filename is Some ==> (r matches Ok(s) && {
            &&& s.id is None
            &&& s.created_at is None
            &&& s.full_name@ == full_name->Some_0@
            &&& s.email@ == email->Some_0@
            &&& s.phone@ == phone->Some_0@
            &&& s.title@ == title->Some_0@
            &&& s.abstract_text@ == abstract_text->Some_0@
            &&& s.pdf_url@ == pdf_filename->Some_0@
        }),
{
    let full_name = match full_name {
        Some(v) => v,
        None => {
            return Err(
                SubmissionError::ValidationError(String::from_str("Full name is required")),
            );
        },
    };
    let email = match email {
        Some(v) => v,
        None => {
            return Err(SubmissionError::ValidationError(String::from_str("Email is required")));
        },
    };
    let phone = match phone {
        Some(v) => v,
        None => {
            return Err(SubmissionError::ValidationError(String::from_str("Phone is required")));
        },
    };
    let title = match title {
        Some(v) => v,
        None => {
            return Err(SubmissionError::ValidationError(String::from_str("Title is required")));
        },
    };
    let abstract_text = match abstract_text {
        Some(v) => v,
        None => {
            return Err(
                SubmissionError::ValidationError(String::from_str("Abstract is required")),
            );
        },
    };
    let pdf_filename = match pdf_filename {
        Some(v) => v,
        None => {
            return Err(
                SubmissionError::ValidationError(String::from_str("PDF file is required")),
            );
        },
    };
    Ok(Submission::new(full_name, email, phone, title, abstract_text, pdf_filename, None))
}

/// The intake pipeline for a public submission: validate, then append to the
/// intake log. On validation failure the log is untouched and every
/// field-level failure is reported, joined in checking order.
pub fn intake_submission(repo: &mut SubmissionRepository, submission: &Submission) -> (r: Result<
    i64,
    SubmissionError,
>)
    requires
        old(repo).wf(),
        old(repo).next_id_spec() < i64::MAX,
    ensures
        final(repo).wf(),
        validation_failures(submission.deep_view()).len() > 0 ==> {
            &&& r matches Err(SubmissionError::ValidationError(m)) && m@ == joined_validation(
                validation_failures(submission.deep_view()),
            )
            &&& final(repo).rows_view() == old(repo).rows_view()
            &&& final(repo).next_id_spec() == old(repo).next_id_spec()
        },
        validation_failures(submission.deep_view()).len() == 0 ==> {
            &&& r matches Ok(id) && id == old(repo).next_id_spec()
            &&& (exists|now: i64|
                final(repo).rows_view() == old(repo).rows_view().push(
                    stored_submission(submission.deep_view(), old(repo).next_id_spec(), now),
                ))
            &&& final(repo).next_id_spec() == old(repo).next_id_spec() + 1
        },
{
    match submission.validate_submission() {
        Ok(()) => repo.save_submission(submission),
        Err(failures) => Err(SubmissionError::from_validation(&failures)),
    }
}

/// Compares two strings character by character.
pub fn str_equal(a: &str, b: &str) -> (r: bool)
    ensures
        r == (a@ == b@),
{
    let na = a.unicode_len();
    let nb = b.unicode_len();
    if na != nb {
        return false;
    }
    let mut i: usize = 0;
    while i < na
        invariant
            i <= na,
            na == a@.len(),
            na == b@.len(),
            forall|j: int| 0 <= j < i ==> a@[j] == b@[j],
        decreases na - i,
    {
        if a.get_char(i) != b.get_char(i) {
            return false;
        }
        i = i + 1;
    }
    proof {
        assert(a@ =~= b@);
    }
    true
}

/// The category denoted by a selector string; anything unrecognised selects
/// the full archive.
pub open spec fn category_spec(s: Seq<char>) -> JournalCategory {
    if s == "latest"@ {
        JournalCategory::Latest
    } else if s == "current"@ {
        JournalCategory::Current
    } else if s == "past"@ {
        JournalCategory::Past
    } else {
        JournalCategory::All
    }
}

/// Parses a category selector.
pub fn category_of(s: &str) -> (r: JournalCategory)
    ensures
        r == category_spec(s@),
{
    if str_equal(s, "latest") {
        JournalCategory::Latest
    } else if str_equal(s, "current") {
        JournalCategory::Current
    } else if str_equal(s, "past") {
        JournalCategory::Past
    } else {
        JournalCategory::All
    }
}

/// The listing each category denotes, before the optional volume/issue
/// refinement.
pub open spec fn category_listing(
    rows: Seq<JournalView>,
    cat: JournalCategory,
    limit: int,
    offset: int,
) -> Seq<JournalView> {
    match cat {
        JournalCategory::Latest => page_of(sort_rows(OrderKey::DateOnly, rows), limit, 0),
        JournalCategory::Current => if rows.len() == 0 {
            Seq::empty()
        } else {
            let k = latest_key(rows)->Some_0;
            page_of(sort_rows(OrderKey::DateOnly, edition_rows(rows, k.0, k.1)), limit, 0)
        },
        JournalCategory::Past => if rows.len() == 0 {
            Seq::empty()
        } else {
            let k = latest_key(rows)->Some_0;
            page_of(sort_rows(OrderKey::Archive, other_edition_rows(rows, k.0, k.1)), limit, offset)
        },
        JournalCategory::All => page_of(sort_rows(OrderKey::Archive, rows), limit, offset),
    }
}

/// The optional volume/issue refinement applied after category selection;
/// the issue filter applies only together with a volume filter.
pub open spec fn retained_listing(
    s: Seq<JournalView>,
    volume: Option<i32>,
    issue: Option<i32>,
) -> Seq<JournalView> {
    match volume {
        Some(v) => match issue {
            Some(i) => edition_rows(s, v, i),
            None => volume_rows(s, v),
        },
        None => s,
    }
}

/// The public journal API: page and limit default to 1 and 12, the page
/// number is clamped to at least 1 and the limit to at least 0, the category
/// picks the listing, and the volume/issue refinement is applied to the
/// returned page. The flag reports whether the page is full, which callers
/// use as a "has more" hint.
pub fn journal_api_query(repo: &JournalRepository, params: &JournalQueryParams) -> (r: (
    Vec<Journal>,
    bool,
))
    ensures
        ({
            let page = if params.page is Some {
                params.page->Some_0
            } else {
                1
            };
            let lim = if params.limit is Some {
                params.limit->Some_0
            } else {
                12
            };
            let lim_c: int = if lim < 0 {
                0
            } else {
                lim as int
            };
            let qoff: int = (if page < 1 {
                0
            } else {
                (page - 1) as int
            }) * lim_c;
            let cat = if params.category is Some {
                category_spec(params.category->Some_0@)
            } else {
                JournalCategory::All
            };
            &&& r.0.deep_view() == retained_listing(
                category_listing(repo.rows_view(), cat, lim_c, qoff),
                params.volume,
                params.issue,
            )
            &&& r.1 == (lim >= 0 && r.0.deep_view().len() == lim_c)
        }),
{
    let page: i32 = match params.page {
        Some(p) => p,
        None => 1,
    };
    let limit: i32 = match params.limit {
        Some(l) => l,
        None => 12,
    };
    let cat = match &params.category {
        Some(c) => category_of(c.as_str()),
        None => JournalCategory::All,
    };
    let lim_u: usize = if limit < 0 {
        0
    } else {
        limit as usize
    };
    let page_u: u64 = if page < 1 {
        1
    } else {
        page as u64
    };
    proof {
        vstd::arithmetic::mul::lemma_mul_upper_bound(
            (page_u - 1) as int,
            0x8000_0000int,
            lim_u as int,
            0x8000_0000int,
        );
    }
    let offset64: u64 = (page_u - 1) * (lim_u as u64);
    let total = repo.raw_rows().len();
    let ghost qoff: int = (page_u - 1) as int * lim_u as int;
    let offset_u: usize = if offset64 > total as u64 {
        // beyond the end of any listing drawn from `total` rows
        total
    } else {
        offset64 as usize
    };
    proof {
        broadcast use vstd::seq_lib::group_filter_ensures;
    }
    let listed: Vec<Journal> = match cat {
        JournalCategory::Latest => {
            let v = match repo.get_latest_journals(lim_u) {
                Ok(v) => v,
                Err(_) => Vec::new(),
            };
            v
        },
        JournalCategory::Current => {
            let v = match repo.get_current_edition(lim_u) {
                Ok(v) => v,
                Err(_) => Vec::new(),
            };
            v
        },
        JournalCategory::Past => {
            let v = match repo.get_past_issues(lim_u, offset_u) {
                Ok(v) => v,
                Err(_) => Vec::new(),
            };
            proof {
                if repo.rows_view().len() > 0 {
                    let k = latest_key(repo.rows_view())->Some_0;
                    let s = sort_rows(
                        OrderKey::Archive,
                        other_edition_rows(repo.rows_view(), k.0, k.1),
                    );
                    crate::order::lemma_sort_rows_props(
                        OrderKey::Archive,
                        other_edition_rows(repo.rows_view(), k.0, k.1),
                    );
                    assert(other_edition_rows(repo.rows_view(), k.0, k.1).len()
                        <= repo.rows_view().len());
                    assert(page_of(s, lim_u as int, offset_u as int) =~= page_of(
                        s,
                        lim_u as int,
                        qoff,
                    ));
                }
            }
            v
        },
        JournalCategory::All => {
            let v = match repo.get_all_journals(lim_u, offset_u) {
                Ok(v) => v,
                Err(_) => Vec::new(),
            };
            proof {
                let s = sort_rows(OrderKey::Archive, repo.rows_view());
                crate::order::lemma_sort_rows_props(OrderKey::Archive, repo.rows_view());
                assert(page_of(s, lim_u as int, offset_u as int) =~= page_of(
                    s,
                    lim_u as int,
                    qoff,
                ));
            }
            v
        },
    };
    let out: Vec<Journal> = match params.volume {
        Some(v) => {
            match params.issue {
                Some(iss) => JournalRepository::rows_of_edition(&listed, v, iss),
                None => JournalRepository::rows_of_volume(&listed, v),
            }
        },
        None => listed,
    };
    let full = limit >= 0 && out.len() == lim_u;
    (out, full)
}

} // verus!
