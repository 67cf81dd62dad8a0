use ajet_catalog::config::get_journal_config;
use ajet_catalog::errors::SubmissionError;
use ajet_catalog::intake::{
    build_journal_record, build_submission_record, intake_submission, journal_api_query,
    journal_from_edit_form, EditJournalForm, JournalQueryParams,
};
use ajet_catalog::journal::Journal;
use ajet_catalog::journal_store::JournalRepository;
use ajet_catalog::submission::Submission;
use ajet_catalog::submission_store::SubmissionRepository;

fn submission(email: &str) -> Submission {
    Submission::new(
        "Ada Lovelace".to_string(),
        email.to_string(),
        "0123456789".to_string(),
        "A sufficiently long title".to_string(),
        "A".repeat(120),
        "x.pdf".to_string(),
        None,
    )
}

fn journal(volume: i32, issue: i32, date: i64, asset: &str) -> Journal {
    Journal::new(
        "Title".to_string(),
        "Authors".to_string(),
        "Abstract".to_string(),
        "keywords".to_string(),
        volume,
        issue,
        "1-10".to_string(),
        date,
        asset.to_string(),
    )
}

#[test]
fn config_names_the_journal() {
    let config = get_journal_config();
    assert_eq!(
        config.name,
        "African Academic Union - African Journal of Educational Technology"
    );
    assert_eq!(config.field, "Educational Technology");
}

#[test]
fn valid_submission_passes_validation() {
    assert!(submission("ada@example.org").validate_submission().is_ok());
}

#[test]
fn invalid_email_is_rejected() {
    let errors = submission("not-an-email").validate_submission().unwrap_err();
    assert_eq!(errors.len(), 1);
    assert_eq!(errors[0].field, "email");
    assert_eq!(errors[0].message, "Invalid email address");
}

#[test]
fn email_without_long_enough_final_label_is_rejected() {
    assert!(submission("ada@example.o").validate_submission().is_err());
    assert!(submission("a@b.c").validate_submission().is_err());
    assert!(submission("a@b.cd").validate_submission().is_ok());
    assert!(submission("ada@example.org").validate_submission().is_ok());
    assert!(submission("a.b+c@mail-host.example.DE").validate_submission().is_ok());
}

#[test]
fn every_failing_rule_is_reported_in_order() {
    let s = Submission::new(
        String::new(),
        "bad".to_string(),
        "123".to_string(),
        "short".to_string(),
        "tiny".to_string(),
        "x.pdf".to_string(),
        None,
    );
    let errors = s.validate_submission().unwrap_err();
    let fields: Vec<&str> = errors.iter().map(|e| e.field.as_str()).collect();
    assert_eq!(
        fields,
        vec!["full_name", "email", "phone", "title", "abstract_text"]
    );
}

#[test]
fn submission_filename_is_extracted_from_the_stored_reference() {
    let s = submission("ada@example.org");
    assert_eq!(s.pdf_filename().unwrap(), "x.pdf");

    let mut pathy = submission("ada@example.org");
    pathy.pdf_url = "./data/uploads/y.pdf".to_string();
    assert_eq!(pathy.pdf_filename().unwrap(), "y.pdf");

    let mut trailing = submission("ada@example.org");
    trailing.pdf_url = "dir/".to_string();
    assert!(trailing.pdf_filename().is_none());

    let mut empty = submission("ada@example.org");
    empty.pdf_url = String::new();
    assert!(empty.pdf_filename().is_none());
}

#[test]
fn formatted_date_renders_the_creation_day() {
    let mut s = submission("ada@example.org");
    s.created_at = Some(1_709_596_800); // 2024-03-05T00:00:00Z
    assert_eq!(s.formatted_date(), "2024-03-05");
    s.created_at = None;
    assert_eq!(s.formatted_date(), "N/A");
}

#[test]
fn journal_record_requires_every_field_in_order() {
    let r = build_journal_record(None, None, None, None, None, None, None, None, None);
    match r {
        Err(SubmissionError::ValidationError(m)) => assert_eq!(m, "Title is required"),
        other => panic!("expected ValidationError, got {:?}", other.map(|_| ())),
    }
    let r = build_journal_record(
        Some("T".to_string()),
        None,
        None,
        None,
        None,
        None,
        None,
        None,
        None,
    );
    match r {
        Err(SubmissionError::ValidationError(m)) => assert_eq!(m, "Authors are required"),
        other => panic!("expected ValidationError, got {:?}", other.map(|_| ())),
    }
}

#[test]
fn journal_record_parses_the_publication_day() {
    let r = build_journal_record(
        Some("T".to_string()),
        Some("A".to_string()),
        Some("Ab".to_string()),
        Some("K".to_string()),
        Some(3),
        Some(1),
        Some("1-9".to_string()),
        Some("2024-03-05".to_string()),
        Some("x.pdf".to_string()),
    )
    .unwrap();
    assert_eq!(r.publication_date, 1_709_596_800);
    assert_eq!(r.id, None);
    assert_eq!(r.pdf_url, "x.pdf");
}

#[test]
fn journal_record_rejects_a_malformed_day() {
    let r = build_journal_record(
        Some("T".to_string()),
        Some("A".to_string()),
        Some("Ab".to_string()),
        Some("K".to_string()),
        Some(3),
        Some(1),
        Some("1-9".to_string()),
        Some("03/05/2024".to_string()),
        Some("x.pdf".to_string()),
    );
    match r {
        Err(SubmissionError::ValidationError(m)) => {
            assert_eq!(m, "Invalid publication date format")
        },
        other => panic!("expected ValidationError, got {:?}", other.map(|_| ())),
    }
}

#[test]
fn edit_form_checks_date_then_emptiness() {
    let form = EditJournalForm {
        title: "T".to_string(),
        authors: "A".to_string(),
        abstract_text: "Ab".to_string(),
        keywords: "K".to_string(),
        volume_number: 2,
        issue_number: 3,
        pages: "2-4".to_string(),
        publication_date: "2023-12-31".to_string(),
        pdf_url: "y.pdf".to_string(),
    };
    let j = journal_from_edit_form(5, &form).unwrap();
    assert_eq!(j.id, Some(5));
    assert_eq!(j.publication_date, 1_703_980_800); // 2023-12-31T00:00:00Z
    assert_eq!(j.volume_number, 2);

    let mut bad_date = EditJournalForm {
        title: "T".to_string(),
        authors: "A".to_string(),
        abstract_text: "Ab".to_string(),
        keywords: "K".to_string(),
        volume_number: 2,
        issue_number: 3,
        pages: "2-4".to_string(),
        publication_date: "yesterday".to_string(),
        pdf_url: "y.pdf".to_string(),
    };
    assert!(matches!(
        journal_from_edit_form(5, &bad_date),
        Err(SubmissionError::ValidationError(_))
    ));

    bad_date.publication_date = "2023-12-31".to_string();
    bad_date.title = String::new();
    match journal_from_edit_form(5, &bad_date) {
        Err(SubmissionError::ValidationError(m)) => assert_eq!(m, "All fields are required"),
        other => panic!("expected ValidationError, got {:?}", other.map(|_| ())),
    }
}

#[test]
fn submission_record_stores_the_bare_filename() {
    let s = build_submission_record(
        Some("Ada".to_string()),
        Some("ada@example.org".to_string()),
        Some("0123456789".to_string()),
        Some("A long enough title".to_string()),
        Some("A".repeat(120)),
        Some("file.pdf".to_string()),
    )
    .unwrap();
    assert_eq!(s.pdf_url, "file.pdf");

    let r = build_submission_record(None, None, None, None, None, None);
    match r {
        Err(SubmissionError::ValidationError(m)) => assert_eq!(m, "Full name is required"),
        other => panic!("expected ValidationError, got {:?}", other.map(|_| ())),
    }
}

#[test]
fn intake_rejects_invalid_submissions_with_a_joined_message() {
    let mut repo = SubmissionRepository::new();
    let bad = Submission::new(
        String::new(),
        "ada@example.org".to_string(),
        "0123456789".to_string(),
        "A long enough title".to_string(),
        "A".repeat(120),
        "x.pdf".to_string(),
        None,
    );
    match intake_submission(&mut repo, &bad) {
        Err(SubmissionError::ValidationError(m)) => {
            assert_eq!(m, "full_name: Name cannot be empty")
        },
        other => panic!("expected ValidationError, got {:?}", other.map(|_| ())),
    }
    assert!(repo.get_all_submissions().unwrap().is_empty());
}

#[test]
fn intake_appends_valid_submissions() {
    let mut repo = SubmissionRepository::new();
    let id = intake_submission(&mut repo, &submission("ada@example.org")).unwrap();
    assert_eq!(id, 1);
    let all = repo.get_all_submissions().unwrap();
    assert_eq!(all.len(), 1);
    assert_eq!(all[0].id, Some(1));
    assert!(all[0].created_at.is_some());
}

#[test]
fn submissions_list_most_recent_first() {
    let mut repo = SubmissionRepository::new();
    repo.save_submission(&submission("a@example.org")).unwrap();
    repo.save_submission(&submission("b@example.org")).unwrap();
    repo.save_submission(&submission("c@example.org")).unwrap();

    let all = repo.get_all_submissions().unwrap();
    let ids: Vec<Option<i64>> = all.iter().map(|s| s.id).collect();
    assert_eq!(ids, vec![Some(3), Some(2), Some(1)]);

    let recent = repo.get_recent_submissions(2).unwrap();
    let ids: Vec<Option<i64>> = recent.iter().map(|s| s.id).collect();
    assert_eq!(ids, vec![Some(3), Some(2)]);
}

#[test]
fn submission_lookup_by_identity() {
    let mut repo = SubmissionRepository::new();
    repo.save_submission(&submission("a@example.org")).unwrap();
    assert_eq!(repo.get_submission_by_id(1).unwrap().email, "a@example.org");
    assert!(matches!(
        repo.get_submission_by_id(7),
        Err(SubmissionError::NotFound(_))
    ));
}

#[test]
fn api_query_dispatches_categories_and_refines() {
    let mut repo = JournalRepository::new();
    repo.save_journal(&journal(1, 1, 1_000, "a.pdf")).unwrap();
    repo.save_journal(&journal(1, 2, 2_000, "b.pdf")).unwrap();
    repo.save_journal(&journal(2, 1, 3_000, "c.pdf")).unwrap();

    let (latest, _) = journal_api_query(
        &repo,
        &JournalQueryParams {
            page: None,
            limit: Some(2),
            category: Some("latest".to_string()),
            volume: None,
            issue: None,
        },
    );
    assert_eq!(latest.len(), 2);
    assert_eq!(latest[0].publication_date, 3_000);

    let (current, has_more) = journal_api_query(
        &repo,
        &JournalQueryParams {
            page: None,
            limit: Some(12),
            category: Some("current".to_string()),
            volume: None,
            issue: None,
        },
    );
    assert_eq!(current.len(), 1);
    assert_eq!(current[0].pdf_url, "c.pdf");
    assert!(!has_more);

    let (past, _) = journal_api_query(
        &repo,
        &JournalQueryParams {
            page: None,
            limit: None,
            category: Some("past".to_string()),
            volume: None,
            issue: None,
        },
    );
    assert_eq!(past.len(), 2);

    let (vol1, _) = journal_api_query(
        &repo,
        &JournalQueryParams {
            page: None,
            limit: None,
            category: None,
            volume: Some(1),
            issue: Some(2),
        },
    );
    assert_eq!(vol1.len(), 1);
    assert_eq!(vol1[0].pdf_url, "b.pdf");
}

#[test]
fn api_query_reports_a_full_page_as_has_more() {
    let mut repo = JournalRepository::new();
    repo.save_journal(&journal(1, 1, 1_000, "a.pdf")).unwrap();
    repo.save_journal(&journal(1, 2, 2_000, "b.pdf")).unwrap();

    let (page, has_more) = journal_api_query(
        &repo,
        &JournalQueryParams {
            page: Some(1),
            limit: Some(2),
            category: None,
            volume: None,
            issue: None,
        },
    );
    assert_eq!(page.len(), 2);
    assert!(has_more);

    let (rest, has_more) = journal_api_query(
        &repo,
        &JournalQueryParams {
            page: Some(2),
            limit: Some(2),
            category: None,
            volume: None,
            issue: None,
        },
    );
    assert!(rest.is_empty());
    assert!(!has_more);
}

#[test]
fn journal_display_helpers() {
    let mut j = journal(3, 7, 1_000, "file.pdf");
    assert_eq!(j.id_string(), "");
    j.id = Some(125);
    assert_eq!(j.id_string(), "125");
    j.id = Some(0);
    assert_eq!(j.id_string(), "0");
    j.id = Some(1_000_000);
    assert_eq!(j.id_string(), "1000000");
    assert_eq!(j.volume_issue_display(), "Vol. 3 No. 7");
    assert_eq!(j.pdf_url(), "data/uploads/file.pdf");
}
