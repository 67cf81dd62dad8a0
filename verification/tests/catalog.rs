use ajet_catalog::errors::SubmissionError;
use ajet_catalog::journal::Journal;
use ajet_catalog::journal_store::JournalRepository;

fn journal(volume: i32, issue: i32, date: i64, asset: &str) -> Journal {
    Journal::new(
        format!("Title v{volume} i{issue}"),
        "Authors".to_string(),
        "Abstract".to_string(),
        "keywords".to_string(),
        volume,
        issue,
        "1-10".to_string(),
        date,
        asset.to_string(),
    )
}

#[test]
fn insert_assigns_identity_and_creation_instant() {
    let mut repo = JournalRepository::new();
    let id = repo.save_journal(&journal(1, 1, 1_000, "a.pdf")).unwrap();
    assert_eq!(id, 1);
    let row = repo.get_journal_by_id(1).unwrap();
    assert_eq!(row.id, Some(1));
    assert!(row.created_at.is_some());
    assert_eq!(row.volume_number, 1);
    assert_eq!(row.pdf_url, "a.pdf");
}

#[test]
fn duplicate_asset_reference_conflicts_and_first_row_is_unaffected() {
    let mut repo = JournalRepository::new();
    let first = repo.save_journal(&journal(1, 1, 1_000, "same.pdf"));
    assert_eq!(first.unwrap(), 1);

    let second = repo.save_journal(&journal(2, 2, 2_000, "same.pdf"));
    match second {
        Err(SubmissionError::Conflict(_)) => {},
        other => panic!("expected Conflict, got {:?}", other.map(|_| ())),
    }

    let row = repo.get_journal_by_id(1).unwrap();
    assert_eq!(row.volume_number, 1);
    assert_eq!(row.issue_number, 1);
    assert_eq!(row.publication_date, 1_000);
    assert_eq!(row.pdf_url, "same.pdf");
}

#[test]
fn current_edition_returns_only_highest_pair() {
    let mut repo = JournalRepository::new();
    repo.save_journal(&journal(1, 1, 1_000, "a.pdf")).unwrap();
    repo.save_journal(&journal(1, 2, 2_000, "b.pdf")).unwrap();
    repo.save_journal(&journal(2, 1, 1_500, "c.pdf")).unwrap();

    let key = repo.get_latest_volume_issue();
    assert_eq!(key, Some((2, 1)));

    let current = repo.get_current_edition(10).unwrap();
    assert_eq!(current.len(), 1);
    assert_eq!(current[0].volume_number, 2);
    assert_eq!(current[0].issue_number, 1);
    assert_eq!(current[0].pdf_url, "c.pdf");
}

#[test]
fn past_issues_returns_other_editions_in_archive_order() {
    let mut repo = JournalRepository::new();
    repo.save_journal(&journal(1, 1, 1_000, "a.pdf")).unwrap();
    repo.save_journal(&journal(1, 2, 2_000, "b.pdf")).unwrap();
    repo.save_journal(&journal(2, 1, 1_500, "c.pdf")).unwrap();

    let past = repo.get_past_issues(10, 0).unwrap();
    assert_eq!(past.len(), 2);
    // (volume DESC, issue DESC, date DESC): (1,2) before (1,1)
    assert_eq!((past[0].volume_number, past[0].issue_number), (1, 2));
    assert_eq!((past[1].volume_number, past[1].issue_number), (1, 1));
}

#[test]
fn empty_catalog_yields_empty_views_not_errors() {
    let repo = JournalRepository::new();
    assert_eq!(repo.get_latest_volume_issue(), None);
    assert!(repo.get_current_edition(10).unwrap().is_empty());
    assert!(repo.get_past_issues(10, 0).unwrap().is_empty());
    assert!(repo.get_all_journals(10, 0).unwrap().is_empty());
    assert!(repo.get_all_journals_for_archive().unwrap().is_empty());
    assert!(repo.get_latest_journals(10).unwrap().is_empty());
}

#[test]
fn paged_listing_covers_all_rows_exactly_once() {
    let mut repo = JournalRepository::new();
    for v in 1..=5 {
        repo.save_journal(&journal(v, 1, 1_000 + v as i64, &format!("{v}.pdf"))).unwrap();
    }
    // archive order: volume 5 first
    let page1 = repo.get_all_journals(2, 0).unwrap();
    let page2 = repo.get_all_journals(2, 2).unwrap();
    let page3 = repo.get_all_journals(2, 4).unwrap();

    let volumes: Vec<i32> = page1
        .iter()
        .chain(page2.iter())
        .chain(page3.iter())
        .map(|j| j.volume_number)
        .collect();
    assert_eq!(volumes, vec![5, 4, 3, 2, 1]);

    let ids1: Vec<Option<i64>> = page1.iter().map(|j| j.id).collect();
    let ids2: Vec<Option<i64>> = page2.iter().map(|j| j.id).collect();
    for id in &ids1 {
        assert!(!ids2.contains(id));
    }
    assert_eq!(page1.len(), 2);
    assert_eq!(page2.len(), 2);
    assert_eq!(page3.len(), 1);
}

#[test]
fn archive_listing_orders_by_volume_issue_date() {
    let mut repo = JournalRepository::new();
    repo.save_journal(&journal(1, 2, 5_000, "a.pdf")).unwrap();
    repo.save_journal(&journal(2, 1, 1_000, "b.pdf")).unwrap();
    repo.save_journal(&journal(1, 2, 9_000, "c.pdf")).unwrap();
    repo.save_journal(&journal(2, 3, 2_000, "d.pdf")).unwrap();

    let all = repo.get_all_journals_for_archive().unwrap();
    let keys: Vec<(i32, i32, i64)> = all
        .iter()
        .map(|j| (j.volume_number, j.issue_number, j.publication_date))
        .collect();
    assert_eq!(
        keys,
        vec![(2, 3, 2_000), (2, 1, 1_000), (1, 2, 9_000), (1, 2, 5_000)]
    );
}

#[test]
fn latest_journals_orders_by_date_only() {
    let mut repo = JournalRepository::new();
    repo.save_journal(&journal(5, 1, 1_000, "a.pdf")).unwrap();
    repo.save_journal(&journal(1, 1, 9_000, "b.pdf")).unwrap();
    repo.save_journal(&journal(3, 1, 5_000, "c.pdf")).unwrap();

    let latest = repo.get_latest_journals(2).unwrap();
    assert_eq!(latest.len(), 2);
    assert_eq!(latest[0].publication_date, 9_000);
    assert_eq!(latest[1].publication_date, 5_000);
}

#[test]
fn volume_issue_selection_filters_and_orders() {
    let mut repo = JournalRepository::new();
    repo.save_journal(&journal(1, 1, 1_000, "a.pdf")).unwrap();
    repo.save_journal(&journal(1, 2, 2_000, "b.pdf")).unwrap();
    repo.save_journal(&journal(1, 2, 3_000, "c.pdf")).unwrap();
    repo.save_journal(&journal(2, 1, 4_000, "d.pdf")).unwrap();

    let pair = repo.get_journals_by_volume_issue(1, Some(2), 10, 0).unwrap();
    assert_eq!(pair.len(), 2);
    assert_eq!(pair[0].publication_date, 3_000);
    assert_eq!(pair[1].publication_date, 2_000);

    let vol = repo.get_journals_by_volume_issue(1, None, 10, 0).unwrap();
    assert_eq!(vol.len(), 3);
    assert_eq!((vol[0].issue_number, vol[0].publication_date), (2, 3_000));
    assert_eq!((vol[1].issue_number, vol[1].publication_date), (2, 2_000));
    assert_eq!((vol[2].issue_number, vol[2].publication_date), (1, 1_000));
}

#[test]
fn update_replaces_fields_and_keeps_identity() {
    let mut repo = JournalRepository::new();
    repo.save_journal(&journal(1, 1, 1_000, "a.pdf")).unwrap();
    let created = repo.get_journal_by_id(1).unwrap().created_at;

    let mut replacement = journal(7, 8, 9_000, "a2.pdf");
    replacement.id = Some(1);
    repo.update_journal(&replacement).unwrap();

    let row = repo.get_journal_by_id(1).unwrap();
    assert_eq!(row.volume_number, 7);
    assert_eq!(row.issue_number, 8);
    assert_eq!(row.publication_date, 9_000);
    assert_eq!(row.pdf_url, "a2.pdf");
    assert_eq!(row.created_at, created);
}

#[test]
fn update_without_id_is_a_validation_error() {
    let mut repo = JournalRepository::new();
    let r = repo.update_journal(&journal(1, 1, 1_000, "a.pdf"));
    assert!(matches!(r, Err(SubmissionError::ValidationError(_))));
}

#[test]
fn update_of_missing_row_is_not_found() {
    let mut repo = JournalRepository::new();
    let mut j = journal(1, 1, 1_000, "a.pdf");
    j.id = Some(42);
    let r = repo.update_journal(&j);
    assert!(matches!(r, Err(SubmissionError::NotFound(_))));
}

#[test]
fn update_to_anothers_asset_reference_conflicts_and_leaves_target_unchanged() {
    let mut repo = JournalRepository::new();
    repo.save_journal(&journal(1, 1, 1_000, "a.pdf")).unwrap();
    repo.save_journal(&journal(2, 2, 2_000, "b.pdf")).unwrap();

    let mut hijack = journal(2, 2, 2_000, "a.pdf");
    hijack.id = Some(2);
    let r = repo.update_journal(&hijack);
    assert!(matches!(r, Err(SubmissionError::Conflict(_))));

    let row = repo.get_journal_by_id(2).unwrap();
    assert_eq!(row.pdf_url, "b.pdf");
}

#[test]
fn update_keeping_own_asset_reference_succeeds() {
    let mut repo = JournalRepository::new();
    repo.save_journal(&journal(1, 1, 1_000, "a.pdf")).unwrap();
    let mut same = journal(1, 1, 7_000, "a.pdf");
    same.id = Some(1);
    assert!(repo.update_journal(&same).is_ok());
    assert_eq!(repo.get_journal_by_id(1).unwrap().publication_date, 7_000);
}

#[test]
fn get_of_missing_row_is_not_found() {
    let repo = JournalRepository::new();
    assert!(matches!(
        repo.get_journal_by_id(9),
        Err(SubmissionError::NotFound(_))
    ));
}

#[test]
fn delete_removes_row_and_reports_missing_blob_as_inconsistency() {
    let mut repo = JournalRepository::new();
    repo.save_journal(&journal(1, 1, 1_000, "gone.pdf")).unwrap();

    let asset = repo.delete_journal_by_id(1).unwrap();
    assert_eq!(asset, "gone.pdf");

    // The blob is missing from storage: its removal fails, the protocol
    // reports the inconsistency, and the row stays deleted.
    let conclusion = ajet_catalog::assets::conclude_asset_removal(false);
    assert!(matches!(conclusion, Err(SubmissionError::StorageError(_))));
    assert!(matches!(
        repo.get_journal_by_id(1),
        Err(SubmissionError::NotFound(_))
    ));
}

#[test]
fn delete_of_missing_row_is_not_found() {
    let mut repo = JournalRepository::new();
    assert!(matches!(
        repo.delete_journal_by_id(3),
        Err(SubmissionError::NotFound(_))
    ));
}

#[test]
fn delete_succeeds_when_blob_removal_succeeds() {
    let mut repo = JournalRepository::new();
    repo.save_journal(&journal(1, 1, 1_000, "x.pdf")).unwrap();
    let asset = repo.delete_journal_by_id(1).unwrap();
    assert_eq!(asset, "x.pdf");
    assert!(ajet_catalog::assets::conclude_asset_removal(true).is_ok());
}

#[test]
fn identities_are_not_reused_after_delete() {
    let mut repo = JournalRepository::new();
    repo.save_journal(&journal(1, 1, 1_000, "a.pdf")).unwrap();
    repo.delete_journal_by_id(1).unwrap();
    let id = repo.save_journal(&journal(2, 2, 2_000, "b.pdf")).unwrap();
    assert_eq!(id, 2);
}

#[test]
fn restore_takes_persisted_rows_back() {
    let mut repo = JournalRepository::new();
    repo.save_journal(&journal(1, 1, 1_000, "a.pdf")).unwrap();
    repo.save_journal(&journal(2, 1, 2_000, "b.pdf")).unwrap();

    let rows = repo.get_all_journals_for_archive().unwrap();
    let mut restored = JournalRepository::restore(rows).unwrap();
    assert_eq!(restored.get_journal_by_id(1).unwrap().pdf_url, "a.pdf");

    let id = restored.save_journal(&journal(3, 1, 3_000, "c.pdf")).unwrap();
    assert_eq!(id, 3);
}

#[test]
fn restore_rejects_rows_that_break_the_invariants() {
    // a row without an identity
    assert!(JournalRepository::restore(vec![journal(1, 1, 1_000, "a.pdf")]).is_none());

    // duplicate identities
    let mut a = journal(1, 1, 1_000, "a.pdf");
    a.id = Some(1);
    let mut b = journal(2, 1, 2_000, "b.pdf");
    b.id = Some(1);
    assert!(JournalRepository::restore(vec![a.clone(), b]).is_none());

    // duplicate asset references
    let mut c = journal(2, 1, 2_000, "a.pdf");
    c.id = Some(2);
    assert!(JournalRepository::restore(vec![a, c]).is_none());
}
