use ajet_catalog::admin_store::AdminRepository;
use ajet_catalog::assets::{asset_name_for, asset_path, generate_asset_name};
use ajet_catalog::errors::SubmissionError;
use ajet_catalog::response::ValidationResponse;
use ajet_catalog::security::{authenticate, hash_password, verify_password};

#[test]
fn password_hash_verifies_round_trip() {
    let hash = hash_password("correct horse").unwrap();
    assert_eq!(hash.len(), 60);
    assert_eq!(verify_password("correct horse", &hash).unwrap(), true);
    assert_eq!(verify_password("wrong horse", &hash).unwrap(), false);
}

#[test]
fn malformed_stored_hash_is_a_hashing_error() {
    assert!(matches!(
        verify_password("pw", "not-a-bcrypt-hash"),
        Err(SubmissionError::HashingError(_))
    ));
}

#[test]
fn admin_accounts_are_found_by_email() {
    let mut repo = AdminRepository::new();
    let id = repo.create_admin("root@example.org", "hash").unwrap();
    assert_eq!(id, 1);

    let found = repo.find_admin_by_email("root@example.org").unwrap().unwrap();
    assert_eq!(found.id, 1);
    assert_eq!(found.password_hash, "hash");
    assert!(repo.find_admin_by_email("other@example.org").unwrap().is_none());
}

#[test]
fn duplicate_admin_email_is_rejected() {
    let mut repo = AdminRepository::new();
    repo.create_admin("root@example.org", "h1").unwrap();
    assert!(matches!(
        repo.create_admin("root@example.org", "h2"),
        Err(SubmissionError::DatabaseError(_))
    ));
    let found = repo.find_admin_by_email("root@example.org").unwrap().unwrap();
    assert_eq!(found.password_hash, "h1");
}

#[test]
fn authentication_accepts_the_right_password_only() {
    let mut repo = AdminRepository::new();
    let hash = hash_password("open sesame").unwrap();
    repo.create_admin("root@example.org", &hash).unwrap();

    assert_eq!(
        authenticate(&repo, "root@example.org", "open sesame").unwrap(),
        Some(1)
    );
    assert_eq!(
        authenticate(&repo, "root@example.org", "shut sesame").unwrap(),
        None
    );
    assert_eq!(
        authenticate(&repo, "ghost@example.org", "open sesame").unwrap(),
        None
    );
}

#[test]
fn asset_names_keep_the_original_extension() {
    assert_eq!(asset_name_for("abc", "paper.pdf"), "abc.pdf");
    assert_eq!(asset_name_for("abc", "archive.tar.gz"), "abc.gz");
    assert_eq!(asset_name_for("abc", "noext"), "abc.bin");
    assert_eq!(asset_name_for("abc", ".hidden"), "abc.bin");
    assert_eq!(asset_name_for("abc", "dir/paper.pdf"), "abc.pdf");
    assert_eq!(asset_name_for("abc", "a.b/c"), "abc.bin");
    assert_eq!(asset_name_for("abc", "dir.v2/.hidden"), "abc.bin");
}

#[test]
fn generated_asset_names_are_fresh_and_well_formed() {
    let a = generate_asset_name("paper.pdf");
    let b = generate_asset_name("paper.pdf");
    assert_ne!(a, b);
    assert_eq!(a.len(), 36 + 1 + 3);
    assert!(a.ends_with(".pdf"));
    assert_eq!(a.chars().filter(|c| *c == '/').count(), 0);
    let c = generate_asset_name("nodot");
    assert!(c.ends_with(".bin"));
    let d = generate_asset_name("a.b/c");
    assert_eq!(d.chars().filter(|ch| *ch == '/').count(), 0);
    assert!(d.ends_with(".bin"));
}

#[test]
fn asset_paths_join_the_upload_directory() {
    assert_eq!(asset_path("x.pdf"), "./data/uploads/x.pdf");
}

#[test]
fn error_kinds_map_to_codes_and_status() {
    let e = SubmissionError::Conflict("duplicate".to_string());
    assert_eq!(e.error_code(), "CONFLICT_ERROR");
    assert_eq!(e.status_code(), 409);
    assert_eq!(e.message(), "Conflict error: duplicate");
    let body = e.error_response_body();
    assert_eq!(body.error, "CONFLICT_ERROR");
    assert_eq!(body.message, "duplicate");

    assert_eq!(
        SubmissionError::NotFound(String::new()).status_code(),
        404
    );
    assert_eq!(
        SubmissionError::ValidationError(String::new()).status_code(),
        400
    );
    assert_eq!(
        SubmissionError::Unauthorized(String::new()).status_code(),
        401
    );
    assert_eq!(
        SubmissionError::DatabaseError(String::new()).status_code(),
        500
    );
    assert_eq!(
        SubmissionError::StorageError(String::new()).error_code(),
        "STORAGE_ERROR"
    );
    assert_eq!(
        SubmissionError::FileProcessingError(String::new()).status_code(),
        400
    );
    assert_eq!(
        SubmissionError::HashingError(String::new()).status_code(),
        500
    );
    assert_eq!(
        SubmissionError::InternalError(String::new()).status_code(),
        500
    );
}

#[test]
fn validation_failures_join_into_one_message() {
    let failures = vec![
        ValidationResponse::new("email", "Invalid email address"),
        ValidationResponse::new("phone", "Phone number must be between 10-15 digits"),
    ];
    match SubmissionError::from_validation(&failures) {
        SubmissionError::ValidationError(m) => assert_eq!(
            m,
            "email: Invalid email address; phone: Phone number must be between 10-15 digits"
        ),
        other => panic!("expected ValidationError, got {:?}", other),
    }
}
