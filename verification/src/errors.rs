//! The error taxonomy shared by every component: each failure is returned
//! typed by kind, never as a raw diagnostic string to be matched on.

use vstd::prelude::*;
use crate::response::{ValidationResponse, ValidationResponseView};

verus! {

/// Every failure the catalog, resolver or lifecycle manager can report.
#[derive(Debug)]
pub enum SubmissionError {
    DatabaseError(String),
    StorageError(String),
    ValidationError(String),
    FileProcessingError(String),
    NotFound(String),
    Unauthorized(String),
    HashingError(String),
    InternalError(String),
    Conflict(String),
}

/// The JSON error payload shown to API callers.
pub struct ErrorResponse {
    pub error: String,
    pub message: String,
}

/// `"field: message"` lines joined with `"; "`, in order.
pub open spec fn joined_validation(errs: Seq<ValidationResponseView>) -> Seq<char>
    decreases errs.len(),
{
    if errs.len() == 0 {
        Seq::empty()
    } else if errs.len() == 1 {
        errs[0].field + ": "@ + errs[0].message
    } else {
        joined_validation(errs.drop_last()) + "; "@ + errs.last().field + ": "@
            + errs.last().message
    }
}

impl SubmissionError {
    /// Human-readable description: the kind's prefix followed by the detail.
    pub fn message(&self) -> (r: String)
        ensures
            r@ == match self {
                SubmissionError::DatabaseError(m) => "Database error: "@ + m@,
                SubmissionError::StorageError(m) => "Storage error: "@ + m@,
                SubmissionError::ValidationError(m) => "Validation error: "@ + m@,
                SubmissionError::FileProcessingError(m) => "File processing error: "@ + m@,
                SubmissionError::NotFound(m) => "Not found error: "@ + m@,
                SubmissionError::Unauthorized(m) => "Unauthorized error: "@ + m@,
                SubmissionError::HashingError(m) => "Hashing error: "@ + m@,
                SubmissionError::InternalError(m) => "Internal error: "@ + m@,
                SubmissionError::Conflict(m) => "Conflict error: "@ + m@,
            },
    {
        match self {
            SubmissionError::DatabaseError(m) => String::from_str("Database error: ").concat(
                m.as_str(),
            ),
            SubmissionError::StorageError(m) => String::from_str("Storage error: ").concat(
                m.as_str(),
            ),
            SubmissionError::ValidationError(m) => String::from_str("Validation error: ").concat(
                m.as_str(),
            ),
            SubmissionError::FileProcessingError(m) => String::from_str(
                "File processing error: ",
            ).concat(m.as_str()),
            SubmissionError::NotFound(m) => String::from_str("Not found error: ").concat(
                m.as_str(),
            ),
            SubmissionError::Unauthorized(m) => String::from_str("Unauthorized error: ").concat(
                m.as_str(),
            ),
            SubmissionError::HashingError(m) => String::from_str("Hashing error: ").concat(
                m.as_str(),
            ),
            SubmissionError::InternalError(m) => String::from_str("Internal error: ").concat(
                m.as_str(),
            ),
            SubmissionError::Conflict(m) => String::from_str("Conflict error: ").concat(m.as_str()),
        }
    }

    /// The stable machine-readable code of this kind.
    pub fn error_code(&self) -> (r: &'static str)
        ensures
            r@ == match self {
                SubmissionError::DatabaseError(_) => "DATABASE_ERROR"@,
                SubmissionError::StorageError(_) => "STORAGE_ERROR"@,
                SubmissionError::ValidationError(_) => "VALIDATION_ERROR"@,
                SubmissionError::FileProcessingError(_) => "FILE_PROCESSING_ERROR"@,
                SubmissionError::NotFound(_) => "NOT_FOUND_ERROR"@,
                SubmissionError::Unauthorized(_) => "UNAUTHORIZED_ERROR"@,
                SubmissionError::HashingError(_) => "HASHING_ERROR"@,
                SubmissionError::InternalError(_) => "INTERNAL_ERROR"@,
                SubmissionError::Conflict(_) => "CONFLICT_ERROR"@,
            },
    {
        match self {
            SubmissionError::DatabaseError(_) => "DATABASE_ERROR",
            SubmissionError::StorageError(_) => "STORAGE_ERROR",
            SubmissionError::ValidationError(_) => "VALIDATION_ERROR",
            SubmissionError::FileProcessingError(_) => "FILE_PROCESSING_ERROR",
            SubmissionError::NotFound(_) => "NOT_FOUND_ERROR",
            SubmissionError::Unauthorized(_) => "UNAUTHORIZED_ERROR",
            SubmissionError::HashingError(_) => "HASHING_ERROR",
            SubmissionError::InternalError(_) => "INTERNAL_ERROR",
            SubmissionError::Conflict(_) => "CONFLICT_ERROR",
        }
    }

    /// The HTTP status code each kind maps to.
    pub fn status_code(&self) -> (r: u16)
        ensures
            r == match self {
                SubmissionError::DatabaseError(_) => 500u16,
                SubmissionError::StorageError(_) => 500u16,
                SubmissionError::ValidationError(_) => 400u16,
                SubmissionError::FileProcessingError(_) => 400u16,
                SubmissionError::NotFound(_) => 404u16,
                SubmissionError::Unauthorized(_) => 401u16,
                SubmissionError::HashingError(_) => 500u16,
                SubmissionError::InternalError(_) => 500u16,
                SubmissionError::Conflict(_) => 409u16,
            },
    {
        match self {
            SubmissionError::DatabaseError(_) => 500,
            SubmissionError::StorageError(_) => 500,
            SubmissionError::ValidationError(_) => 400,
            SubmissionError::FileProcessingError(_) => 400,
            SubmissionError::NotFound(_) => 404,
            SubmissionError::Unauthorized(_) => 401,
            SubmissionError::HashingError(_) => 500,
            SubmissionError::InternalError(_) => 500,
            SubmissionError::Conflict(_) => 409,
        }
    }

    /// The JSON payload for this error: its code and the raw detail message.
    pub fn error_response_body(&self) -> (r: ErrorResponse)
        ensures
            r.error@ == self.error_code_spec(),
            r.message@ == self.detail_spec(),
    {
        let detail = match self {
            SubmissionError::DatabaseError(m) => m.as_str(),
            SubmissionError::StorageError(m) => m.as_str(),
            SubmissionError::ValidationError(m) => m.as_str(),
            SubmissionError::FileProcessingError(m) => m.as_str(),
            SubmissionError::NotFound(m) => m.as_str(),
            SubmissionError::Unauthorized(m) => m.as_str(),
            SubmissionError::HashingError(m) => m.as_str(),
            SubmissionError::InternalError(m) => m.as_str(),
            SubmissionError::Conflict(m) => m.as_str(),
        };
        ErrorResponse {
            error: String::from_str(self.error_code()),
            message: String::from_str(detail),
        }
    }

    /// The code of this kind, as a sequence of characters.
    pub open spec fn error_code_spec(&self) -> Seq<char> {
        match self {
            SubmissionError::DatabaseError(_) => "DATABASE_ERROR"@,
            SubmissionError::StorageError(_) => "STORAGE_ERROR"@,
            SubmissionError::ValidationError(_) => "VALIDATION_ERROR"@,
            SubmissionError::FileProcessingError(_) => "FILE_PROCESSING_ERROR"@,
            SubmissionError::NotFound(_) => "NOT_FOUND_ERROR"@,
            SubmissionError::Unauthorized(_) => "UNAUTHORIZED_ERROR"@,
            SubmissionError::HashingError(_) => "HASHING_ERROR"@,
            SubmissionError::InternalError(_) => "INTERNAL_ERROR"@,
            SubmissionError::Conflict(_) => "CONFLICT_ERROR"@,
        }
    }

    /// The detail message carried by this error.
    pub open spec fn detail_spec(&self) -> Seq<char> {
        match self {
            SubmissionError::DatabaseError(m) => m@,
            SubmissionError::StorageError(m) => m@,
            SubmissionError::ValidationError(m) => m@,
            SubmissionError::FileProcessingError(m) => m@,
            SubmissionError::NotFound(m) => m@,
            SubmissionError::Unauthorized(m) => m@,
            SubmissionError::HashingError(m) => m@,
            SubmissionError::InternalError(m) => m@,
            SubmissionError::Conflict(m) => m@,
        }
    }

    /// Folds field-level validation failures into one `ValidationError` whose
    /// message joins every `"field: message"` line with `"; "`.
    pub fn from_validation(errors: &Vec<ValidationResponse>) -> (r: SubmissionError)
        ensures
            r matches SubmissionError::ValidationError(m) && m@ == joined_validation(
                errors.deep_view(),
            ),
    {
        let mut acc = String::new();
        let mut i: usize = 0;
        proof {
            assert(errors.deep_view().take(0) =~= Seq::<ValidationResponseView>::empty());
        }
        while i < errors.len()
            invariant
                i <= errors.len(),
                acc@ == joined_validation(errors.deep_view().take(i as int)),
            decreases errors.len() - i,
        {
            if i > 0 {
                acc.append("; ");
            }
            acc.append(errors[i].field.as_str());
            acc.append(": ");
            acc.append(errors[i].message.as_str());
            proof {
                let evs = errors.deep_view();
                assert(evs.take(i + 1).drop_last() =~= evs.take(i as int));
                assert(evs.take(i + 1).last() == evs[i as int]);
                assert(acc@ =~= joined_validation(evs.take(i + 1)));
            }
            i = i + 1;
        }
        proof {
            assert(errors.deep_view().take(errors.len() as int) =~= errors.deep_view());
        }
        SubmissionError::ValidationError(acc)
    }
}

} // verus!
