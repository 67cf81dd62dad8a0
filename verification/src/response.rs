//! Plain response payloads handed back to the view layer.

use vstd::prelude::*;

verus! {

/// Payload returned after a successful public submission.
pub struct SubmissionResponse {
    pub success: bool,
    pub submission_id: i32,
    pub message: String,
}

/// Payload returned after a successful journal upload.
pub struct UploadResponse {
    pub success: bool,
    pub journal_id: i32,
    pub message: String,
}

/// A single field-level validation failure.
pub struct ValidationResponse {
    pub field: String,
    pub message: String,
}

/// Mathematical image of a [`ValidationResponse`].
pub ghost struct ValidationResponseView {
    pub field: Seq<char>,
    pub message: Seq<char>,
}

impl DeepView for ValidationResponse {
    type V = ValidationResponseView;

    open spec fn deep_view(&self) -> ValidationResponseView {
        ValidationResponseView { field: self.field@, message: self.message@ }
    }
}

impl ValidationResponse {
    /// Builds a field-level validation failure from its two parts.
    pub fn new(field: &str, message: &str) -> (r: Self)
        ensures
            r.field@ == field@,
            r.message@ == message@,
    {
        ValidationResponse { field: String::from_str(field), message: String::from_str(message) }
    }
}

} // verus!
