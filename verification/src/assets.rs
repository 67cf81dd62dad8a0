//! The asset lifecycle: the naming convention for stored blobs, the path
//! convention, and the tail of the best-effort delete protocol.
//!
//! The protocol is deliberately non-transactional. Create: the blob is
//! written under a collision-resistant name before the row is inserted; if
//! the insert then fails the blob is orphaned, an accepted, recoverable
//! inconsistency. Delete: the row is removed first
//! (`JournalRepository::delete_journal_by_id`); only then is the blob
//! removal attempted, and a failure there is reported as a storage
//! inconsistency — the row deletion is never rolled back.

use vstd::prelude::*;
use crate::errors::SubmissionError;
use crate::text::{
    after_last, extension_component, extension_of, filename_component,
    lemma_after_last_excludes, lemma_extension_of_keeps_missing, lemma_extension_of_no_dot,
};

verus! {

/// The extension used for a stored blob: the extension of the original
/// filename's final path component, or `"bin"` when it has none. Taking the
/// component first keeps a client-supplied name like `a.b/c` from smuggling
/// a path separator into the extension.
pub open spec fn extension_text(f: Seq<char>) -> Seq<char> {
    match extension_of(after_last(f, '/')) {
        Some(e) => e,
        None => "bin"@,
    }
}

/// The chosen extension holds neither a dot nor a path separator.
pub proof fn lemma_extension_text_bare(f: Seq<char>)
    ensures
        forall|i: int|
            0 <= i < extension_text(f).len() ==> extension_text(f)[i] != '.' && extension_text(
                f,
            )[i] != '/',
{
    reveal_strlit("bin");
    let comp = after_last(f, '/');
    lemma_after_last_excludes(f, '/');
    match extension_of(comp) {
        Some(e) => {
            lemma_extension_of_no_dot(comp);
            lemma_extension_of_keeps_missing(comp, '/');
        },
        None => {
            assert("bin"@ =~= seq!['b', 'i', 'n']);
        },
    }
}

/// Relies on `uuid::Uuid::new_v4` and its `Display` implementation: the
/// hyphenated lowercase form, 36 characters of hex digits and hyphens —
/// never a dot or a path separator. The value itself is random and nothing
/// more is assumed of it.
#[verifier::external_body]
pub fn fresh_asset_id() -> (r: String)
    ensures
        r@.len() == 36,
        forall|i: int| 0 <= i < r@.len() ==> (#[trigger] r@[i]) != '.' && r@[i] != '/',
{
    uuid::Uuid::new_v4().to_string()
}

/// The stored name for a blob: the identifier, a dot, and the extension of
/// the original filename's final component (default `"bin"`).
pub fn asset_name_for(id: &str, original_filename: &str) -> (r: String)
    ensures
        r@ == id@ + "."@ + extension_text(original_filename@),
{
    let ext = match filename_component(original_filename) {
        Some(base) => match extension_component(base.as_str()) {
            Some(e) => e,
            None => String::from_str("bin"),
        },
        None => String::from_str("bin"),
    };
    let mut name = String::from_str(id);
    name.append(".");
    name.append(ext.as_str());
    name
}

/// A collision-resistant name for a fresh blob: a random identifier, a dot,
/// and the original filename's extension. The identifier part never holds a
/// dot or a separator, and the whole name holds no separator: it is a bare
/// filename, never a path.
pub fn generate_asset_name(original_filename: &str) -> (r: String)
    ensures
        exists|u: Seq<char>|
            u.len() == 36 && (forall|i: int|
                0 <= i < u.len() ==> (#[trigger] u[i]) != '.' && u[i] != '/') && r@ == u + "."@
                + extension_text(original_filename@),
        forall|i: int| 0 <= i < r@.len() ==> (#[trigger] r@[i]) != '/',
{
    let id = fresh_asset_id();
    let name = asset_name_for(id.as_str(), original_filename);
    proof {
        reveal_strlit(".");
        lemma_extension_text_bare(original_filename@);
        let ext = extension_text(original_filename@);
        assert(id@.len() == 36 && name@ == id@ + "."@ + ext);
        assert("."@ =~= seq!['.']);
        assert forall|i: int| 0 <= i < name@.len() implies (#[trigger] name@[i]) != '/' by {
            if i < id@.len() {
                assert(name@[i] == id@[i]);
            } else if i == id@.len() {
                assert(name@[i] == '.');
            } else {
                assert(name@[i] == ext[i - 37]);
            }
        }
    }
    name
}

/// The full path of a stored blob: the bare filename resolved against the
/// upload directory. Rows store only the bare filename.
pub fn asset_path(filename: &str) -> (r: String)
    ensures
        r@ == "./data/uploads/"@ + filename@,
{
    String::from_str("./data/uploads/").concat(filename)
}

/// Concludes the delete protocol after the blob-removal attempt. The row is
/// already gone either way: a failed removal is reported as a storage
/// inconsistency ("the record is gone; the file may still exist on disk"),
/// never swallowed and never rolled back.
pub fn conclude_asset_removal(blob_removed: bool) -> (r: Result<(), SubmissionError>)
    ensures
        blob_removed ==> r matches Ok(_),
        !blob_removed ==> r matches Err(SubmissionError::StorageError(_)),
{
    if blob_removed {
        Ok(())
    } else {
        Err(
            SubmissionError::StorageError(
                String::from_str("Journal record deleted, but failed to remove file"),
            ),
        )
    }
}

} // verus!
