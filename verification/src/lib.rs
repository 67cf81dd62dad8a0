//! Catalog store, edition resolver and asset lifecycle manager for a journal
//! publication backend.
//!
//! The crate keeps journal and submission records in an in-memory catalog with
//! verified invariants: store-assigned identities, globally unique asset
//! references for journals, and the canonical archive ordering
//! `(volume DESC, issue DESC, publication date DESC)` for every listing.
//! Around the catalog sit the edition resolver (current edition and past
//! issues, derived from the catalog contents alone) and the asset lifecycle
//! protocol that keeps a journal row and its PDF blob in step across deletes.

pub mod admin;
pub mod admin_store;
pub mod assets;
pub mod config;
pub mod dates;
pub mod edition;
pub mod errors;
pub mod intake;
pub mod journal;
pub mod journal_store;
pub mod laws;
pub mod numfmt;
pub mod order;
pub mod response;
pub mod security;
pub mod submission;
pub mod submission_store;
pub mod text;

pub use config::JournalConfig;
pub use config::get_journal_config;
