//! Static descriptive configuration of the journal.

use vstd::prelude::*;

verus! {

/// Descriptive metadata of the journal shown by the view layer.
pub struct JournalConfig {
    pub name: String,
    pub field: String,
    pub description: String,
}

impl Default for JournalConfig {
    fn default() -> (r: Self)
        ensures
            r.name@ == "African Academic Union - African Journal of Educational Technology"@,
            r.field@ == "Educational Technology"@,
            r.description@ == "A leading journal in educational technology..."@,
    {
        JournalConfig {
            name: String::from_str(
                "African Academic Union - African Journal of Educational Technology",
            ),
            field: String::from_str("Educational Technology"),
            description: String::from_str("A leading journal in educational technology..."),
        }
    }
}

/// Returns the journal's descriptive configuration.
pub fn get_journal_config() -> (r: JournalConfig)
    ensures
        r.name@ == "African Academic Union - African Journal of Educational Technology"@,
        r.field@ == "Educational Technology"@,
        r.description@ == "A leading journal in educational technology..."@,
{
    JournalConfig::default()
}

} // verus!
