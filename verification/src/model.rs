//! The records that Bugzilla returns, as the rendering functions read them.
use vstd::prelude::*;

verus! {

/// A bug, with the fields that the renderers show.
#[derive(Debug)]
pub struct Bug {
    pub id: u64,
    pub summary: String,
    pub status: String,
    pub resolution: String,
    pub product: String,
    pub component: String,
    pub severity: String,
    pub priority: String,
    pub assigned_to: String,
    pub keywords: Vec<String>,
    pub last_change_time: String,
    pub creation_time: String,
    pub cf_crash_signature: String,
    pub cf_webcompat_priority: String,
    pub whiteboard: String,
    pub bug_type: String,
    pub url: String,
    pub depends_on: Vec<u64>,
    pub blocks: Vec<u64>,
    pub see_also: Vec<String>,
    pub dupe_of: Option<u64>,
    pub duplicates: Vec<u64>,
    pub flags: Vec<Flag>,
    pub comments: Option<Vec<Comment>>,
}

/// A flag set on a bug, such as `needinfo?` with its requestee.
#[derive(Debug)]
pub struct Flag {
    pub name: String,
    pub status: String,
    pub requestee: Option<String>,
}

/// A comment on a bug.
#[derive(Debug, Clone)]
pub struct Comment {
    pub id: u64,
    pub text: String,
    pub creator: String,
    pub creation_time: String,
    pub count: u64,
}

/// One change set in a bug's history.
#[derive(Debug)]
pub struct HistoryEntry {
    pub when: String,
    pub who: String,
    pub changes: Vec<HistoryChange>,
}

/// One field change within a history entry.
#[derive(Debug)]
pub struct HistoryChange {
    pub field_name: String,
    pub removed: String,
    pub added: String,
}

/// How results are printed.
#[derive(Debug, Clone, Copy, PartialEq, Eq, Structural)]
pub enum OutputFormat {
    Compact,
    Json,
    Markdown,
}

impl Default for OutputFormat {
    fn default() -> (f: Self)
        ensures
            f == OutputFormat::Compact,
    {
        OutputFormat::Compact
    }
}

} // verus!
