//! The failures that the library reports.

use vstd::prelude::*;
use vstd::string::StringExecFns;

verus! {

/// The error type of `serde_json`, carried through to the caller as it came.
#[verifier::external_type_specification]
#[verifier::external_body]
pub struct ExJsonError(serde_json::Error);

/// A failure of history ingestion or of the cache.
#[derive(Debug)]
pub enum GmapError {
    /// A row of the cache does not hold what its column should; the payload
    /// names the column.
    Database(String),
    /// The cache cannot answer; the payload says why.
    Cache(String),
    /// The cache was stamped with another schema version than this library's.
    SchemaMismatch { expected: u32, found: i64 },
    /// A list of parent ids could not be written as JSON.
    Serde(serde_json::Error),
    /// A range of dates whose start lies after its end.
    InvalidRange,
    /// A number of seconds that is no date.
    InvalidTimestamp(i64),
    /// A count of commits or of lines does not fit its type.
    Overflow,
}

/// The mathematical content of a `GmapError`.
pub enum GmapErrorView {
    Database(Seq<char>),
    Cache(Seq<char>),
    SchemaMismatch { expected: u32, found: i64 },
    Serde(serde_json::Error),
    InvalidRange,
    InvalidTimestamp(i64),
    Overflow,
}

impl View for GmapError {
    type V = GmapErrorView;

    open spec fn view(&self) -> GmapErrorView {
        match *self {
            GmapError::Database(s) => GmapErrorView::Database(s@),
            GmapError::Cache(s) => GmapErrorView::Cache(s@),
            GmapError::SchemaMismatch { expected, found } => GmapErrorView::SchemaMismatch {
                expected,
                found,
            },
            GmapError::Serde(e) => GmapErrorView::Serde(e),
            GmapError::InvalidRange => GmapErrorView::InvalidRange,
            GmapError::InvalidTimestamp(secs) => GmapErrorView::InvalidTimestamp(secs),
            GmapError::Overflow => GmapErrorView::Overflow,
        }
    }
}

/// The message of the failure to find the metadata of a commit.
pub const INFO_NOT_FOUND: &'static str = "Commit info not found";

/// The failure to find the metadata of a commit.
pub fn info_not_found() -> (e: GmapError)
    ensures
        e@ == GmapErrorView::Cache(INFO_NOT_FOUND@),
{
    GmapError::Cache(String::from_str(INFO_NOT_FOUND))
}

} // verus!
