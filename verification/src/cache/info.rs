//! Reading the metadata of one commit back from the store.

use vstd::prelude::*;
use vstd::string::StringExecFns;
use crate::calendar::{is_calendar_time, timestamp_exists};
use crate::error::GmapError;
use crate::json::{decode_strings, strings_of_json};
use crate::model::{strings_view, CommitInfo, CommitInfoView, Timestamp};

verus! {

/// Reads the metadata row of one commit.
pub const SELECT_COMMIT_SQL: &'static str =
    "SELECT id, author_name, author_email, message, timestamp, parent_ids FROM commits WHERE id = ?";

/// The metadata row of one commit, as the store holds it.
#[derive(Debug)]
pub struct CommitRow {
    pub id: String,
    pub author_name: String,
    pub author_email: String,
    pub message: String,
    /// Whole seconds since the Unix epoch.
    pub timestamp: i64,
    /// The parent ids as a JSON list.
    pub parent_ids: String,
}

/// The mathematical content of a `CommitRow`.
pub struct CommitRowView {
    pub id: Seq<char>,
    pub author_name: Seq<char>,
    pub author_email: Seq<char>,
    pub message: Seq<char>,
    pub timestamp: i64,
    pub parent_ids: Seq<char>,
}

impl View for CommitRow {
    type V = CommitRowView;

    open spec fn view(&self) -> CommitRowView {
        CommitRowView {
            id: self.id@,
            author_name: self.author_name@,
            author_email: self.author_email@,
            message: self.message@,
            timestamp: self.timestamp,
            parent_ids: self.parent_ids@,
        }
    }
}

/// The record that a row stands for, with the parent ids read from its JSON.
pub open spec fn info_of_row(row: CommitRowView, parent_ids: Seq<Seq<char>>) -> CommitInfoView {
    CommitInfoView {
        id: row.id,
        author_name: row.author_name,
        author_email: row.author_email,
        message: row.message,
        timestamp: Timestamp { secs: row.timestamp, nanos: 0 },
        parent_ids,
    }
}

/// The record of a row, given what the calendar said of its timestamp and
/// what came of reading its parent ids. A timestamp that is no date is an
/// error that names the column `timestamp`, whatever the parent ids are. A
/// list of parent ids that could not be read is an error that names the
/// column `parent_ids`.
pub fn decode_commit_row(row: &CommitRow, timestamp_exists: bool, parent_ids: Option<Vec<String>>) -> (r:
    Result<CommitInfo, GmapError>)
    ensures
        !timestamp_exists ==> (r matches Err(GmapError::Database(column)) && column@ == "timestamp"@),
        timestamp_exists && parent_ids is None ==> (r matches Err(GmapError::Database(column))
            && column@ == "parent_ids"@),
        timestamp_exists ==> (parent_ids matches Some(parents) ==> (r matches Ok(info) && info@
            == info_of_row(row@, strings_view(parents@)))),
{
    if !timestamp_exists {
        return Err(GmapError::Database(String::from_str("timestamp")));
    }
    match parent_ids {
        None => Err(GmapError::Database(String::from_str("parent_ids"))),
        Some(parents) => Ok(
            CommitInfo {
                id: row.id.clone(),
                author_name: row.author_name.clone(),
                author_email: row.author_email.clone(),
                message: row.message.clone(),
                timestamp: Timestamp::from_secs(row.timestamp),
                parent_ids: parents,
            },
        ),
    }
}

/// The metadata of a commit, from the row that the store holds for it. No
/// row is no commit, which is no error. A row stands for a record if its
/// timestamp is a date and its parent ids are a JSON list of strings;
/// otherwise the error names the column that is at fault, `timestamp` first.
pub fn get_commit_info(row: Option<&CommitRow>) -> (r: Result<Option<CommitInfo>, GmapError>)
    ensures
        match row {
            None => r matches Ok(None),
            Some(row) => if !is_calendar_time(row.timestamp) {
                r matches Err(GmapError::Database(column)) && column@ == "timestamp"@
            } else {
                match strings_of_json(row.parent_ids@) {
                    None => r matches Err(GmapError::Database(column)) && column@ == "parent_ids"@,
                    Some(parents) => r matches Ok(Some(info)) && info@ == info_of_row(row@, parents),
                }
            },
        },
{
    match row {
        None => Ok(None),
        Some(row) => {
            let exists = timestamp_exists(row.timestamp);
            let parents = if exists {
                match decode_strings(row.parent_ids.as_str()) {
                    Ok(parents) => Some(parents),
                    Err(_) => None,
                }
            } else {
                None
            };
            match decode_commit_row(row, exists, parents) {
                Ok(info) => Ok(Some(info)),
                Err(e) => Err(e),
            }
        },
    }
}

} // verus!
