//! The layout of the store and what its version stamp allows.

use vstd::prelude::*;
use vstd::string::StringExecFns;
use crate::digits::{decimal, push_decimal};
use crate::error::GmapError;
use crate::model::{strings_view, SCHEMA_VERSION};

verus! {

/// Creates the two tables and their indexes unless they exist.
pub const CREATE_TABLES_SQL: &'static str =
    "CREATE TABLE IF NOT EXISTS commits (
    id TEXT PRIMARY KEY,
    author_name TEXT NOT NULL,
    author_email TEXT NOT NULL,
    message TEXT NOT NULL,
    timestamp INTEGER NOT NULL,
    parent_ids TEXT NOT NULL
);
CREATE TABLE IF NOT EXISTS files (
    commit_id TEXT NOT NULL,
    path TEXT NOT NULL,
    added_lines INTEGER NOT NULL,
    deleted_lines INTEGER NOT NULL,
    is_binary INTEGER NOT NULL,
    PRIMARY KEY (commit_id, path),
    FOREIGN KEY (commit_id) REFERENCES commits(id)
);
CREATE INDEX IF NOT EXISTS idx_commits_timestamp ON commits(timestamp);
CREATE INDEX IF NOT EXISTS idx_files_path ON files(path);
";

/// Reads the version stamp of the store.
pub const READ_VERSION_SQL: &'static str = "PRAGMA user_version;";

/// What to do with a store after its version stamp was read.
#[derive(Clone, Copy, Debug, PartialEq, Eq, Structural)]
pub enum SchemaAction {
    /// The store has no stamp yet: stamp it with this version.
    Stamp(u32),
    /// The store carries this library's version: leave it as it is.
    Keep,
}

/// Decides what to do with a store whose version stamp reads `user_version`.
/// A store without a stamp, which reads 0, is to be stamped. A store with
/// this library's version is kept. Any other stamp is an error, and nothing
/// is to be written.
pub fn check_schema_version(user_version: i64) -> (r: Result<SchemaAction, GmapError>)
    ensures
        user_version == 0 ==> r == Ok::<SchemaAction, GmapError>(
            SchemaAction::Stamp(SCHEMA_VERSION),
        ),
        user_version == SCHEMA_VERSION ==> r == Ok::<SchemaAction, GmapError>(SchemaAction::Keep),
        user_version != 0 && user_version != SCHEMA_VERSION ==> r == Err::<
            SchemaAction,
            GmapError,
        >(GmapError::SchemaMismatch { expected: SCHEMA_VERSION, found: user_version }),
{
    if user_version == 0 {
        Ok(SchemaAction::Stamp(SCHEMA_VERSION))
    } else if user_version != SCHEMA_VERSION as i64 {
        Err(GmapError::SchemaMismatch { expected: SCHEMA_VERSION, found: user_version })
    } else {
        Ok(SchemaAction::Keep)
    }
}

/// The statement that stamps a store with `version`.
pub open spec fn stamp_sql(version: u32) -> Seq<char> {
    "PRAGMA user_version = "@ + decimal(version as nat) + ";"@
}

/// The statements that set up a store whose stamp reads `user_version`, in
/// the order in which they run: the tables and indexes are created unless
/// they exist, and a store without a stamp is stamped after that. A store
/// with a foreign stamp gets no statement at all.
pub open spec fn setup_statements(user_version: i64) -> Seq<Seq<char>> {
    if user_version == 0 {
        seq![CREATE_TABLES_SQL@, stamp_sql(SCHEMA_VERSION)]
    } else if user_version == SCHEMA_VERSION {
        seq![CREATE_TABLES_SQL@]
    } else {
        Seq::empty()
    }
}

/// The statements to run on a store once its version stamp was read as
/// `user_version`. The stamp is read before anything is written: a store
/// with a foreign stamp is refused with the mismatch, and as no statement is
/// handed out for it, what it holds stays as it is. Setting up a store that
/// this library has set up before creates nothing anew and stamps nothing.
pub fn initialize(user_version: i64) -> (r: Result<Vec<String>, GmapError>)
    ensures
        user_version == 0 || user_version == SCHEMA_VERSION ==> (r matches Ok(statements)
            && strings_view(statements@) == setup_statements(user_version)),
        user_version != 0 && user_version != SCHEMA_VERSION ==> r == Err::<
            Vec<String>,
            GmapError,
        >(GmapError::SchemaMismatch { expected: SCHEMA_VERSION, found: user_version }),
{
    let action = check_schema_version(user_version)?;
    let mut statements: Vec<String> = Vec::new();
    statements.push(String::from_str(CREATE_TABLES_SQL));
    match action {
        SchemaAction::Stamp(version) => {
            let mut stamp = String::from_str("PRAGMA user_version = ");
            push_decimal(&mut stamp, version as u64);
            stamp.append(";");
            statements.push(stamp);
        },
        SchemaAction::Keep => {},
    }
    assert(strings_view(statements@) =~= setup_statements(user_version));
    Ok(statements)
}

} // verus!
