//! The records that flow between the walker, the diff computer and the cache.

use vstd::prelude::*;

verus! {

/// Version of the persisted cache layout.
pub const SCHEMA_VERSION: u32 = 1;

/// A point in time: whole seconds since the Unix epoch plus a sub-second part
/// in nanoseconds. Instants are ordered by seconds first, then by nanoseconds.
#[derive(Clone, Copy, Debug, PartialEq, Eq, Structural)]
pub struct Timestamp {
    pub secs: i64,
    pub nanos: u32,
}

impl Timestamp {
    /// `self` is strictly earlier than `other`.
    pub open spec fn is_before(self, other: Timestamp) -> bool {
        self.secs < other.secs || (self.secs == other.secs && self.nanos < other.nanos)
    }

    /// `self` is not later than `other`.
    pub open spec fn is_at_or_before(self, other: Timestamp) -> bool {
        !other.is_before(self)
    }

    /// The instant that falls on a whole second.
    pub fn from_secs(secs: i64) -> (t: Timestamp)
        ensures
            t.secs == secs,
            t.nanos == 0,
    {
        Timestamp { secs, nanos: 0 }
    }

    /// Whether `self` is strictly earlier than `other`.
    pub fn before(&self, other: &Timestamp) -> (b: bool)
        ensures
            b == self.is_before(*other),
    {
        self.secs < other.secs || (self.secs == other.secs && self.nanos < other.nanos)
    }
}

/// The character sequences that a vector of strings stands for.
pub open spec fn strings_view(v: Seq<String>) -> Seq<Seq<char>> {
    Seq::new(v.len(), |i: int| v[i]@)
}

/// A copy of a vector of strings.
pub fn clone_strings(v: &Vec<String>) -> (out: Vec<String>)
    ensures
        out@ == v@,
{
    let mut out: Vec<String> = Vec::new();
    let mut i: usize = 0;
    while i < v.len()
        invariant
            i <= v@.len(),
            out@ == v@.subrange(0, i as int),
        decreases v@.len() - i,
    {
        out.push(v[i].clone());
        assert(v@.subrange(0, i as int).push(v@[i as int]) =~= v@.subrange(0, i + 1));
        i += 1;
    }
    assert(v@.subrange(0, v@.len() as int) =~= v@);
    out
}

/// What one commit did to one file.
#[derive(Debug)]
pub struct FileStats {
    pub path: String,
    pub added_lines: u32,
    pub deleted_lines: u32,
    pub is_binary: bool,
}

/// The mathematical content of a `FileStats`.
pub struct FileStatsView {
    pub path: Seq<char>,
    pub added_lines: u32,
    pub deleted_lines: u32,
    pub is_binary: bool,
}

impl View for FileStats {
    type V = FileStatsView;

    open spec fn view(&self) -> FileStatsView {
        FileStatsView {
            path: self.path@,
            added_lines: self.added_lines,
            deleted_lines: self.deleted_lines,
            is_binary: self.is_binary,
        }
    }
}

impl Clone for FileStats {
    fn clone(&self) -> (r: FileStats)
        ensures
            r == *self,
    {
        FileStats {
            path: self.path.clone(),
            added_lines: self.added_lines,
            deleted_lines: self.deleted_lines,
            is_binary: self.is_binary,
        }
    }
}

/// The contents of a list of file entries.
pub open spec fn files_view(files: Seq<FileStats>) -> Seq<FileStatsView> {
    Seq::new(files.len(), |i: int| files[i]@)
}

/// A copy of a list of file entries.
pub fn clone_files(files: &Vec<FileStats>) -> (out: Vec<FileStats>)
    ensures
        out@ == files@,
{
    let mut out: Vec<FileStats> = Vec::new();
    let mut i: usize = 0;
    while i < files.len()
        invariant
            i <= files@.len(),
            out@ == files@.subrange(0, i as int),
        decreases files@.len() - i,
    {
        out.push(files[i].clone());
        assert(files@.subrange(0, i as int).push(files@[i as int]) =~= files@.subrange(0, i + 1));
        i += 1;
    }
    assert(files@.subrange(0, files@.len() as int) =~= files@);
    out
}

/// The file entries of one analysed commit, in the order in which the diff
/// listed the changes.
#[derive(Debug)]
pub struct CommitStats {
    pub commit_id: String,
    pub files: Vec<FileStats>,
}

/// The mathematical content of a `CommitStats`.
pub struct CommitStatsView {
    pub commit_id: Seq<char>,
    pub files: Seq<FileStatsView>,
}

impl View for CommitStats {
    type V = CommitStatsView;

    open spec fn view(&self) -> CommitStatsView {
        CommitStatsView { commit_id: self.commit_id@, files: files_view(self.files@) }
    }
}

impl Clone for CommitStats {
    fn clone(&self) -> (r: CommitStats)
        ensures
            r@ == self@,
    {
        CommitStats { commit_id: self.commit_id.clone(), files: clone_files(&self.files) }
    }
}

/// The contents of a list of commit entries.
pub open spec fn stats_view(stats: Seq<CommitStats>) -> Seq<CommitStatsView> {
    Seq::new(stats.len(), |i: int| stats[i]@)
}

/// The metadata of one commit.
#[derive(Debug)]
pub struct CommitInfo {
    pub id: String,
    pub author_name: String,
    pub author_email: String,
    pub message: String,
    pub timestamp: Timestamp,
    pub parent_ids: Vec<String>,
}

/// The mathematical content of a `CommitInfo`.
pub struct CommitInfoView {
    pub id: Seq<char>,
    pub author_name: Seq<char>,
    pub author_email: Seq<char>,
    pub message: Seq<char>,
    pub timestamp: Timestamp,
    pub parent_ids: Seq<Seq<char>>,
}

impl View for CommitInfo {
    type V = CommitInfoView;

    open spec fn view(&self) -> CommitInfoView {
        CommitInfoView {
            id: self.id@,
            author_name: self.author_name@,
            author_email: self.author_email@,
            message: self.message@,
            timestamp: self.timestamp,
            parent_ids: strings_view(self.parent_ids@),
        }
    }
}

impl Clone for CommitInfo {
    fn clone(&self) -> (r: CommitInfo)
        ensures
            r@ == self@,
    {
        CommitInfo {
            id: self.id.clone(),
            author_name: self.author_name.clone(),
            author_email: self.author_email.clone(),
            message: self.message.clone(),
            timestamp: self.timestamp,
            parent_ids: clone_strings(&self.parent_ids),
        }
    }
}

/// The contents of a list of commit records.
pub open spec fn infos_view(infos: Seq<CommitInfo>) -> Seq<CommitInfoView> {
    Seq::new(infos.len(), |i: int| infos[i]@)
}

/// The content of an optional string.
pub open spec fn option_view(s: Option<String>) -> Option<Seq<char>> {
    match s {
        Some(s) => Some(s@),
        None => None,
    }
}

/// An inclusive window of time; an absent bound leaves that side open.
#[derive(Clone, Copy, Debug)]
pub struct DateRange {
    pub since: Option<Timestamp>,
    pub until: Option<Timestamp>,
}

impl DateRange {
    /// Membership of `t` in the window.
    pub open spec fn spec_contains(self, t: Timestamp) -> bool {
        &&& (self.since matches Some(s) ==> s.is_at_or_before(t))
        &&& (self.until matches Some(u) ==> t.is_at_or_before(u))
    }

    /// The window that is open on both sides.
    pub fn new() -> (r: DateRange)
        ensures
            r.since is None,
            r.until is None,
    {
        DateRange { since: None, until: None }
    }

    /// The same window with its lower bound set to `since`.
    pub fn with_since(self, since: Timestamp) -> (r: DateRange)
        ensures
            r.since == Some(since),
            r.until == self.until,
    {
        DateRange { since: Some(since), until: self.until }
    }

    /// The same window with its upper bound set to `until`.
    pub fn with_until(self, until: Timestamp) -> (r: DateRange)
        ensures
            r.since == self.since,
            r.until == Some(until),
    {
        DateRange { since: self.since, until: Some(until) }
    }

    /// Whether `timestamp` lies inside the window, bounds included.
    pub fn contains(&self, timestamp: &Timestamp) -> (b: bool)
        ensures
            b == self.spec_contains(*timestamp),
    {
        if let Some(since) = self.since {
            if timestamp.before(&since) {
                return false;
            }
        }
        if let Some(until) = self.until {
            if until.before(timestamp) {
                return false;
            }
        }
        true
    }
}

impl Default for DateRange {
    fn default() -> (r: DateRange)
        ensures
            r.since is None,
            r.until is None,
    {
        DateRange::new()
    }
}

} // verus!
