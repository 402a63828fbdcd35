//! From the changes between two tree snapshots to the file entries of a commit.

use vstd::prelude::*;
use crate::blob::{inspect_blob, spec_is_binary, text_lines};
use crate::linediff::{compute_line_diff, spec_line_diff};
use crate::model::{files_view, CommitStats, FileStats, FileStatsView};

verus! {

/// One change between two tree snapshots, with the content of the blobs on
/// either side of it.
#[derive(Debug)]
pub enum Change {
    /// A path that only the new tree has.
    Addition { location: String, blob: Vec<u8> },
    /// A path that only the old tree has.
    Deletion { location: String, blob: Vec<u8> },
    /// A path that both trees have, with different content.
    Modification { location: String, previous_blob: Vec<u8>, blob: Vec<u8> },
    /// A path that was renamed, or copied if `copy` is set.
    Rewrite {
        source_location: String,
        location: String,
        source_blob: Vec<u8>,
        blob: Vec<u8>,
        copy: bool,
    },
}

/// The mathematical content of a `Change`.
pub enum ChangeView {
    Addition { location: Seq<char>, blob: Seq<u8> },
    Deletion { location: Seq<char>, blob: Seq<u8> },
    Modification { location: Seq<char>, previous_blob: Seq<u8>, blob: Seq<u8> },
    Rewrite {
        source_location: Seq<char>,
        location: Seq<char>,
        source_blob: Seq<u8>,
        blob: Seq<u8>,
        copy: bool,
    },
}

impl View for Change {
    type V = ChangeView;

    open spec fn view(&self) -> ChangeView {
        match *self {
            Change::Addition { location, blob } => ChangeView::Addition {
                location: location@,
                blob: blob@,
            },
            Change::Deletion { location, blob } => ChangeView::Deletion {
                location: location@,
                blob: blob@,
            },
            Change::Modification { location, previous_blob, blob } => ChangeView::Modification {
                location: location@,
                previous_blob: previous_blob@,
                blob: blob@,
            },
            Change::Rewrite {
                source_location,
                location,
                source_blob,
                blob,
                copy,
            } => ChangeView::Rewrite {
                source_location: source_location@,
                location: location@,
                source_blob: source_blob@,
                blob: blob@,
                copy,
            },
        }
    }
}

/// The contents of a list of changes.
pub open spec fn changes_view(changes: Seq<Change>) -> Seq<ChangeView> {
    Seq::new(changes.len(), |i: int| changes[i]@)
}

/// The line count that a text blob contributes, as a 32-bit number.
pub open spec fn line_count(blob: Seq<u8>) -> u32 {
    text_lines(blob).len() as u32
}

/// Lines `(added, deleted)` between two blobs of which one may be binary:
/// nothing where either is, the line diff of their texts otherwise.
pub open spec fn blob_diff(old_blob: Seq<u8>, new_blob: Seq<u8>) -> (u32, u32) {
    if spec_is_binary(old_blob) || spec_is_binary(new_blob) {
        (0u32, 0u32)
    } else {
        let d = spec_line_diff(text_lines(old_blob), text_lines(new_blob));
        (d.0 as u32, d.1 as u32)
    }
}

impl ChangeView {
    /// Whether a blob on either side of the change is binary.
    pub open spec fn touches_binary(self) -> bool {
        match self {
            ChangeView::Addition { blob, .. } => spec_is_binary(blob),
            ChangeView::Deletion { blob, .. } => spec_is_binary(blob),
            ChangeView::Modification { previous_blob, blob, .. } => spec_is_binary(previous_blob)
                || spec_is_binary(blob),
            ChangeView::Rewrite { source_blob, blob, .. } => spec_is_binary(source_blob)
                || spec_is_binary(blob),
        }
    }

    /// The file entries that the change gives when it is not left out.
    ///
    /// An addition counts the lines of the new blob as added, a deletion those
    /// of the old blob as deleted, a modification the line diff. A rewrite
    /// gives two entries, the source path first: a rename counts the deleted
    /// lines of the diff at the source and nothing at the destination; a copy
    /// counts nothing at the source and the added lines at the destination.
    /// A change that touches a binary blob counts no lines.
    pub open spec fn entries(self) -> Seq<FileStatsView> {
        let is_binary = self.touches_binary();
        match self {
            ChangeView::Addition { location, blob } => seq![
                FileStatsView {
                    path: location,
                    added_lines: if is_binary {
                        0u32
                    } else {
                        line_count(blob)
                    },
                    deleted_lines: 0,
                    is_binary,
                },
            ],
            ChangeView::Deletion { location, blob } => seq![
                FileStatsView {
                    path: location,
                    added_lines: 0,
                    deleted_lines: if is_binary {
                        0u32
                    } else {
                        line_count(blob)
                    },
                    is_binary,
                },
            ],
            ChangeView::Modification { location, previous_blob, blob } => seq![
                FileStatsView {
                    path: location,
                    added_lines: blob_diff(previous_blob, blob).0,
                    deleted_lines: blob_diff(previous_blob, blob).1,
                    is_binary,
                },
            ],
            ChangeView::Rewrite { source_location, location, source_blob, blob, copy } => seq![
                FileStatsView {
                    path: source_location,
                    added_lines: 0,
                    deleted_lines: if copy {
                        0u32
                    } else {
                        blob_diff(source_blob, blob).1
                    },
                    is_binary,
                },
                FileStatsView {
                    path: location,
                    added_lines: if copy {
                        blob_diff(source_blob, blob).0
                    } else {
                        0u32
                    },
                    deleted_lines: 0,
                    is_binary,
                },
            ],
        }
    }

    /// The file entries that the change contributes to its commit: none where
    /// it touches a binary blob and binary files are not asked for.
    pub open spec fn resolved(self, include_binary: bool) -> Seq<FileStatsView> {
        if include_binary || !self.touches_binary() {
            self.entries()
        } else {
            Seq::empty()
        }
    }
}

/// The file entries of a list of changes, in the order of the changes.
pub open spec fn resolve_all(changes: Seq<ChangeView>, include_binary: bool) -> Seq<FileStatsView>
    decreases changes.len(),
{
    if changes.len() == 0 {
        Seq::empty()
    } else {
        resolve_all(changes.drop_last(), include_binary) + changes.last().resolved(include_binary)
    }
}

/// A change that touches a binary blob is left out unless binary files are
/// asked for; then each of its entries is marked binary and counts no lines.
/// A change that touches none is never left out, and no entry of it is marked
/// binary.
pub proof fn lemma_binary_changes_count_no_lines(change: ChangeView, include_binary: bool)
    ensures
        change.touches_binary() && !include_binary ==> change.resolved(include_binary).len() == 0,
        change.touches_binary() && include_binary ==> change.resolved(include_binary).len() > 0,
        !change.touches_binary() ==> change.resolved(include_binary).len() > 0,
        forall|i: int|
            0 <= i < change.resolved(include_binary).len() ==> {
                let entry = #[trigger] change.resolved(include_binary)[i];
                &&& entry.is_binary == change.touches_binary()
                &&& entry.is_binary ==> entry.added_lines == 0 && entry.deleted_lines == 0
            },
{
}

/// The entry for one path.
fn entry(path: &String, added_lines: u32, deleted_lines: u32, is_binary: bool) -> (e: FileStats)
    ensures
        e@ == (FileStatsView { path: path@, added_lines, deleted_lines, is_binary }),
{
    FileStats { path: path.clone(), added_lines, deleted_lines, is_binary }
}

/// Lines `(added, deleted)` between two blobs, nothing where `is_binary` says
/// that one of them is binary.
fn diff_blobs(old_blob: &Vec<u8>, new_blob: &Vec<u8>, is_binary: bool) -> (d: (u32, u32))
    requires
        is_binary == (spec_is_binary(old_blob@) || spec_is_binary(new_blob@)),
    ensures
        d == blob_diff(old_blob@, new_blob@),
{
    if is_binary {
        (0, 0)
    } else {
        compute_line_diff(old_blob.as_slice(), new_blob.as_slice())
    }
}

/// Resolves one change into file entries and appends them to `files`.
pub fn handle_change(change: &Change, binary: bool, files: &mut Vec<FileStats>)
    ensures
        files_view(final(files)@) == files_view(old(files)@) + change@.resolved(binary),
{
    let ghost before = files_view(files@);
    match change {
        Change::Addition { location, blob } => {
            let (is_binary, lines) = inspect_blob(blob.as_slice());
            if binary || !is_binary {
                let e = entry(location, lines, 0, is_binary);
                files.push(e);
                assert(files_view(files@) =~= before + seq![e@]);
            } else {
                assert(files_view(files@) =~= before + Seq::<FileStatsView>::empty());
            }
        },
        Change::Deletion { location, blob } => {
            let (is_binary, lines) = inspect_blob(blob.as_slice());
            if binary || !is_binary {
                let e = entry(location, 0, lines, is_binary);
                files.push(e);
                assert(files_view(files@) =~= before + seq![e@]);
            } else {
                assert(files_view(files@) =~= before + Seq::<FileStatsView>::empty());
            }
        },
        Change::Modification { location, previous_blob, blob } => {
            let (old_is_binary, _) = inspect_blob(previous_blob.as_slice());
            let (new_is_binary, _) = inspect_blob(blob.as_slice());
            let is_binary = old_is_binary || new_is_binary;
            if binary || !is_binary {
                let (added, deleted) = diff_blobs(previous_blob, blob, is_binary);
                let e = entry(location, added, deleted, is_binary);
                files.push(e);
                assert(files_view(files@) =~= before + seq![e@]);
            } else {
                assert(files_view(files@) =~= before + Seq::<FileStatsView>::empty());
            }
        },
        Change::Rewrite { source_location, location, source_blob, blob, copy } => {
            let (old_is_binary, _) = inspect_blob(source_blob.as_slice());
            let (new_is_binary, _) = inspect_blob(blob.as_slice());
            let is_binary = old_is_binary || new_is_binary;
            if binary || !is_binary {
                let (added, deleted) = diff_blobs(source_blob, blob, is_binary);
                let source = entry(
                    source_location,
                    0,
                    if *copy {
                        0
                    } else {
                        deleted
                    },
                    is_binary,
                );
                let destination = entry(
                    location,
                    if *copy {
                        added
                    } else {
                        0
                    },
                    0,
                    is_binary,
                );
                files.push(source);
                files.push(destination);
                assert(files_view(files@) =~= before + seq![source@, destination@]);
            } else {
                assert(files_view(files@) =~= before + Seq::<FileStatsView>::empty());
            }
        },
    }
}

/// The file entries of one commit: its changes against the chosen parent,
/// resolved one by one in the order given.
pub fn compute_commit_stats(commit_id: &String, changes: &Vec<Change>, binary: bool) -> (stats:
    CommitStats)
    ensures
        stats@.commit_id == commit_id@,
        stats@.files == resolve_all(changes_view(changes@), binary),
{
    let mut files: Vec<FileStats> = Vec::new();
    let mut i: usize = 0;
    assert(files_view(files@) =~= Seq::<FileStatsView>::empty());
    while i < changes.len()
        invariant
            i <= changes@.len(),
            files_view(files@) == resolve_all(changes_view(changes@).subrange(0, i as int), binary),
        decreases changes@.len() - i,
    {
        handle_change(&changes[i], binary, &mut files);
        proof {
            let all = changes_view(changes@);
            assert(all.subrange(0, i + 1).drop_last() =~= all.subrange(0, i as int));
            assert(all.subrange(0, i + 1).last() == changes@[i as int]@);
        }
        i += 1;
    }
    assert(changes_view(changes@).subrange(0, i as int) =~= changes_view(changes@));
    CommitStats { commit_id: commit_id.clone(), files }
}

} // verus!
