//! Writing commit statistics to the store: what is written, for which
//! commits, in which order.

use vstd::prelude::*;
use crate::error::GmapError;
use crate::idset::StringSet;
use crate::json::{encode_strings, json_of_strings};
use crate::model::{
    files_view, infos_view, stats_view, CommitInfo, CommitInfoView, CommitStats, CommitStatsView,
    FileStats, FileStatsView,
};

verus! {

/// Writes a commit's metadata row, in place of the row that the id may have.
pub const UPSERT_COMMIT_SQL: &'static str =
    "INSERT OR REPLACE INTO commits (id, author_name, author_email, message, timestamp, parent_ids) VALUES (?, ?, ?, ?, ?, ?)";

/// Removes the file rows of a commit.
pub const DELETE_FILES_SQL: &'static str = "DELETE FROM files WHERE commit_id = ?";

/// Writes one file row of a commit.
pub const INSERT_FILE_SQL: &'static str =
    "INSERT INTO files (commit_id, path, added_lines, deleted_lines, is_binary) VALUES (?, ?, ?, ?, ?)";

/// What is written for one commit: its metadata row, and the file rows that
/// take the place of those it had.
#[derive(Debug)]
pub struct CommitWrite {
    pub id: String,
    pub author_name: String,
    pub author_email: String,
    pub message: String,
    /// The commit's timestamp in whole seconds since the Unix epoch.
    pub timestamp: i64,
    /// The commit's parent ids as a JSON list.
    pub parent_ids: String,
    /// The file rows, no two with the same path.
    pub files: Vec<FileStats>,
}

/// The mathematical content of a `CommitWrite`.
pub struct CommitWriteView {
    pub id: Seq<char>,
    pub author_name: Seq<char>,
    pub author_email: Seq<char>,
    pub message: Seq<char>,
    pub timestamp: i64,
    pub parent_ids: Seq<char>,
    pub files: Seq<FileStatsView>,
}

impl View for CommitWrite {
    type V = CommitWriteView;

    open spec fn view(&self) -> CommitWriteView {
        CommitWriteView {
            id: self.id@,
            author_name: self.author_name@,
            author_email: self.author_email@,
            message: self.message@,
            timestamp: self.timestamp,
            parent_ids: self.parent_ids@,
            files: files_view(self.files@),
        }
    }
}

/// The contents of a list of writes.
pub open spec fn writes_view(writes: Seq<CommitWrite>) -> Seq<CommitWriteView> {
    Seq::new(writes.len(), |i: int| writes[i]@)
}

/// Some entry of `files` is about `path`.
pub open spec fn has_path(files: Seq<FileStatsView>, path: Seq<char>) -> bool {
    exists|i: int| 0 <= i < files.len() && (#[trigger] files[i]).path == path
}

/// The entries of `files` without those whose path an earlier entry has.
pub open spec fn first_per_path(files: Seq<FileStatsView>) -> Seq<FileStatsView>
    decreases files.len(),
{
    if files.len() == 0 {
        Seq::empty()
    } else if has_path(files.drop_last(), files.last().path) {
        first_per_path(files.drop_last())
    } else {
        first_per_path(files.drop_last()).push(files.last())
    }
}

/// The record that `infos` hold for the commit `id`: the last one with that id.
pub open spec fn info_for(infos: Seq<CommitInfoView>, id: Seq<char>) -> Option<CommitInfoView>
    decreases infos.len(),
{
    if infos.len() == 0 {
        None
    } else if infos.last().id == id {
        Some(infos.last())
    } else {
        info_for(infos.drop_last(), id)
    }
}

/// What is written for a commit with the metadata `info`, the parent ids
/// written as `parent_ids`, and the file entries `files`.
pub open spec fn write_of(
    info: CommitInfoView,
    parent_ids: Seq<char>,
    files: Seq<FileStatsView>,
) -> CommitWriteView {
    CommitWriteView {
        id: info.id,
        author_name: info.author_name,
        author_email: info.author_email,
        message: info.message,
        timestamp: info.timestamp.secs,
        parent_ids,
        files: first_per_path(files),
    }
}

/// The writes for a batch of commits, in the order of the commits. A commit
/// for which `infos` hold no record is passed over.
pub open spec fn planned_writes(
    commits: Seq<CommitStatsView>,
    infos: Seq<CommitInfoView>,
) -> Seq<CommitWriteView>
    decreases commits.len(),
{
    if commits.len() == 0 {
        Seq::empty()
    } else {
        let rest = planned_writes(commits.drop_last(), infos);
        match info_for(infos, commits.last().commit_id) {
            Some(info) => rest.push(
                write_of(info, json_of_strings(info.parent_ids), commits.last().files),
            ),
            None => rest,
        }
    }
}

/// No two of the entries kept have the same path, and every path is kept.
pub proof fn lemma_first_per_path(files: Seq<FileStatsView>)
    ensures
        forall|i: int, j: int|
            0 <= i < j < first_per_path(files).len() ==> (#[trigger] first_per_path(files)[i]).path
                != (#[trigger] first_per_path(files)[j]).path,
        forall|path: Seq<char>|
            #[trigger] has_path(first_per_path(files), path) <==> has_path(files, path),
    decreases files.len(),
{
    if files.len() > 0 {
        let front = files.drop_last();
        let last = files.last();
        let kept = first_per_path(files);
        let kept_front = first_per_path(front);
        lemma_first_per_path(front);
        assert(files[files.len() - 1] == last);
        assert forall|path: Seq<char>| #[trigger]
            has_path(kept, path) <==> has_path(files, path) by {
            if has_path(kept, path) {
                let i = choose|i: int| 0 <= i < kept.len() && (#[trigger] kept[i]).path == path;
                if i < kept_front.len() {
                    assert(kept_front[i].path == path);
                    assert(has_path(kept_front, path));
                    assert(has_path(front, path));
                    let j = choose|j: int|
                        0 <= j < front.len() && (#[trigger] front[j]).path == path;
                    assert(files[j].path == path);
                }
            }
            if has_path(files, path) {
                let j = choose|j: int| 0 <= j < files.len() && (#[trigger] files[j]).path == path;
                if j < front.len() {
                    assert(front[j].path == path);
                    assert(has_path(front, path));
                }
                if has_path(front, path) {
                    assert(has_path(kept_front, path));
                    let i = choose|i: int|
                        0 <= i < kept_front.len() && (#[trigger] kept_front[i]).path == path;
                    assert(kept[i].path == path);
                } else {
                    assert(kept[kept.len() - 1].path == path);
                }
            }
        }
        assert forall|i: int, j: int| 0 <= i < j < kept.len() implies (#[trigger] kept[i]).path != (
        #[trigger] kept[j]).path by {
            if j == kept_front.len() {
                assert(kept_front[i].path == kept[i].path);
                assert(has_path(kept_front, kept[i].path));
            } else {
                assert(kept_front[i].path != kept_front[j].path);
            }
        }
    }
}

/// The entries of `files` without those whose path an earlier entry has.
pub fn dedup_by_path(files: &Vec<FileStats>) -> (kept: Vec<FileStats>)
    ensures
        files_view(kept@) == first_per_path(files_view(files@)),
{
    let mut kept: Vec<FileStats> = Vec::new();
    let mut seen_paths = StringSet::new();
    let mut i: usize = 0;
    assert(files_view(kept@) =~= Seq::<FileStatsView>::empty());
    while i < files.len()
        invariant
            i <= files@.len(),
            files_view(kept@) == first_per_path(files_view(files@).subrange(0, i as int)),
            forall|path: Seq<char>|
                seen_paths@.contains(path) <==> has_path(
                    files_view(files@).subrange(0, i as int),
                    path,
                ),
        decreases files@.len() - i,
    {
        let ghost done = files_view(files@).subrange(0, i as int);
        let ghost next = files_view(files@).subrange(0, i + 1);
        let ghost kept_before = files_view(kept@);
        let f = &files[i];
        proof {
            assert(next.drop_last() =~= done);
            assert(next.last() == f@);
        }
        if seen_paths.insert(f.path.clone()) {
            kept.push(f.clone());
            assert(files_view(kept@) =~= kept_before.push(f@));
        }
        proof {
            assert forall|path: Seq<char>| seen_paths@.contains(path) <==> has_path(next, path) by {
                if has_path(next, path) {
                    let j = choose|j: int| 0 <= j < next.len() && (#[trigger] next[j]).path == path;
                    if j < done.len() {
                        assert(done[j].path == path);
                        assert(has_path(done, path));
                    }
                }
                if has_path(done, path) {
                    let j = choose|j: int| 0 <= j < done.len() && (#[trigger] done[j]).path == path;
                    assert(next[j].path == path);
                }
                if path == f@.path {
                    assert(next[i as int].path == path);
                }
            }
        }
        i += 1;
    }
    assert(files_view(files@).subrange(0, i as int) =~= files_view(files@));
    kept
}

/// The record that `infos` hold for the commit `id`, if any: the last one
/// with that id.
pub fn find_info<'a>(infos: &'a Vec<CommitInfo>, id: &String) -> (found: Option<&'a CommitInfo>)
    ensures
        match found {
            Some(info) => info_for(infos_view(infos@), id@) == Some(info@),
            None => info_for(infos_view(infos@), id@) is None,
        },
{
    let mut i: usize = infos.len();
    assert(infos_view(infos@).subrange(0, i as int) =~= infos_view(infos@));
    while i > 0
        invariant
            i <= infos@.len(),
            info_for(infos_view(infos@), id@) == info_for(
                infos_view(infos@).subrange(0, i as int),
                id@,
            ),
        decreases i,
    {
        let ghost upto = infos_view(infos@).subrange(0, i as int);
        assert(upto.last() == infos@[i - 1]@);
        assert(upto.drop_last() =~= infos_view(infos@).subrange(0, i - 1));
        if infos[i - 1].id == *id {
            return Some(&infos[i - 1]);
        }
        i -= 1;
    }
    None
}

/// What is written for one commit, given the outcome of writing its parent
/// ids as JSON: the write with that text, or the JSON error.
pub fn commit_write(
    info: &CommitInfo,
    files: &Vec<FileStats>,
    encoded: Result<String, serde_json::Error>,
) -> (r: Result<CommitWrite, GmapError>)
    ensures
        match encoded {
            Ok(text) => r matches Ok(write) && write@ == write_of(
                info@,
                text@,
                files_view(files@),
            ),
            Err(e) => r matches Err(GmapError::Serde(source)) && source == e,
        },
{
    match encoded {
        Ok(text) => Ok(
            CommitWrite {
                id: info.id.clone(),
                author_name: info.author_name.clone(),
                author_email: info.author_email.clone(),
                message: info.message.clone(),
                timestamp: info.timestamp.secs,
                parent_ids: text,
                files: dedup_by_path(files),
            },
        ),
        Err(e) => Err(GmapError::Serde(e)),
    }
}

/// Plans the writes that store a batch of commits; the caller carries them
/// out in one transaction, in their order. For each commit that has a record
/// in `infos`, the metadata row is written anew and the file rows are
/// replaced by the commit's entries, one for each path. A commit without a
/// record in `infos` is passed over, which is no error: the others are
/// stored all the same.
pub fn store_commit_stats(commits: &Vec<CommitStats>, infos: &Vec<CommitInfo>) -> (r: Result<
    Vec<CommitWrite>,
    GmapError,
>)
    ensures
        r matches Ok(writes) && writes_view(writes@) == planned_writes(
            stats_view(commits@),
            infos_view(infos@),
        ),
{
    let mut writes: Vec<CommitWrite> = Vec::new();
    let mut i: usize = 0;
    assert(writes_view(writes@) =~= Seq::<CommitWriteView>::empty());
    while i < commits.len()
        invariant
            i <= commits@.len(),
            writes_view(writes@) == planned_writes(
                stats_view(commits@).subrange(0, i as int),
                infos_view(infos@),
            ),
        decreases commits@.len() - i,
    {
        let stats = &commits[i];
        let ghost before = writes_view(writes@);
        proof {
            let next = stats_view(commits@).subrange(0, i + 1);
            assert(next.drop_last() =~= stats_view(commits@).subrange(0, i as int));
            assert(next.last() == stats@);
        }
        if let Some(info) = find_info(infos, &stats.commit_id) {
            let encoded = encode_strings(&info.parent_ids);
            match commit_write(info, &stats.files, encoded) {
                Ok(write) => {
                    writes.push(write);
                    assert(writes_view(writes@) =~= before.push(write@));
                },
                Err(e) => {
                    return Err(e);
                },
            }
        }
        i += 1;
    }
    assert(stats_view(commits@).subrange(0, i as int) =~= stats_view(commits@));
    Ok(writes)
}

/// A commit without metadata takes nothing from the plan and adds nothing
/// to it: the writes for a batch are those for the batch without that commit.
pub proof fn lemma_commit_without_info_is_passed_over(
    commits: Seq<CommitStatsView>,
    infos: Seq<CommitInfoView>,
    k: int,
)
    requires
        0 <= k < commits.len(),
        info_for(infos, commits[k].commit_id) is None,
    ensures
        planned_writes(commits, infos) == planned_writes(commits.remove(k), infos),
    decreases commits.len(),
{
    if k == commits.len() - 1 {
        assert(commits.remove(k) =~= commits.drop_last());
    } else {
        lemma_commit_without_info_is_passed_over(commits.drop_last(), infos, k);
        assert(commits.remove(k).drop_last() =~= commits.drop_last().remove(k));
        assert(commits.remove(k).last() == commits.last());
    }
}

} // verus!
