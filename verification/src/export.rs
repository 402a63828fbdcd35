//! The raw export: one entry for each commit, with its metadata and files.

use vstd::prelude::*;
use crate::cache::store::{find_info, info_for};
use crate::error::{info_not_found, GmapError, GmapErrorView, INFO_NOT_FOUND};
use crate::model::{
    clone_files, files_view, infos_view, stats_view, CommitInfo, CommitInfoView, CommitStats,
    CommitStatsView, FileStats, FileStatsView, Timestamp,
};
use crate::sorting::{instant_key, is_stable_order, stable_order, time_key};
use crate::util::{matches_filter, passes_filter, prefix_view};

verus! {

/// One commit of the export.
#[derive(Debug)]
pub struct ExportEntry {
    pub commit_id: String,
    pub author_name: String,
    pub author_email: String,
    pub timestamp: Timestamp,
    pub message: String,
    pub files: Vec<FileStats>,
}

/// The mathematical content of an `ExportEntry`.
pub struct ExportEntryView {
    pub commit_id: Seq<char>,
    pub author_name: Seq<char>,
    pub author_email: Seq<char>,
    pub timestamp: Timestamp,
    pub message: Seq<char>,
    pub files: Seq<FileStatsView>,
}

impl View for ExportEntry {
    type V = ExportEntryView;

    open spec fn view(&self) -> ExportEntryView {
        ExportEntryView {
            commit_id: self.commit_id@,
            author_name: self.author_name@,
            author_email: self.author_email@,
            timestamp: self.timestamp,
            message: self.message@,
            files: files_view(self.files@),
        }
    }
}

impl Clone for ExportEntry {
    fn clone(&self) -> (copy: ExportEntry)
        ensures
            copy@ == self@,
    {
        ExportEntry {
            commit_id: self.commit_id.clone(),
            author_name: self.author_name.clone(),
            author_email: self.author_email.clone(),
            timestamp: self.timestamp,
            message: self.message.clone(),
            files: clone_files(&self.files),
        }
    }
}

/// The contents of a list of export entries.
pub open spec fn export_view(entries: Seq<ExportEntry>) -> Seq<ExportEntryView> {
    Seq::new(entries.len(), |i: int| entries[i]@)
}

/// The entry of a commit with the metadata `info` and the file entries `files`.
pub open spec fn entry_for(info: CommitInfoView, files: Seq<FileStatsView>) -> ExportEntryView {
    ExportEntryView {
        commit_id: info.id,
        author_name: info.author_name,
        author_email: info.author_email,
        timestamp: info.timestamp,
        message: info.message,
        files,
    }
}

/// The entries of the commits that pass the author filters, in the order of
/// the commits, or the failure to find the metadata of a commit.
pub open spec fn selected_entries(
    stats: Seq<CommitStatsView>,
    infos: Seq<CommitInfoView>,
    author: Option<Seq<char>>,
    author_email: Option<Seq<char>>,
) -> Result<Seq<ExportEntryView>, GmapErrorView>
    decreases stats.len(),
{
    if stats.len() == 0 {
        Ok(Seq::empty())
    } else {
        match selected_entries(stats.drop_last(), infos, author, author_email) {
            Err(e) => Err(e),
            Ok(entries) => match info_for(infos, stats.last().commit_id) {
                None => Err(GmapErrorView::Cache(INFO_NOT_FOUND@)),
                Some(info) => if passes_filter(info.author_name, author) && passes_filter(
                    info.author_email,
                    author_email,
                ) {
                    Ok(entries.push(entry_for(info, stats.last().files)))
                } else {
                    Ok(entries)
                },
            },
        }
    }
}

/// The numbers by which the entries are ordered: those of their timestamps.
pub open spec fn entry_keys(entries: Seq<ExportEntryView>) -> Seq<i128> {
    Seq::new(entries.len(), |i: int| instant_key(entries[i].timestamp) as i128)
}

/// `sorted` holds the entries of `entries` from the earliest to the latest;
/// entries of the same instant keep their order.
pub open spec fn sorted_by_time(sorted: Seq<ExportEntryView>, entries: Seq<ExportEntryView>) -> bool {
    exists|order: Seq<usize>|
        #![trigger is_stable_order(order, entry_keys(entries))]
        is_stable_order(order, entry_keys(entries)) && sorted.len() == entries.len()
            && forall|i: int|
            0 <= i < sorted.len() ==> (#[trigger] sorted[i]) == entries[order[i] as int]
}

/// The entries from the earliest to the latest; entries of the same
/// instant keep their order.
pub fn sort_by_time(entries: &Vec<ExportEntry>) -> (sorted: Vec<ExportEntry>)
    ensures
        sorted_by_time(export_view(sorted@), export_view(entries@)),
{
    let mut keys: Vec<i128> = Vec::new();
    let mut i: usize = 0;
    while i < entries.len()
        invariant
            i <= entries@.len(),
            keys@.len() == i,
            forall|j: int|
                0 <= j < i ==> (#[trigger] keys@[j]) == instant_key(entries@[j].timestamp),
        decreases entries@.len() - i,
    {
        keys.push(time_key(&entries[i].timestamp));
        i += 1;
    }
    assert(keys@ =~= entry_keys(export_view(entries@)));
    let order = stable_order(&keys);
    let mut sorted: Vec<ExportEntry> = Vec::new();
    let mut k: usize = 0;
    while k < order.len()
        invariant
            k <= order@.len(),
            order@.len() == entries@.len(),
            is_stable_order(order@, keys@),
            sorted@.len() == k,
            forall|j: int| 0 <= j < k ==> (#[trigger] sorted@[j])@ == entries@[order@[j] as int]@,
        decreases order@.len() - k,
    {
        assert(order@[k as int] < entries@.len());
        sorted.push(entries[order[k]].clone());
        k += 1;
    }
    assert forall|i: int| 0 <= i < sorted@.len() implies (#[trigger] export_view(sorted@)[i])
        == export_view(entries@)[order@[i] as int] by {
        assert(sorted@[i]@ == entries@[order@[i] as int]@);
    }
    sorted
}

/// The export of `stats`: one entry for each commit whose author passes the
/// filters, from the earliest commit to the latest. The metadata of each
/// commit is taken from `infos`; a commit without it is an error.
pub fn prepare_export_data(
    stats: &Vec<CommitStats>,
    infos: &Vec<CommitInfo>,
    author: Option<&str>,
    author_email: Option<&str>,
) -> (r: Result<Vec<ExportEntry>, GmapError>)
    ensures
        match selected_entries(
            stats_view(stats@),
            infos_view(infos@),
            prefix_view(author),
            prefix_view(author_email),
        ) {
            Ok(selected) => r matches Ok(entries) && sorted_by_time(
                export_view(entries@),
                selected,
            ),
            Err(e) => r matches Err(error) && error@ == e,
        },
{
    let ghost all = stats_view(stats@);
    let mut entries: Vec<ExportEntry> = Vec::new();
    let mut i: usize = 0;
    assert(export_view(entries@) =~= Seq::<ExportEntryView>::empty());
    while i < stats.len()
        invariant
            i <= stats@.len(),
            all == stats_view(stats@),
            selected_entries(
                all.subrange(0, i as int),
                infos_view(infos@),
                prefix_view(author),
                prefix_view(author_email),
            ) == Ok::<Seq<ExportEntryView>, GmapErrorView>(export_view(entries@)),
        decreases stats@.len() - i,
    {
        let commit = &stats[i];
        let ghost before = export_view(entries@);
        proof {
            let next = all.subrange(0, i + 1);
            assert(next.drop_last() =~= all.subrange(0, i as int));
            assert(next.last() == commit@);
            lemma_selection_failure_stays(
                all,
                infos_view(infos@),
                prefix_view(author),
                prefix_view(author_email),
                i + 1,
            );
        }
        let info = match find_info(infos, &commit.commit_id) {
            Some(info) => info,
            None => {
                return Err(info_not_found());
            },
        };
        if matches_filter(&info.author_name, author) && matches_filter(
            &info.author_email,
            author_email,
        ) {
            let entry = ExportEntry {
                commit_id: info.id.clone(),
                author_name: info.author_name.clone(),
                author_email: info.author_email.clone(),
                timestamp: info.timestamp,
                message: info.message.clone(),
                files: clone_files(&commit.files),
            };
            entries.push(entry);
            assert(export_view(entries@) =~= before.push(entry@));
        }
        i += 1;
    }
    assert(all.subrange(0, i as int) =~= all);
    Ok(sort_by_time(&entries))
}

/// Once the selection of the first commits of a list fails, the selection
/// of the whole list fails in the same way.
proof fn lemma_selection_failure_stays(
    stats: Seq<CommitStatsView>,
    infos: Seq<CommitInfoView>,
    author: Option<Seq<char>>,
    author_email: Option<Seq<char>>,
    n: int,
)
    requires
        0 <= n <= stats.len(),
    ensures
        selected_entries(stats.subrange(0, n), infos, author, author_email) is Err
            ==> selected_entries(stats, infos, author, author_email) == selected_entries(
            stats.subrange(0, n),
            infos,
            author,
            author_email,
        ),
    decreases stats.len() - n,
{
    if n < stats.len() {
        assert(stats.subrange(0, n + 1).drop_last() =~= stats.subrange(0, n));
        lemma_selection_failure_stays(stats, infos, author, author_email, n + 1);
    } else {
        assert(stats.subrange(0, n) =~= stats);
    }
}

} // verus!
