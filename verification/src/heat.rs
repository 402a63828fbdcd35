//! Activity over time: for each week the number of commits and of lines changed.

use vstd::prelude::*;
use crate::cache::store::{find_info, info_for};
use crate::calendar::is_calendar_time;
use crate::error::{info_not_found, GmapError, GmapErrorView, INFO_NOT_FOUND};
use crate::model::{
    files_view, infos_view, stats_view, CommitInfo, CommitInfoView, CommitStats, CommitStatsView,
    FileStats, FileStatsView,
};
use crate::period::{week_key, week_key_of};
use crate::strmap::{lists_map, pairs_view, StringMap};
use crate::util::{matches_prefix, matching, prefix_view};

verus! {

/// The activity of one week.
#[derive(Debug)]
pub struct HeatBucket {
    pub week: String,
    pub commit_count: u32,
    pub lines_changed: u64,
}

/// The buckets as pairs of a week key with its counts of commits and lines.
pub open spec fn buckets_view(buckets: Seq<HeatBucket>) -> Seq<(Seq<char>, (u32, u64))> {
    Seq::new(
        buckets.len(),
        |i: int| (buckets[i].week@, (buckets[i].commit_count, buckets[i].lines_changed)),
    )
}

/// The lines that a list of file entries changed: added and deleted together.
pub open spec fn lines_changed(files: Seq<FileStatsView>) -> int
    decreases files.len(),
{
    if files.len() == 0 {
        0
    } else {
        lines_changed(files.drop_last()) + files.last().added_lines + files.last().deleted_lines
    }
}

/// Whether a commit counts for the heat of the paths under `prefix`: every
/// commit does where there is no prefix, and otherwise those with a file
/// under it.
pub open spec fn counts_for(files: Seq<FileStatsView>, prefix: Option<Seq<char>>) -> bool {
    prefix is None || matching(files, prefix).len() > 0
}

/// The counts of commits and lines that `map` holds for `week`.
pub open spec fn counts_of(map: Map<Seq<char>, (u32, u64)>, week: Seq<char>) -> (u32, u64) {
    if map.dom().contains(week) {
        map[week]
    } else {
        (0u32, 0u64)
    }
}

/// The heat after one more commit. The commit's metadata is looked up in
/// `infos`; without it, or with a timestamp that is no date, the heat
/// fails. A commit that counts adds one commit and the changed lines of its
/// files under the prefix to its week.
pub open spec fn heat_step(
    map: Map<Seq<char>, (u32, u64)>,
    commit: CommitStatsView,
    infos: Seq<CommitInfoView>,
    prefix: Option<Seq<char>>,
) -> Result<Map<Seq<char>, (u32, u64)>, GmapErrorView> {
    match info_for(infos, commit.commit_id) {
        None => Err(GmapErrorView::Cache(INFO_NOT_FOUND@)),
        Some(info) => if !is_calendar_time(info.timestamp.secs) {
            Err(GmapErrorView::InvalidTimestamp(info.timestamp.secs))
        } else if !counts_for(commit.files, prefix) {
            Ok(map)
        } else {
            let week = week_key_of(info.timestamp);
            let commits = counts_of(map, week).0 + 1;
            let lines = counts_of(map, week).1 + lines_changed(matching(commit.files, prefix));
            if commits > u32::MAX || lines > u64::MAX {
                Err(GmapErrorView::Overflow)
            } else {
                Ok(map.insert(week, (commits as u32, lines as u64)))
            }
        },
    }
}

/// The heat of a list of commits: the counts of each week, or the first failure.
pub open spec fn heat_of(
    stats: Seq<CommitStatsView>,
    infos: Seq<CommitInfoView>,
    prefix: Option<Seq<char>>,
) -> Result<Map<Seq<char>, (u32, u64)>, GmapErrorView>
    decreases stats.len(),
{
    if stats.len() == 0 {
        Ok(Map::empty())
    } else {
        match heat_of(stats.drop_last(), infos, prefix) {
            Err(e) => Err(e),
            Ok(map) => heat_step(map, stats.last(), infos, prefix),
        }
    }
}

/// The changed lines of the entries of `files` under the prefix, and
/// whether there is such an entry.
fn matching_lines(files: &Vec<FileStats>, path_prefix: Option<&str>) -> (r: (bool, u128))
    ensures
        r.0 == (matching(files_view(files@), prefix_view(path_prefix)).len() > 0),
        r.1 == lines_changed(matching(files_view(files@), prefix_view(path_prefix))),
{
    let mut found = false;
    let mut lines: u128 = 0;
    let mut i: usize = 0;
    while i < files.len()
        invariant
            i <= files@.len(),
            found == (matching(
                files_view(files@).subrange(0, i as int),
                prefix_view(path_prefix),
            ).len() > 0),
            lines == lines_changed(
                matching(files_view(files@).subrange(0, i as int), prefix_view(path_prefix)),
            ),
            lines <= i * 0x2_0000_0000,
        decreases files@.len() - i,
    {
        let ghost done = files_view(files@).subrange(0, i as int);
        let ghost next = files_view(files@).subrange(0, i + 1);
        assert(next.drop_last() =~= done);
        assert(next.last() == files@[i as int]@);
        if matches_prefix(&files[i], path_prefix) {
            let ghost m = matching(next, prefix_view(path_prefix));
            assert(m.drop_last() =~= matching(done, prefix_view(path_prefix)));
            found = true;
            lines = lines + files[i].added_lines as u128 + files[i].deleted_lines as u128;
        }
        i += 1;
    }
    assert(files_view(files@).subrange(0, i as int) =~= files_view(files@));
    (found, lines)
}

/// The heat of `stats`: one bucket for each week in which a commit counts,
/// in ascending order of the week keys, with the number of those commits
/// and of the lines they changed under `path_prefix`. The metadata of each
/// commit is taken from `infos`; a commit without it is an error.
pub fn compute_heat(stats: &Vec<CommitStats>, infos: &Vec<CommitInfo>, path_prefix: Option<&str>) -> (r:
    Result<Vec<HeatBucket>, GmapError>)
    ensures
        match heat_of(stats_view(stats@), infos_view(infos@), prefix_view(path_prefix)) {
            Ok(map) => r matches Ok(buckets) && lists_map(buckets_view(buckets@), map),
            Err(e) => r matches Err(error) && error@ == e,
        },
{
    let mut weeks: StringMap<(u32, u64)> = StringMap::new();
    let mut i: usize = 0;
    while i < stats.len()
        invariant
            i <= stats@.len(),
            weeks.wf(),
            heat_of(
                stats_view(stats@).subrange(0, i as int),
                infos_view(infos@),
                prefix_view(path_prefix),
            ) == Ok::<Map<Seq<char>, (u32, u64)>, GmapErrorView>(weeks@),
        decreases stats@.len() - i,
    {
        let ghost next = stats_view(stats@).subrange(0, i + 1);
        proof {
            assert(next.drop_last() =~= stats_view(stats@).subrange(0, i as int));
            assert(next.last() == stats@[i as int]@);
            lemma_heat_failure_stays(
                stats_view(stats@),
                infos_view(infos@),
                prefix_view(path_prefix),
                i + 1,
            );
        }
        let commit = &stats[i];
        let info = match find_info(infos, &commit.commit_id) {
            Some(info) => info,
            None => {
                return Err(info_not_found());
            },
        };
        let week = match week_key(&info.timestamp) {
            Some(week) => week,
            None => {
                return Err(GmapError::InvalidTimestamp(info.timestamp.secs));
            },
        };
        let (found, lines) = matching_lines(&commit.files, path_prefix);
        if found || path_prefix.is_none() {
            let (commits_before, lines_before) = match weeks.get(&week) {
                Some(counts) => *counts,
                None => (0, 0),
            };
            if commits_before == u32::MAX || lines > u64::MAX as u128 - lines_before as u128 {
                return Err(GmapError::Overflow);
            }
            weeks.insert(week, (commits_before + 1, (lines_before as u128 + lines) as u64));
        }
        i += 1;
    }
    assert(stats_view(stats@).subrange(0, i as int) =~= stats_view(stats@));
    let entries = weeks.into_entries();
    let mut buckets: Vec<HeatBucket> = Vec::new();
    let mut k: usize = 0;
    while k < entries.len()
        invariant
            k <= entries@.len(),
            buckets@.len() == k,
            forall|j: int|
                0 <= j < k ==> (#[trigger] buckets@[j]).week@ == entries@[j].0@
                    && buckets@[j].commit_count == entries@[j].1.0 && buckets@[j].lines_changed
                    == entries@[j].1.1,
        decreases entries@.len() - k,
    {
        let (week, counts) = &entries[k];
        buckets.push(
            HeatBucket { week: week.clone(), commit_count: counts.0, lines_changed: counts.1 },
        );
        k += 1;
    }
    assert(buckets_view(buckets@) =~= pairs_view(entries@));
    Ok(buckets)
}

/// Once the heat of the first commits of a list fails, the heat of the
/// whole list fails in the same way.
proof fn lemma_heat_failure_stays(
    stats: Seq<CommitStatsView>,
    infos: Seq<CommitInfoView>,
    prefix: Option<Seq<char>>,
    n: int,
)
    requires
        0 <= n <= stats.len(),
    ensures
        heat_of(stats.subrange(0, n), infos, prefix) is Err ==> heat_of(stats, infos, prefix)
            == heat_of(stats.subrange(0, n), infos, prefix),
    decreases stats.len() - n,
{
    if n < stats.len() {
        assert(stats.subrange(0, n + 1).drop_last() =~= stats.subrange(0, n));
        lemma_heat_failure_stays(stats, infos, prefix, n + 1);
    } else {
        assert(stats.subrange(0, n) =~= stats);
    }
}

} // verus!
