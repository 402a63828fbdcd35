//! The activity of each week in detail: commits, lines, the most active
//! authors, the files changed most often, and the changes by file extension.

use vstd::prelude::*;
use crate::cache::store::{find_info, info_for};
use crate::calendar::is_calendar_time;
use crate::details::{added_sum, deleted_sum};
use crate::error::{GmapError, GmapErrorView};
use crate::model::{
    files_view, infos_view, stats_view, strings_view, CommitInfo, CommitInfoView, CommitStats,
    CommitStatsView, FileStats, FileStatsView,
};
use crate::period::{period_key, period_key_of};
use crate::sorting::{is_stable_order, stable_order};
use crate::strmap::{lists_map, pairs_view, StringMap};
use crate::text::{extension_of, lowercase, path_extension, to_lowercase};
use crate::tui::state::{FileExtensionStats, WeekStats};
use crate::util::{matches_prefix, matching, prefix_view};

verus! {

/// How many authors a week lists.
pub const TOP_AUTHORS: usize = 3;

/// How many files a week lists.
pub const TOP_FILES: usize = 10;

/// What is summed for one week.
pub struct WeekAccum {
    pub commits: usize,
    pub added: usize,
    pub deleted: usize,
    pub authors: StringMap<usize>,
    pub extensions: StringMap<FileExtensionStats>,
    pub file_changes: StringMap<usize>,
}

/// The mathematical content of a `WeekAccum`.
pub struct WeekAccumView {
    pub commits: usize,
    pub added: usize,
    pub deleted: usize,
    /// The number of commits by each author.
    pub authors: Map<Seq<char>, usize>,
    /// The changes by file extension, in lowercase.
    pub extensions: Map<Seq<char>, FileExtensionStats>,
    /// The number of changes to each file.
    pub file_changes: Map<Seq<char>, usize>,
}

impl View for WeekAccum {
    type V = WeekAccumView;

    open spec fn view(&self) -> WeekAccumView {
        WeekAccumView {
            commits: self.commits,
            added: self.added,
            deleted: self.deleted,
            authors: self.authors@,
            extensions: self.extensions@,
            file_changes: self.file_changes@,
        }
    }
}

impl WeekAccum {
    /// The three maps are well formed.
    pub open spec fn wf(&self) -> bool {
        self.authors.wf() && self.extensions.wf() && self.file_changes.wf()
    }
}

/// The count that `map` holds for `key`, 0 where it holds none.
pub open spec fn count_of(map: Map<Seq<char>, usize>, key: Seq<char>) -> usize {
    if map.dom().contains(key) {
        map[key]
    } else {
        0
    }
}

/// The key under which a file counts among the extensions: the extension of
/// its path in lowercase, and the lowercase of the empty text where the path
/// has none.
pub open spec fn extension_key(path: Seq<char>) -> Seq<char> {
    lowercase(
        match extension_of(path) {
            Some(extension) => extension,
            None => Seq::empty(),
        },
    )
}

/// The changes that `map` holds for the extension `ext`, none where it
/// holds no entry.
pub open spec fn extension_stats(
    map: Map<Seq<char>, FileExtensionStats>,
    ext: Seq<char>,
) -> FileExtensionStats {
    if map.dom().contains(ext) {
        map[ext]
    } else {
        FileExtensionStats { commits: 0, lines_added: 0, lines_deleted: 0, files_changed: 0 }
    }
}

impl WeekAccumView {
    /// The sums of a week in which nothing happened.
    pub open spec fn empty() -> WeekAccumView {
        WeekAccumView {
            commits: 0,
            added: 0,
            deleted: 0,
            authors: Map::empty(),
            extensions: Map::empty(),
            file_changes: Map::empty(),
        }
    }

    /// The sums after one more commit by `author` that adds `added` and
    /// deletes `deleted` lines, or `None` where a count leaves its type.
    pub open spec fn with_commit(self, author: Seq<char>, added: int, deleted: int) -> Option<
        WeekAccumView,
    > {
        if self.commits < usize::MAX && self.added + added <= usize::MAX && self.deleted + deleted
            <= usize::MAX && count_of(self.authors, author) < usize::MAX {
            Some(
                WeekAccumView {
                    commits: (self.commits + 1) as usize,
                    added: (self.added + added) as usize,
                    deleted: (self.deleted + deleted) as usize,
                    authors: self.authors.insert(
                        author,
                        (count_of(self.authors, author) + 1) as usize,
                    ),
                    ..self
                },
            )
        } else {
            None
        }
    }

    /// The sums after one more file entry, or `None` where a count leaves
    /// its type. The entry counts for its extension, in lowercase, and for
    /// its path.
    pub open spec fn with_file(self, file: FileStatsView) -> Option<WeekAccumView> {
        let ext = extension_key(file.path);
        let e = extension_stats(self.extensions, ext);
        if e.commits < usize::MAX && e.lines_added + file.added_lines <= usize::MAX && e.lines_deleted
            + file.deleted_lines <= usize::MAX && e.files_changed < usize::MAX && count_of(
            self.file_changes,
            file.path,
        ) < usize::MAX {
            Some(
                WeekAccumView {
                    extensions: self.extensions.insert(
                        ext,
                        FileExtensionStats {
                            commits: (e.commits + 1) as usize,
                            lines_added: (e.lines_added + file.added_lines) as usize,
                            lines_deleted: (e.lines_deleted + file.deleted_lines) as usize,
                            files_changed: (e.files_changed + 1) as usize,
                        },
                    ),
                    file_changes: self.file_changes.insert(
                        file.path,
                        (count_of(self.file_changes, file.path) + 1) as usize,
                    ),
                    ..self
                },
            )
        } else {
            None
        }
    }

    /// The sums after a list of file entries.
    pub open spec fn with_files(self, files: Seq<FileStatsView>) -> Option<WeekAccumView>
        decreases files.len(),
    {
        if files.len() == 0 {
            Some(self)
        } else {
            match self.with_files(files.drop_last()) {
                Some(acc) => acc.with_file(files.last()),
                None => None,
            }
        }
    }
}

/// The sums that `weeks` hold for the week `key`.
pub open spec fn accum_of(weeks: Map<Seq<char>, WeekAccumView>, key: Seq<char>) -> WeekAccumView {
    if weeks.dom().contains(key) {
        weeks[key]
    } else {
        WeekAccumView::empty()
    }
}

/// The sums after one more commit. A commit without metadata in `infos`,
/// or with a timestamp that is no date, is passed over; so is a commit that
/// touches no file under the prefix where there is one.
pub open spec fn weeks_step(
    weeks: Map<Seq<char>, WeekAccumView>,
    commit: CommitStatsView,
    infos: Seq<CommitInfoView>,
    prefix: Option<Seq<char>>,
    monthly: bool,
) -> Result<Map<Seq<char>, WeekAccumView>, GmapErrorView> {
    match info_for(infos, commit.commit_id) {
        None => Ok(weeks),
        Some(info) => {
            let files = matching(commit.files, prefix);
            if !is_calendar_time(info.timestamp.secs) || (files.len() == 0 && prefix is Some) {
                Ok(weeks)
            } else {
                let key = period_key_of(info.timestamp, monthly);
                match accum_of(weeks, key).with_commit(
                    info.author_name,
                    added_sum(files),
                    deleted_sum(files),
                ) {
                    None => Err(GmapErrorView::Overflow),
                    Some(acc) => match acc.with_files(files) {
                        None => Err(GmapErrorView::Overflow),
                        Some(acc) => Ok(weeks.insert(key, acc)),
                    },
                }
            }
        },
    }
}

/// The sums of each week over a list of commits, or the failure of a count
/// to fit its type.
pub open spec fn weeks_of(
    stats: Seq<CommitStatsView>,
    infos: Seq<CommitInfoView>,
    prefix: Option<Seq<char>>,
    monthly: bool,
) -> Result<Map<Seq<char>, WeekAccumView>, GmapErrorView>
    decreases stats.len(),
{
    if stats.len() == 0 {
        Ok(Map::empty())
    } else {
        match weeks_of(stats.drop_last(), infos, prefix, monthly) {
            Err(e) => Err(e),
            Ok(weeks) => weeks_step(weeks, stats.last(), infos, prefix, monthly),
        }
    }
}

/// The numbers by which counted entries are ordered so that the highest
/// count comes first.
pub open spec fn count_keys(entries: Seq<(Seq<char>, usize)>) -> Seq<i128> {
    Seq::new(entries.len(), |i: int| (-(entries[i].1 as int)) as i128)
}

/// `top` holds the first `n` entries of `entries` by descending count, or
/// all of them where they are fewer; entries with the same count keep their
/// order.
pub open spec fn is_top(
    top: Seq<(Seq<char>, usize)>,
    entries: Seq<(Seq<char>, usize)>,
    n: nat,
) -> bool {
    exists|order: Seq<usize>|
        #![trigger is_stable_order(order, count_keys(entries))]
        is_stable_order(order, count_keys(entries)) && top.len() == (if entries.len() <= n {
            entries.len()
        } else {
            n
        }) && forall|i: int| 0 <= i < top.len() ==> (#[trigger] top[i]) == entries[order[i] as int]
}

/// The keys of a list of entries.
pub open spec fn names_of(entries: Seq<(Seq<char>, usize)>) -> Seq<Seq<char>> {
    Seq::new(entries.len(), |i: int| entries[i].0)
}

/// The mathematical content of a `WeekStats`.
pub struct WeekStatsView {
    pub week: Seq<char>,
    pub commits: usize,
    pub lines_added: usize,
    pub lines_deleted: usize,
    pub top_authors: Seq<Seq<char>>,
    pub file_extensions: Seq<(Seq<char>, FileExtensionStats)>,
    pub top_files: Seq<(Seq<char>, usize)>,
}

impl View for WeekStats {
    type V = WeekStatsView;

    open spec fn view(&self) -> WeekStatsView {
        WeekStatsView {
            week: self.week@,
            commits: self.commits,
            lines_added: self.lines_added,
            lines_deleted: self.lines_deleted,
            top_authors: strings_view(self.top_authors@),
            file_extensions: pairs_view(self.file_extensions@),
            top_files: pairs_view(self.top_files@),
        }
    }
}

/// The contents of a list of weeks.
pub open spec fn weeks_view(weeks: Seq<WeekStats>) -> Seq<WeekStatsView> {
    Seq::new(weeks.len(), |i: int| weeks[i]@)
}

/// `week` shows the sums `acc` of the week `key`: its counts; the authors
/// with the most commits, at most three, and the files with the most
/// changes, at most ten, each by descending count and then in the order of
/// the strings; and the changes by extension in the order of the extensions.
pub open spec fn shows_week(week: WeekStatsView, key: Seq<char>, acc: WeekAccumView) -> bool {
    &&& week.week == key
    &&& week.commits == acc.commits
    &&& week.lines_added == acc.added
    &&& week.lines_deleted == acc.deleted
    &&& exists|authors: Seq<(Seq<char>, usize)>, top: Seq<(Seq<char>, usize)>|
        #![trigger lists_map(authors, acc.authors), is_top(top, authors, TOP_AUTHORS as nat)]
        lists_map(authors, acc.authors) && is_top(top, authors, TOP_AUTHORS as nat)
            && week.top_authors == names_of(top)
    &&& lists_map(week.file_extensions, acc.extensions)
    &&& exists|files: Seq<(Seq<char>, usize)>|
        #![trigger lists_map(files, acc.file_changes)]
        lists_map(files, acc.file_changes) && is_top(week.top_files, files, TOP_FILES as nat)
}

/// The keys of a list of weeks, each with no value.
pub open spec fn week_entries(weeks: Seq<WeekStatsView>, sums: Map<Seq<char>, WeekAccumView>) -> Seq<
    (Seq<char>, WeekAccumView),
> {
    Seq::new(weeks.len(), |i: int| (weeks[i].week, accum_of(sums, weeks[i].week)))
}

/// `weeks` show the sums `sums`: one week for each key, in ascending order
/// of the keys, each showing the sums of its key.
pub open spec fn shows_weeks(weeks: Seq<WeekStatsView>, sums: Map<Seq<char>, WeekAccumView>) -> bool {
    &&& lists_map(week_entries(weeks, sums), sums)
    &&& forall|i: int|
        0 <= i < weeks.len() ==> shows_week(
            #[trigger] weeks[i],
            weeks[i].week,
            accum_of(sums, weeks[i].week),
        )
}

/// The first `n` entries by descending count, or all of them where they
/// are fewer; entries with the same count keep their order.
pub fn top_by_count(entries: &Vec<(String, usize)>, n: usize) -> (top: Vec<(String, usize)>)
    ensures
        is_top(pairs_view(top@), pairs_view(entries@), n as nat),
{
    let mut keys: Vec<i128> = Vec::new();
    let mut i: usize = 0;
    while i < entries.len()
        invariant
            i <= entries@.len(),
            keys@.len() == i,
            forall|j: int| 0 <= j < i ==> (#[trigger] keys@[j]) == -(entries@[j].1 as i128),
        decreases entries@.len() - i,
    {
        keys.push(-(entries[i].1 as i128));
        i += 1;
    }
    assert(keys@ =~= count_keys(pairs_view(entries@)));
    let order = stable_order(&keys);
    let limit: usize = if entries.len() <= n {
        entries.len()
    } else {
        n
    };
    let mut top: Vec<(String, usize)> = Vec::new();
    let mut k: usize = 0;
    while k < limit
        invariant
            k <= limit,
            limit <= order@.len(),
            order@.len() == entries@.len(),
            is_stable_order(order@, keys@),
            top@.len() == k,
            forall|j: int|
                0 <= j < k ==> (#[trigger] top@[j]).0@ == entries@[order@[j] as int].0@ && top@[j].1
                    == entries@[order@[j] as int].1,
        decreases limit - k,
    {
        assert(order@[k as int] < entries@.len());
        let entry = &entries[order[k]];
        top.push((entry.0.clone(), entry.1));
        k += 1;
    }
    assert forall|i: int| 0 <= i < top@.len() implies (#[trigger] pairs_view(top@)[i])
        == pairs_view(entries@)[order@[i] as int] by {
        assert(top@[i].0@ == entries@[order@[i] as int].0@);
    }
    top
}

/// The keys of a list of entries.
fn entry_names(entries: &Vec<(String, usize)>) -> (names: Vec<String>)
    ensures
        strings_view(names@) == names_of(pairs_view(entries@)),
{
    let mut names: Vec<String> = Vec::new();
    let mut i: usize = 0;
    while i < entries.len()
        invariant
            i <= entries@.len(),
            names@.len() == i,
            forall|j: int| 0 <= j < i ==> (#[trigger] names@[j])@ == entries@[j].0@,
        decreases entries@.len() - i,
    {
        names.push(entries[i].0.clone());
        i += 1;
    }
    assert(strings_view(names@) =~= names_of(pairs_view(entries@)));
    names
}

/// A copy of the changes by extension.
fn copy_extensions(entries: &Vec<(String, FileExtensionStats)>) -> (copy: Vec<
    (String, FileExtensionStats),
>)
    ensures
        pairs_view(copy@) == pairs_view(entries@),
{
    let mut copy: Vec<(String, FileExtensionStats)> = Vec::new();
    let mut i: usize = 0;
    while i < entries.len()
        invariant
            i <= entries@.len(),
            copy@.len() == i,
            forall|j: int|
                0 <= j < i ==> (#[trigger] copy@[j]).0@ == entries@[j].0@ && copy@[j].1
                    == entries@[j].1,
        decreases entries@.len() - i,
    {
        let entry = &entries[i];
        copy.push((entry.0.clone(), entry.1));
        i += 1;
    }
    assert(pairs_view(copy@) =~= pairs_view(entries@));
    copy
}

/// The week that shows the sums `acc` under the key `key`.
fn finish_week(key: &String, acc: &WeekAccum) -> (week: WeekStats)
    requires
        acc.wf(),
    ensures
        shows_week(week@, key@, acc@),
{
    let authors = acc.authors.entries();
    let top_authors = top_by_count(authors, TOP_AUTHORS);
    let names = entry_names(&top_authors);
    let files = acc.file_changes.entries();
    let top_files = top_by_count(files, TOP_FILES);
    let file_extensions = copy_extensions(acc.extensions.entries());
    let week = WeekStats {
        week: key.clone(),
        commits: acc.commits,
        lines_added: acc.added,
        lines_deleted: acc.deleted,
        top_authors: names,
        file_extensions,
        top_files,
    };
    proof {
        assert(lists_map(pairs_view(authors@), acc@.authors) && is_top(
            pairs_view(top_authors@),
            pairs_view(authors@),
            TOP_AUTHORS as nat,
        ) && week@.top_authors == names_of(pairs_view(top_authors@)));
        assert(lists_map(pairs_view(files@), acc@.file_changes) && is_top(
            week@.top_files,
            pairs_view(files@),
            TOP_FILES as nat,
        ));
    }
    week
}

/// Adds one to the count of `key`; `false` where the count is at its limit.
fn bump(map: &mut StringMap<usize>, key: &String) -> (ok: bool)
    requires
        old(map).wf(),
    ensures
        final(map).wf(),
        ok == (count_of(old(map)@, key@) < usize::MAX),
        ok ==> final(map)@ == old(map)@.insert(key@, (count_of(old(map)@, key@) + 1) as usize),
        !ok ==> final(map)@ == old(map)@,
{
    let count: usize = match map.get(key) {
        Some(c) => *c,
        None => 0,
    };
    if count == usize::MAX {
        return false;
    }
    map.insert(key.clone(), count + 1);
    true
}

/// Adds one file entry to the sums of a week; `false` where a count would
/// leave its type.
fn add_week_file(acc: &mut WeekAccum, file: &FileStats) -> (ok: bool)
    requires
        old(acc).wf(),
    ensures
        final(acc).wf(),
        match old(acc)@.with_file(file@) {
            Some(next) => ok && final(acc)@ == next,
            None => !ok,
        },
{
    let extension = match path_extension(file.path.as_str()) {
        Some(extension) => extension,
        None => "",
    };
    proof {
        reveal_strlit("");
        assert(extension@ =~= match extension_of(file@.path) {
            Some(e) => e,
            None => Seq::empty(),
        });
    }
    let lower = to_lowercase(extension);
    let e: FileExtensionStats = match acc.extensions.get(&lower) {
        Some(stats) => *stats,
        None => FileExtensionStats { commits: 0, lines_added: 0, lines_deleted: 0, files_changed: 0 },
    };
    let changes: usize = match acc.file_changes.get(&file.path) {
        Some(c) => *c,
        None => 0,
    };
    let added = file.added_lines as usize;
    let deleted = file.deleted_lines as usize;
    if e.commits == usize::MAX || e.lines_added > usize::MAX - added || e.lines_deleted > usize::MAX
        - deleted || e.files_changed == usize::MAX || changes == usize::MAX {
        return false;
    }
    acc.extensions.insert(
        lower,
        FileExtensionStats {
            commits: e.commits + 1,
            lines_added: e.lines_added + added,
            lines_deleted: e.lines_deleted + deleted,
            files_changed: e.files_changed + 1,
        },
    );
    acc.file_changes.insert(file.path.clone(), changes + 1);
    true
}

/// The sums of lines of the entries of `files` under the prefix, and their number.
fn matching_sums(files: &Vec<FileStats>, path_prefix: Option<&str>) -> (r: (usize, u128, u128))
    ensures
        r.0 == matching(files_view(files@), prefix_view(path_prefix)).len(),
        r.1 == added_sum(matching(files_view(files@), prefix_view(path_prefix))),
        r.2 == deleted_sum(matching(files_view(files@), prefix_view(path_prefix))),
{
    let ghost prefix = prefix_view(path_prefix);
    let mut count: usize = 0;
    let mut added: u128 = 0;
    let mut deleted: u128 = 0;
    let mut i: usize = 0;
    while i < files.len()
        invariant
            i <= files@.len(),
            prefix == prefix_view(path_prefix),
            count == matching(files_view(files@).subrange(0, i as int), prefix).len(),
            count <= i,
            added == added_sum(matching(files_view(files@).subrange(0, i as int), prefix)),
            deleted == deleted_sum(matching(files_view(files@).subrange(0, i as int), prefix)),
            added <= i * 0x1_0000_0000,
            deleted <= i * 0x1_0000_0000,
        decreases files@.len() - i,
    {
        let ghost done = files_view(files@).subrange(0, i as int);
        let ghost next = files_view(files@).subrange(0, i + 1);
        assert(next.drop_last() =~= done);
        assert(next.last() == files@[i as int]@);
        if matches_prefix(&files[i], path_prefix) {
            assert(matching(next, prefix).drop_last() =~= matching(done, prefix));
            count += 1;
            added = added + files[i].added_lines as u128;
            deleted = deleted + files[i].deleted_lines as u128;
        }
        i += 1;
    }
    assert(files_view(files@).subrange(0, i as int) =~= files_view(files@));
    (count, added, deleted)
}

/// Adds a commit by `author` to the sums of a week: its lines under the
/// prefix, and each of its file entries under the prefix. `false` where a
/// count would leave its type.
fn add_week_commit(
    acc: &mut WeekAccum,
    author: &String,
    files: &Vec<FileStats>,
    path_prefix: Option<&str>,
    added: u128,
    deleted: u128,
) -> (ok: bool)
    requires
        old(acc).wf(),
        added == added_sum(matching(files_view(files@), prefix_view(path_prefix))),
        deleted == deleted_sum(matching(files_view(files@), prefix_view(path_prefix))),
    ensures
        final(acc).wf(),
        match old(acc)@.with_commit(author@, added as int, deleted as int) {
            None => !ok,
            Some(with_commit) => match with_commit.with_files(
                matching(files_view(files@), prefix_view(path_prefix)),
            ) {
                None => !ok,
                Some(next) => ok && final(acc)@ == next,
            },
        },
{
    let ghost prefix = prefix_view(path_prefix);
    if acc.commits == usize::MAX || added > (usize::MAX - acc.added) as u128 || deleted > (
    usize::MAX - acc.deleted) as u128 {
        return false;
    }
    if !bump(&mut acc.authors, author) {
        return false;
    }
    acc.commits += 1;
    acc.added += added as usize;
    acc.deleted += deleted as usize;
    let ghost start = acc@;
    let mut i: usize = 0;
    while i < files.len()
        invariant
            i <= files@.len(),
            acc.wf(),
            prefix == prefix_view(path_prefix),
            start.with_files(matching(files_view(files@).subrange(0, i as int), prefix)) == Some(
                acc@,
            ),
            old(acc)@.with_commit(author@, added as int, deleted as int) == Some(start),
        decreases files@.len() - i,
    {
        let ghost done = files_view(files@).subrange(0, i as int);
        let ghost next = files_view(files@).subrange(0, i + 1);
        assert(next.drop_last() =~= done);
        assert(next.last() == files@[i as int]@);
        if matches_prefix(&files[i], path_prefix) {
            assert(matching(next, prefix).drop_last() =~= matching(done, prefix));
            proof {
                lemma_files_failure_stays(start, files_view(files@), prefix, i + 1);
            }
            if !add_week_file(acc, &files[i]) {
                return false;
            }
        }
        i += 1;
    }
    assert(files_view(files@).subrange(0, i as int) =~= files_view(files@));
    true
}

/// Once the sums over the first file entries fail, the sums over all fail.
proof fn lemma_files_failure_stays(
    acc: WeekAccumView,
    files: Seq<FileStatsView>,
    prefix: Option<Seq<char>>,
    n: int,
)
    requires
        0 <= n <= files.len(),
    ensures
        acc.with_files(matching(files.subrange(0, n), prefix)) is None ==> acc.with_files(
            matching(files, prefix),
        ) is None,
    decreases files.len() - n,
{
    if n < files.len() {
        let next = files.subrange(0, n + 1);
        assert(next.drop_last() =~= files.subrange(0, n));
        if crate::util::path_matches(next.last().path, prefix) {
            assert(matching(next, prefix).drop_last() =~= matching(files.subrange(0, n), prefix));
        }
        lemma_files_failure_stays(acc, files, prefix, n + 1);
    } else {
        assert(files.subrange(0, n) =~= files);
    }
}

/// What the weeks held stand for: the sums `sums`.
pub open spec fn holds_weeks(held: Map<Seq<char>, WeekAccum>, sums: Map<Seq<char>, WeekAccumView>) -> bool {
    &&& held.dom() == sums.dom()
    &&& forall|key: Seq<char>|
        #[trigger] held.dom().contains(key) ==> held[key]@ == sums[key] && held[key].wf()
}

/// The activity of each period over `stats`, in ascending order of the
/// period keys; the periods are months where `monthly` is set, and weeks
/// otherwise. The metadata of each commit is taken from `infos`; a commit
/// without it is passed over, and so is a commit that touches no file under
/// `path_prefix` where one is given. A count that leaves its type is an error.
pub fn aggregate_weeks(
    stats: &Vec<CommitStats>,
    infos: &Vec<CommitInfo>,
    path_prefix: Option<&str>,
    monthly: bool,
) -> (r: Result<Vec<WeekStats>, GmapError>)
    ensures
        match weeks_of(stats_view(stats@), infos_view(infos@), prefix_view(path_prefix), monthly) {
            Ok(sums) => r matches Ok(weeks) && shows_weeks(weeks_view(weeks@), sums),
            Err(e) => r matches Err(error) && error@ == e,
        },
{
    let ghost all = stats_view(stats@);
    let ghost prefix = prefix_view(path_prefix);
    let mut held: StringMap<WeekAccum> = StringMap::new();
    let ghost mut sums: Map<Seq<char>, WeekAccumView> = Map::empty();
    let mut i: usize = 0;
    while i < stats.len()
        invariant
            i <= stats@.len(),
            held.wf(),
            holds_weeks(held@, sums),
            all == stats_view(stats@),
            prefix == prefix_view(path_prefix),
            weeks_of(all.subrange(0, i as int), infos_view(infos@), prefix, monthly) == Ok::<
                Map<Seq<char>, WeekAccumView>,
                GmapErrorView,
            >(sums),
        decreases stats@.len() - i,
    {
        let commit = &stats[i];
        proof {
            let next = all.subrange(0, i + 1);
            assert(next.drop_last() =~= all.subrange(0, i as int));
            assert(next.last() == commit@);
            lemma_weeks_failure_stays(all, infos_view(infos@), prefix, monthly, i + 1);
        }
        if let Some(info) = find_info(infos, &commit.commit_id) {
            if let Some(key) = period_key(&info.timestamp, monthly) {
                let (count, added, deleted) = matching_sums(&commit.files, path_prefix);
                if count > 0 || path_prefix.is_none() {
                    let mut acc = match held.remove(&key) {
                        Some(acc) => acc,
                        None => WeekAccum {
                            commits: 0,
                            added: 0,
                            deleted: 0,
                            authors: StringMap::new(),
                            extensions: StringMap::new(),
                            file_changes: StringMap::new(),
                        },
                    };
                    assert(acc@ == accum_of(sums, key@));
                    if !add_week_commit(
                        &mut acc,
                        &info.author_name,
                        &commit.files,
                        path_prefix,
                        added,
                        deleted,
                    ) {
                        return Err(GmapError::Overflow);
                    }
                    held.insert(key, acc);
                    proof {
                        sums = sums.insert(key@, acc@);
                        assert(held@.dom() =~= sums.dom());
                    }
                }
            }
        }
        i += 1;
    }
    assert(all.subrange(0, i as int) =~= all);
    let entries = held.entries();
    let ghost listing = pairs_view(entries@);
    let mut weeks: Vec<WeekStats> = Vec::new();
    let mut k: usize = 0;
    while k < entries.len()
        invariant
            k <= entries@.len(),
            listing == pairs_view(entries@),
            lists_map(listing, held@),
            holds_weeks(held@, sums),
            weeks@.len() == k,
            forall|j: int|
                0 <= j < k ==> shows_week((#[trigger] weeks@[j])@, listing[j].0, sums[listing[j].0]),
        decreases entries@.len() - k,
    {
        proof {
            assert(held@.dom().contains(listing[k as int].0));
            assert(held@[listing[k as int].0] == listing[k as int].1);
        }
        weeks.push(finish_week(&entries[k].0, &entries[k].1));
        k += 1;
    }
    proof {
        let views = weeks_view(weeks@);
        assert forall|j: int| 0 <= j < views.len() implies (#[trigger] views[j]).week
            == listing[j].0 && shows_week(views[j], listing[j].0, sums[listing[j].0])
            && sums.dom().contains(listing[j].0) by {
            assert(shows_week(weeks@[j]@, listing[j].0, sums[listing[j].0]));
            assert(held@.dom().contains(listing[j].0));
        }
        let entries_of = week_entries(views, sums);
        assert forall|j: int| 0 <= j < entries_of.len() implies (#[trigger] entries_of[j]).0
            == listing[j].0 by {
            assert(views[j].week == listing[j].0);
        }
        assert forall|a: int, b: int| 0 <= a < b < entries_of.len() implies crate::order::text_before(
            (#[trigger] entries_of[a]).0,
            (#[trigger] entries_of[b]).0,
        ) by {
            assert(crate::order::text_before(listing[a].0, listing[b].0));
        }
        assert forall|key: Seq<char>| sums.dom().contains(key) implies #[trigger] crate::strmap::has_key(
            entries_of,
            key,
        ) by {
            assert(held@.dom().contains(key));
            assert(crate::strmap::has_key(listing, key));
            let p = choose|p: int| 0 <= p < listing.len() && (#[trigger] listing[p]).0 == key;
            assert(entries_of[p].0 == key);
        }
        assert forall|j: int| 0 <= j < entries_of.len() implies sums.dom().contains(
            (#[trigger] entries_of[j]).0,
        ) && sums[entries_of[j].0] == entries_of[j].1 by {
            assert(views[j].week == listing[j].0);
        }
    }
    Ok(weeks)
}

/// Once the sums over the first commits fail, the sums over all fail in
/// the same way.
proof fn lemma_weeks_failure_stays(
    stats: Seq<CommitStatsView>,
    infos: Seq<CommitInfoView>,
    prefix: Option<Seq<char>>,
    monthly: bool,
    n: int,
)
    requires
        0 <= n <= stats.len(),
    ensures
        weeks_of(stats.subrange(0, n), infos, prefix, monthly) is Err ==> weeks_of(
            stats,
            infos,
            prefix,
            monthly,
        ) == weeks_of(stats.subrange(0, n), infos, prefix, monthly),
    decreases stats.len() - n,
{
    if n < stats.len() {
        assert(stats.subrange(0, n + 1).drop_last() =~= stats.subrange(0, n));
        lemma_weeks_failure_stays(stats, infos, prefix, monthly, n + 1);
    } else {
        assert(stats.subrange(0, n) =~= stats);
    }
}

} // verus!
