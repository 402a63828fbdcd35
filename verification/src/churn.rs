//! Churn: how much each path changed over the commits analysed.

use vstd::prelude::*;
use vstd::string::StrSliceExecFns;
use crate::cache::store::{find_info, info_for};
use crate::error::{info_not_found, GmapError, GmapErrorView, INFO_NOT_FOUND};
use crate::idset::StringSet;
use crate::model::{
    files_view, infos_view, stats_view, strings_view, CommitInfo, CommitInfoView, CommitStats,
    CommitStatsView, FileStats, FileStatsView,
};
use crate::order::text_before;
use crate::sorting::{is_stable_order, lemma_order_reaches, stable_order};
use crate::strmap::{has_key, pairs_view, StringMap};
use crate::util::{
    is_excluded, matches_filter, matches_prefix, passes_filter, path_excluded, path_matches,
    prefix_view,
};

verus! {

/// The most authors that a churn entry keeps track of.
pub const MAX_AUTHORS: usize = 100;

/// The character that separates the directories of a path.
pub const SEPARATOR: char = '/';

/// The changes to one path, summed over commits.
pub struct ChurnEntry {
    pub path: String,
    pub added_lines: u64,
    pub deleted_lines: u64,
    pub total_lines: u64,
    pub commit_count: u32,
    pub authors: StringSet,
}

/// The mathematical content of a `ChurnEntry`.
pub struct ChurnEntryView {
    pub path: Seq<char>,
    pub added_lines: u64,
    pub deleted_lines: u64,
    pub total_lines: u64,
    pub commit_count: u32,
    pub authors: Set<Seq<char>>,
}

impl View for ChurnEntry {
    type V = ChurnEntryView;

    open spec fn view(&self) -> ChurnEntryView {
        ChurnEntryView {
            path: self.path@,
            added_lines: self.added_lines,
            deleted_lines: self.deleted_lines,
            total_lines: self.total_lines,
            commit_count: self.commit_count,
            authors: self.authors@,
        }
    }
}

impl ChurnEntryView {
    /// The entry after the changes `stats` by `author` were added: the line
    /// counts grow by those of `stats`, the commit count by one, and the
    /// author joins the authors unless they are `MAX_AUTHORS` or more.
    pub open spec fn with_stats(self, stats: FileStatsView, author: Seq<char>) -> ChurnEntryView {
        ChurnEntryView {
            path: self.path,
            added_lines: (self.added_lines + stats.added_lines) as u64,
            deleted_lines: (self.deleted_lines + stats.deleted_lines) as u64,
            total_lines: (self.total_lines + stats.added_lines + stats.deleted_lines) as u64,
            commit_count: (self.commit_count + 1) as u32,
            authors: if self.authors.len() < MAX_AUTHORS {
                self.authors.insert(author)
            } else {
                self.authors
            },
        }
    }
}

impl ChurnEntryView {
    /// The entry for `path` to which nothing has been added yet.
    pub open spec fn empty(path: Seq<char>) -> ChurnEntryView {
        ChurnEntryView {
            path,
            added_lines: 0,
            deleted_lines: 0,
            total_lines: 0,
            commit_count: 0,
            authors: Set::empty(),
        }
    }

    /// Whether the changes `stats` can be added without a count leaving its type.
    pub open spec fn has_room(self, stats: FileStatsView) -> bool {
        &&& self.added_lines + stats.added_lines <= u64::MAX
        &&& self.deleted_lines + stats.deleted_lines <= u64::MAX
        &&& stats.added_lines + stats.deleted_lines <= u32::MAX
        &&& self.total_lines + stats.added_lines + stats.deleted_lines <= u64::MAX
        &&& self.commit_count < u32::MAX
    }
}

impl Clone for ChurnEntry {
    fn clone(&self) -> (copy: ChurnEntry)
        ensures
            copy@ == self@,
            self.wf() ==> copy.wf(),
    {
        ChurnEntry {
            path: self.path.clone(),
            added_lines: self.added_lines,
            deleted_lines: self.deleted_lines,
            total_lines: self.total_lines,
            commit_count: self.commit_count,
            authors: self.authors.clone(),
        }
    }
}

impl ChurnEntry {
    /// Whether the changes `stats` can be added without a count leaving its type.
    pub fn has_room(&self, stats: &FileStats) -> (b: bool)
        ensures
            b == self@.has_room(stats@),
    {
        stats.added_lines <= u32::MAX - stats.deleted_lines && self.added_lines <= u64::MAX
            - stats.added_lines as u64 && self.deleted_lines <= u64::MAX
            - stats.deleted_lines as u64 && self.total_lines <= u64::MAX - (stats.added_lines as u64
            + stats.deleted_lines as u64) && self.commit_count < u32::MAX
    }

    /// The set of authors is well formed.
    pub open spec fn wf(&self) -> bool {
        self.authors.wf()
    }

    /// An entry for `path` to which nothing has been added yet.
    pub fn new(path: String) -> (entry: ChurnEntry)
        ensures
            entry.wf(),
            entry@ == (ChurnEntryView {
                path: path@,
                added_lines: 0,
                deleted_lines: 0,
                total_lines: 0,
                commit_count: 0,
                authors: Set::empty(),
            }),
    {
        ChurnEntry {
            path,
            added_lines: 0,
            deleted_lines: 0,
            total_lines: 0,
            commit_count: 0,
            authors: StringSet::new(),
        }
    }

    /// Adds the changes that one commit by `author` made to the path.
    pub fn add_stats(&mut self, stats: &FileStats, author: &str)
        requires
            old(self).wf(),
            old(self)@.has_room(stats@),
        ensures
            final(self).wf(),
            final(self)@ == old(self)@.with_stats(stats@, author@),
    {
        self.added_lines += stats.added_lines as u64;
        self.deleted_lines += stats.deleted_lines as u64;
        self.total_lines += (stats.added_lines + stats.deleted_lines) as u64;
        self.commit_count += 1;
        if self.authors.len() < MAX_AUTHORS {
            self.authors.insert(author.to_owned());
        }
    }
}

/// The number of separators in `path`.
pub open spec fn separators(path: Seq<char>) -> nat
    decreases path.len(),
{
    if path.len() == 0 {
        0
    } else if path.last() == SEPARATOR {
        separators(path.drop_last()) + 1
    } else {
        separators(path.drop_last())
    }
}

/// The path cut to its first `depth` directories: the path itself if
/// `depth` is 0 or the path has no more than `depth` parts, and otherwise
/// what stands before its `depth`th separator.
pub open spec fn aggregated(path: Seq<char>, depth: nat) -> Seq<char>
    decreases path.len(),
{
    if depth == 0 || separators(path) < depth {
        path
    } else if path.last() == SEPARATOR && separators(path) == depth {
        path.drop_last()
    } else {
        aggregated(path.drop_last(), depth)
    }
}

/// A path with fewer separators than `depth` is kept whole; so is what
/// stands before the `depth`th separator of a longer one.
proof fn lemma_aggregated_prefix(path: Seq<char>, depth: nat, n: int)
    requires
        depth > 0,
        0 <= n < path.len(),
        separators(path.subrange(0, n)) == depth - 1,
        path[n] == SEPARATOR,
    ensures
        aggregated(path, depth) == path.subrange(0, n),
    decreases path.len(),
{
    lemma_separators_grow(path, n + 1);
    if path.len() == n + 1 {
        assert(path.drop_last() =~= path.subrange(0, n));
        assert(path.subrange(0, n + 1) =~= path);
    } else {
        let front = path.drop_last();
        assert(front.subrange(0, n) =~= path.subrange(0, n));
        assert(path.subrange(0, n + 1).drop_last() =~= path.subrange(0, n));
        lemma_aggregated_prefix(front, depth, n);
        lemma_separators_grow(front, n + 1);
        assert(front.subrange(0, n + 1) =~= path.subrange(0, n + 1));
    }
}

/// A longer start of a path has no fewer separators.
proof fn lemma_separators_grow(path: Seq<char>, n: int)
    requires
        0 <= n <= path.len(),
    ensures
        separators(path.subrange(0, n)) <= separators(path),
    decreases path.len() - n,
{
    if n < path.len() {
        lemma_separators_grow(path, n + 1);
        assert(path.subrange(0, n + 1).drop_last() =~= path.subrange(0, n));
    } else {
        assert(path.subrange(0, n) =~= path);
    }
}

/// The path under which the changes to `path` are summed when churn is
/// reported by directories of depth `depth`.
pub fn aggregate_path(path: &str, depth: u32) -> (r: String)
    ensures
        r@ == aggregated(path@, depth as nat),
{
    if depth == 0 {
        return path.to_owned();
    }
    let len = path.unicode_len();
    let mut count: u32 = 0;
    let mut i: usize = 0;
    assert(path@.subrange(0, 0) =~= Seq::<char>::empty());
    while i < len
        invariant
            i <= len,
            len == path@.len(),
            depth > 0,
            count < depth,
            count == separators(path@.subrange(0, i as int)),
        decreases len - i,
    {
        assert(path@.subrange(0, i + 1).drop_last() =~= path@.subrange(0, i as int));
        if path.get_char(i) == SEPARATOR {
            if count + 1 == depth {
                proof {
                    lemma_aggregated_prefix(path@, depth as nat, i as int);
                }
                return path.substring_char(0, i).to_owned();
            }
            count += 1;
        }
        i += 1;
    }
    assert(path@.subrange(0, i as int) =~= path@);
    path.to_owned()
}

/// What decides which changes are summed, and under which paths.
pub struct ChurnOptions {
    /// The depth of the directories by which changes are summed, if any.
    pub depth: Option<u32>,
    /// Only changes to paths with this prefix are summed.
    pub path_prefix: Option<Seq<char>>,
    /// Only commits whose author's name holds this text are summed.
    pub author: Option<Seq<char>>,
    /// Only commits whose author's address holds this text are summed.
    pub author_email: Option<Seq<char>>,
    /// Changes to paths that hold one of these texts are left out.
    pub excludes: Seq<Seq<char>>,
}

/// The path under which the changes to `path` are summed.
pub open spec fn churn_key(path: Seq<char>, depth: Option<u32>) -> Seq<char> {
    match depth {
        Some(d) => aggregated(path, d as nat),
        None => path,
    }
}

/// The entry that `map` holds for `key`, or the empty entry.
pub open spec fn entry_of(map: Map<Seq<char>, ChurnEntryView>, key: Seq<char>) -> ChurnEntryView {
    if map.dom().contains(key) {
        map[key]
    } else {
        ChurnEntryView::empty(key)
    }
}

/// The churn after one more file entry of a commit by `author`.
pub open spec fn churn_file(
    map: Map<Seq<char>, ChurnEntryView>,
    file: FileStatsView,
    author: Seq<char>,
    options: ChurnOptions,
) -> Result<Map<Seq<char>, ChurnEntryView>, GmapErrorView> {
    if !path_matches(file.path, options.path_prefix) || is_excluded(file.path, options.excludes) {
        Ok(map)
    } else {
        let key = churn_key(file.path, options.depth);
        if entry_of(map, key).has_room(file) {
            Ok(map.insert(key, entry_of(map, key).with_stats(file, author)))
        } else {
            Err(GmapErrorView::Overflow)
        }
    }
}

/// The churn after the file entries `files` of a commit by `author`.
pub open spec fn churn_files(
    map: Map<Seq<char>, ChurnEntryView>,
    files: Seq<FileStatsView>,
    author: Seq<char>,
    options: ChurnOptions,
) -> Result<Map<Seq<char>, ChurnEntryView>, GmapErrorView>
    decreases files.len(),
{
    if files.len() == 0 {
        Ok(map)
    } else {
        match churn_files(map, files.drop_last(), author, options) {
            Err(e) => Err(e),
            Ok(m) => churn_file(m, files.last(), author, options),
        }
    }
}

/// The churn after one more commit. A commit without metadata in `infos`
/// is an error; a commit whose author does not pass the filters adds nothing.
pub open spec fn churn_commit(
    map: Map<Seq<char>, ChurnEntryView>,
    commit: CommitStatsView,
    infos: Seq<CommitInfoView>,
    options: ChurnOptions,
) -> Result<Map<Seq<char>, ChurnEntryView>, GmapErrorView> {
    match info_for(infos, commit.commit_id) {
        None => Err(GmapErrorView::Cache(INFO_NOT_FOUND@)),
        Some(info) => if !passes_filter(info.author_name, options.author) || !passes_filter(
            info.author_email,
            options.author_email,
        ) {
            Ok(map)
        } else {
            churn_files(map, commit.files, info.author_name, options)
        },
    }
}

/// The churn of a list of commits: the entry of each path, or the first failure.
pub open spec fn churn_of(
    stats: Seq<CommitStatsView>,
    infos: Seq<CommitInfoView>,
    options: ChurnOptions,
) -> Result<Map<Seq<char>, ChurnEntryView>, GmapErrorView>
    decreases stats.len(),
{
    if stats.len() == 0 {
        Ok(Map::empty())
    } else {
        match churn_of(stats.drop_last(), infos, options) {
            Err(e) => Err(e),
            Ok(map) => churn_commit(map, stats.last(), infos, options),
        }
    }
}

/// The contents of a list of churn entries.
pub open spec fn churn_view(entries: Seq<ChurnEntry>) -> Seq<ChurnEntryView> {
    Seq::new(entries.len(), |i: int| entries[i]@)
}

/// `a` ranks before `b`: it has more lines in total, or as many and the
/// path that comes first.
pub open spec fn ranks_before(a: ChurnEntryView, b: ChurnEntryView) -> bool {
    a.total_lines > b.total_lines || (a.total_lines == b.total_lines && text_before(a.path, b.path))
}

/// `entries` are the entries of `map`, each once, by descending total of
/// lines; entries with the same total stand in ascending order of their paths.
pub open spec fn ranks_map(
    entries: Seq<ChurnEntryView>,
    map: Map<Seq<char>, ChurnEntryView>,
) -> bool {
    &&& forall|i: int|
        0 <= i < entries.len() ==> map.dom().contains((#[trigger] entries[i]).path)
            && map[entries[i].path] == entries[i]
    &&& forall|key: Seq<char>|
        map.dom().contains(key) ==> exists|i: int|
            0 <= i < entries.len() && (#[trigger] entries[i]).path == key
    &&& forall|i: int, j: int|
        0 <= i < j < entries.len() ==> ranks_before(#[trigger] entries[i], #[trigger] entries[j])
}

/// What the entries held stand for: the entries of `map`, each under its path.
pub open spec fn holds_churn(held: Map<Seq<char>, ChurnEntry>, map: Map<Seq<char>, ChurnEntryView>) -> bool {
    &&& held.dom() == map.dom()
    &&& forall|key: Seq<char>|
        #[trigger] held.dom().contains(key) ==> held[key]@ == map[key] && held[key].wf()
            && held[key]@.path == key
}

/// Adds one file entry of a commit by `author` to the churn.
fn add_file(
    held: &mut StringMap<ChurnEntry>,
    file: &FileStats,
    author: &String,
    depth: Option<u32>,
    path_prefix: Option<&str>,
    excludes: &Vec<String>,
    Ghost(map): Ghost<Map<Seq<char>, ChurnEntryView>>,
    Ghost(options): Ghost<ChurnOptions>,
) -> (ok: bool)
    requires
        old(held).wf(),
        holds_churn(old(held)@, map),
        options.depth == depth,
        options.path_prefix == prefix_view(path_prefix),
        options.excludes == strings_view(excludes@),
    ensures
        final(held).wf(),
        match churn_file(map, file@, author@, options) {
            Ok(next) => ok && holds_churn(final(held)@, next),
            Err(_) => !ok,
        },
{
    assert(strings_view(excludes@) =~= Seq::new(excludes@.len(), |i: int| excludes@[i]@));
    if !matches_prefix(file, path_prefix) || path_excluded(file.path.as_str(), excludes.as_slice()) {
        return true;
    }
    let key = match depth {
        Some(d) => aggregate_path(file.path.as_str(), d),
        None => file.path.clone(),
    };
    let mut entry = match held.remove(&key) {
        Some(entry) => entry,
        None => ChurnEntry::new(key.clone()),
    };
    assert(entry@ == entry_of(map, key@));
    if !entry.has_room(file) {
        return false;
    }
    entry.add_stats(file, author.as_str());
    held.insert(key, entry);
    proof {
        let next = map.insert(key@, entry_of(map, key@).with_stats(file@, author@));
        assert(held@.dom() =~= next.dom());
    }
    true
}

/// The churn of `stats`: one entry for each path to which changes were
/// summed, by descending total of lines. The metadata of each commit is
/// taken from `infos`; a commit without it is an error, and so is a count
/// that leaves its type.
pub fn compute_churn(
    stats: &Vec<CommitStats>,
    infos: &Vec<CommitInfo>,
    depth: Option<u32>,
    path_prefix: Option<&str>,
    author: Option<&str>,
    author_email: Option<&str>,
    excludes: &Vec<String>,
) -> (r: Result<Vec<ChurnEntry>, GmapError>)
    ensures
        match churn_of(
            stats_view(stats@),
            infos_view(infos@),
            ChurnOptions {
                depth,
                path_prefix: prefix_view(path_prefix),
                author: prefix_view(author),
                author_email: prefix_view(author_email),
                excludes: strings_view(excludes@),
            },
        ) {
            Ok(map) => r matches Ok(entries) && ranks_map(churn_view(entries@), map),
            Err(e) => r matches Err(error) && error@ == e,
        },
{
    let ghost options = ChurnOptions {
        depth,
        path_prefix: prefix_view(path_prefix),
        author: prefix_view(author),
        author_email: prefix_view(author_email),
        excludes: strings_view(excludes@),
    };
    let ghost all = stats_view(stats@);
    let ghost all_infos = infos_view(infos@);
    let mut held: StringMap<ChurnEntry> = StringMap::new();
    let ghost mut map: Map<Seq<char>, ChurnEntryView> = Map::empty();
    let mut i: usize = 0;
    while i < stats.len()
        invariant
            i <= stats@.len(),
            held.wf(),
            holds_churn(held@, map),
            all == stats_view(stats@),
            all_infos == infos_view(infos@),
            options.depth == depth,
            options.path_prefix == prefix_view(path_prefix),
            options.author == prefix_view(author),
            options.author_email == prefix_view(author_email),
            options.excludes == strings_view(excludes@),
            churn_of(all.subrange(0, i as int), all_infos, options) == Ok::<
                Map<Seq<char>, ChurnEntryView>,
                GmapErrorView,
            >(map),
        decreases stats@.len() - i,
    {
        let commit = &stats[i];
        proof {
            let next = all.subrange(0, i + 1);
            assert(next.drop_last() =~= all.subrange(0, i as int));
            assert(next.last() == commit@);
            lemma_churn_failure_stays(all, all_infos, options, i + 1);
        }
        let info = match find_info(infos, &commit.commit_id) {
            Some(info) => info,
            None => {
                return Err(info_not_found());
            },
        };
        if matches_filter(&info.author_name, author) && matches_filter(
            &info.author_email,
            author_email,
        ) {
            let ghost start = map;
            let ghost files = files_view(commit.files@);
            let mut k: usize = 0;
            while k < commit.files.len()
                invariant
                    k <= commit.files@.len(),
                    held.wf(),
                    holds_churn(held@, map),
                    files == files_view(commit.files@),
                    options.depth == depth,
                    options.path_prefix == prefix_view(path_prefix),
                    options.excludes == strings_view(excludes@),
                    churn_files(start, files.subrange(0, k as int), info.author_name@, options)
                        == Ok::<Map<Seq<char>, ChurnEntryView>, GmapErrorView>(map),
                    i < stats@.len(),
                    all == stats_view(stats@),
                    all_infos == infos_view(infos@),
                    options.author == prefix_view(author),
                    options.author_email == prefix_view(author_email),
                    churn_of(all.subrange(0, i + 1), all_infos, options) == churn_files(
                        start,
                        files,
                        info.author_name@,
                        options,
                    ),
                    churn_of(all.subrange(0, i + 1), all_infos, options) is Err ==> churn_of(
                        all,
                        all_infos,
                        options,
                    ) == churn_of(all.subrange(0, i + 1), all_infos, options),
                decreases commit.files@.len() - k,
            {
                let file = &commit.files[k];
                proof {
                    let next = files.subrange(0, k + 1);
                    assert(next.drop_last() =~= files.subrange(0, k as int));
                    assert(next.last() == file@);
                    lemma_files_failure_stays(start, files, info.author_name@, options, k + 1);
                }
                let ok = add_file(
                    &mut held,
                    file,
                    &info.author_name,
                    depth,
                    path_prefix,
                    excludes,
                    Ghost(map),
                    Ghost(options),
                );
                if !ok {
                    return Err(GmapError::Overflow);
                }
                proof {
                    map = churn_file(map, file@, info.author_name@, options)->Ok_0;
                }
                k += 1;
            }
            assert(files.subrange(0, k as int) =~= files);
        }
        i += 1;
    }
    assert(all.subrange(0, i as int) =~= all);
    Ok(rank_entries(held, Ghost(map)))
}

/// The entries held, by descending total of lines.
fn rank_entries(held: StringMap<ChurnEntry>, Ghost(map): Ghost<Map<Seq<char>, ChurnEntryView>>) -> (entries:
    Vec<ChurnEntry>)
    requires
        held.wf(),
        holds_churn(held@, map),
    ensures
        ranks_map(churn_view(entries@), map),
{
    let ghost held_map = held@;
    let listed = held.into_entries();
    let ghost pairs = pairs_view(listed@);
    let mut keys: Vec<i128> = Vec::new();
    let mut i: usize = 0;
    while i < listed.len()
        invariant
            i <= listed@.len(),
            keys@.len() == i,
            forall|j: int| 0 <= j < i ==> (#[trigger] keys@[j]) == -(listed@[j].1.total_lines as i128),
        decreases listed@.len() - i,
    {
        keys.push(-(listed[i].1.total_lines as i128));
        i += 1;
    }
    let order = stable_order(&keys);
    let mut entries: Vec<ChurnEntry> = Vec::new();
    let mut k: usize = 0;
    while k < order.len()
        invariant
            k <= order@.len(),
            order@.len() == listed@.len(),
            is_stable_order(order@, keys@),
            entries@.len() == k,
            forall|j: int| 0 <= j < k ==> (#[trigger] entries@[j])@ == listed@[order@[j] as int].1@,
        decreases order@.len() - k,
    {
        assert(order@[k as int] < listed@.len());
        entries.push(listed[order[k]].1.clone());
        k += 1;
    }
    proof {
        let views = churn_view(entries@);
        assert forall|a: int| 0 <= a < views.len() implies map.dom().contains(
            (#[trigger] views[a]).path,
        ) && map[views[a].path] == views[a] by {
            let p = order@[a] as int;
            assert(entries@[a]@ == listed@[p].1@);
            assert(held_map.dom().contains(pairs[p].0));
        }
        assert forall|key: Seq<char>| map.dom().contains(key) implies exists|a: int|
            0 <= a < views.len() && (#[trigger] views[a]).path == key by {
            assert(held_map.dom().contains(key));
            assert(has_key(pairs, key));
            let p = choose|p: int| 0 <= p < pairs.len() && (#[trigger] pairs[p]).0 == key;
            lemma_order_reaches(order@, keys@.len(), p);
            let a = choose|a: int| 0 <= a < order@.len() && order@[a] == p;
            assert(entries@[a]@ == listed@[order@[a] as int].1@);
            assert(held_map.dom().contains(pairs[p].0));
            assert(views[a].path == key);
        }
        assert forall|a: int, b: int| 0 <= a < b < views.len() implies ranks_before(
            #[trigger] views[a],
            #[trigger] views[b],
        ) by {
            let p = order@[a] as int;
            let q = order@[b] as int;
            assert(entries@[a]@ == listed@[p].1@);
            assert(entries@[b]@ == listed@[q].1@);
            assert(keys@[p] <= keys@[q]);
            assert(held_map.dom().contains(pairs[p].0));
            assert(held_map.dom().contains(pairs[q].0));
            if keys@[p] == keys@[q] {
                assert(p < q);
                assert(text_before(pairs[p].0, pairs[q].0));
            }
        }
    }
    entries
}

/// Once the churn of the first commits of a list fails, the churn of the
/// whole list fails in the same way.
proof fn lemma_churn_failure_stays(
    stats: Seq<CommitStatsView>,
    infos: Seq<CommitInfoView>,
    options: ChurnOptions,
    n: int,
)
    requires
        0 <= n <= stats.len(),
    ensures
        churn_of(stats.subrange(0, n), infos, options) is Err ==> churn_of(stats, infos, options)
            == churn_of(stats.subrange(0, n), infos, options),
    decreases stats.len() - n,
{
    if n < stats.len() {
        assert(stats.subrange(0, n + 1).drop_last() =~= stats.subrange(0, n));
        lemma_churn_failure_stays(stats, infos, options, n + 1);
    } else {
        assert(stats.subrange(0, n) =~= stats);
    }
}

/// Once the churn of the first files of a commit fails, the churn of all
/// its files fails in the same way.
proof fn lemma_files_failure_stays(
    map: Map<Seq<char>, ChurnEntryView>,
    files: Seq<FileStatsView>,
    author: Seq<char>,
    options: ChurnOptions,
    n: int,
)
    requires
        0 <= n <= files.len(),
    ensures
        churn_files(map, files.subrange(0, n), author, options) is Err ==> churn_files(
            map,
            files,
            author,
            options,
        ) == churn_files(map, files.subrange(0, n), author, options),
    decreases files.len() - n,
{
    if n < files.len() {
        assert(files.subrange(0, n + 1).drop_last() =~= files.subrange(0, n));
        lemma_files_failure_stays(map, files, author, options, n + 1);
    } else {
        assert(files.subrange(0, n) =~= files);
    }
}

} // verus!
