//! The commits of one period, as the dashboard lists them.

use vstd::prelude::*;
use vstd::string::StrSliceExecFns;
use crate::cache::store::{find_info, info_for};
use crate::calendar::is_calendar_time;
use crate::error::{GmapError, GmapErrorView};
use crate::model::{
    files_view, infos_view, stats_view, strings_view, CommitInfo, CommitInfoView, CommitStats,
    CommitStatsView, FileStats, FileStatsView, Timestamp,
};
use crate::period::{period_key, period_key_of};
use crate::sorting::{instant_key, is_stable_order, stable_order, time_key};
use crate::tui::state::CommitDetail;
use crate::util::{matches_filter, matches_prefix, matching, passes_filter, prefix_view};

verus! {

/// How many characters of a commit id the short hash holds.
pub const SHORT_HASH_LEN: usize = 8;

/// The mathematical content of a `CommitDetail`.
pub struct CommitDetailView {
    pub hash: Seq<char>,
    pub short_hash: Seq<char>,
    pub message: Seq<char>,
    pub author_name: Seq<char>,
    pub author_email: Seq<char>,
    pub timestamp: Timestamp,
    pub files_changed: Seq<Seq<char>>,
    pub lines_added: u32,
    pub lines_deleted: u32,
}

impl View for CommitDetail {
    type V = CommitDetailView;

    open spec fn view(&self) -> CommitDetailView {
        CommitDetailView {
            hash: self.hash@,
            short_hash: self.short_hash@,
            message: self.message@,
            author_name: self.author_name@,
            author_email: self.author_email@,
            timestamp: self.timestamp,
            files_changed: strings_view(self.files_changed@),
            lines_added: self.lines_added,
            lines_deleted: self.lines_deleted,
        }
    }
}

impl Clone for CommitDetail {
    fn clone(&self) -> (copy: CommitDetail)
        ensures
            copy@ == self@,
    {
        let files_changed = crate::model::clone_strings(&self.files_changed);
        CommitDetail {
            hash: self.hash.clone(),
            short_hash: self.short_hash.clone(),
            message: self.message.clone(),
            author_name: self.author_name.clone(),
            author_email: self.author_email.clone(),
            timestamp: self.timestamp,
            files_changed,
            lines_added: self.lines_added,
            lines_deleted: self.lines_deleted,
        }
    }
}

/// The contents of a list of commit details.
pub open spec fn details_view(details: Seq<CommitDetail>) -> Seq<CommitDetailView> {
    Seq::new(details.len(), |i: int| details[i]@)
}

/// The first characters of a text, at most `n`.
pub open spec fn prefix_of(text: Seq<char>, n: nat) -> Seq<char> {
    if text.len() <= n {
        text
    } else {
        text.subrange(0, n as int)
    }
}

/// The position of the first line feed in a text, or its length.
pub open spec fn line_end(text: Seq<char>) -> int
    decreases text.len(),
{
    if text.len() == 0 || text[0] == '\n' {
        0
    } else {
        1 + line_end(text.drop_first())
    }
}

/// The first line of a text: what stands before its first line feed,
/// without a carriage return directly before the line feed. A text without
/// a line feed is its own first line.
pub open spec fn first_line(text: Seq<char>) -> Seq<char> {
    let end = line_end(text);
    if end < text.len() && end > 0 && text[end - 1] == '\r' {
        text.subrange(0, end - 1)
    } else {
        text.subrange(0, end)
    }
}

/// The paths of a list of file entries.
pub open spec fn paths_of(files: Seq<FileStatsView>) -> Seq<Seq<char>> {
    Seq::new(files.len(), |i: int| files[i].path)
}

/// The lines added by a list of file entries.
pub open spec fn added_sum(files: Seq<FileStatsView>) -> int
    decreases files.len(),
{
    if files.len() == 0 {
        0
    } else {
        added_sum(files.drop_last()) + files.last().added_lines
    }
}

/// The lines deleted by a list of file entries.
pub open spec fn deleted_sum(files: Seq<FileStatsView>) -> int
    decreases files.len(),
{
    if files.len() == 0 {
        0
    } else {
        deleted_sum(files.drop_last()) + files.last().deleted_lines
    }
}

/// What decides which commits of a period are listed.
pub struct PeriodFilter {
    /// The key of the period.
    pub period: Seq<char>,
    /// Whether periods are months rather than weeks.
    pub monthly: bool,
    /// Only files under this prefix are listed and counted.
    pub path_prefix: Option<Seq<char>>,
    /// Only commits whose author's name holds this text are listed.
    pub author: Option<Seq<char>>,
    /// Only commits whose author's address holds this text are listed.
    pub author_email: Option<Seq<char>>,
}

/// Whether a commit is listed: its metadata is known, its author passes
/// the filters, it falls into the period, and it touches a file under the
/// prefix where there is one.
pub open spec fn is_listed(commit: CommitStatsView, infos: Seq<CommitInfoView>, filter: PeriodFilter) -> bool {
    info_for(infos, commit.commit_id) matches Some(info) && passes_filter(
        info.author_name,
        filter.author,
    ) && passes_filter(info.author_email, filter.author_email) && is_calendar_time(
        info.timestamp.secs,
    ) && period_key_of(info.timestamp, filter.monthly) == filter.period && (filter.path_prefix is None
        || matching(commit.files, filter.path_prefix).len() > 0)
}

/// The detail of a commit with the metadata `info`.
pub open spec fn detail_of(
    commit: CommitStatsView,
    info: CommitInfoView,
    prefix: Option<Seq<char>>,
) -> CommitDetailView {
    let files = matching(commit.files, prefix);
    CommitDetailView {
        hash: info.id,
        short_hash: prefix_of(info.id, SHORT_HASH_LEN as nat),
        message: first_line(info.message),
        author_name: info.author_name,
        author_email: info.author_email,
        timestamp: info.timestamp,
        files_changed: paths_of(files),
        lines_added: added_sum(files) as u32,
        lines_deleted: deleted_sum(files) as u32,
    }
}

/// The details of the listed commits, in the order of the commits, or the
/// failure of a count of lines to fit 32 bits.
pub open spec fn listed_details(
    stats: Seq<CommitStatsView>,
    infos: Seq<CommitInfoView>,
    filter: PeriodFilter,
) -> Result<Seq<CommitDetailView>, GmapErrorView>
    decreases stats.len(),
{
    if stats.len() == 0 {
        Ok(Seq::empty())
    } else {
        match listed_details(stats.drop_last(), infos, filter) {
            Err(e) => Err(e),
            Ok(details) => if !is_listed(stats.last(), infos, filter) {
                Ok(details)
            } else {
                let files = matching(stats.last().files, filter.path_prefix);
                if added_sum(files) > u32::MAX || deleted_sum(files) > u32::MAX {
                    Err(GmapErrorView::Overflow)
                } else {
                    Ok(
                        details.push(
                            detail_of(
                                stats.last(),
                                info_for(infos, stats.last().commit_id).unwrap(),
                                filter.path_prefix,
                            ),
                        ),
                    )
                }
            },
        }
    }
}

/// The numbers by which details are ordered so that the latest comes first.
pub open spec fn detail_keys(details: Seq<CommitDetailView>) -> Seq<i128> {
    Seq::new(details.len(), |i: int| (-instant_key(details[i].timestamp)) as i128)
}

/// `sorted` holds the details of `details` from the latest to the
/// earliest; details of the same instant keep their order.
pub open spec fn latest_first(sorted: Seq<CommitDetailView>, details: Seq<CommitDetailView>) -> bool {
    exists|order: Seq<usize>|
        #![trigger is_stable_order(order, detail_keys(details))]
        is_stable_order(order, detail_keys(details)) && sorted.len() == details.len()
            && forall|i: int|
            0 <= i < sorted.len() ==> (#[trigger] sorted[i]) == details[order[i] as int]
}

/// The first characters of `text`, at most `n`.
pub fn take_chars(text: &str, n: usize) -> (r: String)
    ensures
        r@ == prefix_of(text@, n as nat),
{
    let len = text.unicode_len();
    if len <= n {
        text.to_owned()
    } else {
        text.substring_char(0, n).to_owned()
    }
}

/// The first line of `text`.
pub fn first_line_of(text: &str) -> (r: String)
    ensures
        r@ == first_line(text@),
{
    let len = text.unicode_len();
    let mut end: usize = 0;
    while end < len && text.get_char(end) != '\n'
        invariant
            end <= len,
            len == text@.len(),
            forall|j: int| 0 <= j < end ==> text@[j] != '\n',
        decreases len - end,
    {
        end += 1;
    }
    proof {
        lemma_line_end(text@, end as int);
    }
    if end < len && end > 0 && text.get_char(end - 1) == '\r' {
        text.substring_char(0, end - 1).to_owned()
    } else {
        text.substring_char(0, end).to_owned()
    }
}

/// The first line feed of a text stands at its line end.
proof fn lemma_line_end(text: Seq<char>, end: int)
    requires
        0 <= end <= text.len(),
        forall|j: int| 0 <= j < end ==> text[j] != '\n',
        end < text.len() ==> text[end] == '\n',
    ensures
        line_end(text) == end,
    decreases end,
{
    if end > 0 {
        let rest = text.drop_first();
        assert forall|j: int| 0 <= j < end - 1 implies rest[j] != '\n' by {
            assert(rest[j] == text[j + 1]);
        }
        lemma_line_end(rest, end - 1);
    }
}

/// The paths and the sums of lines of the file entries under the prefix:
/// `None` where a sum does not fit 32 bits.
fn summarize_files(files: &Vec<FileStats>, path_prefix: Option<&str>) -> (r: (
    Vec<String>,
    u64,
    u64,
))
    ensures
        strings_view(r.0@) == paths_of(matching(files_view(files@), prefix_view(path_prefix))),
        r.1 == added_sum(matching(files_view(files@), prefix_view(path_prefix))) || (r.1
            > u32::MAX && added_sum(matching(files_view(files@), prefix_view(path_prefix)))
            > u32::MAX),
        r.2 == deleted_sum(matching(files_view(files@), prefix_view(path_prefix))) || (r.2
            > u32::MAX && deleted_sum(matching(files_view(files@), prefix_view(path_prefix)))
            > u32::MAX),
{
    let ghost prefix = prefix_view(path_prefix);
    let mut paths: Vec<String> = Vec::new();
    let mut added: u64 = 0;
    let mut deleted: u64 = 0;
    let mut i: usize = 0;
    assert(strings_view(paths@) =~= paths_of(
        matching(files_view(files@).subrange(0, 0), prefix),
    ));
    while i < files.len()
        invariant
            i <= files@.len(),
            prefix == prefix_view(path_prefix),
            strings_view(paths@) == paths_of(
                matching(files_view(files@).subrange(0, i as int), prefix),
            ),
            added == added_sum(matching(files_view(files@).subrange(0, i as int), prefix)) || (
            added > u32::MAX && added_sum(
                matching(files_view(files@).subrange(0, i as int), prefix),
            ) > u32::MAX),
            deleted == deleted_sum(matching(files_view(files@).subrange(0, i as int), prefix))
                || (deleted > u32::MAX && deleted_sum(
                matching(files_view(files@).subrange(0, i as int), prefix),
            ) > u32::MAX),
            added <= 0x2_0000_0000,
            deleted <= 0x2_0000_0000,
        decreases files@.len() - i,
    {
        let ghost done = files_view(files@).subrange(0, i as int);
        let ghost next = files_view(files@).subrange(0, i + 1);
        let ghost paths_before = strings_view(paths@);
        assert(next.drop_last() =~= done);
        assert(next.last() == files@[i as int]@);
        if matches_prefix(&files[i], path_prefix) {
            assert(matching(next, prefix).drop_last() =~= matching(done, prefix));
            paths.push(files[i].path.clone());
            assert(strings_view(paths@) =~= paths_before.push(files@[i as int].path@));
            assert(strings_view(paths@) =~= paths_of(matching(next, prefix)));
            if added <= u32::MAX as u64 {
                added += files[i].added_lines as u64;
            }
            if deleted <= u32::MAX as u64 {
                deleted += files[i].deleted_lines as u64;
            }
            proof {
                lemma_sums_nonnegative(matching(done, prefix));
            }
        }
        i += 1;
    }
    assert(files_view(files@).subrange(0, i as int) =~= files_view(files@));
    (paths, added, deleted)
}

/// Sums of lines are not negative.
proof fn lemma_sums_nonnegative(files: Seq<FileStatsView>)
    ensures
        added_sum(files) >= 0,
        deleted_sum(files) >= 0,
    decreases files.len(),
{
    if files.len() > 0 {
        lemma_sums_nonnegative(files.drop_last());
    }
}

/// The details from the latest to the earliest; details of the same
/// instant keep their order.
pub fn sort_latest_first(details: &Vec<CommitDetail>) -> (sorted: Vec<CommitDetail>)
    ensures
        latest_first(details_view(sorted@), details_view(details@)),
{
    let mut keys: Vec<i128> = Vec::new();
    let mut i: usize = 0;
    while i < details.len()
        invariant
            i <= details@.len(),
            keys@.len() == i,
            forall|j: int|
                0 <= j < i ==> (#[trigger] keys@[j]) == -instant_key(details@[j].timestamp),
        decreases details@.len() - i,
    {
        keys.push(-time_key(&details[i].timestamp));
        i += 1;
    }
    assert(keys@ =~= detail_keys(details_view(details@)));
    let order = stable_order(&keys);
    let mut sorted: Vec<CommitDetail> = Vec::new();
    let mut k: usize = 0;
    while k < order.len()
        invariant
            k <= order@.len(),
            order@.len() == details@.len(),
            is_stable_order(order@, keys@),
            sorted@.len() == k,
            forall|j: int| 0 <= j < k ==> (#[trigger] sorted@[j])@ == details@[order@[j] as int]@,
        decreases order@.len() - k,
    {
        assert(order@[k as int] < details@.len());
        sorted.push(details[order[k]].clone());
        k += 1;
    }
    assert forall|i: int| 0 <= i < sorted@.len() implies (#[trigger] details_view(sorted@)[i])
        == details_view(details@)[order@[i] as int] by {
        assert(sorted@[i]@ == details@[order@[i] as int]@);
    }
    sorted
}

/// The commits of the period `period`, from the latest to the earliest. A
/// commit is listed if its metadata is in `infos`, its author passes the
/// filters, and it touches a file under `path_prefix` where one is given.
pub fn get_commits_for_period(
    stats: &Vec<CommitStats>,
    infos: &Vec<CommitInfo>,
    period: &str,
    path_prefix: Option<&str>,
    author: Option<&str>,
    author_email: Option<&str>,
    monthly: bool,
) -> (r: Result<Vec<CommitDetail>, GmapError>)
    ensures
        match listed_details(
            stats_view(stats@),
            infos_view(infos@),
            PeriodFilter {
                period: period@,
                monthly,
                path_prefix: prefix_view(path_prefix),
                author: prefix_view(author),
                author_email: prefix_view(author_email),
            },
        ) {
            Ok(details) => r matches Ok(commits) && latest_first(details_view(commits@), details),
            Err(e) => r matches Err(error) && error@ == e,
        },
{
    let ghost filter = PeriodFilter {
        period: period@,
        monthly,
        path_prefix: prefix_view(path_prefix),
        author: prefix_view(author),
        author_email: prefix_view(author_email),
    };
    let ghost all = stats_view(stats@);
    let wanted = period.to_owned();
    let mut commits: Vec<CommitDetail> = Vec::new();
    let mut i: usize = 0;
    assert(details_view(commits@) =~= Seq::<CommitDetailView>::empty());
    while i < stats.len()
        invariant
            i <= stats@.len(),
            all == stats_view(stats@),
            filter.period == period@,
            wanted@ == period@,
            filter.monthly == monthly,
            filter.path_prefix == prefix_view(path_prefix),
            filter.author == prefix_view(author),
            filter.author_email == prefix_view(author_email),
            listed_details(all.subrange(0, i as int), infos_view(infos@), filter) == Ok::<
                Seq<CommitDetailView>,
                GmapErrorView,
            >(details_view(commits@)),
        decreases stats@.len() - i,
    {
        let commit = &stats[i];
        let ghost before = details_view(commits@);
        proof {
            let next = all.subrange(0, i + 1);
            assert(next.drop_last() =~= all.subrange(0, i as int));
            assert(next.last() == commit@);
            lemma_listing_failure_stays(all, infos_view(infos@), filter, i + 1);
        }
        if let Some(info) = find_info(infos, &commit.commit_id) {
            if matches_filter(&info.author_name, author) && matches_filter(
                &info.author_email,
                author_email,
            ) {
                let in_period = match period_key(&info.timestamp, monthly) {
                    Some(key) => key == wanted,
                    None => false,
                };
                if in_period {
                    let (paths, added, deleted) = summarize_files(&commit.files, path_prefix);
                    assert(strings_view(paths@).len() == paths@.len());
                    assert(paths_of(
                        matching(files_view(commit.files@), prefix_view(path_prefix)),
                    ).len() == matching(files_view(commit.files@), prefix_view(path_prefix)).len());
                    if paths.len() > 0 || path_prefix.is_none() {
                        if added > u32::MAX as u64 || deleted > u32::MAX as u64 {
                            return Err(GmapError::Overflow);
                        }
                        let detail = CommitDetail {
                            hash: info.id.clone(),
                            short_hash: take_chars(info.id.as_str(), SHORT_HASH_LEN),
                            message: first_line_of(info.message.as_str()),
                            author_name: info.author_name.clone(),
                            author_email: info.author_email.clone(),
                            timestamp: info.timestamp,
                            files_changed: paths,
                            lines_added: added as u32,
                            lines_deleted: deleted as u32,
                        };
                        commits.push(detail);
                        assert(details_view(commits@) =~= before.push(detail@));
                    }
                }
            }
        }
        i += 1;
    }
    assert(all.subrange(0, i as int) =~= all);
    Ok(sort_latest_first(&commits))
}

/// Once the listing of the first commits fails, the listing of all fails
/// in the same way.
proof fn lemma_listing_failure_stays(
    stats: Seq<CommitStatsView>,
    infos: Seq<CommitInfoView>,
    filter: PeriodFilter,
    n: int,
)
    requires
        0 <= n <= stats.len(),
    ensures
        listed_details(stats.subrange(0, n), infos, filter) is Err ==> listed_details(
            stats,
            infos,
            filter,
        ) == listed_details(stats.subrange(0, n), infos, filter),
    decreases stats.len() - n,
{
    if n < stats.len() {
        assert(stats.subrange(0, n + 1).drop_last() =~= stats.subrange(0, n));
        lemma_listing_failure_stays(stats, infos, filter, n + 1);
    } else {
        assert(stats.subrange(0, n) =~= stats);
    }
}

} // verus!
