//! Reading commit statistics back from the store: the query for a range of
//! dates, and the grouping of its rows into one record per commit.

use vstd::prelude::*;
use vstd::string::StringExecFns;
use crate::model::{
    files_view, stats_view, CommitStats, CommitStatsView, DateRange, FileStats, FileStatsView,
    Timestamp,
};
use crate::order::{
    lemma_text_before_irreflexive, lemma_text_before_total, lemma_text_before_transitive,
    string_before, text_before,
};

verus! {

/// A query with the values for its placeholders, in their order.
#[derive(Debug)]
pub struct Query {
    pub sql: String,
    pub binds: Vec<i64>,
}

/// The whole seconds that a query admits: those from `from` on, where there
/// is one, and up to `to`, where there is one.
#[derive(Debug)]
pub struct SecondBounds {
    pub from: Option<i64>,
    pub to: Option<i64>,
}

impl SecondBounds {
    /// Whether a commit stored with the whole second `t` passes the bounds.
    pub open spec fn admits(self, t: i64) -> bool {
        &&& (self.from matches Some(from) ==> from <= t)
        &&& (self.to matches Some(to) ==> t <= to)
    }
}

/// The instant that falls on the whole second `t`.
pub open spec fn whole_second(t: i64) -> Timestamp {
    Timestamp { secs: t, nanos: 0 }
}

/// The first whole second that is not before `since`, where one exists.
pub open spec fn first_second_from(since: Timestamp) -> Option<i64> {
    if since.nanos == 0 {
        Some(since.secs)
    } else if since.secs < i64::MAX {
        Some((since.secs + 1) as i64)
    } else {
        None
    }
}

/// The bounds on whole seconds that stand for `range`. The store holds whole
/// seconds, so a lower bound with a fraction of a second is raised to the
/// next second, and the fraction of an upper bound is dropped. There are none
/// where no whole second lies inside the range.
pub open spec fn second_bounds(range: DateRange) -> Option<SecondBounds> {
    let to = match range.until {
        Some(until) => Some(until.secs),
        None => None,
    };
    match range.since {
        Some(since) => match first_second_from(since) {
            Some(from) => Some(SecondBounds { from: Some(from), to }),
            None => None,
        },
        None => Some(SecondBounds { from: None, to }),
    }
}

/// Whether the query for `range` is made and answers with the commits stored
/// with the whole second `t`.
pub open spec fn query_admits(range: DateRange, t: i64) -> bool {
    second_bounds(range) matches Some(bounds) && bounds.admits(t)
}

/// The query for a range admits exactly the whole seconds that lie inside it.
pub proof fn lemma_bounds_admit_the_range(range: DateRange, t: i64)
    ensures
        query_admits(range, t) <==> range.spec_contains(whole_second(t)),
{
}

/// The text of the query for the commits within `bounds`, each joined with
/// its files.
pub open spec fn stats_sql(bounds: SecondBounds) -> Seq<char> {
    "SELECT c.id, f.path, f.added_lines, f.deleted_lines, f.is_binary FROM commits c LEFT JOIN files f ON c.id = f.commit_id WHERE 1=1"@
        + (if bounds.from is Some {
        " AND c.timestamp >= ?"@
    } else {
        Seq::empty()
    }) + (if bounds.to is Some {
        " AND c.timestamp <= ?"@
    } else {
        Seq::empty()
    }) + " ORDER BY c.timestamp"@
}

/// The values for the placeholders of that query: the bounds that there are.
pub open spec fn stats_binds(bounds: SecondBounds) -> Seq<i64> {
    (match bounds.from {
        Some(from) => seq![from],
        None => Seq::empty(),
    }) + (match bounds.to {
        Some(to) => seq![to],
        None => Seq::empty(),
    })
}

/// The bounds on whole seconds that stand for `range`.
pub fn range_bounds(range: &DateRange) -> (r: Option<SecondBounds>)
    ensures
        r == second_bounds(*range),
{
    let to = match range.until {
        Some(until) => Some(until.secs),
        None => None,
    };
    let r = match range.since {
        Some(since) => {
            if since.nanos == 0 {
                Some(SecondBounds { from: Some(since.secs), to })
            } else if since.secs < i64::MAX {
                Some(SecondBounds { from: Some(since.secs + 1), to })
            } else {
                None
            }
        },
        None => Some(SecondBounds { from: None, to }),
    };
    r
}

/// The query for the commits whose timestamp lies in `range`, with their
/// files; none where no stored timestamp can lie in the range, so that the
/// answer is empty without a query.
pub fn commit_stats_query(range: &DateRange) -> (r: Option<Query>)
    ensures
        match second_bounds(*range) {
            Some(bounds) => r matches Some(query) && query.sql@ == stats_sql(bounds)
                && query.binds@ == stats_binds(bounds),
            None => r is None,
        },
        forall|t: i64| #[trigger]
            query_admits(*range, t) <==> range.spec_contains(whole_second(t)),
{
    proof {
        assert forall|t: i64| #[trigger]
            query_admits(*range, t) <==> range.spec_contains(whole_second(t)) by {
            lemma_bounds_admit_the_range(*range, t);
        }
    }
    let bounds = match range_bounds(range) {
        Some(bounds) => bounds,
        None => {
            return None;
        },
    };
    let mut sql = String::from_str(
        "SELECT c.id, f.path, f.added_lines, f.deleted_lines, f.is_binary FROM commits c LEFT JOIN files f ON c.id = f.commit_id WHERE 1=1",
    );
    let mut binds: Vec<i64> = Vec::new();
    if let Some(from) = bounds.from {
        sql.append(" AND c.timestamp >= ?");
        binds.push(from);
    }
    if let Some(to) = bounds.to {
        sql.append(" AND c.timestamp <= ?");
        binds.push(to);
    }
    sql.append(" ORDER BY c.timestamp");
    assert(sql@ =~= stats_sql(bounds));
    assert(binds@ =~= stats_binds(bounds));
    Some(Query { sql, binds })
}

/// One row of the answer to that query: a commit id and, where the commit
/// has a file row, the columns of one of them.
#[derive(Debug)]
pub struct StatsRow {
    pub commit_id: String,
    pub path: Option<String>,
    pub added_lines: Option<u32>,
    pub deleted_lines: Option<u32>,
    pub is_binary: Option<i64>,
}

/// The mathematical content of a `StatsRow`.
pub struct StatsRowView {
    pub commit_id: Seq<char>,
    pub path: Option<Seq<char>>,
    pub added_lines: Option<u32>,
    pub deleted_lines: Option<u32>,
    pub is_binary: Option<i64>,
}

impl View for StatsRow {
    type V = StatsRowView;

    open spec fn view(&self) -> StatsRowView {
        StatsRowView {
            commit_id: self.commit_id@,
            path: match self.path {
                Some(p) => Some(p@),
                None => None,
            },
            added_lines: self.added_lines,
            deleted_lines: self.deleted_lines,
            is_binary: self.is_binary,
        }
    }
}

/// The contents of a list of rows.
pub open spec fn rows_view(rows: Seq<StatsRow>) -> Seq<StatsRowView> {
    Seq::new(rows.len(), |i: int| rows[i]@)
}

impl StatsRowView {
    /// The file entry that the row holds: one where all four file columns
    /// have a value, none otherwise. A file is binary where its column is not 0.
    pub open spec fn files(self) -> Seq<FileStatsView> {
        match (self.path, self.added_lines, self.deleted_lines, self.is_binary) {
            (Some(path), Some(added_lines), Some(deleted_lines), Some(is_binary)) => seq![
                FileStatsView { path, added_lines, deleted_lines, is_binary: is_binary != 0 },
            ],
            _ => Seq::empty(),
        }
    }
}

/// The file entries that `rows` hold for the commit `id`, in the order of the rows.
pub open spec fn files_for(rows: Seq<StatsRowView>, id: Seq<char>) -> Seq<FileStatsView>
    decreases rows.len(),
{
    if rows.len() == 0 {
        Seq::empty()
    } else if rows.last().commit_id == id {
        files_for(rows.drop_last(), id) + rows.last().files()
    } else {
        files_for(rows.drop_last(), id)
    }
}

/// The commit ids ascend strictly in the order of strings.
pub open spec fn ids_ascending(stats: Seq<CommitStatsView>) -> bool {
    forall|i: int, j: int|
        0 <= i < j < stats.len() ==> text_before(
            #[trigger] stats[i].commit_id,
            #[trigger] stats[j].commit_id,
        )
}

/// Some row is about the commit `id`.
pub open spec fn mentions(rows: Seq<StatsRowView>, id: Seq<char>) -> bool {
    exists|i: int| 0 <= i < rows.len() && (#[trigger] rows[i]).commit_id == id
}

/// Some record is about the commit `id`.
pub open spec fn has_record(stats: Seq<CommitStatsView>, id: Seq<char>) -> bool {
    exists|k: int| 0 <= k < stats.len() && (#[trigger] stats[k]).commit_id == id
}

/// `stats` is the answer that `rows` give: one record for each commit id
/// among the rows, in ascending order of the ids, each with the file entries
/// of its rows in their order. A commit whose rows hold no file has an empty
/// list.
pub open spec fn groups_rows(stats: Seq<CommitStatsView>, rows: Seq<StatsRowView>) -> bool {
    &&& ids_ascending(stats)
    &&& forall|k: int|
        0 <= k < stats.len() ==> (#[trigger] stats[k]).files == files_for(rows, stats[k].commit_id)
    &&& forall|k: int| 0 <= k < stats.len() ==> mentions(rows, (#[trigger] stats[k]).commit_id)
    &&& forall|i: int| 0 <= i < rows.len() ==> has_record(stats, (#[trigger] rows[i]).commit_id)
}

/// Rows that do not mention a commit hold no files for it.
pub proof fn lemma_files_for_absent(rows: Seq<StatsRowView>, id: Seq<char>)
    requires
        forall|i: int| 0 <= i < rows.len() ==> (#[trigger] rows[i]).commit_id != id,
    ensures
        files_for(rows, id) == Seq::<FileStatsView>::empty(),
    decreases rows.len(),
{
    if rows.len() > 0 {
        assert(rows.last() == rows[rows.len() - 1]);
        assert forall|i: int| 0 <= i < rows.drop_last().len() implies (#[trigger] rows.drop_last()[i]).commit_id
            != id by {
            assert(rows.drop_last()[i] == rows[i]);
        }
        lemma_files_for_absent(rows.drop_last(), id);
    }
}

/// The file entry of one row, if it has one.
fn row_file(row: &StatsRow) -> (file: Option<FileStats>)
    ensures
        match file {
            Some(f) => row@.files() == seq![f@],
            None => row@.files() == Seq::<FileStatsView>::empty(),
        },
{
    match (&row.path, row.added_lines, row.deleted_lines, row.is_binary) {
        (Some(path), Some(added_lines), Some(deleted_lines), Some(is_binary)) => Some(
            FileStats { path: path.clone(), added_lines, deleted_lines, is_binary: is_binary != 0 },
        ),
        _ => None,
    }
}

/// The place of `id` among the ascending ids of `stats`: the number of
/// records whose id comes before it.
fn find_place(stats: &Vec<CommitStats>, id: &String) -> (place: usize)
    requires
        ids_ascending(stats_view(stats@)),
    ensures
        place <= stats@.len(),
        forall|k: int| 0 <= k < place ==> text_before(stats@[k].commit_id@, id@),
        forall|k: int| place <= k < stats@.len() ==> !text_before(stats@[k].commit_id@, id@),
{
    let mut place: usize = 0;
    while place < stats.len() && string_before(&stats[place].commit_id, id)
        invariant
            place <= stats@.len(),
            forall|k: int| 0 <= k < place ==> text_before(stats@[k].commit_id@, id@),
        decreases stats@.len() - place,
    {
        place += 1;
    }
    proof {
        let views = stats_view(stats@);
        assert forall|k: int| place <= k < stats@.len() implies !text_before(
            stats@[k].commit_id@,
            id@,
        ) by {
            if k > place && text_before(stats@[k].commit_id@, id@) {
                assert(text_before(views[place as int].commit_id, views[k].commit_id));
                lemma_text_before_transitive(
                    stats@[place as int].commit_id@,
                    stats@[k].commit_id@,
                    id@,
                );
            }
        }
    }
    place
}

/// Adding a row adds its files to the files held for its commit, and to no other.
proof fn lemma_files_for_push(rows: Seq<StatsRowView>, row: StatsRowView, x: Seq<char>)
    ensures
        files_for(rows.push(row), x) == if x == row.commit_id {
            files_for(rows, x) + row.files()
        } else {
            files_for(rows, x)
        },
{
    assert(rows.push(row).drop_last() =~= rows);
    assert(rows.push(row).last() == row);
}

/// A row for a commit that has a record extends that record's files.
proof fn lemma_group_known(
    before: Seq<CommitStatsView>,
    done: Seq<StatsRowView>,
    row: StatsRowView,
    place: int,
)
    requires
        groups_rows(before, done),
        0 <= place < before.len(),
        before[place].commit_id == row.commit_id,
    ensures
        groups_rows(
            before.update(
                place,
                CommitStatsView {
                    commit_id: row.commit_id,
                    files: before[place].files + row.files(),
                },
            ),
            done.push(row),
        ),
{
    let id = row.commit_id;
    let now = done.push(row);
    let after = before.update(
        place,
        CommitStatsView { commit_id: id, files: before[place].files + row.files() },
    );
    assert forall|i: int, j: int| 0 <= i < j < after.len() implies text_before(
        #[trigger] after[i].commit_id,
        #[trigger] after[j].commit_id,
    ) by {
        assert(text_before(before[i].commit_id, before[j].commit_id));
    }
    assert forall|k: int| 0 <= k < after.len() implies (#[trigger] after[k]).files == files_for(
        now,
        after[k].commit_id,
    ) by {
        lemma_files_for_push(done, row, after[k].commit_id);
        assert(before[k].files == files_for(done, before[k].commit_id));
        if k < place {
            assert(text_before(before[k].commit_id, before[place].commit_id));
            lemma_text_before_irreflexive(id);
        } else if k > place {
            assert(text_before(before[place].commit_id, before[k].commit_id));
            lemma_text_before_irreflexive(id);
        }
    }
    assert forall|k: int| 0 <= k < after.len() implies mentions(
        now,
        (#[trigger] after[k]).commit_id,
    ) by {
        assert(before[k].commit_id == after[k].commit_id);
        assert(mentions(done, before[k].commit_id));
        let i = choose|i: int|
            0 <= i < done.len() && (#[trigger] done[i]).commit_id == before[k].commit_id;
        assert(now[i] == done[i]);
    }
    assert forall|i: int| 0 <= i < now.len() implies has_record(
        after,
        (#[trigger] now[i]).commit_id,
    ) by {
        if i < done.len() {
            assert(now[i] == done[i]);
            assert(has_record(before, done[i].commit_id));
            let k = choose|k: int|
                0 <= k < before.len() && (#[trigger] before[k]).commit_id == done[i].commit_id;
            assert(after[k].commit_id == now[i].commit_id);
        } else {
            assert(after[place].commit_id == now[i].commit_id);
        }
    }
}

/// A row for a commit that has no record yet gives a new record, which
/// takes its place in the order of the ids.
proof fn lemma_group_new(
    before: Seq<CommitStatsView>,
    done: Seq<StatsRowView>,
    row: StatsRowView,
    place: int,
)
    requires
        groups_rows(before, done),
        0 <= place <= before.len(),
        forall|k: int| 0 <= k < place ==> text_before(before[k].commit_id, row.commit_id),
        forall|k: int| place <= k < before.len() ==> !text_before(before[k].commit_id, row.commit_id),
        place < before.len() ==> before[place].commit_id != row.commit_id,
    ensures
        groups_rows(
            before.insert(place, CommitStatsView { commit_id: row.commit_id, files: row.files() }),
            done.push(row),
        ),
{
    let id = row.commit_id;
    let now = done.push(row);
    let entry = CommitStatsView { commit_id: id, files: row.files() };
    let after = before.insert(place, entry);
    assert forall|k: int| 0 <= k < before.len() implies (#[trigger] before[k]).commit_id != id && (k
        >= place ==> text_before(id, before[k].commit_id)) by {
        lemma_text_before_irreflexive(id);
        if k >= place {
            lemma_text_before_total(before[place].commit_id, id);
            if k > place {
                assert(text_before(before[place].commit_id, before[k].commit_id));
                lemma_text_before_transitive(id, before[place].commit_id, before[k].commit_id);
            }
        }
    }
    assert forall|i: int| 0 <= i < done.len() implies (#[trigger] done[i]).commit_id != id by {
        assert(has_record(before, done[i].commit_id));
        let k = choose|k: int|
            0 <= k < before.len() && (#[trigger] before[k]).commit_id == done[i].commit_id;
    }
    lemma_files_for_absent(done, id);
    assert forall|i: int, j: int| 0 <= i < j < after.len() implies text_before(
        #[trigger] after[i].commit_id,
        #[trigger] after[j].commit_id,
    ) by {
        if i < place && j > place {
            assert(text_before(before[i].commit_id, before[j - 1].commit_id));
        } else if i < place && j < place {
            assert(text_before(before[i].commit_id, before[j].commit_id));
        } else if i > place {
            assert(text_before(before[i - 1].commit_id, before[j - 1].commit_id));
        } else if i == place {
            assert(after[j] == before[j - 1]);
        } else {
            assert(after[i] == before[i]);
        }
    }
    assert forall|k: int| 0 <= k < after.len() implies (#[trigger] after[k]).files == files_for(
        now,
        after[k].commit_id,
    ) by {
        lemma_files_for_push(done, row, after[k].commit_id);
        if k < place {
            assert(after[k] == before[k]);
        } else if k > place {
            assert(after[k] == before[k - 1]);
        } else {
            assert(Seq::<FileStatsView>::empty() + row.files() =~= row.files());
        }
    }
    assert forall|k: int| 0 <= k < after.len() implies mentions(
        now,
        (#[trigger] after[k]).commit_id,
    ) by {
        if k == place {
            assert(now[done.len() as int].commit_id == after[k].commit_id);
        } else {
            let b = if k < place {
                k
            } else {
                k - 1
            };
            assert(after[k] == before[b]);
            assert(mentions(done, before[b].commit_id));
            let i = choose|i: int|
                0 <= i < done.len() && (#[trigger] done[i]).commit_id == before[b].commit_id;
            assert(now[i] == done[i]);
        }
    }
    assert forall|i: int| 0 <= i < now.len() implies has_record(
        after,
        (#[trigger] now[i]).commit_id,
    ) by {
        if i < done.len() {
            assert(now[i] == done[i]);
            assert(has_record(before, done[i].commit_id));
            let b = choose|b: int|
                0 <= b < before.len() && (#[trigger] before[b]).commit_id == done[i].commit_id;
            let k = if b < place {
                b
            } else {
                b + 1
            };
            assert(after[k] == before[b]);
        } else {
            assert(after[place].commit_id == now[i].commit_id);
        }
    }
}

/// Groups the rows of the answer into one record per commit, in ascending
/// order of the commit ids.
pub fn group_rows(rows: &Vec<StatsRow>) -> (stats: Vec<CommitStats>)
    ensures
        groups_rows(stats_view(stats@), rows_view(rows@)),
{
    let mut stats: Vec<CommitStats> = Vec::new();
    let mut n: usize = 0;
    while n < rows.len()
        invariant
            n <= rows@.len(),
            groups_rows(stats_view(stats@), rows_view(rows@).subrange(0, n as int)),
        decreases rows@.len() - n,
    {
        let row = &rows[n];
        let ghost before = stats_view(stats@);
        let ghost done = rows_view(rows@).subrange(0, n as int);
        assert(rows_view(rows@).subrange(0, n + 1) =~= done.push(row@));
        let place = find_place(&stats, &row.commit_id);
        let file = row_file(row);
        if place < stats.len() && stats[place].commit_id == row.commit_id {
            if let Some(f) = file {
                stats[place].files.push(f);
                assert(files_view(stats@[place as int].files@) =~= before[place as int].files
                    + seq![f@]);
            } else {
                assert(before[place as int].files + row@.files() =~= before[place as int].files);
            }
            proof {
                assert(stats_view(stats@) =~= before.update(
                    place as int,
                    CommitStatsView {
                        commit_id: row@.commit_id,
                        files: before[place as int].files + row@.files(),
                    },
                ));
                lemma_group_known(before, done, row@, place as int);
            }
        } else {
            let mut files: Vec<FileStats> = Vec::new();
            if let Some(f) = file {
                files.push(f);
            }
            assert(files_view(files@) =~= row@.files());
            let entry = CommitStats { commit_id: row.commit_id.clone(), files };
            stats.insert(place, entry);
            proof {
                assert(stats_view(stats@) =~= before.insert(
                    place as int,
                    CommitStatsView { commit_id: row@.commit_id, files: row@.files() },
                ));
                lemma_group_new(before, done, row@, place as int);
            }
        }
        n += 1;
    }
    assert(rows_view(rows@).subrange(0, n as int) =~= rows_view(rows@));
    stats
}

} // verus!
