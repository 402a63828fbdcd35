//! One fetch of commit statistics: what the cache holds is kept, and only
//! the commits that it lacks are computed.
//!
//! The caller reads the cache and walks the repository, then lets a `Fetch`
//! decide which commits are left to compute. It computes them one by one,
//! hands each result in, stores what the fetch tells it to store, and gets
//! the merged list at the end.

use vstd::prelude::*;
use crate::cache::missing::{
    get_missing_commits, lemma_without_all_known, lemma_without_distinct,
    lemma_without_is_difference, without,
};
use crate::cache::contents::{
    after_writes, answers_with, has_stats, is_answer, lemma_after_writes, lemma_planned_writes,
    writes_commit,
};
use crate::cache::stats::{lemma_bounds_admit_the_range, whole_second};
use crate::cache::store::{
    first_per_path, info_for, planned_writes, store_commit_stats, writes_view, CommitWrite,
    CommitWriteView,
};
use crate::error::GmapError;
use crate::model::{
    infos_view, stats_view, strings_view, CommitInfo, CommitInfoView, CommitStats, CommitStatsView,
    DateRange,
};

verus! {

/// The commit ids of a list of records, in their order.
pub open spec fn ids_of(stats: Seq<CommitStatsView>) -> Seq<Seq<char>> {
    Seq::new(stats.len(), |i: int| stats[i].commit_id)
}

/// The commits that a fetch has to compute: those that the repository
/// lists and the cache does not hold, in the order of the listing.
pub open spec fn missing_ids(cached: Seq<CommitStatsView>, repo_ids: Seq<Seq<char>>) -> Seq<
    Seq<char>,
> {
    without(repo_ids, ids_of(cached).to_set())
}

/// The state of a fetch.
pub struct Fetch {
    cached: Vec<CommitStats>,
    missing: Vec<String>,
    computed: Vec<CommitStats>,
    infos: Vec<CommitInfo>,
}

/// The mathematical content of a `Fetch`.
pub struct FetchView {
    /// What the cache held for the range.
    pub cached: Seq<CommitStatsView>,
    /// The commits that the cache lacked, in the order of the listing.
    pub missing: Seq<Seq<char>>,
    /// The results handed in so far, in their order.
    pub computed: Seq<CommitStatsView>,
    /// The metadata handed in with the results.
    pub infos: Seq<CommitInfoView>,
}

impl View for Fetch {
    type V = FetchView;

    closed spec fn view(&self) -> FetchView {
        FetchView {
            cached: stats_view(self.cached@),
            missing: strings_view(self.missing@),
            computed: stats_view(self.computed@),
            infos: infos_view(self.infos@),
        }
    }
}

impl FetchView {
    /// The commit to compute next: the first missing one for which no result
    /// has been handed in.
    pub open spec fn next_missing(self) -> Option<Seq<char>> {
        if self.computed.len() < self.missing.len() {
            Some(self.missing[self.computed.len() as int])
        } else {
            None
        }
    }

    /// The state after a result was handed in, with the commit's metadata
    /// if it could be read.
    pub open spec fn after_computed(
        self,
        stats: CommitStatsView,
        info: Option<CommitInfoView>,
    ) -> FetchView {
        FetchView {
            computed: self.computed.push(stats),
            infos: match info {
                Some(info) => self.infos.push(info),
                None => self.infos,
            },
            ..self
        }
    }

    /// What the fetch returns: what the cache held, then what was computed.
    pub open spec fn result(self) -> Seq<CommitStatsView> {
        self.cached + self.computed
    }

    /// The results handed in so far are those of the first missing commits,
    /// one for each and in their order, and each metadata handed in belongs
    /// to one of them.
    pub open spec fn wf(self) -> bool {
        &&& self.computed.len() <= self.missing.len()
        &&& ids_of(self.computed) == self.missing.subrange(0, self.computed.len() as int)
        &&& forall|i: int|
            0 <= i < self.infos.len() ==> ids_of(self.computed).contains(
                (#[trigger] self.infos[i]).id,
            )
    }
}

/// The commit ids of a list of records.
fn commit_ids(stats: &Vec<CommitStats>) -> (ids: Vec<String>)
    ensures
        strings_view(ids@) == ids_of(stats_view(stats@)),
{
    let mut ids: Vec<String> = Vec::new();
    let mut i: usize = 0;
    while i < stats.len()
        invariant
            i <= stats@.len(),
            ids@.len() == i,
            forall|j: int| 0 <= j < i ==> ids@[j]@ == stats@[j].commit_id@,
        decreases stats@.len() - i,
    {
        ids.push(stats[i].commit_id.clone());
        i += 1;
    }
    assert(strings_view(ids@) =~= ids_of(stats_view(stats@)));
    ids
}

impl Fetch {
    /// A fetch that starts from what the cache held for the range, `cached`,
    /// and from the commits that the walk over the repository listed for it.
    pub fn new(cached: Vec<CommitStats>, repo_ids: &Vec<String>) -> (fetch: Fetch)
        ensures
            fetch@ == (FetchView {
                cached: stats_view(cached@),
                missing: missing_ids(stats_view(cached@), strings_view(repo_ids@)),
                computed: Seq::empty(),
                infos: Seq::empty(),
            }),
            fetch@.wf(),
    {
        let existing = commit_ids(&cached);
        let missing = get_missing_commits(repo_ids, &existing);
        let fetch = Fetch { cached, missing, computed: Vec::new(), infos: Vec::new() };
        assert(stats_view(fetch.computed@) =~= Seq::<CommitStatsView>::empty());
        assert(infos_view(fetch.infos@) =~= Seq::<CommitInfoView>::empty());
        assert(ids_of(fetch@.computed) =~= fetch@.missing.subrange(0, 0));
        fetch
    }

    /// The id of the commit to compute next, or `None` when no commit is left.
    pub fn next_missing(&self) -> (next: Option<&String>)
        ensures
            match next {
                Some(id) => self@.next_missing() == Some(id@),
                None => self@.next_missing() is None,
            },
    {
        if self.computed.len() < self.missing.len() {
            Some(&self.missing[self.computed.len()])
        } else {
            None
        }
    }

    /// Takes the statistics computed for the commit that was next, and the
    /// commit's metadata where it could be read. Both carry the id of that
    /// commit.
    pub fn computed(&mut self, stats: CommitStats, info: Option<CommitInfo>)
        requires
            old(self)@.wf(),
            old(self)@.next_missing() == Some(stats@.commit_id),
            info matches Some(i) ==> i@.id == stats@.commit_id,
        ensures
            final(self)@ == old(self)@.after_computed(
                stats@,
                match info {
                    Some(info) => Some(info@),
                    None => None,
                },
            ),
            final(self)@.wf(),
    {
        let ghost before = self@;
        self.computed.push(stats);
        assert(stats_view(self.computed@) =~= before.computed.push(stats@));
        if let Some(info) = info {
            self.infos.push(info);
            assert(infos_view(self.infos@) =~= before.infos.push(info@));
        }
        proof {
            let after = self@;
            let n = before.computed.len() as int;
            assert(ids_of(after.computed) =~= ids_of(before.computed).push(stats@.commit_id));
            assert(ids_of(after.computed) =~= after.missing.subrange(0, n + 1));
            assert(ids_of(after.computed)[n] == stats@.commit_id);
            assert forall|i: int| 0 <= i < after.infos.len() implies ids_of(
                after.computed,
            ).contains((#[trigger] after.infos[i]).id) by {
                if i < before.infos.len() {
                    let k = choose|k: int|
                        0 <= k < ids_of(before.computed).len() && ids_of(before.computed)[k]
                            == before.infos[i].id;
                    assert(ids_of(after.computed)[k] == after.infos[i].id);
                } else {
                    assert(ids_of(after.computed)[n] == after.infos[i].id);
                }
            }
        }
    }

    /// What is to be stored: nothing where nothing was computed, and
    /// otherwise the writes for the computed commits whose metadata was
    /// handed in. The caller carries them out in one transaction.
    pub fn writes(&self) -> (r: Result<Option<Vec<CommitWrite>>, GmapError>)
        ensures
            self@.computed.len() == 0 ==> r matches Ok(None),
            self@.computed.len() > 0 ==> (r matches Ok(Some(writes)) && writes_view(writes@)
                == planned_writes(self@.computed, self@.infos)),
    {
        if self.computed.len() == 0 {
            return Ok(None);
        }
        match store_commit_stats(&self.computed, &self.infos) {
            Ok(writes) => Ok(Some(writes)),
            Err(e) => Err(e),
        }
    }

    /// The result of the fetch: the records that the cache held, followed by
    /// those that were computed.
    pub fn finish(self) -> (result: Vec<CommitStats>)
        requires
            self@.wf(),
        ensures
            stats_view(result@) == self@.result(),
            self@.next_missing() is None ==> ids_of(stats_view(result@)) == ids_of(self@.cached)
                + self@.missing,
    {
        proof {
            lemma_result_ids(self@);
        }
        let mut result = self.cached;
        let mut computed = self.computed;
        let ghost cached_view = stats_view(result@);
        let ghost computed_view = stats_view(computed@);
        result.append(&mut computed);
        assert(stats_view(result@) =~= cached_view + computed_view);
        result
    }
}

/// Once every missing commit was computed, the result lists what the cache
/// held and then the missing commits, each once and in their order.
pub proof fn lemma_result_ids(fetch: FetchView)
    requires
        fetch.wf(),
    ensures
        fetch.next_missing() is None ==> ids_of(fetch.result()) == ids_of(fetch.cached)
            + fetch.missing,
{
    if fetch.next_missing() is None {
        assert(fetch.missing.subrange(0, fetch.computed.len() as int) =~= fetch.missing);
        assert(ids_of(fetch.result()) =~= ids_of(fetch.cached) + ids_of(fetch.computed));
    }
}

/// The result of a fetch that ran to its end holds the cached records
/// followed by the records of the missing commits. Its ids are those of the
/// cache and of the listing together, and where neither the cache nor the
/// listing names a commit twice, the result names none twice.
pub proof fn lemma_result_names_each_commit_once(
    cached: Seq<CommitStatsView>,
    repo_ids: Seq<Seq<char>>,
    fetch: FetchView,
)
    requires
        fetch.wf(),
        fetch.cached == cached,
        fetch.missing == missing_ids(cached, repo_ids),
        fetch.next_missing() is None,
    ensures
        ids_of(fetch.result()) == ids_of(cached) + missing_ids(cached, repo_ids),
        forall|id: Seq<char>|
            ids_of(fetch.result()).contains(id) <==> ids_of(cached).contains(id)
                || repo_ids.contains(id),
        ids_of(cached).no_duplicates() && repo_ids.no_duplicates() ==> ids_of(
            fetch.result(),
        ).no_duplicates(),
{
    lemma_result_ids(fetch);
    lemma_missing_ids(cached, repo_ids);
    let held = ids_of(cached);
    let missing = missing_ids(cached, repo_ids);
    let all = held + missing;
    assert forall|id: Seq<char>| all.contains(id) <==> held.contains(id) || repo_ids.contains(
        id,
    ) by {
        if all.contains(id) {
            let k = choose|k: int| 0 <= k < all.len() && all[k] == id;
            if k < held.len() {
                assert(held[k] == id);
                assert(held.contains(id));
            } else {
                assert(missing[k - held.len()] == id);
                assert(missing.contains(id));
            }
        }
        if held.contains(id) {
            let k = choose|k: int| 0 <= k < held.len() && held[k] == id;
            assert(all[k] == id);
            assert(all.contains(id));
        } else if repo_ids.contains(id) {
            assert(missing.contains(id));
            let k = choose|k: int| 0 <= k < missing.len() && missing[k] == id;
            assert(all[held.len() + k] == id);
            assert(all.contains(id));
        }
    }
    if held.no_duplicates() && repo_ids.no_duplicates() {
        lemma_without_distinct(repo_ids, held.to_set());
        assert forall|i: int, j: int| 0 <= i < all.len() && 0 <= j < all.len() && i != j implies all[i]
            != all[j] by {
            if i < held.len() && j >= held.len() {
                assert(missing.contains(missing[j - held.len()]));
                assert(held.contains(held[i]));
            } else if j < held.len() && i >= held.len() {
                assert(missing.contains(missing[i - held.len()]));
                assert(held.contains(held[j]));
            }
        }
    }
}

/// The metadata handed in covers the fetch: there is a record for each
/// commit that was missing, and its time falls on a whole second inside
/// `range`, as the time of a listed commit does.
pub open spec fn metadata_covers(fetch: FetchView, range: DateRange) -> bool {
    forall|k: int|
        0 <= k < fetch.missing.len() ==> (info_for(fetch.infos, #[trigger] fetch.missing[k])
            matches Some(info) && info.timestamp.nanos == 0 && range.spec_contains(info.timestamp))
}

/// A list of records holds one about `id` exactly if its ids hold `id`.
pub proof fn lemma_has_stats(stats: Seq<CommitStatsView>, id: Seq<char>)
    ensures
        has_stats(stats, id) <==> ids_of(stats).contains(id),
{
    if has_stats(stats, id) {
        let i = choose|i: int| 0 <= i < stats.len() && (#[trigger] stats[i]).commit_id == id;
        assert(ids_of(stats)[i] == id);
    }
    if ids_of(stats).contains(id) {
        let i = choose|i: int| 0 <= i < ids_of(stats).len() && ids_of(stats)[i] == id;
        assert(stats[i].commit_id == id);
    }
}

/// No commit is computed twice. Take a fetch that ran to its end over a
/// store, with metadata for every commit it computed, and let its writes be
/// carried out. The store then answers the same range with the commits that
/// the fetch returned. A later fetch computes a commit exactly if its
/// listing names it and the earlier fetch did not return it; over the same
/// listing it computes nothing.
pub proof fn lemma_later_fetch_computes_only_new_commits(
    store: Map<Seq<char>, CommitWriteView>,
    range: DateRange,
    repo_ids: Seq<Seq<char>>,
    fetch: FetchView,
    store_after: Map<Seq<char>, CommitWriteView>,
    cached_after: Seq<CommitStatsView>,
    later_ids: Seq<Seq<char>>,
)
    requires
        is_answer(store, range, fetch.cached),
        fetch.wf(),
        fetch.missing == missing_ids(fetch.cached, repo_ids),
        fetch.next_missing() is None,
        metadata_covers(fetch, range),
        store_after == after_writes(store, planned_writes(fetch.computed, fetch.infos)),
        is_answer(store_after, range, cached_after),
    ensures
        forall|id: Seq<char>| #[trigger]
            has_stats(cached_after, id) <==> has_stats(fetch.result(), id),
        forall|id: Seq<char>|
            #[trigger] missing_ids(cached_after, later_ids).contains(id) <==> later_ids.contains(id)
                && !has_stats(fetch.result(), id),
        missing_ids(cached_after, repo_ids) == Seq::<Seq<char>>::empty(),
{
    let writes = planned_writes(fetch.computed, fetch.infos);
    lemma_result_ids(fetch);
    lemma_missing_ids(fetch.cached, repo_ids);
    assert(fetch.missing.subrange(0, fetch.computed.len() as int) =~= fetch.missing);
    assert forall|id: Seq<char>| #[trigger]
        has_stats(cached_after, id) <==> has_stats(fetch.result(), id) by {
        lemma_planned_writes(fetch.computed, fetch.infos, id);
        lemma_after_writes(store, writes, id);
        lemma_has_stats(fetch.computed, id);
        lemma_has_stats(fetch.cached, id);
        lemma_has_stats(fetch.result(), id);
        assert(ids_of(fetch.result()) =~= ids_of(fetch.cached) + ids_of(fetch.computed));
        let all = ids_of(fetch.cached) + ids_of(fetch.computed);
        assert(all.contains(id) <==> ids_of(fetch.cached).contains(id) || ids_of(
            fetch.computed,
        ).contains(id)) by {
            if all.contains(id) {
                let k = choose|k: int| 0 <= k < all.len() && all[k] == id;
                if k < ids_of(fetch.cached).len() {
                    assert(ids_of(fetch.cached)[k] == id);
                } else {
                    assert(ids_of(fetch.computed)[k - ids_of(fetch.cached).len()] == id);
                }
            }
            if ids_of(fetch.cached).contains(id) {
                let k = choose|k: int|
                    0 <= k < ids_of(fetch.cached).len() && ids_of(fetch.cached)[k] == id;
                assert(all[k] == id);
            }
            if ids_of(fetch.computed).contains(id) {
                let k = choose|k: int|
                    0 <= k < ids_of(fetch.computed).len() && ids_of(fetch.computed)[k] == id;
                assert(all[ids_of(fetch.cached).len() + k] == id);
            }
        }
        if fetch.missing.contains(id) {
            let k = choose|k: int| 0 <= k < fetch.missing.len() && fetch.missing[k] == id;
            let info = info_for(fetch.infos, fetch.missing[k])->0;
            assert(writes_commit(writes, id));
            let i = choose|i: int|
                0 <= i < writes.len() && (#[trigger] writes[i]).id == id && store_after[id]
                    == writes[i];
            assert(writes[i].timestamp == info.timestamp.secs);
            assert(whole_second(info.timestamp.secs) == info.timestamp);
            lemma_bounds_admit_the_range(range, info.timestamp.secs);
            assert(answers_with(store_after, range, id));
        } else {
            assert(!writes_commit(writes, id));
            assert(answers_with(store_after, range, id) <==> answers_with(store, range, id));
        }
    }
    lemma_missing_ids(cached_after, later_ids);
    assert forall|id: Seq<char>|
        #[trigger] missing_ids(cached_after, later_ids).contains(id) <==> later_ids.contains(id)
            && !has_stats(fetch.result(), id) by {
        lemma_has_stats(cached_after, id);
        assert(has_stats(cached_after, id) <==> has_stats(fetch.result(), id));
    }
    assert forall|id: Seq<char>| repo_ids.contains(id) implies ids_of(cached_after).to_set().contains(
        id,
    ) by {
        lemma_has_stats(cached_after, id);
        lemma_has_stats(fetch.result(), id);
        lemma_has_stats(fetch.cached, id);
        lemma_has_stats(fetch.computed, id);
        assert(has_stats(cached_after, id) <==> has_stats(fetch.result(), id));
        if ids_of(fetch.cached).contains(id) {
            let k = choose|k: int|
                0 <= k < fetch.cached.len() && (#[trigger] fetch.cached[k]).commit_id == id;
            assert(fetch.result()[k].commit_id == id);
        } else {
            assert(fetch.missing.contains(id));
            let k = choose|k: int|
                0 <= k < fetch.computed.len() && (#[trigger] fetch.computed[k]).commit_id == id;
            assert(fetch.result()[fetch.cached.len() + k].commit_id == id);
        }
    }
    lemma_without_all_known(repo_ids, ids_of(cached_after).to_set());
}

/// What a fetch returned is what the store answers with afterwards. Take a
/// fetch as in the law before, over a listing that names no commit twice.
/// Of a commit that the fetch took from the cache, the store still holds
/// the same file rows. Of a commit that the fetch computed, it holds the
/// computed file entries, one for each path.
pub proof fn lemma_store_answers_with_what_was_returned(
    store: Map<Seq<char>, CommitWriteView>,
    range: DateRange,
    repo_ids: Seq<Seq<char>>,
    fetch: FetchView,
    store_after: Map<Seq<char>, CommitWriteView>,
    cached_after: Seq<CommitStatsView>,
)
    requires
        is_answer(store, range, fetch.cached),
        fetch.wf(),
        fetch.missing == missing_ids(fetch.cached, repo_ids),
        fetch.next_missing() is None,
        metadata_covers(fetch, range),
        store_after == after_writes(store, planned_writes(fetch.computed, fetch.infos)),
        is_answer(store_after, range, cached_after),
        repo_ids.no_duplicates(),
    ensures
        forall|i: int, j: int|
            0 <= i < cached_after.len() && 0 <= j < fetch.cached.len() && (
            #[trigger] cached_after[i]).commit_id == (#[trigger] fetch.cached[j]).commit_id
                ==> cached_after[i].files.to_multiset() == fetch.cached[j].files.to_multiset(),
        forall|i: int, j: int|
            0 <= i < cached_after.len() && 0 <= j < fetch.computed.len() && (
            #[trigger] cached_after[i]).commit_id == (#[trigger] fetch.computed[j]).commit_id
                ==> cached_after[i].files.to_multiset() == first_per_path(
                fetch.computed[j].files,
            ).to_multiset(),
{
    let writes = planned_writes(fetch.computed, fetch.infos);
    lemma_missing_ids(fetch.cached, repo_ids);
    lemma_without_distinct(repo_ids, ids_of(fetch.cached).to_set());
    assert(fetch.missing.subrange(0, fetch.computed.len() as int) =~= fetch.missing);
    assert forall|i: int, j: int|
        0 <= i < cached_after.len() && 0 <= j < fetch.cached.len() && (
        #[trigger] cached_after[i]).commit_id == (
        #[trigger] fetch.cached[j]).commit_id implies cached_after[i].files.to_multiset()
        == fetch.cached[j].files.to_multiset() by {
        let id = fetch.cached[j].commit_id;
        lemma_planned_writes(fetch.computed, fetch.infos, id);
        lemma_after_writes(store, writes, id);
        lemma_has_stats(fetch.computed, id);
        assert(ids_of(fetch.cached)[j] == id);
        assert(!fetch.missing.contains(id));
        assert(store_after[id] == store[id]);
    }
    assert forall|i: int, j: int|
        0 <= i < cached_after.len() && 0 <= j < fetch.computed.len() && (
        #[trigger] cached_after[i]).commit_id == (
        #[trigger] fetch.computed[j]).commit_id implies cached_after[i].files.to_multiset()
        == first_per_path(fetch.computed[j].files).to_multiset() by {
        let id = fetch.computed[j].commit_id;
        lemma_planned_writes(fetch.computed, fetch.infos, id);
        lemma_after_writes(store, writes, id);
        assert(ids_of(fetch.computed)[j] == id);
        assert(fetch.missing[j] == id);
        assert(has_stats(fetch.computed, id));
        assert(writes_commit(writes, id));
        let w = choose|w: int|
            0 <= w < writes.len() && (#[trigger] writes[w]).id == id && store_after[id]
                == writes[w];
        let k = choose|k: int|
            0 <= k < fetch.computed.len() && (#[trigger] fetch.computed[k]).commit_id == id
                && writes[w].files == first_per_path(fetch.computed[k].files);
        assert(ids_of(fetch.computed)[k] == id);
        assert(k == j);
    }
}

/// A commit is computed exactly if the repository lists it and the cache
/// does not hold it.
pub proof fn lemma_missing_ids(cached: Seq<CommitStatsView>, repo_ids: Seq<Seq<char>>)
    ensures
        forall|id: Seq<char>|
            #[trigger] missing_ids(cached, repo_ids).contains(id) <==> repo_ids.contains(id)
                && !ids_of(cached).contains(id),
{
    lemma_without_is_difference(repo_ids, ids_of(cached).to_set());
}

/// Nothing is computed twice. Once a fetch has computed the commits that
/// were missing and the cache holds them beside what it held, a fetch over
/// the same listing finds no commit to compute.
pub proof fn lemma_refetch_computes_nothing(
    cached: Seq<CommitStatsView>,
    repo_ids: Seq<Seq<char>>,
    computed: Seq<CommitStatsView>,
    cached_after: Seq<CommitStatsView>,
)
    requires
        ids_of(computed) == missing_ids(cached, repo_ids),
        forall|id: Seq<char>|
            ids_of(cached).contains(id) || ids_of(computed).contains(id) ==> ids_of(
                cached_after,
            ).contains(id),
    ensures
        missing_ids(cached_after, repo_ids) == Seq::<Seq<char>>::empty(),
{
    lemma_missing_ids(cached, repo_ids);
    assert forall|id: Seq<char>| repo_ids.contains(id) implies ids_of(cached_after).to_set().contains(
        id,
    ) by {
        if !ids_of(cached).contains(id) {
            assert(missing_ids(cached, repo_ids).contains(id));
        }
    }
    lemma_without_all_known(repo_ids, ids_of(cached_after).to_set());
}

} // verus!
