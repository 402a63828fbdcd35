//! What a store holds, and what the library's reads and writes mean for it.
//!
//! The store is a database that the caller runs, so what it holds is stated
//! here as a map: under each commit id, what was last written for that
//! commit. The laws of a fetch are stated and proved over this map.

use vstd::prelude::*;
use crate::cache::stats::{ids_ascending, query_admits};
use crate::cache::store::{first_per_path, info_for, planned_writes, write_of, CommitWriteView};
use crate::json::json_of_strings;
use crate::model::{CommitInfoView, CommitStatsView, DateRange};

verus! {

/// Some write of `writes` is for the commit `id`.
pub open spec fn writes_commit(writes: Seq<CommitWriteView>, id: Seq<char>) -> bool {
    exists|i: int| 0 <= i < writes.len() && (#[trigger] writes[i]).id == id
}

/// The store after `writes` were carried out in their order: each write
/// takes the place of what the store held for its commit, metadata and
/// file rows alike.
pub open spec fn after_writes(
    store: Map<Seq<char>, CommitWriteView>,
    writes: Seq<CommitWriteView>,
) -> Map<Seq<char>, CommitWriteView>
    decreases writes.len(),
{
    if writes.len() == 0 {
        store
    } else {
        after_writes(store, writes.drop_last()).insert(writes.last().id, writes.last())
    }
}

/// The store answers the query for `range` with the commit `id`: it holds
/// the commit, with a timestamp that the query admits.
pub open spec fn answers_with(
    store: Map<Seq<char>, CommitWriteView>,
    range: DateRange,
    id: Seq<char>,
) -> bool {
    store.dom().contains(id) && query_admits(range, store[id].timestamp)
}

/// Some record of `stats` is about the commit `id`.
pub open spec fn has_stats(stats: Seq<CommitStatsView>, id: Seq<char>) -> bool {
    exists|i: int| 0 <= i < stats.len() && (#[trigger] stats[i]).commit_id == id
}

/// `cached` is what reading the store for `range` gives: one record for
/// each commit that the store answers with, in ascending order of the ids,
/// with the file rows that the store holds for the commit, in any order.
pub open spec fn is_answer(
    store: Map<Seq<char>, CommitWriteView>,
    range: DateRange,
    cached: Seq<CommitStatsView>,
) -> bool {
    &&& ids_ascending(cached)
    &&& forall|id: Seq<char>| #[trigger] has_stats(cached, id) <==> answers_with(store, range, id)
    &&& forall|i: int|
        0 <= i < cached.len() ==> (#[trigger] cached[i]).files.to_multiset()
            == store[cached[i].commit_id].files.to_multiset()
}

/// After writes a store holds what it held and what was written. For a
/// commit that no write is for, it holds what it held; for any other, what
/// one of the writes for it says.
pub proof fn lemma_after_writes(
    store: Map<Seq<char>, CommitWriteView>,
    writes: Seq<CommitWriteView>,
    id: Seq<char>,
)
    ensures
        after_writes(store, writes).dom().contains(id) <==> store.dom().contains(id)
            || writes_commit(writes, id),
        !writes_commit(writes, id) ==> after_writes(store, writes)[id] == store[id],
        writes_commit(writes, id) ==> exists|i: int|
            0 <= i < writes.len() && (#[trigger] writes[i]).id == id && after_writes(
                store,
                writes,
            )[id] == writes[i],
    decreases writes.len(),
{
    if writes.len() > 0 {
        let front = writes.drop_last();
        let last = writes.last();
        lemma_after_writes(store, front, id);
        assert(writes[writes.len() - 1] == last);
        if writes_commit(front, id) {
            let i = choose|i: int| 0 <= i < front.len() && (#[trigger] front[i]).id == id;
            assert(writes[i].id == id);
        }
        if writes_commit(writes, id) {
            let i = choose|i: int| 0 <= i < writes.len() && (#[trigger] writes[i]).id == id;
            if i < front.len() {
                assert(front[i].id == id);
            }
            if last.id == id {
                assert(after_writes(store, writes)[id] == writes[writes.len() - 1]);
            } else {
                let j = choose|j: int|
                    0 <= j < front.len() && (#[trigger] front[j]).id == id && after_writes(
                        store,
                        front,
                    )[id] == front[j];
                assert(writes[j] == front[j]);
            }
        }
    }
}

/// The record found for an id carries that id.
pub proof fn lemma_info_for(infos: Seq<CommitInfoView>, id: Seq<char>)
    ensures
        info_for(infos, id) matches Some(info) ==> info.id == id,
    decreases infos.len(),
{
    if infos.len() > 0 && infos.last().id != id {
        lemma_info_for(infos.drop_last(), id);
    }
}

/// The planned writes are for the commits of the batch whose metadata is at
/// hand, and each carries the whole seconds of its commit's timestamp.
pub proof fn lemma_planned_writes(
    commits: Seq<CommitStatsView>,
    infos: Seq<CommitInfoView>,
    id: Seq<char>,
)
    ensures
        writes_commit(planned_writes(commits, infos), id) <==> has_stats(commits, id) && info_for(
            infos,
            id,
        ) is Some,
        forall|i: int|
            0 <= i < planned_writes(commits, infos).len() && (#[trigger] planned_writes(
                commits,
                infos,
            )[i]).id == id ==> (info_for(infos, id) matches Some(info) && planned_writes(
                commits,
                infos,
            )[i].timestamp == info.timestamp.secs),
        forall|i: int|
            0 <= i < planned_writes(commits, infos).len() && (#[trigger] planned_writes(
                commits,
                infos,
            )[i]).id == id ==> exists|k: int|
                0 <= k < commits.len() && (#[trigger] commits[k]).commit_id == id && planned_writes(
                    commits,
                    infos,
                )[i].files == first_per_path(commits[k].files),
    decreases commits.len(),
{
    let planned = planned_writes(commits, infos);
    if commits.len() > 0 {
        let front = commits.drop_last();
        let last = commits.last();
        let rest = planned_writes(front, infos);
        lemma_planned_writes(front, infos, id);
        lemma_info_for(infos, last.commit_id);
        assert(commits[commits.len() - 1] == last);
        if has_stats(front, id) {
            let k = choose|k: int| 0 <= k < front.len() && (#[trigger] front[k]).commit_id == id;
            assert(commits[k].commit_id == id);
        }
        if has_stats(commits, id) {
            let k = choose|k: int|
                0 <= k < commits.len() && (#[trigger] commits[k]).commit_id == id;
            if k < front.len() {
                assert(front[k].commit_id == id);
            }
        }
        if writes_commit(rest, id) {
            let i = choose|i: int| 0 <= i < rest.len() && (#[trigger] rest[i]).id == id;
            assert(planned[i].id == id);
        }
        match info_for(infos, last.commit_id) {
            Some(info) => {
                let w = write_of(info, json_of_strings(info.parent_ids), last.files);
                assert(planned == rest.push(w));
                assert(planned[planned.len() - 1] == w);
                if writes_commit(planned, id) {
                    let i = choose|i: int|
                        0 <= i < planned.len() && (#[trigger] planned[i]).id == id;
                    if i < rest.len() {
                        assert(rest[i].id == id);
                    }
                }
                assert forall|i: int|
                    0 <= i < planned.len() && (#[trigger] planned[i]).id == id implies (info_for(
                    infos,
                    id,
                ) matches Some(found) && planned[i].timestamp == found.timestamp.secs) by {
                    if i < rest.len() {
                        assert(rest[i].id == id);
                    }
                }
            },
            None => {},
        }
        assert forall|i: int| 0 <= i < planned.len() && (#[trigger] planned[i]).id == id implies (
        exists|k: int|
            0 <= k < commits.len() && (#[trigger] commits[k]).commit_id == id && planned[i].files
                == first_per_path(commits[k].files)) by {
            if i < rest.len() {
                assert(rest[i].id == id);
                let k = choose|k: int|
                    0 <= k < front.len() && (#[trigger] front[k]).commit_id == id && rest[i].files
                        == first_per_path(front[k].files);
                assert(commits[k] == front[k]);
            } else {
                assert(commits[commits.len() - 1].commit_id == id);
            }
        }
    }
}

} // verus!
