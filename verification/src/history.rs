//! The whole walk over a history that is held in memory.
//!
//! Where the metadata of the commits is at hand, the walk needs no caller
//! to read for it: it runs from the head to the end, and what it returns is
//! stated for the whole of it.

use vstd::prelude::*;
use crate::ancestry::{
    is_path, lemma_walk_finished, lemma_walk_next, lemma_walk_start, lemma_walk_visit, reachable,
    walk_inv,
};
use crate::model::{infos_view, CommitInfo, CommitInfoView, DateRange};
use crate::strmap::StringMap;
use crate::walker::{info_of, is_included, CommitMeta, CommitMetaView, CommitWalker};

verus! {

/// The history as a graph: the content of each commit's metadata under the
/// commit's id.
pub open spec fn graph_of(history: Map<Seq<char>, CommitMeta>) -> Map<Seq<char>, CommitMetaView> {
    Map::new(|id: Seq<char>| history.dom().contains(id), |id: Seq<char>| history[id]@)
}

/// The graph holds `head` and every ancestor of it.
pub open spec fn holds_ancestors(g: Map<Seq<char>, CommitMetaView>, head: Seq<char>) -> bool {
    forall|id: Seq<char>| #[trigger] reachable(g, head, id) ==> g.dom().contains(id)
}

/// `id` is among the commits `commits`.
pub open spec fn lists_commit(commits: Seq<CommitInfoView>, id: Seq<char>) -> bool {
    exists|i: int| 0 <= i < commits.len() && (#[trigger] commits[i]).id == id
}

/// `commits` is what a walk from `head` returns: the head and its ancestors
/// that lie in the range and, where merges are left out, have at most one
/// parent. Each of them is there once, as the graph has it, and nothing
/// else is. Whether a commit between the head and an ancestor is itself
/// returned plays no part.
pub open spec fn is_walk_result(
    g: Map<Seq<char>, CommitMetaView>,
    head: Seq<char>,
    range: DateRange,
    include_merges: bool,
    commits: Seq<CommitInfoView>,
) -> bool {
    &&& forall|i: int|
        0 <= i < commits.len() ==> {
            let c = #[trigger] commits[i];
            &&& reachable(g, head, c.id)
            &&& g.dom().contains(c.id)
            &&& c == info_of(c.id, g[c.id])
            &&& is_included(range, include_merges, g[c.id])
        }
    &&& forall|id: Seq<char>|
        reachable(g, head, id) && g.dom().contains(id) && is_included(range, include_merges, g[id])
            ==> #[trigger] lists_commit(commits, id)
    &&& forall|i: int, j: int|
        0 <= i < j < commits.len() ==> (#[trigger] commits[i]).id != (#[trigger] commits[j]).id
}

/// Walks the history from `head` and returns the commits that lie in
/// `range`, without those that have more than one parent unless
/// `include_merges` is set. The parents of every commit met are followed,
/// whether or not the commit itself is returned. The walk gives up with
/// `None` exactly where the history lacks the head or one of its ancestors.
pub fn collect_commits(
    history: &StringMap<CommitMeta>,
    head: String,
    range: DateRange,
    include_merges: bool,
) -> (r: Option<Vec<CommitInfo>>)
    requires
        history.wf(),
    ensures
        r is Some <==> holds_ancestors(graph_of(history@), head@),
        r matches Some(commits) ==> is_walk_result(
            graph_of(history@),
            head@,
            range,
            include_merges,
            infos_view(commits@),
        ),
{
    let ghost g = graph_of(history@);
    let ghost start = head@;
    let mut walker = CommitWalker::new(head, range, include_merges);
    proof {
        lemma_walk_start(g, start, range, include_merges);
        history.lemma_finite();
    }
    loop
        invariant
            history.wf(),
            history@.dom().finite(),
            g == graph_of(history@),
            start == head@,
            walk_inv(g, start, walker@),
            walker@.pending is None,
            walker@.range == range,
            walker@.include_merges == include_merges,
            forall|x: Seq<char>| walker@.seen.contains(x) ==> g.dom().contains(x),
        ensures
            walker@.finished(),
        decreases history@.dom().difference(walker@.seen).len(),
    {
        let ghost before = walker@;
        let next = walker.next_commit();
        proof {
            lemma_walk_next(g, start, before);
        }
        match next {
            None => {
                break ;
            },
            Some(id) => {
                match history.get(&id) {
                    None => {
                        assert(reachable(g, start, id@));
                        assert(!g.dom().contains(id@));
                        assert(!holds_ancestors(g, start));
                        return None;
                    },
                    Some(meta) => {
                        let meta = meta.clone();
                        proof {
                            lemma_walk_visit(g, start, walker@, id@);
                            assert(meta@ == g[id@]);
                            assert(history@.dom().difference(walker@.seen)
                                =~= history@.dom().difference(before.seen).remove(id@));
                        }
                        walker.visit(meta);
                    },
                }
            },
        }
    }
    proof {
        lemma_walk_finished(g, start, walker@);
        let commits = walker@.commits;
        assert forall|id: Seq<char>|
            reachable(g, start, id) && g.dom().contains(id) && is_included(
                range,
                include_merges,
                g[id],
            ) implies #[trigger] lists_commit(commits, id) by {
            let i = choose|i: int| 0 <= i < commits.len() && #[trigger] commits[i].id == id;
            assert(commits[i].id == id);
        }
        assert forall|i: int| 0 <= i < commits.len() implies reachable(
            g,
            start,
            (#[trigger] commits[i]).id,
        ) by {
            let id = commits[i].id;
            assert(g.dom().contains(id));
            assert(commits[i].id == id);
        }
    }
    Some(walker.into_commits())
}

/// One path after another is a path.
pub proof fn lemma_reachable_transitive(
    g: Map<Seq<char>, CommitMetaView>,
    head: Seq<char>,
    via: Seq<char>,
    id: Seq<char>,
)
    requires
        reachable(g, head, via),
        reachable(g, via, id),
    ensures
        reachable(g, head, id),
{
    let first = choose|path: Seq<Seq<char>>| #[trigger]
        is_path(g, path) && path[0] == head && path.last() == via;
    let second = choose|path: Seq<Seq<char>>| #[trigger]
        is_path(g, path) && path[0] == via && path.last() == id;
    let whole = first.drop_last() + second;
    assert forall|i: int| 0 <= i < whole.len() - 1 implies crate::ancestry::has_parent(
        g,
        #[trigger] whole[i],
        whole[i + 1],
    ) by {
        let n = first.len() - 1;
        if i < n - 1 {
            assert(crate::ancestry::has_parent(g, first[i], first[i + 1]));
        } else if i == n - 1 {
            assert(crate::ancestry::has_parent(g, first[i], first[i + 1]));
            assert(whole[i + 1] == second[0]);
        } else {
            assert(crate::ancestry::has_parent(g, second[i - n], second[i - n + 1]));
        }
    }
    assert(is_path(g, whole) && whole[0] == head && whole.last() == id);
}

/// Leaving a commit out of the result does not hide its ancestors: a commit
/// that lies behind any commit of the walk, a merge that was left out as
/// well as any other, is returned if it passes the filter itself.
pub proof fn lemma_ancestors_of_excluded_commits_are_returned(
    g: Map<Seq<char>, CommitMetaView>,
    head: Seq<char>,
    range: DateRange,
    include_merges: bool,
    commits: Seq<CommitInfoView>,
    via: Seq<char>,
    ancestor: Seq<char>,
)
    requires
        is_walk_result(g, head, range, include_merges, commits),
        reachable(g, head, via),
        reachable(g, via, ancestor),
        g.dom().contains(ancestor),
        is_included(range, include_merges, g[ancestor]),
    ensures
        lists_commit(commits, ancestor),
{
    lemma_reachable_transitive(g, head, via, ancestor);
}

} // verus!
