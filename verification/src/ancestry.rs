//! What a finished walk has found: the commits that can be reached from the
//! head through parent links, and among them those that pass the filter.
//!
//! The commit graph is a map from commit ids to the metadata that the
//! repository holds for them. The lemmas follow a walk step by step: the
//! invariant `walk_inv` holds at the start and after every step, and at the
//! end it pins down the result.

use vstd::prelude::*;
use crate::model::DateRange;
use crate::walker::{drop_seen, info_of, is_included, CommitMetaView, WalkerView};

verus! {

/// `parent` is listed among the parents of `child`.
pub open spec fn has_parent(
    g: Map<Seq<char>, CommitMetaView>,
    child: Seq<char>,
    parent: Seq<char>,
) -> bool {
    g.dom().contains(child) && g[child].parent_ids.contains(parent)
}

/// Each commit on `path` but the last is followed by one of its parents.
pub open spec fn is_path(g: Map<Seq<char>, CommitMetaView>, path: Seq<Seq<char>>) -> bool {
    &&& path.len() > 0
    &&& forall|i: int| 0 <= i < path.len() - 1 ==> has_parent(g, #[trigger] path[i], path[i + 1])
}

/// `id` is `head` or one of its ancestors.
pub open spec fn reachable(g: Map<Seq<char>, CommitMetaView>, head: Seq<char>, id: Seq<char>) -> bool {
    exists|path: Seq<Seq<char>>| #[trigger] is_path(g, path) && path[0] == head && path.last() == id
}

/// `id` has been visited: it was taken from the worklist and its metadata
/// has been handed in.
pub open spec fn visited(v: WalkerView, id: Seq<char>) -> bool {
    v.seen.contains(id) && v.pending != Some(id)
}

/// What holds of a walk from `head` over `g` at every step.
pub open spec fn walk_inv(g: Map<Seq<char>, CommitMetaView>, head: Seq<char>, v: WalkerView) -> bool {
    // The head has been taken up.
    &&& v.seen.contains(head) || v.stack.contains(head)
    // Only ancestors of the head are met.
    &&& forall|x: Seq<char>| #[trigger] v.seen.contains(x) ==> reachable(g, head, x)
    &&& forall|x: Seq<char>| #[trigger] v.stack.contains(x) ==> reachable(g, head, x)
    // No parent of a visited commit is lost, included or not.
    &&& forall|x: Seq<char>, p: Seq<char>|
        visited(v, x) && #[trigger] has_parent(g, x, p) ==> v.seen.contains(p) || v.stack.contains(
            p,
        )
    &&& v.pending matches Some(p) ==> v.seen.contains(p)
    // The result holds visited commits that pass the filter, as the graph has them,
    &&& forall|i: int|
        0 <= i < v.commits.len() ==> {
            let c = #[trigger] v.commits[i];
            &&& visited(v, c.id)
            &&& g.dom().contains(c.id)
            &&& c == info_of(c.id, g[c.id])
            &&& is_included(v.range, v.include_merges, g[c.id])
        }
    // all of them,
    &&& forall|x: Seq<char>|
        #[trigger] visited(v, x) && g.dom().contains(x) && is_included(
            v.range,
            v.include_merges,
            g[x],
        ) ==> exists|i: int| 0 <= i < v.commits.len() && #[trigger] v.commits[i].id == x
    // and each once.
    &&& forall|i: int, j: int|
        0 <= i < j < v.commits.len() ==> #[trigger] v.commits[i].id != #[trigger] v.commits[j].id
}

/// An ancestor's parent is an ancestor.
pub proof fn lemma_reachable_step(
    g: Map<Seq<char>, CommitMetaView>,
    head: Seq<char>,
    x: Seq<char>,
    p: Seq<char>,
)
    requires
        reachable(g, head, x),
        has_parent(g, x, p),
    ensures
        reachable(g, head, p),
{
    let path = choose|path: Seq<Seq<char>>| #[trigger]
        is_path(g, path) && path[0] == head && path.last() == x;
    let longer = path.push(p);
    assert forall|i: int| 0 <= i < longer.len() - 1 implies has_parent(
        g,
        #[trigger] longer[i],
        longer[i + 1],
    ) by {
        if i < path.len() - 1 {
            assert(has_parent(g, path[i], path[i + 1]));
        }
    }
    assert(is_path(g, longer) && longer[0] == head && longer.last() == p);
}

/// The head is its own ancestor.
pub proof fn lemma_reachable_self(g: Map<Seq<char>, CommitMetaView>, head: Seq<char>)
    ensures
        reachable(g, head, head),
{
    let path = seq![head];
    assert(is_path(g, path) && path[0] == head && path.last() == head);
}

/// What `drop_seen` leaves is the start of the worklist, everything after it
/// has been seen, and its last entry has not.
pub proof fn lemma_drop_seen(stack: Seq<Seq<char>>, seen: Set<Seq<char>>)
    ensures
        drop_seen(stack, seen).len() <= stack.len(),
        drop_seen(stack, seen) == stack.subrange(0, drop_seen(stack, seen).len() as int),
        forall|i: int| drop_seen(stack, seen).len() <= i < stack.len() ==> seen.contains(stack[i]),
        drop_seen(stack, seen).len() > 0 ==> !seen.contains(drop_seen(stack, seen).last()),
    decreases stack.len(),
{
    if stack.len() > 0 && seen.contains(stack.last()) {
        lemma_drop_seen(stack.drop_last(), seen);
        let r = drop_seen(stack, seen);
        assert(r =~= stack.subrange(0, r.len() as int));
        assert forall|i: int| r.len() <= i < stack.len() implies seen.contains(stack[i]) by {
            if i < stack.len() - 1 {
                assert(stack.drop_last()[i] == stack[i]);
            }
        }
    } else {
        assert(stack =~= stack.subrange(0, stack.len() as int));
    }
}

/// The invariant holds when the walk starts.
pub proof fn lemma_walk_start(
    g: Map<Seq<char>, CommitMetaView>,
    head: Seq<char>,
    range: DateRange,
    include_merges: bool,
)
    ensures
        walk_inv(g, head, WalkerView::start(head, range, include_merges)),
{
    let v = WalkerView::start(head, range, include_merges);
    assert(v.stack[0] == head);
    lemma_reachable_self(g, head);
}

/// Asking for the next commit keeps the invariant, and the commit that is
/// handed out has not been handed out before.
pub proof fn lemma_walk_next(g: Map<Seq<char>, CommitMetaView>, head: Seq<char>, v: WalkerView)
    requires
        walk_inv(g, head, v),
    ensures
        walk_inv(g, head, v.after_next()),
        v.pending is None && v.next_id() is Some ==> !v.seen.contains(v.next_id().unwrap()),
        v.next_id() is None ==> v.after_next().stack.len() == 0,
{
    let w = v.after_next();
    if v.pending is Some {
    } else {
        lemma_drop_seen(v.stack, v.seen);
        let r = drop_seen(v.stack, v.seen);
        // Every entry of the old worklist is still on it or has been seen.
        assert forall|x: Seq<char>| v.stack.contains(x) implies w.stack.contains(x)
            || w.seen.contains(x) by {
            let i = choose|i: int| 0 <= i < v.stack.len() && v.stack[i] == x;
            if i < w.stack.len() {
                assert(w.stack[i] == x);
            } else if i < r.len() {
                assert(r[i] == v.stack[i]);
            }
        }
        assert forall|x: Seq<char>| w.stack.contains(x) implies v.stack.contains(x) by {
            let i = choose|i: int| 0 <= i < w.stack.len() && w.stack[i] == x;
            assert(v.stack[i] == x);
        }
        if r.len() > 0 {
            let id = r.last();
            assert(v.stack[r.len() - 1] == id);
            assert(v.stack.contains(id));
        }
        assert forall|x: Seq<char>, p: Seq<char>|
            visited(w, x) && #[trigger] has_parent(g, x, p) implies w.seen.contains(p)
            || w.stack.contains(p) by {
            assert(visited(v, x));
        }
        assert forall|i: int| 0 <= i < w.commits.len() implies {
            let c = #[trigger] w.commits[i];
            &&& visited(w, c.id)
            &&& g.dom().contains(c.id)
            &&& c == info_of(c.id, g[c.id])
            &&& is_included(w.range, w.include_merges, g[c.id])
        } by {
            assert(visited(v, v.commits[i].id));
        }
        assert forall|x: Seq<char>|
            #[trigger] visited(w, x) && g.dom().contains(x) && is_included(
                w.range,
                w.include_merges,
                g[x],
            ) implies exists|i: int| 0 <= i < w.commits.len() && #[trigger] w.commits[i].id == x by {
            assert(visited(v, x));
        }
    }
}

/// Handing in the pending commit's metadata, as the graph has it, keeps the
/// invariant.
pub proof fn lemma_walk_visit(
    g: Map<Seq<char>, CommitMetaView>,
    head: Seq<char>,
    v: WalkerView,
    id: Seq<char>,
)
    requires
        walk_inv(g, head, v),
        v.pending == Some(id),
        g.dom().contains(id),
    ensures
        walk_inv(g, head, v.after_visit(g[id])),
{
    let meta = g[id];
    let w = v.after_visit(meta);
    assert forall|x: Seq<char>| v.stack.contains(x) implies w.stack.contains(x) by {
        let i = choose|i: int| 0 <= i < v.stack.len() && v.stack[i] == x;
        assert(w.stack[i] == x);
    }
    assert forall|p: Seq<char>| meta.parent_ids.contains(p) implies w.stack.contains(p) by {
        let i = choose|i: int| 0 <= i < meta.parent_ids.len() && meta.parent_ids[i] == p;
        assert(w.stack[v.stack.len() + i] == p);
    }
    assert forall|x: Seq<char>| #[trigger] w.stack.contains(x) implies reachable(g, head, x) by {
        let i = choose|i: int| 0 <= i < w.stack.len() && w.stack[i] == x;
        if i < v.stack.len() {
            assert(v.stack[i] == x);
            assert(v.stack.contains(x));
        } else {
            assert(meta.parent_ids[i - v.stack.len()] == x);
            assert(has_parent(g, id, x));
            lemma_reachable_step(g, head, id, x);
        }
    }
    assert forall|x: Seq<char>, p: Seq<char>|
        visited(w, x) && #[trigger] has_parent(g, x, p) implies w.seen.contains(p)
        || w.stack.contains(p) by {
        if x != id {
            assert(visited(v, x));
        }
    }
    let included = is_included(v.range, v.include_merges, meta);
    assert forall|i: int| 0 <= i < w.commits.len() implies {
        let c = #[trigger] w.commits[i];
        &&& visited(w, c.id)
        &&& g.dom().contains(c.id)
        &&& c == info_of(c.id, g[c.id])
        &&& is_included(w.range, w.include_merges, g[c.id])
    } by {
        if i < v.commits.len() {
            assert(visited(v, v.commits[i].id));
        }
    }
    assert forall|x: Seq<char>|
        #[trigger] visited(w, x) && g.dom().contains(x) && is_included(
            w.range,
            w.include_merges,
            g[x],
        ) implies exists|i: int| 0 <= i < w.commits.len() && #[trigger] w.commits[i].id == x by {
        if x == id {
            assert(w.commits[v.commits.len() as int].id == x);
        } else {
            assert(visited(v, x));
            let i = choose|i: int| 0 <= i < v.commits.len() && #[trigger] v.commits[i].id == x;
            assert(w.commits[i].id == x);
        }
    }
    assert forall|i: int, j: int| 0 <= i < j < w.commits.len() implies #[trigger] w.commits[i].id
        != #[trigger] w.commits[j].id by {
        if j == v.commits.len() {
            assert(visited(v, v.commits[i].id));
        }
    }
}

/// Once nothing is left to do, every commit on a path from the head has been seen.
proof fn lemma_path_seen(
    g: Map<Seq<char>, CommitMetaView>,
    head: Seq<char>,
    v: WalkerView,
    path: Seq<Seq<char>>,
)
    requires
        walk_inv(g, head, v),
        v.finished(),
        is_path(g, path),
        path[0] == head,
    ensures
        v.seen.contains(path.last()),
    decreases path.len(),
{
    lemma_drop_seen(v.stack, v.seen);
    assert forall|x: Seq<char>| v.stack.contains(x) implies v.seen.contains(x) by {
        let i = choose|i: int| 0 <= i < v.stack.len() && v.stack[i] == x;
    }
    if path.len() > 1 {
        let shorter = path.drop_last();
        assert forall|i: int| 0 <= i < shorter.len() - 1 implies has_parent(
            g,
            #[trigger] shorter[i],
            shorter[i + 1],
        ) by {
            assert(has_parent(g, path[i], path[i + 1]));
        }
        lemma_path_seen(g, head, v, shorter);
        let x = shorter.last();
        assert(x == path[path.len() - 2]);
        assert(has_parent(g, path[path.len() - 2], path[path.len() - 2 + 1]));
        assert(visited(v, x));
    }
}

/// The result of a finished walk. The commits seen are the head and its
/// ancestors, whether or not the commits between them were included. The
/// result holds, once each and as the graph has them, those of them that
/// pass the filter.
pub proof fn lemma_walk_finished(g: Map<Seq<char>, CommitMetaView>, head: Seq<char>, v: WalkerView)
    requires
        walk_inv(g, head, v),
        v.finished(),
    ensures
        forall|id: Seq<char>| v.seen.contains(id) <==> reachable(g, head, id),
        forall|id: Seq<char>|
            g.dom().contains(id) ==> ((exists|i: int|
                0 <= i < v.commits.len() && #[trigger] v.commits[i].id == id) <==> reachable(
                g,
                head,
                id,
            ) && is_included(v.range, v.include_merges, g[id])),
        forall|i: int|
            0 <= i < v.commits.len() ==> g.dom().contains(#[trigger] v.commits[i].id)
                && v.commits[i] == info_of(v.commits[i].id, g[v.commits[i].id]),
        forall|i: int, j: int|
            0 <= i < j < v.commits.len() ==> #[trigger] v.commits[i].id != #[trigger] v.commits[j].id,
{
    assert forall|id: Seq<char>| reachable(g, head, id) implies v.seen.contains(id) by {
        let path = choose|path: Seq<Seq<char>>| #[trigger]
            is_path(g, path) && path[0] == head && path.last() == id;
        lemma_path_seen(g, head, v, path);
    }
    assert forall|id: Seq<char>| g.dom().contains(id) implies ((exists|i: int|
        0 <= i < v.commits.len() && #[trigger] v.commits[i].id == id) <==> reachable(g, head, id)
        && is_included(v.range, v.include_merges, g[id])) by {
        if exists|i: int| 0 <= i < v.commits.len() && #[trigger] v.commits[i].id == id {
            let i = choose|i: int| 0 <= i < v.commits.len() && #[trigger] v.commits[i].id == id;
            assert(visited(v, v.commits[i].id));
        }
        if reachable(g, head, id) && is_included(v.range, v.include_merges, g[id]) {
            assert(visited(v, id));
        }
    }
    assert forall|i: int| 0 <= i < v.commits.len() implies g.dom().contains(
        #[trigger] v.commits[i].id,
    ) && v.commits[i] == info_of(v.commits[i].id, g[v.commits[i].id]) by {
        let c = v.commits[i];
    }
}

} // verus!
