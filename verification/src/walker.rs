//! The walk over the commit graph, as a state machine.
//!
//! The walker owns the worklist and the set of commits already met. Its
//! caller owns the repository: it asks the walker which commit to read next,
//! reads that commit's metadata and hands it to the walker, until the walker
//! has nothing left to ask for.

use vstd::prelude::*;
use crate::idset::StringSet;
use crate::model::{
    clone_strings, infos_view, option_view, strings_view, CommitInfo, CommitInfoView, DateRange,
    Timestamp,
};

verus! {

/// What the walk needs to know of one commit.
#[derive(Debug)]
pub struct CommitMeta {
    pub timestamp: Timestamp,
    pub author_name: String,
    pub author_email: String,
    pub message_title: String,
    pub parent_ids: Vec<String>,
}

/// The mathematical content of a `CommitMeta`.
pub struct CommitMetaView {
    pub timestamp: Timestamp,
    pub author_name: Seq<char>,
    pub author_email: Seq<char>,
    pub message_title: Seq<char>,
    pub parent_ids: Seq<Seq<char>>,
}

impl View for CommitMeta {
    type V = CommitMetaView;

    open spec fn view(&self) -> CommitMetaView {
        CommitMetaView {
            timestamp: self.timestamp,
            author_name: self.author_name@,
            author_email: self.author_email@,
            message_title: self.message_title@,
            parent_ids: strings_view(self.parent_ids@),
        }
    }
}

impl Clone for CommitMeta {
    fn clone(&self) -> (r: CommitMeta)
        ensures
            r@ == self@,
    {
        CommitMeta {
            timestamp: self.timestamp,
            author_name: self.author_name.clone(),
            author_email: self.author_email.clone(),
            message_title: self.message_title.clone(),
            parent_ids: clone_strings(&self.parent_ids),
        }
    }
}

/// The state of a walk.
pub struct CommitWalker {
    range: DateRange,
    include_merges: bool,
    stack: Vec<String>,
    seen: StringSet,
    pending: Option<String>,
    commits: Vec<CommitInfo>,
}

/// The mathematical content of a `CommitWalker`.
pub struct WalkerView {
    /// The window that a commit's timestamp must lie in to be included.
    pub range: DateRange,
    /// Whether commits with more than one parent are included.
    pub include_merges: bool,
    /// The worklist; its last entry is taken first.
    pub stack: Seq<Seq<char>>,
    /// The commits that have been taken from the worklist.
    pub seen: Set<Seq<char>>,
    /// The commit whose metadata the walker is waiting for.
    pub pending: Option<Seq<char>>,
    /// The included commits, in the order in which they were visited.
    pub commits: Seq<CommitInfoView>,
}

/// Whether a commit with this metadata is part of the walk's result: its
/// timestamp lies in the range, and it is no merge unless merges are asked for.
pub open spec fn is_included(range: DateRange, include_merges: bool, meta: CommitMetaView) -> bool {
    range.spec_contains(meta.timestamp) && (include_merges || meta.parent_ids.len() <= 1)
}

/// The commit record made of an id and the metadata read for it.
pub open spec fn info_of(id: Seq<char>, meta: CommitMetaView) -> CommitInfoView {
    CommitInfoView {
        id,
        author_name: meta.author_name,
        author_email: meta.author_email,
        message: meta.message_title,
        timestamp: meta.timestamp,
        parent_ids: meta.parent_ids,
    }
}

/// The worklist without the entries at its end that have been seen.
pub open spec fn drop_seen(stack: Seq<Seq<char>>, seen: Set<Seq<char>>) -> Seq<Seq<char>>
    decreases stack.len(),
{
    if stack.len() > 0 && seen.contains(stack.last()) {
        drop_seen(stack.drop_last(), seen)
    } else {
        stack
    }
}

impl WalkerView {
    /// The state in which a walk from `head` starts.
    pub open spec fn start(head: Seq<char>, range: DateRange, include_merges: bool) -> WalkerView {
        WalkerView {
            range,
            include_merges,
            stack: seq![head],
            seen: Set::empty(),
            pending: None,
            commits: Seq::empty(),
        }
    }

    /// The walk has nothing left to do.
    pub open spec fn finished(self) -> bool {
        self.pending is None && drop_seen(self.stack, self.seen).len() == 0
    }

    /// The commit to read next, if any. While a commit is pending it is that
    /// one; otherwise the last entry of the worklist that has not been seen.
    pub open spec fn next_id(self) -> Option<Seq<char>> {
        if self.pending is Some {
            self.pending
        } else {
            let stack = drop_seen(self.stack, self.seen);
            if stack.len() == 0 {
                None
            } else {
                Some(stack.last())
            }
        }
    }

    /// The state after the walker was asked for the next commit: the entries
    /// that had been seen are gone from the end of the worklist, and the
    /// entry after them is taken from it, marked as seen and pending.
    pub open spec fn after_next(self) -> WalkerView {
        if self.pending is Some {
            self
        } else {
            let stack = drop_seen(self.stack, self.seen);
            if stack.len() == 0 {
                WalkerView { stack, ..self }
            } else {
                WalkerView {
                    stack: stack.drop_last(),
                    seen: self.seen.insert(stack.last()),
                    pending: Some(stack.last()),
                    ..self
                }
            }
        }
    }

    /// The state after the pending commit's metadata was handed in: all its
    /// parents are on the worklist, whether or not the commit is included,
    /// and the commit has joined the result if it is. Without a pending
    /// commit nothing changes.
    pub open spec fn after_visit(self, meta: CommitMetaView) -> WalkerView {
        match self.pending {
            None => self,
            Some(id) => WalkerView {
                stack: self.stack + meta.parent_ids,
                pending: None,
                commits: if is_included(self.range, self.include_merges, meta) {
                    self.commits.push(info_of(id, meta))
                } else {
                    self.commits
                },
                ..self
            },
        }
    }
}

impl View for CommitWalker {
    type V = WalkerView;

    closed spec fn view(&self) -> WalkerView {
        WalkerView {
            range: self.range,
            include_merges: self.include_merges,
            stack: strings_view(self.stack@),
            seen: self.seen@,
            pending: option_view(self.pending),
            commits: infos_view(self.commits@),
        }
    }
}

impl CommitWalker {
    /// A walk that starts at `head`.
    pub fn new(head: String, range: DateRange, include_merges: bool) -> (walker: CommitWalker)
        ensures
            walker@ == WalkerView::start(head@, range, include_merges),
    {
        let mut stack: Vec<String> = Vec::new();
        stack.push(head);
        let walker = CommitWalker {
            range,
            include_merges,
            stack,
            seen: StringSet::new(),
            pending: None,
            commits: Vec::new(),
        };
        assert(strings_view(walker.stack@) =~= seq![head@]);
        assert(infos_view(walker.commits@) =~= Seq::<CommitInfoView>::empty());
        walker
    }

    /// The id of the commit whose metadata the walker wants next, or `None`
    /// when the walk is over. Each commit is asked for once.
    pub fn next_commit(&mut self) -> (next: Option<String>)
        ensures
            option_view(next) == old(self)@.next_id(),
            final(self)@ == old(self)@.after_next(),
    {
        if let Some(id) = &self.pending {
            return Some(id.clone());
        }
        let ghost start = self@;
        loop
            invariant
                self.pending is None,
                self.range == start.range,
                self.include_merges == start.include_merges,
                self.seen@ == start.seen,
                infos_view(self.commits@) == start.commits,
                start == old(self)@,
                start.pending is None,
                drop_seen(strings_view(self.stack@), start.seen) == drop_seen(
                    start.stack,
                    start.seen,
                ),
            decreases self.stack@.len(),
        {
            let ghost before = strings_view(self.stack@);
            match self.stack.pop() {
                None => {
                    assert(strings_view(self.stack@) =~= before);
                    assert(drop_seen(before, start.seen) =~= before);
                    return None;
                },
                Some(id) => {
                    assert(before.last() == id@);
                    assert(strings_view(self.stack@) =~= before.drop_last());
                    if !self.seen.contains(&id) {
                        let copy = id.clone();
                        self.seen.insert(id);
                        self.pending = Some(copy.clone());
                        return Some(copy);
                    }
                },
            }
        }
    }

    /// Takes the metadata of the pending commit. The commit's parents go onto
    /// the worklist. Returns whether the commit is included in the result;
    /// `false` also when no commit was pending.
    pub fn visit(&mut self, meta: CommitMeta) -> (included: bool)
        ensures
            final(self)@ == old(self)@.after_visit(meta@),
            included == (old(self)@.pending is Some && is_included(
                old(self)@.range,
                old(self)@.include_merges,
                meta@,
            )),
    {
        let id = match &self.pending {
            None => {
                return false;
            },
            Some(id) => id.clone(),
        };
        self.pending = None;
        let ghost before = strings_view(self.stack@);
        let parents = &meta.parent_ids;
        let mut i: usize = 0;
        while i < parents.len()
            invariant
                i <= parents@.len(),
                strings_view(self.stack@) == before + strings_view(parents@).subrange(0, i as int),
                self.pending is None,
                self.range == old(self).range,
                self.include_merges == old(self).include_merges,
                self.seen == old(self).seen,
                self.commits == old(self).commits,
            decreases parents@.len() - i,
        {
            let ghost stack_before = strings_view(self.stack@);
            self.stack.push(parents[i].clone());
            assert(strings_view(self.stack@) =~= stack_before.push(parents@[i as int]@));
            assert(strings_view(parents@).subrange(0, i + 1) =~= strings_view(parents@).subrange(
                0,
                i as int,
            ).push(parents@[i as int]@));
            i += 1;
        }
        assert(strings_view(parents@).subrange(0, i as int) =~= strings_view(parents@));
        let included = self.range.contains(&meta.timestamp) && (self.include_merges
            || meta.parent_ids.len() <= 1);
        if included {
            let ghost commits_before = infos_view(self.commits@);
            let info = CommitInfo {
                id,
                author_name: meta.author_name,
                author_email: meta.author_email,
                message: meta.message_title,
                timestamp: meta.timestamp,
                parent_ids: meta.parent_ids,
            };
            self.commits.push(info);
            assert(infos_view(self.commits@) =~= commits_before.push(info@));
        }
        included
    }

    /// The included commits met so far, in the order in which they were visited.
    pub fn commits(&self) -> (commits: &Vec<CommitInfo>)
        ensures
            infos_view(commits@) == self@.commits,
    {
        &self.commits
    }

    /// The included commits met, in the order in which they were visited,
    /// taken out of the walker.
    pub fn into_commits(self) -> (commits: Vec<CommitInfo>)
        ensures
            infos_view(commits@) == self@.commits,
    {
        self.commits
    }

    /// The ids of the included commits met so far, in the order in which they
    /// were visited.
    pub fn commit_ids(&self) -> (ids: Vec<String>)
        ensures
            ids@.len() == self@.commits.len(),
            forall|i: int| 0 <= i < ids@.len() ==> ids@[i]@ == self@.commits[i].id,
    {
        let mut ids: Vec<String> = Vec::new();
        let mut i: usize = 0;
        while i < self.commits.len()
            invariant
                i <= self.commits@.len(),
                ids@.len() == i,
                forall|j: int| 0 <= j < i ==> ids@[j]@ == self.commits@[j].id@,
            decreases self.commits@.len() - i,
        {
            ids.push(self.commits[i].id.clone());
            i += 1;
        }
        ids
    }
}

} // verus!
