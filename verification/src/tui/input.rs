//! The search filters over periods and commits.

use vstd::prelude::*;
use crate::text::{contains, lowercase, occurs_in, to_lowercase};
use crate::tui::state::{
    commit_labels, labels, CommitDetail, CommitLabel, TuiState, TuiStateView, WeekLabel, WeekStats,
};

verus! {

/// Whether a period passes the search for `query`, which is in lowercase:
/// the query occurs in its key or in the name of one of its authors, letter
/// case aside.
pub open spec fn week_matches(week: WeekLabel, query: Seq<char>) -> bool {
    occurs_in(query, lowercase(week.week)) || exists|a: int|
        0 <= a < week.top_authors.len() && occurs_in(query, lowercase(#[trigger] week.top_authors[a]))
}

/// Whether a commit passes the search for `query`, which is in lowercase:
/// the query occurs in its message, in the name of its author or in its
/// short hash, letter case aside.
pub open spec fn commit_matches(commit: CommitLabel, query: Seq<char>) -> bool {
    occurs_in(query, lowercase(commit.message)) || occurs_in(query, lowercase(commit.author_name))
        || occurs_in(query, lowercase(commit.short_hash))
}

/// The places `0..n`.
pub open spec fn all_indices(n: nat) -> Seq<usize> {
    Seq::new(n, |i: int| i as usize)
}

/// The places of the periods that pass the search for `query`, in ascending order.
pub open spec fn matching_weeks(weeks: Seq<WeekLabel>, query: Seq<char>) -> Seq<usize>
    decreases weeks.len(),
{
    if weeks.len() == 0 {
        Seq::empty()
    } else if week_matches(weeks.last(), query) {
        matching_weeks(weeks.drop_last(), query).push((weeks.len() - 1) as usize)
    } else {
        matching_weeks(weeks.drop_last(), query)
    }
}

/// The places of the commits that pass the search for `query`, in ascending order.
pub open spec fn matching_commits(commits: Seq<CommitLabel>, query: Seq<char>) -> Seq<usize>
    decreases commits.len(),
{
    if commits.len() == 0 {
        Seq::empty()
    } else if commit_matches(commits.last(), query) {
        matching_commits(commits.drop_last(), query).push((commits.len() - 1) as usize)
    } else {
        matching_commits(commits.drop_last(), query)
    }
}

/// The places of the periods that the search query leaves: all of them
/// where the query is empty.
pub open spec fn filtered_weeks(weeks: Seq<WeekLabel>, query: Seq<char>) -> Seq<usize> {
    if query.len() == 0 {
        all_indices(weeks.len())
    } else {
        matching_weeks(weeks, lowercase(query))
    }
}

/// The places of the commits that the search query leaves: all of them
/// where the query is empty.
pub open spec fn filtered_commits(commits: Seq<CommitLabel>, query: Seq<char>) -> Seq<usize> {
    if query.len() == 0 {
        all_indices(commits.len())
    } else {
        matching_commits(commits, lowercase(query))
    }
}

/// The selection kept inside the filtered places: it moves to the first
/// of them where it is not among them, and stays where none is left.
pub open spec fn selection_in(filtered: Seq<usize>, selected: usize) -> usize {
    if filtered.len() == 0 || filtered.contains(selected) {
        selected
    } else {
        filtered[0]
    }
}

/// The selection of a commit kept below the number of filtered commits.
pub open spec fn commit_selection_in(filtered: Seq<usize>, selected: usize) -> usize {
    if selected >= filtered.len() {
        if filtered.len() == 0 {
            0
        } else {
            (filtered.len() - 1) as usize
        }
    } else {
        selected
    }
}

/// The places of the commits that are shown: the filtered ones where a
/// commit search is on and leaves any, and all commits otherwise.
pub open spec fn shown_commits(state: TuiStateView) -> Seq<usize> {
    if state.commit_search_query.len() > 0 && state.commit_filtered_indices.len() > 0 {
        state.commit_filtered_indices
    } else {
        all_indices(state.commit_details.len())
    }
}

impl TuiStateView {
    /// The state after the periods `weeks` were filtered by its search
    /// query: the filtered places are those that the query leaves, and the
    /// selection lies among them where any is left.
    pub open spec fn with_search(self, weeks: Seq<WeekLabel>) -> TuiStateView {
        TuiStateView {
            filtered_indices: filtered_weeks(weeks, self.search_query),
            selected: selection_in(filtered_weeks(weeks, self.search_query), self.selected),
            ..self
        }
    }

    /// The state after its commits were filtered by its commit search
    /// query: the filtered places are those that the query leaves, and the
    /// selected commit lies below their number.
    pub open spec fn with_commit_search(self) -> TuiStateView {
        TuiStateView {
            commit_filtered_indices: filtered_commits(
                commit_labels(self.commit_details),
                self.commit_search_query,
            ),
            commit_selected: commit_selection_in(
                filtered_commits(commit_labels(self.commit_details), self.commit_search_query),
                self.commit_selected,
            ),
            ..self
        }
    }
}

/// The places `0..n`.
pub fn index_range(n: usize) -> (r: Vec<usize>)
    ensures
        r@ == all_indices(n as nat),
{
    let mut r: Vec<usize> = Vec::new();
    let mut i: usize = 0;
    while i < n
        invariant
            i <= n,
            r@ == all_indices(i as nat),
        decreases n - i,
    {
        r.push(i);
        assert(r@ =~= all_indices((i + 1) as nat));
        i += 1;
    }
    r
}

/// Whether `item` is among `items`.
pub fn has_index(items: &Vec<usize>, item: usize) -> (found: bool)
    ensures
        found == items@.contains(item),
{
    let mut i: usize = 0;
    while i < items.len()
        invariant
            i <= items@.len(),
            forall|j: int| 0 <= j < i ==> items@[j] != item,
        decreases items@.len() - i,
    {
        if items[i] == item {
            return true;
        }
        i += 1;
    }
    false
}

/// Whether a period passes the search for `query`, which is in lowercase.
fn week_passes(week: &WeekStats, query: &str) -> (b: bool)
    ensures
        b == week_matches(week.label(), query@),
{
    let key = to_lowercase(week.week.as_str());
    if contains(key.as_str(), query) {
        return true;
    }
    let mut a: usize = 0;
    while a < week.top_authors.len()
        invariant
            a <= week.top_authors@.len(),
            forall|j: int|
                0 <= j < a ==> !occurs_in(query@, lowercase(#[trigger] week.label().top_authors[j])),
        decreases week.top_authors@.len() - a,
    {
        let author = to_lowercase(week.top_authors[a].as_str());
        assert(week.label().top_authors[a as int] == week.top_authors@[a as int]@);
        if contains(author.as_str(), query) {
            return true;
        }
        a += 1;
    }
    false
}

/// Whether a commit passes the search for `query`, which is in lowercase.
fn commit_passes(commit: &CommitDetail, query: &str) -> (b: bool)
    ensures
        b == commit_matches(commit.label(), query@),
{
    let message = to_lowercase(commit.message.as_str());
    if contains(message.as_str(), query) {
        return true;
    }
    let author = to_lowercase(commit.author_name.as_str());
    if contains(author.as_str(), query) {
        return true;
    }
    let hash = to_lowercase(commit.short_hash.as_str());
    contains(hash.as_str(), query)
}

/// Keeps the selected period inside the filtered ones: where periods are
/// left and the selected one is not among them, the first of them is selected.
pub fn ensure_selection_in_filtered(state: &mut TuiState)
    ensures
        final(state)@ == (TuiStateView {
            selected: selection_in(old(state)@.filtered_indices, old(state)@.selected),
            ..old(state)@
        }),
{
    if state.filtered_indices.len() == 0 {
        return;
    }
    if !has_index(&state.filtered_indices, state.selected) {
        state.selected = state.filtered_indices[0];
    }
}

/// Filters the periods by the search query of the state and keeps the
/// selection inside the periods that are left.
pub fn apply_search_filter(weeks: &[WeekStats], state: &mut TuiState)
    ensures
        final(state)@ == old(state)@.with_search(labels(weeks@)),
{
    if state.search_query.as_str().is_empty() {
        state.filtered_indices = index_range(weeks.len());
    } else {
        let query = to_lowercase(state.search_query.as_str());
        let mut found: Vec<usize> = Vec::new();
        let mut i: usize = 0;
        while i < weeks.len()
            invariant
                i <= weeks@.len(),
                query@ == lowercase(state.search_query@),
                found@ == matching_weeks(labels(weeks@).subrange(0, i as int), query@),
            decreases weeks@.len() - i,
        {
            let ghost next = labels(weeks@).subrange(0, i + 1);
            assert(next.drop_last() =~= labels(weeks@).subrange(0, i as int));
            assert(next.last() == weeks@[i as int].label());
            if week_passes(&weeks[i], query.as_str()) {
                found.push(i);
            }
            i += 1;
        }
        assert(labels(weeks@).subrange(0, i as int) =~= labels(weeks@));
        state.filtered_indices = found;
    }
    ensure_selection_in_filtered(state);
}

/// Filters the commits of the state by its commit search query and keeps
/// the selected commit below the number of commits that are left.
pub fn apply_commit_search_filter(state: &mut TuiState)
    ensures
        final(state)@ == old(state)@.with_commit_search(),
{
    if state.commit_search_query.as_str().is_empty() {
        state.commit_filtered_indices = index_range(state.commit_details.len());
    } else {
        let query = to_lowercase(state.commit_search_query.as_str());
        let mut found: Vec<usize> = Vec::new();
        let mut i: usize = 0;
        while i < state.commit_details.len()
            invariant
                i <= state.commit_details@.len(),
                query@ == lowercase(state.commit_search_query@),
                found@ == matching_commits(
                    commit_labels(state.commit_details@).subrange(0, i as int),
                    query@,
                ),
            decreases state.commit_details@.len() - i,
        {
            let ghost next = commit_labels(state.commit_details@).subrange(0, i + 1);
            assert(next.drop_last() =~= commit_labels(state.commit_details@).subrange(0, i as int));
            assert(next.last() == state.commit_details@[i as int].label());
            if commit_passes(&state.commit_details[i], query.as_str()) {
                found.push(i);
            }
            i += 1;
        }
        assert(commit_labels(state.commit_details@).subrange(0, i as int) =~= commit_labels(
            state.commit_details@,
        ));
        state.commit_filtered_indices = found;
    }
    if state.commit_selected >= state.commit_filtered_indices.len() {
        state.commit_selected = if state.commit_filtered_indices.len() == 0 {
            0
        } else {
            state.commit_filtered_indices.len() - 1
        };
    }
}

/// Keeps the selected commit among the commits that are shown: where any
/// is shown and the selected one is not among them, the first of them is
/// selected. Returns the places of the shown commits, in their order.
pub fn ensure_commit_selection_shown(state: &mut TuiState) -> (shown: Vec<usize>)
    ensures
        shown@ == shown_commits(old(state)@),
        final(state)@ == (TuiStateView {
            commit_selected: selection_in(
                shown_commits(old(state)@),
                old(state)@.commit_selected,
            ),
            ..old(state)@
        }),
{
    let shown = if !state.commit_search_query.as_str().is_empty()
        && state.commit_filtered_indices.len() > 0 {
        state.commit_filtered_indices.clone()
    } else {
        index_range(state.commit_details.len())
    };
    if shown.len() > 0 && !has_index(&shown, state.commit_selected) {
        state.commit_selected = shown[0];
    }
    shown
}

} // verus!
