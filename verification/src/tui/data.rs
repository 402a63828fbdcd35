//! The data behind the dashboard: which periods it keeps, and the commits
//! of the selected period.

use vstd::prelude::*;
use crate::details::{
    details_view, get_commits_for_period, latest_first, listed_details, PeriodFilter,
};
use crate::error::GmapError;
use crate::model::{infos_view, stats_view, CommitInfo, CommitStats};
use crate::tui::input::{all_indices, index_range};
use crate::tui::state::{TuiState, TuiStateView, WeekStats};
use crate::util::prefix_view;

verus! {

/// How many months the dashboard keeps unless all are asked for.
pub const RECENT_MONTHS: usize = 12;

/// How many weeks the dashboard keeps unless all are asked for.
pub const RECENT_WEEKS: usize = 52;

/// How many periods the dashboard keeps unless all are asked for.
pub open spec fn recent_limit(monthly: bool) -> nat {
    if monthly {
        RECENT_MONTHS as nat
    } else {
        RECENT_WEEKS as nat
    }
}

/// The periods that the dashboard keeps: all of them where all are asked
/// for, and otherwise the last ones up to the limit.
pub open spec fn kept_periods(
    weeks: Seq<WeekStats>,
    show_all: bool,
    monthly: bool,
) -> Seq<WeekStats> {
    if !show_all && weeks.len() > recent_limit(monthly) {
        weeks.subrange(weeks.len() - recent_limit(monthly), weeks.len() as int)
    } else {
        weeks
    }
}

/// Drops the periods that the dashboard does not keep: all but the last
/// 12 months or 52 weeks, unless all periods are asked for.
pub fn keep_recent(weeks: &mut Vec<WeekStats>, show_all: bool, monthly: bool)
    ensures
        final(weeks)@ == kept_periods(old(weeks)@, show_all, monthly),
{
    if !show_all {
        let limit: usize = if monthly {
            RECENT_MONTHS
        } else {
            RECENT_WEEKS
        };
        if weeks.len() > limit {
            let at = weeks.len() - limit;
            let recent = weeks.split_off(at);
            *weeks = recent;
        }
    }
}

impl TuiStateView {
    /// The state with every commit listed shown: no commit is filtered out.
    pub open spec fn all_commits_shown(self) -> TuiStateView {
        TuiStateView {
            commit_filtered_indices: all_indices(self.commit_details.len()),
            ..self
        }
    }
}

/// Shows every commit listed.
pub fn show_all_commits(state: &mut TuiState)
    ensures
        final(state)@ == old(state)@.all_commits_shown(),
{
    state.commit_filtered_indices = index_range(state.commit_details.len());
}

/// Loads the commits of the selected period into the state, from the
/// latest to the earliest, and selects the first of them. Nothing changes
/// where no period is selected. On failure the commits listed stay as they were.
pub fn load_commit_details(
    state: &mut TuiState,
    weeks: &[WeekStats],
    stats: &Vec<CommitStats>,
    infos: &Vec<CommitInfo>,
    path_prefix: Option<&str>,
    author: Option<&str>,
    author_email: Option<&str>,
    monthly: bool,
) -> (r: Result<(), GmapError>)
    ensures
        old(state).selected >= weeks@.len() ==> r is Ok && final(state)@ == old(state)@,
        old(state).selected < weeks@.len() ==> match listed_details(
            stats_view(stats@),
            infos_view(infos@),
            PeriodFilter {
                period: weeks@[old(state).selected as int].week@,
                monthly,
                path_prefix: prefix_view(path_prefix),
                author: prefix_view(author),
                author_email: prefix_view(author_email),
            },
        ) {
            Ok(details) => r is Ok && latest_first(
                details_view(final(state)@.commit_details),
                details,
            ) && final(state)@ == (TuiStateView {
                commit_details: final(state)@.commit_details,
                commit_selected: 0,
                loading_commits: false,
                ..old(state)@
            }),
            Err(e) => (r matches Err(error) && error@ == e) && final(state)@ == (TuiStateView {
                loading_commits: false,
                ..old(state)@
            }),
        },
{
    if state.selected >= weeks.len() {
        return Ok(());
    }
    state.loading_commits = true;
    let selected_week = &weeks[state.selected];
    match get_commits_for_period(
        stats,
        infos,
        selected_week.week.as_str(),
        path_prefix,
        author,
        author_email,
        monthly,
    ) {
        Ok(commits) => {
            state.commit_details = commits;
            state.commit_selected = 0;
            state.loading_commits = false;
            Ok(())
        },
        Err(e) => {
            state.loading_commits = false;
            Err(e)
        },
    }
}

} // verus!
