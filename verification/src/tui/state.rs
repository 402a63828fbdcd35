//! What the dashboard shows and what it remembers between events.

use vstd::prelude::*;
use crate::model::{option_view, strings_view, Timestamp};

verus! {

/// The changes to the files of one extension within a period.
#[derive(Clone, Copy, Debug, PartialEq, Eq, Structural)]
pub struct FileExtensionStats {
    pub commits: usize,
    pub lines_added: usize,
    pub lines_deleted: usize,
    pub files_changed: usize,
}

/// The activity of one period, a week or a month.
#[derive(Debug)]
pub struct WeekStats {
    pub week: String,
    pub commits: usize,
    pub lines_added: usize,
    pub lines_deleted: usize,
    /// The authors with the most commits, at most three.
    pub top_authors: Vec<String>,
    /// The changes by file extension, in ascending order of the extensions.
    pub file_extensions: Vec<(String, FileExtensionStats)>,
    /// The files changed most often with the number of changes, at most ten.
    pub top_files: Vec<(String, usize)>,
}

/// What the filters read of a `WeekStats`.
pub struct WeekLabel {
    pub week: Seq<char>,
    pub top_authors: Seq<Seq<char>>,
}

impl WeekStats {
    /// The key and the authors of the period.
    pub open spec fn label(&self) -> WeekLabel {
        WeekLabel { week: self.week@, top_authors: strings_view(self.top_authors@) }
    }
}

/// The keys and authors of a list of periods.
pub open spec fn labels(weeks: Seq<WeekStats>) -> Seq<WeekLabel> {
    Seq::new(weeks.len(), |i: int| weeks[i].label())
}

/// One commit as the dashboard lists it.
#[derive(Debug)]
pub struct CommitDetail {
    pub hash: String,
    pub short_hash: String,
    pub message: String,
    pub author_name: String,
    pub author_email: String,
    pub timestamp: Timestamp,
    pub files_changed: Vec<String>,
    pub lines_added: u32,
    pub lines_deleted: u32,
}

/// What the filters read of a `CommitDetail`.
pub struct CommitLabel {
    pub message: Seq<char>,
    pub author_name: Seq<char>,
    pub short_hash: Seq<char>,
}

impl CommitDetail {
    /// The message, the author and the short hash of the commit.
    pub open spec fn label(&self) -> CommitLabel {
        CommitLabel {
            message: self.message@,
            author_name: self.author_name@,
            short_hash: self.short_hash@,
        }
    }
}

/// The messages, authors and short hashes of a list of commits.
pub open spec fn commit_labels(commits: Seq<CommitDetail>) -> Seq<CommitLabel> {
    Seq::new(commits.len(), |i: int| commits[i].label())
}

/// The view that the dashboard shows.
#[derive(Clone, Copy, Debug, PartialEq, Eq, Structural)]
pub enum ViewMode {
    Heatmap,
    Statistics,
    Timeline,
    CommitDetails,
}

/// The pane that has the focus.
#[derive(Clone, Copy, Debug, PartialEq, Eq, Structural)]
pub enum FocusPane {
    Periods,
    Commits,
}

/// The state of the dashboard. Times are in milliseconds on the caller's clock.
#[derive(Debug)]
pub struct TuiState {
    pub selected: usize,
    pub view_mode: ViewMode,
    pub tab_index: usize,
    pub show_all: bool,
    pub focus: FocusPane,
    pub show_help: bool,
    pub show_file_modal: bool,
    pub search_query: String,
    pub search_mode: bool,
    pub filtered_indices: Vec<usize>,
    pub commit_search_query: String,
    pub commit_search_mode: bool,
    pub commit_filtered_indices: Vec<usize>,
    pub path_filter: Option<String>,
    pub path_mode: bool,
    pub path_input: String,
    pub commit_details: Vec<CommitDetail>,
    pub commit_selected: usize,
    pub loading_commits: bool,
    /// A message for the status line, with the time at which it was set.
    pub status_message: Option<(String, u64)>,
    /// The time of the last refresh of the data.
    pub last_refresh: Option<u64>,
}

/// The mathematical content of a `TuiState`.
pub struct TuiStateView {
    pub selected: usize,
    pub view_mode: ViewMode,
    pub tab_index: usize,
    pub show_all: bool,
    pub focus: FocusPane,
    pub show_help: bool,
    pub show_file_modal: bool,
    pub search_query: Seq<char>,
    pub search_mode: bool,
    pub filtered_indices: Seq<usize>,
    pub commit_search_query: Seq<char>,
    pub commit_search_mode: bool,
    pub commit_filtered_indices: Seq<usize>,
    pub path_filter: Option<Seq<char>>,
    pub path_mode: bool,
    pub path_input: Seq<char>,
    pub commit_details: Seq<CommitDetail>,
    pub commit_selected: usize,
    pub loading_commits: bool,
    pub status_message: Option<(Seq<char>, u64)>,
    pub last_refresh: Option<u64>,
}

impl View for TuiState {
    type V = TuiStateView;

    open spec fn view(&self) -> TuiStateView {
        TuiStateView {
            selected: self.selected,
            view_mode: self.view_mode,
            tab_index: self.tab_index,
            show_all: self.show_all,
            focus: self.focus,
            show_help: self.show_help,
            show_file_modal: self.show_file_modal,
            search_query: self.search_query@,
            search_mode: self.search_mode,
            filtered_indices: self.filtered_indices@,
            commit_search_query: self.commit_search_query@,
            commit_search_mode: self.commit_search_mode,
            commit_filtered_indices: self.commit_filtered_indices@,
            path_filter: option_view(self.path_filter),
            path_mode: self.path_mode,
            path_input: self.path_input@,
            commit_details: self.commit_details@,
            commit_selected: self.commit_selected,
            loading_commits: self.loading_commits,
            status_message: match self.status_message {
                Some((text, at)) => Some((text@, at)),
                None => None,
            },
            last_refresh: self.last_refresh,
        }
    }
}

impl TuiStateView {
    /// The state in which the dashboard starts.
    pub open spec fn initial() -> TuiStateView {
        TuiStateView {
            selected: 0,
            view_mode: ViewMode::Heatmap,
            tab_index: 0,
            show_all: false,
            focus: FocusPane::Periods,
            show_help: false,
            show_file_modal: false,
            search_query: Seq::empty(),
            search_mode: false,
            filtered_indices: Seq::empty(),
            commit_search_query: Seq::empty(),
            commit_search_mode: false,
            commit_filtered_indices: Seq::empty(),
            path_filter: None,
            path_mode: false,
            path_input: Seq::empty(),
            commit_details: Seq::empty(),
            commit_selected: 0,
            loading_commits: false,
            status_message: None,
            last_refresh: None,
        }
    }
}

impl Default for TuiState {
    fn default() -> (state: TuiState)
        ensures
            state@ == TuiStateView::initial(),
    {
        TuiState {
            selected: 0,
            view_mode: ViewMode::Heatmap,
            tab_index: 0,
            show_all: false,
            focus: FocusPane::Periods,
            show_help: false,
            show_file_modal: false,
            search_query: String::new(),
            search_mode: false,
            filtered_indices: Vec::new(),
            commit_search_query: String::new(),
            commit_search_mode: false,
            commit_filtered_indices: Vec::new(),
            path_filter: None,
            path_mode: false,
            path_input: String::new(),
            commit_details: Vec::new(),
            commit_selected: 0,
            loading_commits: false,
            status_message: None,
            last_refresh: None,
        }
    }
}

} // verus!
