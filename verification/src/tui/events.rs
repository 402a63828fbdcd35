//! What keys and the mouse do to the state of the dashboard.
//!
//! Each handler changes the state and tells the caller what is left for it
//! to do: what needs the repository, the cache, the clipboard or the pager.

use vstd::prelude::*;
use crate::text::{trim, trimmed};
use crate::tui::input::{
    all_indices, apply_commit_search_filter, apply_search_filter, ensure_selection_in_filtered,
    index_range, selection_in,
};
use crate::tui::layout::position_or_zero;
use crate::tui::state::{labels, TuiState, TuiStateView, ViewMode, WeekLabel, WeekStats};

verus! {

/// The least time between two refreshes of the data, in milliseconds.
pub const REFRESH_INTERVAL_MS: u64 = 300;

/// How far a page key moves the selection.
pub const PAGE_STEP: usize = 10;

/// The number of views that the tab keys cycle through.
pub const TAB_COUNT: usize = 4;

/// The tab of the commit details.
pub const DETAILS_TAB: usize = 3;

/// A key that was pressed.
#[derive(Clone, Copy, Debug, PartialEq, Eq, Structural)]
pub enum Key {
    Char(char),
    F(u8),
    Enter,
    Esc,
    Backspace,
    Tab,
    BackTab,
    Up,
    Down,
    Home,
    End,
    PageUp,
    PageDown,
    Other,
}

/// What the mouse did.
#[derive(Clone, Copy, Debug, PartialEq, Eq, Structural)]
pub enum MouseInput {
    ScrollUp,
    ScrollDown,
    LeftDown,
    Other,
}

/// What is left for the caller to do after an event.
#[derive(Clone, Copy, Debug, PartialEq, Eq, Structural)]
pub enum Action {
    /// Nothing.
    Nothing,
    /// Leave the dashboard.
    Quit,
    /// Load the commits of the selected period and show them.
    LoadCommitDetails,
    /// Copy the full hash of the selected commit to the clipboard.
    CopyFullHash,
    /// Copy the short hash of the selected commit to the clipboard.
    CopyShortHash,
    /// Show the selected commit in the pager.
    OpenCommitInPager,
    /// Switch between weeks and months.
    ToggleMonthly,
    /// Switch merge commits on or off.
    ToggleMerges,
    /// Switch between all periods and the recent ones.
    ToggleShowAll,
    /// Sum the periods anew for the path filter that was entered.
    ApplyPathFilter,
}

/// The position of `item` in `items`, if it stands there.
pub open spec fn position_of(items: Seq<usize>, item: usize) -> Option<int> {
    if items.contains(item) {
        Some(position_or_zero(items, item))
    } else {
        None
    }
}

/// `n - 1`, or 0 for 0.
pub open spec fn last_index(n: nat) -> usize {
    if n == 0 {
        0
    } else {
        (n - 1) as usize
    }
}

impl TuiStateView {
    /// Whether the list of commits is walked through its filtered places.
    pub open spec fn walks_filtered_commits(self) -> bool {
        self.commit_search_query.len() > 0 && self.commit_filtered_indices.len() > 0
    }

    /// The state with the selected period set to `selected` and then kept
    /// inside the filtered periods.
    pub open spec fn select_period(self, selected: usize) -> TuiStateView {
        TuiStateView { selected: selection_in(self.filtered_indices, selected), ..self }
    }

    /// The state after a step up. In the commit details the selected commit
    /// moves to the filtered place before it, or up by one where no search
    /// is in force; elsewhere the selected period moves up by one.
    pub open spec fn moved_up(self) -> TuiStateView {
        if self.view_mode == ViewMode::CommitDetails {
            if self.commit_details.len() == 0 {
                self
            } else if self.walks_filtered_commits() {
                match position_of(self.commit_filtered_indices, self.commit_selected) {
                    Some(pos) => if pos > 0 {
                        TuiStateView {
                            commit_selected: self.commit_filtered_indices[pos - 1],
                            ..self
                        }
                    } else {
                        self
                    },
                    None => self,
                }
            } else {
                TuiStateView {
                    commit_selected: if self.commit_selected > 0 {
                        (self.commit_selected - 1) as usize
                    } else {
                        0
                    },
                    ..self
                }
            }
        } else if self.selected > 0 {
            self.select_period((self.selected - 1) as usize)
        } else {
            self
        }
    }

    /// The state after a step down among `weeks_len` periods.
    pub open spec fn moved_down(self, weeks_len: nat) -> TuiStateView {
        if self.view_mode == ViewMode::CommitDetails {
            if self.commit_details.len() == 0 {
                self
            } else if self.walks_filtered_commits() {
                match position_of(self.commit_filtered_indices, self.commit_selected) {
                    Some(pos) => if pos + 1 < self.commit_filtered_indices.len() {
                        TuiStateView {
                            commit_selected: self.commit_filtered_indices[pos + 1],
                            ..self
                        }
                    } else {
                        self
                    },
                    None => self,
                }
            } else if self.commit_selected + 1 < self.commit_details.len() {
                TuiStateView { commit_selected: (self.commit_selected + 1) as usize, ..self }
            } else {
                self
            }
        } else if self.selected + 1 < weeks_len {
            self.select_period((self.selected + 1) as usize)
        } else {
            self
        }
    }

    /// The state after a jump to the first commit or period.
    pub open spec fn jumped_first(self) -> TuiStateView {
        if self.view_mode == ViewMode::CommitDetails {
            TuiStateView { commit_selected: 0, ..self }
        } else {
            self.select_period(0)
        }
    }

    /// The state after a jump to the last commit or period.
    pub open spec fn jumped_last(self, weeks_len: nat) -> TuiStateView {
        if self.view_mode == ViewMode::CommitDetails {
            TuiStateView { commit_selected: last_index(self.commit_details.len()), ..self }
        } else {
            self.select_period(last_index(weeks_len))
        }
    }

    /// The state after the key `Home`: the first filtered commit, or the
    /// first period whether or not it is filtered.
    pub open spec fn jumped_home(self) -> TuiStateView {
        if self.view_mode == ViewMode::CommitDetails {
            TuiStateView {
                commit_selected: if self.walks_filtered_commits() {
                    self.commit_filtered_indices[0]
                } else {
                    0
                },
                ..self
            }
        } else {
            TuiStateView { selected: 0, ..self }
        }
    }

    /// The state after the key `End`: the last filtered commit, or the last
    /// period whether or not it is filtered.
    pub open spec fn jumped_end(self, weeks_len: nat) -> TuiStateView {
        if self.view_mode == ViewMode::CommitDetails {
            TuiStateView {
                commit_selected: if self.walks_filtered_commits() {
                    self.commit_filtered_indices.last()
                } else {
                    last_index(self.commit_details.len())
                },
                ..self
            }
        } else {
            TuiStateView { selected: last_index(weeks_len), ..self }
        }
    }

    /// The state after a page up: both selections move up by a page.
    pub open spec fn paged_up(self) -> TuiStateView {
        TuiStateView {
            selected: if self.selected >= PAGE_STEP {
                (self.selected - PAGE_STEP) as usize
            } else {
                0
            },
            commit_selected: if self.commit_selected >= PAGE_STEP {
                (self.commit_selected - PAGE_STEP) as usize
            } else {
                0
            },
            ..self
        }
    }

    /// The state after a page down: both selections move down by a page,
    /// but not beyond the last period or commit.
    pub open spec fn paged_down(self, weeks_len: nat) -> TuiStateView {
        TuiStateView {
            selected: if self.selected + PAGE_STEP <= last_index(weeks_len) {
                (self.selected + PAGE_STEP) as usize
            } else {
                last_index(weeks_len)
            },
            commit_selected: if self.commit_selected + PAGE_STEP <= last_index(
                self.commit_details.len(),
            ) {
                (self.commit_selected + PAGE_STEP) as usize
            } else {
                last_index(self.commit_details.len())
            },
            ..self
        }
    }

    /// Whether a refresh at the time `now` comes too soon after the last one.
    pub open spec fn throttles(self, now: u64) -> bool {
        self.last_refresh matches Some(t) && now - t < REFRESH_INTERVAL_MS
    }

    /// The state after a refresh was asked for at the time `now`: the time
    /// is remembered unless the refresh comes too soon.
    pub open spec fn refresh_asked(self, now: u64) -> TuiStateView {
        if self.throttles(now) {
            self
        } else {
            TuiStateView { last_refresh: Some(now), ..self }
        }
    }

    /// The state after a key in the period search.
    pub open spec fn search_key(self, key: Key, weeks: Seq<WeekLabel>) -> TuiStateView {
        match key {
            Key::Esc => TuiStateView {
                search_mode: false,
                search_query: Seq::empty(),
                filtered_indices: all_indices(weeks.len()),
                ..self
            },
            Key::Enter => (TuiStateView { search_mode: false, ..self }).with_search(weeks),
            Key::Backspace => (TuiStateView {
                search_query: if self.search_query.len() > 0 {
                    self.search_query.drop_last()
                } else {
                    self.search_query
                },
                ..self
            }).with_search(weeks),
            Key::Char(c) => (TuiStateView {
                search_query: self.search_query.push(c),
                ..self
            }).with_search(weeks),
            _ => self,
        }
    }

    /// The state after a key in the commit search.
    pub open spec fn commit_search_key(self, key: Key) -> TuiStateView {
        match key {
            Key::Esc => TuiStateView {
                commit_search_mode: false,
                commit_search_query: Seq::empty(),
                commit_filtered_indices: all_indices(self.commit_details.len()),
                ..self
            },
            Key::Enter => (TuiStateView { commit_search_mode: false, ..self }).with_commit_search(),
            Key::Backspace => (TuiStateView {
                commit_search_query: if self.commit_search_query.len() > 0 {
                    self.commit_search_query.drop_last()
                } else {
                    self.commit_search_query
                },
                ..self
            }).with_commit_search(),
            Key::Char(c) => (TuiStateView {
                commit_search_query: self.commit_search_query.push(c),
                ..self
            }).with_commit_search(),
            _ => self,
        }
    }

    /// The state after a key in the input of the path filter. `Enter`
    /// makes the input, without the white space around it, the path filter,
    /// or removes the filter where nothing is left of the input.
    pub open spec fn path_key(self, key: Key) -> TuiStateView {
        match key {
            Key::Esc => TuiStateView { path_mode: false, path_input: Seq::empty(), ..self },
            Key::Enter => TuiStateView {
                path_mode: false,
                path_filter: if trimmed(self.path_input).len() == 0 {
                    None
                } else {
                    Some(trimmed(self.path_input))
                },
                ..self
            },
            Key::Backspace => TuiStateView {
                path_input: if self.path_input.len() > 0 {
                    self.path_input.drop_last()
                } else {
                    self.path_input
                },
                ..self
            },
            Key::Char(c) => TuiStateView { path_input: self.path_input.push(c), ..self },
            _ => self,
        }
    }

    /// The state after the periods were summed anew for a path filter:
    /// every period is shown and no commits are listed.
    pub open spec fn path_applied(self, weeks_len: nat) -> TuiStateView {
        TuiStateView {
            filtered_indices: all_indices(weeks_len),
            commit_details: Seq::empty(),
            commit_selected: 0,
            commit_filtered_indices: Seq::empty(),
            ..self
        }
    }

    /// Whether the commits of the selected period can be loaded: the commit
    /// details are not shown yet and the selected period exists.
    pub open spec fn can_load_details(self, weeks_len: nat) -> bool {
        self.view_mode != ViewMode::CommitDetails && self.selected < weeks_len
    }

    /// The state that shows the commit details after they were loaded.
    pub open spec fn details_shown(self) -> TuiStateView {
        TuiStateView { view_mode: ViewMode::CommitDetails, tab_index: DETAILS_TAB, ..self }
    }

    /// The state after a key outside the input modes, and what is left to do.
    pub open spec fn plain_key(self, key: Key, weeks_len: nat) -> (TuiStateView, Action) {
        match key {
            Key::Char(c) => if c == 'q' {
                (self, Action::Quit)
            } else if c == 'h' {
                (TuiStateView { show_help: !self.show_help, ..self }, Action::Nothing)
            } else if c == '/' {
                (
                    TuiStateView { search_mode: true, search_query: Seq::empty(), ..self },
                    Action::Nothing,
                )
            } else if c == ':' {
                (
                    TuiStateView {
                        commit_search_mode: true,
                        commit_search_query: Seq::empty(),
                        ..self
                    },
                    Action::Nothing,
                )
            } else if c == 'p' {
                (
                    TuiStateView {
                        path_mode: true,
                        path_input: match self.path_filter {
                            Some(filter) => filter,
                            None => Seq::empty(),
                        },
                        ..self
                    },
                    Action::Nothing,
                )
            } else if c == 'c' {
                (self, Action::CopyFullHash)
            } else if c == 'y' {
                (self, Action::CopyShortHash)
            } else if c == 'o' {
                (self, Action::OpenCommitInPager)
            } else if c == 'm' {
                (self, Action::ToggleMonthly)
            } else if c == 'M' {
                (self, Action::ToggleMerges)
            } else if c == 'A' {
                (self, Action::ToggleShowAll)
            } else if c == 'k' {
                (self.moved_up(), Action::Nothing)
            } else if c == 'j' {
                (self.moved_down(weeks_len), Action::Nothing)
            } else if c == 'g' {
                (self.jumped_first(), Action::Nothing)
            } else if c == 'G' {
                (self.jumped_last(weeks_len), Action::Nothing)
            } else {
                (self, Action::Nothing)
            },
            Key::F(n) => if n == 1 {
                (TuiStateView { show_help: !self.show_help, ..self }, Action::Nothing)
            } else {
                (self, Action::Nothing)
            },
            Key::Enter => if self.can_load_details(weeks_len) {
                (self, Action::LoadCommitDetails)
            } else {
                (self, Action::Nothing)
            },
            Key::Tab => (
                TuiStateView { tab_index: ((self.tab_index + 1) % TAB_COUNT as int) as usize, ..self },
                Action::Nothing,
            ),
            Key::BackTab => (
                TuiStateView {
                    tab_index: if self.tab_index == 0 {
                        DETAILS_TAB
                    } else {
                        (self.tab_index - 1) as usize
                    },
                    ..self
                },
                Action::Nothing,
            ),
            Key::Up => (self.moved_up(), Action::Nothing),
            Key::Down => (self.moved_down(weeks_len), Action::Nothing),
            Key::Home => (self.jumped_home(), Action::Nothing),
            Key::End => (self.jumped_end(weeks_len), Action::Nothing),
            Key::PageUp => (self.paged_up(), Action::Nothing),
            Key::PageDown => (self.paged_down(weeks_len), Action::Nothing),
            _ => (self, Action::Nothing),
        }
    }

    /// The state after a key, and what is left to do. An open file modal
    /// takes every key and closes on `Esc`; then come the period search, the
    /// commit search and the input of the path filter, in this order; a key
    /// outside of them is a command.
    pub open spec fn key_pressed(self, key: Key, weeks: Seq<WeekLabel>) -> (TuiStateView, Action) {
        if self.show_file_modal {
            if key == Key::Esc {
                (TuiStateView { show_file_modal: false, ..self }, Action::Nothing)
            } else {
                (self, Action::Nothing)
            }
        } else if self.search_mode {
            (self.search_key(key, weeks), Action::Nothing)
        } else if self.commit_search_mode {
            (self.commit_search_key(key), Action::Nothing)
        } else if self.path_mode {
            (
                self.path_key(key),
                if key == Key::Enter {
                    Action::ApplyPathFilter
                } else {
                    Action::Nothing
                },
            )
        } else {
            self.plain_key(key, weeks.len())
        }
    }

    /// The state after the mouse did something, and what is left to do.
    pub open spec fn mouse_used(self, mouse: MouseInput, weeks_len: nat) -> (TuiStateView, Action) {
        match mouse {
            MouseInput::ScrollUp => if self.view_mode == ViewMode::CommitDetails {
                (
                    TuiStateView {
                        commit_selected: if self.commit_selected > 0 {
                            (self.commit_selected - 1) as usize
                        } else {
                            0
                        },
                        ..self
                    },
                    Action::Nothing,
                )
            } else if self.selected > 0 {
                (self.select_period((self.selected - 1) as usize), Action::Nothing)
            } else {
                (self, Action::Nothing)
            },
            MouseInput::ScrollDown => if self.view_mode == ViewMode::CommitDetails {
                if self.commit_selected + 1 < self.commit_details.len() {
                    (
                        TuiStateView { commit_selected: (self.commit_selected + 1) as usize, ..self },
                        Action::Nothing,
                    )
                } else {
                    (self, Action::Nothing)
                }
            } else if self.selected + 1 < weeks_len {
                (self.select_period((self.selected + 1) as usize), Action::Nothing)
            } else {
                (self, Action::Nothing)
            },
            MouseInput::LeftDown => if self.can_load_details(weeks_len) {
                (self, Action::LoadCommitDetails)
            } else {
                (self, Action::Nothing)
            },
            MouseInput::Other => (self, Action::Nothing),
        }
    }
}

/// The first position of `item` in `items`, if it stands there.
fn find_index(items: &Vec<usize>, item: usize) -> (pos: Option<usize>)
    ensures
        match pos {
            Some(p) => position_of(items@, item) == Some(p as int) && p < items@.len(),
            None => position_of(items@, item) is None,
        },
{
    let mut i: usize = 0;
    while i < items.len()
        invariant
            i <= items@.len(),
            forall|j: int| 0 <= j < i ==> items@[j] != item,
        decreases items@.len() - i,
    {
        if items[i] == item {
            proof {
                lemma_position(items@, item, i as int);
            }
            return Some(i);
        }
        i += 1;
    }
    None
}

/// The position of an item is the first place at which it stands.
proof fn lemma_position(items: Seq<usize>, item: usize, i: int)
    requires
        0 <= i < items.len(),
        items[i] == item,
        forall|j: int| 0 <= j < i ==> items[j] != item,
    ensures
        position_or_zero(items, item) == i,
    decreases i,
{
    if i > 0 {
        let rest = items.drop_first();
        assert(rest[i - 1] == item);
        assert forall|j: int| 0 <= j < i - 1 implies rest[j] != item by {
            assert(rest[j] == items[j + 1]);
        }
        lemma_position(rest, item, i - 1);
    }
}

/// Selects the period `selected` and keeps the selection inside the
/// filtered periods.
fn select_period(state: &mut TuiState, selected: usize)
    ensures
        final(state)@ == old(state)@.select_period(selected),
{
    state.selected = selected;
    ensure_selection_in_filtered(state);
}

/// Moves the selection one step up.
pub fn move_up(state: &mut TuiState)
    ensures
        final(state)@ == old(state)@.moved_up(),
{
    if state.view_mode == ViewMode::CommitDetails {
        if state.commit_details.len() > 0 {
            if !state.commit_search_query.as_str().is_empty() && state.commit_filtered_indices.len()
                > 0 {
                if let Some(pos) = find_index(&state.commit_filtered_indices, state.commit_selected) {
                    if pos > 0 {
                        state.commit_selected = state.commit_filtered_indices[pos - 1];
                    }
                }
            } else if state.commit_selected > 0 {
                state.commit_selected -= 1;
            }
        }
    } else if state.selected > 0 {
        let target = state.selected - 1;
        select_period(state, target);
    }
}

/// Moves the selection one step down among `weeks_len` periods.
pub fn move_down(state: &mut TuiState, weeks_len: usize)
    ensures
        final(state)@ == old(state)@.moved_down(weeks_len as nat),
{
    if state.view_mode == ViewMode::CommitDetails {
        if state.commit_details.len() > 0 {
            if !state.commit_search_query.as_str().is_empty() && state.commit_filtered_indices.len()
                > 0 {
                if let Some(pos) = find_index(&state.commit_filtered_indices, state.commit_selected) {
                    if pos + 1 < state.commit_filtered_indices.len() {
                        state.commit_selected = state.commit_filtered_indices[pos + 1];
                    }
                }
            } else if state.commit_selected < state.commit_details.len() - 1 {
                state.commit_selected += 1;
            }
        }
    } else if weeks_len > 0 && state.selected < weeks_len - 1 {
        let target = state.selected + 1;
        select_period(state, target);
    }
}

/// Jumps to the first commit or period.
pub fn jump_first(state: &mut TuiState)
    ensures
        final(state)@ == old(state)@.jumped_first(),
{
    if state.view_mode == ViewMode::CommitDetails {
        state.commit_selected = 0;
    } else {
        select_period(state, 0);
    }
}

/// `n - 1`, or 0 for 0.
fn last_of(n: usize) -> (r: usize)
    ensures
        r == last_index(n as nat),
{
    if n == 0 {
        0
    } else {
        n - 1
    }
}

/// Jumps to the last commit or period.
pub fn jump_last(state: &mut TuiState, weeks_len: usize)
    ensures
        final(state)@ == old(state)@.jumped_last(weeks_len as nat),
{
    if state.view_mode == ViewMode::CommitDetails {
        state.commit_selected = last_of(state.commit_details.len());
    } else {
        select_period(state, last_of(weeks_len));
    }
}

/// Jumps to the first filtered commit, or to the first period.
pub fn jump_home(state: &mut TuiState)
    ensures
        final(state)@ == old(state)@.jumped_home(),
{
    if state.view_mode == ViewMode::CommitDetails {
        if !state.commit_search_query.as_str().is_empty() && state.commit_filtered_indices.len()
            > 0 {
            state.commit_selected = state.commit_filtered_indices[0];
        } else {
            state.commit_selected = 0;
        }
    } else {
        state.selected = 0;
    }
}

/// Jumps to the last filtered commit, or to the last period.
pub fn jump_end(state: &mut TuiState, weeks_len: usize)
    ensures
        final(state)@ == old(state)@.jumped_end(weeks_len as nat),
{
    if state.view_mode == ViewMode::CommitDetails {
        if !state.commit_search_query.as_str().is_empty() && state.commit_filtered_indices.len()
            > 0 {
            state.commit_selected =
            state.commit_filtered_indices[state.commit_filtered_indices.len() - 1];
        } else {
            state.commit_selected = last_of(state.commit_details.len());
        }
    } else {
        state.selected = last_of(weeks_len);
    }
}

/// Moves both selections up by a page.
pub fn page_up(state: &mut TuiState)
    ensures
        final(state)@ == old(state)@.paged_up(),
{
    state.selected = if state.selected >= PAGE_STEP {
        state.selected - PAGE_STEP
    } else {
        0
    };
    state.commit_selected = if state.commit_selected >= PAGE_STEP {
        state.commit_selected - PAGE_STEP
    } else {
        0
    };
}

/// Moves both selections down by a page, but not beyond the last entry.
pub fn page_down(state: &mut TuiState, weeks_len: usize)
    ensures
        final(state)@ == old(state)@.paged_down(weeks_len as nat),
{
    let last_week = last_of(weeks_len);
    state.selected = if state.selected <= last_week && last_week - state.selected >= PAGE_STEP {
        state.selected + PAGE_STEP
    } else {
        last_week
    };
    let last_commit = last_of(state.commit_details.len());
    state.commit_selected = if state.commit_selected <= last_commit && last_commit
        - state.commit_selected >= PAGE_STEP {
        state.commit_selected + PAGE_STEP
    } else {
        last_commit
    };
}

/// Whether a refresh asked for at the time `now` is to be left out because
/// it comes less than 300 milliseconds after the last one. Otherwise `now`
/// is remembered as the time of the last refresh.
pub fn should_throttle_refresh(state: &mut TuiState, now: u64) -> (throttle: bool)
    ensures
        throttle == old(state)@.throttles(now),
        final(state)@ == old(state)@.refresh_asked(now),
{
    if let Some(t) = state.last_refresh {
        if now < t || now - t < REFRESH_INTERVAL_MS {
            proof {
                assert(now - t < REFRESH_INTERVAL_MS);
            }
            return true;
        }
    }
    state.last_refresh = Some(now);
    false
}

/// Handles a key in the period search.
pub fn handle_search_input(key: Key, state: &mut TuiState, weeks: &[WeekStats])
    ensures
        final(state)@ == old(state)@.search_key(key, labels(weeks@)),
{
    match key {
        Key::Esc => {
            state.search_mode = false;
            state.search_query = String::new();
            state.filtered_indices = index_range(weeks.len());
        },
        Key::Enter => {
            state.search_mode = false;
            apply_search_filter(weeks, state);
        },
        Key::Backspace => {
            let _ = state.search_query.pop();
            apply_search_filter(weeks, state);
        },
        Key::Char(c) => {
            state.search_query.push(c);
            apply_search_filter(weeks, state);
        },
        _ => {},
    }
}

/// Handles a key in the commit search.
pub fn handle_commit_search_input(key: Key, state: &mut TuiState)
    ensures
        final(state)@ == old(state)@.commit_search_key(key),
{
    match key {
        Key::Esc => {
            state.commit_search_mode = false;
            state.commit_search_query = String::new();
            state.commit_filtered_indices = index_range(state.commit_details.len());
        },
        Key::Enter => {
            state.commit_search_mode = false;
            apply_commit_search_filter(state);
        },
        Key::Backspace => {
            let _ = state.commit_search_query.pop();
            apply_commit_search_filter(state);
        },
        Key::Char(c) => {
            state.commit_search_query.push(c);
            apply_commit_search_filter(state);
        },
        _ => {},
    }
}

/// Handles a key in the input of the path filter. After `Enter` the caller
/// sums the periods anew and calls `path_applied`.
pub fn handle_path_input(key: Key, state: &mut TuiState)
    ensures
        final(state)@ == old(state)@.path_key(key),
{
    match key {
        Key::Esc => {
            state.path_mode = false;
            state.path_input = String::new();
        },
        Key::Enter => {
            state.path_mode = false;
            let filter = trim(state.path_input.as_str());
            if filter.is_empty() {
                state.path_filter = None;
            } else {
                state.path_filter = Some(filter.to_owned());
            }
        },
        Key::Backspace => {
            let _ = state.path_input.pop();
        },
        Key::Char(c) => {
            state.path_input.push(c);
        },
        _ => {},
    }
}

/// Shows every one of `weeks_len` periods and forgets the commits listed,
/// after the periods were summed anew for a path filter.
pub fn path_applied(state: &mut TuiState, weeks_len: usize)
    ensures
        final(state)@ == old(state)@.path_applied(weeks_len as nat),
{
    state.filtered_indices = index_range(weeks_len);
    state.commit_details = Vec::new();
    state.commit_selected = 0;
    state.commit_filtered_indices = Vec::new();
}

/// Shows the commit details after the commits of a period were loaded.
pub fn show_details(state: &mut TuiState)
    ensures
        final(state)@ == old(state)@.details_shown(),
{
    state.view_mode = ViewMode::CommitDetails;
    state.tab_index = DETAILS_TAB;
}

/// Handles a key outside the input modes.
fn handle_plain_key(key: Key, state: &mut TuiState, weeks_len: usize) -> (action: Action)
    ensures
        (final(state)@, action) == old(state)@.plain_key(key, weeks_len as nat),
{
    match key {
        Key::Char(c) => {
            if c == 'q' {
                return Action::Quit;
            } else if c == 'h' {
                state.show_help = !state.show_help;
            } else if c == '/' {
                state.search_mode = true;
                state.search_query = String::new();
            } else if c == ':' {
                state.commit_search_mode = true;
                state.commit_search_query = String::new();
            } else if c == 'p' {
                state.path_mode = true;
                state.path_input = match &state.path_filter {
                    Some(filter) => filter.clone(),
                    None => String::new(),
                };
            } else if c == 'c' {
                return Action::CopyFullHash;
            } else if c == 'y' {
                return Action::CopyShortHash;
            } else if c == 'o' {
                return Action::OpenCommitInPager;
            } else if c == 'm' {
                return Action::ToggleMonthly;
            } else if c == 'M' {
                return Action::ToggleMerges;
            } else if c == 'A' {
                return Action::ToggleShowAll;
            } else if c == 'k' {
                move_up(state);
            } else if c == 'j' {
                move_down(state, weeks_len);
            } else if c == 'g' {
                jump_first(state);
            } else if c == 'G' {
                jump_last(state, weeks_len);
            }
            Action::Nothing
        },
        Key::F(n) => {
            if n == 1 {
                state.show_help = !state.show_help;
            }
            Action::Nothing
        },
        Key::Enter => {
            if state.view_mode != ViewMode::CommitDetails && state.selected < weeks_len {
                Action::LoadCommitDetails
            } else {
                Action::Nothing
            }
        },
        Key::Tab => {
            state.tab_index = if state.tab_index == usize::MAX {
                (usize::MAX % TAB_COUNT + 1) % TAB_COUNT
            } else {
                (state.tab_index + 1) % TAB_COUNT
            };
            Action::Nothing
        },
        Key::BackTab => {
            state.tab_index = if state.tab_index == 0 {
                DETAILS_TAB
            } else {
                state.tab_index - 1
            };
            Action::Nothing
        },
        Key::Up => {
            move_up(state);
            Action::Nothing
        },
        Key::Down => {
            move_down(state, weeks_len);
            Action::Nothing
        },
        Key::Home => {
            jump_home(state);
            Action::Nothing
        },
        Key::End => {
            jump_end(state, weeks_len);
            Action::Nothing
        },
        Key::PageUp => {
            page_up(state);
            Action::Nothing
        },
        Key::PageDown => {
            page_down(state, weeks_len);
            Action::Nothing
        },
        _ => Action::Nothing,
    }
}

/// Handles a key that was pressed: changes the state and returns what is
/// left for the caller to do.
pub fn handle_key_events(key: Key, state: &mut TuiState, weeks: &[WeekStats]) -> (action: Action)
    ensures
        (final(state)@, action) == old(state)@.key_pressed(key, labels(weeks@)),
{
    if state.show_file_modal {
        if key == Key::Esc {
            state.show_file_modal = false;
        }
        return Action::Nothing;
    }
    if state.search_mode {
        handle_search_input(key, state, weeks);
        return Action::Nothing;
    }
    if state.commit_search_mode {
        handle_commit_search_input(key, state);
        return Action::Nothing;
    }
    if state.path_mode {
        handle_path_input(key, state);
        return if key == Key::Enter {
            Action::ApplyPathFilter
        } else {
            Action::Nothing
        };
    }
    handle_plain_key(key, state, weeks.len())
}

/// Handles what the mouse did: changes the state and returns what is left
/// for the caller to do.
pub fn handle_mouse_event(mouse: MouseInput, state: &mut TuiState, weeks_len: usize) -> (action:
    Action)
    ensures
        (final(state)@, action) == old(state)@.mouse_used(mouse, weeks_len as nat),
{
    match mouse {
        MouseInput::ScrollUp => {
            if state.view_mode == ViewMode::CommitDetails {
                if state.commit_selected > 0 {
                    state.commit_selected -= 1;
                }
            } else if state.selected > 0 {
                let target = state.selected - 1;
                select_period(state, target);
            }
            Action::Nothing
        },
        MouseInput::ScrollDown => {
            if state.view_mode == ViewMode::CommitDetails {
                if state.commit_details.len() > 0 && state.commit_selected
                    < state.commit_details.len() - 1 {
                    state.commit_selected += 1;
                }
            } else if weeks_len > 0 && state.selected < weeks_len - 1 {
                let target = state.selected + 1;
                select_period(state, target);
            }
            Action::Nothing
        },
        MouseInput::LeftDown => {
            if state.view_mode != ViewMode::CommitDetails && state.selected < weeks_len {
                Action::LoadCommitDetails
            } else {
                Action::Nothing
            }
        },
        MouseInput::Other => Action::Nothing,
    }
}

} // verus!
