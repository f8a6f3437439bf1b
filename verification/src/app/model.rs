//! The mathematical picture of the application state and what each
//! operation does to it.

use vstd::prelude::*;
use std::path::PathBuf;
use crate::app::{lowercased, positions_containing, App, Effect, Focus, ReloadCause};
use crate::strings::lowercase;
use crate::git::types::{BranchInfo, CommitId, RepoModel};
use crate::git::ancestry::branch_history;
use crate::graph::graph_rows;
use crate::graph::types::{GraphRow, RowModel};
use crate::events::{key_action, Action, AppEvent, KeyCode, KeyEvent};
use crate::ui::theme::{color_palette, reset_palette, Theme};

verus! {

/// The mathematical content of the application state.
#[verifier::ext_equal]
pub struct AppModel {
    pub repo_path: PathBuf,
    pub show_all: bool,
    pub max_commits: usize,
    pub theme: Theme,
    pub repo: RepoModel,
    pub graph_rows: Seq<RowModel>,
    pub graph_index: Map<CommitId, usize>,
    pub focus: Focus,
    pub branch_offset: usize,
    pub branch_selected: usize,
    pub graph_offset: usize,
    pub graph_selected: usize,
    pub active_branch_oids: Seq<CommitId>,
    pub search_mode: bool,
    pub search_query: Seq<char>,
    pub search_matches: Seq<usize>,
    pub search_match_idx: usize,
    pub status_msg: Option<Seq<char>>,
}

/// The character view of an optional string.
pub open spec fn opt_text(s: Option<String>) -> Option<Seq<char>> {
    match s {
        Some(t) => Some(t@),
        None => None,
    }
}

/// The models of a list of rows.
pub open spec fn row_models(rows: Seq<GraphRow>) -> Seq<RowModel> {
    rows.map_values(|r: GraphRow| r@)
}

impl View for App {
    type V = AppModel;

    open spec fn view(&self) -> AppModel {
        AppModel {
            repo_path: self.repo_path,
            show_all: self.show_all,
            max_commits: self.max_commits,
            theme: self.theme,
            repo: self.repo_data@,
            graph_rows: row_models(self.graph_rows@),
            graph_index: self.graph_index@,
            focus: self.focus,
            branch_offset: self.branch_offset,
            branch_selected: self.branch_selected,
            graph_offset: self.graph_offset,
            graph_selected: self.graph_selected,
            active_branch_oids: self.active_branch_oids@,
            search_mode: self.search_mode,
            search_query: self.search_query@,
            search_matches: self.search_matches@,
            search_match_idx: self.search_match_idx,
            status_msg: opt_text(self.status_msg),
        }
    }
}

/// Where each commit id last occurs among the rows.
pub open spec fn row_index(rows: Seq<RowModel>) -> Map<CommitId, usize>
    decreases rows.len(),
{
    if rows.len() == 0 {
        Map::empty()
    } else {
        row_index(rows.drop_last()).insert(rows.last().oid, (rows.len() - 1) as usize)
    }
}

/// Selecting branch `idx` shows its history from the top; an index past the
/// end of the branch list shows nothing and keeps the commit cursor.
pub open spec fn select_branch_model(m: AppModel, idx: int) -> AppModel {
    if 0 <= idx < m.repo.branches.len() {
        AppModel {
            active_branch_oids: branch_history(
                m.repo.topo_order,
                m.repo.commits,
                m.repo.branches[idx].tip_oid,
            ),
            graph_selected: 0,
            graph_offset: 0,
            ..m
        }
    } else {
        AppModel { active_branch_oids: Seq::empty(), ..m }
    }
}

/// The state right after start-up on the loaded repository `repo`.
pub open spec fn initial_model(
    repo_path: PathBuf,
    show_all: bool,
    max_commits: usize,
    no_color: bool,
    repo: RepoModel,
) -> AppModel {
    let rows = graph_rows(repo.topo_order, repo.commits);
    select_branch_model(
        AppModel {
            repo_path,
            show_all,
            max_commits,
            theme: if no_color { reset_palette() } else { color_palette() },
            repo,
            graph_rows: rows,
            graph_index: row_index(rows),
            focus: Focus::BranchList,
            branch_offset: 0,
            branch_selected: 0,
            graph_offset: 0,
            graph_selected: 0,
            active_branch_oids: Seq::empty(),
            search_mode: false,
            search_query: Seq::empty(),
            search_matches: Seq::empty(),
            search_match_idx: 0,
            status_msg: None,
        },
        0,
    )
}

/// The state after the repository has been read again as `repo`: rows and
/// index rebuilt, the branch cursor kept where it still fits (else on the
/// last branch), the scroll offset no further down than the cursor, that
/// branch selected, the search cleared, and "Refreshed" reported.
pub open spec fn reload_model(m: AppModel, repo: RepoModel) -> AppModel {
    let rows = graph_rows(repo.topo_order, repo.commits);
    let last: int = if repo.branches.len() > 0 { repo.branches.len() - 1 } else { 0 };
    let sel: int = if m.branch_selected < last { m.branch_selected as int } else { last };
    let off: int = if m.branch_offset < sel { m.branch_offset as int } else { sel };
    let selected = select_branch_model(
        AppModel {
            repo,
            graph_rows: rows,
            graph_index: row_index(rows),
            branch_selected: sel as usize,
            branch_offset: off as usize,
            ..m
        },
        sel,
    );
    AppModel {
        search_query: Seq::empty(),
        search_matches: Seq::empty(),
        status_msg: Some("Refreshed"@),
        ..selected
    }
}

/// The state once a reload has been carried out: after a switch between
/// local and all branches the status line says which are shown.
pub open spec fn finish_reload_model(m: AppModel, repo: RepoModel, cause: ReloadCause) -> AppModel {
    let r = reload_model(m, repo);
    match cause {
        ReloadCause::Refresh => r,
        ReloadCause::ToggleAll => AppModel {
            status_msg: Some(
                if r.show_all {
                    "Showing all branches (local + remote)"@
                } else {
                    "Showing local branches only"@
                },
            ),
            ..r
        },
    }
}

/// `sel + delta` kept within `0 ..= len - 1`.
pub open spec fn clamp_index(sel: int, delta: int, len: int) -> int {
    let t = sel + delta;
    if t < 0 {
        0
    } else if t > len - 1 {
        len - 1
    } else {
        t
    }
}

/// Number of rows in the focused list (the branch list while help shows).
pub open spec fn list_len_model(m: AppModel) -> nat {
    match m.focus {
        Focus::CommitGraph => m.active_branch_oids.len(),
        _ => m.repo.branches.len(),
    }
}

/// Moving the cursor of the focused list by `delta` rows, stopping at either
/// end; moving in the branch list selects the branch reached.
pub open spec fn move_selection_model(m: AppModel, delta: int) -> AppModel {
    match m.focus {
        Focus::BranchList => {
            let len = m.repo.branches.len() as int;
            if len == 0 {
                m
            } else {
                let new = clamp_index(m.branch_selected as int, delta, len);
                if new != m.branch_selected {
                    select_branch_model(AppModel { branch_selected: new as usize, ..m }, new)
                } else {
                    m
                }
            }
        },
        Focus::CommitGraph => {
            let len = m.active_branch_oids.len() as int;
            if len == 0 {
                m
            } else {
                AppModel { graph_selected: clamp_index(m.graph_selected as int, delta, len) as usize, ..m }
            }
        },
        Focus::Help => m,
    }
}

/// Moving the cursor of the focused list to row `idx` (or the last row).
pub open spec fn move_to_model(m: AppModel, idx: int) -> AppModel {
    match m.focus {
        Focus::BranchList => {
            let len = m.repo.branches.len() as int;
            if len == 0 {
                m
            } else {
                let new = if idx < len - 1 { idx } else { len - 1 };
                select_branch_model(AppModel { branch_selected: new as usize, ..m }, new)
            }
        },
        Focus::CommitGraph => {
            let len = m.active_branch_oids.len() as int;
            if len == 0 {
                m
            } else {
                AppModel { graph_selected: (if idx < len - 1 { idx } else { len - 1 }) as usize, ..m }
            }
        },
        Focus::Help => m,
    }
}

/// The names of the branches.
pub open spec fn branch_names(m: AppModel) -> Seq<String> {
    m.repo.branches.map_values(|b: BranchInfo| b.name)
}

/// The search re-run on the current query: the matches are recomputed, the
/// match cursor goes back to the first match, and that branch is selected.
pub open spec fn update_search_model(m: AppModel) -> AppModel {
    let matches = positions_containing(lowercased(branch_names(m)), lowercase(m.search_query));
    let m1 = AppModel { search_matches: matches, search_match_idx: 0, ..m };
    if matches.len() > 0 {
        select_branch_model(AppModel { branch_selected: matches[0], ..m1 }, matches[0] as int)
    } else {
        m1
    }
}

/// Stepping the match cursor by `delta`, wrapping around, and selecting the
/// branch it lands on.
pub open spec fn advance_search_model(m: AppModel, delta: int) -> AppModel {
    let len = m.search_matches.len() as int;
    if len == 0 {
        m
    } else {
        let idx = (m.search_match_idx + delta) % len;
        let b = m.search_matches[idx];
        select_branch_model(AppModel { search_match_idx: idx as usize, branch_selected: b, ..m }, b as int)
    }
}

/// A key typed while the search prompt is open: Esc closes it and drops the
/// query; Enter closes it and selects the first match; Backspace deletes the
/// last character and Char appends one, re-running the search; other keys
/// do nothing.
pub open spec fn search_key_model(m: AppModel, key: KeyEvent) -> AppModel {
    match key.code {
        KeyCode::Esc => AppModel {
            search_mode: false,
            search_query: Seq::empty(),
            search_matches: Seq::empty(),
            ..m
        },
        KeyCode::Enter => {
            let m1 = AppModel { search_mode: false, ..m };
            if m.search_matches.len() > 0 {
                let first = m.search_matches[0];
                select_branch_model(AppModel { branch_selected: first, ..m1 }, first as int)
            } else {
                m1
            }
        },
        KeyCode::Backspace => update_search_model(
            AppModel {
                search_query: if m.search_query.len() > 0 {
                    m.search_query.drop_last()
                } else {
                    m.search_query
                },
                ..m
            },
        ),
        KeyCode::Char(c) => update_search_model(AppModel { search_query: m.search_query.push(c), ..m }),
        _ => m,
    }
}

/// Carrying out an action outside the help screen; the status line is
/// cleared first.
pub open spec fn action_model(m: AppModel, a: Action) -> (AppModel, Effect) {
    let m0 = AppModel { status_msg: None, ..m };
    match a {
        Action::Quit => (m0, Effect::Quit),
        Action::Help => (AppModel { focus: Focus::Help, ..m0 }, Effect::Continue),
        Action::Refresh => (m0, Effect::Reload(ReloadCause::Refresh)),
        Action::ToggleAll => (AppModel { show_all: !m.show_all, ..m0 }, Effect::Reload(ReloadCause::ToggleAll)),
        Action::Search => (
            AppModel { search_mode: true, search_query: Seq::empty(), search_matches: Seq::empty(), ..m0 },
            Effect::Continue,
        ),
        Action::SearchNext => (advance_search_model(m0, 1), Effect::Continue),
        Action::SearchPrev => (advance_search_model(m0, -1), Effect::Continue),
        Action::ClearSearch => (
            AppModel { search_query: Seq::empty(), search_matches: Seq::empty(), ..m0 },
            Effect::Continue,
        ),
        Action::Escape => (
            if m.focus == Focus::CommitGraph {
                AppModel { focus: Focus::BranchList, ..m0 }
            } else {
                AppModel { search_query: Seq::empty(), search_matches: Seq::empty(), ..m0 }
            },
            Effect::Continue,
        ),
        Action::SelectBranch | Action::Enter => (
            if m.focus == Focus::BranchList {
                AppModel { focus: Focus::CommitGraph, ..m0 }
            } else {
                m0
            },
            Effect::Continue,
        ),
        Action::MoveUp => (move_selection_model(m0, -1), Effect::Continue),
        Action::MoveDown => (move_selection_model(m0, 1), Effect::Continue),
        Action::PageUp => (move_selection_model(m0, -10), Effect::Continue),
        Action::PageDown => (move_selection_model(m0, 10), Effect::Continue),
        Action::Top => (move_to_model(m0, 0), Effect::Continue),
        Action::Bottom => (
            if list_len_model(m0) > 0 {
                move_to_model(m0, list_len_model(m0) - 1)
            } else {
                m0
            },
            Effect::Continue,
        ),
        Action::Char(_) | Action::Backspace => (m0, Effect::Continue),
    }
}

/// Reacting to an event: ticks change nothing; while the search prompt is
/// open keys edit it; on the help screen Esc, `?` and `q` return to the
/// branch list and every other key is ignored; otherwise the key's action is
/// carried out.
pub open spec fn event_model(m: AppModel, e: AppEvent) -> (AppModel, Effect) {
    match e {
        AppEvent::Tick => (m, Effect::Continue),
        AppEvent::Key(k) => {
            if m.search_mode {
                (search_key_model(m, k), Effect::Continue)
            } else {
                match key_action(k) {
                    None => (m, Effect::Continue),
                    Some(a) => {
                        if m.focus == Focus::Help {
                            if a == Action::Escape || a == Action::Help || a == Action::Quit {
                                (AppModel { focus: Focus::BranchList, ..m }, Effect::Continue)
                            } else {
                                (m, Effect::Continue)
                            }
                        } else {
                            action_model(m, a)
                        }
                    },
                }
            }
        },
    }
}

} // verus!
