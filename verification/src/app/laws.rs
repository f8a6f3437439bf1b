//! What every event keeps true of the application state.

use vstd::prelude::*;
use std::path::PathBuf;
use crate::app::{law_matches_are_ordered_positions, lowercased, positions_containing, visible_offset, Focus, ReloadCause};
use crate::app::model::{
    action_model, branch_names, clamp_index, event_model, finish_reload_model, initial_model, list_len_model,
    row_index, select_branch_model, update_search_model, AppModel,
};
use crate::strings::lowercase;
use crate::git::types::{CommitId, RepoModel};
use crate::git::ancestry::branch_history;
use crate::graph::graph_rows;
use crate::graph::types::RowModel;
use crate::events::{key_action, Action, AppEvent, KeyCode};

verus! {

/// The cursors point at something: the branch cursor at a branch when
/// there are branches and at the top when there are none, the branch list
/// scrolled no further than its last branch, every search match at a
/// branch, the match cursor at a match when there are matches, and the
/// commit cursor at a commit of the shown history when it is not empty.
pub open spec fn cursors_in_range(m: AppModel) -> bool {
    &&& m.repo.branches.len() <= usize::MAX
    &&& m.repo.branches.len() > 0 ==> m.branch_selected < m.repo.branches.len()
    &&& m.repo.branches.len() == 0 ==> m.branch_selected == 0
    &&& m.branch_offset <= (if m.repo.branches.len() > 0 { m.repo.branches.len() - 1 } else { 0 })
    &&& forall|k: int| 0 <= k < m.search_matches.len() ==> #[trigger] m.search_matches[k] < m.repo.branches.len()
    &&& m.search_matches.len() > 0 ==> m.search_match_idx < m.search_matches.len()
    &&& m.active_branch_oids.len() > 0 ==> m.graph_selected < m.active_branch_oids.len()
}

proof fn lemma_select_keeps_cursors(m: AppModel, idx: int)
    requires
        cursors_in_range(m),
        m.repo.branches.len() > 0 ==> 0 <= idx < m.repo.branches.len() && m.branch_selected == idx,
    ensures
        cursors_in_range(select_branch_model(m, idx)),
{
}

proof fn lemma_update_search_keeps_cursors(m: AppModel)
    requires
        cursors_in_range(m),
    ensures
        cursors_in_range(update_search_model(m)),
{
    let texts = lowercased(branch_names(m));
    let matches = positions_containing(texts, lowercase(m.search_query));
    law_matches_are_ordered_positions(texts, lowercase(m.search_query));
    let m1 = AppModel { search_matches: matches, search_match_idx: 0, ..m };
    if matches.len() > 0 {
        assert(0 <= matches[0] < texts.len());
        lemma_select_keeps_cursors(AppModel { branch_selected: matches[0], ..m1 }, matches[0] as int);
    }
}

/// Every event keeps the cursors in range: the branch cursor stays on a
/// branch, the search matches name branches, and the commit cursor stays on
/// a commit of the shown history.
pub proof fn law_events_keep_cursors_in_range(m: AppModel, e: AppEvent)
    requires
        cursors_in_range(m),
    ensures
        cursors_in_range(event_model(m, e).0),
{
    match e {
        AppEvent::Tick => {},
        AppEvent::Key(k) => {
            if m.search_mode {
                match k.code {
                    KeyCode::Enter => {
                        if m.search_matches.len() > 0 {
                            let m1 = AppModel { search_mode: false, ..m };
                            let first = m.search_matches[0];
                            lemma_select_keeps_cursors(AppModel { branch_selected: first, ..m1 }, first as int);
                        }
                    },
                    KeyCode::Backspace => {
                        lemma_update_search_keeps_cursors(AppModel {
                            search_query: if m.search_query.len() > 0 {
                                m.search_query.drop_last()
                            } else {
                                m.search_query
                            },
                            ..m
                        });
                    },
                    KeyCode::Char(c) => {
                        lemma_update_search_keeps_cursors(AppModel { search_query: m.search_query.push(c), ..m });
                    },
                    _ => {},
                }
            } else {
                match key_action(k) {
                    None => {},
                    Some(a) => {
                        if m.focus != Focus::Help {
                            law_actions_keep_cursors_in_range(m, a);
                        }
                    },
                }
            }
        },
    }
}

/// Every action keeps the cursors in range.
pub proof fn law_actions_keep_cursors_in_range(m: AppModel, a: Action)
    requires
        cursors_in_range(m),
    ensures
        cursors_in_range(action_model(m, a).0),
{
    let m0 = AppModel { status_msg: None, ..m };
    assert(cursors_in_range(m0));
    match a {
        Action::SearchNext | Action::SearchPrev => {
            let d: int = if a == Action::SearchNext { 1 } else { -1 };
            let len = m0.search_matches.len() as int;
            if len > 0 {
                let idx = (m0.search_match_idx + d) % len;
                let b = m0.search_matches[idx];
                assert(0 <= idx < len);
                lemma_select_keeps_cursors(AppModel { search_match_idx: idx as usize, branch_selected: b, ..m0 }, b as int);
            }
        },
        Action::MoveUp | Action::MoveDown | Action::PageUp | Action::PageDown => {
            let d: int = if a == Action::MoveUp { -1 } else if a == Action::MoveDown { 1 } else if a == Action::PageUp { -10 } else { 10 };
            if m0.focus == Focus::BranchList && m0.repo.branches.len() > 0 {
                let new = clamp_index(m0.branch_selected as int, d, m0.repo.branches.len() as int);
                if new != m0.branch_selected {
                    lemma_select_keeps_cursors(AppModel { branch_selected: new as usize, ..m0 }, new);
                }
            }
        },
        Action::Top | Action::Bottom => {
            let idx: int = if a == Action::Top { 0 } else { list_len_model(m0) - 1 };
            if m0.focus == Focus::BranchList && m0.repo.branches.len() > 0 {
                let len = m0.repo.branches.len() as int;
                let new = if idx < len - 1 { idx } else { len - 1 };
                lemma_select_keeps_cursors(AppModel { branch_selected: new as usize, ..m0 }, new);
            }
        },
        _ => {},
    }
}

/// Scrolling either list to keep its cursor in view keeps the cursors in
/// range.
pub proof fn law_scrolling_keeps_cursors_in_range(m: AppModel, viewport_height: usize)
    requires
        cursors_in_range(m),
    ensures
        cursors_in_range(AppModel {
            branch_offset: visible_offset(m.branch_offset, m.branch_selected, viewport_height),
            ..m
        }),
        cursors_in_range(AppModel {
            graph_offset: visible_offset(m.graph_offset, m.graph_selected, viewport_height),
            ..m
        }),
{
}

/// The start-up state has its cursors in range.
pub proof fn law_initial_cursors_in_range(
    repo_path: PathBuf,
    show_all: bool,
    max_commits: usize,
    no_color: bool,
    repo: RepoModel,
)
    requires
        repo.branches.len() <= usize::MAX,
    ensures
        cursors_in_range(initial_model(repo_path, show_all, max_commits, no_color, repo)),
{
}

/// Reading the repository again keeps the cursors in range, whatever it
/// now holds.
pub proof fn law_reload_keeps_cursors_in_range(m: AppModel, repo: RepoModel, cause: ReloadCause)
    requires
        cursors_in_range(m),
        repo.branches.len() <= usize::MAX,
    ensures
        cursors_in_range(finish_reload_model(m, repo, cause)),
{
}

/// The rows and their index are those of the loaded repository, and the
/// shown history consists of loaded commits of the walk.
pub open spec fn rows_match_repo(m: AppModel) -> bool {
    &&& m.graph_rows == graph_rows(m.repo.topo_order, m.repo.commits)
    &&& m.graph_index == row_index(m.graph_rows)
    &&& forall|k: int|
        0 <= k < m.active_branch_oids.len() ==> m.repo.commits.contains_key(#[trigger] m.active_branch_oids[k])
            && m.repo.topo_order.contains(m.active_branch_oids[k])
}

/// The index maps every commit id of the rows to a row holding it.
proof fn lemma_row_index(rows: Seq<RowModel>, o: CommitId)
    requires
        exists|i: int| 0 <= i < rows.len() && rows[i].oid == o,
        rows.len() <= usize::MAX + 1,
    ensures
        row_index(rows).contains_key(o),
        row_index(rows)[o] < rows.len(),
        rows[row_index(rows)[o] as int].oid == o,
    decreases rows.len(),
{
    if rows.last().oid != o {
        let i = choose|i: int| 0 <= i < rows.len() && rows[i].oid == o;
        assert(rows.drop_last()[i] == rows[i]);
        lemma_row_index(rows.drop_last(), o);
        assert(rows[row_index(rows)[o] as int] == rows.drop_last()[row_index(rows)[o] as int]);
    }
}

/// A shown history consists of loaded commits of the walk.
proof fn lemma_history_in_repo(repo: RepoModel, tip: CommitId)
    ensures
        forall|k: int|
            0 <= k < branch_history(repo.topo_order, repo.commits, tip).len() ==> repo.commits.contains_key(
                #[trigger] branch_history(repo.topo_order, repo.commits, tip)[k],
            ) && repo.topo_order.contains(branch_history(repo.topo_order, repo.commits, tip)[k]),
{
    let pred = |o: CommitId| crate::git::ancestry::reachable_from(repo.commits, tip, o);
    let h = repo.topo_order.filter(pred);
    assert forall|k: int| 0 <= k < h.len() implies repo.commits.contains_key(#[trigger] h[k])
        && repo.topo_order.contains(h[k]) by {
        repo.topo_order.lemma_filter_pred(pred, k);
        let path = choose|path: Seq<CommitId>|
            #![trigger crate::git::ancestry::is_ancestry_path(repo.commits, path), path.last()]
            crate::git::ancestry::is_ancestry_path(repo.commits, path) && path[0] == tip && path.last() == h[k];
        assert(repo.commits.contains_key(path[path.len() - 1]));
        assert(h.contains(h[k]));
        repo.topo_order.lemma_filter_contains_rev(pred, h[k]);
    }
}

/// Every commit shown in the commit pane has a graph row, found through the
/// index: the pane never has to draw a commit without its place in the
/// graph.
pub proof fn law_shown_commits_have_rows(m: AppModel)
    requires
        rows_match_repo(m),
        m.repo.topo_order.len() <= usize::MAX,
    ensures
        forall|k: int|
            0 <= k < m.active_branch_oids.len() ==> {
                let o = #[trigger] m.active_branch_oids[k];
                &&& m.graph_index.contains_key(o)
                &&& m.graph_index[o] < m.graph_rows.len()
                &&& m.graph_rows[m.graph_index[o] as int].oid == o
            },
{
    let topo = m.repo.topo_order;
    let commits = m.repo.commits;
    let pred = |o: CommitId| commits.contains_key(o);
    crate::graph::law_rows_follow_history(topo, commits);
    topo.lemma_filter_len(pred);
    assert forall|k: int| 0 <= k < m.active_branch_oids.len() implies {
        let o = #[trigger] m.active_branch_oids[k];
        &&& m.graph_index.contains_key(o)
        &&& m.graph_index[o] < m.graph_rows.len()
        &&& m.graph_rows[m.graph_index[o] as int].oid == o
    } by {
        let o = m.active_branch_oids[k];
        let j = choose|j: int| 0 <= j < topo.len() && topo[j] == o;
        topo.lemma_filter_contains(pred, j);
        let f = topo.filter(pred);
        let i = choose|i: int| 0 <= i < f.len() && f[i] == o;
        assert(m.graph_rows.map_values(|r: RowModel| r.oid)[i] == o);
        assert(m.graph_rows[i].oid == o);
        lemma_row_index(m.graph_rows, o);
    }
}

/// Every event keeps the rows, the index and the shown history in step
/// with the loaded repository.
pub proof fn law_events_keep_rows_matching(m: AppModel, e: AppEvent)
    requires
        rows_match_repo(m),
    ensures
        rows_match_repo(event_model(m, e).0),
{
    lemma_history_all(m.repo);
}

/// Every selectable history consists of loaded commits of the walk.
proof fn lemma_history_all(repo: RepoModel)
    ensures
        forall|tip: CommitId, k: int|
            0 <= k < branch_history(repo.topo_order, repo.commits, tip).len() ==> repo.commits.contains_key(
                #[trigger] branch_history(repo.topo_order, repo.commits, tip)[k],
            ) && repo.topo_order.contains(branch_history(repo.topo_order, repo.commits, tip)[k]),
{
    assert forall|tip: CommitId, k: int|
        0 <= k < branch_history(repo.topo_order, repo.commits, tip).len() implies repo.commits.contains_key(
            #[trigger] branch_history(repo.topo_order, repo.commits, tip)[k],
        ) && repo.topo_order.contains(branch_history(repo.topo_order, repo.commits, tip)[k]) by {
        lemma_history_in_repo(repo, tip);
    }
}

/// The start-up state has its rows, index and history in step with the
/// repository.
pub proof fn law_initial_rows_match(
    repo_path: PathBuf,
    show_all: bool,
    max_commits: usize,
    no_color: bool,
    repo: RepoModel,
)
    ensures
        rows_match_repo(initial_model(repo_path, show_all, max_commits, no_color, repo)),
{
    lemma_history_all(repo);
}

/// After reading the repository again the rows, index and history are in
/// step with what was read.
pub proof fn law_reload_rows_match(m: AppModel, repo: RepoModel, cause: ReloadCause)
    ensures
        rows_match_repo(finish_reload_model(m, repo, cause)),
{
    lemma_history_all(repo);
}

/// One step forwards or backwards around `len` positions.
proof fn lemma_wrap_step(i: int, len: int)
    requires
        0 <= i < len,
    ensures
        (i + 1) % len == (if i + 1 < len { i + 1 } else { 0 }),
        (i - 1) % len == (i + len - 1) % len,
        (i - 1) % len == (if i > 0 { i - 1 } else { len - 1 }),
{
    if i + 1 < len {
        vstd::arithmetic::div_mod::lemma_fundamental_div_mod_converse(i + 1, len, 0, i + 1);
    } else {
        vstd::arithmetic::div_mod::lemma_fundamental_div_mod_converse(i + 1, len, 1, 0);
    }
    if i > 0 {
        vstd::arithmetic::div_mod::lemma_fundamental_div_mod_converse(i - 1, len, 0, i - 1);
        vstd::arithmetic::div_mod::lemma_fundamental_div_mod_converse(i + len - 1, len, 1, i - 1);
    } else {
        vstd::arithmetic::div_mod::lemma_fundamental_div_mod_converse(i - 1, len, -1, len - 1);
        vstd::arithmetic::div_mod::lemma_fundamental_div_mod_converse(i + len - 1, len, 0, len - 1);
    }
}

/// The history shown for branch `b` of the loaded repository.
pub open spec fn history_of(m: AppModel, b: int) -> Seq<CommitId> {
    branch_history(m.repo.topo_order, m.repo.commits, m.repo.branches[b].tip_oid)
}

/// `n` moves the match cursor to the next match and `N` to the previous
/// one, each wrapping around at the ends; the branch of the match reached
/// is put under the branch cursor and its history shown. So `n` followed by
/// `N` comes back to the match it started from.
pub proof fn law_search_steps_through_matches(m: AppModel)
    requires
        cursors_in_range(m),
        0 < m.search_matches.len() <= usize::MAX,
    ensures
        ({
            let len = m.search_matches.len() as int;
            let idx = m.search_match_idx as int;
            let next = action_model(m, Action::SearchNext).0;
            let prev = action_model(m, Action::SearchPrev).0;
            &&& next.search_match_idx == (idx + 1) % len
            &&& prev.search_match_idx == (idx + len - 1) % len
            &&& next.branch_selected == m.search_matches[next.search_match_idx as int]
            &&& prev.branch_selected == m.search_matches[prev.search_match_idx as int]
            &&& next.active_branch_oids == history_of(m, next.branch_selected as int)
            &&& prev.active_branch_oids == history_of(m, prev.branch_selected as int)
            &&& action_model(next, Action::SearchPrev).0.search_match_idx == idx
            &&& action_model(next, Action::SearchPrev).0.branch_selected == m.search_matches[idx]
        }),
{
    let len = m.search_matches.len() as int;
    let idx = m.search_match_idx as int;
    lemma_wrap_step(idx, len);
    let next = action_model(m, Action::SearchNext).0;
    let j = next.search_match_idx as int;
    assert(j == (idx + 1) % len);
    assert(0 <= j < len);
    lemma_wrap_step(j, len);
    assert(m.search_matches[j] < m.repo.branches.len());
    assert(m.search_matches[(idx + len - 1) % len] < m.repo.branches.len());
    assert((j - 1) % len == idx);
}

/// In the focused list Up moves the cursor one row up and Down one row
/// down, stopping at the ends; a page moves ten rows; in the branch list the
/// history of the branch reached is shown.
pub proof fn law_up_and_down_move_by_one(m: AppModel)
    requires
        cursors_in_range(m),
        m.active_branch_oids.len() <= usize::MAX,
    ensures
        ({
            let up = action_model(m, Action::MoveUp).0;
            let down = action_model(m, Action::MoveDown).0;
            let page_up = action_model(m, Action::PageUp).0;
            let page_down = action_model(m, Action::PageDown).0;
            let s = m.branch_selected as int;
            let len = m.repo.branches.len() as int;
            m.focus == Focus::BranchList && len > 0 ==> {
                &&& up.branch_selected == (if s > 0 { s - 1 } else { 0 })
                &&& down.branch_selected == (if s + 1 < len { s + 1 } else { s })
                &&& page_up.branch_selected == (if s >= 10 { s - 10 } else { 0 })
                &&& page_down.branch_selected == (if s + 10 < len { s + 10 } else { len - 1 })
                &&& s > 0 ==> up.active_branch_oids == history_of(m, s - 1)
                &&& s + 1 < len ==> down.active_branch_oids == history_of(m, s + 1)
            }
        }),
        ({
            let up = action_model(m, Action::MoveUp).0;
            let down = action_model(m, Action::MoveDown).0;
            let g = m.graph_selected as int;
            let len = m.active_branch_oids.len() as int;
            m.focus == Focus::CommitGraph && len > 0 ==> {
                &&& up.graph_selected == (if g > 0 { g - 1 } else { 0 })
                &&& down.graph_selected == (if g + 1 < len { g + 1 } else { g })
                &&& up.active_branch_oids == m.active_branch_oids
                &&& up.branch_selected == m.branch_selected
            }
        }),
{
}

/// The commit pane shows the history of the branch under the branch cursor
/// whenever there are branches.
pub open spec fn history_follows_cursor(m: AppModel) -> bool {
    m.repo.branches.len() > 0 ==> m.active_branch_oids == history_of(m, m.branch_selected as int)
}

/// The start-up state shows the history of the branch under the cursor.
pub proof fn law_initial_history_follows_cursor(
    repo_path: PathBuf,
    show_all: bool,
    max_commits: usize,
    no_color: bool,
    repo: RepoModel,
)
    ensures
        history_follows_cursor(initial_model(repo_path, show_all, max_commits, no_color, repo)),
{
}

/// Reading the repository again keeps the branch cursor where it was (or
/// on the last branch when there are now fewer) and shows the history of
/// the branch under it, as read now.
pub proof fn law_reload_keeps_cursor_and_its_history(m: AppModel, repo: RepoModel, cause: ReloadCause)
    requires
        cursors_in_range(m),
    ensures
        ({
            let r = finish_reload_model(m, repo, cause);
            repo.branches.len() > 0 ==> {
                &&& r.branch_selected == (if m.branch_selected < repo.branches.len() {
                    m.branch_selected as int
                } else {
                    repo.branches.len() - 1
                })
                &&& r.repo == repo
                &&& history_follows_cursor(r)
            }
        }),
{
}

/// Every event keeps the commit pane on the history of the branch under
/// the branch cursor.
pub proof fn law_events_keep_history_on_cursor(m: AppModel, e: AppEvent)
    requires
        cursors_in_range(m),
        history_follows_cursor(m),
    ensures
        history_follows_cursor(event_model(m, e).0),
{
    match e {
        AppEvent::Tick => {},
        AppEvent::Key(k) => {
            if m.search_mode {
                match k.code {
                    KeyCode::Enter => {
                        if m.search_matches.len() > 0 {
                            assert(m.search_matches[0] < m.repo.branches.len());
                        }
                    },
                    KeyCode::Backspace => {
                        lemma_update_search_keeps_history(AppModel {
                            search_query: if m.search_query.len() > 0 {
                                m.search_query.drop_last()
                            } else {
                                m.search_query
                            },
                            ..m
                        });
                    },
                    KeyCode::Char(c) => {
                        lemma_update_search_keeps_history(AppModel { search_query: m.search_query.push(c), ..m });
                    },
                    _ => {},
                }
            } else {
                match key_action(k) {
                    None => {},
                    Some(a) => {
                        if m.focus != Focus::Help {
                            lemma_action_keeps_history(m, a);
                        }
                    },
                }
            }
        },
    }
}

proof fn lemma_update_search_keeps_history(m: AppModel)
    requires
        cursors_in_range(m),
        history_follows_cursor(m),
    ensures
        history_follows_cursor(update_search_model(m)),
{
    let texts = lowercased(branch_names(m));
    let matches = positions_containing(texts, lowercase(m.search_query));
    law_matches_are_ordered_positions(texts, lowercase(m.search_query));
    if matches.len() > 0 {
        assert(0 <= matches[0] < texts.len());
    }
}

proof fn lemma_action_keeps_history(m: AppModel, a: Action)
    requires
        cursors_in_range(m),
        history_follows_cursor(m),
    ensures
        history_follows_cursor(action_model(m, a).0),
{
    let m0 = AppModel { status_msg: None, ..m };
    match a {
        Action::SearchNext | Action::SearchPrev => {
            let len = m0.search_matches.len() as int;
            if len > 0 {
                let d: int = if a == Action::SearchNext { 1 } else { -1 };
                let idx = (m0.search_match_idx + d) % len;
                assert(0 <= idx < len);
                assert(m0.search_matches[idx] < m0.repo.branches.len());
            }
        },
        _ => {},
    }
}

} // verus!
