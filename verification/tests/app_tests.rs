use gitopo::app::{App, Effect, Focus, ReloadCause, SearchHighlight};
use gitopo::events::{AppEvent, KeyCode, KeyEvent, KeyModifiers};
use gitopo::git::load::assemble_repo_data;
use gitopo::git::types::{BranchInfo, CommitId, CommitInfo, RepoData};
use gitopo::ui::theme::{Color, Theme};
use std::collections::HashMap;
use std::path::PathBuf;

fn oid(n: u8) -> CommitId {
    CommitId { hi: 0, mid: 0, lo: n as u32 }
}

fn commit(o: CommitId, parents: Vec<CommitId>) -> CommitInfo {
    CommitInfo {
        oid: o,
        short_id: String::new(),
        message: String::new(),
        author: String::new(),
        time: 0,
        parent_oids: parents,
    }
}

fn branch(name: &str, tip: CommitId, is_head: bool, is_remote: bool) -> BranchInfo {
    BranchInfo {
        name: name.to_string(),
        is_head,
        is_remote,
        tip_oid: tip,
        tip_time: 0,
        ahead_behind: None,
        upstream: None,
    }
}

/// main: 4 -> 3 -> 1, feature: 2 -> 1, origin/main: 3.
fn repo() -> RepoData {
    let chain = vec![
        commit(oid(4), vec![oid(3)]),
        commit(oid(3), vec![oid(1)]),
        commit(oid(2), vec![oid(1)]),
        commit(oid(1), vec![]),
    ];
    let topo: Vec<CommitId> = chain.iter().map(|c| c.oid).collect();
    let commits: HashMap<CommitId, CommitInfo> = chain.into_iter().map(|c| (c.oid, c)).collect();
    let branches = vec![
        branch("origin/main", oid(3), false, true),
        branch("feature", oid(2), false, false),
        branch("main", oid(4), true, false),
    ];
    assemble_repo_data(branches, commits, topo, "/work/repo".to_string())
}

fn app() -> App {
    App::new(PathBuf::from("/work/repo"), false, 100, false, repo())
}

fn press(app: &mut App, code: KeyCode) -> Effect {
    app.handle_event(AppEvent::Key(KeyEvent::new(code, KeyModifiers::none())))
}

#[test]
fn starts_on_head_with_its_history() {
    let a = app();
    let names: Vec<&str> = a.repo_data.branches.iter().map(|b| b.name.as_str()).collect();
    assert_eq!(names, vec!["main", "feature", "origin/main"]);
    assert_eq!(a.branch_selected, 0);
    assert_eq!(a.active_branch_oids, vec![oid(4), oid(3), oid(1)]);
    assert_eq!(a.focus, Focus::BranchList);
    assert_eq!(a.graph_rows.len(), 4);
    assert_eq!(a.graph_index.get(&oid(2)), Some(&2));
    assert_eq!(a.theme, Theme::color());
    assert_eq!(a.selected_commit_oid(), Some(oid(4)));
    assert_eq!(a.selected_branch().map(|b| b.name.clone()), Some("main".to_string()));
}

#[test]
fn moving_down_selects_the_next_branch() {
    let mut a = app();
    assert_eq!(press(&mut a, KeyCode::Char('j')), Effect::Continue);
    assert_eq!(a.branch_selected, 1);
    assert_eq!(a.active_branch_oids, vec![oid(2), oid(1)]);
    press(&mut a, KeyCode::Down);
    press(&mut a, KeyCode::Down);
    assert_eq!(a.branch_selected, 2);
    assert_eq!(a.active_branch_oids, vec![oid(3), oid(1)]);
    press(&mut a, KeyCode::Home);
    assert_eq!(a.branch_selected, 0);
    press(&mut a, KeyCode::PageDown);
    assert_eq!(a.branch_selected, 2);
}

#[test]
fn commit_pane_cursor_stays_inside_the_history() {
    let mut a = app();
    press(&mut a, KeyCode::Enter);
    assert_eq!(a.focus, Focus::CommitGraph);
    press(&mut a, KeyCode::End);
    assert_eq!(a.graph_selected, 2);
    assert_eq!(a.selected_commit_oid(), Some(oid(1)));
    press(&mut a, KeyCode::PageUp);
    assert_eq!(a.graph_selected, 0);
    press(&mut a, KeyCode::Esc);
    assert_eq!(a.focus, Focus::BranchList);
}

#[test]
fn search_types_filters_and_enters() {
    let mut a = app();
    press(&mut a, KeyCode::Char('/'));
    assert!(a.search_mode);
    press(&mut a, KeyCode::Char('M'));
    press(&mut a, KeyCode::Char('a'));
    assert_eq!(a.search_query, "Ma");
    assert_eq!(a.search_matches, vec![0, 2]);
    assert_eq!(a.search_highlight(0), Some(SearchHighlight::Active));
    assert_eq!(a.search_highlight(2), Some(SearchHighlight::Match));
    assert_eq!(a.search_highlight(1), None);
    press(&mut a, KeyCode::Backspace);
    assert_eq!(a.search_query, "M");
    press(&mut a, KeyCode::Char('x'));
    assert!(a.search_matches.is_empty());
    press(&mut a, KeyCode::Backspace);
    press(&mut a, KeyCode::Enter);
    assert!(!a.search_mode);
    assert_eq!(a.branch_selected, 0);
}

#[test]
fn search_cursor_wraps_both_ways() {
    let mut a = app();
    press(&mut a, KeyCode::Char('/'));
    press(&mut a, KeyCode::Char('i'));
    press(&mut a, KeyCode::Char('n'));
    assert_eq!(a.search_matches, vec![0, 2]);
    press(&mut a, KeyCode::Enter);
    press(&mut a, KeyCode::Char('n'));
    assert_eq!(a.search_match_idx, 1);
    assert_eq!(a.branch_selected, 2);
    press(&mut a, KeyCode::Char('n'));
    assert_eq!(a.search_match_idx, 0);
    assert_eq!(a.branch_selected, 0);
    press(&mut a, KeyCode::Char('N'));
    assert_eq!(a.search_match_idx, 1);
    assert_eq!(a.branch_selected, 2);
    assert_eq!(a.active_branch_oids, vec![oid(3), oid(1)]);
}

#[test]
fn escape_in_search_drops_the_query() {
    let mut a = app();
    press(&mut a, KeyCode::Char('/'));
    press(&mut a, KeyCode::Char('f'));
    press(&mut a, KeyCode::Esc);
    assert!(!a.search_mode);
    assert!(a.search_query.is_empty());
    assert!(a.search_matches.is_empty());
}

#[test]
fn help_screen_only_closes() {
    let mut a = app();
    press(&mut a, KeyCode::Char('?'));
    assert_eq!(a.focus, Focus::Help);
    press(&mut a, KeyCode::Char('j'));
    assert_eq!(a.branch_selected, 0);
    assert_eq!(a.focus, Focus::Help);
    assert_eq!(press(&mut a, KeyCode::Char('q')), Effect::Continue);
    assert_eq!(a.focus, Focus::BranchList);
}

#[test]
fn quit_refresh_and_toggle_effects() {
    let mut a = app();
    assert_eq!(press(&mut a, KeyCode::Char('r')), Effect::Reload(ReloadCause::Refresh));
    a.finish_reload(repo(), ReloadCause::Refresh);
    assert_eq!(a.status_msg.as_deref(), Some("Refreshed"));
    assert_eq!(press(&mut a, KeyCode::Char('a')), Effect::Reload(ReloadCause::ToggleAll));
    assert!(a.show_all);
    assert_eq!(a.status_msg, None);
    a.finish_reload(repo(), ReloadCause::ToggleAll);
    assert_eq!(a.status_msg.as_deref(), Some("Showing all branches (local + remote)"));
    press(&mut a, KeyCode::Char('a'));
    a.finish_reload(repo(), ReloadCause::ToggleAll);
    assert_eq!(a.status_msg.as_deref(), Some("Showing local branches only"));
    assert_eq!(press(&mut a, KeyCode::Char('q')), Effect::Quit);
    let ctrl_c = KeyEvent::new(KeyCode::Char('c'), KeyModifiers::control());
    assert_eq!(a.handle_event(AppEvent::Key(ctrl_c)), Effect::Quit);
}

#[test]
fn reload_with_fewer_branches_clamps_the_cursor() {
    let mut a = app();
    press(&mut a, KeyCode::End);
    assert_eq!(a.branch_selected, 2);
    a.branch_offset = 2;
    let mut smaller = repo();
    smaller.branches.truncate(1);
    a.reload(smaller);
    assert_eq!(a.branch_selected, 0);
    assert_eq!(a.branch_offset, 0);
    assert_eq!(a.active_branch_oids, vec![oid(4), oid(3), oid(1)]);
    let mut empty = repo();
    empty.branches.clear();
    a.reload(empty);
    assert_eq!(a.branch_selected, 0);
    assert!(a.active_branch_oids.is_empty());
    assert_eq!(a.selected_branch().map(|b| b.name.clone()), None);
}

#[test]
fn tick_changes_nothing() {
    let mut a = app();
    press(&mut a, KeyCode::Char('j'));
    assert_eq!(a.handle_event(AppEvent::Tick), Effect::Continue);
    assert_eq!(a.branch_selected, 1);
}

#[test]
fn scrolling_follows_the_cursor() {
    let mut a = app();
    press(&mut a, KeyCode::End);
    a.scroll_branch_list(2);
    assert_eq!(a.branch_offset, 1);
    a.scroll_branch_list(0);
    assert_eq!(a.branch_offset, 1);
    press(&mut a, KeyCode::Home);
    a.scroll_branch_list(2);
    assert_eq!(a.branch_offset, 0);
    press(&mut a, KeyCode::Enter);
    press(&mut a, KeyCode::End);
    a.scroll_graph(1);
    assert_eq!(a.graph_offset, 2);
}

#[test]
fn no_color_app_uses_the_reset_palette() {
    let a = App::new(PathBuf::from("."), true, 10, true, repo());
    assert_eq!(a.theme.head, Color::Reset);
    assert!(a.show_all);
    assert_eq!(a.max_commits, 10);
}

#[test]
fn every_shown_commit_has_a_graph_row() {
    let mut a = app();
    for _ in 0..3 {
        for oid in &a.active_branch_oids {
            let i = a.graph_index[oid];
            assert_eq!(a.graph_rows[i].oid, *oid);
        }
        press(&mut a, KeyCode::Down);
    }
}
