use gitopo::app::panes::{branch_row_text, commit_row_text, DetailLine};
use gitopo::app::{App, Focus};
use gitopo::events::{AppEvent, KeyCode, KeyEvent, KeyModifiers};
use gitopo::git::load::assemble_repo_data;
use gitopo::git::types::{BranchInfo, CommitId, CommitInfo, RepoData};
use gitopo::graph::render::render_graph_prefix;
use gitopo::ui::theme::Theme;
use std::collections::HashMap;
use std::path::PathBuf;

fn id(n: u8) -> CommitId {
    CommitId { hi: 0, mid: 0, lo: n as u32 }
}

fn commit_at(o: CommitId, parents: Vec<CommitId>, message: &str, time: i64) -> CommitInfo {
    CommitInfo {
        oid: o,
        short_id: format!("c{}", o.lo),
        message: message.to_string(),
        author: "Ann".to_string(),
        time,
        parent_oids: parents,
    }
}

fn branch_at(name: &str, tip: CommitId, is_head: bool) -> BranchInfo {
    BranchInfo {
        name: name.to_string(),
        is_head,
        is_remote: false,
        tip_oid: tip,
        tip_time: 0,
        ahead_behind: None,
        upstream: None,
    }
}

/// main: 4 -> 3 -> 2 -> 1, topic: 2.
fn line_repo() -> RepoData {
    let chain = vec![
        commit_at(id(4), vec![id(3)], "fourth", 400),
        commit_at(id(3), vec![id(2)], "third", 300),
        commit_at(id(2), vec![id(1)], "second", 200),
        commit_at(id(1), vec![], "first", 100),
    ];
    let topo: Vec<CommitId> = chain.iter().map(|c| c.oid).collect();
    let commits: HashMap<CommitId, CommitInfo> = chain.into_iter().map(|c| (c.oid, c)).collect();
    let branches = vec![branch_at("main", id(4), true), branch_at("topic", id(2), false)];
    assemble_repo_data(branches, commits, topo, "/r".to_string())
}

fn line_app() -> App {
    App::new(PathBuf::from("/r"), false, 100, false, line_repo())
}

fn prefix_of(a: &App, o: CommitId) -> String {
    render_graph_prefix(&a.graph_rows[a.graph_index[&o]])
}

#[test]
fn shown_commits_cover_the_viewport() {
    let a = line_app();
    let rows = a.shown_commits(2);
    assert_eq!(rows.len(), 2);
    assert_eq!((rows[0].index, rows[0].oid), (0, id(4)));
    assert_eq!((rows[1].index, rows[1].oid), (1, id(3)));
    assert_eq!(rows[0].prefix, prefix_of(&a, id(4)));
    assert_eq!(rows[0].prefix, "● ");
    // The branch pane has the focus: no row is highlighted.
    assert!(rows.iter().all(|r| !r.selected));
    assert_eq!(a.shown_commits(10).len(), 4);
    assert_eq!(a.shown_commits(0).len(), 0);
}

#[test]
fn shown_commits_follow_offset_and_cursor() {
    let mut a = line_app();
    a.handle_event(AppEvent::Key(KeyEvent::new(KeyCode::Enter, KeyModifiers::none())));
    assert_eq!(a.focus, Focus::CommitGraph);
    a.graph_selected = 2;
    a.graph_offset = 1;
    let rows = a.shown_commits(2);
    let seen: Vec<(usize, CommitId, bool)> = rows.iter().map(|r| (r.index, r.oid, r.selected)).collect();
    assert_eq!(seen, vec![(1, id(3), false), (2, id(2), true)]);
    a.graph_offset = 9;
    assert!(a.shown_commits(5).is_empty());
}

#[test]
fn shown_commits_skip_unloaded_and_fall_back_to_a_node() {
    let mut a = line_app();
    a.repo_data.commits.remove(&id(3));
    a.graph_index.remove(&id(2));
    let rows = a.shown_commits(4);
    let oids: Vec<CommitId> = rows.iter().map(|r| r.oid).collect();
    assert_eq!(oids, vec![id(4), id(2), id(1)]);
    assert_eq!(rows[1].prefix, "● ");
    assert_eq!(rows[2].prefix, prefix_of(&a, id(1)));
}

#[test]
fn detail_lines_describe_the_cursor_commit() {
    let a = line_app();
    let lines = a.detail_lines(460);
    assert_eq!(lines.len(), 8);
    let theme = Theme::color();
    match &lines[0] {
        DetailLine::Field { label, value, color } => {
            assert_eq!(label, "commit  ");
            assert_eq!(value, &format!("{}4", "0".repeat(39)));
            assert_eq!(*color, theme.hash);
        }
        _ => panic!("expected the id field"),
    }
    match &lines[1] {
        DetailLine::Field { label, value, color } => {
            assert_eq!((label.as_str(), value.as_str()), ("author  ", "Ann"));
            assert_eq!(*color, theme.local);
        }
        _ => panic!("expected the author field"),
    }
    match &lines[2] {
        DetailLine::Field { label, value, .. } => {
            assert_eq!((label.as_str(), value.as_str()), ("date    ", "1m ago"));
        }
        _ => panic!("expected the date field"),
    }
    match &lines[3] {
        DetailLine::Field { label, value, .. } => {
            assert_eq!(label, "parents ");
            assert_eq!(value, "0000000");
        }
        _ => panic!("expected the parents field"),
    }
    assert!(matches!(lines[4], DetailLine::Blank));
    match &lines[5] {
        DetailLine::Message(m) => assert_eq!(m, "fourth"),
        _ => panic!("expected the message"),
    }
    assert!(matches!(lines[6], DetailLine::Blank));
    match &lines[7] {
        DetailLine::Labels(l) => assert_eq!(l, &vec!["[main]".to_string()]),
        _ => panic!("expected the labels"),
    }
}

#[test]
fn detail_lines_of_a_root_without_labels() {
    let mut a = line_app();
    a.graph_selected = 3;
    let lines = a.detail_lines(100);
    // No parents field and no labels.
    assert_eq!(lines.len(), 5);
    assert!(matches!(lines[3], DetailLine::Blank));
    a.graph_selected = 7;
    assert!(a.detail_lines(100).is_empty());
}

#[test]
fn commit_row_text_cuts_the_message_to_the_room_left() {
    let c = commit_at(id(4), vec![], "a long commit message", 0);
    let names = vec!["main".to_string(), "dev".to_string(), "x".to_string()];
    // Glyphs 2 + labels 7 + 6 + id 3 + age 8 = 26; 34 columns leave 8.
    let t = commit_row_text("● ", Some(&names), &c, 34, 30);
    assert_eq!(t.labels, vec!["[main] ".to_string(), "[dev] ".to_string()]);
    assert_eq!(t.id, "c4 ");
    assert_eq!(t.message, "a long …");
    assert_eq!(t.age, " 30s ago");
    let bare = commit_row_text("", None, &c, 10, -5);
    assert!(bare.labels.is_empty());
    assert_eq!(bare.message, "");
    assert_eq!(bare.age, " just now");
}

#[test]
fn branch_row_text_marks_head_and_divergence() {
    let theme = Theme::color();
    let mut b = branch_at("feature/payments", id(1), true);
    b.ahead_behind = Some((2, 0));
    b.tip_time = 0;
    let t = branch_row_text(&theme, &b, 20, 7200);
    assert_eq!(t.marker, "* ");
    assert_eq!(t.name, "feature…");
    assert_eq!(t.name_color, theme.head);
    assert!(t.bold);
    assert_eq!(t.divergence, Some((Some("↑2".to_string()), None)));
    assert_eq!(t.age, " 2h ago");
    b.is_head = false;
    b.is_remote = true;
    b.ahead_behind = Some((0, 0));
    let r = branch_row_text(&theme, &b, 40, 0);
    assert_eq!(r.marker, "↑ ");
    assert_eq!(r.name_color, theme.remote);
    assert!(!r.bold);
    assert_eq!(r.divergence, None);
}
