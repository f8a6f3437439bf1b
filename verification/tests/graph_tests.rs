use gitopo::git::types::{CommitId, CommitInfo};
use gitopo::graph::build_graph;
use gitopo::graph::render::{classify_glyph, render_graph_prefix, GlyphKind};
use gitopo::graph::types::{Connector, GraphRow};
use std::collections::HashMap;

fn oid(n: u8) -> CommitId {
    CommitId { hi: 0, mid: 0, lo: n as u32 }
}

fn commit(o: CommitId, parents: Vec<CommitId>) -> CommitInfo {
    CommitInfo {
        oid: o,
        short_id: String::new(),
        message: String::new(),
        author: String::new(),
        time: 0,
        parent_oids: parents,
    }
}

fn graph_for(chain: Vec<CommitInfo>) -> Vec<GraphRow> {
    let topo: Vec<CommitId> = chain.iter().map(|c| c.oid).collect();
    let commits: HashMap<CommitId, CommitInfo> = chain.into_iter().map(|c| (c.oid, c)).collect();
    build_graph(&topo, &commits, &HashMap::new())
}

#[test]
fn empty_history_yields_no_rows() {
    assert!(graph_for(Vec::new()).is_empty());
}

#[test]
fn linear_history_stays_in_one_lane() {
    let rows = graph_for(vec![
        commit(oid(3), vec![oid(2)]),
        commit(oid(2), vec![oid(1)]),
        commit(oid(1), vec![]),
    ]);
    assert_eq!(rows.len(), 3);
    for row in &rows {
        assert_eq!(row.col, 0);
        assert_eq!(row.num_cols, 1);
    }
}

#[test]
fn merge_opens_a_second_lane() {
    let rows = graph_for(vec![
        commit(oid(4), vec![oid(3), oid(2)]),
        commit(oid(3), vec![oid(1)]),
        commit(oid(2), vec![oid(1)]),
        commit(oid(1), vec![]),
    ]);
    assert_eq!(rows.len(), 4);
    assert_eq!(rows[0].col, 0);
    assert_eq!(rows[1].col, 0);
    assert_eq!(rows[2].col, 1);
    assert_eq!(rows[3].col, 0);
}

#[test]
fn converging_lanes_collapse_at_shared_ancestor() {
    let rows = graph_for(vec![
        commit(oid(4), vec![oid(3), oid(2)]),
        commit(oid(3), vec![oid(1)]),
        commit(oid(2), vec![oid(1)]),
        commit(oid(1), vec![]),
    ]);
    let root_row = &rows[3];
    assert_eq!(root_row.num_cols, 1, "stale duplicate lane survived");
    assert!(root_row.connectors.iter().skip(1).all(|c| *c == Connector::Empty));
}

#[test]
fn render_prefix_marks_commit_and_connectors() {
    let row = GraphRow {
        oid: oid(1),
        col: 0,
        num_cols: 2,
        connectors: vec![Connector::Vertical, Connector::Vertical],
    };
    assert_eq!(render_graph_prefix(&row), "● │ ");
}

#[test]
fn classify_glyph_buckets_node_line_and_other() {
    assert_eq!(classify_glyph('●'), GlyphKind::Node);
    assert_eq!(classify_glyph('│'), GlyphKind::Line);
    assert_eq!(classify_glyph('╭'), GlyphKind::Line);
    assert_eq!(classify_glyph('─'), GlyphKind::Line);
    assert_eq!(classify_glyph(' '), GlyphKind::Other);
    assert_eq!(classify_glyph('x'), GlyphKind::Other);
}

#[test]
fn missing_commits_are_passed_over() {
    let topo = vec![oid(3), oid(9), oid(1)];
    let mut commits = HashMap::new();
    commits.insert(oid(3), commit(oid(3), vec![oid(1)]));
    commits.insert(oid(1), commit(oid(1), vec![]));
    let rows = build_graph(&topo, &commits, &HashMap::new());
    assert_eq!(rows.len(), 2);
    assert_eq!(rows[0].oid, oid(3));
    assert_eq!(rows[1].oid, oid(1));
}

#[test]
fn merge_rows_have_lines_in_open_lanes() {
    let rows = graph_for(vec![
        commit(oid(4), vec![oid(3), oid(2)]),
        commit(oid(3), vec![oid(1)]),
        commit(oid(2), vec![oid(1)]),
        commit(oid(1), vec![]),
    ]);
    // Below commit 3 the lane waiting for 2 is still open.
    assert_eq!(rows[1].num_cols, 2);
    assert_eq!(rows[1].connectors, vec![Connector::Vertical, Connector::Vertical]);
    assert_eq!(render_graph_prefix(&rows[1]), "● │ ");
    assert_eq!(render_graph_prefix(&rows[2]), "│ ● ");
    // The root has no parent line below it.
    assert_eq!(rows[3].connectors[0], Connector::Empty);
    assert_eq!(render_graph_prefix(&rows[3]), "● ");
}

#[test]
fn every_row_keeps_its_commit_inside_the_columns() {
    let rows = graph_for(vec![
        commit(oid(6), vec![oid(5), oid(4), oid(3)]),
        commit(oid(5), vec![oid(2)]),
        commit(oid(4), vec![oid(2)]),
        commit(oid(3), vec![oid(1)]),
        commit(oid(2), vec![oid(1)]),
        commit(oid(1), vec![]),
    ]);
    for row in &rows {
        assert!(row.col < row.num_cols);
        assert!(row.num_cols <= row.connectors.len());
    }
    // Counted before the merge opens its lanes, so the lanes show one row later.
    assert_eq!(rows[0].num_cols, 1);
    assert_eq!(rows[1].num_cols, 3);
}

#[test]
fn a_root_frees_its_lane_for_the_next_history() {
    // Two unrelated roots: the first frees lane 0, the second takes it.
    let rows = graph_for(vec![commit(oid(2), vec![]), commit(oid(1), vec![])]);
    assert_eq!(rows[0].col, 0);
    assert_eq!(rows[1].col, 0);
    assert_eq!(rows[1].num_cols, 1);
}

#[test]
fn prefix_has_two_characters_per_column() {
    let row = GraphRow { oid: oid(1), col: 3, num_cols: 2, connectors: vec![Connector::Vertical] };
    let text = render_graph_prefix(&row);
    assert_eq!(text.chars().count(), 8);
    assert_eq!(text, "│     ● ");
    assert_eq!(gitopo::graph::render::render_connector_prefix(&row), "│       ");
}

#[test]
fn every_parent_of_a_merge_gets_a_lane() {
    let rows = graph_for(vec![
        commit(oid(9), vec![oid(8), oid(7), oid(6)]),
        commit(oid(8), vec![]),
        commit(oid(7), vec![]),
        commit(oid(6), vec![]),
    ]);
    assert_eq!(rows[1].col, 0);
    assert_eq!(rows[2].col, 1);
    assert_eq!(rows[3].col, 2);
}
