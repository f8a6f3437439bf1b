use gitopo::git::ancestry::branch_commits;
use gitopo::git::load::{
    assemble_repo_data, author_text, cap_max_commits, index_branch_tips, is_head_branch, short_id_text,
    sort_branches, summary_text, upstream_ref_name,
};
use gitopo::git::oid::oid_prefix;
use gitopo::git::types::{BranchInfo, CommitId, CommitInfo, MAX_COMMITS_CAP};
use std::collections::HashMap;

fn oid(n: u8) -> CommitId {
    CommitId { hi: 0, mid: 0, lo: n as u32 }
}

fn branch(name: &str, tip: CommitId, is_head: bool, is_remote: bool) -> BranchInfo {
    BranchInfo {
        name: name.to_string(),
        is_head,
        is_remote,
        tip_oid: tip,
        tip_time: 0,
        ahead_behind: None,
        upstream: None,
    }
}

fn commit(o: CommitId, parents: Vec<CommitId>) -> CommitInfo {
    CommitInfo {
        oid: o,
        short_id: String::new(),
        message: String::new(),
        author: String::new(),
        time: 0,
        parent_oids: parents,
    }
}

#[test]
fn branches_sort_head_first_then_locals_then_remotes() {
    let mut b = vec![
        branch("origin/zeta", oid(1), false, true),
        branch("zeta", oid(1), false, false),
        branch("origin/alpha", oid(1), false, true),
        branch("topic", oid(1), true, false),
        branch("Alpha", oid(1), false, false),
        branch("alpha", oid(1), false, false),
    ];
    sort_branches(&mut b);
    let names: Vec<&str> = b.iter().map(|x| x.name.as_str()).collect();
    assert_eq!(names, vec!["topic", "Alpha", "alpha", "zeta", "origin/alpha", "origin/zeta"]);
}

#[test]
fn tips_index_every_branch_name() {
    let b = vec![
        branch("main", oid(4), true, false),
        branch("feature", oid(2), false, false),
        branch("origin/main", oid(4), false, true),
    ];
    let m = index_branch_tips(&b);
    assert_eq!(m.len(), 2);
    assert_eq!(m[&oid(4)], vec!["main".to_string(), "origin/main".to_string()]);
    assert_eq!(m[&oid(2)], vec!["feature".to_string()]);
}

#[test]
fn assembled_data_keeps_walk_and_sorts_branches() {
    let mut commits = HashMap::new();
    commits.insert(oid(1), commit(oid(1), vec![]));
    let data = assemble_repo_data(
        vec![branch("b", oid(1), false, false), branch("a", oid(1), false, false)],
        commits,
        vec![oid(1)],
        "/r".to_string(),
    );
    assert_eq!(data.branches[0].name, "a");
    assert_eq!(data.topo_order, vec![oid(1)]);
    assert_eq!(data.oid_to_branches[&oid(1)], vec!["b".to_string(), "a".to_string()]);
    assert_eq!(data.repo_path, "/r");
}

#[test]
fn head_is_matched_by_name_among_locals() {
    assert!(is_head_branch(false, Some("main"), "main"));
    assert!(!is_head_branch(true, Some("main"), "main"));
    assert!(!is_head_branch(false, Some("main"), "mainline"));
    assert!(!is_head_branch(false, None, "main"));
}

#[test]
fn commit_texts() {
    let long: String = std::iter::repeat('x').take(100).collect();
    assert_eq!(summary_text(Some(&long)).chars().count(), 80);
    assert_eq!(summary_text(Some("short")), "short");
    assert_eq!(summary_text(None), "");
    assert_eq!(author_text(Some("Ada")), "Ada");
    assert_eq!(author_text(None), "?");
    let id = CommitId { hi: 0xa3f2_c1d8_b9e1_0000, mid: 0, lo: 0 };
    assert_eq!(short_id_text(None, id), "a3f2c1d");
    assert_eq!(short_id_text(Some(None), id), "???????");
    assert_eq!(short_id_text(Some(Some("a3f2")), id), "a3f2");
    assert_eq!(upstream_ref_name("origin/main"), "refs/remotes/origin/main");
}

#[test]
fn commit_walk_is_capped() {
    assert_eq!(cap_max_commits(200), 200);
    assert_eq!(cap_max_commits(usize::MAX), MAX_COMMITS_CAP);
}

#[test]
fn hex_of_every_word() {
    let id = CommitId { hi: 0x0123_4567_89ab_cdef, mid: 0xfedc_ba98_7654_3210, lo: 0xdead_beef };
    assert_eq!(oid_prefix(id, 40), "0123456789abcdeffedcba9876543210deadbeef");
    assert_eq!(oid_prefix(id, 99), "0123456789abcdeffedcba9876543210deadbeef");
    assert_eq!(oid_prefix(id, 0), "");
}

#[test]
fn branch_history_follows_every_parent() {
    // 6 merges 5 and 4; 4 and 5 both come from 2; 3 is on another branch.
    let chain = vec![
        commit(oid(6), vec![oid(5), oid(4)]),
        commit(oid(3), vec![oid(1)]),
        commit(oid(5), vec![oid(2)]),
        commit(oid(4), vec![oid(2)]),
        commit(oid(2), vec![oid(1)]),
        commit(oid(1), vec![oid(0)]),
    ];
    let topo: Vec<CommitId> = chain.iter().map(|c| c.oid).collect();
    let commits: HashMap<CommitId, CommitInfo> = chain.into_iter().map(|c| (c.oid, c)).collect();
    assert_eq!(branch_commits(&topo, &commits, oid(6)), vec![oid(6), oid(5), oid(4), oid(2), oid(1)]);
    assert_eq!(branch_commits(&topo, &commits, oid(3)), vec![oid(3), oid(1)]);
    // A tip that was not loaded has no history.
    assert_eq!(branch_commits(&topo, &commits, oid(9)), Vec::<CommitId>::new());
}
