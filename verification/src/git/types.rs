//! The records the library works on: commit identities, commits, branches
//! and the loaded repository.

use vstd::prelude::*;
use std::collections::HashMap;

verus! {

/// Loading never walks more commits than this, whatever the caller asks for.
pub const MAX_COMMITS_CAP: usize = 100_000;

/// A 160-bit commit object id, held as three big-endian words: bytes 0..8
/// in `hi`, bytes 8..16 in `mid` and bytes 16..20 in `lo`.
#[derive(Clone, Copy, PartialEq, Eq, Structural, Hash, Debug)]
pub struct CommitId {
    pub hi: u64,
    pub mid: u64,
    pub lo: u32,
}

/// One commit of the walked history.
#[derive(Clone, Debug)]
pub struct CommitInfo {
    pub oid: CommitId,
    pub short_id: String,
    pub message: String,
    pub author: String,
    pub time: i64,
    pub parent_oids: Vec<CommitId>,
}

/// One branch tip.
#[derive(Clone, Debug)]
pub struct BranchInfo {
    pub name: String,
    pub is_head: bool,
    pub is_remote: bool,
    pub tip_oid: CommitId,
    pub tip_time: i64,
    pub ahead_behind: Option<(usize, usize)>,
    pub upstream: Option<String>,
}

/// Everything read from a repository.
#[derive(Debug)]
pub struct RepoData {
    pub branches: Vec<BranchInfo>,
    pub commits: HashMap<CommitId, CommitInfo>,
    pub topo_order: Vec<CommitId>,
    pub oid_to_branches: HashMap<CommitId, Vec<String>>,
    pub repo_path: String,
}

/// The mathematical content of the loaded repository.
pub struct RepoModel {
    pub branches: Seq<BranchInfo>,
    pub commits: Map<CommitId, CommitInfo>,
    pub topo_order: Seq<CommitId>,
    pub oid_to_branches: Map<CommitId, Vec<String>>,
    pub repo_path: Seq<char>,
}

impl View for RepoData {
    type V = RepoModel;

    open spec fn view(&self) -> RepoModel {
        RepoModel {
            branches: self.branches@,
            commits: self.commits@,
            topo_order: self.topo_order@,
            oid_to_branches: self.oid_to_branches@,
            repo_path: self.repo_path@,
        }
    }
}

} // verus!
