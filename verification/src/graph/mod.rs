//! Commit-graph layout: which lane each commit is drawn in and which lines
//! run below it.

pub mod types;
pub mod lanes;
pub mod render;

use vstd::prelude::*;
use std::collections::HashMap;
use crate::git::types::{CommitId, CommitInfo};
use crate::graph::types::{Connector, GraphRow, RowModel};
use crate::graph::lanes::{
    lemma_count_active_bound, active_lane_count, assigned_lane, build_connectors, connectors_for, count_active,
    find_or_assign_lane, lanes_after_assign, lanes_after_update, update_lanes,
};
use crate::idmap::id_map_get;

verus! {

/// The row drawn for commit `c` (with id `oid`) when the lanes before it
/// are `lanes`, together with the lanes after it.
pub open spec fn graph_step(lanes: Seq<Option<CommitId>>, oid: CommitId, c: CommitInfo) -> (RowModel, Seq<Option<CommitId>>) {
    let col = assigned_lane(lanes, oid);
    let placed = lanes_after_assign(lanes, oid);
    let n = count_active(placed);
    let row = RowModel {
        oid,
        col: col as nat,
        num_cols: if n > col + 1 { n } else { (col + 1) as nat },
        connectors: connectors_for(placed, col, c.parent_oids@.len() > 0),
    };
    (row, lanes_after_update(placed, col, c.parent_oids@))
}

/// The rows drawn for the history `topo` (newest first) and the lanes left
/// open after it; ids that `commits` does not hold are passed over.
pub open spec fn graph_state(topo: Seq<CommitId>, commits: Map<CommitId, CommitInfo>) -> (Seq<RowModel>, Seq<Option<CommitId>>)
    decreases topo.len(),
{
    if topo.len() == 0 {
        (Seq::empty(), Seq::empty())
    } else {
        let prev = graph_state(topo.drop_last(), commits);
        let oid = topo.last();
        if commits.contains_key(oid) {
            let step = graph_step(prev.1, oid, commits[oid]);
            (prev.0.push(step.0), step.1)
        } else {
            prev
        }
    }
}

/// The rows drawn for the history `topo`.
pub open spec fn graph_rows(topo: Seq<CommitId>, commits: Map<CommitId, CommitInfo>) -> Seq<RowModel> {
    graph_state(topo, commits).0
}

/// Lays out the commits of `topo_order` (newest first) in lanes: one row for
/// every id of `topo_order` that `commits` holds, in the same order.
/// `oid_to_branches` plays no part in the layout.
pub fn build_graph(
    topo_order: &[CommitId],
    commits: &HashMap<CommitId, CommitInfo>,
    oid_to_branches: &HashMap<CommitId, Vec<String>>,
) -> (rows: Vec<GraphRow>)
    ensures
        rows@.len() == graph_rows(topo_order@, commits@).len(),
        forall|i: int| 0 <= i < rows@.len() ==> rows@[i]@ == graph_rows(topo_order@, commits@)[i],
{
    let mut rows: Vec<GraphRow> = Vec::new();
    if topo_order.len() == 0 {
        return rows;
    }
    let mut lanes: Vec<Option<CommitId>> = Vec::new();
    let mut i: usize = 0;
    while i < topo_order.len()
        invariant
            i <= topo_order@.len(),
            lanes@ == graph_state(topo_order@.take(i as int), commits@).1,
            rows@.len() == graph_state(topo_order@.take(i as int), commits@).0.len(),
            forall|k: int|
                0 <= k < rows@.len() ==> rows@[k]@ == graph_state(topo_order@.take(i as int), commits@).0[k],
        decreases topo_order@.len() - i,
    {
        let oid = topo_order[i];
        proof {
            assert(topo_order@.take(i + 1).drop_last() =~= topo_order@.take(i as int));
            assert(topo_order@.take(i + 1).last() == oid);
        }
        match id_map_get(commits, &oid) {
            None => {},
            Some(commit) => {
                let col = find_or_assign_lane(&mut lanes, oid);
                let lane_count = lanes.len();
                assert(col < lane_count);
                let n = active_lane_count(&lanes);
                let num_cols = if n > col + 1 { n } else { col + 1 };
                let connectors = build_connectors(&lanes, col, commit);
                update_lanes(&mut lanes, col, commit);
                rows.push(GraphRow { oid, col, num_cols, connectors });
            },
        }
        i += 1;
    }
    assert(topo_order@.take(i as int) =~= topo_order@);
    rows
}

/// The rows follow the history: one row per id of `topo` that `commits`
/// holds, in the order of `topo`.
pub proof fn law_rows_follow_history(topo: Seq<CommitId>, commits: Map<CommitId, CommitInfo>)
    ensures
        graph_rows(topo, commits).map_values(|r: RowModel| r.oid)
            == topo.filter(|o: CommitId| commits.contains_key(o)),
    decreases topo.len(),
{
    let pred = |o: CommitId| commits.contains_key(o);
    if topo.len() == 0 {
        assert(topo.filter(pred) =~= Seq::empty());
        assert(graph_rows(topo, commits).map_values(|r: RowModel| r.oid) =~= Seq::empty());
    } else {
        let rest = topo.drop_last();
        law_rows_follow_history(rest, commits);
        reveal_with_fuel(Seq::filter, 1);
        assert(topo.filter(pred) == (if pred(topo.last()) {
            rest.filter(pred).push(topo.last())
        } else {
            rest.filter(pred)
        }));
        assert(graph_rows(topo, commits).map_values(|r: RowModel| r.oid) =~= topo.filter(pred));
    }
}

/// Every row is well formed: the commit sits inside the active columns,
/// there is a connector for every active column, and the connector in the
/// commit's own lane is a line exactly when the commit has parents.
pub proof fn law_row_shape(topo: Seq<CommitId>, commits: Map<CommitId, CommitInfo>, k: int)
    requires
        0 <= k < graph_rows(topo, commits).len(),
    ensures
        ({
            let row = graph_rows(topo, commits)[k];
            &&& commits.contains_key(row.oid)
            &&& row.col < row.num_cols
            &&& row.num_cols <= row.connectors.len()
            &&& (row.connectors[row.col as int] == Connector::Vertical)
                == (commits[row.oid].parent_oids@.len() > 0)
        }),
    decreases topo.len(),
{
    let rest = topo.drop_last();
    let prev = graph_state(rest, commits);
    if k < prev.0.len() {
        law_row_shape(rest, commits, k);
    } else {
        let oid = topo.last();
        let placed = lanes_after_assign(prev.1, oid);
        lemma_count_active_bound(placed);
        crate::graph::lanes::law_assign_collapses_waiting_lanes(prev.1, oid);
    }
}

} // verus!
