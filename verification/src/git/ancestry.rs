//! Which commits lie on a branch: everything reachable from its tip through
//! parent links, among the commits that were loaded.

use vstd::prelude::*;
use std::collections::{HashMap, HashSet};
use crate::git::types::{CommitId, CommitInfo};
use crate::idmap::{id_map_get, id_set_contains, id_set_insert};

verus! {

broadcast use vstd::std_specs::hash::group_hash_axioms;

/// `path` walks from `path[0]` to older commits through parent links, and
/// every commit on it was loaded.
pub open spec fn is_ancestry_path(commits: Map<CommitId, CommitInfo>, path: Seq<CommitId>) -> bool {
    &&& path.len() > 0
    &&& forall|i: int| 0 <= i < path.len() ==> commits.contains_key(#[trigger] path[i])
    &&& forall|i: int|
        0 <= i < path.len() - 1 ==> commits[path[i]].parent_oids@.contains(#[trigger] path[i + 1])
}

/// `x` is `tip` or one of its loaded ancestors, reached through loaded
/// commits only.
pub open spec fn reachable_from(commits: Map<CommitId, CommitInfo>, tip: CommitId, x: CommitId) -> bool {
    exists|path: Seq<CommitId>|
        #![trigger is_ancestry_path(commits, path), path.last()]
        is_ancestry_path(commits, path) && path[0] == tip && path.last() == x
}

/// The commits of `topo` that lie on the branch whose tip is `tip`, in the
/// order of `topo`.
pub open spec fn branch_history(topo: Seq<CommitId>, commits: Map<CommitId, CommitInfo>, tip: CommitId) -> Seq<CommitId> {
    topo.filter(|o: CommitId| reachable_from(commits, tip, o))
}

/// `x` may still be reached: it is the tip, or a parent of a commit already
/// found on the branch.
spec fn is_candidate(commits: Map<CommitId, CommitInfo>, found: Set<CommitId>, tip: CommitId, x: CommitId) -> bool {
    x == tip || exists|v: CommitId| found.contains(v) && #[trigger] commits[v].parent_oids@.contains(x)
}

/// A path extended by a loaded parent of its last commit is a path.
proof fn lemma_extend_path(commits: Map<CommitId, CommitInfo>, path: Seq<CommitId>, x: CommitId)
    requires
        is_ancestry_path(commits, path),
        commits.contains_key(x),
        commits[path.last()].parent_oids@.contains(x),
    ensures
        is_ancestry_path(commits, path.push(x)),
{
    let q = path.push(x);
    assert forall|i: int| 0 <= i < q.len() implies commits.contains_key(#[trigger] q[i]) by {
        if i < path.len() {
            assert(q[i] == path[i]);
        }
    }
    assert forall|i: int| 0 <= i < q.len() - 1 implies commits[q[i]].parent_oids@.contains(#[trigger] q[i + 1]) by {
        if i < path.len() - 1 {
            assert(q[i] == path[i] && q[i + 1] == path[i + 1]);
        }
    }
}

/// A set that holds the tip and every loaded parent of its members holds
/// every commit on every path from the tip.
proof fn lemma_closed_holds_path(
    commits: Map<CommitId, CommitInfo>,
    found: Set<CommitId>,
    path: Seq<CommitId>,
    i: int,
)
    requires
        is_ancestry_path(commits, path),
        found.contains(path[0]),
        forall|v: CommitId, p: CommitId|
            found.contains(v) && #[trigger] commits[v].parent_oids@.contains(p) && commits.contains_key(p)
                ==> found.contains(p),
        0 <= i < path.len(),
    ensures
        found.contains(path[i]),
    decreases i,
{
    if i > 0 {
        lemma_closed_holds_path(commits, found, path, i - 1);
        assert(commits[path[i - 1]].parent_oids@.contains(path[(i - 1) + 1]));
        assert(commits.contains_key(path[i]));
    }
}

/// The commits of `topo_order` on the branch whose tip is `tip`, in order.
pub fn branch_commits(
    topo_order: &Vec<CommitId>,
    commits: &HashMap<CommitId, CommitInfo>,
    tip: CommitId,
) -> (r: Vec<CommitId>)
    ensures
        r@ == branch_history(topo_order@, commits@, tip),
{
    let ghost cm = commits@;
    let mut found: HashSet<CommitId> = HashSet::new();
    let mut stack: Vec<CommitId> = Vec::new();
    stack.push(tip);
    assert(stack@[0] == tip);
    assert(cm.dom().finite());
    while stack.len() > 0
        invariant
            cm == commits@,
            cm.dom().finite(),
            found@.finite(),
            found@.subset_of(cm.dom()),
            forall|v: CommitId| #[trigger] found@.contains(v) ==> reachable_from(cm, tip, v),
            forall|k: int| 0 <= k < stack@.len() ==> is_candidate(cm, found@, tip, #[trigger] stack@[k]),
            forall|v: CommitId, p: CommitId|
                found@.contains(v) && #[trigger] cm[v].parent_oids@.contains(p)
                    ==> found@.contains(p) || stack@.contains(p) || !cm.contains_key(p),
            found@.contains(tip) || stack@.contains(tip) || !cm.contains_key(tip),
        decreases cm.dom().len() - found@.len(), stack@.len(),
    {
        let ghost before_stack = stack@;
        let ghost before_found = found@;
        let oid = match stack.pop() {
            Some(o) => o,
            None => tip,
        };
        assert(stack@ == before_stack.drop_last());
        assert(oid == before_stack.last());
        assert(is_candidate(cm, found@, tip, before_stack[before_stack.len() - 1]));
        if !id_set_contains(&found, &oid) {
            match id_map_get(commits, &oid) {
                None => {
                    assert forall|v: CommitId, p: CommitId|
                        found@.contains(v) && #[trigger] cm[v].parent_oids@.contains(p)
                            implies found@.contains(p) || stack@.contains(p) || !cm.contains_key(p) by {
                        if before_stack.contains(p) && p != oid {
                            let k = choose|k: int| 0 <= k < before_stack.len() && before_stack[k] == p;
                            assert(stack@[k] == p);
                        }
                    }
                    proof {
                        if before_stack.contains(tip) && tip != oid {
                            let k = choose|k: int| 0 <= k < before_stack.len() && before_stack[k] == tip;
                            assert(stack@[k] == tip);
                        }
                    }
                },
                Some(c) => {
                    proof {
                        if oid == tip {
                            let path = seq![tip];
                            assert(is_ancestry_path(cm, path));
                            assert(path.last() == oid);
                        } else {
                            let v = choose|v: CommitId| found@.contains(v) && #[trigger] cm[v].parent_oids@.contains(oid);
                            assert(reachable_from(cm, tip, v));
                            let path = choose|path: Seq<CommitId>|
                                #![trigger is_ancestry_path(cm, path), path.last()]
                                is_ancestry_path(cm, path) && path[0] == tip && path.last() == v;
                            lemma_extend_path(cm, path, oid);
                            assert(path.push(oid)[0] == tip);
                            assert(path.push(oid).last() == oid);
                        }
                        vstd::set_lib::lemma_len_subset(found@.insert(oid), cm.dom());
                    }
                    id_set_insert(&mut found, oid);
                    let parents = &c.parent_oids;
                    let ghost mid_stack = stack@;
                    let mut j: usize = 0;
                    while j < parents.len()
                        invariant
                            j <= parents@.len(),
                            stack@ == mid_stack + parents@.take(j as int),
                            found@.contains(oid),
                            *c == cm[oid],
                            parents == &c.parent_oids,
                        decreases parents@.len() - j,
                    {
                        stack.push(parents[j]);
                        assert(stack@ =~= mid_stack + parents@.take(j + 1));
                        j += 1;
                    }
                    assert(parents@.take(j as int) =~= parents@);
                    assert forall|k: int| 0 <= k < stack@.len() implies is_candidate(cm, found@, tip, #[trigger] stack@[k]) by {
                        if k < mid_stack.len() {
                            assert(stack@[k] == before_stack[k]);
                            assert(is_candidate(cm, before_found, tip, before_stack[k]));
                            if before_stack[k] != tip {
                                let v = choose|v: CommitId| before_found.contains(v) && #[trigger] cm[v].parent_oids@.contains(before_stack[k]);
                                assert(found@.contains(v));
                            }
                        } else {
                            assert(stack@[k] == parents@[k - mid_stack.len()]);
                            assert(cm[oid].parent_oids@.contains(stack@[k]));
                        }
                    }
                    assert forall|v: CommitId, p: CommitId|
                        found@.contains(v) && #[trigger] cm[v].parent_oids@.contains(p)
                            implies found@.contains(p) || stack@.contains(p) || !cm.contains_key(p) by {
                        if v == oid {
                            let k = choose|k: int| 0 <= k < parents@.len() && parents@[k] == p;
                            assert(stack@[mid_stack.len() + k] == p);
                        } else if before_stack.contains(p) && p != oid {
                            let k = choose|k: int| 0 <= k < before_stack.len() && before_stack[k] == p;
                            assert(stack@[k] == p);
                        }
                    }
                    proof {
                        if before_stack.contains(tip) && tip != oid {
                            let k = choose|k: int| 0 <= k < before_stack.len() && before_stack[k] == tip;
                            assert(stack@[k] == tip);
                        }
                    }
                },
            }
        } else {
            assert forall|v: CommitId, p: CommitId|
                found@.contains(v) && #[trigger] cm[v].parent_oids@.contains(p)
                    implies found@.contains(p) || stack@.contains(p) || !cm.contains_key(p) by {
                if before_stack.contains(p) && p != oid {
                    let k = choose|k: int| 0 <= k < before_stack.len() && before_stack[k] == p;
                    assert(stack@[k] == p);
                }
            }
            proof {
                if before_stack.contains(tip) && tip != oid {
                    let k = choose|k: int| 0 <= k < before_stack.len() && before_stack[k] == tip;
                    assert(stack@[k] == tip);
                }
            }
        }
    }
    proof {
        assert forall|x: CommitId| reachable_from(cm, tip, x) implies found@.contains(x) by {
            let path = choose|path: Seq<CommitId>|
                #![trigger is_ancestry_path(cm, path), path.last()]
                is_ancestry_path(cm, path) && path[0] == tip && path.last() == x;
            assert(cm.contains_key(path[0]));
            lemma_closed_holds_path(cm, found@, path, path.len() - 1);
        }
    }
    let mut result: Vec<CommitId> = Vec::new();
    let mut i: usize = 0;
    while i < topo_order.len()
        invariant
            i <= topo_order@.len(),
            cm == commits@,
            forall|x: CommitId| reachable_from(cm, tip, x) <==> #[trigger] found@.contains(x),
            result@ == branch_history(topo_order@.take(i as int), cm, tip),
        decreases topo_order@.len() - i,
    {
        let oid = topo_order[i];
        proof {
            reveal_with_fuel(Seq::filter, 1);
            assert(topo_order@.take(i + 1).drop_last() =~= topo_order@.take(i as int));
            assert(topo_order@.take(i + 1).last() == oid);
        }
        if id_set_contains(&found, &oid) {
            result.push(oid);
        }
        i += 1;
    }
    assert(topo_order@.take(i as int) =~= topo_order@);
    result
}

} // verus!
