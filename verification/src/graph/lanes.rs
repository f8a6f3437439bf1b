//! Lane bookkeeping for the commit graph. A lane holds the id of the commit
//! it is waiting for (the parent of the commit drawn above it), or is free.

use vstd::prelude::*;
use crate::git::types::{CommitId, CommitInfo};
use crate::graph::types::Connector;

verus! {

/// `i` is the first position of `x` in `lanes`.
pub open spec fn is_first_index(lanes: Seq<Option<CommitId>>, x: Option<CommitId>, i: int) -> bool {
    &&& 0 <= i < lanes.len()
    &&& lanes[i] == x
    &&& forall|j: int| 0 <= j < i ==> lanes[j] != x
}

/// The first position of `x` in `lanes` (meaningful when `x` occurs).
pub open spec fn first_index(lanes: Seq<Option<CommitId>>, x: Option<CommitId>) -> int {
    choose|i: int| is_first_index(lanes, x, i)
}

/// The first position of an occurring value is well defined.
pub proof fn lemma_first_index(lanes: Seq<Option<CommitId>>, x: Option<CommitId>)
    requires
        lanes.contains(x),
    ensures
        is_first_index(lanes, x, first_index(lanes, x)),
    decreases lanes.len(),
{
    if lanes[0] == x {
        assert(is_first_index(lanes, x, 0));
    } else {
        let rest = lanes.drop_first();
        let k = choose|k: int| 0 <= k < lanes.len() && lanes[k] == x;
        assert(rest[k - 1] == x);
        lemma_first_index(rest, x);
        let f = first_index(rest, x);
        assert forall|j: int| 0 <= j < f + 1 implies lanes[j] != x by {
            if j > 0 {
                assert(lanes[j] == rest[j - 1]);
            }
        }
        assert(is_first_index(lanes, x, f + 1));
    }
}

/// Only one position can be the first one.
pub proof fn lemma_first_index_unique(lanes: Seq<Option<CommitId>>, x: Option<CommitId>, i: int)
    requires
        is_first_index(lanes, x, i),
    ensures
        first_index(lanes, x) == i,
{
    let f = first_index(lanes, x);
    assert(is_first_index(lanes, x, f));
    if f < i {
        assert(lanes[f] != x);
    } else if f > i {
        assert(lanes[i] != x);
    }
}

/// The lane a commit is drawn in: the leftmost lane waiting for it, else
/// the leftmost free lane, else a new lane at the right.
pub open spec fn assigned_lane(lanes: Seq<Option<CommitId>>, oid: CommitId) -> int {
    if lanes.contains(Some(oid)) {
        first_index(lanes, Some(oid))
    } else if lanes.contains(None) {
        first_index(lanes, None)
    } else {
        lanes.len() as int
    }
}

/// The lanes once a commit has been placed: it holds its assigned lane, and
/// every other lane that was waiting for it is freed.
pub open spec fn lanes_after_assign(lanes: Seq<Option<CommitId>>, oid: CommitId) -> Seq<Option<CommitId>> {
    let col = assigned_lane(lanes, oid);
    if lanes.contains(Some(oid)) {
        Seq::new(
            lanes.len(),
            |i: int| if i != col && lanes[i] == Some(oid) { None } else { lanes[i] },
        )
    } else if lanes.contains(None) {
        lanes.update(col, Some(oid))
    } else {
        lanes.push(Some(oid))
    }
}

/// Number of lanes in use.
pub open spec fn count_active(lanes: Seq<Option<CommitId>>) -> nat
    decreases lanes.len(),
{
    if lanes.len() == 0 {
        0
    } else {
        count_active(lanes.drop_last()) + if lanes.last() is Some { 1nat } else { 0nat }
    }
}

/// The connectors below a commit drawn in lane `col`: a line in every other
/// lane in use, a line in the commit's own lane when it has parents, blank
/// elsewhere; as many as there are lanes, and at least `col + 1`.
pub open spec fn connectors_for(lanes: Seq<Option<CommitId>>, col: int, has_parents: bool) -> Seq<Connector> {
    let width = if lanes.len() > col + 1 { lanes.len() as int } else { col + 1 };
    Seq::new(
        width as nat,
        |i: int|
            if i == col {
                if has_parents { Connector::Vertical } else { Connector::Empty }
            } else if i < lanes.len() && lanes[i] is Some {
                Connector::Vertical
            } else {
                Connector::Empty
            },
    )
}

/// A further parent of a merge gets a lane unless one already waits for it:
/// the leftmost free lane, else a new lane at the right.
pub open spec fn place_parent(lanes: Seq<Option<CommitId>>, p: CommitId) -> Seq<Option<CommitId>> {
    if lanes.contains(Some(p)) {
        lanes
    } else if lanes.contains(None) {
        lanes.update(first_index(lanes, None), Some(p))
    } else {
        lanes.push(Some(p))
    }
}

/// Places the parents `ps`, in order.
pub open spec fn place_parents(lanes: Seq<Option<CommitId>>, ps: Seq<CommitId>) -> Seq<Option<CommitId>>
    decreases ps.len(),
{
    if ps.len() == 0 {
        lanes
    } else {
        place_parent(place_parents(lanes, ps.drop_last()), ps.last())
    }
}

/// Drops the free lanes at the right end.
pub open spec fn trim_free_tail(lanes: Seq<Option<CommitId>>) -> Seq<Option<CommitId>>
    decreases lanes.len(),
{
    if lanes.len() > 0 && lanes.last() is None {
        trim_free_tail(lanes.drop_last())
    } else {
        lanes
    }
}

/// The lanes after the commit in lane `col` with the given parents is drawn:
/// a root commit frees its lane; otherwise its lane waits for the first
/// parent, further parents are placed, and free lanes at the right end are
/// dropped.
pub open spec fn lanes_after_update(
    lanes: Seq<Option<CommitId>>,
    col: int,
    parents: Seq<CommitId>,
) -> Seq<Option<CommitId>> {
    if parents.len() == 0 {
        if col < lanes.len() { lanes.update(col, None) } else { lanes }
    } else {
        trim_free_tail(place_parents(lanes.update(col, Some(parents[0])), parents.subrange(1, parents.len() as int)))
    }
}

/// Whether a lane holds `x`.
fn lane_is(lane: &Option<CommitId>, x: &Option<CommitId>) -> (r: bool)
    ensures
        r == (*lane == *x),
{
    match (lane, x) {
        (Some(a), Some(b)) => *a == *b,
        (None, None) => true,
        _ => false,
    }
}

/// The first position of `x`, if it occurs.
fn find_lane(lanes: &Vec<Option<CommitId>>, x: &Option<CommitId>) -> (r: Option<usize>)
    ensures
        match r {
            Some(i) => is_first_index(lanes@, *x, i as int),
            None => !lanes@.contains(*x),
        },
{
    let mut i: usize = 0;
    while i < lanes.len()
        invariant
            i <= lanes@.len(),
            forall|j: int| 0 <= j < i ==> lanes@[j] != *x,
        decreases lanes@.len() - i,
    {
        if lane_is(&lanes[i], x) {
            return Some(i);
        }
        i += 1;
    }
    None
}

/// Finds or assigns the lane of commit `oid`, freeing every other lane that
/// was waiting for it.
pub fn find_or_assign_lane(lanes: &mut Vec<Option<CommitId>>, oid: CommitId) -> (col: usize)
    ensures
        col == assigned_lane(old(lanes)@, oid),
        final(lanes)@ == lanes_after_assign(old(lanes)@, oid),
        col < final(lanes)@.len(),
        final(lanes)@[col as int] == Some(oid),
{
    let ghost orig = lanes@;
    let target = Some(oid);
    let mut found: Option<usize> = None;
    let mut i: usize = 0;
    while i < lanes.len()
        invariant
            lanes@.len() == orig.len(),
            i <= orig.len(),
            match found {
                Some(f) => f < i && is_first_index(orig, Some(oid), f as int),
                None => forall|j: int| 0 <= j < i ==> orig[j] != Some(oid),
            },
            forall|j: int|
                0 <= j < i ==> lanes@[j] == (match found {
                    Some(f) => if j != f && orig[j] == Some(oid) { None } else { orig[j] },
                    None => orig[j],
                }),
            forall|j: int| i <= j < orig.len() ==> lanes@[j] == orig[j],
            target == Some(oid),
        decreases orig.len() - i,
    {
        if lane_is(&lanes[i], &target) {
            if found.is_none() {
                found = Some(i);
            } else {
                lanes.set(i, None);
            }
        }
        i += 1;
    }
    if let Some(f) = found {
        proof {
            assert(orig.contains(Some(oid)));
            lemma_first_index_unique(orig, Some(oid), f as int);
            assert(lanes@ =~= lanes_after_assign(orig, oid));
        }
        return f;
    }
    assert(!orig.contains(Some(oid)));
    assert(lanes@ =~= orig);
    match find_lane(lanes, &None) {
        Some(j) => {
            proof {
                lemma_first_index_unique(orig, None, j as int);
            }
            lanes.set(j, target);
            j
        },
        None => {
            lanes.push(target);
            lanes.len() - 1
        },
    }
}

/// Number of lanes in use.
pub(crate) fn active_lane_count(lanes: &Vec<Option<CommitId>>) -> (n: usize)
    ensures
        n == count_active(lanes@),
        n <= lanes@.len(),
{
    let mut n: usize = 0;
    let mut i: usize = 0;
    while i < lanes.len()
        invariant
            i <= lanes@.len(),
            n == count_active(lanes@.take(i as int)),
            n <= i,
        decreases lanes@.len() - i,
    {
        assert(lanes@.take(i + 1).drop_last() =~= lanes@.take(i as int));
        if lanes[i].is_some() {
            n += 1;
        }
        i += 1;
    }
    assert(lanes@.take(i as int) =~= lanes@);
    n
}

/// The connectors below a commit drawn in lane `col`.
pub(crate) fn build_connectors(lanes: &Vec<Option<CommitId>>, commit_col: usize, commit: &CommitInfo) -> (r: Vec<Connector>)
    requires
        commit_col < usize::MAX,
    ensures
        r@ == connectors_for(lanes@, commit_col as int, commit.parent_oids@.len() > 0),
{
    let width = if lanes.len() > commit_col + 1 { lanes.len() } else { commit_col + 1 };
    let has_parents = commit.parent_oids.len() > 0;
    let mut connectors: Vec<Connector> = Vec::new();
    let mut i: usize = 0;
    while i < width
        invariant
            i <= width,
            width == (if lanes@.len() > commit_col + 1 { lanes@.len() as int } else { commit_col + 1 }),
            has_parents == (commit.parent_oids@.len() > 0),
            connectors@.len() == i,
            forall|j: int| 0 <= j < i ==> connectors@[j] == connectors_for(lanes@, commit_col as int, has_parents)[j],
        decreases width - i,
    {
        let c = if i == commit_col {
            if has_parents { Connector::Vertical } else { Connector::Empty }
        } else if i < lanes.len() && lanes[i].is_some() {
            Connector::Vertical
        } else {
            Connector::Empty
        };
        connectors.push(c);
        i += 1;
    }
    assert(connectors@ =~= connectors_for(lanes@, commit_col as int, has_parents));
    connectors
}

/// Moves the lanes past the commit drawn in lane `col`.
pub(crate) fn update_lanes(lanes: &mut Vec<Option<CommitId>>, col: usize, commit: &CommitInfo)
    requires
        commit.parent_oids@.len() > 0 ==> col < old(lanes)@.len(),
    ensures
        final(lanes)@ == lanes_after_update(old(lanes)@, col as int, commit.parent_oids@),
{
    let parents = &commit.parent_oids;
    if parents.len() == 0 {
        if col < lanes.len() {
            lanes.set(col, None);
        }
        return;
    }
    lanes.set(col, Some(parents[0]));
    let ghost start = lanes@;
    let mut k: usize = 1;
    while k < parents.len()
        invariant
            1 <= k <= parents@.len(),
            lanes@ == place_parents(start, parents@.subrange(1, k as int)),
        decreases parents@.len() - k,
    {
        let p = parents[k];
        proof {
            assert(parents@.subrange(1, k + 1).drop_last() =~= parents@.subrange(1, k as int));
            assert(parents@.subrange(1, k + 1).last() == p);
        }
        let wanted = Some(p);
        if find_lane(lanes, &wanted).is_none() {
            match find_lane(lanes, &None) {
                Some(j) => {
                    proof {
                        lemma_first_index_unique(lanes@, None, j as int);
                    }
                    lanes.set(j, wanted);
                },
                None => {
                    lanes.push(wanted);
                },
            }
        }
        k += 1;
    }
    let ghost placed = lanes@;
    assert(parents@.subrange(1, parents@.len() as int) =~= parents@.subrange(1, k as int));
    while lanes.len() > 0 && lanes[lanes.len() - 1].is_none()
        invariant
            trim_free_tail(lanes@) == trim_free_tail(placed),
        decreases lanes@.len(),
    {
        let ghost before = lanes@;
        lanes.pop();
        assert(lanes@ =~= before.drop_last());
    }
}


/// No more lanes are in use than there are lanes.
pub proof fn lemma_count_active_bound(lanes: Seq<Option<CommitId>>)
    ensures
        count_active(lanes) <= lanes.len(),
    decreases lanes.len(),
{
    if lanes.len() > 0 {
        lemma_count_active_bound(lanes.drop_last());
    }
}

/// Placing a commit: it sits in its assigned lane, no other lane still
/// waits for it (lanes that converged on it collapse into one), and every
/// other lane keeps what it held.
pub proof fn law_assign_collapses_waiting_lanes(lanes: Seq<Option<CommitId>>, oid: CommitId)
    ensures
        ({
            let col = assigned_lane(lanes, oid);
            let placed = lanes_after_assign(lanes, oid);
            &&& 0 <= col < placed.len()
            &&& placed.len() == (if col == lanes.len() { lanes.len() + 1 } else { lanes.len() + 0 })
            &&& placed[col] == Some(oid)
            &&& forall|i: int| 0 <= i < placed.len() && i != col ==> placed[i] != Some(oid)
            &&& forall|i: int|
                0 <= i < lanes.len() && i != col && lanes[i] != Some(oid) ==> placed[i] == lanes[i]
        }),
{
    if lanes.contains(Some(oid)) {
        lemma_first_index(lanes, Some(oid));
    } else if lanes.contains(None) {
        lemma_first_index(lanes, None);
    }
}

/// Placing one more parent keeps every lane in use and makes some lane wait
/// for that parent.
proof fn lemma_place_parent(lanes: Seq<Option<CommitId>>, p: CommitId)
    ensures
        place_parent(lanes, p).len() >= lanes.len(),
        place_parent(lanes, p).contains(Some(p)),
        forall|i: int| 0 <= i < lanes.len() && lanes[i] is Some ==> place_parent(lanes, p)[i] == lanes[i],
{
    let r = place_parent(lanes, p);
    if lanes.contains(Some(p)) {
    } else if lanes.contains(None) {
        lemma_first_index(lanes, None);
        assert(r[first_index(lanes, None)] == Some(p));
    } else {
        assert(r[lanes.len() as int] == Some(p));
    }
}

/// Placing parents keeps every lane in use and leaves a lane waiting for
/// each of them.
proof fn lemma_place_parents(lanes: Seq<Option<CommitId>>, ps: Seq<CommitId>)
    ensures
        place_parents(lanes, ps).len() >= lanes.len(),
        forall|q: CommitId| ps.contains(q) ==> place_parents(lanes, ps).contains(Some(q)),
        forall|i: int| 0 <= i < lanes.len() && lanes[i] is Some ==> place_parents(lanes, ps)[i] == lanes[i],
    decreases ps.len(),
{
    if ps.len() > 0 {
        let before = place_parents(lanes, ps.drop_last());
        lemma_place_parents(lanes, ps.drop_last());
        lemma_place_parent(before, ps.last());
        let after = place_parents(lanes, ps);
        assert(after == place_parent(before, ps.last()));
        assert forall|i: int| 0 <= i < lanes.len() && lanes[i] is Some implies after[i] == lanes[i] by {
            assert(before[i] == lanes[i]);
        }
        assert forall|q: CommitId| ps.contains(q) implies after.contains(Some(q)) by {
            let k = choose|k: int| 0 <= k < ps.len() && ps[k] == q;
            if k < ps.len() - 1 {
                assert(ps.drop_last()[k] == q);
                assert(ps.drop_last().contains(q));
                assert(before.contains(Some(q)));
                let m = choose|m: int| 0 <= m < before.len() && before[m] == Some(q);
                assert(after[m] == Some(q));
            }
        }
    }
}

/// Dropping the free tail keeps a prefix that holds every lane in use and
/// does not end in a free lane.
proof fn lemma_trim_free_tail(lanes: Seq<Option<CommitId>>)
    ensures
        trim_free_tail(lanes).len() <= lanes.len(),
        forall|i: int| 0 <= i < trim_free_tail(lanes).len() ==> trim_free_tail(lanes)[i] == lanes[i],
        forall|i: int| 0 <= i < lanes.len() && lanes[i] is Some ==> i < trim_free_tail(lanes).len(),
        trim_free_tail(lanes).len() == 0 || trim_free_tail(lanes).last() is Some,
    decreases lanes.len(),
{
    if lanes.len() > 0 && lanes.last() is None {
        let rest = lanes.drop_last();
        lemma_trim_free_tail(rest);
        assert(trim_free_tail(lanes) == trim_free_tail(rest));
        assert forall|i: int| 0 <= i < trim_free_tail(lanes).len() implies trim_free_tail(lanes)[i] == lanes[i] by {
            assert(rest[i] == lanes[i]);
        }
        assert forall|i: int| 0 <= i < lanes.len() && lanes[i] is Some implies i < trim_free_tail(lanes).len() by {
            assert(i < rest.len());
            assert(rest[i] == lanes[i]);
        }
    }
}

/// Moving past a commit with parents: its lane now waits for its first
/// parent, some lane waits for each of its parents (a merge opens lanes for
/// the others), every other lane in use keeps what it held, and no free lane
/// is left at the right end.
pub proof fn law_update_follows_parents(lanes: Seq<Option<CommitId>>, col: int, parents: Seq<CommitId>)
    requires
        0 <= col < lanes.len(),
        parents.len() > 0,
    ensures
        ({
            let next = lanes_after_update(lanes, col, parents);
            &&& col < next.len()
            &&& next[col] == Some(parents[0])
            &&& forall|q: CommitId| parents.contains(q) ==> next.contains(Some(q))
            &&& forall|i: int| 0 <= i < lanes.len() && i != col && lanes[i] is Some ==> i < next.len() && next[i] == lanes[i]
            &&& next.last() is Some
        }),
{
    let l0 = lanes.update(col, Some(parents[0]));
    let extras = parents.subrange(1, parents.len() as int);
    let placed = place_parents(l0, extras);
    lemma_place_parents(l0, extras);
    lemma_trim_free_tail(placed);
    let next = trim_free_tail(placed);
    assert(next == lanes_after_update(lanes, col, parents));
    assert(l0[col] is Some);
    assert(placed[col] == Some(parents[0]));
    assert forall|q: CommitId| parents.contains(q) implies next.contains(Some(q)) by {
        let k = choose|k: int| 0 <= k < parents.len() && parents[k] == q;
        if k == 0 {
            assert(next[col] == Some(q));
        } else {
            assert(extras[k - 1] == q);
            assert(extras.contains(q));
            assert(placed.contains(Some(q)));
            let m = choose|m: int| 0 <= m < placed.len() && placed[m] == Some(q);
            assert(next[m] == Some(q));
        }
    }
    assert forall|i: int| 0 <= i < lanes.len() && i != col && lanes[i] is Some implies i < next.len() && next[i] == lanes[i] by {
        assert(l0[i] == lanes[i]);
    }
}

/// Moving past a root commit frees its lane and changes no other lane.
pub proof fn law_root_frees_its_lane(lanes: Seq<Option<CommitId>>, col: int)
    requires
        0 <= col < lanes.len(),
    ensures
        lanes_after_update(lanes, col, Seq::empty()) == lanes.update(col, None),
{
}

} // verus!
