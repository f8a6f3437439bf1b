//! The computing part of loading a repository: which branch is HEAD, the
//! text kept of each commit, the index from commit to branch names, and the
//! display order of branches.

use vstd::prelude::*;
use vstd::utf8::encode_utf8;
use std::collections::HashMap;
use crate::git::types::{BranchInfo, CommitId, CommitInfo, RepoData, MAX_COMMITS_CAP};
use crate::git::oid::{oid_hex_prefix, oid_prefix};
use crate::idmap::{id_map_insert, id_map_remove};
use crate::strings::{chars_of, push_char};

verus! {

broadcast use vstd::seq_lib::group_to_multiset_ensures;

/// The number of commits actually walked: the request, capped.
pub fn cap_max_commits(max_commits: usize) -> (r: usize)
    ensures
        r == (if max_commits < MAX_COMMITS_CAP { max_commits } else { MAX_COMMITS_CAP }),
{
    if max_commits < MAX_COMMITS_CAP { max_commits } else { MAX_COMMITS_CAP }
}

/// Whether two texts are equal.
fn same_text(a: &str, b: &str) -> (r: bool)
    ensures
        r == (a@ == b@),
{
    let x = chars_of(a);
    let y = chars_of(b);
    if x.len() != y.len() {
        return false;
    }
    let mut i: usize = 0;
    while i < x.len()
        invariant
            x@ == a@,
            y@ == b@,
            x@.len() == y@.len(),
            i <= x@.len(),
            forall|j: int| 0 <= j < i ==> x@[j] == y@[j],
        decreases x@.len() - i,
    {
        if x[i] != y[i] {
            assert(x@[i as int] != y@[i as int]);
            return false;
        }
        i += 1;
    }
    assert(x@ =~= y@);
    true
}

/// A branch is HEAD when it is local and its name is the name HEAD points
/// at. Names are compared rather than tips, so local branches that share a
/// tip with HEAD are not mistaken for it.
pub fn is_head_branch(is_remote: bool, head_name: Option<&str>, name: &str) -> (r: bool)
    ensures
        r == (!is_remote && match head_name {
            Some(h) => h@ == name@,
            None => false,
        }),
{
    if is_remote {
        return false;
    }
    match head_name {
        Some(h) => same_text(h, name),
        None => false,
    }
}

/// The message kept of a commit: its first 80 characters (the summary may
/// be missing, then nothing).
pub fn summary_text(summary: Option<&str>) -> (r: String)
    ensures
        r@ == (match summary {
            Some(s) => if s@.len() <= 80 { s@ } else { s@.take(80) },
            None => Seq::empty(),
        }),
{
    match summary {
        None => String::new(),
        Some(s) => {
            let v = chars_of(s);
            let n = if v.len() <= 80 { v.len() } else { 80 };
            let mut out = String::new();
            let mut i: usize = 0;
            while i < n
                invariant
                    i <= n <= v@.len(),
                    out@ == v@.take(i as int),
                decreases n - i,
            {
                push_char(&mut out, v[i]);
                assert(out@ =~= v@.take(i + 1));
                i += 1;
            }
            assert(v@.take(n as int) =~= (if v@.len() <= 80 { v@ } else { v@.take(80) }));
            out
        },
    }
}

/// The author kept of a commit: its name, or `?` when it has none.
pub fn author_text(name: Option<&str>) -> (r: String)
    ensures
        r@ == (match name {
            Some(n) => n@,
            None => "?"@,
        }),
{
    match name {
        Some(n) => n.to_owned(),
        None => String::from_str("?"),
    }
}

/// The abbreviated id shown for a commit: the repository's abbreviation
/// when it could be made (`???????` when it is not valid UTF-8), else the
/// first seven hexadecimal digits of the id.
pub fn short_id_text(abbrev: Option<Option<&str>>, oid: CommitId) -> (r: String)
    ensures
        r@ == (match abbrev {
            Some(Some(s)) => s@,
            Some(None) => "???????"@,
            None => oid_hex_prefix(oid, 7),
        }),
{
    match abbrev {
        Some(Some(s)) => s.to_owned(),
        Some(None) => String::from_str("???????"),
        None => oid_prefix(oid, 7),
    }
}

/// The reference that holds the tip of upstream branch `upstream`.
pub fn upstream_ref_name(upstream: &str) -> (r: String)
    ensures
        r@ == "refs/remotes/"@ + upstream@,
{
    let mut s = String::from_str("refs/remotes/");
    s.append(upstream);
    s
}

/// Lexicographic order of byte strings (a proper prefix comes first).
pub open spec fn bytes_lt(a: Seq<u8>, b: Seq<u8>) -> bool
    decreases a.len(),
{
    if a.len() == 0 {
        b.len() > 0
    } else if b.len() == 0 {
        false
    } else if a[0] != b[0] {
        a[0] < b[0]
    } else {
        bytes_lt(a.drop_first(), b.drop_first())
    }
}

/// Order of branch names: their UTF-8 bytes, lexicographically.
pub open spec fn name_lt(a: Seq<char>, b: Seq<char>) -> bool {
    bytes_lt(encode_utf8(a), encode_utf8(b))
}

/// HEAD first, then local branches, then remote ones.
pub open spec fn branch_rank(b: BranchInfo) -> nat {
    if b.is_head {
        0
    } else if !b.is_remote {
        1
    } else {
        2
    }
}

/// `a` is shown before `b`: by rank, then by name.
pub open spec fn branch_lt(a: BranchInfo, b: BranchInfo) -> bool {
    branch_rank(a) < branch_rank(b) || (branch_rank(a) == branch_rank(b) && name_lt(a.name@, b.name@))
}

/// No branch is shown after one that should come later.
pub open spec fn branches_sorted(s: Seq<BranchInfo>) -> bool {
    forall|i: int, j: int| 0 <= i < j < s.len() ==> !branch_lt(#[trigger] s[j], #[trigger] s[i])
}

proof fn lemma_bytes_lt_skip(a: Seq<u8>, b: Seq<u8>, i: int)
    requires
        0 <= i < a.len(),
        i < b.len(),
        a[i] == b[i],
    ensures
        bytes_lt(a.skip(i), b.skip(i)) == bytes_lt(a.skip(i + 1), b.skip(i + 1)),
{
    assert(a.skip(i).drop_first() =~= a.skip(i + 1));
    assert(b.skip(i).drop_first() =~= b.skip(i + 1));
}

/// Whether `a` comes before `b` lexicographically.
fn bytes_less(a: &[u8], b: &[u8]) -> (r: bool)
    ensures
        r == bytes_lt(a@, b@),
{
    let n = if a.len() < b.len() { a.len() } else { b.len() };
    let mut i: usize = 0;
    assert(a@.skip(0) =~= a@ && b@.skip(0) =~= b@);
    while i < n
        invariant
            i <= n,
            n <= a@.len(),
            n <= b@.len(),
            n == a@.len() || n == b@.len(),
            bytes_lt(a@, b@) == bytes_lt(a@.skip(i as int), b@.skip(i as int)),
        decreases n - i,
    {
        if a[i] != b[i] {
            assert(a@.skip(i as int)[0] == a@[i as int] && b@.skip(i as int)[0] == b@[i as int]);
            return a[i] < b[i];
        }
        proof {
            lemma_bytes_lt_skip(a@, b@, i as int);
        }
        i += 1;
    }
    a.len() == n && b.len() > n
}

/// Whether branch `a` is shown before branch `b`.
fn branch_less(a: &BranchInfo, b: &BranchInfo) -> (r: bool)
    ensures
        r == branch_lt(*a, *b),
{
    let ra: u8 = if a.is_head { 0 } else if !a.is_remote { 1 } else { 2 };
    let rb: u8 = if b.is_head { 0 } else if !b.is_remote { 1 } else { 2 };
    if ra != rb {
        return ra < rb;
    }
    bytes_less(a.name.as_str().as_bytes(), b.name.as_str().as_bytes())
}

proof fn lemma_bytes_lt_irreflexive(a: Seq<u8>)
    ensures
        !bytes_lt(a, a),
    decreases a.len(),
{
    if a.len() > 0 {
        lemma_bytes_lt_irreflexive(a.drop_first());
    }
}

proof fn lemma_bytes_lt_transitive(a: Seq<u8>, b: Seq<u8>, c: Seq<u8>)
    requires
        bytes_lt(a, b),
        bytes_lt(b, c),
    ensures
        bytes_lt(a, c),
    decreases a.len(),
{
    if a.len() > 0 && b.len() > 0 && c.len() > 0 && a[0] == b[0] && b[0] == c[0] {
        lemma_bytes_lt_transitive(a.drop_first(), b.drop_first(), c.drop_first());
    }
}

proof fn lemma_bytes_lt_total(a: Seq<u8>, b: Seq<u8>)
    ensures
        bytes_lt(a, b) || bytes_lt(b, a) || a == b,
    decreases a.len(),
{
    if a.len() > 0 && b.len() > 0 && a[0] == b[0] {
        lemma_bytes_lt_total(a.drop_first(), b.drop_first());
        if a.drop_first() == b.drop_first() {
            assert forall|k: int| 0 <= k < a.len() implies a[k] == b[k] by {
                if k > 0 {
                    assert(a[k] == a.drop_first()[k - 1]);
                    assert(b[k] == b.drop_first()[k - 1]);
                }
            }
            assert(a =~= b);
        }
    } else if a.len() == 0 && b.len() == 0 {
        assert(a =~= b);
    }
}

/// Not coming after is transitive: the display order is a total preorder.
proof fn lemma_branch_order(a: BranchInfo, b: BranchInfo, c: BranchInfo)
    ensures
        !branch_lt(a, a),
        branch_lt(a, b) ==> !branch_lt(b, a),
        !branch_lt(b, a) && !branch_lt(c, b) ==> !branch_lt(c, a),
        branch_lt(a, b) && !branch_lt(c, b) ==> branch_lt(a, c),
{
    let (x, y, z) = (encode_utf8(a.name@), encode_utf8(b.name@), encode_utf8(c.name@));
    lemma_bytes_lt_irreflexive(x);
    lemma_bytes_lt_total(x, y);
    lemma_bytes_lt_total(y, z);
    lemma_bytes_lt_total(x, z);
    if bytes_lt(x, y) && bytes_lt(y, x) {
        lemma_bytes_lt_transitive(x, y, x);
    }
    if bytes_lt(x, y) && bytes_lt(y, z) {
        lemma_bytes_lt_transitive(x, y, z);
    }
    if bytes_lt(z, y) && bytes_lt(y, x) {
        lemma_bytes_lt_transitive(z, y, x);
    }
    if bytes_lt(y, z) && bytes_lt(z, x) {
        lemma_bytes_lt_transitive(y, z, x);
    }
    if bytes_lt(z, x) && bytes_lt(x, y) {
        lemma_bytes_lt_transitive(z, x, y);
    }
    if bytes_lt(x, z) && bytes_lt(z, y) {
        lemma_bytes_lt_transitive(x, z, y);
    }
}

/// `output` is `input` rearranged: position `p` of `output` holds entry
/// `origin[p]` of `input`, every entry is used once, and entries that are
/// neither before the other keep their order.
pub open spec fn is_stable_rearrangement(input: Seq<BranchInfo>, output: Seq<BranchInfo>, origin: Seq<int>) -> bool {
    &&& origin.len() == output.len()
    &&& output.len() == input.len()
    &&& forall|p: int| 0 <= p < output.len() ==> 0 <= #[trigger] origin[p] < input.len() && output[p] == input[origin[p]]
    &&& forall|p: int, q: int| 0 <= p < q < output.len() ==> #[trigger] origin[p] != #[trigger] origin[q]
    &&& forall|p: int, q: int|
        0 <= p < q < output.len() && !branch_lt(#[trigger] output[p], #[trigger] output[q]) ==> origin[p] < origin[q]
}

/// Puts the branches in display order: HEAD first, then local branches by
/// name, then remote branches by name. The same branches remain, and
/// branches that compare equal keep their order.
pub fn sort_branches(branches: &mut Vec<BranchInfo>)
    ensures
        final(branches)@.to_multiset() == old(branches)@.to_multiset(),
        branches_sorted(final(branches)@),
        exists|origin: Seq<int>| is_stable_rearrangement(old(branches)@, final(branches)@, origin),
{
    let mut src: Vec<BranchInfo> = Vec::new();
    std::mem::swap(branches, &mut src);
    let ghost orig = src@;
    let mut out: Vec<BranchInfo> = Vec::new();
    let ghost mut i: int = 0;
    let ghost mut origin: Seq<int> = Seq::empty();
    while src.len() > 0
        invariant
            0 <= i,
            orig.len() == i + src@.len(),
            src@ == orig.skip(i as int),
            out@.to_multiset() == orig.take(i as int).to_multiset(),
            branches_sorted(out@),
            origin.len() == out@.len(),
            out@.len() == i,
            forall|p: int| 0 <= p < out@.len() ==> 0 <= #[trigger] origin[p] < i && out@[p] == orig[origin[p]],
            forall|p: int, q: int| 0 <= p < q < out@.len() ==> #[trigger] origin[p] != #[trigger] origin[q],
            forall|p: int, q: int|
                0 <= p < q < out@.len() && !branch_lt(#[trigger] out@[p], #[trigger] out@[q]) ==> origin[p] < origin[q],
        decreases src@.len(),
    {
        let b = src.remove(0);
        assert(b == orig[i as int]);
        assert(src@ =~= orig.skip(i + 1));
        let mut j: usize = 0;
        while j < out.len() && !branch_less(&b, &out[j])
            invariant
                j <= out@.len(),
                forall|k: int| 0 <= k < j ==> !branch_lt(b, #[trigger] out@[k]),
            decreases out@.len() - j,
        {
            j += 1;
        }
        let ghost before = out@;
        out.insert(j, b);
        proof {
            assert(out@.remove(j as int) =~= before);
            assert(out@[j as int] == b);
            assert(out@.to_multiset().remove(b) =~= before.to_multiset());
            assert(out@.to_multiset().count(b) > 0);
            assert(out@.to_multiset() =~= before.to_multiset().insert(b));
            assert(orig.take(i + 1) =~= orig.take(i as int).push(b));
            assert forall|p: int, q: int| 0 <= p < q < out@.len() implies !branch_lt(#[trigger] out@[q], #[trigger] out@[p]) by {
                if q < j {
                    assert(out@[p] == before[p] && out@[q] == before[q]);
                } else if q == j {
                    assert(out@[p] == before[p]);
                } else if p == j {
                    assert(out@[q] == before[q - 1]);
                    if j < before.len() {
                        assert(branch_lt(b, before[j as int]));
                        if q - 1 > j {
                            lemma_branch_order(before[j as int], before[q - 1], b);
                            lemma_branch_order(b, before[j as int], before[q - 1]);
                        }
                        lemma_branch_order(b, before[q - 1], b);
                        lemma_branch_order(b, before[j as int], before[q - 1]);
                    }
                } else if p < j {
                    assert(out@[p] == before[p] && out@[q] == before[q - 1]);
                } else {
                    assert(out@[p] == before[p - 1] && out@[q] == before[q - 1]);
                }
            }
        }
        proof {
            let before_origin = origin;
            origin = before_origin.insert(j as int, i);
            assert forall|p: int| 0 <= p < out@.len() implies 0 <= #[trigger] origin[p] < i + 1 && out@[p] == orig[origin[p]] by {
                if p < j {
                    assert(origin[p] == before_origin[p] && out@[p] == before[p]);
                } else if p > j {
                    assert(origin[p] == before_origin[p - 1] && out@[p] == before[p - 1]);
                }
            }
            assert forall|p: int, q: int| 0 <= p < q < out@.len() implies #[trigger] origin[p] != #[trigger] origin[q] by {
                if p < j && q < j {
                    assert(origin[p] == before_origin[p] && origin[q] == before_origin[q]);
                } else if p < j && q > j {
                    assert(origin[p] == before_origin[p] && origin[q] == before_origin[q - 1]);
                } else if p > j {
                    assert(origin[p] == before_origin[p - 1] && origin[q] == before_origin[q - 1]);
                } else if p == j {
                    assert(origin[q] == before_origin[q - 1]);
                } else {
                    assert(origin[p] == before_origin[p]);
                }
            }
            assert forall|p: int, q: int|
                0 <= p < q < out@.len() && !branch_lt(#[trigger] out@[p], #[trigger] out@[q]) implies origin[p] < origin[q] by {
                if q < j {
                    assert(origin[p] == before_origin[p] && origin[q] == before_origin[q]);
                    assert(out@[p] == before[p] && out@[q] == before[q]);
                } else if q == j {
                    assert(origin[p] == before_origin[p]);
                } else if p == j {
                    assert(out@[q] == before[q - 1]);
                    assert(branch_lt(b, before[j as int]));
                    if q - 1 > j {
                        assert(!branch_lt(before[q - 1], before[j as int]));
                    }
                    lemma_branch_order(b, before[j as int], before[q - 1]);
                } else if p < j {
                    assert(origin[p] == before_origin[p] && origin[q] == before_origin[q - 1]);
                    assert(out@[p] == before[p] && out@[q] == before[q - 1]);
                } else {
                    assert(origin[p] == before_origin[p - 1] && origin[q] == before_origin[q - 1]);
                    assert(out@[p] == before[p - 1] && out@[q] == before[q - 1]);
                }
            }
            i = i + 1;
        }
    }
    assert(orig.take(i as int) =~= orig);
    assert(is_stable_rearrangement(orig, out@, origin));
    *branches = out;
}

/// In display order HEAD comes first, local branches before remote ones, and
/// branches of the same kind by name.
pub proof fn law_display_order(s: Seq<BranchInfo>)
    requires
        branches_sorted(s),
    ensures
        forall|i: int, j: int| 0 <= i < j < s.len() ==> branch_rank(#[trigger] s[i]) <= branch_rank(#[trigger] s[j]),
        (exists|k: int| 0 <= k < s.len() && s[k].is_head) ==> s[0].is_head,
        forall|i: int, j: int|
            0 <= i < j < s.len() && branch_rank(#[trigger] s[i]) == branch_rank(#[trigger] s[j])
                ==> !name_lt(s[j].name@, s[i].name@),
{
    assert forall|i: int, j: int| 0 <= i < j < s.len() implies branch_rank(#[trigger] s[i]) <= branch_rank(#[trigger] s[j]) by {
        assert(!branch_lt(s[j], s[i]));
    }
    if exists|k: int| 0 <= k < s.len() && s[k].is_head {
        let k = choose|k: int| 0 <= k < s.len() && s[k].is_head;
        if k > 0 {
            assert(!branch_lt(s[k], s[0]));
        }
    }
}

/// The first position where `a` and `b` differ has the smaller byte in `a`.
pub open spec fn differs_first_below(a: Seq<u8>, b: Seq<u8>, i: int) -> bool {
    0 <= i < a.len() && i < b.len() && a.take(i) == b.take(i) && a[i] < b[i]
}

/// Byte strings are ordered lexicographically: `a` comes before `b` exactly
/// when, at the first position where they differ, `a` has the smaller byte,
/// or when `a` is a proper prefix of `b`.
pub proof fn law_bytes_order_is_lexicographic(a: Seq<u8>, b: Seq<u8>)
    ensures
        bytes_lt(a, b) <==> ((exists|i: int| #[trigger] differs_first_below(a, b, i)) || (a.len() < b.len()
            && b.take(a.len() as int) == a)),
    decreases a.len(),
{
    if a.len() == 0 {
        assert(b.take(0) =~= a);
    } else if b.len() == 0 {
    } else if a[0] != b[0] {
        if a[0] < b[0] {
            assert(a.take(0) =~= b.take(0));
            assert(differs_first_below(a, b, 0));
        } else {
            assert forall|i: int| !#[trigger] differs_first_below(a, b, i) by {
                if 0 < i < a.len() && i < b.len() && a.take(i) == b.take(i) {
                    assert(a.take(i)[0] == b.take(i)[0]);
                }
            }
            if a.len() < b.len() && b.take(a.len() as int) == a {
                assert(b.take(a.len() as int)[0] == a[0]);
            }
        }
    } else {
        let a1 = a.drop_first();
        let b1 = b.drop_first();
        law_bytes_order_is_lexicographic(a1, b1);
        assert((exists|i: int| #[trigger] differs_first_below(a, b, i)) == (exists|j: int|
            #[trigger] differs_first_below(a1, b1, j))) by {
            if exists|i: int| #[trigger] differs_first_below(a, b, i) {
                let i = choose|i: int| #[trigger] differs_first_below(a, b, i);
                assert(i != 0);
                assert(a1.take(i - 1) =~= a.take(i).drop_first());
                assert(b1.take(i - 1) =~= b.take(i).drop_first());
                assert(differs_first_below(a1, b1, i - 1));
            }
            if exists|j: int| #[trigger] differs_first_below(a1, b1, j) {
                let j = choose|j: int| #[trigger] differs_first_below(a1, b1, j);
                assert(a.take(j + 1) =~= seq![a[0]] + a1.take(j));
                assert(b.take(j + 1) =~= seq![b[0]] + b1.take(j));
                assert(differs_first_below(a, b, j + 1));
            }
        }
        if a.len() < b.len() && b.take(a.len() as int) == a {
            assert(b1.take(a1.len() as int) =~= b.take(a.len() as int).drop_first());
        }
        if a1.len() < b1.len() && b1.take(a1.len() as int) == a1 {
            assert(b.take(a.len() as int) =~= seq![b[0]] + b1.take(a1.len() as int));
            assert(a =~= seq![a[0]] + a1);
        }
    }
}

/// The UTF-8 encoding of two texts one after the other is the two
/// encodings one after the other.
proof fn lemma_encode_utf8_append(a: Seq<char>, b: Seq<char>)
    ensures
        encode_utf8(a + b) == encode_utf8(a) + encode_utf8(b),
    decreases a.len(),
{
    if a.len() == 0 {
        assert(a + b =~= b);
        assert(encode_utf8(a) =~= Seq::<u8>::empty());
        assert(encode_utf8(a) + encode_utf8(b) =~= encode_utf8(b));
    } else {
        lemma_encode_utf8_append(a.drop_first(), b);
        assert((a + b).drop_first() =~= a.drop_first() + b);
        assert((a + b)[0] == a[0]);
        assert(encode_utf8(a + b) =~= encode_utf8(a) + encode_utf8(b));
    }
}

/// A non-empty text encodes to at least one byte.
proof fn lemma_encode_utf8_nonempty(s: Seq<char>)
    requires
        s.len() > 0,
    ensures
        encode_utf8(s).len() > 0,
{
    vstd::utf8::char_is_scalar(s[0]);
}

/// A branch name comes before every longer name that starts with it, and
/// never after it.
pub proof fn law_name_prefix_sorts_first(a: Seq<char>, rest: Seq<char>)
    requires
        rest.len() > 0,
    ensures
        name_lt(a, a + rest),
        !name_lt(a + rest, a),
{
    lemma_encode_utf8_append(a, rest);
    lemma_encode_utf8_nonempty(rest);
    let ea = encode_utf8(a);
    let eb = encode_utf8(a + rest);
    law_bytes_order_is_lexicographic(ea, eb);
    law_bytes_order_is_lexicographic(eb, ea);
    assert(eb.take(ea.len() as int) =~= ea);
    assert forall|i: int| !#[trigger] differs_first_below(eb, ea, i) by {
        if 0 <= i < eb.len() && i < ea.len() {
            assert(eb[i] == ea[i]);
        }
    }
}

/// The names of the branches whose tip is `k`, in order.
pub open spec fn tip_labels(branches: Seq<BranchInfo>, k: CommitId) -> Seq<Seq<char>>
    decreases branches.len(),
{
    if branches.len() == 0 {
        Seq::empty()
    } else {
        let rest = tip_labels(branches.drop_last(), k);
        if branches.last().tip_oid == k {
            rest.push(branches.last().name@)
        } else {
            rest
        }
    }
}

/// The character views of a list of names.
pub open spec fn label_texts(v: Seq<String>) -> Seq<Seq<char>> {
    v.map_values(|s: String| s@)
}

/// `m` maps exactly the tips of `branches` to the names of the branches
/// with that tip, in order.
pub open spec fn indexes_tips(m: Map<CommitId, Vec<String>>, branches: Seq<BranchInfo>) -> bool {
    &&& forall|k: CommitId| #[trigger] m.contains_key(k) <==> tip_labels(branches, k).len() > 0
    &&& forall|k: CommitId| #[trigger] m.contains_key(k) ==> label_texts(m[k]@) == tip_labels(branches, k)
}

/// Maps each branch tip to the names of the branches that point at it.
pub fn index_branch_tips(branches: &Vec<BranchInfo>) -> (m: HashMap<CommitId, Vec<String>>)
    ensures
        indexes_tips(m@, branches@),
{
    let mut m: HashMap<CommitId, Vec<String>> = HashMap::new();
    let mut i: usize = 0;
    assert(branches@.take(0) =~= Seq::<BranchInfo>::empty());
    while i < branches.len()
        invariant
            i <= branches@.len(),
            indexes_tips(m@, branches@.take(i as int)),
        decreases branches@.len() - i,
    {
        let tip = branches[i].tip_oid;
        let ghost before = m@;
        let ghost prefix = branches@.take(i as int);
        let ghost next = branches@.take(i + 1);
        assert(next.drop_last() =~= prefix);
        assert(next.last() == branches@[i as int]);
        let mut names = match id_map_remove(&mut m, &tip) {
            Some(v) => v,
            None => Vec::new(),
        };
        let ghost old_names = names@;
        names.push(branches[i].name.clone());
        id_map_insert(&mut m, tip, names);
        proof {
            assert forall|k: CommitId| #[trigger] m@.contains_key(k) <==> tip_labels(next, k).len() > 0 by {
                if k != tip {
                    assert(tip_labels(next, k) == tip_labels(prefix, k));
                }
            }
            assert forall|k: CommitId| #[trigger] m@.contains_key(k) implies label_texts(m@[k]@) == tip_labels(next, k) by {
                if k == tip {
                    if before.contains_key(tip) {
                        assert(label_texts(old_names) == tip_labels(prefix, tip));
                    } else {
                        assert(tip_labels(prefix, tip).len() == 0);
                        assert(old_names.len() == 0);
                    }
                    assert(label_texts(m@[k]@) =~= label_texts(old_names).push(branches@[i as int].name@));
                } else {
                    assert(tip_labels(next, k) == tip_labels(prefix, k));
                }
            }
        }
        i += 1;
    }
    assert(branches@.take(i as int) =~= branches@);
    m
}

/// The loaded repository from what was read: the commits and their order
/// as walked, each branch tip indexed to its branch names (in the order the
/// branches were read), and the branches put in display order (branches
/// that compare equal keep the order they were read in).
pub fn assemble_repo_data(
    branches: Vec<BranchInfo>,
    commits: HashMap<CommitId, CommitInfo>,
    topo_order: Vec<CommitId>,
    repo_path: String,
) -> (r: RepoData)
    ensures
        r.commits@ == commits@,
        r.topo_order@ == topo_order@,
        r.repo_path@ == repo_path@,
        indexes_tips(r.oid_to_branches@, branches@),
        r.branches@.to_multiset() == branches@.to_multiset(),
        branches_sorted(r.branches@),
        exists|origin: Seq<int>| is_stable_rearrangement(branches@, r.branches@, origin),
{
    let oid_to_branches = index_branch_tips(&branches);
    let mut sorted = branches;
    sort_branches(&mut sorted);
    RepoData { branches: sorted, commits, topo_order, oid_to_branches, repo_path }
}

} // verus!
