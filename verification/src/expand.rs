//! The expansion engine: merging a class's declaration with its resolved
//! base class(es) into a fully resolved node tree.
//!
//! Expansion works in place on a staging copy of the raw document.  Merging
//! never moves an existing node: it only rewrites child ranges and appends to
//! the arena tail, so local pointers into a document under expansion stay
//! valid until the document is published.  A class's base reference is
//! rewritten to a resolved pointer once its members have been merged, which
//! makes a published document a fixed point of expansion.

use vstd::prelude::*;
use crate::id::{FileId, Id, IdPack, LivePtr, LocalPtr, MultiPack};
use crate::value::{LiveNode, LiveValue};
use crate::document::{
    node_range_ok, nodes_wf, scan_from_spec, LiveDocument, LiveScopeTarget,
};
use crate::error::{LiveError, LiveErrorKind};

verus! {

/// `a` is `b` with zero or more elements appended.
pub open spec fn seq_extends<T>(a: Seq<T>, b: Seq<T>) -> bool {
    b.len() <= a.len() && a.subrange(0, b.len() as int) == b
}

/// The value with its child range forgotten: what a node says apart from
/// where its children sit.
pub open spec fn erased(v: LiveValue) -> LiveValue {
    v.with_child_range_spec(0, 0)
}

/// The nodes agree on identifier, source token and value, up to where a
/// structural value's children sit.
pub open spec fn same_heart(a: LiveNode, b: LiveNode) -> bool {
    a.id == b.id && a.token_id == b.token_id && erased(a.value) == erased(b.value)
}

/// `same_heart`, and a structural value keeps its child count.
pub open spec fn shallow_eq(a: LiveNode, b: LiveNode) -> bool {
    same_heart(a, b) && a.value.child_range_spec().1 == b.value.child_range_spec().1
}

/// Replacing a child range changes nothing else about a value.
pub proof fn lemma_with_range(v: LiveValue, s: int, c: int)
    requires
        0 <= s <= usize::MAX,
        0 <= c <= usize::MAX,
    ensures
        erased(v.with_child_range_spec(s, c)) == erased(v),
        v.is_structural_spec() ==> v.with_child_range_spec(s, c).child_range_spec() == (s, c),
        !v.is_structural_spec() ==> v.with_child_range_spec(s, c) == v,
        v.with_child_range_spec(s, c).is_structural_spec() == v.is_structural_spec(),
{
    match v {
        LiveValue::Array { .. } => {},
        LiveValue::TupleEnum { .. } => {},
        LiveValue::NamedEnum { .. } => {},
        LiveValue::Class { .. } => {},
        _ => {},
    }
}

/// A node the expansion pass is done with: its identifier is no longer a
/// dotted path, and a class's base reference is no longer an unresolved name.
pub open spec fn node_expanded(n: LiveNode) -> bool {
    &&& n.id.is_single_or_empty_spec()
    &&& (n.value matches LiveValue::Class { class, .. } ==> !class.is_unresolved_spec())
}

/// Every node reachable through the sibling range `[start, start + count)`
/// is expanded.
pub open spec fn range_expanded(nodes: Seq<LiveNode>, start: int, count: int) -> bool
    decreases nodes.len() - start, count,
        when nodes_wf(nodes) && 0 <= start && count >= 0 && start + count <= nodes.len()
        via range_expanded_decreases
{
    count <= 0 || {
        let n = nodes[start];
        let (cs, cc) = n.value.child_range_spec();
        &&& node_expanded(n)
        &&& (n.value.is_structural_spec() && cc > 0 ==> range_expanded(nodes, cs, cc))
        &&& range_expanded(nodes, start + 1, count - 1)
    }
}

#[via_fn]
proof fn range_expanded_decreases(nodes: Seq<LiveNode>, start: int, count: int) {
    if count > 0 {
        assert(node_range_ok(nodes, start));
    }
}

/// The whole document is expanded: node 0 is the root class and everything
/// reachable from it is expanded.
pub open spec fn doc_expanded(doc: LiveDocument) -> bool {
    doc.nodes@.len() == 0 || (doc.nodes@[0].value is Class && range_expanded(doc.nodes@, 0, 1))
}

/// Checks the arena well-formedness invariant at run time, so that documents
/// assembled by unverified callers are vetted before expansion touches them.
pub fn check_nodes_wf(nodes: &Vec<LiveNode>) -> (b: bool)
    ensures
        b == nodes_wf(nodes@),
{
    let n = nodes.len();
    let mut i: usize = 0;
    while i < n
        invariant
            i <= n,
            n == nodes@.len(),
            forall|j: int| 0 <= j < i ==> #[trigger] node_range_ok(nodes@, j),
        decreases n - i,
    {
        let v = nodes[i].value;
        if v.is_structural() {
            let (cs, cc) = v.child_range();
            if !(cc <= n && cs <= n - cc && (cc == 0 || i < cs)) {
                proof {
                    assert(!node_range_ok(nodes@, i as int));
                }
                return false;
            }
        }
        proof {
            assert(node_range_ok(nodes@, i as int));
        }
        i = i + 1;
    }
    true
}

/// Run-time twin of `range_expanded`.
pub fn range_expanded_exec(nodes: &Vec<LiveNode>, start: usize, count: usize) -> (b: bool)
    requires
        nodes_wf(nodes@),
        start + count <= nodes@.len(),
    ensures
        b == range_expanded(nodes@, start as int, count as int),
    decreases nodes@.len() - start, count,
{
    if count == 0 {
        return true;
    }
    let _total = nodes.len();
    let n = nodes[start];
    let single = n.id.is_single_or_empty();
    let resolved = match n.value {
        LiveValue::Class { class, .. } => !class.is_unresolved(),
        _ => true,
    };
    if !(single && resolved) {
        return false;
    }
    if n.value.is_structural() {
        let (cs, cc) = n.value.child_range();
        if cc > 0 {
            proof {
                assert(node_range_ok(nodes@, start as int));
            }
            if !range_expanded_exec(nodes, cs, cc) {
                return false;
            }
        }
    }
    range_expanded_exec(nodes, start + 1, count - 1)
}

/// Run-time twin of `doc_expanded`.
pub fn doc_expanded_exec(doc: &LiveDocument) -> (b: bool)
    requires
        doc.wf(),
    ensures
        b == doc_expanded(*doc),
{
    if doc.nodes.len() == 0 {
        return true;
    }
    let is_class = doc.nodes[0].value.is_class();
    is_class && range_expanded_exec(&doc.nodes, 0, 1)
}

/// The copied range `[d_start, d_start + count)` of `dst` matches the
/// source range `[s_start, s_start + count)` of `src` node for node and
/// subtree for subtree: identifiers, tokens and values agree (up to where
/// children sit), child counts agree, and children match recursively.
/// `row_end` bounds the sibling row from above; every copied subtree sits
/// at or past it, which is what lets a match survive writes into slots
/// between the row and the subtrees.
pub open spec fn ranges_match(
    src: Seq<LiveNode>,
    s_start: int,
    count: int,
    dst: Seq<LiveNode>,
    d_start: int,
    row_end: int,
) -> bool
    decreases src.len() - s_start, count,
        when nodes_wf(src) && 0 <= s_start && count >= 0 && s_start + count <= src.len()
        via ranges_match_decreases
{
    count <= 0 || {
        let sn = src[s_start];
        let dn = dst[d_start];
        let (scs, scc) = sn.value.child_range_spec();
        let (dcs, dcc) = dn.value.child_range_spec();
        &&& 0 <= d_start < dst.len()
        &&& shallow_eq(dn, sn)
        &&& (sn.value.is_structural_spec() && scc > 0 ==> row_end <= dcs && dcs + dcc
            <= dst.len() && ranges_match(src, scs, scc, dst, dcs, dcs + dcc))
        &&& ranges_match(src, s_start + 1, count - 1, dst, d_start + 1, row_end)
    }
}

#[via_fn]
proof fn ranges_match_decreases(
    src: Seq<LiveNode>,
    s_start: int,
    count: int,
    dst: Seq<LiveNode>,
    d_start: int,
    row_end: int,
) {
    if count > 0 {
        assert(node_range_ok(src, s_start));
    }
}

/// A match into `dst` still holds after `dst` grew without touching what
/// the match refers to.
pub proof fn lemma_ranges_match_grow(
    src: Seq<LiveNode>,
    s_start: int,
    count: int,
    dst: Seq<LiveNode>,
    d_start: int,
    row_end: int,
    dst2: Seq<LiveNode>,
)
    requires
        nodes_wf(src),
        0 <= s_start,
        count >= 0,
        s_start + count <= src.len(),
        ranges_match(src, s_start, count, dst, d_start, row_end),
        seq_extends(dst2, dst),
    ensures
        ranges_match(src, s_start, count, dst2, d_start, row_end),
    decreases src.len() - s_start, count,
{
    if count > 0 {
        assert(node_range_ok(src, s_start));
        lemma_extends_index(dst2, dst, d_start);
        let sn = src[s_start];
        let (scs, scc) = sn.value.child_range_spec();
        let (dcs, dcc) = dst[d_start].value.child_range_spec();
        if sn.value.is_structural_spec() && scc > 0 {
            lemma_ranges_match_grow(src, scs, scc, dst, dcs, dcs + dcc, dst2);
        }
        lemma_ranges_match_grow(src, s_start + 1, count - 1, dst, d_start + 1, row_end, dst2);
    }
}

/// A match survives a write into a slot it does not refer to: one outside
/// its sibling row and before every copied subtree.
pub proof fn lemma_ranges_match_update(
    src: Seq<LiveNode>,
    s_start: int,
    count: int,
    dst: Seq<LiveNode>,
    d_start: int,
    row_end: int,
    dst2: Seq<LiveNode>,
    u: int,
)
    requires
        nodes_wf(src),
        0 <= s_start,
        count >= 0,
        s_start + count <= src.len(),
        ranges_match(src, s_start, count, dst, d_start, row_end),
        dst2.len() == dst.len(),
        forall|x: int| 0 <= x < dst.len() && x != u ==> dst2[x] == dst[x],
        !(d_start <= u < d_start + count),
        u < row_end,
    ensures
        ranges_match(src, s_start, count, dst2, d_start, row_end),
    decreases src.len() - s_start, count,
{
    if count > 0 {
        assert(node_range_ok(src, s_start));
        let sn = src[s_start];
        let (scs, scc) = sn.value.child_range_spec();
        let (dcs, dcc) = dst[d_start].value.child_range_spec();
        if sn.value.is_structural_spec() && scc > 0 {
            lemma_ranges_match_update(src, scs, scc, dst, dcs, dcs + dcc, dst2, u);
        }
        lemma_ranges_match_update(src, s_start + 1, count - 1, dst, d_start + 1, row_end, dst2, u);
    }
}

/// A matched row extends by one matched sibling at its end.
pub proof fn lemma_ranges_match_snoc(
    src: Seq<LiveNode>,
    s_start: int,
    count: int,
    dst: Seq<LiveNode>,
    d_start: int,
    row_end: int,
)
    requires
        nodes_wf(src),
        0 <= s_start,
        count >= 0,
        s_start + count + 1 <= src.len(),
        ranges_match(src, s_start, count, dst, d_start, row_end),
        ranges_match(src, s_start + count, 1, dst, d_start + count, row_end),
    ensures
        ranges_match(src, s_start, count + 1, dst, d_start, row_end),
    decreases count,
{
    if count > 0 {
        lemma_ranges_match_snoc(src, s_start + 1, count - 1, dst, d_start + 1, row_end);
    }
}

/// Appends a self-contained copy of the sibling range
/// `[start, start + count)` of `src` to `out`: the `count` copied siblings
/// land first, contiguously, and every copied structural node's child range
/// points at a copied subtree later in `out`.
pub fn copy_block(src: &Vec<LiveNode>, start: usize, count: usize, out: &mut Vec<LiveNode>)
    requires
        nodes_wf(src@),
        start + count <= src@.len(),
        nodes_wf(old(out)@),
    ensures
        nodes_wf(final(out)@),
        final(out)@.len() >= old(out)@.len() + count,
        seq_extends(final(out)@, old(out)@),
        forall|k: int|
            0 <= k < count ==> #[trigger] shallow_eq(
                final(out)@[old(out)@.len() + k],
                src@[start + k],
            ),
        ranges_match(
            src@,
            start as int,
            count as int,
            final(out)@,
            old(out)@.len() as int,
            old(out)@.len() + count,
        ),
    decreases src@.len() - start,
{
    let m = src.len();
    let base = out.len();
    proof {
        assert(out@.subrange(0, base as int) =~= old(out)@);
    }
    let mut k: usize = 0;
    while k < count
        invariant
            k <= count,
            m == src@.len(),
            start + count <= m,
            out@.len() == base + k,
            seq_extends(out@, old(out)@),
            base == old(out)@.len(),
            nodes_wf(out@),
            forall|j: int|
                0 <= j < k ==> #[trigger] out@[base + j] == (LiveNode {
                    id: src@[start + j].id,
                    token_id: src@[start + j].token_id,
                    value: erased(src@[start + j].value),
                }),
        decreases count - k,
    {
        let n = src[start + k];
        let ghost pre = out@;
        out.push(LiveNode { id: n.id, token_id: n.token_id, value: n.value.with_child_range(0, 0) });
        proof {
            lemma_with_range(n.value, 0, 0);
            assert(out@.subrange(0, pre.len() as int) =~= pre);
            assert forall|j: int| 0 <= j < out@.len() implies #[trigger] node_range_ok(
                out@,
                j,
            ) by {
                if j < pre.len() {
                    assert(node_range_ok(pre, j));
                    lemma_range_ok_grow(pre, out@, j);
                } else {
                    lemma_with_range(n.value, 0, 0);
                }
            }
            assert(seq_extends(out@, old(out)@)) by {
                assert(out@.subrange(0, base as int) =~= pre.subrange(0, base as int));
            }
        }
        k = k + 1;
    }
    let ghost after_pass1 = out@;
    let mut k: usize = 0;
    while k < count
        invariant
            k <= count,
            m == src@.len(),
            start + count <= m,
            base == old(out)@.len(),
            out@.len() >= base + count,
            seq_extends(out@, old(out)@),
            nodes_wf(out@),
            forall|j: int|
                k <= j < count ==> #[trigger] out@[base + j] == (LiveNode {
                    id: src@[start + j].id,
                    token_id: src@[start + j].token_id,
                    value: erased(src@[start + j].value),
                }),
            forall|j: int| 0 <= j < k ==> #[trigger] shallow_eq(out@[base + j], src@[start + j]),
            ranges_match(src@, start as int, k as int, out@, base as int, base + count),
        decreases count - k,
    {
        let n = src[start + k];
        proof {
            lemma_with_range(n.value, 0, 0);
        }
        if n.value.is_structural() {
            let (cs, cc) = n.value.child_range();
            proof {
                assert(node_range_ok(src@, (start + k) as int));
            }
            if cc > 0 {
                let sub_base = out.len();
                let ghost pre_rec = out@;
                copy_block(src, cs, cc, out);
                let ghost post_rec = out@;
                out.set(
                    base + k,
                    LiveNode {
                        id: n.id,
                        token_id: n.token_id,
                        value: n.value.with_child_range(sub_base, cc),
                    },
                );
                proof {
                    lemma_with_range(n.value, sub_base as int, cc as int);
                    lemma_extends_trans(post_rec, pre_rec, old(out)@);
                    assert forall|j: int| 0 <= j < out@.len() implies #[trigger] node_range_ok(
                        out@,
                        j,
                    ) by {
                        if j != base + k {
                            assert(node_range_ok(post_rec, j));
                        }
                    }
                    assert(seq_extends(out@, old(out)@)) by {
                        assert(out@.subrange(0, old(out)@.len() as int) =~= post_rec.subrange(
                            0,
                            old(out)@.len() as int,
                        ));
                    }
                    assert forall|j: int| k < j < count implies #[trigger] out@[base + j]
                        == (LiveNode {
                        id: src@[start + j].id,
                        token_id: src@[start + j].token_id,
                        value: erased(src@[start + j].value),
                    }) by {
                        lemma_extends_index(post_rec, pre_rec, base + j);
                    }
                    assert forall|j: int| 0 <= j < k implies #[trigger] shallow_eq(
                        out@[base + j],
                        src@[start + j],
                    ) by {
                        lemma_extends_index(post_rec, pre_rec, base + j);
                    }
                    assert(shallow_eq(out@[base + k], src@[start + k]));
                    // the prefix match survives the growth and the patch,
                    // the sub-block match survives the patch, and the newly
                    // patched sibling matches its source subtree
                    lemma_ranges_match_grow(
                        src@,
                        start as int,
                        k as int,
                        pre_rec,
                        base as int,
                        base + count,
                        post_rec,
                    );
                    lemma_ranges_match_update(
                        src@,
                        start as int,
                        k as int,
                        post_rec,
                        base as int,
                        base + count,
                        out@,
                        base + k,
                    );
                    lemma_ranges_match_update(
                        src@,
                        cs as int,
                        cc as int,
                        post_rec,
                        sub_base as int,
                        sub_base + cc,
                        out@,
                        base + k,
                    );
                    assert(ranges_match(src@, start + k + 1, 0, out@, base + k + 1, base + count));
                    assert(ranges_match(
                        src@,
                        start + k,
                        1,
                        out@,
                        base + k,
                        base + count,
                    ));
                    lemma_ranges_match_snoc(
                        src@,
                        start as int,
                        k as int,
                        out@,
                        base as int,
                        base + count,
                    );
                }
            } else {
                proof {
                    assert(shallow_eq(out@[base + k], src@[start + k]));
                    assert(ranges_match(src@, start + k + 1, 0, out@, base + k + 1, base + count));
                    assert(ranges_match(src@, start + k, 1, out@, base + k, base + count));
                    lemma_ranges_match_snoc(
                        src@,
                        start as int,
                        k as int,
                        out@,
                        base as int,
                        base + count,
                    );
                }
            }
        } else {
            proof {
                assert(shallow_eq(out@[base + k], src@[start + k]));
                assert(ranges_match(src@, start + k + 1, 0, out@, base + k + 1, base + count));
                assert(ranges_match(src@, start + k, 1, out@, base + k, base + count));
                lemma_ranges_match_snoc(
                    src@,
                    start as int,
                    k as int,
                    out@,
                    base as int,
                    base + count,
                );
            }
        }
        k = k + 1;
    }
}

/// Extension preserves the elements of the shorter sequence.
pub proof fn lemma_extends_index<T>(a: Seq<T>, b: Seq<T>, i: int)
    requires
        seq_extends(a, b),
        0 <= i < b.len(),
    ensures
        a[i] == b[i],
{
    assert(a.subrange(0, b.len() as int)[i] == b[i]);
}

/// Extension is transitive.
pub proof fn lemma_extends_trans<T>(a: Seq<T>, b: Seq<T>, c: Seq<T>)
    requires
        seq_extends(a, b),
        seq_extends(b, c),
    ensures
        seq_extends(a, c),
{
    assert(a.subrange(0, c.len() as int) =~= c) by {
        assert forall|i: int| 0 <= i < c.len() implies a.subrange(0, c.len() as int)[i]
            == c[i] by {
            assert(a.subrange(0, b.len() as int)[i] == b[i]);
            assert(b.subrange(0, c.len() as int)[i] == c[i]);
        }
    }
}

/// A node that satisfies the range invariant in `a` still satisfies it after
/// `a` grew into `b` without touching `[0, a.len())`.
proof fn lemma_range_ok_grow(a: Seq<LiveNode>, b: Seq<LiveNode>, j: int)
    requires
        0 <= j < a.len(),
        a.len() <= b.len(),
        b.subrange(0, a.len() as int) == a,
        node_range_ok(a, j),
    ensures
        node_range_ok(b, j),
{
    assert(b[j] == a[j]);
}

/// Appends the whole self-contained block `blk` to `nodes`, shifting every
/// child range by the insertion offset.  Returns the offset.
pub fn append_block(nodes: &mut Vec<LiveNode>, blk: &Vec<LiveNode>) -> (base: usize)
    requires
        nodes_wf(old(nodes)@),
        nodes_wf(blk@),
    ensures
        base == old(nodes)@.len(),
        final(nodes)@.len() == old(nodes)@.len() + blk@.len(),
        seq_extends(final(nodes)@, old(nodes)@),
        nodes_wf(final(nodes)@),
        forall|k: int|
            0 <= k < blk@.len() ==> final(nodes)@[base + k] == (LiveNode {
                id: blk@[k].id,
                token_id: blk@[k].token_id,
                value: blk@[k].value.with_child_range_spec(
                    blk@[k].value.child_range_spec().0 + base,
                    blk@[k].value.child_range_spec().1,
                ),
            }),
{
    let m = blk.len();
    let base = nodes.len();
    proof {
        assert(nodes@.subrange(0, base as int) =~= old(nodes)@);
    }
    let mut k: usize = 0;
    while k < m
        invariant
            k <= m,
            m == blk@.len(),
            base == old(nodes)@.len(),
            nodes@.len() == base + k,
            seq_extends(nodes@, old(nodes)@),
            nodes_wf(nodes@),
            forall|j: int|
                0 <= j < k ==> #[trigger] nodes@[base + j] == (LiveNode {
                    id: blk@[j].id,
                    token_id: blk@[j].token_id,
                    value: erased(blk@[j].value),
                }),
        decreases m - k,
    {
        let n = blk[k];
        let ghost pre = nodes@;
        nodes.push(LiveNode { id: n.id, token_id: n.token_id, value: n.value.with_child_range(0, 0) });
        proof {
            lemma_with_range(n.value, 0, 0);
            assert(nodes@.subrange(0, pre.len() as int) =~= pre);
            assert forall|j: int| 0 <= j < nodes@.len() implies #[trigger] node_range_ok(
                nodes@,
                j,
            ) by {
                if j < pre.len() {
                    assert(node_range_ok(pre, j));
                    lemma_range_ok_grow(pre, nodes@, j);
                } else {
                    lemma_with_range(n.value, 0, 0);
                }
            }
            assert(seq_extends(nodes@, old(nodes)@)) by {
                assert(nodes@.subrange(0, base as int) =~= pre.subrange(0, base as int));
            }
        }
        k = k + 1;
    }
    let total = nodes.len();
    let mut k: usize = 0;
    while k < m
        invariant
            k <= m,
            m == blk@.len(),
            base == old(nodes)@.len(),
            total == base + m,
            nodes@.len() == total,
            seq_extends(nodes@, old(nodes)@),
            nodes_wf(nodes@),
            forall|j: int|
                k <= j < m ==> #[trigger] nodes@[base + j] == (LiveNode {
                    id: blk@[j].id,
                    token_id: blk@[j].token_id,
                    value: erased(blk@[j].value),
                }),
            forall|j: int|
                0 <= j < k ==> #[trigger] nodes@[base + j] == (LiveNode {
                    id: blk@[j].id,
                    token_id: blk@[j].token_id,
                    value: blk@[j].value.with_child_range_spec(
                        blk@[j].value.child_range_spec().0 + base,
                        blk@[j].value.child_range_spec().1,
                    ),
                }),
        decreases m - k,
    {
        let n = blk[k];
        proof {
            lemma_with_range(n.value, 0, 0);
        }
        if n.value.is_structural() {
            let (cs, cc) = n.value.child_range();
            proof {
                assert(node_range_ok(blk@, k as int));
            }
            let ghost pre = nodes@;
            nodes.set(
                base + k,
                LiveNode { id: n.id, token_id: n.token_id, value: n.value.with_child_range(cs + base, cc) },
            );
            proof {
                lemma_with_range(n.value, cs + base, cc as int);
                assert forall|j: int| 0 <= j < nodes@.len() implies #[trigger] node_range_ok(
                    nodes@,
                    j,
                ) by {
                    if j != base + k {
                        assert(node_range_ok(pre, j));
                    }
                }
                assert(seq_extends(nodes@, old(nodes)@)) by {
                    assert(nodes@.subrange(0, base as int) =~= pre.subrange(0, base as int));
                }
            }
        } else {
            proof {
                assert(nodes@[base + k] == (LiveNode {
                    id: blk@[k as int].id,
                    token_id: blk@[k as int].token_id,
                    value: blk@[k as int].value.with_child_range_spec(
                        blk@[k as int].value.child_range_spec().0 + base,
                        blk@[k as int].value.child_range_spec().1,
                    ),
                }));
            }
        }
        k = k + 1;
    }
    base
}

/// Everything of a document but its node arena: expansion rewrites nodes
/// only, never the pools a document shares by range.
pub open spec fn same_pools(a: LiveDocument, b: LiveDocument) -> bool {
    &&& a.multi_ids@ == b.multi_ids@
    &&& a.strings@ == b.strings@
    &&& a.tokens@ == b.tokens@
    &&& a.scopes@ == b.scopes@
    &&& a.recompile == b.recompile
}

/// The single identifier a node is addressed by, if it has one.
pub open spec fn single_id(p: IdPack) -> Option<Id> {
    match p {
        IdPack::Single(x) => Some(x),
        _ => None,
    }
}

/// The class at `ptr` has a member whose identifier is exactly `id`.
pub open spec fn class_has_member(doc: LiveDocument, ptr: int, id: Id) -> bool {
    let (start, count) = doc.nodes@[ptr].value.child_range_spec();
    exists|k: int|
        0 <= k < count && #[trigger] doc.nodes@[start + k].id == IdPack::Single(id)
}

/// Every class keeps its members across a step: its member range only ever
/// grows, and the members already there keep their identifiers and order.
pub open spec fn members_preserved(pre: LiveDocument, post: LiveDocument) -> bool {
    forall|i: int|
        0 <= i < pre.nodes@.len() && (#[trigger] pre.nodes@[i].value) is Class ==> {
            let (ps, pc) = pre.nodes@[i].value.child_range_spec();
            let (qs, qc) = post.nodes@[i].value.child_range_spec();
            &&& pc <= qc
            &&& forall|k: int|
                0 <= k < pc ==> #[trigger] post.nodes@[qs + k].id == pre.nodes@[ps + k].id
        }
}

/// What every merge step promises: the arena stays well-formed and only
/// grows, the pools are untouched, every pre-existing node keeps its
/// identity, and no class loses a member — merging rewrites child ranges
/// and appends, nothing else.
pub open spec fn merge_step_ok(pre: LiveDocument, post: LiveDocument) -> bool {
    &&& post.wf()
    &&& same_pools(post, pre)
    &&& pre.nodes@.len() <= post.nodes@.len()
    &&& forall|i: int|
        0 <= i < pre.nodes@.len() ==> #[trigger] same_heart(post.nodes@[i], pre.nodes@[i])
    &&& members_preserved(pre, post)
}

/// A member a class has, it keeps through a merge step.
pub proof fn lemma_member_kept(pre: LiveDocument, post: LiveDocument, ptr: int, id: Id)
    requires
        merge_step_ok(pre, post),
        0 <= ptr < pre.nodes@.len(),
        pre.nodes@[ptr].value is Class,
        class_has_member(pre, ptr, id),
    ensures
        class_has_member(post, ptr, id),
{
    let (ps, pc) = pre.nodes@[ptr].value.child_range_spec();
    let (qs, qc) = post.nodes@[ptr].value.child_range_spec();
    let k = choose|k: int| 0 <= k < pc && #[trigger] pre.nodes@[ps + k].id == IdPack::Single(id);
    assert(post.nodes@[qs + k].id == pre.nodes@[ps + k].id);
}

/// `merge_step_ok` composes.
pub proof fn lemma_merge_trans(a: LiveDocument, b: LiveDocument, c: LiveDocument)
    requires
        merge_step_ok(a, b),
        merge_step_ok(b, c),
    ensures
        merge_step_ok(a, c),
{
    assert forall|i: int| 0 <= i < a.nodes@.len() implies #[trigger] same_heart(
        c.nodes@[i],
        a.nodes@[i],
    ) by {
        assert(same_heart(b.nodes@[i], a.nodes@[i]));
        assert(same_heart(c.nodes@[i], b.nodes@[i]));
    }
    assert forall|i: int|
        0 <= i < a.nodes@.len() && (#[trigger] a.nodes@[i].value) is Class implies {
        let (ps, pc) = a.nodes@[i].value.child_range_spec();
        let (rs, rc) = c.nodes@[i].value.child_range_spec();
        pc <= rc && forall|k: int|
            0 <= k < pc ==> #[trigger] c.nodes@[rs + k].id == a.nodes@[ps + k].id
    } by {
        assert(same_heart(b.nodes@[i], a.nodes@[i]));
        lemma_heart_class(b.nodes@[i], a.nodes@[i]);
        let (ps, pc) = a.nodes@[i].value.child_range_spec();
        let (qs, qc) = b.nodes@[i].value.child_range_spec();
        let (rs, rc) = c.nodes@[i].value.child_range_spec();
        assert(b.nodes@[i].value is Class);
        assert forall|k: int| 0 <= k < pc implies #[trigger] c.nodes@[rs + k].id == a.nodes@[
            ps + k
        ].id by {
            assert(b.nodes@[qs + k].id == a.nodes@[ps + k].id);
            assert(c.nodes@[rs + k].id == b.nodes@[qs + k].id);
        }
    }
}

/// Nodes with the same heart are the same value variant.
pub proof fn lemma_heart_class(a: LiveNode, b: LiveNode)
    requires
        same_heart(a, b),
    ensures
        (a.value is Class) == (b.value is Class),
{
    lemma_with_range(a.value, 0, 0);
    lemma_with_range(b.value, 0, 0);
    match a.value {
        LiveValue::Array { .. } => {},
        LiveValue::TupleEnum { .. } => {},
        LiveValue::NamedEnum { .. } => {},
        LiveValue::Class { .. } => {},
        _ => {},
    }
    match b.value {
        LiveValue::Array { .. } => {},
        LiveValue::TupleEnum { .. } => {},
        LiveValue::NamedEnum { .. } => {},
        LiveValue::Class { .. } => {},
        _ => {},
    }
}

/// Inherits one member: appends a rebuilt member range for the class at
/// `dst_ptr` consisting of its current members followed by a copy of the
/// block member at `m_idx`, then points the class at the new range.
fn append_member(
    doc: &mut LiveDocument,
    dst_ptr: usize,
    blk: &Vec<LiveNode>,
    m_idx: usize,
    member_id: IdPack,
)
    requires
        old(doc).wf(),
        dst_ptr < old(doc).nodes@.len(),
        old(doc).nodes@[dst_ptr as int].value is Class,
        nodes_wf(blk@),
        m_idx < blk@.len(),
    ensures
        merge_step_ok(*old(doc), *final(doc)),
        final(doc).nodes@[dst_ptr as int].value is Class,
        final(doc).nodes@[dst_ptr as int].value.child_range_spec().1 == old(doc).nodes@[
            dst_ptr as int
        ].value.child_range_spec().1 + 1,
        ({
            // the appended member is the block member, under the given
            // identifier, with the block's source token
            let (ds2, dc2) = final(doc).nodes@[dst_ptr as int].value.child_range_spec();
            let m = final(doc).nodes@[ds2 + dc2 - 1];
            &&& m.id == member_id
            &&& m.token_id == blk@[m_idx as int].token_id
            &&& erased(m.value) == erased(blk@[m_idx as int].value)
        }),
{
    let (ds, dc) = doc.nodes[dst_ptr].value.child_range();
    proof {
        assert(node_range_ok(doc.nodes@, dst_ptr as int));
    }
    let n_len = doc.nodes.len();
    let mut tmp: Vec<LiveNode> = Vec::new();
    let mut k: usize = 0;
    while k < dc
        invariant
            k <= dc,
            n_len == doc.nodes@.len(),
            ds + dc <= doc.nodes@.len(),
            tmp@.len() == k,
            nodes_wf(tmp@),
            doc == old(doc),
            forall|j: int| 0 <= j < k ==> #[trigger] tmp@[j].id == doc.nodes@[ds + j].id,
        decreases dc - k,
    {
        let n = doc.nodes[ds + k];
        let ghost pre = tmp@;
        tmp.push(LiveNode { id: n.id, token_id: n.token_id, value: n.value.with_child_range(0, 0) });
        proof {
            lemma_with_range(n.value, 0, 0);
            assert forall|j: int| 0 <= j < tmp@.len() implies #[trigger] node_range_ok(
                tmp@,
                j,
            ) by {
                if j < pre.len() {
                    assert(node_range_ok(pre, j));
                    assert(tmp@.subrange(0, pre.len() as int) =~= pre);
                    lemma_range_ok_grow(pre, tmp@, j);
                }
            }
        }
        k = k + 1;
    }
    let mn = blk[m_idx];
    let ghost pre = tmp@;
    tmp.push(LiveNode { id: member_id, token_id: mn.token_id, value: mn.value.with_child_range(0, 0) });
    proof {
        lemma_with_range(mn.value, 0, 0);
        assert forall|j: int| 0 <= j < tmp@.len() implies #[trigger] node_range_ok(tmp@, j) by {
            if j < pre.len() {
                assert(node_range_ok(pre, j));
                assert(tmp@.subrange(0, pre.len() as int) =~= pre);
                lemma_range_ok_grow(pre, tmp@, j);
            }
        }
    }
    let new_count = tmp.len();
    let ghost member_slot = tmp@[dc as int];
    let mut k: usize = 0;
    while k < dc
        invariant
            k <= dc,
            n_len == doc.nodes@.len(),
            ds + dc <= doc.nodes@.len(),
            tmp@.len() >= new_count,
            new_count == dc + 1,
            nodes_wf(tmp@),
            doc == old(doc),
            tmp@[dc as int] == member_slot,
            forall|j: int| 0 <= j < dc ==> #[trigger] tmp@[j].id == doc.nodes@[ds + j].id,
        decreases dc - k,
    {
        let n = doc.nodes[ds + k];
        if n.value.is_structural() {
            let (cs, cc) = n.value.child_range();
            proof {
                assert(node_range_ok(doc.nodes@, (ds + k) as int));
            }
            if cc > 0 {
                let sub_base = tmp.len();
                let ghost pre_rec = tmp@;
                copy_block(&doc.nodes, cs, cc, &mut tmp);
                let ghost pre = tmp@;
                tmp.set(
                    k,
                    LiveNode { id: n.id, token_id: n.token_id, value: n.value.with_child_range(sub_base, cc) },
                );
                proof {
                    lemma_with_range(n.value, sub_base as int, cc as int);
                    lemma_extends_index(pre, pre_rec, dc as int);
                    assert forall|j: int| 0 <= j < tmp@.len() implies #[trigger] node_range_ok(
                        tmp@,
                        j,
                    ) by {
                        if j != k {
                            assert(node_range_ok(pre, j));
                        }
                    }
                    assert forall|j: int| 0 <= j < dc implies #[trigger] tmp@[j].id == doc.nodes@[
                        ds + j
                    ].id by {
                        if j != k {
                            lemma_extends_index(pre, pre_rec, j);
                        }
                    }
                }
            }
        }
        k = k + 1;
    }
    if mn.value.is_structural() {
        let (cs, cc) = mn.value.child_range();
        proof {
            assert(node_range_ok(blk@, m_idx as int));
        }
        if cc > 0 {
            let sub_base = tmp.len();
            let ghost pre_rec = tmp@;
            copy_block(blk, cs, cc, &mut tmp);
            let ghost pre = tmp@;
            tmp.set(
                dc,
                LiveNode { id: member_id, token_id: mn.token_id, value: mn.value.with_child_range(sub_base, cc) },
            );
            proof {
                lemma_with_range(mn.value, sub_base as int, cc as int);
                lemma_extends_index(pre, pre_rec, dc as int);
                assert forall|j: int| 0 <= j < tmp@.len() implies #[trigger] node_range_ok(
                    tmp@,
                    j,
                ) by {
                    if j != dc {
                        assert(node_range_ok(pre, j));
                    }
                }
                assert forall|j: int| 0 <= j < dc implies #[trigger] tmp@[j].id == doc.nodes@[
                    ds + j
                ].id by {
                    lemma_extends_index(pre, pre_rec, j);
                }
            }
        }
    }
    proof {
        // whichever branch ran, the member slot carries the given
        // identifier, the block's token, and the block member's value up to
        // its child range
        lemma_with_range(mn.value, 0, 0);
        assert(tmp@[dc as int].id == member_id);
        assert(tmp@[dc as int].token_id == mn.token_id);
        assert(erased(tmp@[dc as int].value) == erased(mn.value)) by {
            if tmp@[dc as int] != member_slot {
                let (s2, c2) = tmp@[dc as int].value.child_range_spec();
                lemma_with_range(mn.value, s2, c2);
            }
        }
    }
    let base = append_block(&mut doc.nodes, &tmp);
    let dn = doc.nodes[dst_ptr];
    let ghost pre = doc.nodes@;
    doc.nodes.set(
        dst_ptr,
        LiveNode { id: dn.id, token_id: dn.token_id, value: dn.value.with_child_range(base, new_count) },
    );
    proof {
        lemma_with_range(dn.value, base as int, new_count as int);
        lemma_extends_index(pre, old(doc).nodes@, dst_ptr as int);
        assert forall|j: int| 0 <= j < doc.nodes@.len() implies #[trigger] node_range_ok(
            doc.nodes@,
            j,
        ) by {
            if j != dst_ptr {
                assert(node_range_ok(pre, j));
            }
        }
        assert forall|i: int| 0 <= i < old(doc).nodes@.len() implies #[trigger] same_heart(
            doc.nodes@[i],
            old(doc).nodes@[i],
        ) by {
            lemma_extends_index(pre, old(doc).nodes@, i);
            if i == dst_ptr {
                lemma_with_range(dn.value, base as int, new_count as int);
            } else {
                lemma_with_range(doc.nodes@[i].value, 0, 0);
            }
        }
        assert(members_preserved(*old(doc), *doc)) by {
            assert forall|i: int|
                0 <= i < old(doc).nodes@.len() && (#[trigger] old(doc).nodes@[i].value)
                    is Class implies {
                let (ps, pc) = old(doc).nodes@[i].value.child_range_spec();
                let (qs, qc) = doc.nodes@[i].value.child_range_spec();
                pc <= qc && forall|k: int|
                    0 <= k < pc ==> #[trigger] doc.nodes@[qs + k].id == old(doc).nodes@[ps
                        + k].id
            } by {
                assert(node_range_ok(old(doc).nodes@, i));
                if i == dst_ptr {
                    assert forall|k: int| 0 <= k < dc implies #[trigger] doc.nodes@[base + k].id
                        == old(doc).nodes@[ds + k].id by {
                        assert(pre[base + k].id == tmp@[k].id);
                        assert(doc.nodes@[base + k] == pre[base + k]);
                    }
                } else {
                    lemma_extends_index(pre, old(doc).nodes@, i);
                    assert(doc.nodes@[i] == old(doc).nodes@[i]);
                    let (ps, pc) = old(doc).nodes@[i].value.child_range_spec();
                    assert forall|k: int| 0 <= k < pc implies #[trigger] doc.nodes@[ps + k].id
                        == old(doc).nodes@[ps + k].id by {
                        assert(same_heart(doc.nodes@[ps + k], old(doc).nodes@[ps + k]));
                    }
                }
            }
        }
        // the appended member sits at the end of the rebuilt range and is
        // the block member under the given identifier
        let m = doc.nodes@[base + dc];
        let tv = tmp@[dc as int].value;
        match tv {
            LiveValue::Array { .. } => {},
            LiveValue::TupleEnum { .. } => {},
            LiveValue::NamedEnum { .. } => {},
            LiveValue::Class { .. } => {},
            _ => {},
        }
        assert(erased(m.value) == erased(tv));
        assert(m.id == member_id);
        assert(m.token_id == mn.token_id);
        assert(erased(m.value) == erased(mn.value));
    }
}

/// Merges the already-expanded base members `[b_start, b_start + b_count)`
/// of the self-contained block `blk` into the class at `dst_ptr`:
///
/// - a member the class lacks is inherited (copied in, keeping the base's
///   source token);
/// - a member the class declares with the same value kind keeps the class's
///   own value (the override case); two classes are merged member by member;
/// - a member the class declares with a different kind is an
///   `IncompatibleOverride` error, unless the base member is a placeholder
///   declaration, which any concrete kind may replace.
fn merge_class_block(
    doc: &mut LiveDocument,
    file_id: FileId,
    dst_ptr: usize,
    blk: &Vec<LiveNode>,
    b_start: usize,
    b_count: usize,
    errs: &mut Vec<LiveError>,
)
    requires
        old(doc).wf(),
        dst_ptr < old(doc).nodes@.len(),
        old(doc).nodes@[dst_ptr as int].value is Class,
        nodes_wf(blk@),
        b_start + b_count <= blk@.len(),
    ensures
        merge_step_ok(*old(doc), *final(doc)),
        seq_extends(final(errs)@, old(errs)@),
        forall|kk: int|
            b_start <= kk < b_start + b_count && (#[trigger] single_id(blk@[kk].id)) is Some
                ==> class_has_member(*final(doc), dst_ptr as int, single_id(blk@[kk].id).unwrap()),
    decreases blk@.len() - b_start,
{
    proof {
        assert(errs@.subrange(0, errs@.len() as int) =~= errs@);
        assert(merge_step_ok(*doc, *doc));
    }
    let blen = blk.len();
    let mut k: usize = 0;
    while k < b_count
        invariant
            k <= b_count,
            blen == blk@.len(),
            merge_step_ok(*old(doc), *doc),
            seq_extends(errs@, old(errs)@),
            forall|kk: int|
                b_start <= kk < b_start + k && (#[trigger] single_id(blk@[kk].id)) is Some
                    ==> class_has_member(*doc, dst_ptr as int, single_id(blk@[kk].id).unwrap()),
        decreases b_count - k,
    {
        proof {
            assert(same_heart(doc.nodes@[dst_ptr as int], old(doc).nodes@[dst_ptr as int]));
            lemma_heart_class(doc.nodes@[dst_ptr as int], old(doc).nodes@[dst_ptr as int]);
        }
        let ghost doc_pre = *doc;
        let ghost errs_pre = errs@;
        let m = blk[b_start + k];
        if let IdPack::Single(mid) = m.id {
            let (ds, dc) = doc.nodes[dst_ptr].value.child_range();
            proof {
                assert(node_range_ok(doc.nodes@, dst_ptr as int));
            }
            match doc.find_sibling(mid, ds, dc) {
                Option::None => {
                    append_member(doc, dst_ptr, blk, b_start + k, m.id);
                    proof {
                        let (qs, qc) = doc.nodes@[dst_ptr as int].value.child_range_spec();
                        assert(doc.nodes@[qs + (qc - 1)].id == IdPack::Single(mid));
                        assert(class_has_member(*doc, dst_ptr as int, mid));
                    }
                },
                Option::Some(j) => {
                    proof {
                        crate::document::lemma_find_sibling_found(
                            doc.nodes@,
                            mid,
                            ds as int,
                            dc as int,
                        );
                        assert(doc.nodes@[(ds as int) + (j - ds)].id == IdPack::Single(mid));
                        assert(class_has_member(*doc, dst_ptr as int, mid));
                    }
                    let dv = doc.nodes[j].value;
                    if m.value.same_kind(&dv) {
                        if m.value.is_class() && dv.is_class() {
                            let (mcs, mcc) = m.value.child_range();
                            proof {
                                assert(node_range_ok(blk@, (b_start + k) as int));
                            }
                            if mcc > 0 {
                                merge_class_block(doc, file_id, j, blk, mcs, mcc, errs);
                            }
                        }
                        // same kind, not classes: the class's own value is
                        // already the override; nothing to do
                    } else if !m.value.is_var_def() {
                        // the base member is concrete and the class changed
                        // its kind: inheritance must not change a value kind
                        let span = doc.span_in(file_id, doc.nodes[j].token_id);
                        errs.push(LiveError { kind: LiveErrorKind::IncompatibleOverride, span });
                        proof {
                            assert(errs@.subrange(0, errs_pre.len() as int) =~= errs_pre);
                        }
                    }
                    // else: the base member is a placeholder declaration and
                    // the class gave its first real definition: keep it
                    proof {
                        assert(merge_step_ok(doc_pre, *doc));
                        lemma_member_kept(doc_pre, *doc, dst_ptr as int, mid);
                    }
                },
            }
            proof {
                assert(class_has_member(*doc, dst_ptr as int, mid));
            }
        }
        proof {
            lemma_merge_trans(*old(doc), doc_pre, *doc);
            assert(seq_extends(errs@, errs_pre)) by {
                assert(errs@.subrange(0, errs_pre.len() as int) =~= errs_pre);
            }
            lemma_extends_trans(errs@, errs_pre, old(errs)@);
            assert forall|kk: int|
                b_start <= kk < b_start + (k + 1) && (#[trigger] single_id(blk@[kk].id))
                    is Some implies class_has_member(
                *doc,
                dst_ptr as int,
                single_id(blk@[kk].id).unwrap(),
            ) by {
                let mid2 = single_id(blk@[kk].id).unwrap();
                if kk < b_start + k {
                    assert(class_has_member(doc_pre, dst_ptr as int, mid2));
                    assert(merge_step_ok(doc_pre, *doc));
                    assert(doc_pre.nodes@[dst_ptr as int].value is Class);
                    lemma_member_kept(doc_pre, *doc, dst_ptr as int, mid2);
                }
            }
        }
        k = k + 1;
    }
}


/// Whether a class-pointer stack already holds `x`.
fn stack_contains(stack: &Vec<usize>, x: usize) -> (b: bool)
    ensures
        b == stack@.contains(x),
{
    let n = stack.len();
    let mut i: usize = 0;
    while i < n
        invariant
            i <= n,
            n == stack@.len(),
            forall|j: int| 0 <= j < i ==> stack@[j] != x,
        decreases n - i,
    {
        if stack[i] == x {
            return true;
        }
        i = i + 1;
    }
    proof {
        assert(!stack@.contains(x));
    }
    false
}

/// A duplicate-free sequence of indices below `n` has at most `n` elements.
pub proof fn lemma_distinct_bounded(s: Seq<usize>, n: int)
    requires
        s.no_duplicates(),
        forall|i: int| 0 <= i < s.len() ==> s[i] < n,
        n >= 0,
    ensures
        s.len() <= n,
{
    let t = s.map_values(|x: usize| x as int);
    assert(t.no_duplicates()) by {
        assert forall|i: int, j: int|
            0 <= i < t.len() && 0 <= j < t.len() && i != j implies t[i] != t[j] by {
            assert(s[i] != s[j]);
        }
    }
    t.unique_seq_to_set();
    vstd::set_lib::lemma_int_range(0, n);
    assert(t.to_set().subset_of(vstd::set_lib::set_int_range(0, n))) by {
        assert forall|x: int| t.to_set().contains(x) implies vstd::set_lib::set_int_range(
            0,
            n,
        ).contains(x) by {
            let i = choose|i: int| 0 <= i < t.len() && t[i] == x;
            assert(s[i] < n);
        }
    }
    vstd::set_lib::lemma_len_subset(t.to_set(), vstd::set_lib::set_int_range(0, n));
}

/// Resolves a class's base reference, seen while expanding `doc`, to a node
/// address: first through the document's scope bindings (latest binding
/// wins), then by a dotted-path scan against the document root; a dotted
/// reference whose first segment resolves to another document is scanned in
/// that already-published document.
fn resolve_base(
    doc: &LiveDocument,
    pack: MultiPack,
    others: &Vec<LiveDocument>,
    others_ok: &Vec<bool>,
) -> (r: Result<LiveScopeTarget, LiveErrorKind>)
    requires
        doc.wf(),
        others@.len() == others_ok@.len(),
        forall|i: int| 0 <= i < others@.len() ==> (#[trigger] others@[i]).wf(),
    ensures
        r matches Ok(t) ==> match t {
            LiveScopeTarget::LocalPtr(p) => p.0 < doc.nodes@.len(),
            LiveScopeTarget::LivePtr(lp) => {
                &&& (lp.file_id.0 as int) < others@.len()
                &&& others_ok@[lp.file_id.0 as int]
                &&& lp.local_ptr.0 < others@[lp.file_id.0 as int].nodes@.len()
            },
        },
{
    match pack {
        MultiPack::SingleId(id) => {
            let scope_count = doc.scopes.len();
            match doc.resolve_identifier(0, scope_count, id) {
                Option::Some(t) => check_target(doc, t, others, others_ok),
                Option::None => {
                    let path = [id];
                    if doc.nodes.len() == 0 {
                        return Err(LiveErrorKind::UnresolvedIdentifier);
                    }
                    match doc.scan_object_path_from(&path, LocalPtr(0)) {
                        Ok(p) => Ok(LiveScopeTarget::LocalPtr(p)),
                        Err(_) => Err(LiveErrorKind::UnresolvedIdentifier),
                    }
                },
            }
        },
        MultiPack::MultiId { index, count } => {
            let ml = doc.multi_ids.len();
            if count == 0 || index >= ml || count > ml - index {
                return Err(LiveErrorKind::UnresolvedIdentifier);
            }
            let first = doc.multi_ids[index];
            let scope_count = doc.scopes.len();
            match doc.resolve_identifier(0, scope_count, first) {
                Option::Some(LiveScopeTarget::LocalPtr(p)) => {
                    if count == 1 {
                        return check_target(doc, LiveScopeTarget::LocalPtr(p), others, others_ok);
                    }
                    let rest = vstd::slice::slice_subrange(
                        doc.multi_ids.as_slice(),
                        index + 1,
                        index + count,
                    );
                    if p.0 >= doc.nodes.len() {
                        return Err(LiveErrorKind::DanglingPointer);
                    }
                    match doc.scan_object_path_from(rest, p) {
                        Ok(q) => Ok(LiveScopeTarget::LocalPtr(q)),
                        Err(e) => Err(e),
                    }
                },
                Option::Some(LiveScopeTarget::LivePtr(lp)) => {
                    let f = lp.file_id.to_index();
                    if f >= others.len() || !others_ok[f] {
                        return Err(LiveErrorKind::UnknownDocument);
                    }
                    if lp.local_ptr.0 >= others[f].nodes.len() {
                        return Err(LiveErrorKind::DanglingPointer);
                    }
                    if count == 1 {
                        return Ok(LiveScopeTarget::LivePtr(lp));
                    }
                    let rest = vstd::slice::slice_subrange(
                        doc.multi_ids.as_slice(),
                        index + 1,
                        index + count,
                    );
                    match others[f].scan_object_path_from(rest, lp.local_ptr) {
                        Ok(q) => Ok(
                            LiveScopeTarget::LivePtr(LivePtr { file_id: lp.file_id, local_ptr: q }),
                        ),
                        Err(e) => Err(e),
                    }
                },
                Option::None => {
                    let path = vstd::slice::slice_subrange(
                        doc.multi_ids.as_slice(),
                        index,
                        index + count,
                    );
                    if doc.nodes.len() == 0 {
                        return Err(LiveErrorKind::UnresolvedIdentifier);
                    }
                    match doc.scan_object_path_from(path, LocalPtr(0)) {
                        Ok(p) => Ok(LiveScopeTarget::LocalPtr(p)),
                        Err(e) => Err(e),
                    }
                },
            }
        },
        MultiPack::LivePtr(lp) => check_target(doc, LiveScopeTarget::LivePtr(lp), others, others_ok),
        MultiPack::Empty => Err(LiveErrorKind::UnresolvedIdentifier),
    }
}

/// Validates a resolved target's address against the documents it points
/// into.
fn check_target(
    doc: &LiveDocument,
    t: LiveScopeTarget,
    others: &Vec<LiveDocument>,
    others_ok: &Vec<bool>,
) -> (r: Result<LiveScopeTarget, LiveErrorKind>)
    requires
        others@.len() == others_ok@.len(),
    ensures
        r matches Ok(t2) ==> t2 == t && match t2 {
            LiveScopeTarget::LocalPtr(p) => p.0 < doc.nodes@.len(),
            LiveScopeTarget::LivePtr(lp) => {
                &&& (lp.file_id.0 as int) < others@.len()
                &&& others_ok@[lp.file_id.0 as int]
                &&& lp.local_ptr.0 < others@[lp.file_id.0 as int].nodes@.len()
            },
        },
{
    match t {
        LiveScopeTarget::LocalPtr(p) => {
            if p.0 < doc.nodes.len() {
                Ok(t)
            } else {
                Err(LiveErrorKind::DanglingPointer)
            }
        },
        LiveScopeTarget::LivePtr(lp) => {
            let f = lp.file_id.to_index();
            if f >= others.len() || !others_ok[f] {
                Err(LiveErrorKind::UnknownDocument)
            } else if lp.local_ptr.0 >= others[f].nodes.len() {
                Err(LiveErrorKind::DanglingPointer)
            } else {
                Ok(t)
            }
        },
    }
}


/// What expansion as a whole promises of the staging document: the arena
/// stays well-formed and only grows, and the pools are untouched.
pub open spec fn expand_step_ok(pre: LiveDocument, post: LiveDocument) -> bool {
    &&& post.wf()
    &&& same_pools(post, pre)
    &&& pre.nodes@.len() <= post.nodes@.len()
}

/// Writes one property along a dotted path into the subtree of the class at
/// `class_ptr`, as the expansion pass applies a declaration:
///
/// - every non-final segment must name a class among the current siblings
///   (`NoSuchProperty` when absent, `CannotSetNonObjectPath` when it names a
///   non-class);
/// - a final segment that matches an existing sibling overwrites its value
///   and source token in place, provided the value kind is unchanged or the
///   existing node was a placeholder declaration; a changed kind is an
///   `IncompatibleOverride`;
/// - an absent final segment appends a new member, relocating the enclosing
///   class's member range to the arena tail.
///
/// The written value is `blk[m_idx].value`, with its subtree carried inside
/// the self-contained block `blk`.  On any error the node arena is exactly
/// as it was.
pub fn write_or_add_node(
    doc: &mut LiveDocument,
    class_ptr: usize,
    path: &[Id],
    blk: &Vec<LiveNode>,
    m_idx: usize,
) -> (r: Result<usize, LiveErrorKind>)
    requires
        old(doc).wf(),
        class_ptr < old(doc).nodes@.len(),
        old(doc).nodes@[class_ptr as int].value is Class,
        nodes_wf(blk@),
        m_idx < blk@.len(),
        path@.len() >= 1,
    ensures
        expand_step_ok(*old(doc), *final(doc)),
        r is Err ==> final(doc).nodes@ == old(doc).nodes@,
        r matches Ok(t) ==> t < final(doc).nodes@.len() && final(doc).nodes@[t as int].id
            == IdPack::Single(path@[path@.len() - 1]),
        ({
            let s = scan_from_spec(old(doc).nodes@, path@, class_ptr as int);
            match s {
                Ok(j) => {
                    let dn = old(doc).nodes@[j];
                    let v = blk@[m_idx as int].value;
                    if dn.value.same_kind_spec(v) || dn.value.is_var_def_spec() {
                        &&& r == Ok::<usize, LiveErrorKind>(j as usize)
                        &&& final(doc).nodes@[j].id == dn.id
                        &&& final(doc).nodes@[j].token_id == blk@[m_idx as int].token_id
                        &&& erased(final(doc).nodes@[j].value) == erased(v)
                    } else {
                        r == Err::<usize, LiveErrorKind>(LiveErrorKind::IncompatibleOverride)
                    }
                },
                Err(_) => true,
            }
        }),
{
    let _n_len = doc.nodes.len();
    let (mut cur_ptr, mut cur_start, mut cur_count): (usize, usize, usize) = match doc.nodes[
        class_ptr
    ].value {
        LiveValue::Class { node_start, node_count, .. } => (class_ptr, node_start, node_count),
        _ => {
            return Err(LiveErrorKind::CannotSetNonObjectPath);
        },
    };
    proof {
        assert(node_range_ok(doc.nodes@, class_ptr as int));
    }
    let ghost root_start = cur_start as int;
    let ghost root_count = cur_count as int;
    let plen = path.len();
    let mut pi: usize = 0;
    while pi + 1 < plen
        invariant
            plen == path@.len(),
            pi < path@.len(),
            doc == old(doc),
            cur_ptr < doc.nodes@.len(),
            doc.nodes@[cur_ptr as int].value is Class,
            doc.nodes@[cur_ptr as int].value.child_range_spec() == (
                cur_start as int,
                cur_count as int,
            ),
            cur_start + cur_count <= doc.nodes@.len(),
            crate::document::scan_path_spec(doc.nodes@, path@, 0, root_start, root_count)
                == crate::document::scan_path_spec(
                doc.nodes@,
                path@,
                pi as int,
                cur_start as int,
                cur_count as int,
            ),
        decreases path@.len() - pi,
    {
        match doc.find_sibling(path[pi], cur_start, cur_count) {
            Option::None => {
                return Err(LiveErrorKind::NoSuchProperty);
            },
            Option::Some(j) => {
                match doc.nodes[j].value {
                    LiveValue::Class { node_start, node_count, .. } => {
                        proof {
                            assert(node_range_ok(doc.nodes@, j as int));
                        }
                        cur_ptr = j;
                        cur_start = node_start;
                        cur_count = node_count;
                    },
                    _ => {
                        return Err(LiveErrorKind::CannotSetNonObjectPath);
                    },
                }
                pi = pi + 1;
            },
        }
    }
    // the final segment
    let m = blk[m_idx];
    match doc.find_sibling(path[pi], cur_start, cur_count) {
        Option::Some(j) => {
            proof {
                crate::document::lemma_find_sibling_found(
                    doc.nodes@,
                    path@[pi as int],
                    cur_start as int,
                    cur_count as int,
                );
            }
            let dn = doc.nodes[j];
            if dn.value.same_kind(&m.value) || dn.value.is_var_def() {
                let new_value = if m.value.is_structural() {
                    let (vcs, vcc) = m.value.child_range();
                    proof {
                        assert(node_range_ok(blk@, m_idx as int));
                    }
                    let mut sub: Vec<LiveNode> = Vec::new();
                    if vcc > 0 {
                        copy_block(blk, vcs, vcc, &mut sub);
                    }
                    let nb = append_block(&mut doc.nodes, &sub);
                    m.value.with_child_range(nb, vcc)
                } else {
                    m.value
                };
                let ghost pre = doc.nodes@;
                doc.nodes.set(j, LiveNode { id: dn.id, token_id: m.token_id, value: new_value });
                proof {
                    lemma_with_range(m.value, 0, 0);
                    if m.value.is_structural_spec() {
                        lemma_with_range(
                            m.value,
                            new_value.child_range_spec().0,
                            new_value.child_range_spec().1,
                        );
                    }
                    assert forall|i: int| 0 <= i < doc.nodes@.len() implies
                        #[trigger] node_range_ok(doc.nodes@, i) by {
                        if i != j {
                            assert(node_range_ok(pre, i));
                        }
                    }
                }
                Ok(j)
            } else {
                Err(LiveErrorKind::IncompatibleOverride)
            }
        },
        Option::None => {
            append_member(doc, cur_ptr, blk, m_idx, IdPack::Single(path[pi]));
            let (ds2, dc2) = doc.nodes[cur_ptr].value.child_range();
            proof {
                assert(node_range_ok(doc.nodes@, cur_ptr as int));
            }
            let _nl = doc.nodes.len();
            Ok(ds2 + dc2 - 1)
        },
    }
}

/// An owned copy of the identifier range `[start, start + count)`.
fn copy_ids(v: &Vec<Id>, start: usize, count: usize) -> (r: Vec<Id>)
    requires
        start + count <= v@.len(),
    ensures
        r@ == v@.subrange(start as int, start + count),
{
    let n = v.len();
    let mut r: Vec<Id> = Vec::new();
    let mut i: usize = 0;
    while i < count
        invariant
            i <= count,
            n == v@.len(),
            r@ == v@.subrange(start as int, start + i),
        decreases count - i,
    {
        r.push(v[start + i]);
        proof {
            assert(r@ =~= v@.subrange(start as int, start + i + 1));
        }
        i = i + 1;
    }
    r
}

/// Applies one dotted-path member of the class at `class_ptr`: writes its
/// value at the path it names and turns the member's own slot into a
/// resolved reference to the written node, so that an expanded document
/// carries no dotted identifiers.
fn apply_multi_member(
    doc: &mut LiveDocument,
    file_id: FileId,
    class_ptr: usize,
    member_ptr: usize,
    index: usize,
    count: usize,
    errs: &mut Vec<LiveError>,
)
    requires
        old(doc).wf(),
        class_ptr < old(doc).nodes@.len(),
        member_ptr < old(doc).nodes@.len(),
    ensures
        expand_step_ok(*old(doc), *final(doc)),
        seq_extends(final(errs)@, old(errs)@),
{
    let ghost errs0 = errs@;
    proof {
        assert(errs@.subrange(0, errs@.len() as int) =~= errs@);
    }
    let node = doc.nodes[member_ptr];
    let ml = doc.multi_ids.len();
    if count == 0 || index >= ml || count > ml - index {
        let span = doc.span_in(file_id, node.token_id);
        errs.push(LiveError { kind: LiveErrorKind::UnresolvedIdentifier, span });
        proof {
            assert(errs@.subrange(0, errs0.len() as int) =~= errs0);
        }
        return;
    }
    if !doc.nodes[class_ptr].value.is_class() {
        let span = doc.span_in(file_id, node.token_id);
        errs.push(LiveError { kind: LiveErrorKind::CannotSetNonObjectPath, span });
        proof {
            assert(errs@.subrange(0, errs0.len() as int) =~= errs0);
        }
        return;
    }
    if count == 1 {
        // a one-segment dotted identifier is the member's own name; unless
        // it overrides an existing sibling, normalizing the slot in place is
        // the whole write
        let seg = doc.multi_ids[index];
        if let LiveValue::Class { node_start: ds, node_count: dc, .. } = doc.nodes[
            class_ptr
        ].value {
            proof {
                assert(node_range_ok(doc.nodes@, class_ptr as int));
            }
            if doc.find_sibling(seg, ds, dc).is_none() {
                let ghost pre = doc.nodes@;
                doc.nodes.set(
                    member_ptr,
                    LiveNode { id: IdPack::Single(seg), token_id: node.token_id, value: node.value },
                );
                proof {
                    assert forall|i: int| 0 <= i < doc.nodes@.len() implies
                        #[trigger] node_range_ok(doc.nodes@, i) by {
                        assert(node_range_ok(pre, i));
                    }
                }
                return;
            }
        }
    }
    let mut blk: Vec<LiveNode> = Vec::new();
    copy_block(&doc.nodes, member_ptr, 1, &mut blk);
    let path = copy_ids(&doc.multi_ids, index, count);
    let r = write_or_add_node(doc, class_ptr, path.as_slice(), &blk, 0);
    match r {
        Ok(target) => {
            let ghost pre = doc.nodes@;
            doc.nodes.set(
                member_ptr,
                LiveNode {
                    id: IdPack::Empty,
                    token_id: node.token_id,
                    value: LiveValue::MultiPack(
                        MultiPack::LivePtr(LivePtr { file_id, local_ptr: LocalPtr(target) }),
                    ),
                },
            );
            proof {
                assert forall|i: int| 0 <= i < doc.nodes@.len() implies #[trigger] node_range_ok(
                    doc.nodes@,
                    i,
                ) by {
                    if i != member_ptr {
                        assert(node_range_ok(pre, i));
                    }
                }
            }
        },
        Err(e) => {
            let span = doc.span_in(file_id, node.token_id);
            errs.push(LiveError { kind: e, span });
            proof {
                assert(errs@.subrange(0, errs0.len() as int) =~= errs0);
            }
        },
    }
}


/// `expand_step_ok` composes, and every merge step is an expansion step.
pub proof fn lemma_expand_trans(a: LiveDocument, b: LiveDocument, c: LiveDocument)
    requires
        expand_step_ok(a, b),
        expand_step_ok(b, c),
    ensures
        expand_step_ok(a, c),
{
}

/// Appends one error, leaving everything already collected in place.
fn push_err(errs: &mut Vec<LiveError>, kind: LiveErrorKind, span: crate::id::Span)
    ensures
        final(errs)@ == old(errs)@.push(LiveError { kind, span }),
        seq_extends(final(errs)@, old(errs)@),
{
    errs.push(LiveError { kind, span });
    proof {
        assert(errs@.subrange(0, old(errs)@.len() as int) =~= old(errs)@);
    }
}

/// Rewrites the base reference of the class at `ptr`, keeping everything
/// else about the node, typically to record the resolved address of a base
/// whose members have just been merged.
fn set_class_base(doc: &mut LiveDocument, ptr: usize, pack: MultiPack)
    requires
        old(doc).wf(),
        ptr < old(doc).nodes@.len(),
        old(doc).nodes@[ptr as int].value is Class,
    ensures
        expand_step_ok(*old(doc), *final(doc)),
        final(doc).nodes@.len() == old(doc).nodes@.len(),
        final(doc).nodes@[ptr as int].value matches LiveValue::Class { class, .. } && class
            == pack,
{
    let dn = doc.nodes[ptr];
    if let LiveValue::Class { node_start, node_count, .. } = dn.value {
        let ghost pre = doc.nodes@;
        doc.nodes.set(
            ptr,
            LiveNode {
                id: dn.id,
                token_id: dn.token_id,
                value: LiveValue::Class { class: pack, node_start, node_count },
            },
        );
        proof {
            assert forall|i: int| 0 <= i < doc.nodes@.len() implies #[trigger] node_range_ok(
                doc.nodes@,
                i,
            ) by {
                if i != ptr {
                    assert(node_range_ok(pre, i));
                } else {
                    assert(node_range_ok(pre, i));
                }
            }
        }
    }
}

/// Expands the node at `ptr` of the staging document, depth first:
///
/// - the children of a structural node are expanded first;
/// - a class whose base reference is still a name is resolved — through the
///   scope bindings, then by a root path scan, locally or in an
///   already-published dependency — the base's own expansion is forced, its
///   members are merged in, and the reference is rewritten to the resolved
///   pointer;
/// - a class member carrying a dotted identifier is applied as a property
///   write into the class's subtree and its slot becomes a resolved
///   reference.
///
/// `stack` holds the classes currently being expanded; meeting one again is
/// an `InheritanceCycle`.  `len0` is the raw arena size: everything the raw
/// parse produced sits below it, and nodes appended during expansion are
/// copies of already-expanded material, so expansion never recurses into
/// them.
fn expand_node(
    doc: &mut LiveDocument,
    file_id: FileId,
    len0: usize,
    ptr: usize,
    stack: &mut Vec<usize>,
    others: &Vec<LiveDocument>,
    others_ok: &Vec<bool>,
    errs: &mut Vec<LiveError>,
)
    requires
        old(doc).wf(),
        ptr < len0,
        len0 <= old(doc).nodes@.len(),
        old(stack)@.no_duplicates(),
        forall|i: int| 0 <= i < old(stack)@.len() ==> old(stack)@[i] < len0,
        others@.len() == others_ok@.len(),
        forall|i: int| 0 <= i < others@.len() ==> (#[trigger] others@[i]).wf(),
    ensures
        expand_step_ok(*old(doc), *final(doc)),
        final(stack)@ == old(stack)@,
        seq_extends(final(errs)@, old(errs)@),
    decreases len0 - stack@.len(),
{
    proof {
        lemma_distinct_bounded(stack@, len0 as int);
        assert(errs@.subrange(0, errs@.len() as int) =~= errs@);
    }
    let node = doc.nodes[ptr];
    if stack_contains(stack, ptr) {
        let span = doc.span_in(file_id, node.token_id);
        push_err(errs, LiveErrorKind::InheritanceCycle, span);
        return;
    }
    stack.push(ptr);
    proof {
        assert(stack@.no_duplicates()) by {
            assert forall|i: int, j: int|
                0 <= i < stack@.len() && 0 <= j < stack@.len() && i != j implies stack@[i]
                != stack@[j] by {
                if i < old(stack)@.len() && j < old(stack)@.len() {
                    assert(old(stack)@[i] != old(stack)@[j]);
                } else if i < old(stack)@.len() {
                    assert(!old(stack)@.contains(stack@[j]));
                } else if j < old(stack)@.len() {
                    assert(!old(stack)@.contains(stack@[i]));
                }
            }
        }
    }
    match node.value {
        LiveValue::Class { node_start: ds, node_count: dc, .. } => {
            proof {
                assert(node_range_ok(old(doc).nodes@, ptr as int));
            }
            let nl0 = doc.nodes.len();
            // expand the members themselves first, so that a nested class's
            // own base is resolved before anything merges into it
            let mut k: usize = 0;
            while k < dc
                invariant
                    k <= dc,
                    ds + dc <= nl0,
                    ds + dc <= doc.nodes@.len(),
                    len0 <= doc.nodes@.len(),
                    expand_step_ok(*old(doc), *doc),
                    stack@ == old(stack)@.push(ptr),
                    stack@.no_duplicates(),
                    forall|i: int| 0 <= i < stack@.len() ==> stack@[i] < len0,
                    seq_extends(errs@, old(errs)@),
                decreases dc - k,
            {
                let ghost doc_pre = *doc;
                let ghost errs_pre = errs@;
                let p = ds + k;
                if p < len0 {
                    proof {
                        lemma_distinct_bounded(stack@, len0 as int);
                    }
                    expand_node(doc, file_id, len0, p, stack, others, others_ok, errs);
                }
                proof {
                    lemma_expand_trans(*old(doc), doc_pre, *doc);
                    assert(seq_extends(errs@, errs_pre)) by {
                        assert(errs@.subrange(0, errs_pre.len() as int) =~= errs_pre);
                    }
                    lemma_extends_trans(errs@, errs_pre, old(errs)@);
                }
                k = k + 1;
            }
            // resolve and merge the base
            let node2 = doc.nodes[ptr];
            if let LiveValue::Class { class: base_pack, .. } = node2.value {
                if base_pack.is_unresolved() {
                    let ghost doc_pre = *doc;
                    let ghost errs_pre = errs@;
                    match resolve_base(doc, base_pack, others, others_ok) {
                        Err(e) => {
                            let span = doc.span_in(file_id, node2.token_id);
                            push_err(errs, e, span);
                        },
                        Ok(LiveScopeTarget::LocalPtr(p)) => {
                            if p.0 == ptr {
                                let span = doc.span_in(file_id, node2.token_id);
                                push_err(errs, LiveErrorKind::InheritanceCycle, span);
                            } else {
                                if p.0 < len0 {
                                    proof {
                                        lemma_distinct_bounded(stack@, len0 as int);
                                    }
                                    expand_node(
                                        doc,
                                        file_id,
                                        len0,
                                        p.0,
                                        stack,
                                        others,
                                        others_ok,
                                        errs,
                                    );
                                }
                                let ghost doc_mid = *doc;
                                let ghost errs_mid = errs@;
                                proof {
                                    assert(expand_step_ok(doc_pre, doc_mid));
                                    assert(seq_extends(errs_mid, errs_pre)) by {
                                        assert(errs_mid.subrange(0, errs_pre.len() as int)
                                            =~= errs_pre);
                                    }
                                }
                                if p.0 < doc.nodes.len() {
                                    let bnode = doc.nodes[p.0];
                                    let bnode2 = doc.nodes[ptr];
                                    if let LiveValue::Class {
                                        node_start: bs,
                                        node_count: bc,
                                        ..
                                    } = bnode.value {
                                        if bnode2.value.is_class() {
                                            proof {
                                                assert(node_range_ok(doc.nodes@, p.0 as int));
                                            }
                                            let mut blk: Vec<LiveNode> = Vec::new();
                                            copy_block(&doc.nodes, bs, bc, &mut blk);
                                            let ghost doc_m1 = *doc;
                                            merge_class_block(
                                                doc,
                                                file_id,
                                                ptr,
                                                &blk,
                                                0,
                                                bc,
                                                errs,
                                            );
                                            let ghost doc_m2 = *doc;
                                            let bnode3 = doc.nodes[ptr];
                                            if bnode3.value.is_class() {
                                                set_class_base(
                                                    doc,
                                                    ptr,
                                                    MultiPack::LivePtr(
                                                        LivePtr { file_id, local_ptr: p },
                                                    ),
                                                );
                                            }
                                            proof {
                                                assert(expand_step_ok(doc_m1, doc_m2));
                                                assert(expand_step_ok(doc_m2, *doc));
                                                lemma_expand_trans(doc_m1, doc_m2, *doc);
                                            }
                                        }
                                    } else {
                                        let span = doc.span_in(file_id, node2.token_id);
                                        push_err(errs, LiveErrorKind::UnresolvedIdentifier, span);
                                    }
                                }
                                proof {
                                    lemma_expand_trans(doc_pre, doc_mid, *doc);
                                    assert(seq_extends(errs@, errs_mid)) by {
                                        assert(errs@.subrange(0, errs_mid.len() as int)
                                            =~= errs_mid);
                                    }
                                    lemma_extends_trans(errs@, errs_mid, errs_pre);
                                }
                            }
                        },
                        Ok(LiveScopeTarget::LivePtr(lp)) => {
                            let f = lp.file_id.to_index();
                            let bnode = others[f].resolve_ptr(lp.local_ptr);
                            if let LiveValue::Class { node_start: bs, node_count: bc, .. } =
                                bnode.value {
                                proof {
                                    assert(node_range_ok(others@[f as int].nodes@, lp.local_ptr.0 as int));
                                }
                                let mut blk: Vec<LiveNode> = Vec::new();
                                copy_block(&others[f].nodes, bs, bc, &mut blk);
                                let bnode2 = doc.nodes[ptr];
                                if bnode2.value.is_class() {
                                    let ghost doc_m1 = *doc;
                                    merge_class_block(doc, file_id, ptr, &blk, 0, bc, errs);
                                    let ghost doc_m2 = *doc;
                                    let bnode3 = doc.nodes[ptr];
                                    if bnode3.value.is_class() {
                                        set_class_base(doc, ptr, MultiPack::LivePtr(lp));
                                    }
                                    proof {
                                        assert(expand_step_ok(doc_m1, doc_m2));
                                        assert(expand_step_ok(doc_m2, *doc));
                                        lemma_expand_trans(doc_m1, doc_m2, *doc);
                                    }
                                }
                            } else {
                                let span = doc.span_in(file_id, node2.token_id);
                                push_err(errs, LiveErrorKind::UnresolvedIdentifier, span);
                            }
                        },
                    }
                    proof {
                        assert(expand_step_ok(doc_pre, *doc));
                        lemma_expand_trans(*old(doc), doc_pre, *doc);
                        assert(seq_extends(errs@, errs_pre)) by {
                            assert(errs@.subrange(0, errs_pre.len() as int) =~= errs_pre);
                        }
                        lemma_extends_trans(errs@, errs_pre, old(errs)@);
                    }
                }
            }
            // apply the dotted-path members the raw parse put in this class
            let mut k2: usize = 0;
            while k2 < dc
                invariant
                    k2 <= dc,
                    expand_step_ok(*old(doc), *doc),
                    stack@ == old(stack)@.push(ptr),
                    seq_extends(errs@, old(errs)@),
                decreases dc - k2,
            {
                let ghost doc_pre = *doc;
                let ghost errs_pre = errs@;
                if let LiveValue::Class { node_start: ds3, node_count: dc3, .. } = doc.nodes[
                    ptr
                ].value {
                    let _nl3 = doc.nodes.len();
                    proof {
                        assert(node_range_ok(doc.nodes@, ptr as int));
                    }
                    if k2 < dc3 {
                        let p = ds3 + k2;
                        if let IdPack::Multi { index, count } = doc.nodes[p].id {
                            apply_multi_member(doc, file_id, ptr, p, index, count, errs);
                        }
                    }
                }
                proof {
                    lemma_expand_trans(*old(doc), doc_pre, *doc);
                    assert(seq_extends(errs@, errs_pre)) by {
                        assert(errs@.subrange(0, errs_pre.len() as int) =~= errs_pre);
                    }
                    lemma_extends_trans(errs@, errs_pre, old(errs)@);
                }
                k2 = k2 + 1;
            }
        },
        LiveValue::Array { node_start: ds, node_count: dc }
        | LiveValue::TupleEnum { node_start: ds, node_count: dc, .. }
        | LiveValue::NamedEnum { node_start: ds, node_count: dc, .. } => {
            proof {
                assert(node_range_ok(old(doc).nodes@, ptr as int));
            }
            let nl0 = doc.nodes.len();
            let mut k: usize = 0;
            while k < dc
                invariant
                    k <= dc,
                    ds + dc <= nl0,
                    ds + dc <= doc.nodes@.len(),
                    len0 <= doc.nodes@.len(),
                    expand_step_ok(*old(doc), *doc),
                    stack@ == old(stack)@.push(ptr),
                    stack@.no_duplicates(),
                    forall|i: int| 0 <= i < stack@.len() ==> stack@[i] < len0,
                    seq_extends(errs@, old(errs)@),
                decreases dc - k,
            {
                let ghost doc_pre = *doc;
                let ghost errs_pre = errs@;
                let p = ds + k;
                if let IdPack::Multi { .. } = doc.nodes[p].id {
                    // a dotted identifier makes no sense outside a class
                    let span = doc.span_in(file_id, doc.nodes[p].token_id);
                    push_err(errs, LiveErrorKind::CannotSetNonObjectPath, span);
                } else if p < len0 {
                    proof {
                        lemma_distinct_bounded(stack@, len0 as int);
                    }
                    expand_node(doc, file_id, len0, p, stack, others, others_ok, errs);
                }
                proof {
                    lemma_expand_trans(*old(doc), doc_pre, *doc);
                    assert(seq_extends(errs@, errs_pre)) by {
                        assert(errs@.subrange(0, errs_pre.len() as int) =~= errs_pre);
                    }
                    lemma_extends_trans(errs@, errs_pre, old(errs)@);
                }
                k = k + 1;
            }
        },
        _ => {},
    }
    let _ = stack.pop();
    proof {
        assert(stack@ =~= old(stack)@);
    }
}

/// Expands a whole staging document against the set of already-published
/// documents.  A document that is already fully expanded is left exactly as
/// it is — expansion is the identity on its own output — so re-running
/// expansion over published documents changes nothing.  All errors found are
/// collected; the caller publishes the document only when none came back and
/// the result passes the expansion checks.
pub fn expand_document(
    doc: &mut LiveDocument,
    file_id: FileId,
    others: &Vec<LiveDocument>,
    others_ok: &Vec<bool>,
    errs: &mut Vec<LiveError>,
)
    requires
        others@.len() == others_ok@.len(),
        forall|i: int| 0 <= i < others@.len() ==> (#[trigger] others@[i]).wf(),
    ensures
        old(doc).wf() && doc_expanded(*old(doc)) ==> *final(doc) == *old(doc) && final(errs)@
            == old(errs)@,
        old(doc).wf() ==> final(doc).wf(),
        old(doc).wf() ==> same_pools(*final(doc), *old(doc)),
        seq_extends(final(errs)@, old(errs)@),
        final(errs)@ == old(errs)@ ==> final(doc).wf() && doc_expanded(*final(doc)),
{
    proof {
        assert(errs@.subrange(0, errs@.len() as int) =~= errs@);
    }
    let e0 = errs.len();
    if !check_nodes_wf(&doc.nodes) {
        // a malformed arena cannot be expanded; report it against no span
        push_err(errs, LiveErrorKind::DanglingPointer, crate::id::Span::unknown());
        return;
    }
    if doc_expanded_exec(doc) {
        return;
    }
    if doc.nodes.len() == 0 {
        return;
    }
    if !doc.nodes[0].value.is_class() {
        let span = doc.span_in(file_id, doc.nodes[0].token_id);
        push_err(errs, LiveErrorKind::NotAnObjectPath, span);
        return;
    }
    let len0 = doc.nodes.len();
    let mut stack: Vec<usize> = Vec::new();
    expand_node(doc, file_id, len0, 0, &mut stack, others, others_ok, errs);
    let ghost errs_mid = errs@;
    if errs.len() == e0 && !doc_expanded_exec(doc) {
        // a reference stayed unresolved without a more specific report;
        // the document must not pass as clean
        push_err(errs, LiveErrorKind::UnresolvedIdentifier, crate::id::Span::unknown());
        proof {
            assert(seq_extends(errs@, errs_mid)) by {
                assert(errs@.subrange(0, errs_mid.len() as int) =~= errs_mid);
            }
            lemma_extends_trans(errs@, errs_mid, old(errs)@);
        }
    }
}

} // verus!
