//! The render payload: the serialized form of a widget tree that crosses the
//! sandbox/host boundary, and its validation against the component model.
//!
//! The payload is a flat node list in depth-first preorder: every node but the
//! first names the position of its parent, which always lies earlier in the
//! list, and siblings appear in child order. Validation accepts a payload
//! exactly when it is such a tree and every node obeys the schema: a declared
//! kind, only declared properties with matching value tags, and children
//! permitted under their parent's declaration.

use vstd::prelude::*;

use crate::model::content_matches;
use crate::model::NodeContent;
use crate::model::ValidationError;
use crate::schema::ComponentModel;
use crate::tree::WidgetTree;

verus! {

/// One serialized node: the widget's id, its content, and the position of its
/// parent in the payload (absent only for the root).
pub struct PayloadNode {
    pub id: u32,
    pub content: NodeContent,
    pub parent_index: Option<usize>,
}

/// A serialized widget tree.
pub struct RenderPayload {
    pub nodes: Vec<PayloadNode>,
}

/// Structural well-formedness: a nonempty preorder list in which every
/// non-root node names an earlier element node as its parent, and no widget
/// id occurs twice.
pub open spec fn payload_wf(p: RenderPayload) -> bool {
    &&& p.nodes@.len() >= 1
    &&& p.nodes@[0].parent_index is None
    &&& p.nodes@[0].content.is_element()
    &&& forall|j: int|
        1 <= j < p.nodes@.len() ==> (#[trigger] p.nodes@[j]).parent_index is Some
            && p.nodes@[j].parent_index.unwrap() < j
            && p.nodes@[p.nodes@[j].parent_index.unwrap() as int].content.is_element()
    &&& forall|j1: int, j2: int|
        0 <= j1 < j2 < p.nodes@.len() ==> p.nodes@[j1].id != p.nodes@[j2].id
}

/// Schema conformance of one non-root node under its parent's declaration.
pub open spec fn child_ok(p: RenderPayload, m: ComponentModel, j: int) -> bool {
    let pi = p.nodes@[j].parent_index.unwrap() as int;
    let pd = m.decl_of(p.nodes@[pi].content.spec_widget_type());
    if p.nodes@[j].content.is_element() {
        pd.allows_child_kind(p.nodes@[j].content.spec_widget_type())
    } else {
        pd.children.allow_text
    }
}

/// Schema conformance of the whole payload.
pub open spec fn payload_conforms(p: RenderPayload, m: ComponentModel) -> bool {
    &&& forall|j: int|
        0 <= j < p.nodes@.len() && (#[trigger] p.nodes@[j]).content.is_element() ==> m.has_decl(
            p.nodes@[j].content.spec_widget_type(),
        ) && m.decl_of(p.nodes@[j].content.spec_widget_type()).allows_batch(
            p.nodes@[j].content.spec_properties(),
        )
    &&& forall|j: int| 1 <= j < p.nodes@.len() ==> #[trigger] child_ok(p, m, j)
}

/// A payload is accepted by render validation exactly when both hold.
pub open spec fn payload_valid(p: RenderPayload, m: ComponentModel) -> bool {
    payload_wf(p) && payload_conforms(p, m)
}

/// Every live node of the tree obeys the schema: elements carry a declared
/// kind and permitted properties, and every attached node is permitted under
/// its parent's declaration.
pub open spec fn tree_conforms(t: WidgetTree, m: ComponentModel) -> bool {
    &&& forall|i: int|
        0 <= i < t.len() && t.live(i) && #[trigger] t.is_element(i) ==> m.has_decl(
            t.widget_type_of(i),
        ) && m.decl_of(t.widget_type_of(i)).allows_batch(t.properties_of(i))
    &&& forall|i: int|
        0 <= i < t.len() && t.live(i) && (#[trigger] t.parent_of(i)) is Some ==> {
            let q = t.parent_of(i).unwrap() as int;
            let pd = m.decl_of(t.widget_type_of(q));
            if t.is_element(i) {
                pd.allows_child_kind(t.widget_type_of(i))
            } else {
                pd.children.allow_text
            }
        }
}

/// The position of `c` in the child list of node `p` (meaningful when the
/// list, which is duplicate-free on a well-formed tree, contains it).
pub open spec fn child_pos(t: WidgetTree, p: int, c: u32) -> int {
    choose|k: int| 0 <= k < t.children_of(p).len() && t.children_of(p)[k] == c
}

/// Payload entries in `[lo, hi)` that share a parent entry appear in the
/// relative order their ids hold in that parent's child list: sibling order
/// is preserved end to end.
#[verifier::opaque]
pub open spec fn siblings_ordered(t: WidgetTree, nodes: Seq<PayloadNode>, lo: int, hi: int) -> bool {
    forall|j1: int, j2: int|
        #![trigger nodes[j1].parent_index, nodes[j2].parent_index]
        lo <= j1 < j2 < hi && nodes[j1].parent_index is Some && nodes[j1].parent_index
            == nodes[j2].parent_index ==> {
            let pi = nodes[j1].parent_index.unwrap() as int;
            let pid = nodes[pi].id as int;
            child_pos(t, pid, nodes[j1].id) < child_pos(t, pid, nodes[j2].id)
        }
}

/// The payload is a faithful serialization of the tree: every entry mirrors a
/// live node, every non-root entry's parent pointer mirrors a real edge, no
/// widget id occurs twice, every node attached below the root appears, and
/// siblings appear in their child-list order.
pub open spec fn serialized_form(t: WidgetTree, p: RenderPayload) -> bool {
    &&& p.nodes@.len() >= 1
    &&& (forall|x: int|
        0 <= x < t.len() && t.in_subtree(0, x) ==> exists|j: int|
            0 <= j < p.nodes@.len() && (#[trigger] p.nodes@[j]).id == x as u32)
    &&& p.nodes@[0].id == 0
    &&& p.nodes@[0].parent_index is None
    &&& forall|j: int|
        0 <= j < p.nodes@.len() ==> t.live((#[trigger] p.nodes@[j]).id as int) && content_matches(
            p.nodes@[j].content,
            t.nodes@[p.nodes@[j].id as int].content,
        )
    &&& forall|j: int|
        1 <= j < p.nodes@.len() ==> (#[trigger] p.nodes@[j]).parent_index is Some
            && p.nodes@[j].parent_index.unwrap() < j && t.parent_of(p.nodes@[j].id as int) == Some(
            p.nodes@[p.nodes@[j].parent_index.unwrap() as int].id,
        )
    &&& forall|j1: int, j2: int|
        0 <= j1 < j2 < p.nodes@.len() ==> p.nodes@[j1].id != p.nodes@[j2].id
    &&& siblings_ordered(t, p.nodes@, 0, p.nodes@.len() as int)
}

/// One child batch keeps sibling order: after the subtree of child number
/// `k` of node `i` is appended, entries pointing at slot `s` are still the
/// direct children emitted so far, in child-list order, and any two entries
/// sharing a parent are ordered by their positions in that parent's list.
proof fn lemma_sibling_order_step(
    t: WidgetTree,
    i: u32,
    s: int,
    k: int,
    ch: u32,
    pre: Seq<PayloadNode>,
    cur: Seq<PayloadNode>,
)
    requires
        t.wf(),
        t.live(i as int),
        0 <= k < t.children_of(i as int).len(),
        ch == t.children_of(i as int)[k],
        0 <= s < pre.len() <= cur.len(),
        cur.len() > pre.len(),
        forall|j: int| 0 <= j < pre.len() ==> cur[j] == pre[j],
        cur[s as int].id == i,
        cur[pre.len() as int].id == ch,
        cur[pre.len() as int].parent_index == Some(s as usize),
        forall|j: int|
            #![trigger cur[j].parent_index]
            pre.len() < j < cur.len() ==> cur[j].parent_index is Some && pre.len() <= cur[
                j
            ].parent_index.unwrap() < j,
        forall|j: int|
            #![trigger pre[j].parent_index]
            s < j < pre.len() ==> pre[j].parent_index is Some && s <= pre[j].parent_index.unwrap()
                < j,
        forall|j: int|
            #![trigger pre[j].parent_index]
            s < j < pre.len() && pre[j].parent_index.unwrap() == s ==> t.children_of(
                i as int,
            ).contains(pre[j].id) && child_pos(t, i as int, pre[j].id) < k,
        siblings_ordered(t, pre, s + 1, pre.len() as int),
        siblings_ordered(t, cur, pre.len() as int, cur.len() as int),
    ensures
        forall|j: int|
            #![trigger cur[j].parent_index]
            s < j < cur.len() && cur[j].parent_index.unwrap() == s ==> t.children_of(
                i as int,
            ).contains(cur[j].id) && child_pos(t, i as int, cur[j].id) < k + 1,
        siblings_ordered(t, cur, s + 1, cur.len() as int),
{
    assert(t.node_ok(i as int));
    assert(t.children_of(i as int).contains(ch));
    assert(child_pos(t, i as int, ch) == k) by {
        let kk = child_pos(t, i as int, ch);
        assert(0 <= kk < t.children_of(i as int).len() && t.children_of(i as int)[kk] == ch);
    }
    assert forall|j: int|
        #![trigger cur[j].parent_index]
        s < j < cur.len() && cur[j].parent_index.unwrap() == s implies t.children_of(
        i as int,
    ).contains(cur[j].id) && child_pos(t, i as int, cur[j].id) < k + 1 by {
        if j < pre.len() {
            assert(cur[j] == pre[j]);
        } else if j == pre.len() {
            assert(cur[j].id == ch);
        } else {
            assert(pre.len() <= cur[j].parent_index.unwrap() < j);
        }
    }
    assert(siblings_ordered(t, cur, s + 1, cur.len() as int)) by {
        reveal(siblings_ordered);
        assert forall|j1: int, j2: int|
            #![trigger cur[j1].parent_index, cur[j2].parent_index]
            s < j1 < j2 < cur.len() && cur[j1].parent_index is Some && cur[j1].parent_index
            == cur[j2].parent_index implies {
            let pi2 = cur[j1].parent_index.unwrap() as int;
            let pid = cur[pi2].id as int;
            child_pos(t, pid, cur[j1].id) < child_pos(t, pid, cur[j2].id)
        } by {
            let pi2 = cur[j1].parent_index.unwrap() as int;
            if j2 < pre.len() {
                assert(cur[j1] == pre[j1] && cur[j2] == pre[j2]);
                assert(cur[pi2] == pre[pi2]);
            } else if j1 >= pre.len() {
                // both emitted below ch: the recursive call ordered them
            } else {
                // j1 earlier, j2 new: a shared parent can only be this node
                assert(s <= pi2 < j1);
                if j2 == pre.len() {
                    assert(cur[j2].parent_index == Some(s as usize));
                    assert(pi2 == s);
                    assert(cur[j1].parent_index.unwrap() == s);
                    assert(child_pos(t, i as int, cur[j1].id) < k);
                    assert(cur[j2].id == ch);
                } else {
                    assert(pre.len() <= cur[j2].parent_index.unwrap() < j2);
                }
            }
        }
    }
}

/// Emits `i` and its whole subtree in preorder.
#[verifier::rlimit(100)]
fn emit(t: &WidgetTree, i: u32, parent_index: Option<usize>, out: &mut Vec<PayloadNode>)
    requires
        t.wf(),
        t.live(i as int),
        match parent_index {
            Some(pi) => pi < old(out)@.len() && t.parent_of(i as int) == Some(
                old(out)@[pi as int].id,
            ),
            None => t.parent_of(i as int) is None,
        },
    ensures
        final(out)@.len() > old(out)@.len(),
        final(out)@.take(old(out)@.len() as int) == old(out)@,
        final(out)@[old(out)@.len() as int].id == i,
        final(out)@[old(out)@.len() as int].parent_index == parent_index,
        forall|j: int|
            old(out)@.len() <= j < final(out)@.len() ==> t.live(
                (#[trigger] final(out)@[j]).id as int,
            ) && content_matches(final(out)@[j].content, t.nodes@[final(out)@[j].id as int].content)
                && t.in_subtree(i as int, final(out)@[j].id as int),
        forall|j: int|
            old(out)@.len() < j < final(out)@.len() ==> (#[trigger] final(out)@[j]).parent_index
                is Some && old(out)@.len() <= final(out)@[j].parent_index.unwrap() < j
                && t.parent_of(final(out)@[j].id as int) == Some(
                final(out)@[final(out)@[j].parent_index.unwrap() as int].id,
            ),
        forall|j1: int, j2: int|
            old(out)@.len() <= j1 < j2 < final(out)@.len() ==> final(out)@[j1].id
                != final(out)@[j2].id,
        forall|x: int|
            #![trigger t.in_subtree(i as int, x)]
            0 <= x < t.len() && t.in_subtree(i as int, x) ==> exists|j: int|
                old(out)@.len() <= j < final(out)@.len() && final(out)@[j].id == x as u32,
        siblings_ordered(*t, final(out)@, old(out)@.len() as int, final(out)@.len() as int),
    decreases usize::MAX as int - t.nodes@[i as int].depth,
{
    let ghost gl = out@;
    let s = out.len();
    let content = t.nodes[i as usize].content.duplicate();
    out.push(PayloadNode { id: i, content, parent_index });
    proof {
        assert(siblings_ordered(*t, out@, s + 1, out@.len() as int)) by {
            reveal(siblings_ordered);
        }
    }
    let m = t.nodes[i as usize].children.len();
    let mut k: usize = 0;
    while k < m
        invariant
            t.wf(),
            t.live(i as int),
            0 <= (i as int) < t.len(),
            m == t.children_of(i as int).len(),
            k <= m,
            s == gl.len(),
            out@.len() > s,
            out@.take(s as int) == gl,
            out@[s as int].id == i,
            out@[s as int].parent_index == parent_index,
            forall|j: int|
                s <= j < out@.len() ==> t.live((#[trigger] out@[j]).id as int) && content_matches(
                    out@[j].content,
                    t.nodes@[out@[j].id as int].content,
                ),
            forall|j: int|
                #![trigger out@[j]]
                s < j < out@.len() ==> exists|kk: int|
                    0 <= kk < k && t.in_subtree(
                        #[trigger] t.children_of(i as int)[kk] as int,
                        out@[j].id as int,
                    ),
            forall|j: int|
                s < j < out@.len() ==> (#[trigger] out@[j]).parent_index is Some && s <= out@[
                    j
                ].parent_index.unwrap() < j && t.parent_of(out@[j].id as int) == Some(
                    out@[out@[j].parent_index.unwrap() as int].id,
                ),
            forall|j1: int, j2: int| s <= j1 < j2 < out@.len() ==> out@[j1].id != out@[j2].id,
            forall|j: int|
                #![trigger out@[j].parent_index]
                s < j < out@.len() && out@[j].parent_index.unwrap() == s ==> t.children_of(
                    i as int,
                ).contains(out@[j].id) && child_pos(*t, i as int, out@[j].id) < k,
            siblings_ordered(*t, out@, s + 1, out@.len() as int),
            forall|x: int, kk: int|
                #![trigger t.in_subtree(t.children_of(i as int)[kk] as int, x)]
                0 <= x < t.len() && 0 <= kk < k && t.in_subtree(
                    t.children_of(i as int)[kk] as int,
                    x,
                ) ==> exists|j: int| s < j < out@.len() && out@[j].id == x as u32,
        decreases m - k,
    {
        let ch = t.nodes[i as usize].children[k];
        proof {
            assert(t.edge_ok(i as int, k as int));
            assert(t.node_ok(i as int));
        }
        let ghost pre = out@;
        emit(t, ch, Some(s), out);
        proof {
            let cur = out@;
            assert(cur.take(pre.len() as int) == pre);
            assert forall|j: int| 0 <= j < pre.len() implies cur[j] == pre[j] by {
                assert(cur.take(pre.len() as int)[j] == cur[j]);
            }
            assert(cur.take(s as int) =~= gl);
            assert forall|j: int|
                s <= j < cur.len() implies t.live((#[trigger] cur[j]).id as int)
                && content_matches(cur[j].content, t.nodes@[cur[j].id as int].content) by {
                if j < pre.len() {
                    assert(cur[j] == pre[j]);
                }
            }
            assert forall|j: int|
                s < j < cur.len() implies (#[trigger] cur[j]).parent_index is Some && s <= cur[
                j
            ].parent_index.unwrap() < j && t.parent_of(cur[j].id as int) == Some(
                cur[cur[j].parent_index.unwrap() as int].id,
            ) by {
                if j < pre.len() {
                    assert(cur[j] == pre[j]);
                    let pi2 = cur[j].parent_index.unwrap() as int;
                    assert(cur[pi2] == pre[pi2]);
                } else if j == pre.len() {
                    assert(cur[j].id == ch);
                    assert(cur[j].parent_index == Some(s));
                    assert(t.parent_of(ch as int) == Some(i));
                    assert(cur[s as int].id == i);
                } else {
                    let pi2 = cur[j].parent_index.unwrap() as int;
                    assert(pre.len() <= pi2 < j);
                }
            }
            assert forall|j: int| #![trigger cur[j]]
                s < j < cur.len() implies exists|kk: int|
                0 <= kk < k + 1 && t.in_subtree(
                    #[trigger] t.children_of(i as int)[kk] as int,
                    cur[j].id as int,
                ) by {
                if j < pre.len() {
                    assert(cur[j] == pre[j]);
                    let kk = choose|kk: int|
                        0 <= kk < k && t.in_subtree(
                            #[trigger] t.children_of(i as int)[kk] as int,
                            pre[j].id as int,
                        );
                    assert(t.in_subtree(t.children_of(i as int)[kk] as int, cur[j].id as int));
                } else {
                    assert(t.in_subtree(
                        t.children_of(i as int)[k as int] as int,
                        cur[j].id as int,
                    ));
                }
            }
            assert forall|x: int, kk: int|
                #![trigger t.in_subtree(t.children_of(i as int)[kk] as int, x)]
                0 <= x < t.len() && 0 <= kk < k + 1 && t.in_subtree(
                    t.children_of(i as int)[kk] as int,
                    x,
                ) implies exists|j: int| s < j < cur.len() && cur[j].id == x as u32 by {
                if kk < k {
                    let j = choose|j: int| s < j < pre.len() && pre[j].id == x as u32;
                    assert(cur[j] == pre[j]);
                } else {
                    let j = choose|j: int|
                        pre.len() <= j < cur.len() && cur[j].id == x as u32;
                    assert(s < j);
                }
            }
            assert(cur[s as int].parent_index == parent_index);
            assert(cur[s as int].id == i);
            lemma_sibling_order_step(*t, i, s as int, k as int, ch, pre, cur);
            assert forall|j1: int, j2: int| s <= j1 < j2 < cur.len() implies cur[j1].id
                != cur[j2].id by {
                if j2 < pre.len() {
                    assert(cur[j1] == pre[j1] && cur[j2] == pre[j2]);
                } else if j1 >= pre.len() {
                } else if j1 == s as int {
                    // the subtree below ch is strictly deeper than i
                    assert(cur[j1].id == i);
                    t.lemma_subtree_facts(ch as int, cur[j2].id as int);
                    assert(t.depth_of(cur[j2].id as int) >= t.depth_of(ch as int));
                } else {
                    // entries of earlier sibling subtrees cannot repeat in ch's
                    let kk = choose|kk: int|
                        0 <= kk < k && t.in_subtree(
                            #[trigger] t.children_of(i as int)[kk] as int,
                            pre[j1].id as int,
                        );
                    let other = t.children_of(i as int)[kk] as int;
                    assert(t.edge_ok(i as int, kk));
                    assert(other != ch as int);
                    t.lemma_subtree_disjoint(other, ch as int, cur[j1].id as int);
                }
            }
        }
        k += 1;
    }
    proof {
        let cur = out@;
        assert(siblings_ordered(*t, cur, s as int, cur.len() as int)) by {
            reveal(siblings_ordered);
            assert forall|j1: int, j2: int|
                #![trigger cur[j1].parent_index, cur[j2].parent_index]
                s <= j1 < j2 < cur.len() && cur[j1].parent_index is Some && cur[j1].parent_index
                == cur[j2].parent_index implies {
                let pi2 = cur[j1].parent_index.unwrap() as int;
                let pid = cur[pi2].id as int;
                child_pos(*t, pid, cur[j1].id) < child_pos(*t, pid, cur[j2].id)
            } by {
                if j1 == s as int {
                    // the root of this batch points below the batch; no later
                    // entry shares that parent pointer
                    assert(cur[j1].parent_index == parent_index);
                    assert(s <= cur[j2].parent_index.unwrap() < j2);
                }
            }
        }
        assert(t.in_subtree(i as int, i as int));
        assert forall|x: int|
            #![trigger t.in_subtree(i as int, x)]
            0 <= x < t.len() && t.in_subtree(i as int, x) implies exists|j: int|
            s <= j < cur.len() && cur[j].id == x as u32 by {
            if x == i as int {
                assert(cur[s as int].id == x as u32);
            } else {
                let kk = choose|kk: int|
                    0 <= kk < t.nodes@[i as int].children@.len() && t.in_subtree(
                        #[trigger] t.nodes@[i as int].children@[kk] as int,
                        x,
                    );
                assert(t.in_subtree(t.children_of(i as int)[kk] as int, x));
                t.lemma_subtree_facts(t.children_of(i as int)[kk] as int, x);
            }
        }
        assert forall|j: int|
            s <= j < cur.len() implies t.in_subtree(i as int, (#[trigger] cur[j]).id as int) by {
            if j > s as int {
                let kk = choose|kk: int|
                    0 <= kk < k && t.in_subtree(
                        #[trigger] t.children_of(i as int)[kk] as int,
                        cur[j].id as int,
                    );
                assert(t.in_subtree(i as int, cur[j].id as int));
            }
        }
    }
}

/// Serializes the tree for a render submission: the root and every node
/// attached below it, in depth-first preorder.
pub fn serialize_tree(t: &WidgetTree) -> (p: RenderPayload)
    requires
        t.wf(),
    ensures
        serialized_form(*t, p),
{
    let mut nodes: Vec<PayloadNode> = Vec::new();
    emit(t, 0, None, &mut nodes);
    RenderPayload { nodes }
}

/// Validates a deserialized payload against the component model. Accepts
/// exactly the payloads that are structurally a tree and obey the schema;
/// refused payloads are reported with the first violation found.
pub fn validate_payload(p: &RenderPayload, m: &ComponentModel) -> (r: Result<(), ValidationError>)
    requires
        m.wf(),
    ensures
        r is Ok <==> payload_valid(*p, *m),
        r matches Err(e) ==> !(e is UnknownEntrypoint),
{
    let n = p.nodes.len();
    if n == 0 {
        return Err(ValidationError::MalformedStructure);
    }
    if !p.nodes[0].parent_index.is_none() {
        return Err(ValidationError::MalformedStructure);
    }
    let root_is_element = match &p.nodes[0].content {
        NodeContent::Element { .. } => true,
        NodeContent::Text { .. } => false,
    };
    if !root_is_element {
        return Err(ValidationError::MalformedStructure);
    }
    let mut j: usize = 1;
    while j < n
        invariant
            n == p.nodes@.len(),
            1 <= j <= n,
            forall|x: int|
                1 <= x < j ==> (#[trigger] p.nodes@[x]).parent_index is Some
                    && p.nodes@[x].parent_index.unwrap() < x
                    && p.nodes@[p.nodes@[x].parent_index.unwrap() as int].content.is_element(),
        decreases n - j,
    {
        match p.nodes[j].parent_index {
            None => {
                return Err(ValidationError::MalformedStructure);
            },
            Some(pi) => {
                if pi >= j {
                    return Err(ValidationError::MalformedStructure);
                }
                let parent_is_element = match &p.nodes[pi].content {
                    NodeContent::Element { .. } => true,
                    NodeContent::Text { .. } => false,
                };
                if !parent_is_element {
                    return Err(ValidationError::MalformedStructure);
                }
            },
        }
        j += 1;
    }
    let mut j1: usize = 0;
    while j1 < n
        invariant
            n == p.nodes@.len(),
            j1 <= n,
            forall|x: int, y: int| 0 <= x < y < n && x < j1 ==> p.nodes@[x].id != p.nodes@[y].id,
        decreases n - j1,
    {
        let mut j2: usize = j1 + 1;
        while j2 < n
            invariant
                n == p.nodes@.len(),
                j1 < j2 <= n || (j1 + 1 == j2 && j2 >= n),
                j1 < n,
                forall|y: int| j1 < y < j2 ==> p.nodes@[j1 as int].id != p.nodes@[y].id,
            decreases n - j2,
        {
            if p.nodes[j1].id == p.nodes[j2].id {
                return Err(ValidationError::MalformedStructure);
            }
            j2 += 1;
        }
        j1 += 1;
    }
    let mut w: usize = 0;
    while w < n
        invariant
            n == p.nodes@.len(),
            w <= n,
            m.wf(),
            payload_wf(*p),
            forall|x: int|
                0 <= x < w && (#[trigger] p.nodes@[x]).content.is_element() ==> m.has_decl(
                    p.nodes@[x].content.spec_widget_type(),
                ) && m.decl_of(p.nodes@[x].content.spec_widget_type()).allows_batch(
                    p.nodes@[x].content.spec_properties(),
                ),
            forall|x: int| 1 <= x < w ==> #[trigger] child_ok(*p, *m, x),
        decreases n - w,
    {
        match &p.nodes[w].content {
            NodeContent::Element { widget_type, properties } => {
                match m.lookup(widget_type) {
                    None => {
                        return Err(ValidationError::UnknownKind);
                    },
                    Some(decl) => {
                        match decl.validate_batch(properties) {
                            Err(e) => {
                                return Err(e);
                            },
                            Ok(()) => {},
                        }
                    },
                }
            },
            NodeContent::Text { .. } => {},
        }
        if w >= 1 {
            let pi = match p.nodes[w].parent_index {
                Some(pi) => pi,
                // unreachable: the structure pass established a parent
                None => {
                    return Err(ValidationError::MalformedStructure);
                },
            };
            let pwt = match &p.nodes[pi].content {
                NodeContent::Element { widget_type, .. } => widget_type,
                // unreachable: the structure pass established an element parent
                NodeContent::Text { .. } => {
                    return Err(ValidationError::MalformedStructure);
                },
            };
            let pd = match m.lookup(pwt) {
                Some(d) => d,
                None => {
                    proof {
                        assert(p.nodes@[pi as int].content.is_element());
                    }
                    return Err(ValidationError::UnknownKind);
                },
            };
            let node_is_element = match &p.nodes[w].content {
                NodeContent::Element { .. } => true,
                NodeContent::Text { .. } => false,
            };
            if node_is_element {
                let wt = match &p.nodes[w].content {
                    NodeContent::Element { widget_type, .. } => widget_type,
                    // unreachable: tested as an element just above
                    NodeContent::Text { .. } => {
                        return Err(ValidationError::MalformedStructure);
                    },
                };
                if !pd.permits_child_kind(wt) {
                    proof {
                        assert(!child_ok(*p, *m, w as int));
                    }
                    return Err(ValidationError::ChildKindNotPermitted);
                }
            } else {
                if !pd.children.allow_text {
                    proof {
                        assert(!child_ok(*p, *m, w as int));
                    }
                    return Err(ValidationError::TextNotPermitted);
                }
            }
        }
        w += 1;
    }
    Ok(())
}

/// Round trip: a well-formed tree that conforms to the component model
/// serializes to a payload that render validation accepts.
pub proof fn lemma_round_trip(t: WidgetTree, p: RenderPayload, m: ComponentModel)
    requires
        t.wf(),
        m.wf(),
        tree_conforms(t, m),
        serialized_form(t, p),
    ensures
        payload_valid(p, m),
{
    assert(t.nodes@[0].content.is_element());
    assert(p.nodes@[0].content.is_element());
    assert forall|j: int|
        1 <= j < p.nodes@.len() implies (#[trigger] p.nodes@[j]).parent_index is Some
        && p.nodes@[j].parent_index.unwrap() < j
        && p.nodes@[p.nodes@[j].parent_index.unwrap() as int].content.is_element() by {
        let pi = p.nodes@[j].parent_index.unwrap() as int;
        let id = p.nodes@[j].id as int;
        let pid = p.nodes@[pi].id as int;
        assert(t.parent_of(id) == Some(p.nodes@[pi].id));
        assert(t.node_ok(id));
        assert(t.nodes@[pid].content.is_element());
        assert(content_matches(p.nodes@[pi].content, t.nodes@[pid].content));
    }
    assert(payload_wf(p));
    assert forall|j: int|
        0 <= j < p.nodes@.len() && (#[trigger] p.nodes@[j]).content.is_element() implies m.has_decl(
        p.nodes@[j].content.spec_widget_type(),
    ) && m.decl_of(p.nodes@[j].content.spec_widget_type()).allows_batch(
        p.nodes@[j].content.spec_properties(),
    ) by {
        let id = p.nodes@[j].id as int;
        assert(t.live(id) && content_matches(p.nodes@[j].content, t.nodes@[id].content));
        assert(t.is_element(id));
    }
    assert forall|j: int| 1 <= j < p.nodes@.len() implies #[trigger] child_ok(p, m, j) by {
        let pi = p.nodes@[j].parent_index.unwrap() as int;
        let id = p.nodes@[j].id as int;
        let pid = p.nodes@[pi].id as int;
        assert(t.parent_of(id) == Some(p.nodes@[pi].id));
        assert(t.live(id));
        assert(content_matches(p.nodes@[j].content, t.nodes@[id].content));
        assert(content_matches(p.nodes@[pi].content, t.nodes@[pid].content));
    }
}

} // verus!
