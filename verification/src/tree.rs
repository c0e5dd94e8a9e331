//! The host-owned widget tree. Nodes live in one id-indexed store; a node's id
//! is the index at which it was created, handed to the sandbox as its only
//! handle. The store keeps, besides each node's content and ordered child
//! list, two pieces of bookkeeping with purely local invariants: the node's
//! depth (a child is always one deeper than its parent, which rules out
//! cycles) and the id of the top ancestor of its attachment component (which
//! lets attach operations find every node that moves without walking edges).
//!
//! Every mutating operation validates all of its arguments first and only then
//! mutates, so a refused call leaves the tree exactly as it was.

use vstd::prelude::*;

use crate::model::NodeContent;
use crate::model::Property;
use crate::model::UiError;
use crate::model::UiWidget;
use crate::model::UiWidgetId;
use crate::model::ValidationError;
use crate::schema::ComponentModel;

verus! {

/// One stored node. `depth` and `comp_root` are attachment bookkeeping: for a
/// detached component root they are 0 and the node's own id; along every
/// parent/child edge the child is one deeper and shares its parent's
/// component root.
pub struct WidgetNode {
    pub alive: bool,
    pub parent: Option<UiWidgetId>,
    pub depth: usize,
    pub comp_root: UiWidgetId,
    pub content: NodeContent,
    pub children: Vec<UiWidgetId>,
}

/// The tree store. Node 0 is the singleton root container, created with the
/// store and never removed.
pub struct WidgetTree {
    pub nodes: Vec<WidgetNode>,
}

impl WidgetTree {
    pub open spec fn len(self) -> int {
        self.nodes@.len() as int
    }

    /// The id refers to a node of the current tree: created and not removed.
    pub open spec fn live(self, i: int) -> bool {
        0 <= i < self.len() && self.nodes@[i].alive
    }

    pub open spec fn is_element(self, i: int) -> bool {
        self.nodes@[i].content.is_element()
    }

    pub open spec fn is_text(self, i: int) -> bool {
        self.nodes@[i].content.is_text()
    }

    pub open spec fn children_of(self, i: int) -> Seq<UiWidgetId> {
        self.nodes@[i].children@
    }

    pub open spec fn parent_of(self, i: int) -> Option<UiWidgetId> {
        self.nodes@[i].parent
    }

    pub open spec fn depth_of(self, i: int) -> int {
        self.nodes@[i].depth as int
    }

    pub open spec fn widget_type_of(self, i: int) -> Seq<char> {
        self.nodes@[i].content.spec_widget_type()
    }

    pub open spec fn properties_of(self, i: int) -> Seq<Property> {
        self.nodes@[i].content.spec_properties()
    }

    pub open spec fn text_of(self, i: int) -> Seq<char> {
        self.nodes@[i].content.spec_text()
    }

    /// A node may be attached somewhere: it is live, is not the root, and has
    /// no parent yet.
    pub open spec fn detached(self, i: int) -> bool {
        self.live(i) && i != 0 && self.parent_of(i) is None
    }

    /// Everything about node `i` alone. Removed nodes keep their content but
    /// hold no edges; parentless live nodes are component roots of depth 0.
    pub open spec fn node_ok(self, i: int) -> bool {
        let n = self.nodes@[i];
        &&& (!n.alive ==> n.children@.len() == 0 && n.parent is None)
        &&& (n.alive && n.parent is None ==> n.depth == 0 && n.comp_root == i as u32)
        &&& (n.alive && n.parent is Some ==> {
            let p = n.parent.unwrap() as int;
            &&& 0 <= p < self.len()
            &&& i != 0
            &&& self.nodes@[p].alive
            &&& self.nodes@[p].content.is_element()
            &&& self.nodes@[p].children@.contains(i as u32)
        })
        &&& (n.alive ==> n.depth < self.len())
        &&& (forall|k1: int, k2: int|
            0 <= k1 < k2 < n.children@.len() ==> n.children@[k1] != n.children@[k2])
    }

    /// Everything about the edge from node `i` to its `k`-th child.
    pub open spec fn edge_ok(self, i: int, k: int) -> bool {
        let c = self.nodes@[i].children@[k] as int;
        &&& self.nodes@[i].alive
        &&& self.nodes@[i].content.is_element()
        &&& 0 <= c < self.len()
        &&& self.nodes@[c].alive
        &&& self.nodes@[c].parent == Some(i as u32)
        &&& self.nodes@[c].depth == self.nodes@[i].depth + 1
        &&& self.nodes@[c].comp_root == self.nodes@[i].comp_root
    }

    /// Well-formedness of the whole store; every operation preserves it.
    pub open spec fn wf(self) -> bool {
        &&& 1 <= self.len() <= u32::MAX as int
        &&& self.nodes@[0].alive
        &&& self.nodes@[0].parent is None
        &&& self.nodes@[0].content.is_element()
        &&& (forall|i: int| 0 <= i < self.len() ==> #[trigger] self.node_ok(i))
        &&& (forall|i: int, k: int|
            #![trigger self.nodes@[i].children@[k]]
            0 <= i < self.len() && 0 <= k < self.nodes@[i].children@.len() ==> self.edge_ok(i, k))
    }

    /// Node `x` lies in the subtree hanging from `root` (following child
    /// edges; a node is in its own subtree). Terminates because children are
    /// strictly deeper than their parents.
    pub open spec fn in_subtree(self, root: int, x: int) -> bool
        decreases usize::MAX as int - self.nodes@[root].depth
            when self.wf() && 0 <= root < self.len() && self.nodes@[root].alive
            via Self::in_subtree_decreases
    {
        x == root || exists|k: int|
            0 <= k < self.nodes@[root].children@.len() && self.in_subtree(
                #[trigger] self.nodes@[root].children@[k] as int,
                x,
            )
    }

    #[via_fn]
    proof fn in_subtree_decreases(self, root: int, x: int) {
        assert forall|k: int|
            #![trigger self.nodes@[root].children@[k]]
            0 <= k < self.nodes@[root].children@.len() implies {
            let c = self.nodes@[root].children@[k] as int;
            &&& 0 <= c < self.len()
            &&& self.nodes@[c].alive
            &&& self.nodes@[c].depth > self.nodes@[root].depth
        } by {
            assert(self.edge_ok(root, k));
        }
    }

    /// Both nodes of every edge are identical in the two trees. Used to state
    /// which nodes an operation left untouched.
    pub open spec fn node_same(self, other: WidgetTree, i: int) -> bool {
        self.nodes@[i] == other.nodes@[i]
    }

    /// Identical but for the attachment bookkeeping: the parts of a node the
    /// sandbox can observe (liveness, content, edges) agree.
    pub open spec fn node_same_shape(self, other: WidgetTree, i: int) -> bool {
        &&& self.nodes@[i].alive == other.nodes@[i].alive
        &&& self.nodes@[i].content == other.nodes@[i].content
        &&& self.nodes@[i].children@ == other.nodes@[i].children@
        &&& self.nodes@[i].parent == other.nodes@[i].parent
    }

    /// Basic facts about subtree membership: members are live, no shallower
    /// than the subtree's root, and reachable from it through their parent.
    pub proof fn lemma_subtree_facts(self, root: int, x: int)
        requires
            self.wf(),
            self.live(root),
            self.in_subtree(root, x),
        ensures
            self.live(x),
            self.depth_of(x) >= self.depth_of(root),
            x != root ==> self.parent_of(x) is Some
                && self.in_subtree(root, self.parent_of(x).unwrap() as int)
                && self.depth_of(x) > self.depth_of(root),
        decreases usize::MAX as int - self.nodes@[root].depth,
    {
        if x != root {
            let k = choose|k: int|
                0 <= k < self.nodes@[root].children@.len() && self.in_subtree(
                    #[trigger] self.nodes@[root].children@[k] as int,
                    x,
                );
            let c = self.nodes@[root].children@[k] as int;
            assert(self.edge_ok(root, k));
            assert(self.node_ok(c));
            self.lemma_subtree_facts(c, x);
            if x == c {
                assert(self.in_subtree(root, root));
            }
        }
    }

    /// A child of a subtree member is itself a subtree member.
    pub proof fn lemma_subtree_child(self, root: int, p: int, k: int)
        requires
            self.wf(),
            self.live(root),
            self.in_subtree(root, p),
            0 <= k < self.children_of(p).len(),
        ensures
            self.in_subtree(root, self.children_of(p)[k] as int),
        decreases usize::MAX as int - self.nodes@[root].depth,
    {
        self.lemma_subtree_facts(root, p);
        if p == root {
            assert(self.edge_ok(p, k));
            let c = self.nodes@[p].children@[k] as int;
            assert(self.in_subtree(c, c));
        } else {
            let k0 = choose|k0: int|
                0 <= k0 < self.nodes@[root].children@.len() && self.in_subtree(
                    #[trigger] self.nodes@[root].children@[k0] as int,
                    p,
                );
            let c0 = self.nodes@[root].children@[k0] as int;
            assert(self.edge_ok(root, k0));
            assert(self.node_ok(c0));
            self.lemma_subtree_child(c0, p, k);
        }
    }

    /// Two distinct, equally deep roots have disjoint subtrees.
    pub proof fn lemma_subtree_disjoint(self, r1: int, r2: int, x: int)
        requires
            self.wf(),
            self.live(r1),
            self.live(r2),
            r1 != r2,
            self.depth_of(r1) == self.depth_of(r2),
            self.in_subtree(r1, x),
        ensures
            !self.in_subtree(r2, x),
        decreases self.nodes@[x].depth,
    {
        if self.in_subtree(r2, x) {
            self.lemma_subtree_facts(r1, x);
            self.lemma_subtree_facts(r2, x);
            if x == r1 {
                // x == r1 lies strictly below r2, yet they are equally deep.
                assert(false);
            } else if x == r2 {
                assert(false);
            } else {
                let q = self.parent_of(x).unwrap() as int;
                assert(self.node_ok(x));
                assert(self.nodes@[q].children@.contains(x as u32));
                let k = choose|k: int|
                    0 <= k < self.nodes@[q].children@.len() && self.nodes@[q].children@[k]
                        == x as u32;
                assert(self.edge_ok(q, k));
                self.lemma_subtree_disjoint(r1, r2, q);
            }
        }
    }

    /// Creates the store holding only the root container.
    pub fn new(root_widget_type: String) -> (t: WidgetTree)
        ensures
            t.wf(),
            t.len() == 1,
            t.live(0),
            t.is_element(0),
            t.widget_type_of(0) == root_widget_type@,
            t.properties_of(0) == Seq::<Property>::empty(),
            t.children_of(0) == Seq::<UiWidgetId>::empty(),
    {
        let root = WidgetNode {
            alive: true,
            parent: None,
            depth: 0,
            comp_root: 0,
            content: NodeContent::Element { widget_type: root_widget_type, properties: Vec::new() },
            children: Vec::new(),
        };
        let mut nodes: Vec<WidgetNode> = Vec::new();
        nodes.push(root);
        WidgetTree { nodes }
    }

    /// The singleton root id for this render location.
    pub fn get_container(&self) -> (w: UiWidget)
        ensures
            w.widget_id == 0,
    {
        UiWidget { widget_id: 0 }
    }

    /// Creates a fresh, detached element node and returns its id, the next
    /// unused integer. The node's kind is fixed from here on.
    pub fn create_instance(&mut self, widget_type: String, properties: Vec<Property>) -> (id: UiWidgetId)
        requires
            old(self).wf(),
            old(self).len() < u32::MAX as int,
        ensures
            final(self).wf(),
            id as int == old(self).len(),
            final(self).len() == old(self).len() + 1,
            final(self).detached(id as int),
            final(self).is_element(id as int),
            final(self).widget_type_of(id as int) == widget_type@,
            final(self).properties_of(id as int) == properties@,
            final(self).children_of(id as int) == Seq::<UiWidgetId>::empty(),
            forall|i: int|
                #![trigger final(self).nodes@[i]]
                0 <= i < old(self).len() ==> old(self).node_same(*final(self), i),
    {
        self.push_node(NodeContent::Element { widget_type, properties })
    }

    /// Creates a fresh, detached text instance and returns its id.
    pub fn create_text_instance(&mut self, text: String) -> (id: UiWidgetId)
        requires
            old(self).wf(),
            old(self).len() < u32::MAX as int,
        ensures
            final(self).wf(),
            id as int == old(self).len(),
            final(self).len() == old(self).len() + 1,
            final(self).detached(id as int),
            final(self).is_text(id as int),
            final(self).text_of(id as int) == text@,
            final(self).children_of(id as int) == Seq::<UiWidgetId>::empty(),
            forall|i: int|
                #![trigger final(self).nodes@[i]]
                0 <= i < old(self).len() ==> old(self).node_same(*final(self), i),
    {
        self.push_node(NodeContent::Text { text })
    }

    /// Creates a fresh element with the given kind and properties; the clone
    /// shares nothing with any existing node, it only repeats its data.
    pub fn clone_instance(&mut self, widget_type: String, properties: Vec<Property>) -> (id: UiWidgetId)
        requires
            old(self).wf(),
            old(self).len() < u32::MAX as int,
        ensures
            final(self).wf(),
            id as int == old(self).len(),
            final(self).len() == old(self).len() + 1,
            final(self).detached(id as int),
            final(self).is_element(id as int),
            final(self).widget_type_of(id as int) == widget_type@,
            final(self).properties_of(id as int) == properties@,
            forall|i: int|
                #![trigger final(self).nodes@[i]]
                0 <= i < old(self).len() ==> old(self).node_same(*final(self), i),
    {
        self.create_instance(widget_type, properties)
    }

    /// Node `j` belongs to the detached component rooted at `c`.
    pub open spec fn in_component(self, c: int, j: int) -> bool {
        self.live(j) && self.nodes@[j].comp_root == c as u32
    }

    /// Attaching the component of `c` below `p` keeps every moved node's
    /// depth strictly below the store size.
    pub open spec fn depth_fits(self, p: int, c: int) -> bool {
        forall|j: int|
            0 <= j < self.len() && self.in_component(c, j)
                ==> (#[trigger] self.nodes@[j]).depth + self.nodes@[p].depth + 1 < self.len()
    }

    /// When `append_child` or `insert_before` succeeds: the parent is a live
    /// element, the child is live and detached, the parent does not hang below
    /// the child, and the depth bookkeeping stays in bounds.
    pub open spec fn can_attach(self, p: int, c: int) -> bool {
        &&& self.live(p)
        &&& self.is_element(p)
        &&& self.live(c)
        &&& self.detached(c)
        &&& self.nodes@[p].comp_root != c as u32
        &&& self.depth_fits(p, c)
    }

    fn depth_fits_check(&self, p: u32, c: u32) -> (b: bool)
        requires
            self.wf(),
            self.live(p as int),
        ensures
            b == self.depth_fits(p as int, c as int),
    {
        let n = self.nodes.len();
        proof {
            assert(self.node_ok(p as int));
        }
        let dp1: u64 = self.nodes[p as usize].depth as u64 + 1;
        let mut i: usize = 0;
        while i < n
            invariant
                n == self.nodes@.len(),
                self.wf(),
                0 <= (p as int) < n,
                dp1 == self.nodes@[p as int].depth + 1,
                dp1 <= u32::MAX as u64,
                forall|j: int|
                    0 <= j < i && self.in_component(c as int, j)
                        ==> (#[trigger] self.nodes@[j]).depth + self.nodes@[p as int].depth + 1
                            < n,
            decreases n - i,
        {
            if self.nodes[i].alive && self.nodes[i].comp_root == c {
                proof {
                    assert(self.node_ok(i as int));
                    assert(self.in_component(c as int, i as int));
                }
                if self.nodes[i].depth as u64 + dp1 >= n as u64 {
                    proof {
                        assert(self.nodes@[i as int].depth + self.nodes@[p as int].depth + 1
                            >= n);
                        assert(!self.depth_fits(p as int, c as int));
                    }
                    return false;
                }
            }
            i += 1;
        }
        true
    }

    /// Splices the detached component of `c` below `p`, as child number `pos`.
    fn do_attach(&mut self, p: u32, c: u32, pos: usize)
        requires
            old(self).wf(),
            old(self).can_attach(p as int, c as int),
            pos <= old(self).children_of(p as int).len(),
        ensures
            final(self).wf(),
            final(self).len() == old(self).len(),
            final(self).children_of(p as int) == old(self).children_of(p as int).insert(
                pos as int,
                c,
            ),
            final(self).parent_of(c as int) == Some(p),
            final(self).nodes@[p as int].alive == old(self).nodes@[p as int].alive,
            final(self).nodes@[p as int].content == old(self).nodes@[p as int].content,
            final(self).nodes@[p as int].parent == old(self).nodes@[p as int].parent,
            final(self).nodes@[c as int].alive == old(self).nodes@[c as int].alive,
            final(self).nodes@[c as int].content == old(self).nodes@[c as int].content,
            final(self).nodes@[c as int].children@ == old(self).nodes@[c as int].children@,
            forall|i: int|
                #![trigger final(self).nodes@[i]]
                0 <= i < old(self).len() && i != p as int && i != c as int
                    ==> old(self).node_same_shape(*final(self), i),
    {
        let ghost o = *old(self);
        let pv = p as usize;
        let cv = c as usize;
        let n = self.nodes.len();
        let dp: usize = self.nodes[pv].depth;
        let cr: u32 = self.nodes[pv].comp_root;
        let mut i: usize = 0;
        while i < n
            invariant
                n == self.nodes@.len(),
                n == o.nodes@.len(),
                o.wf(),
                o.can_attach(p as int, c as int),
                pv == p as int,
                cv == c as int,
                0 <= (p as int) < n,
                dp == o.nodes@[p as int].depth,
                cr == o.nodes@[p as int].comp_root,
                forall|j: int| i <= j < n ==> self.nodes@[j] == o.nodes@[j],
                forall|j: int|
                    0 <= j < i && o.in_component(c as int, j) ==> #[trigger] self.nodes@[j]
                        == (WidgetNode {
                        depth: (o.nodes@[j].depth + dp + 1) as usize,
                        comp_root: cr,
                        ..o.nodes@[j]
                    }),
                forall|j: int|
                    0 <= j < i && !o.in_component(c as int, j) ==> self.nodes@[j] == o.nodes@[j],
            decreases n - i,
        {
            if self.nodes[i].alive && self.nodes[i].comp_root == c {
                proof {
                    assert(self.nodes@[i as int] == o.nodes@[i as int]);
                    assert(o.in_component(c as int, i as int));
                    assert(o.nodes@[i as int].depth + o.nodes@[p as int].depth + 1 < n);
                }
                let nd: usize = self.nodes[i].depth + dp + 1;
                let node = &mut self.nodes[i];
                node.depth = nd;
                node.comp_root = cr;
            }
            i += 1;
        }
        proof {
            // The parent is not part of the moved component, so its fields
            // read before the loop still describe it.
            assert(!o.in_component(c as int, p as int));
            assert(self.nodes@[p as int] == o.nodes@[p as int]);
        }
        let node = &mut self.nodes[cv];
        node.parent = Some(p);
        let parent_node = &mut self.nodes[pv];
        parent_node.children.insert(pos, c);
        proof {
            let t = *self;
            let pi = p as int;
            let ci = c as int;
            assert(o.node_ok(ci));
            assert(o.nodes@[ci].depth == 0 && o.nodes@[ci].comp_root == c);
            assert(o.in_component(ci, ci));
            // c was nobody's child before: a child has a parent.
            assert forall|i2: int, k: int|
                #![trigger o.nodes@[i2].children@[k]]
                0 <= i2 < n && 0 <= k < o.nodes@[i2].children@.len() implies o.nodes@[i2].children@[k]
                != c by {
                assert(o.edge_ok(i2, k));
            }
            assert(t.children_of(pi) == o.children_of(pi).insert(pos as int, c));
            // Node facts, case by case on what the operation touched.
            assert forall|i2: int| 0 <= i2 < n implies #[trigger] t.node_ok(i2) by {
                assert(o.node_ok(i2));
                let tn = t.nodes@[i2];
                let on = o.nodes@[i2];
                if i2 == ci {
                    assert(tn.parent == Some(p));
                    assert(t.nodes@[pi].children@[pos as int] == c);
                    assert(t.nodes@[pi].children@.contains(c));
                    assert(tn.children@ == on.children@);
                    assert forall|k1: int, k2: int|
                        0 <= k1 < k2 < tn.children@.len() implies tn.children@[k1]
                        != tn.children@[k2] by {}
                } else if i2 == pi {
                    assert(tn.alive == on.alive && tn.parent == on.parent && tn.content
                        == on.content);
                    if on.parent is Some {
                        let q = on.parent.unwrap() as int;
                        assert(!o.in_component(ci, q));
                        assert(t.nodes@[q].children@ == o.nodes@[q].children@);
                    }
                    // The new child list keeps all old members once and adds c,
                    // which was not there.
                    assert(!on.children@.contains(c));
                    assert forall|k1: int, k2: int|
                        0 <= k1 < k2 < tn.children@.len() implies tn.children@[k1]
                        != tn.children@[k2] by {
                        let oc = on.children@;
                        let a1: int = if k1 < pos as int { k1 } else { k1 - 1 };
                        let a2: int = if k2 < pos as int { k2 } else { k2 - 1 };
                        if k1 == pos as int {
                            assert(tn.children@[k2] == oc[a2]);
                            assert(oc.contains(oc[a2]));
                        } else if k2 == pos as int {
                            assert(tn.children@[k1] == oc[a1]);
                            assert(oc.contains(oc[a1]));
                        } else {
                            assert(tn.children@[k1] == oc[a1]);
                            assert(tn.children@[k2] == oc[a2]);
                        }
                    }
                } else {
                    assert(tn.alive == on.alive && tn.parent == on.parent && tn.children@
                        == on.children@);
                    if on.alive && on.parent is Some {
                        let q = on.parent.unwrap() as int;
                        if q == pi {
                            assert(o.nodes@[q].children@.contains(i2 as u32));
                            let ki = choose|ki: int|
                                0 <= ki < o.nodes@[q].children@.len() && o.nodes@[q].children@[ki]
                                    == i2 as u32;
                            let nki: int = if ki < pos as int {
                                ki
                            } else {
                                ki + 1
                            };
                            assert(t.nodes@[q].children@[nki] == i2 as u32);
                            assert(t.nodes@[q].children@.contains(i2 as u32));
                        } else {
                            assert(t.nodes@[q].children@ == o.nodes@[q].children@);
                        }
                        assert(t.nodes@[q].alive == o.nodes@[q].alive);
                        assert(t.nodes@[q].content == o.nodes@[q].content);
                    }
                    if on.alive && o.in_component(ci, i2) {
                        assert(tn.depth == on.depth + dp + 1);
                        assert(on.depth + o.nodes@[pi].depth + 1 < n);
                    }
                }
            }
            // Edge facts.
            assert forall|i2: int, k: int|
                #![trigger t.nodes@[i2].children@[k]]
                0 <= i2 < n && 0 <= k < t.nodes@[i2].children@.len() implies t.edge_ok(i2, k) by {
                if i2 == pi {
                    let oc = o.nodes@[pi].children@;
                    if k == pos as int {
                        // the new edge to c
                        assert(t.nodes@[pi].children@[k] == c);
                        assert(t.nodes@[ci].depth == dp + 1);
                        assert(t.nodes@[ci].comp_root == cr);
                        assert(t.nodes@[pi].depth == dp);
                        assert(t.nodes@[pi].comp_root == cr);
                    } else {
                        let a: int = if k < pos as int { k } else { k - 1 };
                        assert(t.nodes@[pi].children@[k] == oc[a]);
                        assert(o.edge_ok(pi, a));
                        let ch = oc[a] as int;
                        assert(o.nodes@[ch].comp_root == o.nodes@[pi].comp_root);
                        assert(!o.in_component(ci, ch));
                        assert(t.nodes@[ch] == o.nodes@[ch]);
                    }
                } else {
                    assert(t.nodes@[i2].children@ == o.nodes@[i2].children@);
                    assert(o.edge_ok(i2, k));
                    let ch = o.nodes@[i2].children@[k] as int;
                    assert(ch != ci);
                    if o.in_component(ci, i2) {
                        assert(o.in_component(ci, ch));
                        assert(t.nodes@[ch].depth == o.nodes@[ch].depth + dp + 1);
                        assert(t.nodes@[ch].comp_root == cr);
                        assert(t.nodes@[i2].depth == o.nodes@[i2].depth + dp + 1);
                        assert(t.nodes@[i2].comp_root == cr);
                    } else {
                        assert(!o.in_component(ci, ch));
                        assert(t.nodes@[ch].alive == o.nodes@[ch].alive);
                        assert(t.nodes@[ch].parent == o.nodes@[ch].parent);
                        assert(t.nodes@[ch].depth == o.nodes@[ch].depth);
                        assert(t.nodes@[ch].comp_root == o.nodes@[ch].comp_root);
                        assert(t.nodes@[i2].alive == o.nodes@[i2].alive);
                        assert(t.nodes@[i2].content == o.nodes@[i2].content);
                        assert(t.nodes@[i2].depth == o.nodes@[i2].depth);
                        assert(t.nodes@[i2].comp_root == o.nodes@[i2].comp_root);
                    }
                }
            }
            assert(t.nodes@[0].alive);
            assert(t.nodes@[0].parent is None);
            assert(t.nodes@[0].content.is_element());
        }
    }

    /// Appends a detached node at the end of a live element's child list.
    /// Fails with a lookup error on an unknown or removed id, and otherwise
    /// refuses exactly the attachments that would break the tree shape; a
    /// refused call leaves the tree unchanged.
    pub fn append_child(&mut self, parent: UiWidget, child: UiWidget) -> (r: Result<(), UiError>)
        requires
            old(self).wf(),
        ensures
            final(self).wf(),
            r is Ok <==> old(self).can_attach(parent.widget_id as int, child.widget_id as int),
            r is Err ==> *final(self) == *old(self),
            r is Ok ==> {
                let p = parent.widget_id as int;
                let c = child.widget_id as int;
                &&& final(self).len() == old(self).len()
                &&& final(self).children_of(p) == old(self).children_of(p).push(child.widget_id)
                &&& final(self).children_of(c) == old(self).children_of(c)
                &&& final(self).parent_of(c) == Some(parent.widget_id)
                &&& final(self).nodes@[p].content == old(self).nodes@[p].content
                &&& final(self).nodes@[c].content == old(self).nodes@[c].content
                &&& final(self).live(p) && final(self).live(c)
                &&& forall|i: int|
                    #![trigger final(self).nodes@[i]]
                    0 <= i < old(self).len() && i != p && i != c ==> old(self).node_same_shape(
                        *final(self),
                        i,
                    )
            },
            r == Err::<(), UiError>(UiError::NotFound) <==> !old(self).live(parent.widget_id as int)
                || !old(self).live(child.widget_id as int),
            r == Err::<(), UiError>(UiError::NotAnElement) <==> old(self).live(
                parent.widget_id as int,
            ) && old(self).live(child.widget_id as int) && !old(self).is_element(
                parent.widget_id as int,
            ),
            r == Err::<(), UiError>(UiError::AlreadyAttached) <==> old(self).live(
                parent.widget_id as int,
            ) && old(self).live(child.widget_id as int) && old(self).is_element(
                parent.widget_id as int,
            ) && !old(self).detached(child.widget_id as int),
            r == Err::<(), UiError>(UiError::WouldCycle) <==> old(self).live(
                parent.widget_id as int,
            ) && old(self).live(child.widget_id as int) && old(self).is_element(
                parent.widget_id as int,
            ) && old(self).detached(child.widget_id as int) && old(self).nodes@[parent.widget_id as int].comp_root
                == child.widget_id,
            r == Err::<(), UiError>(UiError::TooDeep) <==> old(self).live(parent.widget_id as int)
                && old(self).live(child.widget_id as int) && old(self).is_element(
                parent.widget_id as int,
            ) && old(self).detached(child.widget_id as int) && old(self).nodes@[parent.widget_id as int].comp_root
                != child.widget_id && !old(self).depth_fits(
                parent.widget_id as int,
                child.widget_id as int,
            ),
    {
        let p = parent.widget_id;
        let c = child.widget_id;
        match self.check_attach(p, c) {
            Some(e) => Err(e),
            None => {
                let pos = self.nodes[p as usize].children.len();
                proof {
                    assert(old(self).children_of(p as int).insert(
                        old(self).children_of(p as int).len() as int,
                        c,
                    ) =~= old(self).children_of(p as int).push(c));
                }
                self.do_attach(p, c, pos);
                Ok(())
            },
        }
    }

    /// Shared argument validation for the attach operations; returns the
    /// refusal, or nothing when `can_attach` holds. Read-only.
    fn check_attach(&self, p: u32, c: u32) -> (r: Option<UiError>)
        requires
            self.wf(),
        ensures
            r is None <==> self.can_attach(p as int, c as int),
            r == Some(UiError::NotFound) <==> !self.live(p as int) || !self.live(c as int),
            r == Some(UiError::NotAnElement) <==> self.live(p as int) && self.live(c as int)
                && !self.is_element(p as int),
            r == Some(UiError::AlreadyAttached) <==> self.live(p as int) && self.live(c as int)
                && self.is_element(p as int) && !self.detached(c as int),
            r == Some(UiError::WouldCycle) <==> self.live(p as int) && self.live(c as int)
                && self.is_element(p as int) && self.detached(c as int) && self.nodes@[p as int].comp_root
                == c,
            r == Some(UiError::TooDeep) <==> self.live(p as int) && self.live(c as int)
                && self.is_element(p as int) && self.detached(c as int) && self.nodes@[p as int].comp_root
                != c && !self.depth_fits(p as int, c as int),
    {
        let n = self.nodes.len();
        if p as usize >= n || c as usize >= n || !self.nodes[p as usize].alive
            || !self.nodes[c as usize].alive {
            return Some(UiError::NotFound);
        }
        let parent_is_element = match &self.nodes[p as usize].content {
            NodeContent::Element { .. } => true,
            NodeContent::Text { .. } => false,
        };
        if !parent_is_element {
            return Some(UiError::NotAnElement);
        }
        if c == 0 || !self.nodes[c as usize].parent.is_none() {
            return Some(UiError::AlreadyAttached);
        }
        if self.nodes[p as usize].comp_root == c {
            return Some(UiError::WouldCycle);
        }
        if !self.depth_fits_check(p, c) {
            return Some(UiError::TooDeep);
        }
        None
    }

    /// Inserts a detached node immediately before an existing child of a live
    /// element; every other sibling keeps its relative order. Fails with
    /// `NotAChild` when `before_child` is not currently an immediate child of
    /// `parent`; a refused call leaves the tree unchanged.
    pub fn insert_before(
        &mut self,
        parent: UiWidget,
        child: UiWidget,
        before_child: UiWidget,
    ) -> (r: Result<(), UiError>)
        requires
            old(self).wf(),
        ensures
            final(self).wf(),
            r is Ok <==> old(self).can_attach(parent.widget_id as int, child.widget_id as int)
                && old(self).children_of(parent.widget_id as int).contains(before_child.widget_id),
            r is Err ==> *final(self) == *old(self),
            r is Ok ==> {
                let p = parent.widget_id as int;
                let c = child.widget_id as int;
                let pos = choose|pos: int|
                    0 <= pos < old(self).children_of(p).len() && old(self).children_of(p)[pos]
                        == before_child.widget_id;
                &&& final(self).len() == old(self).len()
                &&& final(self).children_of(p) == old(self).children_of(p).insert(
                    pos,
                    child.widget_id,
                )
                &&& final(self).children_of(c) == old(self).children_of(c)
                &&& final(self).parent_of(c) == Some(parent.widget_id)
                &&& final(self).nodes@[p].content == old(self).nodes@[p].content
                &&& final(self).nodes@[c].content == old(self).nodes@[c].content
                &&& forall|i: int|
                    #![trigger final(self).nodes@[i]]
                    0 <= i < old(self).len() && i != p && i != c ==> old(self).node_same_shape(
                        *final(self),
                        i,
                    )
            },
            r == Err::<(), UiError>(UiError::NotAChild) <==> old(self).can_attach(
                parent.widget_id as int,
                child.widget_id as int,
            ) && !old(self).children_of(parent.widget_id as int).contains(before_child.widget_id),
            r == Err::<(), UiError>(UiError::NotFound) <==> !old(self).live(parent.widget_id as int)
                || !old(self).live(child.widget_id as int),
            r == Err::<(), UiError>(UiError::NotAnElement) <==> old(self).live(
                parent.widget_id as int,
            ) && old(self).live(child.widget_id as int) && !old(self).is_element(
                parent.widget_id as int,
            ),
            r == Err::<(), UiError>(UiError::AlreadyAttached) <==> old(self).live(
                parent.widget_id as int,
            ) && old(self).live(child.widget_id as int) && old(self).is_element(
                parent.widget_id as int,
            ) && !old(self).detached(child.widget_id as int),
            r == Err::<(), UiError>(UiError::WouldCycle) <==> old(self).live(
                parent.widget_id as int,
            ) && old(self).live(child.widget_id as int) && old(self).is_element(
                parent.widget_id as int,
            ) && old(self).detached(child.widget_id as int) && old(self).nodes@[parent.widget_id as int].comp_root
                == child.widget_id,
            r == Err::<(), UiError>(UiError::TooDeep) <==> old(self).live(parent.widget_id as int)
                && old(self).live(child.widget_id as int) && old(self).is_element(
                parent.widget_id as int,
            ) && old(self).detached(child.widget_id as int) && old(self).nodes@[parent.widget_id as int].comp_root
                != child.widget_id && !old(self).depth_fits(
                parent.widget_id as int,
                child.widget_id as int,
            ),
    {
        let p = parent.widget_id;
        let c = child.widget_id;
        match self.check_attach(p, c) {
            Some(e) => Err(e),
            None => {
                let b = before_child.widget_id;
                match self.find_child(p, b) {
                    None => Err(UiError::NotAChild),
                    Some(k) => {
                        proof {
                            assert(self.node_ok(p as int));
                            let pos = choose|pos: int|
                                0 <= pos < self.children_of(p as int).len() && self.children_of(
                                    p as int,
                                )[pos] == b;
                            assert(pos == k as int);
                        }
                        self.do_attach(p, c, k);
                        Ok(())
                    },
                }
            },
        }
    }

    /// The position of `b` in the child list of `p`, if it is a child.
    fn find_child(&self, p: u32, b: u32) -> (r: Option<usize>)
        requires
            self.wf(),
            self.live(p as int),
        ensures
            match r {
                Some(k) => k < self.children_of(p as int).len() && self.children_of(p as int)[
                    k as int
                ] == b && self.children_of(p as int).contains(b),
                None => !self.children_of(p as int).contains(b),
            },
    {
        let m = self.nodes[p as usize].children.len();
        let mut k: usize = 0;
        while k < m
            invariant
                self.wf(),
                0 <= (p as int) < self.len(),
                m == self.children_of(p as int).len(),
                forall|j: int| 0 <= j < k ==> self.children_of(p as int)[j] != b,
            decreases m - k,
        {
            if self.nodes[p as usize].children[k] == b {
                return Some(k);
            }
            k += 1;
        }
        None
    }

    /// Whether `x` lies in the subtree hanging from `root`; a terminating
    /// walk, since children are strictly deeper than their parents.
    fn subtree_contains(&self, root: u32, x: u32) -> (r: bool)
        requires
            self.wf(),
            self.live(root as int),
        ensures
            r == self.in_subtree(root as int, x as int),
        decreases usize::MAX as int - self.nodes@[root as int].depth,
    {
        if root == x {
            return true;
        }
        let m = self.nodes[root as usize].children.len();
        let mut k: usize = 0;
        while k < m
            invariant
                self.wf(),
                self.live(root as int),
                root != x,
                m == self.children_of(root as int).len(),
                forall|j: int|
                    0 <= j < k ==> !self.in_subtree(
                        #[trigger] self.children_of(root as int)[j] as int,
                        x as int,
                    ),
            decreases m - k,
        {
            let ch = self.nodes[root as usize].children[k];
            proof {
                assert(self.edge_ok(root as int, k as int));
            }
            if self.subtree_contains(ch, x) {
                return true;
            }
            k += 1;
        }
        proof {
            assert(!self.in_subtree(root as int, x as int));
        }
        false
    }

    /// One flag per node: does it hang below `c`?
    fn mark_subtree(&self, c: u32) -> (m: Vec<bool>)
        requires
            self.wf(),
            self.live(c as int),
        ensures
            m@.len() == self.len(),
            forall|j: int| 0 <= j < self.len() ==> m@[j] == self.in_subtree(c as int, j),
    {
        let n = self.nodes.len();
        let mut m: Vec<bool> = Vec::new();
        let mut j: usize = 0;
        while j < n
            invariant
                self.wf(),
                self.live(c as int),
                n == self.len(),
                j == m@.len(),
                j <= n,
                forall|i: int| 0 <= i < j ==> m@[i] == self.in_subtree(c as int, i),
            decreases n - j,
        {
            let f = self.subtree_contains(c, j as u32);
            m.push(f);
            j += 1;
        }
        m
    }

    /// Detaches `child` from `parent` and destroys its whole subtree: every
    /// node below it becomes unknown to the tree, and later operations naming
    /// such an id fail with a lookup error. Fails with a lookup error on an
    /// unknown or removed id and with `NotAChild` when `child` is not an
    /// immediate child of `parent`; a refused call leaves the tree unchanged.
    pub fn remove_child(&mut self, parent: UiWidget, child: UiWidget) -> (r: Result<(), UiError>)
        requires
            old(self).wf(),
        ensures
            final(self).wf(),
            r is Ok <==> old(self).live(parent.widget_id as int) && old(self).live(
                child.widget_id as int,
            ) && old(self).children_of(parent.widget_id as int).contains(child.widget_id),
            r == Err::<(), UiError>(UiError::NotFound) <==> !old(self).live(parent.widget_id as int)
                || !old(self).live(child.widget_id as int),
            r == Err::<(), UiError>(UiError::NotAChild) <==> old(self).live(
                parent.widget_id as int,
            ) && old(self).live(child.widget_id as int) && !old(self).children_of(
                parent.widget_id as int,
            ).contains(child.widget_id),
            r is Err ==> *final(self) == *old(self),
            r is Ok ==> {
                let p = parent.widget_id as int;
                let c = child.widget_id as int;
                let pos = choose|pos: int|
                    0 <= pos < old(self).children_of(p).len() && old(self).children_of(p)[pos]
                        == child.widget_id;
                &&& final(self).len() == old(self).len()
                &&& final(self).children_of(p) == old(self).children_of(p).remove(pos)
                &&& final(self).nodes@[p].alive == old(self).nodes@[p].alive
                &&& final(self).nodes@[p].content == old(self).nodes@[p].content
                &&& final(self).nodes@[p].parent == old(self).nodes@[p].parent
                &&& forall|j: int|
                    #![trigger final(self).nodes@[j]]
                    0 <= j < old(self).len() && j != p && !old(self).in_subtree(c, j)
                        ==> old(self).node_same(*final(self), j)
                &&& forall|j: int|
                    0 <= j < old(self).len() && old(self).in_subtree(c, j) ==> !final(self).live(j)
                        && final(self).nodes@[j].content == old(self).nodes@[j].content
            },
    {
        let p = parent.widget_id;
        let c = child.widget_id;
        let n = self.nodes.len();
        if p as usize >= n || c as usize >= n || !self.nodes[p as usize].alive
            || !self.nodes[c as usize].alive {
            return Err(UiError::NotFound);
        }
        match self.find_child(p, c) {
            None => Err(UiError::NotAChild),
            Some(k) => {
                let ghost o = *self;
                let ghost pi = p as int;
                let ghost ci = c as int;
                proof {
                    assert(o.node_ok(pi));
                    let pos = choose|pos: int|
                        0 <= pos < o.children_of(pi).len() && o.children_of(pi)[pos] == c;
                    assert(pos == k as int);
                    assert(o.edge_ok(pi, k as int));
                    // The parent does not hang below the removed child.
                    assert(!o.in_subtree(ci, pi)) by {
                        if o.in_subtree(ci, pi) {
                            o.lemma_subtree_facts(ci, pi);
                        }
                    }
                }
                let mark = self.mark_subtree(c);
                let pn = &mut self.nodes[p as usize];
                pn.children.remove(k);
                let mut j: usize = 0;
                while j < n
                    invariant
                        n == self.nodes@.len(),
                        n == o.nodes@.len(),
                        o.wf(),
                        mark@.len() == n,
                        forall|i: int| 0 <= i < n ==> mark@[i] == o.in_subtree(ci, i),
                        0 <= pi < n,
                        0 <= ci < n,
                        !o.in_subtree(ci, pi),
                        (k as int) < o.nodes@[pi].children@.len(),
                        o.nodes@[pi].children@[k as int] == c,
                        self.nodes@[pi] == (WidgetNode {
                            children: self.nodes@[pi].children,
                            ..o.nodes@[pi]
                        }),
                        self.nodes@[pi].children@ == o.nodes@[pi].children@.remove(k as int),
                        forall|i: int|
                            0 <= i < n && i != pi && !o.in_subtree(ci, i) ==> self.nodes@[i]
                                == o.nodes@[i],
                        forall|i: int|
                            0 <= i < j && o.in_subtree(ci, i) ==> #[trigger] self.nodes@[i]
                                == (WidgetNode {
                                alive: false,
                                parent: None,
                                children: self.nodes@[i].children,
                                ..o.nodes@[i]
                            }) && self.nodes@[i].children@.len() == 0,
                        forall|i: int|
                            j <= i < n && o.in_subtree(ci, i) && i != pi ==> self.nodes@[i]
                                == o.nodes@[i],
                    decreases n - j,
                {
                    if mark[j] {
                        let node = &mut self.nodes[j];
                        node.alive = false;
                        node.children = Vec::new();
                        node.parent = None;
                    }
                    j += 1;
                }
                proof {
                    let t = *self;
                    assert forall|i: int| 0 <= i < n implies #[trigger] t.node_ok(i) by {
                        assert(o.node_ok(i));
                        let tn = t.nodes@[i];
                        let on = o.nodes@[i];
                        if o.in_subtree(ci, i) {
                            // destroyed: no edges left
                        } else if i == pi {
                            if on.parent is Some {
                                let q = on.parent.unwrap() as int;
                                assert(!o.in_subtree(ci, q)) by {
                                    if o.in_subtree(ci, q) {
                                        let kq = choose|kq: int|
                                            0 <= kq < o.nodes@[q].children@.len()
                                                && o.nodes@[q].children@[kq] == pi as u32;
                                        assert(o.nodes@[q].children@.contains(pi as u32));
                                        o.lemma_subtree_child(ci, q, kq);
                                    }
                                }
                                assert(q != pi);
                                assert(t.nodes@[q] == o.nodes@[q]);
                            }
                            assert forall|k1: int, k2: int|
                                0 <= k1 < k2 < tn.children@.len() implies tn.children@[k1]
                                != tn.children@[k2] by {
                                let oc = on.children@;
                                let a1: int = if k1 < k as int { k1 } else { k1 + 1 };
                                let a2: int = if k2 < k as int { k2 } else { k2 + 1 };
                                assert(tn.children@[k1] == oc[a1]);
                                assert(tn.children@[k2] == oc[a2]);
                            }
                        } else {
                            assert(tn == on);
                            if on.alive && on.parent is Some {
                                let q = on.parent.unwrap() as int;
                                assert(o.nodes@[q].children@.contains(i as u32));
                                let kq = choose|kq: int|
                                    0 <= kq < o.nodes@[q].children@.len() && o.nodes@[q].children@[kq]
                                        == i as u32;
                                assert(!o.in_subtree(ci, q)) by {
                                    if o.in_subtree(ci, q) {
                                        o.lemma_subtree_child(ci, q, kq);
                                    }
                                }
                                if q == pi {
                                    assert(i != ci);
                                    assert(kq != k as int);
                                    let nk: int = if kq < k as int { kq } else { kq - 1 };
                                    assert(t.nodes@[q].children@[nk] == i as u32);
                                    assert(t.nodes@[q].children@.contains(i as u32));
                                } else {
                                    assert(t.nodes@[q] == o.nodes@[q]);
                                }
                            }
                        }
                    }
                    assert forall|i: int, k2: int|
                        #![trigger t.nodes@[i].children@[k2]]
                        0 <= i < n && 0 <= k2 < t.nodes@[i].children@.len() implies t.edge_ok(
                        i,
                        k2,
                    ) by {
                        assert(o.node_ok(i));
                        if o.in_subtree(ci, i) {
                            // destroyed nodes keep no children
                            assert(t.nodes@[i].children@.len() == 0);
                        } else if i == pi {
                            let oc = o.nodes@[pi].children@;
                            let a: int = if k2 < k as int { k2 } else { k2 + 1 };
                            assert(t.nodes@[i].children@[k2] == oc[a]);
                            assert(o.edge_ok(pi, a));
                            let ch = oc[a] as int;
                            assert(!o.in_subtree(ci, ch)) by {
                                if o.in_subtree(ci, ch) {
                                    o.lemma_subtree_facts(ci, ch);
                                    assert(ch != ci);
                                }
                            }
                            assert(t.nodes@[ch] == o.nodes@[ch]);
                        } else {
                            assert(t.nodes@[i] == o.nodes@[i]);
                            assert(o.edge_ok(i, k2));
                            let ch = o.nodes@[i].children@[k2] as int;
                            assert(!o.in_subtree(ci, ch)) by {
                                if o.in_subtree(ci, ch) {
                                    o.lemma_subtree_facts(ci, ch);
                                    assert(ch != ci);
                                }
                            }
                            if ch != pi {
                                assert(t.nodes@[ch] == o.nodes@[ch]);
                            }
                            assert(t.nodes@[ch].alive == o.nodes@[ch].alive);
                            assert(t.nodes@[ch].parent == o.nodes@[ch].parent);
                            assert(t.nodes@[ch].depth == o.nodes@[ch].depth);
                            assert(t.nodes@[ch].comp_root == o.nodes@[ch].comp_root);
                        }
                    }
                    assert(!o.in_subtree(ci, 0)) by {
                        if o.in_subtree(ci, 0) {
                            o.lemma_subtree_facts(ci, 0);
                        }
                    }
                    assert(t.nodes@[0].alive);
                    assert(t.nodes@[0].parent is None);
                    assert(t.nodes@[0].content.is_element());
                    assert forall|i: int|
                        0 <= i < n && o.in_subtree(ci, i) implies !t.live(i) && t.nodes@[i].content
                        == o.nodes@[i].content by {}
                }
                Ok(())
            },
        }
    }

    /// Replaces the named properties of a live element, transactionally: the
    /// whole batch is validated against the component model first, and a batch
    /// holding one property that is undeclared for the widget's kind, or
    /// carries the wrong value tag, is refused with no property applied. On
    /// success each batch property replaces the first property of its name in
    /// place (or is appended), in batch order; properties not named keep their
    /// place and value.
    pub fn set_properties(
        &mut self,
        model: &ComponentModel,
        widget: UiWidget,
        properties: Vec<Property>,
    ) -> (r: Result<(), UiError>)
        requires
            old(self).wf(),
            model.wf(),
        ensures
            final(self).wf(),
            r is Err ==> *final(self) == *old(self),
            r == Err::<(), UiError>(UiError::NotFound) <==> !old(self).live(widget.widget_id as int),
            r == Err::<(), UiError>(UiError::NotAnElement) <==> old(self).live(
                widget.widget_id as int,
            ) && !old(self).is_element(widget.widget_id as int),
            r == Err::<(), UiError>(UiError::Validation(ValidationError::UnknownKind)) <==> old(
                self,
            ).live(widget.widget_id as int) && old(self).is_element(widget.widget_id as int)
                && !model.has_decl(old(self).widget_type_of(widget.widget_id as int)),
            r matches Err(e) ==> (e is NotFound || e is NotAnElement || e is Validation),
            r matches Err(UiError::Validation(ve)) ==> (ve is UnknownKind || ve
                is UndeclaredProperty || ve is PropertyTypeMismatch),
            r is Ok <==> old(self).live(widget.widget_id as int) && old(self).is_element(
                widget.widget_id as int,
            ) && model.has_decl(old(self).widget_type_of(widget.widget_id as int)) && model.decl_of(
                old(self).widget_type_of(widget.widget_id as int),
            ).allows_batch(properties@),
            r is Ok ==> {
                let w = widget.widget_id as int;
                &&& final(self).len() == old(self).len()
                &&& final(self).is_element(w)
                &&& final(self).widget_type_of(w) == old(self).widget_type_of(w)
                &&& final(self).properties_of(w) == crate::model::apply_batch(
                    old(self).properties_of(w),
                    properties@,
                )
                &&& final(self).nodes@[w].alive == old(self).nodes@[w].alive
                &&& final(self).nodes@[w].children@ == old(self).nodes@[w].children@
                &&& final(self).nodes@[w].parent == old(self).nodes@[w].parent
                &&& forall|i: int|
                    #![trigger final(self).nodes@[i]]
                    0 <= i < old(self).len() && i != w ==> old(self).node_same(*final(self), i)
            },
    {
        let w = widget.widget_id;
        let n = self.nodes.len();
        if w as usize >= n || !self.nodes[w as usize].alive {
            return Err(UiError::NotFound);
        }
        let (wt, new_props) = match &self.nodes[w as usize].content {
            NodeContent::Text { .. } => {
                return Err(UiError::NotAnElement);
            },
            NodeContent::Element { widget_type, properties: base } => {
                let decl = match model.lookup(widget_type) {
                    None => {
                        return Err(UiError::Validation(ValidationError::UnknownKind));
                    },
                    Some(d) => d,
                };
                match decl.validate_batch(&properties) {
                    Err(e) => {
                        return Err(UiError::Validation(e));
                    },
                    Ok(()) => {},
                }
                (widget_type.clone(), crate::model::apply_properties(base, &properties))
            },
        };
        let ghost o = *self;
        let node = &mut self.nodes[w as usize];
        node.content = NodeContent::Element { widget_type: wt, properties: new_props };
        proof {
            let t = *self;
            let wi = w as int;
            assert forall|i: int| 0 <= i < t.len() implies #[trigger] t.node_ok(i) by {
                assert(o.node_ok(i));
                if i != wi {
                    assert(t.nodes@[i] == o.nodes@[i]);
                }
            }
            assert forall|i: int, k: int|
                #![trigger t.nodes@[i].children@[k]]
                0 <= i < t.len() && 0 <= k < t.nodes@[i].children@.len() implies t.edge_ok(i, k) by {
                assert(o.edge_ok(i, k));
            }
        }
        Ok(())
    }

    /// Replaces the text of a live text instance; refuses elements with
    /// `NotAText` and unknown or removed ids with a lookup error, leaving the
    /// tree unchanged.
    pub fn set_text(&mut self, widget: UiWidget, text: String) -> (r: Result<(), UiError>)
        requires
            old(self).wf(),
        ensures
            final(self).wf(),
            r is Err ==> *final(self) == *old(self),
            r == Err::<(), UiError>(UiError::NotFound) <==> !old(self).live(widget.widget_id as int),
            r == Err::<(), UiError>(UiError::NotAText) <==> old(self).live(widget.widget_id as int)
                && !old(self).is_text(widget.widget_id as int),
            r is Ok <==> old(self).live(widget.widget_id as int) && old(self).is_text(
                widget.widget_id as int,
            ),
            r is Ok ==> {
                let w = widget.widget_id as int;
                &&& final(self).len() == old(self).len()
                &&& final(self).is_text(w)
                &&& final(self).text_of(w) == text@
                &&& final(self).nodes@[w].alive == old(self).nodes@[w].alive
                &&& final(self).nodes@[w].children@ == old(self).nodes@[w].children@
                &&& final(self).nodes@[w].parent == old(self).nodes@[w].parent
                &&& forall|i: int|
                    #![trigger final(self).nodes@[i]]
                    0 <= i < old(self).len() && i != w ==> old(self).node_same(*final(self), i)
            },
    {
        let w = widget.widget_id;
        let n = self.nodes.len();
        if w as usize >= n || !self.nodes[w as usize].alive {
            return Err(UiError::NotFound);
        }
        let is_text = match &self.nodes[w as usize].content {
            NodeContent::Text { .. } => true,
            NodeContent::Element { .. } => false,
        };
        if !is_text {
            return Err(UiError::NotAText);
        }
        let ghost o = *self;
        let node = &mut self.nodes[w as usize];
        node.content = NodeContent::Text { text };
        proof {
            let t = *self;
            let wi = w as int;
            assert forall|i: int| 0 <= i < t.len() implies #[trigger] t.node_ok(i) by {
                assert(o.node_ok(i));
                if i != wi {
                    assert(t.nodes@[i] == o.nodes@[i]);
                }
            }
            assert forall|i: int, k: int|
                #![trigger t.nodes@[i].children@[k]]
                0 <= i < t.len() && 0 <= k < t.nodes@[i].children@.len() implies t.edge_ok(i, k) by {
                assert(o.edge_ok(i, k));
                assert(o.nodes@[i].content.is_element());
            }
        }
        Ok(())
    }

    fn push_node(&mut self, content: NodeContent) -> (id: UiWidgetId)
        requires
            old(self).wf(),
            old(self).len() < u32::MAX as int,
        ensures
            final(self).wf(),
            id as int == old(self).len(),
            final(self).len() == old(self).len() + 1,
            final(self).detached(id as int),
            final(self).nodes@[id as int].content == content,
            final(self).children_of(id as int) == Seq::<UiWidgetId>::empty(),
            forall|i: int|
                #![trigger final(self).nodes@[i]]
                0 <= i < old(self).len() ==> old(self).node_same(*final(self), i),
    {
        let id: u32 = self.nodes.len() as u32;
        let node = WidgetNode {
            alive: true,
            parent: None,
            depth: 0,
            comp_root: id,
            content,
            children: Vec::new(),
        };
        self.nodes.push(node);
        proof {
            let t = *self;
            let o = *old(self);
            assert forall|i: int| 0 <= i < t.len() implies #[trigger] t.node_ok(i) by {
                if i < o.len() {
                    assert(o.node_ok(i));
                    assert(t.nodes@[i] == o.nodes@[i]);
                }
            }
            assert forall|i: int, k: int|
                #![trigger t.nodes@[i].children@[k]]
                0 <= i < t.len() && 0 <= k < t.nodes@[i].children@.len() implies t.edge_ok(i, k) by {
                if i < o.len() {
                    assert(o.edge_ok(i, k));
                    assert(t.nodes@[i] == o.nodes@[i]);
                    let c = o.nodes@[i].children@[k] as int;
                    assert(t.nodes@[c] == o.nodes@[c]);
                }
            }
        }
        id
    }
}

} // verus!
