//! The mathematical model of a context: its nodes, its index of identifiers,
//! and the invariants that hold between them.

use vstd::prelude::*;
use crate::addr::Addr;
use crate::ident::Uuid;
use crate::kind::NodeKind;
use crate::kind::NodeRef;
use crate::store::Key;
use crate::view::Attrs;
use crate::view::ByteIntervalAttrs;
use crate::view::NodeView;

verus! {

/// A context as the contracts see it.
pub struct ContextView {
    /// What tells this context from every other.
    pub id: Uuid,
    /// The key of the IR, the root of the graph.
    pub root: Key,
    /// The live nodes.
    pub nodes: Map<NodeRef, NodeView>,
    /// The node that each identifier names.
    pub index: Map<Uuid, NodeRef>,
    /// The nodes that were removed: their keys are spent, and no node will
    /// have one of them again.
    pub spent: Set<NodeRef>,
}

impl ContextView {
    /// Whether the node is live.
    pub open spec fn live(self, node: NodeRef) -> bool {
        self.nodes.dom().contains(node)
    }

    /// The IR.
    pub open spec fn root_ref(self) -> NodeRef {
        NodeRef { kind: NodeKind::Ir, key: self.root }
    }

    /// Every node is of the kind of the arena that holds it, and has a
    /// list, possibly empty, for each kind that it can contain and for no
    /// other.
    pub open spec fn typed(self) -> bool {
        forall|node: NodeRef| #[trigger]
            self.nodes.dom().contains(node) ==> self.nodes[node].kind() == node.kind
                && self.nodes[node].shaped()
    }

    /// Every identifier in the index names a live node that has it.
    pub open spec fn index_sound(self) -> bool {
        forall|uuid: Uuid| #[trigger]
            self.index.dom().contains(uuid) ==> self.nodes.dom().contains(self.index[uuid])
                && self.nodes[self.index[uuid]].uuid == uuid
    }

    /// Every live node is found in the index under its identifier.
    pub open spec fn index_complete(self) -> bool {
        forall|node: NodeRef| #[trigger]
            self.nodes.dom().contains(node) ==> self.index.dom().contains(self.nodes[node].uuid)
                && self.index[self.nodes[node].uuid] == node
    }

    /// Every node that a parent lists is live and names that parent as its
    /// own.
    pub open spec fn reciprocal(self) -> bool {
        forall|parent: NodeRef, kind: NodeKind, i: int|
            self.nodes.dom().contains(parent) && 0 <= i < self.nodes[parent].list(kind).len() ==> {
                let child = NodeRef { kind, key: #[trigger] self.nodes[parent].list(kind)[i] };
                self.nodes.dom().contains(child) && self.nodes[child].parent == Some(parent.key)
            }
    }

    /// No parent lists a child twice.
    pub open spec fn distinct(self) -> bool {
        forall|parent: NodeRef, kind: NodeKind|
            self.nodes.dom().contains(parent) ==> (#[trigger] self.nodes[parent].list(
                kind,
            )).no_duplicates()
    }

    /// The node that contains the given one, as the given one names it.
    pub open spec fn parent_of(self, node: NodeRef) -> Option<NodeRef> {
        match (node.kind.parent_kind(), self.nodes[node].parent) {
            (Some(kind), Some(key)) => Some(NodeRef { kind, key }),
            _ => None,
        }
    }

    /// Every node but the IR names a live parent that lists it; the IR names
    /// none.
    pub open spec fn attached(self) -> bool {
        forall|node: NodeRef| #[trigger]
            self.nodes.dom().contains(node) ==> if node.kind == NodeKind::Ir {
                self.nodes[node].parent is None
            } else {
                &&& self.parent_of(node) is Some
                &&& self.nodes.dom().contains(self.parent_of(node)->Some_0)
                &&& self.nodes[self.parent_of(node)->Some_0].list(node.kind).contains(node.key)
            }
    }

    /// The context holds exactly one IR.
    pub open spec fn rooted(self) -> bool {
        &&& self.nodes.dom().contains(self.root_ref())
        &&& forall|key: Key| #[trigger]
            self.nodes.dom().contains(NodeRef { kind: NodeKind::Ir, key }) ==> key == self.root
    }

    /// Whether `node` is `top` or lies below it: whether the chain of parents
    /// that starts at `node` passes through `top`.
    pub open spec fn under(self, top: NodeRef, node: NodeRef) -> bool
        decreases node.kind.depth(),
    {
        self.live(node) && (node == top || match self.parent_of(node) {
            Some(parent) => self.under(top, parent),
            None => false,
        })
    }

    /// This context after `node` and everything below it was removed: the
    /// nodes are gone from the arenas, their identifiers from the index, and
    /// the node's key from its parent's list.
    pub open spec fn pruned(self, node: NodeRef) -> ContextView {
        let parent = self.parent_of(node)->Some_0;
        ContextView {
            nodes: Map::new(
                |other: NodeRef| self.live(other) && !self.under(node, other),
                |other: NodeRef|
                    if other == parent {
                        self.nodes[other].without_child(node.kind, node.key)
                    } else {
                        self.nodes[other]
                    },
            ),
            index: Map::new(
                |uuid: Uuid| self.index.dom().contains(uuid) && !self.under(node, self.index[uuid]),
                |uuid: Uuid| self.index[uuid],
            ),
            spent: Set::new(|other: NodeRef| self.spent.contains(other) || self.under(node, other)),
            ..self
        }
    }

    /// No live node has a spent key.
    pub open spec fn retired(self) -> bool {
        forall|node: NodeRef| #[trigger] self.spent.contains(node) ==> !self.nodes.dom().contains(node)
    }

    /// The invariant of a context.
    pub open spec fn wf(self) -> bool {
        &&& self.retired()
        &&& self.typed()
        &&& self.index_sound()
        &&& self.index_complete()
        &&& self.reciprocal()
        &&& self.distinct()
        &&& self.attached()
        &&& self.rooted()
    }

    /// A context that holds an IR and nothing else.
    pub open spec fn initial(id: Uuid, root: Key, uuid: Uuid, attrs: Attrs) -> ContextView {
        let ir = NodeRef { kind: NodeKind::Ir, key: root };
        ContextView {
            id,
            root,
            nodes: Map::empty().insert(ir, NodeView::childless(uuid, None, attrs)),
            index: Map::empty().insert(uuid, ir),
            spent: Set::empty(),
        }
    }

    /// This context with one node changed.
    pub open spec fn with_node(self, node: NodeRef, view: NodeView) -> ContextView {
        ContextView { nodes: self.nodes.insert(node, view), ..self }
    }

    /// This context with the attributes of one node replaced.
    pub open spec fn with_attrs(self, node: NodeRef, attrs: Attrs) -> ContextView {
        self.with_node(node, self.nodes[node].with_attrs(attrs))
    }

    /// This context after one node was given another identifier.
    pub open spec fn renamed(self, node: NodeRef, uuid: Uuid) -> ContextView {
        ContextView {
            nodes: self.nodes.insert(node, self.nodes[node].with_uuid(uuid)),
            index: self.index.remove(self.nodes[node].uuid).insert(uuid, node),
            ..self
        }
    }

    /// The attributes of a node.
    pub open spec fn attrs(self, node: NodeRef) -> Attrs {
        self.nodes[node].attrs
    }

    /// The children of kind `kind` of the nodes of kind `above` with the
    /// given keys: the lists of the first, of the second and so on, one after
    /// the other.
    pub open spec fn flat(self, above: NodeKind, parents: Seq<Key>, kind: NodeKind) -> Seq<Key>
        decreases parents.len(),
    {
        if parents.len() == 0 {
            Seq::empty()
        } else {
            self.flat(above, parents.drop_last(), kind) + self.nodes[NodeRef {
                kind: above,
                key: parents.last(),
            }].list(kind)
        }
    }

    /// Whether every one of the keys names a live node of the given kind.
    pub open spec fn all_live(self, kind: NodeKind, keys: Seq<Key>) -> bool {
        forall|i: int| 0 <= i < keys.len() ==> self.live(NodeRef { kind, key: #[trigger] keys[i] })
    }

    /// The attributes of the byte interval with the given key.
    pub open spec fn interval(self, key: Key) -> ByteIntervalAttrs {
        self.nodes[NodeRef { kind: NodeKind::ByteInterval, key }].attrs->ByteInterval_0
    }

    /// Whether every one of the byte intervals has an address.
    pub open spec fn all_addressed(self, intervals: Seq<Key>) -> bool {
        forall|i: int|
            0 <= i < intervals.len() ==> (#[trigger] self.interval(intervals[i])).address is Some
    }

    /// The lowest address among the byte intervals, which all have one.
    pub open spec fn lowest(self, intervals: Seq<Key>) -> u64
        decreases intervals.len(),
    {
        if intervals.len() == 0 {
            u64::MAX
        } else {
            let rest = self.lowest(intervals.drop_last());
            let this = self.interval(intervals.last()).address->Some_0.0;
            if this < rest {
                this
            } else {
                rest
            }
        }
    }

    /// The end of a byte interval: its address and its size added as
    /// addresses are.
    pub open spec fn end(self, key: Key) -> u64 {
        self.interval(key).address->Some_0.wrapping_sum(Addr(self.interval(key).size)).0
    }

    /// The highest end among the byte intervals, which all have an address.
    pub open spec fn highest(self, intervals: Seq<Key>) -> u64
        decreases intervals.len(),
    {
        if intervals.len() == 0 {
            0
        } else {
            let rest = self.highest(intervals.drop_last());
            let this = self.end(intervals.last());
            if this > rest {
                this
            } else {
                rest
            }
        }
    }

    /// The address of what the byte intervals make up: the lowest of their
    /// addresses where there is an interval and each has an address, and
    /// nothing otherwise.
    pub open spec fn address(self, intervals: Seq<Key>) -> Option<Addr> {
        if intervals.len() > 0 && self.all_addressed(intervals) {
            Some(Addr(self.lowest(intervals)))
        } else {
            None
        }
    }

    /// The size of what the byte intervals make up: from the lowest address
    /// to the highest end, where there is an interval and each has an
    /// address, and nothing otherwise.
    pub open spec fn size(self, intervals: Seq<Key>) -> Option<u64> {
        if intervals.len() > 0 && self.all_addressed(intervals) {
            Some(Addr(self.highest(intervals)).wrapping_diff(Addr(self.lowest(intervals))).0)
        } else {
            None
        }
    }

    /// The keys of the byte intervals of a section, in order.
    pub open spec fn section_intervals(self, section: Key) -> Seq<Key> {
        self.nodes[NodeRef { kind: NodeKind::Section, key: section }].list(NodeKind::ByteInterval)
    }

    /// The keys of the byte intervals of a module: those of its first
    /// section, of its second and so on.
    pub open spec fn module_intervals(self, module: Key) -> Seq<Key> {
        self.flat(
            NodeKind::Section,
            self.nodes[NodeRef { kind: NodeKind::Module, key: module }].list(NodeKind::Section),
            NodeKind::ByteInterval,
        )
    }

    /// This context after a childless node was added as the last child of
    /// `parent`.
    pub open spec fn attach(self, parent: NodeRef, child: NodeRef, uuid: Uuid, attrs: Attrs)
        -> ContextView {
        ContextView {
            nodes: self.nodes.insert(
                child,
                NodeView::childless(uuid, Some(parent.key), attrs),
            ).insert(
                parent,
                self.nodes[parent].with_list(
                    child.kind,
                    self.nodes[parent].list(child.kind).push(child.key),
                ),
            ),
            index: self.index.insert(uuid, child),
            ..self
        }
    }
}

/// A context that holds only its IR meets the invariant.
pub proof fn lemma_initial_wf(id: Uuid, root: Key, uuid: Uuid, attrs: Attrs)
    requires
        attrs.kind() == NodeKind::Ir,
    ensures
        ContextView::initial(id, root, uuid, attrs).wf(),
{
    let v = ContextView::initial(id, root, uuid, attrs);
    let ir = NodeRef { kind: NodeKind::Ir, key: root };
    assert(forall|kind: NodeKind| (#[trigger] v.nodes[ir].list(kind)).len() == 0);
}

/// Adding a childless node under a live parent keeps the invariant.
pub proof fn lemma_attach_wf(
    v: ContextView,
    parent: NodeRef,
    child: NodeRef,
    uuid: Uuid,
    attrs: Attrs,
)
    requires
        v.wf(),
        v.live(parent),
        !v.live(child),
        !v.spent.contains(child),
        !v.index.dom().contains(uuid),
        attrs.kind() == child.kind,
        child.kind.parent_kind() == Some(parent.kind),
    ensures
        v.attach(parent, child, uuid, attrs).wf(),
{
    let w = v.attach(parent, child, uuid, attrs);
    let old_list = v.nodes[parent].list(child.kind);
    let new_list = old_list.push(child.key);
    assert(w.nodes[parent].list(child.kind) == new_list);
    assert(forall|kind: NodeKind| (#[trigger] w.nodes[child].list(kind)).len() == 0);
    assert(forall|kind: NodeKind|
        kind != child.kind ==> (#[trigger] w.nodes[parent].list(kind)) == v.nodes[parent].list(
            kind,
        ));
    // The new child is not yet in the parent's list.
    assert(!old_list.contains(child.key)) by {
        if old_list.contains(child.key) {
            let i = choose|i: int| 0 <= i < old_list.len() && old_list[i] == child.key;
            assert(v.nodes[parent].list(child.kind)[i] == child.key);
        }
    }
    assert(w.retired()) by {
        assert forall|node: NodeRef| #[trigger] w.spent.contains(node) implies !w.nodes.dom().contains(
            node,
        ) by {
            if v.spent.contains(node) {
                assert(!v.nodes.dom().contains(node));
            }
        }
    }
    assert(w.typed());
    assert(w.index_sound()) by {
        assert forall|u: Uuid| #[trigger] w.index.dom().contains(u) implies w.nodes.dom().contains(
            w.index[u],
        ) && w.nodes[w.index[u]].uuid == u by {
            if u != uuid {
                assert(v.index.dom().contains(u));
            }
        }
    }
    assert(w.index_complete()) by {
        assert forall|node: NodeRef| #[trigger] w.nodes.dom().contains(node) implies w.index.dom().contains(
            w.nodes[node].uuid,
        ) && w.index[w.nodes[node].uuid] == node by {
            if node != child {
                assert(v.nodes.dom().contains(node));
            }
        }
    }
    assert(w.reciprocal()) by {
        assert forall|p: NodeRef, kind: NodeKind, i: int|
            w.nodes.dom().contains(p) && 0 <= i < w.nodes[p].list(kind).len() implies {
                let c = NodeRef { kind, key: #[trigger] w.nodes[p].list(kind)[i] };
                w.nodes.dom().contains(c) && w.nodes[c].parent == Some(p.key)
            } by {
            if p == parent {
                if kind == child.kind {
                    if i < old_list.len() {
                        assert(v.nodes[p].list(kind)[i] == new_list[i]);
                    }
                } else {
                    assert(w.nodes[p].list(kind) == v.nodes[p].list(kind));
                    assert(v.nodes[p].list(kind)[i] == w.nodes[p].list(kind)[i]);
                }
            } else if p == child {
            } else {
                assert(v.nodes[p].list(kind)[i] == w.nodes[p].list(kind)[i]);
            }
        }
    }
    assert(w.distinct()) by {
        assert forall|p: NodeRef, kind: NodeKind| w.nodes.dom().contains(p) implies (
        #[trigger] w.nodes[p].list(kind)).no_duplicates() by {
            if p == parent {
                if kind == child.kind {
                    assert(old_list.no_duplicates());
                } else {
                    assert(v.nodes[p].list(kind).no_duplicates());
                }
            } else if p == child {
            } else {
                assert(v.nodes[p].list(kind).no_duplicates());
            }
        }
    }
    assert(w.attached()) by {
        assert forall|node: NodeRef| #[trigger] w.nodes.dom().contains(node) implies if node.kind
            == NodeKind::Ir {
            w.nodes[node].parent is None
        } else {
            &&& w.parent_of(node) is Some
            &&& w.nodes.dom().contains(w.parent_of(node)->Some_0)
            &&& w.nodes[w.parent_of(node)->Some_0].list(node.kind).contains(node.key)
        } by {
            if node == child {
                assert(new_list[old_list.len() as int] == child.key);
            } else {
                assert(v.nodes.dom().contains(node));
                if node.kind != NodeKind::Ir {
                    let p = v.parent_of(node)->Some_0;
                    assert(w.parent_of(node) == v.parent_of(node));
                    if p == parent && node.kind == child.kind {
                        let i = choose|i: int|
                            0 <= i < old_list.len() && old_list[i] == node.key;
                        assert(new_list[i] == node.key);
                    } else if p == parent {
                        assert(w.nodes[p].list(node.kind) == v.nodes[p].list(node.kind));
                    }
                }
            }
        }
    }
    assert(w.rooted()) by {
        assert(v.nodes.dom().contains(v.root_ref()));
    }
}


/// A node lies no higher than what it lies under.
pub proof fn lemma_under_depth(v: ContextView, top: NodeRef, node: NodeRef)
    requires
        v.under(top, node),
    ensures
        top.kind.depth() <= node.kind.depth(),
        node.kind.depth() == top.kind.depth() ==> node == top,
    decreases node.kind.depth(),
{
    if node != top {
        lemma_under_depth(v, top, v.parent_of(node)->Some_0);
    }
}

/// What lies under a node lies under that node's parent.
pub proof fn lemma_under_parent(v: ContextView, top: NodeRef, mid: NodeRef, node: NodeRef)
    requires
        v.live(mid),
        v.parent_of(mid) == Some(top),
        v.live(top),
        v.under(mid, node),
    ensures
        v.under(top, node),
    decreases node.kind.depth(),
{
    if node == mid {
        assert(v.under(top, top));
    } else {
        lemma_under_parent(v, top, mid, v.parent_of(node)->Some_0);
    }
}

/// Nothing but a leaf itself lies under a leaf.
pub proof fn lemma_under_leaf(v: ContextView, leaf: NodeRef, node: NodeRef)
    requires
        v.wf(),
        v.live(leaf),
        v.nodes[leaf].is_leaf(),
        v.under(leaf, node),
    ensures
        node == leaf,
    decreases node.kind.depth(),
{
    if node != leaf {
        let parent = v.parent_of(node)->Some_0;
        lemma_under_leaf(v, leaf, parent);
        assert(v.nodes.dom().contains(node));
        assert(v.nodes[leaf].list(node.kind).contains(node.key));
        assert(v.nodes[leaf].list(node.kind).len() == 0);
    }
}

/// The position at which a list without duplicates holds a key.
pub proof fn lemma_index_of_unique(list: Seq<Key>, i: int)
    requires
        list.no_duplicates(),
        0 <= i < list.len(),
    ensures
        list.index_of(list[i]) == i,
{
    let j = list.index_of(list[i]);
    assert(0 <= j < list.len() && list[j] == list[i]);
}

/// Taking a leaf out of its parent's list, out of its arena and out of the
/// index is pruning it.
pub proof fn lemma_prune_leaf(v: ContextView, parent: NodeRef, leaf: NodeRef)
    requires
        v.wf(),
        v.live(leaf),
        v.parent_of(leaf) == Some(parent),
        v.nodes[leaf].is_leaf(),
    ensures
        v.pruned(leaf) == (ContextView {
            nodes: v.nodes.remove(leaf).insert(
                parent,
                v.nodes[parent].without_child(leaf.kind, leaf.key),
            ),
            index: v.index.remove(v.nodes[leaf].uuid),
            spent: v.spent.insert(leaf),
            ..v
        }),
{
    let w = ContextView {
        nodes: v.nodes.remove(leaf).insert(
            parent,
            v.nodes[parent].without_child(leaf.kind, leaf.key),
        ),
        index: v.index.remove(v.nodes[leaf].uuid),
        spent: v.spent.insert(leaf),
        ..v
    };
    assert(v.nodes.dom().contains(leaf));
    assert(v.live(parent));
    assert(parent != leaf);
    assert forall|other: NodeRef| v.under(leaf, other) implies other == leaf by {
        lemma_under_leaf(v, leaf, other);
    }
    assert(v.under(leaf, leaf));
    assert(v.pruned(leaf).nodes =~= w.nodes);
    assert forall|uuid: Uuid| #[trigger]
        v.index.dom().contains(uuid) implies (v.index[uuid] == leaf <==> uuid
        == v.nodes[leaf].uuid) by {
        assert(v.nodes.dom().contains(v.index[uuid]));
    }
    assert(v.pruned(leaf).index =~= w.index);
    assert(v.pruned(leaf).spent =~= w.spent);
}

/// Pruning a leaf keeps the invariant.
pub proof fn lemma_prune_leaf_wf(v: ContextView, parent: NodeRef, leaf: NodeRef)
    requires
        v.wf(),
        v.live(leaf),
        v.parent_of(leaf) == Some(parent),
        v.nodes[leaf].is_leaf(),
    ensures
        v.pruned(leaf).wf(),
{
    lemma_prune_leaf(v, parent, leaf);
    let w = v.pruned(leaf);
    let old_list = v.nodes[parent].list(leaf.kind);
    assert(v.nodes.dom().contains(leaf));
    assert(v.live(parent));
    assert(old_list.contains(leaf.key));
    let at = old_list.index_of(leaf.key);
    assert(0 <= at < old_list.len() && old_list[at] == leaf.key);
    let new_list = old_list.remove(at);
    assert(parent.kind.contains_kind(leaf.kind));
    assert(w.nodes[parent].list(leaf.kind) == new_list);
    assert(forall|kind: NodeKind|
        kind != leaf.kind ==> (#[trigger] w.nodes[parent].list(kind)) == v.nodes[parent].list(
            kind,
        ));
    assert(old_list.no_duplicates());
    assert(!new_list.contains(leaf.key)) by {
        if new_list.contains(leaf.key) {
            let j = choose|j: int| 0 <= j < new_list.len() && new_list[j] == leaf.key;
            if j < at {
                assert(old_list[j] == leaf.key);
            } else {
                assert(old_list[j + 1] == leaf.key);
            }
        }
    }
    assert(w.retired()) by {
        assert forall|node: NodeRef| #[trigger] w.spent.contains(node) implies !w.nodes.dom().contains(
            node,
        ) by {
            if v.spent.contains(node) {
                assert(!v.nodes.dom().contains(node));
            }
        }
    }
    assert(w.typed());
    assert(w.index_sound()) by {
        assert forall|u: Uuid| #[trigger] w.index.dom().contains(u) implies w.nodes.dom().contains(
            w.index[u],
        ) && w.nodes[w.index[u]].uuid == u by {
            assert(v.index.dom().contains(u));
            assert(v.nodes.dom().contains(leaf));
        }
    }
    assert(w.index_complete()) by {
        assert forall|node: NodeRef| #[trigger] w.nodes.dom().contains(node) implies w.index.dom().contains(
            w.nodes[node].uuid,
        ) && w.index[w.nodes[node].uuid] == node by {
            assert(v.nodes.dom().contains(node));
        }
    }
    assert(w.reciprocal()) by {
        assert forall|p: NodeRef, kind: NodeKind, i: int|
            w.nodes.dom().contains(p) && 0 <= i < w.nodes[p].list(kind).len() implies {
                let c = NodeRef { kind, key: #[trigger] w.nodes[p].list(kind)[i] };
                w.nodes.dom().contains(c) && w.nodes[c].parent == Some(p.key)
            } by {
            if p == parent {
                if kind == leaf.kind {
                    if i < at {
                        assert(v.nodes[p].list(kind)[i] == new_list[i]);
                    } else {
                        assert(v.nodes[p].list(kind)[i + 1] == new_list[i]);
                    }
                    assert(new_list.contains(new_list[i]));
                } else {
                    assert(v.nodes[p].list(kind)[i] == w.nodes[p].list(kind)[i]);
                }
            } else {
                assert(v.nodes[p].list(kind)[i] == w.nodes[p].list(kind)[i]);
                let c = NodeRef { kind, key: v.nodes[p].list(kind)[i] };
                assert(v.nodes[c].parent == Some(p.key));
                assert(p.kind.contains_kind(kind));
            }
        }
    }
    assert(w.distinct()) by {
        assert forall|p: NodeRef, kind: NodeKind| w.nodes.dom().contains(p) implies (
        #[trigger] w.nodes[p].list(kind)).no_duplicates() by {
            assert(v.nodes[p].list(kind).no_duplicates());
        }
    }
    assert(w.attached()) by {
        assert forall|node: NodeRef| #[trigger] w.nodes.dom().contains(node) implies if node.kind
            == NodeKind::Ir {
            w.nodes[node].parent is None
        } else {
            &&& w.parent_of(node) is Some
            &&& w.nodes.dom().contains(w.parent_of(node)->Some_0)
            &&& w.nodes[w.parent_of(node)->Some_0].list(node.kind).contains(node.key)
        } by {
            assert(v.nodes.dom().contains(node));
            if node.kind != NodeKind::Ir {
                let p = v.parent_of(node)->Some_0;
                assert(w.parent_of(node) == v.parent_of(node));
                assert(p != leaf) by {
                    if p == leaf {
                        assert(v.nodes[leaf].list(node.kind).len() == 0);
                    }
                }
                if p == parent && node.kind == leaf.kind {
                    let i = choose|i: int| 0 <= i < old_list.len() && old_list[i] == node.key;
                    if i < at {
                        assert(new_list[i] == node.key);
                    } else {
                        assert(i != at);
                        assert(new_list[i - 1] == node.key);
                    }
                } else if p == parent {
                    assert(w.nodes[p].list(node.kind) == v.nodes[p].list(node.kind));
                }
            }
        }
    }
    assert(w.rooted()) by {
        assert(v.nodes.dom().contains(v.root_ref()));
    }
}


/// After a child of `node` was pruned, what is left lies under `node` exactly
/// if it did before.
proof fn lemma_under_after_prune(v: ContextView, node: NodeRef, child: NodeRef, other: NodeRef)
    requires
        v.wf(),
        v.live(child),
        v.parent_of(child) == Some(node),
        v.pruned(child).live(other),
    ensures
        v.pruned(child).under(node, other) == v.under(node, other),
    decreases other.kind.depth(),
{
    let w = v.pruned(child);
    assert(v.nodes.dom().contains(other));
    assert(w.nodes[other].parent == v.nodes[other].parent);
    assert(w.parent_of(other) == v.parent_of(other));
    if other != node {
        match v.parent_of(other) {
            Some(parent) => {
                assert(v.live(parent));
                if v.under(child, parent) {
                    assert(v.under(child, other));
                }
                lemma_under_after_prune(v, node, child, parent);
            },
            None => {},
        }
    } else {
        assert(v.nodes.dom().contains(child));
    }
}

/// Pruning a child of a node and then the node is pruning the node.
pub proof fn lemma_prune_absorbs(v: ContextView, node: NodeRef, child: NodeRef)
    requires
        v.wf(),
        v.live(child),
        v.parent_of(child) == Some(node),
        node.kind != NodeKind::Ir,
    ensures
        v.pruned(child).live(node),
        v.pruned(child).parent_of(node) == v.parent_of(node),
        v.pruned(child).pruned(node) == v.pruned(node),
{
    let w = v.pruned(child);
    assert(v.nodes.dom().contains(child));
    assert(v.live(node));
    assert(v.nodes.dom().contains(node));
    let top = v.parent_of(node)->Some_0;
    assert(v.live(top));
    assert(!v.under(child, node)) by {
        if v.under(child, node) {
            lemma_under_depth(v, child, node);
        }
    }
    assert(!v.under(child, top)) by {
        if v.under(child, top) {
            lemma_under_depth(v, child, top);
        }
    }
    assert(w.live(node));
    assert(w.nodes[node].parent == v.nodes[node].parent);
    assert(w.parent_of(node) == v.parent_of(node));
    assert(top != node);
    assert(w.nodes[top] == v.nodes[top]);
    assert forall|other: NodeRef| v.under(child, other) implies v.under(node, other) by {
        lemma_under_parent(v, node, child, other);
    }
    assert forall|other: NodeRef| w.live(other) implies w.under(node, other) == v.under(
        node,
        other,
    ) by {
        lemma_under_after_prune(v, node, child, other);
    }
    assert forall|other: NodeRef| !w.live(other) implies !w.under(node, other) by {}
    assert(w.pruned(node).nodes =~= v.pruned(node).nodes);
    assert forall|uuid: Uuid|
        w.pruned(node).index.dom().contains(uuid) == v.pruned(node).index.dom().contains(
            uuid,
        ) by {
        if v.index.dom().contains(uuid) {
            let named = v.index[uuid];
            assert(v.live(named));
            if v.under(child, named) {
                assert(v.under(node, named));
            } else {
                assert(w.live(named));
                assert(w.index.dom().contains(uuid));
                assert(w.index[uuid] == named);
                assert(w.under(node, named) == v.under(node, named));
            }
        }
    }
    assert(w.pruned(node).index =~= v.pruned(node).index);
    assert forall|other: NodeRef|
        w.pruned(node).spent.contains(other) == v.pruned(node).spent.contains(other) by {
        if v.under(node, other) && !v.under(child, other) {
            assert(w.live(other));
        }
    }
    assert(w.pruned(node).spent =~= v.pruned(node).spent);
}

/// Pruning a node leaves its parent live, takes the node's key off the
/// parent's list for its kind, and leaves the parent's other lists alone.
pub proof fn lemma_pruned_parent(v: ContextView, node: NodeRef, child: NodeRef)
    requires
        v.wf(),
        v.live(child),
        v.parent_of(child) == Some(node),
    ensures
        v.live(node),
        v.pruned(child).live(node),
        v.pruned(child).nodes[node] == v.nodes[node].without_child(child.kind, child.key),
        v.nodes[node].list(child.kind).contains(child.key),
        v.pruned(child).nodes[node].list(child.kind).len() + 1 == v.nodes[node].list(
            child.kind,
        ).len(),
        forall|kind: NodeKind|
            kind != child.kind ==> (#[trigger] v.pruned(child).nodes[node].list(kind))
                == v.nodes[node].list(kind),
        !v.pruned(child).live(child),
{
    assert(v.nodes.dom().contains(child));
    assert(v.nodes.dom().contains(node));
    if v.under(child, node) {
        lemma_under_depth(v, child, node);
    }
    let list = v.nodes[node].list(child.kind);
    let at = list.index_of(child.key);
    assert(0 <= at < list.len() && list[at] == child.key);
    assert(node.kind.contains_kind(child.kind));
    assert(v.pruned(child).nodes[node].list(child.kind) == list.remove(at));
}


/// Replacing a node's attributes by others of its kind keeps the invariant.
pub proof fn lemma_with_attrs_wf(v: ContextView, node: NodeRef, attrs: Attrs)
    requires
        v.wf(),
        v.live(node),
        attrs.kind() == node.kind,
    ensures
        v.with_attrs(node, attrs).wf(),
{
    let w = v.with_attrs(node, attrs);
    assert(v.nodes.dom().contains(node));
    assert(forall|kind: NodeKind| (#[trigger] w.nodes[node].list(kind)) == v.nodes[node].list(kind));
    assert(w.retired()) by {
        assert forall|node: NodeRef| #[trigger] w.spent.contains(node) implies !w.nodes.dom().contains(
            node,
        ) by {
            if v.spent.contains(node) {
                assert(!v.nodes.dom().contains(node));
            }
        }
    }
    assert(w.typed());
    assert(w.index_sound()) by {
        assert forall|u: Uuid| #[trigger] w.index.dom().contains(u) implies w.nodes.dom().contains(
            w.index[u],
        ) && w.nodes[w.index[u]].uuid == u by {
            assert(v.index.dom().contains(u));
        }
    }
    assert(w.index_complete()) by {
        assert forall|other: NodeRef| #[trigger] w.nodes.dom().contains(other) implies w.index.dom().contains(
            w.nodes[other].uuid,
        ) && w.index[w.nodes[other].uuid] == other by {
            assert(v.nodes.dom().contains(other));
        }
    }
    assert(w.reciprocal()) by {
        assert forall|p: NodeRef, kind: NodeKind, i: int|
            w.nodes.dom().contains(p) && 0 <= i < w.nodes[p].list(kind).len() implies {
                let c = NodeRef { kind, key: #[trigger] w.nodes[p].list(kind)[i] };
                w.nodes.dom().contains(c) && w.nodes[c].parent == Some(p.key)
            } by {
            assert(v.nodes[p].list(kind)[i] == w.nodes[p].list(kind)[i]);
        }
    }
    assert(w.distinct()) by {
        assert forall|p: NodeRef, kind: NodeKind| w.nodes.dom().contains(p) implies (
        #[trigger] w.nodes[p].list(kind)).no_duplicates() by {
            assert(v.nodes[p].list(kind).no_duplicates());
        }
    }
    assert(w.attached()) by {
        assert forall|other: NodeRef| #[trigger] w.nodes.dom().contains(other) implies if other.kind
            == NodeKind::Ir {
            w.nodes[other].parent is None
        } else {
            &&& w.parent_of(other) is Some
            &&& w.nodes.dom().contains(w.parent_of(other)->Some_0)
            &&& w.nodes[w.parent_of(other)->Some_0].list(other.kind).contains(other.key)
        } by {
            assert(v.nodes.dom().contains(other));
            assert(w.parent_of(other) == v.parent_of(other));
            if other.kind != NodeKind::Ir {
                let p = v.parent_of(other)->Some_0;
                assert(w.nodes[p].list(other.kind) == v.nodes[p].list(other.kind));
            }
        }
    }
    assert(w.rooted()) by {
        assert(v.nodes.dom().contains(v.root_ref()));
    }
}

/// Giving a node an identifier that no node has keeps the invariant.
pub proof fn lemma_renamed_wf(v: ContextView, node: NodeRef, uuid: Uuid)
    requires
        v.wf(),
        v.live(node),
        !v.index.dom().contains(uuid),
    ensures
        v.renamed(node, uuid).wf(),
{
    let w = v.renamed(node, uuid);
    assert(v.nodes.dom().contains(node));
    assert(forall|kind: NodeKind| (#[trigger] w.nodes[node].list(kind)) == v.nodes[node].list(kind));
    assert(w.retired()) by {
        assert forall|node: NodeRef| #[trigger] w.spent.contains(node) implies !w.nodes.dom().contains(
            node,
        ) by {
            if v.spent.contains(node) {
                assert(!v.nodes.dom().contains(node));
            }
        }
    }
    assert(w.typed());
    assert(w.index_sound()) by {
        assert forall|u: Uuid| #[trigger] w.index.dom().contains(u) implies w.nodes.dom().contains(
            w.index[u],
        ) && w.nodes[w.index[u]].uuid == u by {
            if u != uuid {
                assert(v.index.dom().contains(u));
            }
        }
    }
    assert(w.index_complete()) by {
        assert forall|other: NodeRef| #[trigger] w.nodes.dom().contains(other) implies w.index.dom().contains(
            w.nodes[other].uuid,
        ) && w.index[w.nodes[other].uuid] == other by {
            assert(v.nodes.dom().contains(other));
        }
    }
    assert(w.reciprocal()) by {
        assert forall|p: NodeRef, kind: NodeKind, i: int|
            w.nodes.dom().contains(p) && 0 <= i < w.nodes[p].list(kind).len() implies {
                let c = NodeRef { kind, key: #[trigger] w.nodes[p].list(kind)[i] };
                w.nodes.dom().contains(c) && w.nodes[c].parent == Some(p.key)
            } by {
            assert(v.nodes[p].list(kind)[i] == w.nodes[p].list(kind)[i]);
        }
    }
    assert(w.distinct()) by {
        assert forall|p: NodeRef, kind: NodeKind| w.nodes.dom().contains(p) implies (
        #[trigger] w.nodes[p].list(kind)).no_duplicates() by {
            assert(v.nodes[p].list(kind).no_duplicates());
        }
    }
    assert(w.attached()) by {
        assert forall|other: NodeRef| #[trigger] w.nodes.dom().contains(other) implies if other.kind
            == NodeKind::Ir {
            w.nodes[other].parent is None
        } else {
            &&& w.parent_of(other) is Some
            &&& w.nodes.dom().contains(w.parent_of(other)->Some_0)
            &&& w.nodes[w.parent_of(other)->Some_0].list(other.kind).contains(other.key)
        } by {
            assert(v.nodes.dom().contains(other));
            assert(w.parent_of(other) == v.parent_of(other));
            if other.kind != NodeKind::Ir {
                let p = v.parent_of(other)->Some_0;
                assert(w.nodes[p].list(other.kind) == v.nodes[p].list(other.kind));
            }
        }
    }
    assert(w.rooted()) by {
        assert(v.nodes.dom().contains(v.root_ref()));
    }
}


/// What the nodes of a well-formed context list is live.
pub proof fn lemma_list_live(v: ContextView, parent: NodeRef, kind: NodeKind)
    requires
        v.wf(),
        v.live(parent),
    ensures
        v.all_live(kind, v.nodes[parent].list(kind)),
{
    assert forall|i: int| 0 <= i < v.nodes[parent].list(kind).len() implies v.live(
        NodeRef { kind, key: #[trigger] v.nodes[parent].list(kind)[i] },
    ) by {
        assert(v.nodes.dom().contains(parent));
    }
}

/// What live nodes of a well-formed context list, taken together, is live.
pub proof fn lemma_flat_live(v: ContextView, above: NodeKind, parents: Seq<Key>, kind: NodeKind)
    requires
        v.wf(),
        v.all_live(above, parents),
    ensures
        v.all_live(kind, v.flat(above, parents, kind)),
    decreases parents.len(),
{
    if parents.len() > 0 {
        let rest = parents.drop_last();
        assert forall|i: int| 0 <= i < rest.len() implies v.live(
            NodeRef { kind: above, key: #[trigger] rest[i] },
        ) by {
            assert(rest[i] == parents[i]);
        }
        lemma_flat_live(v, above, rest, kind);
        let last = NodeRef { kind: above, key: parents.last() };
        assert(parents[parents.len() - 1] == parents.last());
        lemma_list_live(v, last, kind);
        let head = v.flat(above, rest, kind);
        let tail = v.nodes[last].list(kind);
        assert forall|i: int| 0 <= i < (head + tail).len() implies v.live(
            NodeRef { kind, key: #[trigger] (head + tail)[i] },
        ) by {
            if i < head.len() {
                assert((head + tail)[i] == head[i]);
            } else {
                assert((head + tail)[i] == tail[i - head.len()]);
            }
        }
    }
}

} // verus!
