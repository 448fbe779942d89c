//! No identifier occurs twice in the tree of a well-formed context.

use vstd::prelude::*;
use crate::graph::ContextView;
use crate::graph::lemma_under_depth;
use crate::graph::lemma_under_parent;
use crate::ident::Uuid;
use crate::kind::NodeKind;
use crate::kind::NodeRef;
use crate::store::Key;
use crate::tree::IntervalTree;
use crate::tree::ModuleTree;
use crate::tree::SectionTree;
use crate::tree::SymbolTree;
use crate::tree::concat;

verus! {

impl ContextView {
    /// Whether the identifiers name nodes at or below `top`, each another.
    pub open spec fn covers(self, top: NodeRef, uuids: Seq<Uuid>) -> bool {
        &&& uuids.no_duplicates()
        &&& forall|i: int|
            0 <= i < uuids.len() ==> self.index.dom().contains(#[trigger] uuids[i])
                && self.under(top, self.index[uuids[i]])
    }

    /// Whether the node lies at or below one of the nodes with the given
    /// keys.
    pub open spec fn under_one_of(self, kind: NodeKind, keys: Seq<Key>, node: NodeRef) -> bool {
        exists|i: int| 0 <= i < keys.len() && self.under(NodeRef { kind, key: #[trigger] keys[i] }, node)
    }
}

/// A node lies under one node only among those of one level.
pub proof fn lemma_under_same_depth(v: ContextView, first: NodeRef, second: NodeRef, node: NodeRef)
    requires
        v.under(first, node),
        v.under(second, node),
        first.kind.depth() == second.kind.depth(),
    ensures
        first == second,
    decreases node.kind.depth(),
{
    if node == first {
        lemma_under_depth(v, second, first);
    } else if node == second {
        lemma_under_depth(v, first, second);
    } else {
        lemma_under_same_depth(v, first, second, v.parent_of(node)->Some_0);
    }
}

/// The identifiers of a node's children of one kind name those children,
/// and no two of them are the same.
pub proof fn lemma_children_cover(v: ContextView, parent: NodeRef, kind: NodeKind)
    requires
        v.wf(),
        v.live(parent),
    ensures
        v.uuids_of(kind, v.nodes[parent].list(kind)).len() == v.nodes[parent].list(kind).len(),
        forall|i: int|
            0 <= i < v.nodes[parent].list(kind).len() ==> {
                let child = NodeRef { kind, key: v.nodes[parent].list(kind)[i] };
                let uuid = #[trigger] v.uuids_of(kind, v.nodes[parent].list(kind))[i];
                &&& v.live(child)
                &&& v.parent_of(child) == Some(parent)
                &&& v.under(parent, child)
                &&& v.nodes[child].uuid == uuid
                &&& v.index.dom().contains(uuid)
                &&& v.index[uuid] == child
            },
        v.covers(parent, v.uuids_of(kind, v.nodes[parent].list(kind))),
{
    let list = v.nodes[parent].list(kind);
    let uuids = v.uuids_of(kind, list);
    assert(v.nodes.dom().contains(parent));
    assert forall|i: int| 0 <= i < list.len() implies {
        let child = NodeRef { kind, key: v.nodes[parent].list(kind)[i] };
        let uuid = #[trigger] v.uuids_of(kind, v.nodes[parent].list(kind))[i];
        &&& v.live(child)
        &&& v.parent_of(child) == Some(parent)
        &&& v.under(parent, child)
        &&& v.nodes[child].uuid == uuid
        &&& v.index.dom().contains(uuid)
        &&& v.index[uuid] == child
    } by {
        let child = NodeRef { kind, key: v.nodes[parent].list(kind)[i] };
        assert(v.nodes.dom().contains(child));
        assert(parent.kind.contains_kind(kind));
        assert(v.under(parent, parent));
    }
    assert forall|i: int, j: int| 0 <= i < uuids.len() && 0 <= j < uuids.len() && i != j implies uuids[i]
        != uuids[j] by {
        assert(v.index[uuids[i]] == NodeRef { kind, key: list[i] });
        assert(v.index[uuids[j]] == NodeRef { kind, key: list[j] });
        assert(list.no_duplicates());
    }
}

/// Two runs of identifiers that name nodes at or below `top`, and no node
/// in common, do so together.
pub proof fn lemma_append_covers(v: ContextView, top: NodeRef, first: Seq<Uuid>, second: Seq<Uuid>)
    requires
        v.covers(top, first),
        v.covers(top, second),
        forall|i: int, j: int|
            0 <= i < first.len() && 0 <= j < second.len() ==> v.index[#[trigger] first[i]]
                != v.index[#[trigger] second[j]],
    ensures
        v.covers(top, first + second),
{
    let both = first + second;
    assert forall|i: int, j: int| 0 <= i < both.len() && 0 <= j < both.len() && i != j implies both[i]
        != both[j] by {
        if i < first.len() && j < first.len() {
            assert(both[i] == first[i] && both[j] == first[j]);
        } else if i >= first.len() && j >= first.len() {
            assert(both[i] == second[i - first.len()] && both[j] == second[j - first.len()]);
        } else if i < first.len() {
            assert(both[i] == first[i] && both[j] == second[j - first.len()]);
        } else {
            assert(both[j] == first[j] && both[i] == second[i - first.len()]);
        }
    }
    assert forall|i: int| 0 <= i < both.len() implies v.index.dom().contains(#[trigger] both[i])
        && v.under(top, v.index[both[i]]) by {
        if i < first.len() {
            assert(both[i] == first[i]);
        } else {
            assert(both[i] == second[i - first.len()]);
        }
    }
}

/// Runs of identifiers that each name nodes at or below another child of
/// `top` name, laid end to end, nodes below `top`, each another.
pub proof fn lemma_concat_covers(
    v: ContextView,
    top: NodeRef,
    kind: NodeKind,
    keys: Seq<Key>,
    parts: Seq<Seq<Uuid>>,
)
    requires
        v.wf(),
        v.live(top),
        keys.no_duplicates(),
        keys.len() == parts.len(),
        forall|i: int|
            0 <= i < keys.len() ==> {
                let child = NodeRef { kind, key: #[trigger] keys[i] };
                &&& v.live(child)
                &&& v.parent_of(child) == Some(top)
                &&& v.covers(child, parts[i])
            },
    ensures
        v.covers(top, concat(parts)),
        forall|j: int|
            0 <= j < concat(parts).len() ==> v.under_one_of(
                kind,
                keys,
                v.index[#[trigger] concat(parts)[j]],
            ),
    decreases parts.len(),
{
    if parts.len() > 0 {
        let n = parts.len() - 1;
        let head_keys = keys.drop_last();
        let head = concat(parts.drop_last());
        let tail = parts.last();
        let last = NodeRef { kind, key: keys[n] };
        assert forall|i: int| 0 <= i < head_keys.len() implies {
            let child = NodeRef { kind, key: #[trigger] head_keys[i] };
            &&& v.live(child)
            &&& v.parent_of(child) == Some(top)
            &&& v.covers(child, parts.drop_last()[i])
        } by {
            assert(head_keys[i] == keys[i]);
        }
        lemma_concat_covers(v, top, kind, head_keys, parts.drop_last());
        assert(v.covers(last, tail));
        assert forall|j: int| 0 <= j < tail.len() implies v.index.dom().contains(
            #[trigger] tail[j],
        ) && v.under(top, v.index[tail[j]]) by {
            lemma_under_parent(v, top, last, v.index[tail[j]]);
        }
        assert(v.covers(top, tail));
        assert forall|i: int, j: int| 0 <= i < head.len() && 0 <= j < tail.len() implies v.index[
        #[trigger] head[i]] != v.index[#[trigger] tail[j]] by {
            let node = v.index[head[i]];
            assert(v.under_one_of(kind, head_keys, node));
            let k = choose|k: int|
                0 <= k < head_keys.len() && v.under(
                    NodeRef { kind, key: #[trigger] head_keys[k] },
                    node,
                );
            assert(head_keys[k] == keys[k]);
            if node == v.index[tail[j]] {
                lemma_under_same_depth(v, NodeRef { kind, key: keys[k] }, last, node);
                assert(keys[k] == keys[n]);
            }
        }
        lemma_append_covers(v, top, head, tail);
        let all = concat(parts);
        assert(all == head + tail);
        assert forall|j: int| 0 <= j < all.len() implies v.under_one_of(
            kind,
            keys,
            v.index[#[trigger] all[j]],
        ) by {
            if j < head.len() {
                assert(all[j] == head[j]);
                let node = v.index[head[j]];
                assert(v.under_one_of(kind, head_keys, node));
                let k = choose|k: int|
                    0 <= k < head_keys.len() && v.under(
                        NodeRef { kind, key: #[trigger] head_keys[k] },
                        node,
                    );
                assert(head_keys[k] == keys[k]);
                assert(v.under(NodeRef { kind, key: keys[k] }, node));
            } else {
                assert(all[j] == tail[j - head.len()]);
                assert(v.under(NodeRef { kind, key: keys[n] }, v.index[tail[j - head.len()]]));
            }
        }
    }
}

/// The identifier of a live node, alone, names that node.
pub proof fn lemma_self_covers(v: ContextView, node: NodeRef)
    requires
        v.wf(),
        v.live(node),
    ensures
        v.covers(node, seq![v.nodes[node].uuid]),
        v.index[v.nodes[node].uuid] == node,
{
    assert(v.nodes.dom().contains(node));
}

/// A node that lies at or below a node of another kind lies deeper than it.
pub proof fn lemma_under_deeper(v: ContextView, top: NodeRef, node: NodeRef)
    requires
        v.under(top, node),
        node.kind != top.kind,
    ensures
        top.kind.depth() < node.kind.depth(),
{
    lemma_under_depth(v, top, node);
}

/// The identifiers in the tree of a live byte interval name nodes at or
/// below it, each another.
pub proof fn lemma_interval_covers(v: ContextView, key: Key)
    requires
        v.wf(),
        v.live(NodeRef { kind: NodeKind::ByteInterval, key }),
    ensures
        v.covers(NodeRef { kind: NodeKind::ByteInterval, key }, v.interval_tree(key).uuids()),
{
    let top = NodeRef { kind: NodeKind::ByteInterval, key };
    let tree = v.interval_tree(key);
    lemma_self_covers(v, top);
    lemma_children_cover(v, top, NodeKind::CodeBlock);
    lemma_children_cover(v, top, NodeKind::DataBlock);
    let own = seq![tree.uuid];
    assert forall|i: int, j: int|
        0 <= i < own.len() && 0 <= j < tree.code_blocks.len() implies v.index[#[trigger] own[i]]
        != v.index[#[trigger] tree.code_blocks[j]] by {}
    lemma_append_covers(v, top, own, tree.code_blocks);
    let upper = own + tree.code_blocks;
    assert forall|i: int, j: int|
        0 <= i < upper.len() && 0 <= j < tree.data_blocks.len() implies v.index[
    #[trigger] upper[i]] != v.index[#[trigger] tree.data_blocks[j]] by {
        if i >= 1 {
            assert(upper[i] == tree.code_blocks[i - 1]);
        }
    }
    lemma_append_covers(v, top, upper, tree.data_blocks);
}

/// The identifiers in the tree of a live section name nodes at or below it,
/// each another.
pub proof fn lemma_section_covers(v: ContextView, key: Key)
    requires
        v.wf(),
        v.live(NodeRef { kind: NodeKind::Section, key }),
    ensures
        v.covers(NodeRef { kind: NodeKind::Section, key }, v.section_tree(key).uuids()),
{
    let top = NodeRef { kind: NodeKind::Section, key };
    let tree = v.section_tree(key);
    let list = v.nodes[top].list(NodeKind::ByteInterval);
    let parts = IntervalTree::parts(tree.intervals);
    lemma_self_covers(v, top);
    lemma_children_cover(v, top, NodeKind::ByteInterval);
    assert(v.nodes.dom().contains(top));
    assert forall|i: int| 0 <= i < list.len() implies {
        let child = NodeRef { kind: NodeKind::ByteInterval, key: #[trigger] list[i] };
        &&& v.live(child)
        &&& v.parent_of(child) == Some(top)
        &&& v.covers(child, parts[i])
    } by {
        let uuid = v.uuids_of(NodeKind::ByteInterval, list)[i];
        lemma_interval_covers(v, list[i]);
    }
    lemma_concat_covers(v, top, NodeKind::ByteInterval, list, parts);
    let own = seq![tree.uuid];
    let below = concat(parts);
    assert forall|i: int, j: int| 0 <= i < own.len() && 0 <= j < below.len() implies v.index[
    #[trigger] own[i]] != v.index[#[trigger] below[j]] by {
        let node = v.index[below[j]];
        assert(v.under_one_of(NodeKind::ByteInterval, list, node));
        let k = choose|k: int|
            0 <= k < list.len() && v.under(
                NodeRef { kind: NodeKind::ByteInterval, key: #[trigger] list[k] },
                node,
            );
        lemma_under_depth(v, NodeRef { kind: NodeKind::ByteInterval, key: list[k] }, node);
    }
    lemma_append_covers(v, top, own, below);
}

/// The identifiers in the tree of a live module name nodes at or below it,
/// each another.
pub proof fn lemma_module_covers(v: ContextView, key: Key)
    requires
        v.wf(),
        v.live(NodeRef { kind: NodeKind::Module, key }),
    ensures
        v.covers(NodeRef { kind: NodeKind::Module, key }, v.module_tree(key).uuids()),
{
    let top = NodeRef { kind: NodeKind::Module, key };
    let tree = v.module_tree(key);
    let list = v.nodes[top].list(NodeKind::Section);
    let parts = SectionTree::parts(tree.sections);
    lemma_self_covers(v, top);
    lemma_children_cover(v, top, NodeKind::Section);
    lemma_children_cover(v, top, NodeKind::Symbol);
    lemma_children_cover(v, top, NodeKind::ProxyBlock);
    assert(v.nodes.dom().contains(top));
    assert forall|i: int| 0 <= i < list.len() implies {
        let child = NodeRef { kind: NodeKind::Section, key: #[trigger] list[i] };
        &&& v.live(child)
        &&& v.parent_of(child) == Some(top)
        &&& v.covers(child, parts[i])
    } by {
        let uuid = v.uuids_of(NodeKind::Section, list)[i];
        lemma_section_covers(v, list[i]);
    }
    lemma_concat_covers(v, top, NodeKind::Section, list, parts);
    let own = seq![tree.uuid];
    let below = concat(parts);
    let symbol_keys = v.nodes[top].list(NodeKind::Symbol);
    let names = SymbolTree::uuids(tree.symbols);
    assert(names =~= v.uuids_of(NodeKind::Symbol, symbol_keys));
    assert forall|j: int| 0 <= j < below.len() implies (#[trigger] v.index[below[j]]).kind.depth()
        >= 2 && v.index[below[j]].kind != NodeKind::Symbol && v.index[below[j]].kind
        != NodeKind::ProxyBlock by {
        let node = v.index[below[j]];
        assert(v.under_one_of(NodeKind::Section, list, node));
        let k = choose|k: int|
            0 <= k < list.len() && v.under(
                NodeRef { kind: NodeKind::Section, key: #[trigger] list[k] },
                node,
            );
        lemma_under_depth(v, NodeRef { kind: NodeKind::Section, key: list[k] }, node);
    }
    assert forall|i: int, j: int| 0 <= i < own.len() && 0 <= j < below.len() implies v.index[
    #[trigger] own[i]] != v.index[#[trigger] below[j]] by {
        assert(v.index[below[j]].kind.depth() >= 2);
    }
    lemma_append_covers(v, top, own, below);
    let upper = own + below;
    assert forall|i: int, j: int| 0 <= i < upper.len() && 0 <= j < names.len() implies v.index[
    #[trigger] upper[i]] != v.index[#[trigger] names[j]] by {
        assert(v.index[names[j]].kind == NodeKind::Symbol);
        if i >= 1 {
            assert(upper[i] == below[i - 1]);
            assert(v.index[below[i - 1]].kind != NodeKind::Symbol);
        }
    }
    lemma_append_covers(v, top, upper, names);
    let most = upper + names;
    assert forall|i: int, j: int| 0 <= i < most.len() && 0 <= j < tree.proxies.len() implies v.index[
    #[trigger] most[i]] != v.index[#[trigger] tree.proxies[j]] by {
        assert(v.index[tree.proxies[j]].kind == NodeKind::ProxyBlock);
        if i >= upper.len() {
            assert(most[i] == names[i - upper.len()]);
            assert(v.index[names[i - upper.len()]].kind == NodeKind::Symbol);
        } else if i >= 1 {
            assert(most[i] == below[i - 1]);
            assert(v.index[below[i - 1]].kind != NodeKind::ProxyBlock);
        }
    }
    lemma_append_covers(v, top, most, tree.proxies);
}

/// No identifier occurs twice in the tree of a well-formed context.
pub proof fn lemma_tree_uuids_distinct(v: ContextView)
    requires
        v.wf(),
    ensures
        v.ir_tree().uuids().no_duplicates(),
{
    let top = v.root_ref();
    let tree = v.ir_tree();
    let list = v.nodes[top].list(NodeKind::Module);
    let parts = ModuleTree::parts(tree.modules);
    assert(v.nodes.dom().contains(top));
    lemma_self_covers(v, top);
    lemma_children_cover(v, top, NodeKind::Module);
    assert forall|i: int| 0 <= i < list.len() implies {
        let child = NodeRef { kind: NodeKind::Module, key: #[trigger] list[i] };
        &&& v.live(child)
        &&& v.parent_of(child) == Some(top)
        &&& v.covers(child, parts[i])
    } by {
        let uuid = v.uuids_of(NodeKind::Module, list)[i];
        lemma_module_covers(v, list[i]);
    }
    lemma_concat_covers(v, top, NodeKind::Module, list, parts);
    let own = seq![tree.uuid];
    let below = concat(parts);
    assert forall|i: int, j: int| 0 <= i < own.len() && 0 <= j < below.len() implies v.index[
    #[trigger] own[i]] != v.index[#[trigger] below[j]] by {
        let node = v.index[below[j]];
        assert(v.under_one_of(NodeKind::Module, list, node));
        let k = choose|k: int|
            0 <= k < list.len() && v.under(
                NodeRef { kind: NodeKind::Module, key: #[trigger] list[k] },
                node,
            );
        lemma_under_depth(v, NodeRef { kind: NodeKind::Module, key: list[k] }, node);
    }
    lemma_append_covers(v, top, own, below);
}

} // verus!
