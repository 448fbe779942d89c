//! What holds of every well-formed context, stated over the model.

use vstd::prelude::*;
use crate::addr::Addr;
use crate::graph::ContextView;
use crate::graph::lemma_prune_leaf;
use crate::ident::Uuid;
use crate::kind::NodeKind;
use crate::kind::NodeRef;
use crate::store::Key;
use crate::view::Attrs;

verus! {

/// Every identifier in the index names a live node, and that node has the
/// identifier; no two live nodes share an identifier.
pub proof fn lemma_index_fidelity(v: ContextView, uuid: Uuid, node: NodeRef, other: NodeRef)
    requires
        v.wf(),
    ensures
        v.index.dom().contains(uuid) ==> v.live(v.index[uuid]) && v.nodes[v.index[uuid]].uuid
            == uuid,
        v.live(node) ==> v.index.dom().contains(v.nodes[node].uuid)
            && v.index[v.nodes[node].uuid] == node,
        v.live(node) && v.live(other) && v.nodes[node].uuid == v.nodes[other].uuid ==> node
            == other,
{
    if v.live(node) {
        assert(v.nodes.dom().contains(node));
    }
    if v.live(other) {
        assert(v.nodes.dom().contains(other));
    }
}

/// A node that a live parent lists is live and has that parent's key as
/// its parent key; and a live node that is no IR is listed by its parent.
pub proof fn lemma_reciprocity(v: ContextView, parent: NodeRef, kind: NodeKind, i: int, node: NodeRef)
    requires
        v.wf(),
    ensures
        v.live(parent) && 0 <= i < v.nodes[parent].list(kind).len() ==> {
            let child = NodeRef { kind, key: v.nodes[parent].list(kind)[i] };
            v.live(child) && v.nodes[child].parent == Some(parent.key) && v.parent_of(child)
                == Some(parent)
        },
        v.live(node) && node.kind != NodeKind::Ir ==> {
            &&& v.parent_of(node) is Some
            &&& v.live(v.parent_of(node)->Some_0)
            &&& v.nodes[v.parent_of(node)->Some_0].list(node.kind).contains(node.key)
        },
{
    if v.live(parent) && 0 <= i < v.nodes[parent].list(kind).len() {
        assert(v.nodes.dom().contains(parent));
        let key = v.nodes[parent].list(kind)[i];
        assert(parent.kind.contains_kind(kind));
    }
    if v.live(node) {
        assert(v.nodes.dom().contains(node));
    }
}

/// After a node was removed, nothing whose chain of parents passed through
/// it is live, and no identifier of such a node is in the index; the keys
/// of those nodes are spent. What did not lie under the node is as live as
/// before, under the same identifier.
pub proof fn lemma_removed_subtree(v: ContextView, node: NodeRef, other: NodeRef, uuid: Uuid)
    requires
        v.wf(),
        v.live(node),
        node.kind != NodeKind::Ir,
    ensures
        v.under(node, other) ==> !v.pruned(node).live(other),
        v.under(node, other) ==> v.pruned(node).spent.contains(other),
        v.spent.contains(other) ==> v.pruned(node).spent.contains(other),
        v.under(node, other) ==> !v.pruned(node).index.dom().contains(v.nodes[other].uuid),
        v.live(other) && !v.under(node, other) ==> v.pruned(node).live(other) && v.pruned(
            node,
        ).nodes[other].uuid == v.nodes[other].uuid,
        v.pruned(node).index.dom().contains(uuid) ==> v.index.dom().contains(uuid) && v.pruned(
            node,
        ).index[uuid] == v.index[uuid],
{
    if v.under(node, other) {
        assert(v.nodes.dom().contains(other));
    }
    if v.live(other) && !v.under(node, other) {
        assert(v.nodes.dom().contains(node));
    }
}

/// A key that is spent names no live node: a handle that went stale when
/// its node was removed is stale in every later state of the context, for
/// no operation takes a key out of the spent ones and every operation keeps
/// the invariant.
pub proof fn lemma_spent_stays_stale(v: ContextView, node: NodeRef)
    requires
        v.wf(),
        v.spent.contains(node),
    ensures
        !v.live(node),
{
}

/// Adding a node, changing attributes and changing an identifier spend no
/// key and take none back; removing a node takes none back.
pub proof fn lemma_spent_only_grows(
    v: ContextView,
    parent: NodeRef,
    child: NodeRef,
    uuid: Uuid,
    attrs: Attrs,
    node: NodeRef,
)
    ensures
        v.attach(parent, child, uuid, attrs).spent == v.spent,
        v.with_attrs(node, attrs).spent == v.spent,
        v.renamed(node, uuid).spent == v.spent,
        v.spent.subset_of(v.pruned(node).spent),
{
}

/// Adding a node leaves every other node as it was, under its key, but for
/// the list of the parent, which ends with the new key; removing a node
/// leaves every node that did not lie under it as it was, but for the list
/// of the parent, which has lost the key.
pub proof fn lemma_keys_are_stable(
    v: ContextView,
    parent: NodeRef,
    child: NodeRef,
    uuid: Uuid,
    attrs: Attrs,
    other: NodeRef,
)
    requires
        v.wf(),
        v.live(parent),
        v.live(other),
    ensures
        !v.live(child) ==> v.attach(parent, child, uuid, attrs).live(other),
        !v.live(child) && other != parent ==> v.attach(parent, child, uuid, attrs).nodes[other]
            == v.nodes[other],
        v.live(child) && v.parent_of(child) == Some(parent) && !v.under(child, other) ==> v.pruned(
            child,
        ).live(other),
        v.live(child) && v.parent_of(child) == Some(parent) && !v.under(child, other) && other
            != parent ==> v.pruned(child).nodes[other] == v.nodes[other],
{
}

/// Adding a node and removing it again gives back the context as it was:
/// the same nodes with the same children, and the same identifiers in the
/// index. Only the key of the node that came and went is spent.
pub proof fn lemma_add_then_remove(
    v: ContextView,
    parent: NodeRef,
    child: NodeRef,
    uuid: Uuid,
    attrs: Attrs,
)
    requires
        v.wf(),
        v.live(parent),
        !v.live(child),
        !v.spent.contains(child),
        !v.index.dom().contains(uuid),
        attrs.kind() == child.kind,
        child.kind.parent_kind() == Some(parent.kind),
    ensures
        v.attach(parent, child, uuid, attrs).pruned(child) == (ContextView {
            spent: v.spent.insert(child),
            ..v
        }),
{
    crate::graph::lemma_attach_wf(v, parent, child, uuid, attrs);
    let w = v.attach(parent, child, uuid, attrs);
    assert(v.nodes.dom().contains(parent));
    assert(w.parent_of(child) == Some(parent));
    assert(forall|kind: NodeKind| (#[trigger] w.nodes[child].list(kind)).len() == 0);
    lemma_prune_leaf(w, parent, child);
    let list = v.nodes[parent].list(child.kind);
    let longer = list.push(child.key);
    assert(w.nodes[parent].list(child.kind) == longer);
    assert(!list.contains(child.key)) by {
        if list.contains(child.key) {
            let i = choose|i: int| 0 <= i < list.len() && list[i] == child.key;
            assert(v.nodes[parent].list(child.kind)[i] == child.key);
        }
    }
    let at = longer.index_of(child.key);
    assert(longer[list.len() as int] == child.key);
    assert(0 <= at < longer.len() && longer[at] == child.key);
    assert(at == list.len()) by {
        if at < list.len() {
            assert(list[at] == child.key);
        }
    }
    assert(longer.remove(at) =~= list);
    assert(parent.kind.contains_kind(child.kind));
    assert(v.nodes[parent].children.dom().contains(child.kind) ==> v.nodes[parent].children[child.kind] == list);
    let back = w.pruned(child);
    assert(back.nodes[parent].children =~= v.nodes[parent].children);
    assert(back.nodes =~= v.nodes);
    assert(back.index =~= v.index);
    assert(back.spent =~= v.spent.insert(child));
}

/// The lowest address of byte intervals that all have one is the address
/// of one of them, and none of them has a lower one.
pub proof fn lemma_lowest_is_least(v: ContextView, intervals: Seq<Key>)
    requires
        intervals.len() > 0,
    ensures
        forall|i: int|
            0 <= i < intervals.len() ==> v.lowest(intervals) <= (#[trigger] v.interval(
                intervals[i],
            )).address->Some_0.0,
        exists|i: int|
            0 <= i < intervals.len() && v.lowest(intervals) == (#[trigger] v.interval(
                intervals[i],
            )).address->Some_0.0,
    decreases intervals.len(),
{
    let rest = intervals.drop_last();
    let last = intervals.len() - 1;
    if rest.len() == 0 {
        assert(v.lowest(rest) == u64::MAX);
        assert(v.lowest(intervals) == v.interval(intervals[last]).address->Some_0.0);
    } else {
        lemma_lowest_is_least(v, rest);
        let at = choose|i: int|
            0 <= i < rest.len() && v.lowest(rest) == (#[trigger] v.interval(
                rest[i],
            )).address->Some_0.0;
        assert(rest[at] == intervals[at]);
        if v.lowest(intervals) == v.lowest(rest) {
            assert(v.lowest(intervals) == v.interval(intervals[at]).address->Some_0.0);
        } else {
            assert(v.lowest(intervals) == v.interval(intervals[last]).address->Some_0.0);
        }
        assert forall|i: int| 0 <= i < intervals.len() implies v.lowest(intervals) <= (
        #[trigger] v.interval(intervals[i])).address->Some_0.0 by {
            if i < last {
                assert(rest[i] == intervals[i]);
            }
        }
    }
}

/// The highest end of byte intervals is the end of one of them, and none of
/// them has a higher one.
pub proof fn lemma_highest_is_greatest(v: ContextView, intervals: Seq<Key>)
    requires
        intervals.len() > 0,
    ensures
        forall|i: int| 0 <= i < intervals.len() ==> v.highest(intervals) >= #[trigger] v.end(intervals[i]),
        exists|i: int| 0 <= i < intervals.len() && v.highest(intervals) == #[trigger] v.end(intervals[i]),
    decreases intervals.len(),
{
    let rest = intervals.drop_last();
    let last = intervals.len() - 1;
    if rest.len() == 0 {
        assert(v.highest(rest) == 0);
        assert(v.highest(intervals) == v.end(intervals[last]));
    } else {
        lemma_highest_is_greatest(v, rest);
        let at = choose|i: int| 0 <= i < rest.len() && v.highest(rest) == #[trigger] v.end(rest[i]);
        assert(rest[at] == intervals[at]);
        if v.highest(intervals) == v.highest(rest) {
            assert(v.highest(intervals) == v.end(intervals[at]));
        } else {
            assert(v.highest(intervals) == v.end(intervals[last]));
        }
        assert forall|i: int| 0 <= i < intervals.len() implies v.highest(intervals)
            >= #[trigger] v.end(intervals[i]) by {
            if i < last {
                assert(rest[i] == intervals[i]);
            }
        }
    }
}

/// Where there is a byte interval, each has an address and no end goes past
/// the last address, what the intervals make up starts at the lowest of
/// their addresses and its size is the distance from there to the highest of
/// their ends.
pub proof fn lemma_extent(v: ContextView, intervals: Seq<Key>)
    requires
        intervals.len() > 0,
        v.all_addressed(intervals),
        forall|i: int|
            0 <= i < intervals.len() ==> (#[trigger] v.interval(intervals[i])).address->Some_0.0
                + v.interval(intervals[i]).size <= u64::MAX,
    ensures
        v.address(intervals) == Some(Addr(v.lowest(intervals))),
        v.size(intervals) is Some,
        v.size(intervals)->Some_0 == v.highest(intervals) - v.lowest(intervals),
{
    lemma_lowest_is_least(v, intervals);
    lemma_highest_is_greatest(v, intervals);
    let at = choose|i: int| 0 <= i < intervals.len() && v.highest(intervals) == #[trigger] v.end(intervals[i]);
    assert(v.lowest(intervals) <= v.interval(intervals[at]).address->Some_0.0);
    assert(v.end(intervals[at]) == v.interval(intervals[at]).address->Some_0.0 + v.interval(
        intervals[at],
    ).size);
}

} // verus!
