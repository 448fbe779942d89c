//! The context: the arenas of all kinds and the index of identifiers.

use vstd::prelude::*;
use std::collections::HashMap;
use generational_arena::Arena;
use crate::error::GraphError;
use crate::graph::ContextView;
use crate::graph::lemma_attach_wf;
use crate::graph::lemma_index_of_unique;
use crate::graph::lemma_initial_wf;
use crate::graph::lemma_prune_absorbs;
use crate::graph::lemma_prune_leaf;
use crate::graph::lemma_prune_leaf_wf;
use crate::graph::lemma_pruned_parent;
use crate::graph::lemma_renamed_wf;
use crate::graph::lemma_with_attrs_wf;
use crate::ident::Uuid;
use crate::kind::NodeKind;
use crate::kind::NodeRef;
use crate::record::Entry;
use crate::record::Record;
use crate::store::Key;
use crate::store::arena_get;
use crate::store::arena_get_mut;
use crate::store::arena_insert;
use crate::store::arena_new;
use crate::store::arena_remove;
use crate::store::arena_spent;
use crate::store::arena_view;
use crate::view::Attrs;

verus! {

/// The owner of every node of one graph: one arena for each kind of node,
/// and the index that finds a node by its identifier.
///
/// The arenas all hold entries of one shape, a record of any kind with its
/// edges, so that one model describes them all; the invariant says that
/// the arena of a kind holds records of that kind only.
#[derive(Debug)]
pub struct Context {
    id: Uuid,
    root: Key,
    uuid_map: HashMap<Uuid, NodeRef>,
    ir: Arena<Entry>,
    module: Arena<Entry>,
    section: Arena<Entry>,
    byte_interval: Arena<Entry>,
    code_block: Arena<Entry>,
    data_block: Arena<Entry>,
    proxy_block: Arena<Entry>,
    symbol: Arena<Entry>,
}

impl View for Context {
    type V = ContextView;

    closed spec fn view(&self) -> ContextView {
        ContextView {
            id: self.id,
            root: self.root,
            nodes: Map::new(
                |node: NodeRef| arena_view(self.arena(node.kind)).dom().contains(node.key),
                |node: NodeRef| arena_view(self.arena(node.kind))[node.key]@,
            ),
            index: self.uuid_map@,
            spent: Set::new(
                |node: NodeRef| arena_spent(self.arena(node.kind)).contains(node.key),
            ),
        }
    }
}

impl Context {
    /// The arena of one kind.
    closed spec fn arena(&self, kind: NodeKind) -> Arena<Entry> {
        match kind {
            NodeKind::Ir => self.ir,
            NodeKind::Module => self.module,
            NodeKind::Section => self.section,
            NodeKind::ByteInterval => self.byte_interval,
            NodeKind::CodeBlock => self.code_block,
            NodeKind::DataBlock => self.data_block,
            NodeKind::ProxyBlock => self.proxy_block,
            NodeKind::Symbol => self.symbol,
        }
    }

    /// Whether `after` is this context with the arena of one kind replaced.
    closed spec fn differs_in(&self, after: Context, kind: NodeKind) -> bool {
        &&& after.id == self.id
        &&& after.root == self.root
        &&& after.uuid_map == self.uuid_map
        &&& forall|other: NodeKind| other != kind ==> after.arena(other) == self.arena(other)
    }

    /// Changing one slot of one arena changes one node of the model.
    proof fn lemma_slot_changed(&self, after: Context, node: NodeRef, entry: Entry)
        requires
            self.differs_in(after, node.kind),
            arena_view(after.arena(node.kind)) == arena_view(self.arena(node.kind)).insert(
                node.key,
                entry,
            ),
            arena_spent(after.arena(node.kind)) == arena_spent(self.arena(node.kind)),
        ensures
            after@ == self@.with_node(node, entry@),
    {
        assert forall|other: NodeRef| after@.spent.contains(other) == self@.spent.contains(
            other,
        ) by {
            if other.kind != node.kind {
                assert(after.arena(other.kind) == self.arena(other.kind));
            }
        }
        assert(after@.spent =~= self@.spent);
        assert forall|other: NodeRef| #[trigger] after@.nodes.dom().contains(other)
            == self@.with_node(node, entry@).nodes.dom().contains(other) by {
            if other.kind != node.kind {
                assert(after.arena(other.kind) == self.arena(other.kind));
            }
        }
        assert forall|other: NodeRef| #[trigger] after@.nodes.dom().contains(other)
            implies after@.nodes[other] == self@.with_node(node, entry@).nodes[other] by {
            if other.kind != node.kind {
                assert(after.arena(other.kind) == self.arena(other.kind));
            }
        }
        assert(after@.nodes =~= self@.with_node(node, entry@).nodes);
    }

    /// Removing one slot of one arena removes one node of the model.
    proof fn lemma_slot_freed(&self, after: Context, node: NodeRef)
        requires
            self.differs_in(after, node.kind),
            arena_view(after.arena(node.kind)) == arena_view(self.arena(node.kind)).remove(
                node.key,
            ),
            arena_spent(after.arena(node.kind)) == if self@.live(node) {
                arena_spent(self.arena(node.kind)).insert(node.key)
            } else {
                arena_spent(self.arena(node.kind))
            },
        ensures
            after@ == (ContextView {
                nodes: self@.nodes.remove(node),
                spent: if self@.live(node) {
                    self@.spent.insert(node)
                } else {
                    self@.spent
                },
                ..self@
            }),
    {
        let spent = if self@.live(node) {
            self@.spent.insert(node)
        } else {
            self@.spent
        };
        assert forall|other: NodeRef| after@.spent.contains(other) == spent.contains(other) by {
            if other.kind != node.kind {
                assert(after.arena(other.kind) == self.arena(other.kind));
            }
        }
        assert(after@.spent =~= spent);
        assert forall|other: NodeRef| #[trigger] after@.nodes.dom().contains(other)
            == self@.nodes.remove(node).dom().contains(other) by {
            if other.kind != node.kind {
                assert(after.arena(other.kind) == self.arena(other.kind));
            }
        }
        assert forall|other: NodeRef| #[trigger] after@.nodes.dom().contains(other)
            implies after@.nodes[other] == self@.nodes.remove(node)[other] by {
            if other.kind != node.kind {
                assert(after.arena(other.kind) == self.arena(other.kind));
            }
        }
        assert(after@.nodes =~= self@.nodes.remove(node));
    }

    /// The invariant of a context: see [`ContextView::wf`].
    pub open spec fn wf(&self) -> bool {
        self@.wf()
    }

    /// What tells this context from every other.
    pub fn id(&self) -> (id: Uuid)
        ensures
            id == self@.id,
    {
        self.id
    }

    /// The key of the IR.
    pub fn root(&self) -> (root: Key)
        ensures
            root == self@.root,
    {
        self.root
    }

    /// The entry of a node, if the node is live.
    pub(crate) fn entry(&self, node: NodeRef) -> (entry: Option<&Entry>)
        ensures
            entry is Some <==> self@.live(node),
            entry is Some ==> entry->Some_0@ == self@.nodes[node],
    {
        match node.kind {
            NodeKind::Ir => arena_get(&self.ir, node.key),
            NodeKind::Module => arena_get(&self.module, node.key),
            NodeKind::Section => arena_get(&self.section, node.key),
            NodeKind::ByteInterval => arena_get(&self.byte_interval, node.key),
            NodeKind::CodeBlock => arena_get(&self.code_block, node.key),
            NodeKind::DataBlock => arena_get(&self.data_block, node.key),
            NodeKind::ProxyBlock => arena_get(&self.proxy_block, node.key),
            NodeKind::Symbol => arena_get(&self.symbol, node.key),
        }
    }

    /// The entry of a live node, to be changed in place.
    pub(crate) fn entry_mut(&mut self, node: NodeRef) -> (entry: &mut Entry)
        requires
            old(self)@.live(node),
        ensures
            entry@ == old(self)@.nodes[node],
            final(self)@ == old(self)@.with_node(node, final(entry)@),
    {
        proof {
            let before = *self;
            assert forall|after: Context, entry: Entry|
                before.differs_in(after, node.kind) && arena_view(after.arena(node.kind))
                    == arena_view(before.arena(node.kind)).insert(node.key, entry) && arena_spent(
                    after.arena(node.kind),
                ) == arena_spent(before.arena(node.kind)) implies
                #[trigger] after@ == before@.with_node(node, #[trigger] entry@) by {
                before.lemma_slot_changed(after, node, entry);
            }
        }
        match node.kind {
            NodeKind::Ir => arena_get_mut(&mut self.ir, node.key),
            NodeKind::Module => arena_get_mut(&mut self.module, node.key),
            NodeKind::Section => arena_get_mut(&mut self.section, node.key),
            NodeKind::ByteInterval => arena_get_mut(&mut self.byte_interval, node.key),
            NodeKind::CodeBlock => arena_get_mut(&mut self.code_block, node.key),
            NodeKind::DataBlock => arena_get_mut(&mut self.data_block, node.key),
            NodeKind::ProxyBlock => arena_get_mut(&mut self.proxy_block, node.key),
            NodeKind::Symbol => arena_get_mut(&mut self.symbol, node.key),
        }
    }
    /// Puts an entry into the arena of its kind and returns its key. The
    /// index is not touched.
    pub(crate) fn insert_entry(&mut self, entry: Entry) -> (node: NodeRef)
        ensures
            node.kind == entry@.kind(),
            !old(self)@.live(node),
            !old(self)@.spent.contains(node),
            final(self)@ == old(self)@.with_node(node, entry@),
    {
        let ghost before = *self;
        let kind = entry.record.get_kind();
        let key = match kind {
            NodeKind::Ir => arena_insert(&mut self.ir, entry),
            NodeKind::Module => arena_insert(&mut self.module, entry),
            NodeKind::Section => arena_insert(&mut self.section, entry),
            NodeKind::ByteInterval => arena_insert(&mut self.byte_interval, entry),
            NodeKind::CodeBlock => arena_insert(&mut self.code_block, entry),
            NodeKind::DataBlock => arena_insert(&mut self.data_block, entry),
            NodeKind::ProxyBlock => arena_insert(&mut self.proxy_block, entry),
            NodeKind::Symbol => arena_insert(&mut self.symbol, entry),
        };
        let node = NodeRef { kind, key };
        proof {
            before.lemma_slot_changed(*self, node, entry);
        }
        node
    }

    /// Takes the entry of a node out of its arena. The index is not touched.
    pub(crate) fn remove_entry(&mut self, node: NodeRef) -> (entry: Option<Entry>)
        ensures
            entry is Some <==> old(self)@.live(node),
            entry is Some ==> entry->Some_0@ == old(self)@.nodes[node],
            final(self)@ == (ContextView {
                nodes: old(self)@.nodes.remove(node),
                spent: if old(self)@.live(node) {
                    old(self)@.spent.insert(node)
                } else {
                    old(self)@.spent
                },
                ..old(self)@
            }),
    {
        let ghost before = *self;
        let entry = match node.kind {
            NodeKind::Ir => arena_remove(&mut self.ir, node.key),
            NodeKind::Module => arena_remove(&mut self.module, node.key),
            NodeKind::Section => arena_remove(&mut self.section, node.key),
            NodeKind::ByteInterval => arena_remove(&mut self.byte_interval, node.key),
            NodeKind::CodeBlock => arena_remove(&mut self.code_block, node.key),
            NodeKind::DataBlock => arena_remove(&mut self.data_block, node.key),
            NodeKind::ProxyBlock => arena_remove(&mut self.proxy_block, node.key),
            NodeKind::Symbol => arena_remove(&mut self.symbol, node.key),
        };
        proof {
            before.lemma_slot_freed(*self, node);
        }
        entry
    }

    /// The node that the index holds for an identifier.
    pub(crate) fn index_get(&self, uuid: Uuid) -> (node: Option<NodeRef>)
        ensures
            node is Some <==> self@.index.dom().contains(uuid),
            node is Some ==> node->Some_0 == self@.index[uuid],
    {
        broadcast use vstd::std_specs::hash::group_hash_axioms;

        match self.uuid_map.get(&uuid) {
            Some(node) => Some(*node),
            None => None,
        }
    }

    /// Enters an identifier into the index.
    pub(crate) fn index_insert(&mut self, uuid: Uuid, node: NodeRef)
        ensures
            final(self)@ == (ContextView {
                index: old(self)@.index.insert(uuid, node),
                ..old(self)@
            }),
    {
        broadcast use vstd::std_specs::hash::group_hash_axioms;

        self.uuid_map.insert(uuid, node);
        assert(self@.nodes =~= old(self)@.nodes);
        assert(self@.spent =~= old(self)@.spent);
    }

    /// Takes an identifier out of the index.
    pub(crate) fn index_remove(&mut self, uuid: Uuid)
        ensures
            final(self)@ == (ContextView { index: old(self)@.index.remove(uuid), ..old(self)@ }),
    {
        broadcast use vstd::std_specs::hash::group_hash_axioms;

        self.uuid_map.remove(&uuid);
        assert(self@.nodes =~= old(self)@.nodes);
        assert(self@.spent =~= old(self)@.spent);
    }

    /// A context that holds the given record as its IR and nothing else.
    pub(crate) fn with_root(id: Uuid, record: Record) -> (context: Context)
        requires
            record.kind() == NodeKind::Ir,
        ensures
            context@ == ContextView::initial(id, context@.root, record.uuid(), record.attrs()),
            context.wf(),
    {
        broadcast use vstd::std_specs::hash::group_hash_axioms;

        let uuid = record.get_uuid();
        let mut ir = arena_new();
        let root = arena_insert(&mut ir, Entry::new(record, None));
        let mut uuid_map: HashMap<Uuid, NodeRef> = HashMap::new();
        uuid_map.insert(uuid, NodeRef { kind: NodeKind::Ir, key: root });
        let context = Context {
            id,
            root,
            uuid_map,
            ir,
            module: arena_new(),
            section: arena_new(),
            byte_interval: arena_new(),
            code_block: arena_new(),
            data_block: arena_new(),
            proxy_block: arena_new(),
            symbol: arena_new(),
        };
        proof {
            let model = ContextView::initial(id, root, record.uuid(), record.attrs());
            assert(context@.nodes =~= model.nodes);
            assert(context@.index =~= model.index);
            assert(context@.spent =~= model.spent);
            lemma_initial_wf(id, root, record.uuid(), record.attrs());
        }
        context
    }

    /// Whether the node is live.
    pub fn contains(&self, node: NodeRef) -> (live: bool)
        ensures
            live == self@.live(node),
    {
        self.entry(node).is_some()
    }

    /// Adds a node as the last child of `parent`: the record goes into the
    /// arena of its kind, its identifier into the index, and its key onto the
    /// parent's list for that kind.
    pub fn add_node(&mut self, parent: NodeRef, record: Record) -> (added: Result<
        NodeRef,
        GraphError,
    >)
        requires
            old(self).wf(),
            record.kind().parent_kind() == Some(parent.kind),
        ensures
            final(self).wf(),
            match added {
                Ok(child) => {
                    &&& old(self)@.live(parent)
                    &&& !old(self)@.index.dom().contains(record.uuid())
                    &&& child.kind == record.kind()
                    &&& !old(self)@.live(child)
                    &&& !old(self)@.spent.contains(child)
                    &&& final(self)@ == old(self)@.attach(
                        parent,
                        child,
                        record.uuid(),
                        record.attrs(),
                    )
                },
                Err(error) => {
                    &&& final(self)@ == old(self)@
                    &&& error == if !old(self)@.live(parent) {
                        GraphError::StaleHandle
                    } else {
                        GraphError::DuplicateUuid
                    }
                    &&& !old(self)@.live(parent) || old(self)@.index.dom().contains(record.uuid())
                },
            },
    {
        if !self.contains(parent) {
            return Err(GraphError::StaleHandle);
        }
        let uuid = record.get_uuid();
        if self.index_get(uuid).is_some() {
            return Err(GraphError::DuplicateUuid);
        }
        let kind = record.get_kind();
        let child = self.insert_entry(Entry::new(record, Some(parent.key)));
        self.index_insert(uuid, child);
        let entry = self.entry_mut(parent);
        entry.push_child(kind, child.key);
        proof {
            let model = old(self)@.attach(parent, child, record.uuid(), record.attrs());
            assert(self@.nodes =~= model.nodes);
            lemma_attach_wf(old(self)@, parent, child, record.uuid(), record.attrs());
        }
        Ok(child)
    }
    /// Removes a live node that has no children.
    fn remove_leaf(&mut self, parent: NodeRef, leaf: NodeRef)
        requires
            old(self).wf(),
            old(self)@.live(leaf),
            old(self)@.parent_of(leaf) == Some(parent),
            old(self)@.nodes[leaf].is_leaf(),
        ensures
            final(self).wf(),
            final(self)@ == old(self)@.pruned(leaf),
    {
        proof {
            assert(old(self)@.nodes.dom().contains(leaf));
            lemma_prune_leaf(old(self)@, parent, leaf);
            lemma_prune_leaf_wf(old(self)@, parent, leaf);
        }
        let ghost list = self@.nodes[parent].list(leaf.kind);
        let entry = self.entry_mut(parent);
        let keys = entry.list(leaf.kind);
        let mut position: usize = 0;
        while position < keys.len() && keys[position] != leaf.key
            invariant
                position <= keys.len(),
                keys@ == list,
                list.contains(leaf.key),
                forall|i: int| 0 <= i < position ==> list[i] != leaf.key,
            decreases keys.len() - position,
        {
            position = position + 1;
        }
        proof {
            lemma_index_of_unique(list, position as int);
        }
        entry.remove_child(leaf.kind, position);
        let removed = self.remove_entry(leaf);
        match removed {
            Some(entry) => {
                self.index_remove(entry.record.get_uuid());
            },
            None => {},
        }
        proof {
            assert(self@.nodes =~= old(self)@.pruned(leaf).nodes);
        }
    }

    /// Removes a live node and everything below it, the lowest nodes first.
    fn remove_subtree(&mut self, parent: NodeRef, node: NodeRef)
        requires
            old(self).wf(),
            old(self)@.live(node),
            old(self)@.parent_of(node) == Some(parent),
        ensures
            final(self).wf(),
            final(self)@ == old(self)@.pruned(node),
        decreases 4 - node.kind.depth(),
    {
        let kinds = node.kind.child_kinds();
        let mut done: usize = 0;
        while done < kinds.len()
            invariant
                done <= kinds.len(),
                self.wf(),
                self@.live(node),
                self@.parent_of(node) == Some(parent),
                self@.pruned(node) == old(self)@.pruned(node),
                forall|child: NodeKind| kinds@.contains(child) <==> node.kind.contains_kind(child),
                forall|i: int| 0 <= i < done ==> self@.nodes[node].list(kinds@[i]).len() == 0,
            decreases kinds.len() - done,
        {
            let kind = kinds[done];
            assert(kinds@.contains(kind));
            loop
                invariant
                    done < kinds.len(),
                    kind == kinds@[done as int],
                    node.kind.contains_kind(kind),
                    self.wf(),
                    self@.live(node),
                    self@.parent_of(node) == Some(parent),
                    self@.pruned(node) == old(self)@.pruned(node),
                    forall|i: int| 0 <= i < done ==> self@.nodes[node].list(kinds@[i]).len() == 0,
                ensures
                    self@.nodes[node].list(kind).len() == 0,
                decreases self@.nodes[node].list(kind).len(),
            {
                let last = match self.entry(node) {
                    Some(entry) => {
                        let keys = entry.list(kind);
                        if keys.len() == 0 {
                            None
                        } else {
                            Some(keys[keys.len() - 1])
                        }
                    },
                    None => None,
                };
                match last {
                    None => {
                        break ;
                    },
                    Some(key) => {
                        let child = NodeRef { kind, key };
                        proof {
                            let v = self@;
                            let list = v.nodes[node].list(kind);
                            assert(v.nodes.dom().contains(node));
                            assert(list[list.len() - 1] == key);
                            assert(v.live(child));
                            assert(v.parent_of(child) == Some(node));
                            lemma_prune_absorbs(v, node, child);
                            lemma_pruned_parent(v, node, child);
                            assert forall|i: int| 0 <= i < done implies v.pruned(
                                child,
                            ).nodes[node].list(kinds@[i]).len() == 0 by {
                                assert(kinds@[i] != kind) by {
                                    if kinds@[i] == kind {
                                        assert(v.nodes[node].list(kinds@[i]).len() == 0);
                                    }
                                }
                            }
                        }
                        self.remove_subtree(node, child);
                    },
                }
            }
            done = done + 1;
        }
        proof {
            assert forall|child: NodeKind| (#[trigger] self@.nodes[node].list(child)).len()
                == 0 by {
                if node.kind.contains_kind(child) {
                    assert(kinds@.contains(child));
                    let i = choose|i: int| 0 <= i < kinds@.len() && kinds@[i] == child;
                    assert(self@.nodes[node].list(kinds@[i]).len() == 0);
                }
            }
            assert(self@.nodes.dom().contains(node));
        }
        self.remove_leaf(parent, node);
    }

    /// Removes a child of `parent` together with everything below it: the
    /// nodes leave their arenas, their identifiers leave the index, and the
    /// child's key leaves the parent's list.
    pub fn remove_node(&mut self, parent: NodeRef, child: NodeRef) -> (removed: Result<
        (),
        GraphError,
    >)
        requires
            old(self).wf(),
        ensures
            final(self).wf(),
            match removed {
                Ok(_) => {
                    &&& old(self)@.live(parent)
                    &&& old(self)@.live(child)
                    &&& old(self)@.parent_of(child) == Some(parent)
                    &&& final(self)@ == old(self)@.pruned(child)
                },
                Err(error) => {
                    &&& final(self)@ == old(self)@
                    &&& error == if !old(self)@.live(parent) || !old(self)@.live(child) {
                        GraphError::StaleHandle
                    } else {
                        GraphError::WrongParent
                    }
                    &&& (!old(self)@.live(parent) || !old(self)@.live(child) || old(
                        self,
                    )@.parent_of(child) != Some(parent))
                },
            },
    {
        if !self.contains(parent) {
            return Err(GraphError::StaleHandle);
        }
        let named = match self.entry(child) {
            Some(entry) => entry.parent,
            None => {
                return Err(GraphError::StaleHandle);
            },
        };
        let listed = match (child.kind.get_parent_kind(), named) {
            (Some(kind), Some(key)) => kind == parent.kind && key == parent.key,
            _ => false,
        };
        if !listed {
            return Err(GraphError::WrongParent);
        }
        self.remove_subtree(parent, child);
        Ok(())
    }
    /// The identifier of a node, if the node is live.
    pub fn uuid_of(&self, node: NodeRef) -> (uuid: Option<Uuid>)
        ensures
            uuid == if self@.live(node) {
                Some(self@.nodes[node].uuid)
            } else {
                None
            },
    {
        match self.entry(node) {
            Some(entry) => Some(entry.record.get_uuid()),
            None => None,
        }
    }

    /// The key of the node that contains the given one, if the given one is
    /// live and has a parent.
    pub fn parent_key(&self, node: NodeRef) -> (parent: Option<Key>)
        ensures
            parent == if self@.live(node) {
                self@.nodes[node].parent
            } else {
                None
            },
    {
        match self.entry(node) {
            Some(entry) => entry.parent,
            None => None,
        }
    }

    /// The keys of a node's children of one kind, in the order in which they
    /// were added, as they stand now: later changes do not reach the result.
    pub fn node_iter(&self, parent: NodeRef, kind: NodeKind) -> (keys: Option<Vec<Key>>)
        ensures
            keys is Some <==> self@.live(parent),
            keys is Some ==> keys->Some_0@ == self@.nodes[parent].list(kind),
    {
        match self.entry(parent) {
            Some(entry) => {
                match kind.get_parent_kind() {
                    Some(above) => {
                        if above == entry.record.get_kind() {
                            Some(entry.list(kind).clone())
                        } else {
                            Some(Vec::new())
                        }
                    },
                    None => Some(Vec::new()),
                }
            },
            None => None,
        }
    }

    /// The node that has the given identifier, if a live node has it.
    pub fn find(&self, uuid: Uuid) -> (node: Option<NodeRef>)
        requires
            self.wf(),
        ensures
            node == if self@.index.dom().contains(uuid) {
                Some(self@.index[uuid])
            } else {
                None
            },
            node is Some ==> self@.live(node->Some_0) && self@.nodes[node->Some_0].uuid == uuid,
    {
        self.index_get(uuid)
    }

    /// Gives a live node another identifier. The index follows in the same
    /// step. An identifier that another live node has is refused.
    pub fn set_uuid(&mut self, node: NodeRef, uuid: Uuid) -> (set: Result<(), GraphError>)
        requires
            old(self).wf(),
        ensures
            final(self).wf(),
            match set {
                Ok(_) => {
                    &&& old(self)@.live(node)
                    &&& (old(self)@.index.dom().contains(uuid) ==> old(self)@.index[uuid] == node)
                    &&& final(self)@ == old(self)@.renamed(node, uuid)
                },
                Err(error) => {
                    &&& final(self)@ == old(self)@
                    &&& error == if !old(self)@.live(node) {
                        GraphError::StaleHandle
                    } else {
                        GraphError::DuplicateUuid
                    }
                    &&& (!old(self)@.live(node) || (old(self)@.index.dom().contains(uuid) && old(
                        self,
                    )@.index[uuid] != node))
                },
            },
    {
        let current = match self.uuid_of(node) {
            Some(current) => current,
            None => {
                return Err(GraphError::StaleHandle);
            },
        };
        proof {
            assert(self@.nodes.dom().contains(node));
        }
        match self.index_get(uuid) {
            Some(holder) => {
                if holder == node {
                    proof {
                        assert(self@.index.dom().contains(uuid));
                        assert(current == uuid);
                        assert(self@.renamed(node, uuid).nodes =~= self@.nodes);
                        assert(self@.renamed(node, uuid).index =~= self@.index);
                    }
                    return Ok(());
                } else {
                    return Err(GraphError::DuplicateUuid);
                }
            },
            None => {},
        }
        let entry = self.entry_mut(node);
        entry.record.set_uuid(uuid);
        proof {
            assert(entry@.children =~= old(self)@.nodes[node].children);
        }
        self.index_remove(current);
        self.index_insert(uuid, node);
        proof {
            lemma_renamed_wf(old(self)@, node, uuid);
        }
        Ok(())
    }

    /// The record of a live node, to be changed in place. Where the caller
    /// leaves the identifier and the kind as they are, the context keeps its
    /// invariant and differs from the old one in that node's attributes.
    pub(crate) fn record_mut(&mut self, node: NodeRef) -> (record: &mut Record)
        requires
            old(self).wf(),
            old(self)@.live(node),
        ensures
            record.attrs() == old(self)@.nodes[node].attrs,
            record.uuid() == old(self)@.nodes[node].uuid,
            final(record).uuid() == record.uuid() && final(record).kind() == node.kind ==> {
                &&& final(self)@ == old(self)@.with_attrs(node, final(record).attrs())
                &&& final(self).wf()
            },
    {
        proof {
            let v = old(self)@;
            assert(v.nodes.dom().contains(node));
            assert forall|attrs: Attrs| attrs.kind() == node.kind implies #[trigger] v.with_attrs(
                node,
                attrs,
            ).wf() by {
                lemma_with_attrs_wf(v, node, attrs);
            }
        }
        let entry = self.entry_mut(node);
        proof {
            assert forall|after: Entry|
                after.parent == entry.parent && after.lists == entry.lists
                    && after.record.kind() == entry.record.kind() implies (
            #[trigger] after@).children =~= entry@.children by {}
        }
        &mut entry.record
    }
    /// The record of a node, if the node is live.
    pub(crate) fn record(&self, node: NodeRef) -> (record: Option<&Record>)
        ensures
            record is Some <==> self@.live(node),
            record is Some ==> record->Some_0.attrs() == self@.nodes[node].attrs,
            record is Some ==> record->Some_0.uuid() == self@.nodes[node].uuid,
    {
        match self.entry(node) {
            Some(entry) => Some(&entry.record),
            None => None,
        }
    }
}

} // verus!
