//! A graph as a tree of identifiers and attributes: what two contexts have
//! in common when they hold the same graph under different keys.

use vstd::prelude::*;
use crate::graph::ContextView;
use crate::ident::Uuid;
use crate::kind::NodeKind;
use crate::kind::NodeRef;
use crate::store::Key;
use crate::view::ByteIntervalAttrs;
use crate::view::ModuleAttrs;
use crate::view::SectionAttrs;
use crate::view::SymbolAttrs;

verus! {

/// A byte interval with the identifiers of its blocks, in order.
pub struct IntervalTree {
    pub uuid: Uuid,
    pub attrs: ByteIntervalAttrs,
    pub code_blocks: Seq<Uuid>,
    pub data_blocks: Seq<Uuid>,
}

/// A section with its byte intervals, in order.
pub struct SectionTree {
    pub uuid: Uuid,
    pub attrs: SectionAttrs,
    pub intervals: Seq<IntervalTree>,
}

/// A symbol.
pub struct SymbolTree {
    pub uuid: Uuid,
    pub attrs: SymbolAttrs,
}

/// A module with its sections, its symbols and the identifiers of its proxy
/// blocks, each in order.
pub struct ModuleTree {
    pub uuid: Uuid,
    pub attrs: ModuleAttrs,
    pub sections: Seq<SectionTree>,
    pub symbols: Seq<SymbolTree>,
    pub proxies: Seq<Uuid>,
}

/// An IR with its modules, in order.
pub struct IrTree {
    pub uuid: Uuid,
    pub version: u32,
    pub modules: Seq<ModuleTree>,
}

/// The sequences of a sequence, one after the other.
pub open spec fn concat(parts: Seq<Seq<Uuid>>) -> Seq<Uuid>
    decreases parts.len(),
{
    if parts.len() == 0 {
        Seq::empty()
    } else {
        concat(parts.drop_last()) + parts.last()
    }
}

impl IntervalTree {
    /// The identifiers in the tree, the interval's own first.
    pub open spec fn uuids(self) -> Seq<Uuid> {
        seq![self.uuid] + self.code_blocks + self.data_blocks
    }

    /// The identifiers of each of the trees.
    pub open spec fn parts(trees: Seq<IntervalTree>) -> Seq<Seq<Uuid>> {
        trees.map_values(|tree: IntervalTree| tree.uuids())
    }
}

impl SectionTree {
    /// The identifiers in the tree, the section's own first.
    pub open spec fn uuids(self) -> Seq<Uuid> {
        seq![self.uuid] + concat(IntervalTree::parts(self.intervals))
    }

    /// The identifiers of each of the trees.
    pub open spec fn parts(trees: Seq<SectionTree>) -> Seq<Seq<Uuid>> {
        trees.map_values(|tree: SectionTree| tree.uuids())
    }
}

impl SymbolTree {
    /// The identifiers of the symbols.
    pub open spec fn uuids(trees: Seq<SymbolTree>) -> Seq<Uuid> {
        trees.map_values(|tree: SymbolTree| tree.uuid)
    }
}

impl ModuleTree {
    /// The identifiers in the tree, the module's own first.
    pub open spec fn uuids(self) -> Seq<Uuid> {
        seq![self.uuid] + concat(SectionTree::parts(self.sections)) + SymbolTree::uuids(
            self.symbols,
        ) + self.proxies
    }

    /// The identifiers of each of the trees.
    pub open spec fn parts(trees: Seq<ModuleTree>) -> Seq<Seq<Uuid>> {
        trees.map_values(|tree: ModuleTree| tree.uuids())
    }
}

impl IrTree {
    /// The identifiers in the tree, the IR's own first.
    pub open spec fn uuids(self) -> Seq<Uuid> {
        seq![self.uuid] + concat(ModuleTree::parts(self.modules))
    }
}

impl ContextView {
    /// The identifiers of the nodes of one kind with the given keys.
    pub open spec fn uuids_of(self, kind: NodeKind, keys: Seq<Key>) -> Seq<Uuid> {
        keys.map_values(|key: Key| self.nodes[NodeRef { kind, key }].uuid)
    }

    /// The byte interval with the given key, as a tree.
    pub open spec fn interval_tree(self, key: Key) -> IntervalTree {
        let node = self.nodes[NodeRef { kind: NodeKind::ByteInterval, key }];
        IntervalTree {
            uuid: node.uuid,
            attrs: node.attrs->ByteInterval_0,
            code_blocks: self.uuids_of(NodeKind::CodeBlock, node.list(NodeKind::CodeBlock)),
            data_blocks: self.uuids_of(NodeKind::DataBlock, node.list(NodeKind::DataBlock)),
        }
    }

    /// The byte intervals with the given keys, as trees.
    pub open spec fn interval_trees(self, keys: Seq<Key>) -> Seq<IntervalTree> {
        keys.map_values(|key: Key| self.interval_tree(key))
    }

    /// The section with the given key, as a tree.
    pub open spec fn section_tree(self, key: Key) -> SectionTree {
        let node = self.nodes[NodeRef { kind: NodeKind::Section, key }];
        SectionTree {
            uuid: node.uuid,
            attrs: node.attrs->Section_0,
            intervals: self.interval_trees(node.list(NodeKind::ByteInterval)),
        }
    }

    /// The sections with the given keys, as trees.
    pub open spec fn section_trees(self, keys: Seq<Key>) -> Seq<SectionTree> {
        keys.map_values(|key: Key| self.section_tree(key))
    }

    /// The symbol with the given key, as a tree.
    pub open spec fn symbol_tree(self, key: Key) -> SymbolTree {
        let node = self.nodes[NodeRef { kind: NodeKind::Symbol, key }];
        SymbolTree { uuid: node.uuid, attrs: node.attrs->Symbol_0 }
    }

    /// The symbols with the given keys, as trees.
    pub open spec fn symbol_trees(self, keys: Seq<Key>) -> Seq<SymbolTree> {
        keys.map_values(|key: Key| self.symbol_tree(key))
    }

    /// The module with the given key, as a tree.
    pub open spec fn module_tree(self, key: Key) -> ModuleTree {
        let node = self.nodes[NodeRef { kind: NodeKind::Module, key }];
        ModuleTree {
            uuid: node.uuid,
            attrs: node.attrs->Module_0,
            sections: self.section_trees(node.list(NodeKind::Section)),
            symbols: self.symbol_trees(node.list(NodeKind::Symbol)),
            proxies: self.uuids_of(NodeKind::ProxyBlock, node.list(NodeKind::ProxyBlock)),
        }
    }

    /// The modules with the given keys, as trees.
    pub open spec fn module_trees(self, keys: Seq<Key>) -> Seq<ModuleTree> {
        keys.map_values(|key: Key| self.module_tree(key))
    }

    /// The whole graph as a tree.
    pub open spec fn ir_tree(self) -> IrTree {
        let node = self.nodes[self.root_ref()];
        IrTree {
            uuid: node.uuid,
            version: node.attrs->Ir_0.version,
            modules: self.module_trees(node.list(NodeKind::Module)),
        }
    }

    /// Whether every node of `self` that lies at the given depth or below is
    /// the same in `other`.
    pub open spec fn same_below(self, other: ContextView, depth: nat) -> bool {
        forall|node: NodeRef| #[trigger]
            self.nodes.dom().contains(node) && node.kind.depth() >= depth
                ==> other.nodes.dom().contains(node) && other.nodes[node] == self.nodes[node]
    }
}

/// The tree of a byte interval depends on nothing that lies above it.
pub proof fn lemma_interval_tree_frame(v: ContextView, w: ContextView, key: Key)
    requires
        v.wf(),
        v.live(NodeRef { kind: NodeKind::ByteInterval, key }),
        v.same_below(w, 3),
    ensures
        w.interval_tree(key) == v.interval_tree(key),
{
    let node = NodeRef { kind: NodeKind::ByteInterval, key };
    assert(v.nodes.dom().contains(node));
    let code = v.nodes[node].list(NodeKind::CodeBlock);
    assert forall|i: int| 0 <= i < code.len() implies v.nodes[NodeRef {
        kind: NodeKind::CodeBlock,
        key: code[i],
    }] == w.nodes[NodeRef { kind: NodeKind::CodeBlock, key: code[i] }] by {
        let child = NodeRef { kind: NodeKind::CodeBlock, key: v.nodes[node].list(NodeKind::CodeBlock)[i] };
        assert(v.nodes.dom().contains(child));
    }
    let data = v.nodes[node].list(NodeKind::DataBlock);
    assert forall|i: int| 0 <= i < data.len() implies v.nodes[NodeRef {
        kind: NodeKind::DataBlock,
        key: data[i],
    }] == w.nodes[NodeRef { kind: NodeKind::DataBlock, key: data[i] }] by {
        let child = NodeRef { kind: NodeKind::DataBlock, key: v.nodes[node].list(NodeKind::DataBlock)[i] };
        assert(v.nodes.dom().contains(child));
    }
    assert(w.interval_tree(key).code_blocks =~= v.interval_tree(key).code_blocks);
    assert(w.interval_tree(key).data_blocks =~= v.interval_tree(key).data_blocks);
}

/// The tree of a section depends on nothing that lies above it.
pub proof fn lemma_section_tree_frame(v: ContextView, w: ContextView, key: Key)
    requires
        v.wf(),
        v.live(NodeRef { kind: NodeKind::Section, key }),
        v.same_below(w, 2),
    ensures
        w.section_tree(key) == v.section_tree(key),
{
    let node = NodeRef { kind: NodeKind::Section, key };
    assert(v.nodes.dom().contains(node));
    let list = v.nodes[node].list(NodeKind::ByteInterval);
    assert forall|i: int| 0 <= i < list.len() implies w.interval_tree(list[i]) == v.interval_tree(
        list[i],
    ) by {
        let child = NodeRef {
            kind: NodeKind::ByteInterval,
            key: v.nodes[node].list(NodeKind::ByteInterval)[i],
        };
        assert(v.nodes.dom().contains(child));
        lemma_interval_tree_frame(v, w, list[i]);
    }
    assert(w.section_tree(key).intervals =~= v.section_tree(key).intervals);
}

/// The tree of a module depends on nothing that lies above it.
pub proof fn lemma_module_tree_frame(v: ContextView, w: ContextView, key: Key)
    requires
        v.wf(),
        v.live(NodeRef { kind: NodeKind::Module, key }),
        v.same_below(w, 1),
    ensures
        w.module_tree(key) == v.module_tree(key),
{
    let node = NodeRef { kind: NodeKind::Module, key };
    assert(v.nodes.dom().contains(node));
    let sections = v.nodes[node].list(NodeKind::Section);
    assert forall|i: int| 0 <= i < sections.len() implies w.section_tree(sections[i])
        == v.section_tree(sections[i]) by {
        let child = NodeRef { kind: NodeKind::Section, key: v.nodes[node].list(NodeKind::Section)[i] };
        assert(v.nodes.dom().contains(child));
        lemma_section_tree_frame(v, w, sections[i]);
    }
    let symbols = v.nodes[node].list(NodeKind::Symbol);
    assert forall|i: int| 0 <= i < symbols.len() implies w.symbol_tree(symbols[i])
        == v.symbol_tree(symbols[i]) by {
        let child = NodeRef { kind: NodeKind::Symbol, key: v.nodes[node].list(NodeKind::Symbol)[i] };
        assert(v.nodes.dom().contains(child));
    }
    let proxies = v.nodes[node].list(NodeKind::ProxyBlock);
    assert forall|i: int| 0 <= i < proxies.len() implies v.nodes[NodeRef {
        kind: NodeKind::ProxyBlock,
        key: proxies[i],
    }] == w.nodes[NodeRef { kind: NodeKind::ProxyBlock, key: proxies[i] }] by {
        let child = NodeRef {
            kind: NodeKind::ProxyBlock,
            key: v.nodes[node].list(NodeKind::ProxyBlock)[i],
        };
        assert(v.nodes.dom().contains(child));
    }
    assert(w.module_tree(key).sections =~= v.module_tree(key).sections);
    assert(w.module_tree(key).symbols =~= v.module_tree(key).symbols);
    assert(w.module_tree(key).proxies =~= v.module_tree(key).proxies);
}

} // verus!
