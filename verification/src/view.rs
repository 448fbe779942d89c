//! The mathematical model of a node: its identity, its edges and its
//! attributes, as the contracts speak of them.

use vstd::prelude::*;
use crate::addr::Addr;
use crate::attrs::ByteOrder;
use crate::attrs::FileFormat;
use crate::attrs::ISA;
use crate::attrs::SectionFlag;
use crate::ident::Uuid;
use crate::kind::NodeKind;
use crate::store::Key;
use crate::symbol::Payload;
use crate::symbolic_expression::SymbolicExpression;

verus! {

/// The attributes of a module.
pub struct ModuleAttrs {
    pub name: Seq<char>,
    pub binary_path: Seq<char>,
    pub entry_point: Option<Uuid>,
    pub byte_order: ByteOrder,
    pub isa: ISA,
    pub rebase_delta: i64,
    pub preferred_address: Addr,
    pub file_format: FileFormat,
}

/// The attributes of an IR.
pub struct IrAttrs {
    pub version: u32,
}

/// The attributes of a section.
pub struct SectionAttrs {
    pub name: Seq<char>,
    pub flags: Set<SectionFlag>,
}

/// The attributes of a byte interval.
pub struct ByteIntervalAttrs {
    pub size: u64,
    pub address: Option<Addr>,
    pub bytes: Seq<u8>,
    /// The symbolic expressions of the interval with their offsets, in the
    /// order in which they were added.
    pub symbolic_expressions: Seq<(u64, SymbolicExpression)>,
}

/// The attributes of a symbol.
pub struct SymbolAttrs {
    pub name: Seq<char>,
    pub payload: Option<Payload>,
}

/// The attributes of a node, by its kind.
pub enum Attrs {
    Ir(IrAttrs),
    Module(ModuleAttrs),
    Section(SectionAttrs),
    ByteInterval(ByteIntervalAttrs),
    CodeBlock,
    DataBlock,
    ProxyBlock,
    Symbol(SymbolAttrs),
}

impl Attrs {
    /// The kind of node that has such attributes.
    pub open spec fn kind(self) -> NodeKind {
        match self {
            Attrs::Ir(_) => NodeKind::Ir,
            Attrs::Module(_) => NodeKind::Module,
            Attrs::Section(_) => NodeKind::Section,
            Attrs::ByteInterval(_) => NodeKind::ByteInterval,
            Attrs::CodeBlock => NodeKind::CodeBlock,
            Attrs::DataBlock => NodeKind::DataBlock,
            Attrs::ProxyBlock => NodeKind::ProxyBlock,
            Attrs::Symbol(_) => NodeKind::Symbol,
        }
    }
}

/// A node as the contracts see it.
pub struct NodeView {
    /// The node's identifier.
    pub uuid: Uuid,
    /// The key of the node that contains this one.
    pub parent: Option<Key>,
    /// The keys of the nodes that this one contains, in the order in which
    /// they were added, by their kind.
    pub children: Map<NodeKind, Seq<Key>>,
    /// The node's own attributes.
    pub attrs: Attrs,
}

impl NodeView {
    /// The node's kind.
    pub open spec fn kind(self) -> NodeKind {
        self.attrs.kind()
    }

    /// The node's children of one kind; empty for a kind that it cannot
    /// contain.
    pub open spec fn list(self, child: NodeKind) -> Seq<Key> {
        if self.kind().contains_kind(child) && self.children.dom().contains(child) {
            self.children[child]
        } else {
            Seq::empty()
        }
    }

    /// Whether the node has a list for each kind that it can contain and
    /// for no other.
    pub open spec fn shaped(self) -> bool {
        forall|child: NodeKind|
            self.children.dom().contains(child) <==> self.kind().contains_kind(child)
    }

    /// This node with its children of one kind replaced.
    pub open spec fn with_list(self, child: NodeKind, keys: Seq<Key>) -> NodeView {
        NodeView { children: self.children.insert(child, keys), ..self }
    }

    /// This node with one child taken off its list.
    pub open spec fn without_child(self, child: NodeKind, key: Key) -> NodeView {
        self.with_list(child, self.list(child).remove(self.list(child).index_of(key)))
    }

    /// This node with other attributes.
    pub open spec fn with_attrs(self, attrs: Attrs) -> NodeView {
        NodeView { attrs, ..self }
    }

    /// This node with another identifier.
    pub open spec fn with_uuid(self, uuid: Uuid) -> NodeView {
        NodeView { uuid, ..self }
    }

    /// A node that has no children yet.
    pub open spec fn childless(uuid: Uuid, parent: Option<Key>, attrs: Attrs) -> NodeView {
        NodeView {
            uuid,
            parent,
            children: Map::new(
                |child: NodeKind| attrs.kind().contains_kind(child),
                |child: NodeKind| Seq::<Key>::empty(),
            ),
            attrs,
        }
    }

    /// Whether the node has no child of any kind.
    pub open spec fn is_leaf(self) -> bool {
        forall|child: NodeKind| (#[trigger] self.list(child)).len() == 0
    }
}

} // verus!
