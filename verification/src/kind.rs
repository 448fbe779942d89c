//! The kinds of node and the containment edges between them.

use vstd::prelude::*;
use crate::store::Key;

verus! {

/// The kinds of node that a context stores, one arena each.
#[derive(Clone, Copy, Debug, PartialEq, Eq, Structural, Hash)]
pub enum NodeKind {
    Ir,
    Module,
    Section,
    ByteInterval,
    CodeBlock,
    DataBlock,
    ProxyBlock,
    Symbol,
}

impl NodeKind {
    /// The kind that contains nodes of this kind; the IR is the root and has
    /// none.
    pub open spec fn parent_kind(self) -> Option<NodeKind> {
        match self {
            NodeKind::Ir => None,
            NodeKind::Module => Some(NodeKind::Ir),
            NodeKind::Section => Some(NodeKind::Module),
            NodeKind::ProxyBlock => Some(NodeKind::Module),
            NodeKind::Symbol => Some(NodeKind::Module),
            NodeKind::ByteInterval => Some(NodeKind::Section),
            NodeKind::CodeBlock => Some(NodeKind::ByteInterval),
            NodeKind::DataBlock => Some(NodeKind::ByteInterval),
        }
    }

    /// Whether nodes of this kind contain nodes of kind `child`.
    pub open spec fn contains_kind(self, child: NodeKind) -> bool {
        child.parent_kind() == Some(self)
    }

    /// The number of containment levels above this kind.
    pub open spec fn depth(self) -> nat {
        match self {
            NodeKind::Ir => 0,
            NodeKind::Module => 1,
            NodeKind::Section => 2,
            NodeKind::ProxyBlock => 2,
            NodeKind::Symbol => 2,
            NodeKind::ByteInterval => 3,
            NodeKind::CodeBlock => 4,
            NodeKind::DataBlock => 4,
        }
    }

    /// The kinds of node that nodes of this kind contain, in the order of
    /// their lists.
    pub open spec fn contained_kinds(self) -> Seq<NodeKind> {
        match self {
            NodeKind::Ir => seq![NodeKind::Module],
            NodeKind::Module => seq![NodeKind::Section, NodeKind::ProxyBlock, NodeKind::Symbol],
            NodeKind::Section => seq![NodeKind::ByteInterval],
            NodeKind::ByteInterval => seq![NodeKind::CodeBlock, NodeKind::DataBlock],
            _ => Seq::empty(),
        }
    }

    /// Computes [`NodeKind::contained_kinds`].
    pub fn child_kinds(self) -> (kinds: Vec<NodeKind>)
        ensures
            kinds@ == self.contained_kinds(),
            forall|child: NodeKind| kinds@.contains(child) <==> self.contains_kind(child),
    {
        let kinds = match self {
            NodeKind::Ir => vec![NodeKind::Module],
            NodeKind::Module => vec![NodeKind::Section, NodeKind::ProxyBlock, NodeKind::Symbol],
            NodeKind::Section => vec![NodeKind::ByteInterval],
            NodeKind::ByteInterval => vec![NodeKind::CodeBlock, NodeKind::DataBlock],
            _ => Vec::new(),
        };
        assert(kinds@ =~= self.contained_kinds());
        assert forall|child: NodeKind| kinds@.contains(child) <==> self.contains_kind(child) by {
            if self.contains_kind(child) {
                let i = child.slot() as int;
                assert(kinds@[i] == child);
            }
        }
        kinds
    }

    /// Which of a parent's child lists holds the children of this kind.
    pub open spec fn slot(self) -> nat {
        match self {
            NodeKind::ProxyBlock => 1,
            NodeKind::DataBlock => 1,
            NodeKind::Symbol => 2,
            _ => 0,
        }
    }

    /// Computes [`NodeKind::slot`].
    pub fn get_slot(self) -> (slot: usize)
        ensures
            slot == self.slot(),
            slot < 3,
    {
        match self {
            NodeKind::ProxyBlock => 1,
            NodeKind::DataBlock => 1,
            NodeKind::Symbol => 2,
            _ => 0,
        }
    }

    /// Computes [`NodeKind::parent_kind`].
    pub fn get_parent_kind(self) -> (parent: Option<NodeKind>)
        ensures
            parent == self.parent_kind(),
    {
        match self {
            NodeKind::Ir => None,
            NodeKind::Module => Some(NodeKind::Ir),
            NodeKind::Section => Some(NodeKind::Module),
            NodeKind::ProxyBlock => Some(NodeKind::Module),
            NodeKind::Symbol => Some(NodeKind::Module),
            NodeKind::ByteInterval => Some(NodeKind::Section),
            NodeKind::CodeBlock => Some(NodeKind::ByteInterval),
            NodeKind::DataBlock => Some(NodeKind::ByteInterval),
        }
    }
}

/// A node named by its kind and the key of its slot in that kind's arena.
#[derive(Clone, Copy, Debug, PartialEq, Eq, Structural, Hash)]
pub struct NodeRef {
    pub kind: NodeKind,
    pub key: Key,
}

} // verus!
