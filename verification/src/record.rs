//! What an arena slot holds: a node's record together with its edges.

use vstd::prelude::*;
use crate::byte_interval::ByteIntervalData;
use crate::code_block::CodeBlockData;
use crate::data_block::DataBlockData;
use crate::ident::Uuid;
use crate::ir::IRData;
use crate::kind::NodeKind;
use crate::module::ModuleData;
use crate::proxy_block::ProxyBlockData;
use crate::section::SectionData;
use crate::store::Key;
use crate::symbol::SymbolData;
use crate::view::Attrs;
use crate::view::NodeView;

verus! {

/// The record of a node of any kind.
#[derive(Debug, PartialEq)]
pub enum Record {
    Ir(IRData),
    Module(ModuleData),
    Section(SectionData),
    ByteInterval(ByteIntervalData),
    CodeBlock(CodeBlockData),
    DataBlock(DataBlockData),
    ProxyBlock(ProxyBlockData),
    Symbol(SymbolData),
}

impl Record {
    /// The identifier in the record.
    pub open spec fn uuid(&self) -> Uuid {
        match self {
            Record::Ir(data) => data.uuid,
            Record::Module(data) => data.uuid,
            Record::Section(data) => data.uuid,
            Record::ByteInterval(data) => data.uuid,
            Record::CodeBlock(data) => data.uuid,
            Record::DataBlock(data) => data.uuid,
            Record::ProxyBlock(data) => data.uuid,
            Record::Symbol(data) => data.uuid,
        }
    }

    /// The attributes in the record.
    pub open spec fn attrs(&self) -> Attrs {
        match self {
            Record::Ir(data) => data.attrs(),
            Record::Module(data) => data.attrs(),
            Record::Section(data) => data.attrs(),
            Record::ByteInterval(data) => data.attrs(),
            Record::CodeBlock(_) => Attrs::CodeBlock,
            Record::DataBlock(_) => Attrs::DataBlock,
            Record::ProxyBlock(_) => Attrs::ProxyBlock,
            Record::Symbol(data) => data.attrs(),
        }
    }

    /// The kind of node that the record describes.
    pub open spec fn kind(&self) -> NodeKind {
        self.attrs().kind()
    }

    /// Computes [`Record::kind`].
    pub fn get_kind(&self) -> (kind: NodeKind)
        ensures
            kind == self.kind(),
    {
        match self {
            Record::Ir(_) => NodeKind::Ir,
            Record::Module(_) => NodeKind::Module,
            Record::Section(_) => NodeKind::Section,
            Record::ByteInterval(_) => NodeKind::ByteInterval,
            Record::CodeBlock(_) => NodeKind::CodeBlock,
            Record::DataBlock(_) => NodeKind::DataBlock,
            Record::ProxyBlock(_) => NodeKind::ProxyBlock,
            Record::Symbol(_) => NodeKind::Symbol,
        }
    }

    /// Computes [`Record::uuid`].
    pub fn get_uuid(&self) -> (uuid: Uuid)
        ensures
            uuid == self.uuid(),
    {
        match self {
            Record::Ir(data) => data.uuid,
            Record::Module(data) => data.uuid,
            Record::Section(data) => data.uuid,
            Record::ByteInterval(data) => data.uuid,
            Record::CodeBlock(data) => data.uuid,
            Record::DataBlock(data) => data.uuid,
            Record::ProxyBlock(data) => data.uuid,
            Record::Symbol(data) => data.uuid,
        }
    }

    /// Gives the record another identifier and leaves its attributes alone.
    pub fn set_uuid(&mut self, uuid: Uuid)
        ensures
            final(self).uuid() == uuid,
            final(self).attrs() == old(self).attrs(),
    {
        match self {
            Record::Ir(data) => {
                data.uuid = uuid;
            },
            Record::Module(data) => {
                data.uuid = uuid;
            },
            Record::Section(data) => {
                data.uuid = uuid;
            },
            Record::ByteInterval(data) => {
                data.uuid = uuid;
            },
            Record::CodeBlock(data) => {
                data.uuid = uuid;
            },
            Record::DataBlock(data) => {
                data.uuid = uuid;
            },
            Record::ProxyBlock(data) => {
                data.uuid = uuid;
            },
            Record::Symbol(data) => {
                data.uuid = uuid;
            },
        }
    }
}

/// What a slot of an arena holds: the record of a node, the key of the node
/// that contains it, and the keys of the nodes that it contains. A kind has
/// at most three kinds of children, so three lists are enough.
#[derive(Debug)]
pub struct Entry {
    pub parent: Option<Key>,
    pub lists: [Vec<Key>; 3],
    pub record: Record,
}

impl View for Entry {
    type V = NodeView;

    open spec fn view(&self) -> NodeView {
        NodeView {
            uuid: self.record.uuid(),
            parent: self.parent,
            children: Map::new(
                |child: NodeKind| self.record.kind().contains_kind(child),
                |child: NodeKind| self.lists[child.slot() as int]@,
            ),
            attrs: self.record.attrs(),
        }
    }
}

impl Entry {
    /// An entry for a record that has no children yet.
    pub fn new(record: Record, parent: Option<Key>) -> (entry: Entry)
        ensures
            entry@ == NodeView::childless(record.uuid(), parent, record.attrs()),
            entry.record == record,
    {
        let entry = Entry { parent, lists: [Vec::new(), Vec::new(), Vec::new()], record };
        assert(entry@.children =~= NodeView::childless(
            record.uuid(),
            parent,
            record.attrs(),
        ).children);
        entry
    }

    /// The children of one kind, in order.
    pub fn list(&self, child: NodeKind) -> (keys: &Vec<Key>)
        requires
            self@.kind().contains_kind(child),
        ensures
            keys@ == self@.list(child),
    {
        &self.lists[child.get_slot()]
    }

    /// Appends a child of the given kind.
    pub fn push_child(&mut self, child: NodeKind, key: Key)
        requires
            old(self)@.kind().contains_kind(child),
        ensures
            final(self)@ == old(self)@.with_list(child, old(self)@.list(child).push(key)),
            final(self).record == old(self).record,
    {
        self.lists[child.get_slot()].push(key);
        assert(self@.children =~= old(self)@.with_list(
            child,
            old(self)@.list(child).push(key),
        ).children);
    }

    /// Takes out the child of the given kind at the given position.
    pub fn remove_child(&mut self, child: NodeKind, position: usize)
        requires
            old(self)@.kind().contains_kind(child),
            position < old(self)@.list(child).len(),
        ensures
            final(self)@ == old(self)@.with_list(
                child,
                old(self)@.list(child).remove(position as int),
            ),
            final(self).record == old(self).record,
    {
        self.lists[child.get_slot()].remove(position);
        assert(self@.children =~= old(self)@.with_list(
            child,
            old(self)@.list(child).remove(position as int),
        ).children);
    }
}

} // verus!
