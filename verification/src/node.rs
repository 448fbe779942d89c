//! What the records of all kinds have in common, and what the handles.

use vstd::prelude::*;
use crate::ident::Uuid;
use crate::kind::NodeKind;
use crate::record::Record;
use crate::store::Key;
use crate::view::Attrs;

verus! {

/// The record of a node of one kind, before it is added to a graph.
pub trait NodeData: Sized {
    /// The kind of node that the record describes.
    spec fn data_kind(&self) -> NodeKind;

    /// The identifier in the record.
    spec fn data_uuid(&self) -> Uuid;

    /// The attributes in the record.
    spec fn data_attrs(&self) -> Attrs;

    /// The identifier in the record.
    fn uuid(&self) -> (uuid: Uuid)
        ensures
            uuid == self.data_uuid(),
    ;

    /// The record as one of any kind.
    fn into_record(self) -> (record: Record)
        ensures
            record.kind() == self.data_kind(),
            record.uuid() == self.data_uuid(),
            record.attrs() == self.data_attrs(),
    ;
}

/// A handle on a node of one kind.
pub trait Node: Sized {
    /// The kind of node that such a handle names.
    spec fn kind() -> NodeKind;

    /// The handle with the given parts.
    spec fn make(index: Key, context: Uuid) -> Self;

    /// Computes [`Node::kind`].
    fn node_kind() -> (kind: NodeKind)
        ensures
            kind == Self::kind(),
    ;

    /// Computes [`Node::make`].
    fn from_parts(index: Key, context: Uuid) -> (node: Self)
        ensures
            node == Self::make(index, context),
    ;
}

} // verus!
