//! Data blocks: the parts of a byte interval that hold data.

use vstd::prelude::*;
use crate::byte_interval::ByteInterval;
use crate::context::Context;
use crate::error::GraphError;
use crate::ident::Uuid;
use crate::ident::is_random_uuid;
use crate::ident::random_uuid;
use crate::kind::NodeKind;
use crate::kind::NodeRef;
use crate::node::Node;
use crate::node::NodeData;
use crate::record::Record;
use crate::store::Key;
use crate::view::Attrs;

verus! {

/// The record of a data block.
#[derive(Debug, PartialEq)]
pub struct DataBlockData {
    pub uuid: Uuid,
}

impl DataBlockData {
    /// A data block with the given identifier.
    pub fn with_uuid(uuid: Uuid) -> (block: DataBlockData)
        ensures
            block.uuid == uuid,
    {
        DataBlockData { uuid }
    }

    /// A data block with a fresh identifier, drawn at random and marked as such.
    pub fn new() -> (block: DataBlockData)
        ensures
            is_random_uuid(block.uuid),
    {
        DataBlockData::with_uuid(random_uuid())
    }
}

/// A handle on a data block: the key of its slot and the context that the key
/// belongs to. A handle is valid in that context while the slot is occupied
/// in the key's generation.
#[derive(Clone, Copy, Debug, PartialEq, Eq, Structural)]
pub struct DataBlock {
    pub index: Key,
    pub context: Uuid,
}

impl DataBlock {
    /// The node that the handle names.
    pub open spec fn node_ref(&self) -> NodeRef {
        NodeRef { kind: NodeKind::DataBlock, key: self.index }
    }

    /// Whether the handle names a live data block of the given context.
    pub open spec fn valid(&self, ctx: &Context) -> bool {
        self.context == ctx@.id && ctx@.live(self.node_ref())
    }

    /// A handle from its parts.
    pub fn new(index: Key, context: Uuid) -> (node: DataBlock)
        ensures
            node == (DataBlock { index, context }),
    {
        DataBlock { index, context }
    }

    /// The key of the slot that the handle names.
    pub fn index(&self) -> (index: Key)
        ensures
            index == self.index,
    {
        self.index
    }

    /// Computes [`DataBlock::valid`].
    pub fn is_valid(&self, ctx: &Context) -> (valid: bool)
        ensures
            valid == self.valid(ctx),
    {
        self.context == ctx.id() && ctx.contains(NodeRef { kind: NodeKind::DataBlock, key: self.index })
    }

    /// The data block's identifier.
    pub fn uuid(&self, ctx: &Context) -> (uuid: Result<Uuid, GraphError>)
        ensures
            match uuid {
                Ok(uuid) => self.valid(ctx) && uuid == ctx@.nodes[self.node_ref()].uuid,
                Err(error) => error == GraphError::StaleHandle && !self.valid(ctx),
            },
    {
        if self.context != ctx.id() {
            return Err(GraphError::StaleHandle);
        }
        match ctx.uuid_of(NodeRef { kind: NodeKind::DataBlock, key: self.index }) {
            Some(uuid) => Ok(uuid),
            None => Err(GraphError::StaleHandle),
        }
    }

    /// Gives the data block another identifier; the index follows. An identifier
    /// that another live node has is refused.
    pub fn set_uuid(&self, ctx: &mut Context, uuid: Uuid) -> (set: Result<(), GraphError>)
        requires
            old(ctx).wf(),
        ensures
            final(ctx).wf(),
            match set {
                Ok(_) => {
                    &&& self.valid(old(ctx))
                    &&& (old(ctx)@.index.dom().contains(uuid) ==> old(ctx)@.index[uuid]
                        == self.node_ref())
                    &&& final(ctx)@ == old(ctx)@.renamed(self.node_ref(), uuid)
                },
                Err(error) => {
                    &&& final(ctx)@ == old(ctx)@
                    &&& error == if !self.valid(old(ctx)) {
                        GraphError::StaleHandle
                    } else {
                        GraphError::DuplicateUuid
                    }
                    &&& (!self.valid(old(ctx)) || (old(ctx)@.index.dom().contains(uuid) && old(
                        ctx,
                    )@.index[uuid] != self.node_ref()))
                },
            },
    {
        if self.context != ctx.id() {
            return Err(GraphError::StaleHandle);
        }
        ctx.set_uuid(NodeRef { kind: NodeKind::DataBlock, key: self.index }, uuid)
    }
}

impl DataBlock {
    /// The handles on the data blocks with the given keys, in the same order.
    pub open spec fn handles(keys: Seq<Key>, context: Uuid) -> Seq<DataBlock> {
        Seq::new(keys.len(), |i: int| DataBlock { index: keys[i], context })
    }

    /// Computes [`DataBlock::handles`].
    pub fn from_keys(keys: &Vec<Key>, context: Uuid) -> (handles: Vec<DataBlock>)
        ensures
            handles@ == DataBlock::handles(keys@, context),
    {
        let mut handles: Vec<DataBlock> = Vec::new();
        let mut done: usize = 0;
        while done < keys.len()
            invariant
                done <= keys.len(),
                handles@ == DataBlock::handles(keys@.take(done as int), context),
            decreases keys.len() - done,
        {
            handles.push(DataBlock { index: keys[done], context });
            done = done + 1;
            assert(handles@ =~= DataBlock::handles(keys@.take(done as int), context));
        }
        assert(keys@.take(done as int) =~= keys@);
        handles
    }

    /// The byte interval that contains the data block.
    pub fn parent(&self, ctx: &Context) -> (parent: Result<ByteInterval, GraphError>)
        requires
            ctx.wf(),
        ensures
            match parent {
                Ok(parent) => {
                    &&& self.valid(ctx)
                    &&& parent.valid(ctx)
                    &&& ctx@.parent_of(self.node_ref()) == Some(parent.node_ref())
                },
                Err(error) => error == GraphError::StaleHandle && !self.valid(ctx),
            },
    {
        if self.context != ctx.id() {
            return Err(GraphError::StaleHandle);
        }
        proof {
            if ctx@.live(self.node_ref()) {
                assert(ctx@.nodes.dom().contains(self.node_ref()));
            }
        }
        match ctx.parent_key(NodeRef { kind: NodeKind::DataBlock, key: self.index }) {
            Some(key) => Ok(ByteInterval { index: key, context: self.context }),
            None => Err(GraphError::StaleHandle),
        }
    }
}

impl Node for DataBlock {
    open spec fn kind() -> NodeKind {
        NodeKind::DataBlock
    }

    open spec fn make(index: Key, context: Uuid) -> DataBlock {
        DataBlock { index, context }
    }

    fn node_kind() -> (kind: NodeKind) {
        NodeKind::DataBlock
    }

    fn from_parts(index: Key, context: Uuid) -> (node: DataBlock) {
        DataBlock { index, context }
    }
}

impl NodeData for DataBlockData {
    open spec fn data_kind(&self) -> NodeKind {
        NodeKind::DataBlock
    }

    open spec fn data_uuid(&self) -> Uuid {
        self.uuid
    }

    open spec fn data_attrs(&self) -> Attrs {
        Attrs::DataBlock
    }

    fn uuid(&self) -> (uuid: Uuid) {
        self.uuid
    }

    fn into_record(self) -> (record: Record) {
        Record::DataBlock(self)
    }
}

} // verus!
