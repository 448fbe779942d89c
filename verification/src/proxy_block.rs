//! Proxy blocks: stand-ins in a module for blocks that lie outside it.

use vstd::prelude::*;
use crate::context::Context;
use crate::error::GraphError;
use crate::ident::Uuid;
use crate::ident::is_random_uuid;
use crate::ident::random_uuid;
use crate::kind::NodeKind;
use crate::kind::NodeRef;
use crate::module::Module;
use crate::node::Node;
use crate::node::NodeData;
use crate::record::Record;
use crate::store::Key;
use crate::view::Attrs;

verus! {

/// The record of a proxy block.
#[derive(Debug, PartialEq)]
pub struct ProxyBlockData {
    pub uuid: Uuid,
}

impl ProxyBlockData {
    /// A proxy block with the given identifier.
    pub fn with_uuid(uuid: Uuid) -> (block: ProxyBlockData)
        ensures
            block.uuid == uuid,
    {
        ProxyBlockData { uuid }
    }

    /// A proxy block with a fresh identifier, drawn at random and marked as such.
    pub fn new() -> (block: ProxyBlockData)
        ensures
            is_random_uuid(block.uuid),
    {
        ProxyBlockData::with_uuid(random_uuid())
    }
}

/// A handle on a proxy block: the key of its slot and the context that the key
/// belongs to. A handle is valid in that context while the slot is occupied
/// in the key's generation.
#[derive(Clone, Copy, Debug, PartialEq, Eq, Structural)]
pub struct ProxyBlock {
    pub index: Key,
    pub context: Uuid,
}

impl ProxyBlock {
    /// The node that the handle names.
    pub open spec fn node_ref(&self) -> NodeRef {
        NodeRef { kind: NodeKind::ProxyBlock, key: self.index }
    }

    /// Whether the handle names a live proxy block of the given context.
    pub open spec fn valid(&self, ctx: &Context) -> bool {
        self.context == ctx@.id && ctx@.live(self.node_ref())
    }

    /// A handle from its parts.
    pub fn new(index: Key, context: Uuid) -> (node: ProxyBlock)
        ensures
            node == (ProxyBlock { index, context }),
    {
        ProxyBlock { index, context }
    }

    /// The key of the slot that the handle names.
    pub fn index(&self) -> (index: Key)
        ensures
            index == self.index,
    {
        self.index
    }

    /// Computes [`ProxyBlock::valid`].
    pub fn is_valid(&self, ctx: &Context) -> (valid: bool)
        ensures
            valid == self.valid(ctx),
    {
        self.context == ctx.id() && ctx.contains(NodeRef { kind: NodeKind::ProxyBlock, key: self.index })
    }

    /// The proxy block's identifier.
    pub fn uuid(&self, ctx: &Context) -> (uuid: Result<Uuid, GraphError>)
        ensures
            match uuid {
                Ok(uuid) => self.valid(ctx) && uuid == ctx@.nodes[self.node_ref()].uuid,
                Err(error) => error == GraphError::StaleHandle && !self.valid(ctx),
            },
    {
        if self.context != ctx.id() {
            return Err(GraphError::StaleHandle);
        }
        match ctx.uuid_of(NodeRef { kind: NodeKind::ProxyBlock, key: self.index }) {
            Some(uuid) => Ok(uuid),
            None => Err(GraphError::StaleHandle),
        }
    }

    /// Gives the proxy block another identifier; the index follows. An identifier
    /// that another live node has is refused.
    pub fn set_uuid(&self, ctx: &mut Context, uuid: Uuid) -> (set: Result<(), GraphError>)
        requires
            old(ctx).wf(),
        ensures
            final(ctx).wf(),
            match set {
                Ok(_) => {
                    &&& self.valid(old(ctx))
                    &&& (old(ctx)@.index.dom().contains(uuid) ==> old(ctx)@.index[uuid]
                        == self.node_ref())
                    &&& final(ctx)@ == old(ctx)@.renamed(self.node_ref(), uuid)
                },
                Err(error) => {
                    &&& final(ctx)@ == old(ctx)@
                    &&& error == if !self.valid(old(ctx)) {
                        GraphError::StaleHandle
                    } else {
                        GraphError::DuplicateUuid
                    }
                    &&& (!self.valid(old(ctx)) || (old(ctx)@.index.dom().contains(uuid) && old(
                        ctx,
                    )@.index[uuid] != self.node_ref()))
                },
            },
    {
        if self.context != ctx.id() {
            return Err(GraphError::StaleHandle);
        }
        ctx.set_uuid(NodeRef { kind: NodeKind::ProxyBlock, key: self.index }, uuid)
    }
}

impl ProxyBlock {
    /// The handles on the proxy blocks with the given keys, in the same order.
    pub open spec fn handles(keys: Seq<Key>, context: Uuid) -> Seq<ProxyBlock> {
        Seq::new(keys.len(), |i: int| ProxyBlock { index: keys[i], context })
    }

    /// Computes [`ProxyBlock::handles`].
    pub fn from_keys(keys: &Vec<Key>, context: Uuid) -> (handles: Vec<ProxyBlock>)
        ensures
            handles@ == ProxyBlock::handles(keys@, context),
    {
        let mut handles: Vec<ProxyBlock> = Vec::new();
        let mut done: usize = 0;
        while done < keys.len()
            invariant
                done <= keys.len(),
                handles@ == ProxyBlock::handles(keys@.take(done as int), context),
            decreases keys.len() - done,
        {
            handles.push(ProxyBlock { index: keys[done], context });
            done = done + 1;
            assert(handles@ =~= ProxyBlock::handles(keys@.take(done as int), context));
        }
        assert(keys@.take(done as int) =~= keys@);
        handles
    }

    /// The module that contains the proxy block.
    pub fn parent(&self, ctx: &Context) -> (parent: Result<Module, GraphError>)
        requires
            ctx.wf(),
        ensures
            match parent {
                Ok(parent) => {
                    &&& self.valid(ctx)
                    &&& parent.valid(ctx)
                    &&& ctx@.parent_of(self.node_ref()) == Some(parent.node_ref())
                },
                Err(error) => error == GraphError::StaleHandle && !self.valid(ctx),
            },
    {
        if self.context != ctx.id() {
            return Err(GraphError::StaleHandle);
        }
        proof {
            if ctx@.live(self.node_ref()) {
                assert(ctx@.nodes.dom().contains(self.node_ref()));
            }
        }
        match ctx.parent_key(NodeRef { kind: NodeKind::ProxyBlock, key: self.index }) {
            Some(key) => Ok(Module { index: key, context: self.context }),
            None => Err(GraphError::StaleHandle),
        }
    }
}

impl Node for ProxyBlock {
    open spec fn kind() -> NodeKind {
        NodeKind::ProxyBlock
    }

    open spec fn make(index: Key, context: Uuid) -> ProxyBlock {
        ProxyBlock { index, context }
    }

    fn node_kind() -> (kind: NodeKind) {
        NodeKind::ProxyBlock
    }

    fn from_parts(index: Key, context: Uuid) -> (node: ProxyBlock) {
        ProxyBlock { index, context }
    }
}

impl NodeData for ProxyBlockData {
    open spec fn data_kind(&self) -> NodeKind {
        NodeKind::ProxyBlock
    }

    open spec fn data_uuid(&self) -> Uuid {
        self.uuid
    }

    open spec fn data_attrs(&self) -> Attrs {
        Attrs::ProxyBlock
    }

    fn uuid(&self) -> (uuid: Uuid) {
        self.uuid
    }

    fn into_record(self) -> (record: Record) {
        Record::ProxyBlock(self)
    }
}

} // verus!
