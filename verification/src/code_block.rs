//! Code blocks: the executable parts of a byte interval.

use vstd::prelude::*;
use crate::byte_interval::ByteInterval;
use crate::context::Context;
use crate::error::GraphError;
use crate::ident::Uuid;
use crate::ident::is_random_uuid;
use crate::ident::random_uuid;
use crate::kind::NodeKind;
use crate::kind::NodeRef;
use crate::node::Node;
use crate::node::NodeData;
use crate::record::Record;
use crate::store::Key;
use crate::view::Attrs;

verus! {

/// The record of a code block.
#[derive(Debug, PartialEq)]
pub struct CodeBlockData {
    pub uuid: Uuid,
}

impl CodeBlockData {
    /// A code block with the given identifier.
    pub fn with_uuid(uuid: Uuid) -> (block: CodeBlockData)
        ensures
            block.uuid == uuid,
    {
        CodeBlockData { uuid }
    }

    /// A code block with a fresh identifier, drawn at random and marked as such.
    pub fn new() -> (block: CodeBlockData)
        ensures
            is_random_uuid(block.uuid),
    {
        CodeBlockData::with_uuid(random_uuid())
    }
}

/// A handle on a code block: the key of its slot and the context that the key
/// belongs to. A handle is valid in that context while the slot is occupied
/// in the key's generation.
#[derive(Clone, Copy, Debug, PartialEq, Eq, Structural)]
pub struct CodeBlock {
    pub index: Key,
    pub context: Uuid,
}

impl CodeBlock {
    /// The node that the handle names.
    pub open spec fn node_ref(&self) -> NodeRef {
        NodeRef { kind: NodeKind::CodeBlock, key: self.index }
    }

    /// Whether the handle names a live code block of the given context.
    pub open spec fn valid(&self, ctx: &Context) -> bool {
        self.context == ctx@.id && ctx@.live(self.node_ref())
    }

    /// A handle from its parts.
    pub fn new(index: Key, context: Uuid) -> (node: CodeBlock)
        ensures
            node == (CodeBlock { index, context }),
    {
        CodeBlock { index, context }
    }

    /// The key of the slot that the handle names.
    pub fn index(&self) -> (index: Key)
        ensures
            index == self.index,
    {
        self.index
    }

    /// Computes [`CodeBlock::valid`].
    pub fn is_valid(&self, ctx: &Context) -> (valid: bool)
        ensures
            valid == self.valid(ctx),
    {
        self.context == ctx.id() && ctx.contains(NodeRef { kind: NodeKind::CodeBlock, key: self.index })
    }

    /// The code block's identifier.
    pub fn uuid(&self, ctx: &Context) -> (uuid: Result<Uuid, GraphError>)
        ensures
            match uuid {
                Ok(uuid) => self.valid(ctx) && uuid == ctx@.nodes[self.node_ref()].uuid,
                Err(error) => error == GraphError::StaleHandle && !self.valid(ctx),
            },
    {
        if self.context != ctx.id() {
            return Err(GraphError::StaleHandle);
        }
        match ctx.uuid_of(NodeRef { kind: NodeKind::CodeBlock, key: self.index }) {
            Some(uuid) => Ok(uuid),
            None => Err(GraphError::StaleHandle),
        }
    }

    /// Gives the code block another identifier; the index follows. An identifier
    /// that another live node has is refused.
    pub fn set_uuid(&self, ctx: &mut Context, uuid: Uuid) -> (set: Result<(), GraphError>)
        requires
            old(ctx).wf(),
        ensures
            final(ctx).wf(),
            match set {
                Ok(_) => {
                    &&& self.valid(old(ctx))
                    &&& (old(ctx)@.index.dom().contains(uuid) ==> old(ctx)@.index[uuid]
                        == self.node_ref())
                    &&& final(ctx)@ == old(ctx)@.renamed(self.node_ref(), uuid)
                },
                Err(error) => {
                    &&& final(ctx)@ == old(ctx)@
                    &&& error == if !self.valid(old(ctx)) {
                        GraphError::StaleHandle
                    } else {
                        GraphError::DuplicateUuid
                    }
                    &&& (!self.valid(old(ctx)) || (old(ctx)@.index.dom().contains(uuid) && old(
                        ctx,
                    )@.index[uuid] != self.node_ref()))
                },
            },
    {
        if self.context != ctx.id() {
            return Err(GraphError::StaleHandle);
        }
        ctx.set_uuid(NodeRef { kind: NodeKind::CodeBlock, key: self.index }, uuid)
    }
}

impl CodeBlock {
    /// The handles on the code blocks with the given keys, in the same order.
    pub open spec fn handles(keys: Seq<Key>, context: Uuid) -> Seq<CodeBlock> {
        Seq::new(keys.len(), |i: int| CodeBlock { index: keys[i], context })
    }

    /// Computes [`CodeBlock::handles`].
    pub fn from_keys(keys: &Vec<Key>, context: Uuid) -> (handles: Vec<CodeBlock>)
        ensures
            handles@ == CodeBlock::handles(keys@, context),
    {
        let mut handles: Vec<CodeBlock> = Vec::new();
        let mut done: usize = 0;
        while done < keys.len()
            invariant
                done <= keys.len(),
                handles@ == CodeBlock::handles(keys@.take(done as int), context),
            decreases keys.len() - done,
        {
            handles.push(CodeBlock { index: keys[done], context });
            done = done + 1;
            assert(handles@ =~= CodeBlock::handles(keys@.take(done as int), context));
        }
        assert(keys@.take(done as int) =~= keys@);
        handles
    }

    /// The byte interval that contains the code block.
    pub fn parent(&self, ctx: &Context) -> (parent: Result<ByteInterval, GraphError>)
        requires
            ctx.wf(),
        ensures
            match parent {
                Ok(parent) => {
                    &&& self.valid(ctx)
                    &&& parent.valid(ctx)
                    &&& ctx@.parent_of(self.node_ref()) == Some(parent.node_ref())
                },
                Err(error) => error == GraphError::StaleHandle && !self.valid(ctx),
            },
    {
        if self.context != ctx.id() {
            return Err(GraphError::StaleHandle);
        }
        proof {
            if ctx@.live(self.node_ref()) {
                assert(ctx@.nodes.dom().contains(self.node_ref()));
            }
        }
        match ctx.parent_key(NodeRef { kind: NodeKind::CodeBlock, key: self.index }) {
            Some(key) => Ok(ByteInterval { index: key, context: self.context }),
            None => Err(GraphError::StaleHandle),
        }
    }
}

impl Node for CodeBlock {
    open spec fn kind() -> NodeKind {
        NodeKind::CodeBlock
    }

    open spec fn make(index: Key, context: Uuid) -> CodeBlock {
        CodeBlock { index, context }
    }

    fn node_kind() -> (kind: NodeKind) {
        NodeKind::CodeBlock
    }

    fn from_parts(index: Key, context: Uuid) -> (node: CodeBlock) {
        CodeBlock { index, context }
    }
}

impl NodeData for CodeBlockData {
    open spec fn data_kind(&self) -> NodeKind {
        NodeKind::CodeBlock
    }

    open spec fn data_uuid(&self) -> Uuid {
        self.uuid
    }

    open spec fn data_attrs(&self) -> Attrs {
        Attrs::CodeBlock
    }

    fn uuid(&self) -> (uuid: Uuid) {
        self.uuid
    }

    fn into_record(self) -> (record: Record) {
        Record::CodeBlock(self)
    }
}

} // verus!
