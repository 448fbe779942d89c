//! Byte intervals: runs of bytes within a section.

use vstd::prelude::*;
use crate::addr::Addr;
use crate::code_block::CodeBlock;
use crate::code_block::CodeBlockData;
use crate::context::Context;
use crate::data_block::DataBlock;
use crate::data_block::DataBlockData;
use crate::error::GraphError;
use crate::ident::Uuid;
use crate::ident::is_random_uuid;
use crate::ident::random_uuid;
use crate::kind::NodeKind;
use crate::kind::NodeRef;
use crate::node::Node;
use crate::node::NodeData;
use crate::record::Record;
use crate::section::Section;
use crate::store::Key;
use crate::symbolic_expression::SymbolicExpression;
use crate::symbolic_expression::copy_expressions;
use crate::symbolic_expression::drop_expressions;
use crate::symbolic_expression::expression_at;
use crate::symbolic_expression::expressions_without;
use crate::symbolic_expression::find_expression;
use crate::view::Attrs;
use crate::view::ByteIntervalAttrs;

verus! {

/// The record of a byte interval.
#[derive(Debug, PartialEq)]
pub struct ByteIntervalData {
    pub uuid: Uuid,
    pub size: u64,
    pub address: Option<Addr>,
    pub bytes: Vec<u8>,
    pub symbolic_expressions: Vec<(u64, SymbolicExpression)>,
}

impl ByteIntervalData {
    /// The attributes that the record holds.
    pub open spec fn attrs(&self) -> Attrs {
        Attrs::ByteInterval(
            ByteIntervalAttrs {
                size: self.size,
                address: self.address,
                bytes: self.bytes@,
                symbolic_expressions: self.symbolic_expressions@,
            },
        )
    }

    /// The attributes of a new byte interval: no address, no size, no bytes,
    /// no symbolic expressions.
    pub open spec fn initial() -> Attrs {
        Attrs::ByteInterval(
            ByteIntervalAttrs {
                size: 0,
                address: None,
                bytes: Seq::empty(),
                symbolic_expressions: Seq::empty(),
            },
        )
    }

    /// A byte interval with the given identifier.
    pub fn with_uuid(uuid: Uuid) -> (interval: ByteIntervalData)
        ensures
            interval.uuid == uuid,
            interval.attrs() == ByteIntervalData::initial(),
    {
        ByteIntervalData {
            uuid,
            size: 0,
            address: None,
            bytes: Vec::new(),
            symbolic_expressions: Vec::new(),
        }
    }

    /// A byte interval with a fresh identifier, drawn at random and marked as
    /// such, and nothing else: no address, no size, no bytes, no symbolic
    /// expressions.
    pub fn new() -> (interval: ByteIntervalData)
        ensures
            is_random_uuid(interval.uuid),
            interval.attrs() == ByteIntervalData::initial(),
    {
        ByteIntervalData::with_uuid(random_uuid())
    }
}

/// A handle on a byte interval: the key of its slot and the context that the key
/// belongs to. A handle is valid in that context while the slot is occupied
/// in the key's generation.
#[derive(Clone, Copy, Debug, PartialEq, Eq, Structural)]
pub struct ByteInterval {
    pub index: Key,
    pub context: Uuid,
}

impl ByteInterval {
    /// The node that the handle names.
    pub open spec fn node_ref(&self) -> NodeRef {
        NodeRef { kind: NodeKind::ByteInterval, key: self.index }
    }

    /// Whether the handle names a live byte interval of the given context.
    pub open spec fn valid(&self, ctx: &Context) -> bool {
        self.context == ctx@.id && ctx@.live(self.node_ref())
    }

    /// A handle from its parts.
    pub fn new(index: Key, context: Uuid) -> (node: ByteInterval)
        ensures
            node == (ByteInterval { index, context }),
    {
        ByteInterval { index, context }
    }

    /// The key of the slot that the handle names.
    pub fn index(&self) -> (index: Key)
        ensures
            index == self.index,
    {
        self.index
    }

    /// Computes [`ByteInterval::valid`].
    pub fn is_valid(&self, ctx: &Context) -> (valid: bool)
        ensures
            valid == self.valid(ctx),
    {
        self.context == ctx.id() && ctx.contains(NodeRef { kind: NodeKind::ByteInterval, key: self.index })
    }

    /// The byte interval's identifier.
    pub fn uuid(&self, ctx: &Context) -> (uuid: Result<Uuid, GraphError>)
        ensures
            match uuid {
                Ok(uuid) => self.valid(ctx) && uuid == ctx@.nodes[self.node_ref()].uuid,
                Err(error) => error == GraphError::StaleHandle && !self.valid(ctx),
            },
    {
        if self.context != ctx.id() {
            return Err(GraphError::StaleHandle);
        }
        match ctx.uuid_of(NodeRef { kind: NodeKind::ByteInterval, key: self.index }) {
            Some(uuid) => Ok(uuid),
            None => Err(GraphError::StaleHandle),
        }
    }

    /// Gives the byte interval another identifier; the index follows. An identifier
    /// that another live node has is refused.
    pub fn set_uuid(&self, ctx: &mut Context, uuid: Uuid) -> (set: Result<(), GraphError>)
        requires
            old(ctx).wf(),
        ensures
            final(ctx).wf(),
            match set {
                Ok(_) => {
                    &&& self.valid(old(ctx))
                    &&& (old(ctx)@.index.dom().contains(uuid) ==> old(ctx)@.index[uuid]
                        == self.node_ref())
                    &&& final(ctx)@ == old(ctx)@.renamed(self.node_ref(), uuid)
                },
                Err(error) => {
                    &&& final(ctx)@ == old(ctx)@
                    &&& error == if !self.valid(old(ctx)) {
                        GraphError::StaleHandle
                    } else {
                        GraphError::DuplicateUuid
                    }
                    &&& (!self.valid(old(ctx)) || (old(ctx)@.index.dom().contains(uuid) && old(
                        ctx,
                    )@.index[uuid] != self.node_ref()))
                },
            },
    {
        if self.context != ctx.id() {
            return Err(GraphError::StaleHandle);
        }
        ctx.set_uuid(NodeRef { kind: NodeKind::ByteInterval, key: self.index }, uuid)
    }

    /// The attributes of the byte interval that the handle names.
    pub open spec fn attrs(&self, ctx: &Context) -> ByteIntervalAttrs {
        ctx@.attrs(self.node_ref())->ByteInterval_0
    }

    /// The record behind the handle.
    fn data<'a>(&self, ctx: &'a Context) -> (data: Result<&'a ByteIntervalData, GraphError>)
        requires
            ctx.wf(),
        ensures
            match data {
                Ok(data) => self.valid(ctx) && data.attrs() == ctx@.attrs(self.node_ref())
                    && ctx@.attrs(self.node_ref()) is ByteInterval,
                Err(error) => error == GraphError::StaleHandle && !self.valid(ctx),
            },
    {
        if self.context != ctx.id() {
            return Err(GraphError::StaleHandle);
        }
        proof {
            if ctx@.live(self.node_ref()) {
                assert(ctx@.nodes.dom().contains(self.node_ref()));
            }
        }
        match ctx.record(NodeRef { kind: NodeKind::ByteInterval, key: self.index }) {
            Some(Record::ByteInterval(data)) => Ok(data),
            _ => Err(GraphError::StaleHandle),
        }
    }

    /// The byte interval's size in bytes, initialized or not.
    pub fn size(&self, ctx: &Context) -> (value: Result<u64, GraphError>)
        requires
            ctx.wf(),
        ensures
            match value {
                Ok(value) => self.valid(ctx) && value == self.attrs(ctx).size,
                Err(error) => error == GraphError::StaleHandle && !self.valid(ctx),
            },
    {
        match self.data(ctx) {
            Ok(data) => Ok(data.size),
            Err(error) => Err(error),
        }
    }

    /// Sets the byte interval's size in bytes, initialized or not.
    pub fn set_size(&self, ctx: &mut Context, size: u64) -> (set: Result<(), GraphError>)
        requires
            old(ctx).wf(),
        ensures
            final(ctx).wf(),
            match set {
                Ok(_) => self.valid(old(ctx)) && final(ctx)@ == old(ctx)@.with_attrs(
                    self.node_ref(),
                    Attrs::ByteInterval(ByteIntervalAttrs { size, ..self.attrs(old(ctx)) }),
                ),
                Err(error) => error == GraphError::StaleHandle && !self.valid(old(ctx))
                    && final(ctx)@ == old(ctx)@,
            },
    {
        if !self.is_valid(ctx) {
            return Err(GraphError::StaleHandle);
        }
        proof {
            assert(ctx@.nodes.dom().contains(self.node_ref()));
        }
        let record = ctx.record_mut(NodeRef { kind: NodeKind::ByteInterval, key: self.index });
        match record {
            Record::ByteInterval(data) => {
                data.size = size;
            },
            _ => {},
        }
        Ok(())
    }

    /// The byte interval's address, if it has one.
    pub fn address(&self, ctx: &Context) -> (value: Result<Option<Addr>, GraphError>)
        requires
            ctx.wf(),
        ensures
            match value {
                Ok(value) => self.valid(ctx) && value == self.attrs(ctx).address,
                Err(error) => error == GraphError::StaleHandle && !self.valid(ctx),
            },
    {
        match self.data(ctx) {
            Ok(data) => Ok(data.address),
            Err(error) => Err(error),
        }
    }

    /// Sets the byte interval's address, if it has one.
    pub fn set_address(&self, ctx: &mut Context, address: Option<Addr>) -> (set: Result<(), GraphError>)
        requires
            old(ctx).wf(),
        ensures
            final(ctx).wf(),
            match set {
                Ok(_) => self.valid(old(ctx)) && final(ctx)@ == old(ctx)@.with_attrs(
                    self.node_ref(),
                    Attrs::ByteInterval(ByteIntervalAttrs { address, ..self.attrs(old(ctx)) }),
                ),
                Err(error) => error == GraphError::StaleHandle && !self.valid(old(ctx))
                    && final(ctx)@ == old(ctx)@,
            },
    {
        if !self.is_valid(ctx) {
            return Err(GraphError::StaleHandle);
        }
        proof {
            assert(ctx@.nodes.dom().contains(self.node_ref()));
        }
        let record = ctx.record_mut(NodeRef { kind: NodeKind::ByteInterval, key: self.index });
        match record {
            Record::ByteInterval(data) => {
                data.address = address;
            },
            _ => {},
        }
        Ok(())
    }
}

impl ByteInterval {
    /// The handles on the byte intervals with the given keys, in the same order.
    pub open spec fn handles(keys: Seq<Key>, context: Uuid) -> Seq<ByteInterval> {
        Seq::new(keys.len(), |i: int| ByteInterval { index: keys[i], context })
    }

    /// Computes [`ByteInterval::handles`].
    pub fn from_keys(keys: &Vec<Key>, context: Uuid) -> (handles: Vec<ByteInterval>)
        ensures
            handles@ == ByteInterval::handles(keys@, context),
    {
        let mut handles: Vec<ByteInterval> = Vec::new();
        let mut done: usize = 0;
        while done < keys.len()
            invariant
                done <= keys.len(),
                handles@ == ByteInterval::handles(keys@.take(done as int), context),
            decreases keys.len() - done,
        {
            handles.push(ByteInterval { index: keys[done], context });
            done = done + 1;
            assert(handles@ =~= ByteInterval::handles(keys@.take(done as int), context));
        }
        assert(keys@.take(done as int) =~= keys@);
        handles
    }

    /// The section that contains the byte interval.
    pub fn parent(&self, ctx: &Context) -> (parent: Result<Section, GraphError>)
        requires
            ctx.wf(),
        ensures
            match parent {
                Ok(parent) => {
                    &&& self.valid(ctx)
                    &&& parent.valid(ctx)
                    &&& ctx@.parent_of(self.node_ref()) == Some(parent.node_ref())
                },
                Err(error) => error == GraphError::StaleHandle && !self.valid(ctx),
            },
    {
        if self.context != ctx.id() {
            return Err(GraphError::StaleHandle);
        }
        proof {
            if ctx@.live(self.node_ref()) {
                assert(ctx@.nodes.dom().contains(self.node_ref()));
            }
        }
        match ctx.parent_key(NodeRef { kind: NodeKind::ByteInterval, key: self.index }) {
            Some(key) => Ok(Section { index: key, context: self.context }),
            None => Err(GraphError::StaleHandle),
        }
    }
}

impl ByteInterval {
    /// The byte interval's code blocks, in the order in which they were added, as they
    /// stand now: what is added or removed later does not reach the result.
    pub fn code_blocks(&self, ctx: &Context) -> (children: Result<Vec<CodeBlock>, GraphError>)
        ensures
            match children {
                Ok(children) => self.valid(ctx) && children@ == CodeBlock::handles(
                    ctx@.nodes[self.node_ref()].list(NodeKind::CodeBlock),
                    self.context,
                ),
                Err(error) => error == GraphError::StaleHandle && !self.valid(ctx),
            },
    {
        if self.context != ctx.id() {
            return Err(GraphError::StaleHandle);
        }
        match ctx.node_iter(NodeRef { kind: NodeKind::ByteInterval, key: self.index }, NodeKind::CodeBlock) {
            Some(keys) => Ok(CodeBlock::from_keys(&keys, self.context)),
            None => Err(GraphError::StaleHandle),
        }
    }

    /// Adds a code block as the byte interval's last: the record goes into its arena,
    /// its identifier into the index, and its key onto the byte interval's list. A
    /// record whose identifier a live node already has is refused.
    pub fn add_code_block(&self, ctx: &mut Context, code_block: CodeBlockData) -> (added: Result<CodeBlock, GraphError>)
        requires
            old(ctx).wf(),
        ensures
            final(ctx).wf(),
            match added {
                Ok(child) => {
                    &&& self.valid(old(ctx))
                    &&& !old(ctx)@.index.dom().contains(code_block.uuid)
                    &&& child.context == self.context
                    &&& !old(ctx)@.live(child.node_ref())
                    &&& !old(ctx)@.spent.contains(child.node_ref())
                    &&& final(ctx)@ == old(ctx)@.attach(
                        self.node_ref(),
                        child.node_ref(),
                        code_block.uuid,
                        Attrs::CodeBlock,
                    )
                },
                Err(error) => {
                    &&& final(ctx)@ == old(ctx)@
                    &&& error == if !self.valid(old(ctx)) {
                        GraphError::StaleHandle
                    } else {
                        GraphError::DuplicateUuid
                    }
                    &&& (!self.valid(old(ctx)) || old(ctx)@.index.dom().contains(code_block.uuid))
                },
            },
    {
        if self.context != ctx.id() {
            return Err(GraphError::StaleHandle);
        }
        let parent = NodeRef { kind: NodeKind::ByteInterval, key: self.index };
        match ctx.add_node(parent, Record::CodeBlock(code_block)) {
            Ok(child) => Ok(CodeBlock { index: child.key, context: self.context }),
            Err(error) => Err(error),
        }
    }

    /// Removes one of the byte interval's code blocks together with everything below
    /// it. The nodes leave their arenas, their identifiers leave the index,
    /// and the key leaves the byte interval's list; handles on them are stale from
    /// then on.
    pub fn remove_code_block(&self, ctx: &mut Context, node: CodeBlock) -> (removed: Result<(), GraphError>)
        requires
            old(ctx).wf(),
        ensures
            final(ctx).wf(),
            match removed {
                Ok(_) => {
                    &&& self.valid(old(ctx))
                    &&& node.valid(old(ctx))
                    &&& old(ctx)@.parent_of(node.node_ref()) == Some(self.node_ref())
                    &&& final(ctx)@ == old(ctx)@.pruned(node.node_ref())
                },
                Err(error) => {
                    &&& final(ctx)@ == old(ctx)@
                    &&& error == if !self.valid(old(ctx)) || !node.valid(old(ctx)) {
                        GraphError::StaleHandle
                    } else {
                        GraphError::WrongParent
                    }
                    &&& (!self.valid(old(ctx)) || !node.valid(old(ctx)) || old(ctx)@.parent_of(
                        node.node_ref(),
                    ) != Some(self.node_ref()))
                },
            },
    {
        if self.context != ctx.id() || node.context != ctx.id() {
            return Err(GraphError::StaleHandle);
        }
        ctx.remove_node(
            NodeRef { kind: NodeKind::ByteInterval, key: self.index },
            NodeRef { kind: NodeKind::CodeBlock, key: node.index },
        )
    }
}

impl ByteInterval {
    /// The byte interval's data blocks, in the order in which they were added, as they
    /// stand now: what is added or removed later does not reach the result.
    pub fn data_blocks(&self, ctx: &Context) -> (children: Result<Vec<DataBlock>, GraphError>)
        ensures
            match children {
                Ok(children) => self.valid(ctx) && children@ == DataBlock::handles(
                    ctx@.nodes[self.node_ref()].list(NodeKind::DataBlock),
                    self.context,
                ),
                Err(error) => error == GraphError::StaleHandle && !self.valid(ctx),
            },
    {
        if self.context != ctx.id() {
            return Err(GraphError::StaleHandle);
        }
        match ctx.node_iter(NodeRef { kind: NodeKind::ByteInterval, key: self.index }, NodeKind::DataBlock) {
            Some(keys) => Ok(DataBlock::from_keys(&keys, self.context)),
            None => Err(GraphError::StaleHandle),
        }
    }

    /// Adds a data block as the byte interval's last: the record goes into its arena,
    /// its identifier into the index, and its key onto the byte interval's list. A
    /// record whose identifier a live node already has is refused.
    pub fn add_data_block(&self, ctx: &mut Context, data_block: DataBlockData) -> (added: Result<DataBlock, GraphError>)
        requires
            old(ctx).wf(),
        ensures
            final(ctx).wf(),
            match added {
                Ok(child) => {
                    &&& self.valid(old(ctx))
                    &&& !old(ctx)@.index.dom().contains(data_block.uuid)
                    &&& child.context == self.context
                    &&& !old(ctx)@.live(child.node_ref())
                    &&& !old(ctx)@.spent.contains(child.node_ref())
                    &&& final(ctx)@ == old(ctx)@.attach(
                        self.node_ref(),
                        child.node_ref(),
                        data_block.uuid,
                        Attrs::DataBlock,
                    )
                },
                Err(error) => {
                    &&& final(ctx)@ == old(ctx)@
                    &&& error == if !self.valid(old(ctx)) {
                        GraphError::StaleHandle
                    } else {
                        GraphError::DuplicateUuid
                    }
                    &&& (!self.valid(old(ctx)) || old(ctx)@.index.dom().contains(data_block.uuid))
                },
            },
    {
        if self.context != ctx.id() {
            return Err(GraphError::StaleHandle);
        }
        let parent = NodeRef { kind: NodeKind::ByteInterval, key: self.index };
        match ctx.add_node(parent, Record::DataBlock(data_block)) {
            Ok(child) => Ok(DataBlock { index: child.key, context: self.context }),
            Err(error) => Err(error),
        }
    }

    /// Removes one of the byte interval's data blocks together with everything below
    /// it. The nodes leave their arenas, their identifiers leave the index,
    /// and the key leaves the byte interval's list; handles on them are stale from
    /// then on.
    pub fn remove_data_block(&self, ctx: &mut Context, node: DataBlock) -> (removed: Result<(), GraphError>)
        requires
            old(ctx).wf(),
        ensures
            final(ctx).wf(),
            match removed {
                Ok(_) => {
                    &&& self.valid(old(ctx))
                    &&& node.valid(old(ctx))
                    &&& old(ctx)@.parent_of(node.node_ref()) == Some(self.node_ref())
                    &&& final(ctx)@ == old(ctx)@.pruned(node.node_ref())
                },
                Err(error) => {
                    &&& final(ctx)@ == old(ctx)@
                    &&& error == if !self.valid(old(ctx)) || !node.valid(old(ctx)) {
                        GraphError::StaleHandle
                    } else {
                        GraphError::WrongParent
                    }
                    &&& (!self.valid(old(ctx)) || !node.valid(old(ctx)) || old(ctx)@.parent_of(
                        node.node_ref(),
                    ) != Some(self.node_ref()))
                },
            },
    {
        if self.context != ctx.id() || node.context != ctx.id() {
            return Err(GraphError::StaleHandle);
        }
        ctx.remove_node(
            NodeRef { kind: NodeKind::ByteInterval, key: self.index },
            NodeRef { kind: NodeKind::DataBlock, key: node.index },
        )
    }
}

impl ByteInterval {
    /// The bytes that the interval holds, the initialized ones.
    pub fn bytes(&self, ctx: &Context) -> (bytes: Result<Vec<u8>, GraphError>)
        requires
            ctx.wf(),
        ensures
            match bytes {
                Ok(bytes) => self.valid(ctx) && bytes@ == self.attrs(ctx).bytes,
                Err(error) => error == GraphError::StaleHandle && !self.valid(ctx),
            },
    {
        match self.data(ctx) {
            Ok(data) => Ok(data.bytes.clone()),
            Err(error) => Err(error),
        }
    }

    /// Replaces the bytes that the interval holds.
    pub fn set_bytes(&self, ctx: &mut Context, bytes: &[u8]) -> (set: Result<(), GraphError>)
        requires
            old(ctx).wf(),
        ensures
            final(ctx).wf(),
            match set {
                Ok(_) => self.valid(old(ctx)) && final(ctx)@ == old(ctx)@.with_attrs(
                    self.node_ref(),
                    Attrs::ByteInterval(
                        ByteIntervalAttrs { bytes: bytes@, ..self.attrs(old(ctx)) },
                    ),
                ),
                Err(error) => error == GraphError::StaleHandle && !self.valid(old(ctx))
                    && final(ctx)@ == old(ctx)@,
            },
    {
        if !self.is_valid(ctx) {
            return Err(GraphError::StaleHandle);
        }
        proof {
            assert(ctx@.nodes.dom().contains(self.node_ref()));
        }
        let record = ctx.record_mut(NodeRef { kind: NodeKind::ByteInterval, key: self.index });
        match record {
            Record::ByteInterval(data) => {
                data.bytes = slice_to_vec(bytes);
            },
            _ => {},
        }
        Ok(())
    }

    /// The number of bytes that the interval holds.
    pub fn initialized_size(&self, ctx: &Context) -> (size: Result<u64, GraphError>)
        requires
            ctx.wf(),
        ensures
            match size {
                Ok(size) => self.valid(ctx) && size == self.attrs(ctx).bytes.len(),
                Err(error) => error == GraphError::StaleHandle && !self.valid(ctx),
            },
    {
        match self.data(ctx) {
            Ok(data) => Ok(data.bytes.len() as u64),
            Err(error) => Err(error),
        }
    }

    /// The attributes of an interval after its bytes were made to be `n`: the
    /// first bytes stay, zeros fill what is missing, and the size grows to
    /// `n` where it was smaller; it never shrinks.
    pub open spec fn resized(attrs: ByteIntervalAttrs, n: u64) -> ByteIntervalAttrs {
        ByteIntervalAttrs {
            size: if n > attrs.size {
                n
            } else {
                attrs.size
            },
            bytes: if n <= attrs.bytes.len() {
                attrs.bytes.take(n as int)
            } else {
                attrs.bytes + Seq::new((n - attrs.bytes.len()) as nat, |i: int| 0u8)
            },
            ..attrs
        }
    }

    /// Makes the interval hold exactly `n` bytes: see
    /// [`ByteInterval::resized`].
    pub fn set_initialized_size(&self, ctx: &mut Context, n: u64) -> (set: Result<(), GraphError>)
        requires
            old(ctx).wf(),
            n <= usize::MAX,
        ensures
            final(ctx).wf(),
            match set {
                Ok(_) => self.valid(old(ctx)) && final(ctx)@ == old(ctx)@.with_attrs(
                    self.node_ref(),
                    Attrs::ByteInterval(ByteInterval::resized(self.attrs(old(ctx)), n)),
                ),
                Err(error) => error == GraphError::StaleHandle && !self.valid(old(ctx))
                    && final(ctx)@ == old(ctx)@,
            },
    {
        if !self.is_valid(ctx) {
            return Err(GraphError::StaleHandle);
        }
        proof {
            assert(ctx@.nodes.dom().contains(self.node_ref()));
        }
        let record = ctx.record_mut(NodeRef { kind: NodeKind::ByteInterval, key: self.index });
        match record {
            Record::ByteInterval(data) => {
                let ghost before = data.bytes@;
                data.bytes.resize(n as usize, 0);
                if n > data.size {
                    data.size = n;
                }
                proof {
                    if n <= before.len() {
                        assert(data.bytes@ =~= before.take(n as int));
                    } else {
                        assert(data.bytes@ =~= before + Seq::new(
                            (n - before.len()) as nat,
                            |i: int| 0u8,
                        ));
                    }
                }
            },
            _ => {},
        }
        Ok(())
    }
}

impl ByteInterval {
    /// The interval's symbolic expressions with their offsets, in the order
    /// in which they were added.
    pub fn symbolic_expressions(&self, ctx: &Context) -> (expressions: Result<
        Vec<(u64, SymbolicExpression)>,
        GraphError,
    >)
        requires
            ctx.wf(),
        ensures
            match expressions {
                Ok(expressions) => self.valid(ctx) && expressions@ == self.attrs(
                    ctx,
                ).symbolic_expressions,
                Err(error) => error == GraphError::StaleHandle && !self.valid(ctx),
            },
    {
        match self.data(ctx) {
            Ok(data) => Ok(copy_expressions(&data.symbolic_expressions)),
            Err(error) => Err(error),
        }
    }

    /// The symbolic expression at an offset of the interval, if there is
    /// one.
    pub fn symbolic_expression(&self, ctx: &Context, offset: u64) -> (expression: Result<
        Option<SymbolicExpression>,
        GraphError,
    >)
        requires
            ctx.wf(),
        ensures
            match expression {
                Ok(expression) => self.valid(ctx) && expression == expression_at(
                    self.attrs(ctx).symbolic_expressions,
                    offset,
                ),
                Err(error) => error == GraphError::StaleHandle && !self.valid(ctx),
            },
    {
        match self.data(ctx) {
            Ok(data) => Ok(find_expression(&data.symbolic_expressions, offset)),
            Err(error) => Err(error),
        }
    }

    /// Puts a symbolic expression at an offset of the interval, in place of
    /// what was there.
    pub fn add_symbolic_expression(
        &self,
        ctx: &mut Context,
        offset: u64,
        expression: SymbolicExpression,
    ) -> (set: Result<(), GraphError>)
        requires
            old(ctx).wf(),
        ensures
            final(ctx).wf(),
            match set {
                Ok(_) => self.valid(old(ctx)) && final(ctx)@ == old(ctx)@.with_attrs(
                    self.node_ref(),
                    Attrs::ByteInterval(
                        ByteIntervalAttrs {
                            symbolic_expressions: expressions_without(
                                self.attrs(old(ctx)).symbolic_expressions,
                                offset,
                            ).push((offset, expression)),
                            ..self.attrs(old(ctx))
                        },
                    ),
                ),
                Err(error) => error == GraphError::StaleHandle && !self.valid(old(ctx))
                    && final(ctx)@ == old(ctx)@,
            },
    {
        if !self.is_valid(ctx) {
            return Err(GraphError::StaleHandle);
        }
        proof {
            assert(ctx@.nodes.dom().contains(self.node_ref()));
        }
        let record = ctx.record_mut(NodeRef { kind: NodeKind::ByteInterval, key: self.index });
        match record {
            Record::ByteInterval(data) => {
                let mut kept = drop_expressions(&data.symbolic_expressions, offset);
                kept.push((offset, expression));
                data.symbolic_expressions = kept;
            },
            _ => {},
        }
        Ok(())
    }

    /// Takes away the symbolic expression at an offset of the interval;
    /// nothing changes where there is none.
    pub fn remove_symbolic_expression(&self, ctx: &mut Context, offset: u64) -> (set: Result<
        (),
        GraphError,
    >)
        requires
            old(ctx).wf(),
        ensures
            final(ctx).wf(),
            match set {
                Ok(_) => self.valid(old(ctx)) && final(ctx)@ == old(ctx)@.with_attrs(
                    self.node_ref(),
                    Attrs::ByteInterval(
                        ByteIntervalAttrs {
                            symbolic_expressions: expressions_without(
                                self.attrs(old(ctx)).symbolic_expressions,
                                offset,
                            ),
                            ..self.attrs(old(ctx))
                        },
                    ),
                ),
                Err(error) => error == GraphError::StaleHandle && !self.valid(old(ctx))
                    && final(ctx)@ == old(ctx)@,
            },
    {
        if !self.is_valid(ctx) {
            return Err(GraphError::StaleHandle);
        }
        proof {
            assert(ctx@.nodes.dom().contains(self.node_ref()));
        }
        let record = ctx.record_mut(NodeRef { kind: NodeKind::ByteInterval, key: self.index });
        match record {
            Record::ByteInterval(data) => {
                let kept = drop_expressions(&data.symbolic_expressions, offset);
                data.symbolic_expressions = kept;
            },
            _ => {},
        }
        Ok(())
    }
}

/// A copy of the bytes of a slice.
pub fn slice_to_vec(bytes: &[u8]) -> (copy: Vec<u8>)
    ensures
        copy@ == bytes@,
{
    let mut copy: Vec<u8> = Vec::new();
    let mut at: usize = 0;
    while at < bytes.len()
        invariant
            at <= bytes.len(),
            copy@ == bytes@.take(at as int),
        decreases bytes.len() - at,
    {
        copy.push(bytes[at]);
        at = at + 1;
        assert(copy@ =~= bytes@.take(at as int));
    }
    assert(bytes@.take(at as int) =~= bytes@);
    copy
}

impl Node for ByteInterval {
    open spec fn kind() -> NodeKind {
        NodeKind::ByteInterval
    }

    open spec fn make(index: Key, context: Uuid) -> ByteInterval {
        ByteInterval { index, context }
    }

    fn node_kind() -> (kind: NodeKind) {
        NodeKind::ByteInterval
    }

    fn from_parts(index: Key, context: Uuid) -> (node: ByteInterval) {
        ByteInterval { index, context }
    }
}

impl NodeData for ByteIntervalData {
    open spec fn data_kind(&self) -> NodeKind {
        NodeKind::ByteInterval
    }

    open spec fn data_uuid(&self) -> Uuid {
        self.uuid
    }

    open spec fn data_attrs(&self) -> Attrs {
        self.attrs()
    }

    fn uuid(&self) -> (uuid: Uuid) {
        self.uuid
    }

    fn into_record(self) -> (record: Record) {
        Record::ByteInterval(self)
    }
}

} // verus!
