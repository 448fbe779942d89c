//! The IR: the root node of a graph.

use vstd::prelude::*;
use crate::context::Context;
use crate::error::GraphError;
use crate::graph::ContextView;
use crate::ident::Uuid;
use crate::ident::random_uuid;
use crate::kind::NodeKind;
use crate::kind::NodeRef;
use crate::module::Module;
use crate::module::ModuleData;
use crate::node::Node;
use crate::node::NodeData;
use crate::record::Record;
use crate::store::Key;
use crate::view::Attrs;
use crate::view::IrAttrs;

verus! {

/// The record of an IR.
#[derive(Debug, PartialEq)]
pub struct IRData {
    pub uuid: Uuid,
    pub version: u32,
}

impl IRData {
    /// The attributes that the record holds.
    pub open spec fn attrs(&self) -> Attrs {
        Attrs::Ir(IrAttrs { version: self.version })
    }

    /// An IR record with the given identifier, at version 1.
    pub fn with_uuid(uuid: Uuid) -> (ir: IRData)
        ensures
            ir.uuid == uuid,
            ir.version == 1,
    {
        IRData { uuid, version: 1 }
    }

    /// A context that holds one IR, at version 1 and without modules, and the
    /// handle on that IR. The first identifier tells the context from others,
    /// the second is the IR's own.
    pub fn create(context: Uuid, uuid: Uuid) -> (made: (Context, IR))
        ensures
            made.0.wf(),
            made.1.valid(&made.0),
            made.1 == (IR { index: made.0@.root, context }),
            made.0@ == ContextView::initial(
                context,
                made.0@.root,
                uuid,
                Attrs::Ir(IrAttrs { version: 1 }),
            ),
    {
        let ctx = Context::with_root(context, Record::Ir(IRData::with_uuid(uuid)));
        let ir = IR { index: ctx.root(), context };
        (ctx, ir)
    }

    /// A new context with its IR, both with fresh random identifiers.
    pub fn new() -> (made: (Context, IR))
        ensures
            made.0.wf(),
            made.1.valid(&made.0),
            made.1 == (IR { index: made.0@.root, context: made.0@.id }),
            made.0@ == ContextView::initial(
                made.0@.id,
                made.0@.root,
                made.0@.nodes[made.1.node_ref()].uuid,
                Attrs::Ir(IrAttrs { version: 1 }),
            ),
    {
        IRData::create(random_uuid(), random_uuid())
    }
}

/// A handle on an IR: the key of its slot and the context that the key
/// belongs to. A handle is valid in that context while the slot is occupied
/// in the key's generation.
#[derive(Clone, Copy, Debug, PartialEq, Eq, Structural)]
pub struct IR {
    pub index: Key,
    pub context: Uuid,
}

impl IR {
    /// The node that the handle names.
    pub open spec fn node_ref(&self) -> NodeRef {
        NodeRef { kind: NodeKind::Ir, key: self.index }
    }

    /// Whether the handle names a live IR of the given context.
    pub open spec fn valid(&self, ctx: &Context) -> bool {
        self.context == ctx@.id && ctx@.live(self.node_ref())
    }

    /// A handle from its parts.
    pub fn new(index: Key, context: Uuid) -> (node: IR)
        ensures
            node == (IR { index, context }),
    {
        IR { index, context }
    }

    /// The key of the slot that the handle names.
    pub fn index(&self) -> (index: Key)
        ensures
            index == self.index,
    {
        self.index
    }

    /// Computes [`IR::valid`].
    pub fn is_valid(&self, ctx: &Context) -> (valid: bool)
        ensures
            valid == self.valid(ctx),
    {
        self.context == ctx.id() && ctx.contains(NodeRef { kind: NodeKind::Ir, key: self.index })
    }

    /// The IR's identifier.
    pub fn uuid(&self, ctx: &Context) -> (uuid: Result<Uuid, GraphError>)
        ensures
            match uuid {
                Ok(uuid) => self.valid(ctx) && uuid == ctx@.nodes[self.node_ref()].uuid,
                Err(error) => error == GraphError::StaleHandle && !self.valid(ctx),
            },
    {
        if self.context != ctx.id() {
            return Err(GraphError::StaleHandle);
        }
        match ctx.uuid_of(NodeRef { kind: NodeKind::Ir, key: self.index }) {
            Some(uuid) => Ok(uuid),
            None => Err(GraphError::StaleHandle),
        }
    }

    /// Gives the IR another identifier; the index follows. An identifier
    /// that another live node has is refused.
    pub fn set_uuid(&self, ctx: &mut Context, uuid: Uuid) -> (set: Result<(), GraphError>)
        requires
            old(ctx).wf(),
        ensures
            final(ctx).wf(),
            match set {
                Ok(_) => {
                    &&& self.valid(old(ctx))
                    &&& (old(ctx)@.index.dom().contains(uuid) ==> old(ctx)@.index[uuid]
                        == self.node_ref())
                    &&& final(ctx)@ == old(ctx)@.renamed(self.node_ref(), uuid)
                },
                Err(error) => {
                    &&& final(ctx)@ == old(ctx)@
                    &&& error == if !self.valid(old(ctx)) {
                        GraphError::StaleHandle
                    } else {
                        GraphError::DuplicateUuid
                    }
                    &&& (!self.valid(old(ctx)) || (old(ctx)@.index.dom().contains(uuid) && old(
                        ctx,
                    )@.index[uuid] != self.node_ref()))
                },
            },
    {
        if self.context != ctx.id() {
            return Err(GraphError::StaleHandle);
        }
        ctx.set_uuid(NodeRef { kind: NodeKind::Ir, key: self.index }, uuid)
    }

    /// The attributes of the IR that the handle names.
    pub open spec fn attrs(&self, ctx: &Context) -> IrAttrs {
        ctx@.attrs(self.node_ref())->Ir_0
    }

    /// The record behind the handle.
    fn data<'a>(&self, ctx: &'a Context) -> (data: Result<&'a IRData, GraphError>)
        requires
            ctx.wf(),
        ensures
            match data {
                Ok(data) => self.valid(ctx) && data.attrs() == ctx@.attrs(self.node_ref())
                    && ctx@.attrs(self.node_ref()) is Ir,
                Err(error) => error == GraphError::StaleHandle && !self.valid(ctx),
            },
    {
        if self.context != ctx.id() {
            return Err(GraphError::StaleHandle);
        }
        proof {
            if ctx@.live(self.node_ref()) {
                assert(ctx@.nodes.dom().contains(self.node_ref()));
            }
        }
        match ctx.record(NodeRef { kind: NodeKind::Ir, key: self.index }) {
            Some(Record::Ir(data)) => Ok(data),
            _ => Err(GraphError::StaleHandle),
        }
    }

    /// The IR's version.
    pub fn version(&self, ctx: &Context) -> (value: Result<u32, GraphError>)
        requires
            ctx.wf(),
        ensures
            match value {
                Ok(value) => self.valid(ctx) && value == self.attrs(ctx).version,
                Err(error) => error == GraphError::StaleHandle && !self.valid(ctx),
            },
    {
        match self.data(ctx) {
            Ok(data) => Ok(data.version),
            Err(error) => Err(error),
        }
    }

    /// Sets the IR's version.
    pub fn set_version(&self, ctx: &mut Context, version: u32) -> (set: Result<(), GraphError>)
        requires
            old(ctx).wf(),
        ensures
            final(ctx).wf(),
            match set {
                Ok(_) => self.valid(old(ctx)) && final(ctx)@ == old(ctx)@.with_attrs(
                    self.node_ref(),
                    Attrs::Ir(IrAttrs { version, ..self.attrs(old(ctx)) }),
                ),
                Err(error) => error == GraphError::StaleHandle && !self.valid(old(ctx))
                    && final(ctx)@ == old(ctx)@,
            },
    {
        if !self.is_valid(ctx) {
            return Err(GraphError::StaleHandle);
        }
        proof {
            assert(ctx@.nodes.dom().contains(self.node_ref()));
        }
        let record = ctx.record_mut(NodeRef { kind: NodeKind::Ir, key: self.index });
        match record {
            Record::Ir(data) => {
                data.version = version;
            },
            _ => {},
        }
        Ok(())
    }
}

impl IR {
    /// The IR's modules, in the order in which they were added, as they
    /// stand now: what is added or removed later does not reach the result.
    pub fn modules(&self, ctx: &Context) -> (children: Result<Vec<Module>, GraphError>)
        ensures
            match children {
                Ok(children) => self.valid(ctx) && children@ == Module::handles(
                    ctx@.nodes[self.node_ref()].list(NodeKind::Module),
                    self.context,
                ),
                Err(error) => error == GraphError::StaleHandle && !self.valid(ctx),
            },
    {
        if self.context != ctx.id() {
            return Err(GraphError::StaleHandle);
        }
        match ctx.node_iter(NodeRef { kind: NodeKind::Ir, key: self.index }, NodeKind::Module) {
            Some(keys) => Ok(Module::from_keys(&keys, self.context)),
            None => Err(GraphError::StaleHandle),
        }
    }

    /// Adds a module as the IR's last: the record goes into its arena,
    /// its identifier into the index, and its key onto the IR's list. A
    /// record whose identifier a live node already has is refused.
    pub fn add_module(&self, ctx: &mut Context, module: ModuleData) -> (added: Result<Module, GraphError>)
        requires
            old(ctx).wf(),
        ensures
            final(ctx).wf(),
            match added {
                Ok(child) => {
                    &&& self.valid(old(ctx))
                    &&& !old(ctx)@.index.dom().contains(module.uuid)
                    &&& child.context == self.context
                    &&& !old(ctx)@.live(child.node_ref())
                    &&& !old(ctx)@.spent.contains(child.node_ref())
                    &&& final(ctx)@ == old(ctx)@.attach(
                        self.node_ref(),
                        child.node_ref(),
                        module.uuid,
                        module.attrs(),
                    )
                },
                Err(error) => {
                    &&& final(ctx)@ == old(ctx)@
                    &&& error == if !self.valid(old(ctx)) {
                        GraphError::StaleHandle
                    } else {
                        GraphError::DuplicateUuid
                    }
                    &&& (!self.valid(old(ctx)) || old(ctx)@.index.dom().contains(module.uuid))
                },
            },
    {
        if self.context != ctx.id() {
            return Err(GraphError::StaleHandle);
        }
        let parent = NodeRef { kind: NodeKind::Ir, key: self.index };
        match ctx.add_node(parent, Record::Module(module)) {
            Ok(child) => Ok(Module { index: child.key, context: self.context }),
            Err(error) => Err(error),
        }
    }

    /// Removes one of the IR's modules together with everything below
    /// it. The nodes leave their arenas, their identifiers leave the index,
    /// and the key leaves the IR's list; handles on them are stale from
    /// then on.
    pub fn remove_module(&self, ctx: &mut Context, node: Module) -> (removed: Result<(), GraphError>)
        requires
            old(ctx).wf(),
        ensures
            final(ctx).wf(),
            match removed {
                Ok(_) => {
                    &&& self.valid(old(ctx))
                    &&& node.valid(old(ctx))
                    &&& old(ctx)@.parent_of(node.node_ref()) == Some(self.node_ref())
                    &&& final(ctx)@ == old(ctx)@.pruned(node.node_ref())
                },
                Err(error) => {
                    &&& final(ctx)@ == old(ctx)@
                    &&& error == if !self.valid(old(ctx)) || !node.valid(old(ctx)) {
                        GraphError::StaleHandle
                    } else {
                        GraphError::WrongParent
                    }
                    &&& (!self.valid(old(ctx)) || !node.valid(old(ctx)) || old(ctx)@.parent_of(
                        node.node_ref(),
                    ) != Some(self.node_ref()))
                },
            },
    {
        if self.context != ctx.id() || node.context != ctx.id() {
            return Err(GraphError::StaleHandle);
        }
        ctx.remove_node(
            NodeRef { kind: NodeKind::Ir, key: self.index },
            NodeRef { kind: NodeKind::Module, key: node.index },
        )
    }
}

impl IR {
    /// The handle on the live node that has the given identifier, if there
    /// is one and it is of the kind that the handle type names.
    pub fn find_node<U: Node>(&self, ctx: &Context, uuid: Uuid) -> (found: Result<
        Option<U>,
        GraphError,
    >)
        requires
            ctx.wf(),
        ensures
            match found {
                Ok(found) => {
                    &&& self.valid(ctx)
                    &&& found == if ctx@.index.dom().contains(uuid) && ctx@.index[uuid].kind
                        == U::kind() {
                        Some(U::make(ctx@.index[uuid].key, self.context))
                    } else {
                        None
                    }
                },
                Err(error) => error == GraphError::StaleHandle && !self.valid(ctx),
            },
    {
        if !self.is_valid(ctx) {
            return Err(GraphError::StaleHandle);
        }
        match ctx.find(uuid) {
            Some(node) => {
                if node.kind == U::node_kind() {
                    Ok(Some(U::from_parts(node.key, self.context)))
                } else {
                    Ok(None)
                }
            },
            None => Ok(None),
        }
    }
}

impl Node for IR {
    open spec fn kind() -> NodeKind {
        NodeKind::Ir
    }

    open spec fn make(index: Key, context: Uuid) -> IR {
        IR { index, context }
    }

    fn node_kind() -> (kind: NodeKind) {
        NodeKind::Ir
    }

    fn from_parts(index: Key, context: Uuid) -> (node: IR) {
        IR { index, context }
    }
}

impl NodeData for IRData {
    open spec fn data_kind(&self) -> NodeKind {
        NodeKind::Ir
    }

    open spec fn data_uuid(&self) -> Uuid {
        self.uuid
    }

    open spec fn data_attrs(&self) -> Attrs {
        self.attrs()
    }

    fn uuid(&self) -> (uuid: Uuid) {
        self.uuid
    }

    fn into_record(self) -> (record: Record) {
        Record::Ir(self)
    }
}

} // verus!
