//! Modules: one executable or object file each.

use vstd::prelude::*;
use crate::addr::Addr;
use crate::attrs::ByteOrder;
use crate::attrs::FileFormat;
use crate::attrs::ISA;
use crate::byte_interval::ByteInterval;
use crate::code_block::CodeBlock;
use crate::context::Context;
use crate::data_block::DataBlock;
use crate::error::GraphError;
use crate::graph::lemma_list_live;
use crate::ident::Uuid;
use crate::ident::random_uuid;
use crate::ir::IR;
use crate::kind::NodeKind;
use crate::kind::NodeRef;
use crate::node::Node;
use crate::node::NodeData;
use crate::proxy_block::ProxyBlock;
use crate::proxy_block::ProxyBlockData;
use crate::record::Record;
use crate::section::Section;
use crate::section::SectionData;
use crate::store::Key;
use crate::symbol::Symbol;
use crate::symbol::SymbolData;
use crate::view::Attrs;
use crate::view::ModuleAttrs;

verus! {

/// The record of a module.
#[derive(Debug, PartialEq)]
pub struct ModuleData {
    pub uuid: Uuid,
    pub name: String,
    pub binary_path: String,
    pub entry_point: Option<Uuid>,
    pub byte_order: ByteOrder,
    pub isa: ISA,
    pub rebase_delta: i64,
    pub preferred_address: Addr,
    pub file_format: FileFormat,
}

impl ModuleData {
    /// The attributes that the record holds.
    pub open spec fn attrs(&self) -> Attrs {
        Attrs::Module(
            ModuleAttrs {
                name: self.name@,
                binary_path: self.binary_path@,
                entry_point: self.entry_point,
                byte_order: self.byte_order,
                isa: self.isa,
                rebase_delta: self.rebase_delta,
                preferred_address: self.preferred_address,
                file_format: self.file_format,
            },
        )
    }

    /// The attributes of a new module: the name as given, everything else
    /// empty, zero or undefined.
    pub open spec fn initial(name: Seq<char>) -> Attrs {
        Attrs::Module(
            ModuleAttrs {
                name,
                binary_path: Seq::empty(),
                entry_point: None,
                byte_order: ByteOrder::Undefined,
                isa: ISA::IsaUndefined,
                rebase_delta: 0,
                preferred_address: Addr(0),
                file_format: FileFormat::FormatUndefined,
            },
        )
    }

    /// A module with the given identifier and name.
    pub fn with_uuid(uuid: Uuid, name: &str) -> (module: ModuleData)
        ensures
            module.uuid == uuid,
            module.attrs() == ModuleData::initial(name@),
    {
        ModuleData {
            uuid,
            name: name.to_owned(),
            binary_path: String::new(),
            entry_point: None,
            byte_order: ByteOrder::Undefined,
            isa: ISA::IsaUndefined,
            rebase_delta: 0,
            preferred_address: Addr(0),
            file_format: FileFormat::FormatUndefined,
        }
    }

    /// A module with a fresh random identifier.
    pub fn new(name: &str) -> (module: ModuleData)
        ensures
            module.attrs() == ModuleData::initial(name@),
    {
        ModuleData::with_uuid(random_uuid(), name)
    }
}

/// A handle on a module: the key of its slot and the context that the key
/// belongs to. A handle is valid in that context while the slot is occupied
/// in the key's generation.
#[derive(Clone, Copy, Debug, PartialEq, Eq, Structural)]
pub struct Module {
    pub index: Key,
    pub context: Uuid,
}

impl Module {
    /// The node that the handle names.
    pub open spec fn node_ref(&self) -> NodeRef {
        NodeRef { kind: NodeKind::Module, key: self.index }
    }

    /// Whether the handle names a live module of the given context.
    pub open spec fn valid(&self, ctx: &Context) -> bool {
        self.context == ctx@.id && ctx@.live(self.node_ref())
    }

    /// A handle from its parts.
    pub fn new(index: Key, context: Uuid) -> (node: Module)
        ensures
            node == (Module { index, context }),
    {
        Module { index, context }
    }

    /// The key of the slot that the handle names.
    pub fn index(&self) -> (index: Key)
        ensures
            index == self.index,
    {
        self.index
    }

    /// Computes [`Module::valid`].
    pub fn is_valid(&self, ctx: &Context) -> (valid: bool)
        ensures
            valid == self.valid(ctx),
    {
        self.context == ctx.id() && ctx.contains(NodeRef { kind: NodeKind::Module, key: self.index })
    }

    /// The module's identifier.
    pub fn uuid(&self, ctx: &Context) -> (uuid: Result<Uuid, GraphError>)
        ensures
            match uuid {
                Ok(uuid) => self.valid(ctx) && uuid == ctx@.nodes[self.node_ref()].uuid,
                Err(error) => error == GraphError::StaleHandle && !self.valid(ctx),
            },
    {
        if self.context != ctx.id() {
            return Err(GraphError::StaleHandle);
        }
        match ctx.uuid_of(NodeRef { kind: NodeKind::Module, key: self.index }) {
            Some(uuid) => Ok(uuid),
            None => Err(GraphError::StaleHandle),
        }
    }

    /// Gives the module another identifier; the index follows. An identifier
    /// that another live node has is refused.
    pub fn set_uuid(&self, ctx: &mut Context, uuid: Uuid) -> (set: Result<(), GraphError>)
        requires
            old(ctx).wf(),
        ensures
            final(ctx).wf(),
            match set {
                Ok(_) => {
                    &&& self.valid(old(ctx))
                    &&& (old(ctx)@.index.dom().contains(uuid) ==> old(ctx)@.index[uuid]
                        == self.node_ref())
                    &&& final(ctx)@ == old(ctx)@.renamed(self.node_ref(), uuid)
                },
                Err(error) => {
                    &&& final(ctx)@ == old(ctx)@
                    &&& error == if !self.valid(old(ctx)) {
                        GraphError::StaleHandle
                    } else {
                        GraphError::DuplicateUuid
                    }
                    &&& (!self.valid(old(ctx)) || (old(ctx)@.index.dom().contains(uuid) && old(
                        ctx,
                    )@.index[uuid] != self.node_ref()))
                },
            },
    {
        if self.context != ctx.id() {
            return Err(GraphError::StaleHandle);
        }
        ctx.set_uuid(NodeRef { kind: NodeKind::Module, key: self.index }, uuid)
    }

    /// The attributes of the module that the handle names.
    pub open spec fn attrs(&self, ctx: &Context) -> ModuleAttrs {
        ctx@.attrs(self.node_ref())->Module_0
    }

    /// The record behind the handle.
    fn data<'a>(&self, ctx: &'a Context) -> (data: Result<&'a ModuleData, GraphError>)
        requires
            ctx.wf(),
        ensures
            match data {
                Ok(data) => self.valid(ctx) && data.attrs() == ctx@.attrs(self.node_ref())
                    && ctx@.attrs(self.node_ref()) is Module,
                Err(error) => error == GraphError::StaleHandle && !self.valid(ctx),
            },
    {
        if self.context != ctx.id() {
            return Err(GraphError::StaleHandle);
        }
        proof {
            if ctx@.live(self.node_ref()) {
                assert(ctx@.nodes.dom().contains(self.node_ref()));
            }
        }
        match ctx.record(NodeRef { kind: NodeKind::Module, key: self.index }) {
            Some(Record::Module(data)) => Ok(data),
            _ => Err(GraphError::StaleHandle),
        }
    }

    /// The module's name.
    pub fn name(&self, ctx: &Context) -> (value: Result<String, GraphError>)
        requires
            ctx.wf(),
        ensures
            match value {
                Ok(value) => self.valid(ctx) && value@ == self.attrs(ctx).name,
                Err(error) => error == GraphError::StaleHandle && !self.valid(ctx),
            },
    {
        match self.data(ctx) {
            Ok(data) => Ok(data.name.clone()),
            Err(error) => Err(error),
        }
    }

    /// Sets the module's name.
    pub fn set_name(&self, ctx: &mut Context, name: &str) -> (set: Result<(), GraphError>)
        requires
            old(ctx).wf(),
        ensures
            final(ctx).wf(),
            match set {
                Ok(_) => self.valid(old(ctx)) && final(ctx)@ == old(ctx)@.with_attrs(
                    self.node_ref(),
                    Attrs::Module(ModuleAttrs { name: name@, ..self.attrs(old(ctx)) }),
                ),
                Err(error) => error == GraphError::StaleHandle && !self.valid(old(ctx))
                    && final(ctx)@ == old(ctx)@,
            },
    {
        if !self.is_valid(ctx) {
            return Err(GraphError::StaleHandle);
        }
        proof {
            assert(ctx@.nodes.dom().contains(self.node_ref()));
        }
        let record = ctx.record_mut(NodeRef { kind: NodeKind::Module, key: self.index });
        match record {
            Record::Module(data) => {
                data.name = name.to_owned();
            },
            _ => {},
        }
        Ok(())
    }

    /// The module's path of the file that it was read from.
    pub fn binary_path(&self, ctx: &Context) -> (value: Result<String, GraphError>)
        requires
            ctx.wf(),
        ensures
            match value {
                Ok(value) => self.valid(ctx) && value@ == self.attrs(ctx).binary_path,
                Err(error) => error == GraphError::StaleHandle && !self.valid(ctx),
            },
    {
        match self.data(ctx) {
            Ok(data) => Ok(data.binary_path.clone()),
            Err(error) => Err(error),
        }
    }

    /// Sets the module's path of the file that it was read from.
    pub fn set_binary_path(&self, ctx: &mut Context, binary_path: &str) -> (set: Result<(), GraphError>)
        requires
            old(ctx).wf(),
        ensures
            final(ctx).wf(),
            match set {
                Ok(_) => self.valid(old(ctx)) && final(ctx)@ == old(ctx)@.with_attrs(
                    self.node_ref(),
                    Attrs::Module(ModuleAttrs { binary_path: binary_path@, ..self.attrs(old(ctx)) }),
                ),
                Err(error) => error == GraphError::StaleHandle && !self.valid(old(ctx))
                    && final(ctx)@ == old(ctx)@,
            },
    {
        if !self.is_valid(ctx) {
            return Err(GraphError::StaleHandle);
        }
        proof {
            assert(ctx@.nodes.dom().contains(self.node_ref()));
        }
        let record = ctx.record_mut(NodeRef { kind: NodeKind::Module, key: self.index });
        match record {
            Record::Module(data) => {
                data.binary_path = binary_path.to_owned();
            },
            _ => {},
        }
        Ok(())
    }

    /// The module's file format.
    pub fn file_format(&self, ctx: &Context) -> (value: Result<FileFormat, GraphError>)
        requires
            ctx.wf(),
        ensures
            match value {
                Ok(value) => self.valid(ctx) && value == self.attrs(ctx).file_format,
                Err(error) => error == GraphError::StaleHandle && !self.valid(ctx),
            },
    {
        match self.data(ctx) {
            Ok(data) => Ok(data.file_format),
            Err(error) => Err(error),
        }
    }

    /// Sets the module's file format.
    pub fn set_file_format(&self, ctx: &mut Context, file_format: FileFormat) -> (set: Result<(), GraphError>)
        requires
            old(ctx).wf(),
        ensures
            final(ctx).wf(),
            match set {
                Ok(_) => self.valid(old(ctx)) && final(ctx)@ == old(ctx)@.with_attrs(
                    self.node_ref(),
                    Attrs::Module(ModuleAttrs { file_format, ..self.attrs(old(ctx)) }),
                ),
                Err(error) => error == GraphError::StaleHandle && !self.valid(old(ctx))
                    && final(ctx)@ == old(ctx)@,
            },
    {
        if !self.is_valid(ctx) {
            return Err(GraphError::StaleHandle);
        }
        proof {
            assert(ctx@.nodes.dom().contains(self.node_ref()));
        }
        let record = ctx.record_mut(NodeRef { kind: NodeKind::Module, key: self.index });
        match record {
            Record::Module(data) => {
                data.file_format = file_format;
            },
            _ => {},
        }
        Ok(())
    }

    /// The module's instruction set.
    pub fn isa(&self, ctx: &Context) -> (value: Result<ISA, GraphError>)
        requires
            ctx.wf(),
        ensures
            match value {
                Ok(value) => self.valid(ctx) && value == self.attrs(ctx).isa,
                Err(error) => error == GraphError::StaleHandle && !self.valid(ctx),
            },
    {
        match self.data(ctx) {
            Ok(data) => Ok(data.isa),
            Err(error) => Err(error),
        }
    }

    /// Sets the module's instruction set.
    pub fn set_isa(&self, ctx: &mut Context, isa: ISA) -> (set: Result<(), GraphError>)
        requires
            old(ctx).wf(),
        ensures
            final(ctx).wf(),
            match set {
                Ok(_) => self.valid(old(ctx)) && final(ctx)@ == old(ctx)@.with_attrs(
                    self.node_ref(),
                    Attrs::Module(ModuleAttrs { isa, ..self.attrs(old(ctx)) }),
                ),
                Err(error) => error == GraphError::StaleHandle && !self.valid(old(ctx))
                    && final(ctx)@ == old(ctx)@,
            },
    {
        if !self.is_valid(ctx) {
            return Err(GraphError::StaleHandle);
        }
        proof {
            assert(ctx@.nodes.dom().contains(self.node_ref()));
        }
        let record = ctx.record_mut(NodeRef { kind: NodeKind::Module, key: self.index });
        match record {
            Record::Module(data) => {
                data.isa = isa;
            },
            _ => {},
        }
        Ok(())
    }

    /// The module's byte order.
    pub fn byte_order(&self, ctx: &Context) -> (value: Result<ByteOrder, GraphError>)
        requires
            ctx.wf(),
        ensures
            match value {
                Ok(value) => self.valid(ctx) && value == self.attrs(ctx).byte_order,
                Err(error) => error == GraphError::StaleHandle && !self.valid(ctx),
            },
    {
        match self.data(ctx) {
            Ok(data) => Ok(data.byte_order),
            Err(error) => Err(error),
        }
    }

    /// Sets the module's byte order.
    pub fn set_byte_order(&self, ctx: &mut Context, byte_order: ByteOrder) -> (set: Result<(), GraphError>)
        requires
            old(ctx).wf(),
        ensures
            final(ctx).wf(),
            match set {
                Ok(_) => self.valid(old(ctx)) && final(ctx)@ == old(ctx)@.with_attrs(
                    self.node_ref(),
                    Attrs::Module(ModuleAttrs { byte_order, ..self.attrs(old(ctx)) }),
                ),
                Err(error) => error == GraphError::StaleHandle && !self.valid(old(ctx))
                    && final(ctx)@ == old(ctx)@,
            },
    {
        if !self.is_valid(ctx) {
            return Err(GraphError::StaleHandle);
        }
        proof {
            assert(ctx@.nodes.dom().contains(self.node_ref()));
        }
        let record = ctx.record_mut(NodeRef { kind: NodeKind::Module, key: self.index });
        match record {
            Record::Module(data) => {
                data.byte_order = byte_order;
            },
            _ => {},
        }
        Ok(())
    }

    /// The module's preferred load address.
    pub fn preferred_address(&self, ctx: &Context) -> (value: Result<Addr, GraphError>)
        requires
            ctx.wf(),
        ensures
            match value {
                Ok(value) => self.valid(ctx) && value == self.attrs(ctx).preferred_address,
                Err(error) => error == GraphError::StaleHandle && !self.valid(ctx),
            },
    {
        match self.data(ctx) {
            Ok(data) => Ok(data.preferred_address),
            Err(error) => Err(error),
        }
    }

    /// Sets the module's preferred load address.
    pub fn set_preferred_address(&self, ctx: &mut Context, preferred_address: Addr) -> (set: Result<(), GraphError>)
        requires
            old(ctx).wf(),
        ensures
            final(ctx).wf(),
            match set {
                Ok(_) => self.valid(old(ctx)) && final(ctx)@ == old(ctx)@.with_attrs(
                    self.node_ref(),
                    Attrs::Module(ModuleAttrs { preferred_address, ..self.attrs(old(ctx)) }),
                ),
                Err(error) => error == GraphError::StaleHandle && !self.valid(old(ctx))
                    && final(ctx)@ == old(ctx)@,
            },
    {
        if !self.is_valid(ctx) {
            return Err(GraphError::StaleHandle);
        }
        proof {
            assert(ctx@.nodes.dom().contains(self.node_ref()));
        }
        let record = ctx.record_mut(NodeRef { kind: NodeKind::Module, key: self.index });
        match record {
            Record::Module(data) => {
                data.preferred_address = preferred_address;
            },
            _ => {},
        }
        Ok(())
    }

    /// The module's distance between its load address and the preferred one.
    pub fn rebase_delta(&self, ctx: &Context) -> (value: Result<i64, GraphError>)
        requires
            ctx.wf(),
        ensures
            match value {
                Ok(value) => self.valid(ctx) && value == self.attrs(ctx).rebase_delta,
                Err(error) => error == GraphError::StaleHandle && !self.valid(ctx),
            },
    {
        match self.data(ctx) {
            Ok(data) => Ok(data.rebase_delta),
            Err(error) => Err(error),
        }
    }

    /// Sets the module's distance between its load address and the preferred one.
    pub fn set_rebase_delta(&self, ctx: &mut Context, rebase_delta: i64) -> (set: Result<(), GraphError>)
        requires
            old(ctx).wf(),
        ensures
            final(ctx).wf(),
            match set {
                Ok(_) => self.valid(old(ctx)) && final(ctx)@ == old(ctx)@.with_attrs(
                    self.node_ref(),
                    Attrs::Module(ModuleAttrs { rebase_delta, ..self.attrs(old(ctx)) }),
                ),
                Err(error) => error == GraphError::StaleHandle && !self.valid(old(ctx))
                    && final(ctx)@ == old(ctx)@,
            },
    {
        if !self.is_valid(ctx) {
            return Err(GraphError::StaleHandle);
        }
        proof {
            assert(ctx@.nodes.dom().contains(self.node_ref()));
        }
        let record = ctx.record_mut(NodeRef { kind: NodeKind::Module, key: self.index });
        match record {
            Record::Module(data) => {
                data.rebase_delta = rebase_delta;
            },
            _ => {},
        }
        Ok(())
    }
}

impl Module {
    /// The handles on the modules with the given keys, in the same order.
    pub open spec fn handles(keys: Seq<Key>, context: Uuid) -> Seq<Module> {
        Seq::new(keys.len(), |i: int| Module { index: keys[i], context })
    }

    /// Computes [`Module::handles`].
    pub fn from_keys(keys: &Vec<Key>, context: Uuid) -> (handles: Vec<Module>)
        ensures
            handles@ == Module::handles(keys@, context),
    {
        let mut handles: Vec<Module> = Vec::new();
        let mut done: usize = 0;
        while done < keys.len()
            invariant
                done <= keys.len(),
                handles@ == Module::handles(keys@.take(done as int), context),
            decreases keys.len() - done,
        {
            handles.push(Module { index: keys[done], context });
            done = done + 1;
            assert(handles@ =~= Module::handles(keys@.take(done as int), context));
        }
        assert(keys@.take(done as int) =~= keys@);
        handles
    }

    /// The IR that contains the module.
    pub fn ir(&self, ctx: &Context) -> (parent: Result<IR, GraphError>)
        requires
            ctx.wf(),
        ensures
            match parent {
                Ok(parent) => {
                    &&& self.valid(ctx)
                    &&& parent.valid(ctx)
                    &&& ctx@.parent_of(self.node_ref()) == Some(parent.node_ref())
                },
                Err(error) => error == GraphError::StaleHandle && !self.valid(ctx),
            },
    {
        if self.context != ctx.id() {
            return Err(GraphError::StaleHandle);
        }
        proof {
            if ctx@.live(self.node_ref()) {
                assert(ctx@.nodes.dom().contains(self.node_ref()));
            }
        }
        match ctx.parent_key(NodeRef { kind: NodeKind::Module, key: self.index }) {
            Some(key) => Ok(IR { index: key, context: self.context }),
            None => Err(GraphError::StaleHandle),
        }
    }
}

impl Module {
    /// The module's sections, in the order in which they were added, as they
    /// stand now: what is added or removed later does not reach the result.
    pub fn sections(&self, ctx: &Context) -> (children: Result<Vec<Section>, GraphError>)
        ensures
            match children {
                Ok(children) => self.valid(ctx) && children@ == Section::handles(
                    ctx@.nodes[self.node_ref()].list(NodeKind::Section),
                    self.context,
                ),
                Err(error) => error == GraphError::StaleHandle && !self.valid(ctx),
            },
    {
        if self.context != ctx.id() {
            return Err(GraphError::StaleHandle);
        }
        match ctx.node_iter(NodeRef { kind: NodeKind::Module, key: self.index }, NodeKind::Section) {
            Some(keys) => Ok(Section::from_keys(&keys, self.context)),
            None => Err(GraphError::StaleHandle),
        }
    }

    /// Adds a section as the module's last: the record goes into its arena,
    /// its identifier into the index, and its key onto the module's list. A
    /// record whose identifier a live node already has is refused.
    pub fn add_section(&self, ctx: &mut Context, section: SectionData) -> (added: Result<Section, GraphError>)
        requires
            old(ctx).wf(),
        ensures
            final(ctx).wf(),
            match added {
                Ok(child) => {
                    &&& self.valid(old(ctx))
                    &&& !old(ctx)@.index.dom().contains(section.uuid)
                    &&& child.context == self.context
                    &&& !old(ctx)@.live(child.node_ref())
                    &&& !old(ctx)@.spent.contains(child.node_ref())
                    &&& final(ctx)@ == old(ctx)@.attach(
                        self.node_ref(),
                        child.node_ref(),
                        section.uuid,
                        section.attrs(),
                    )
                },
                Err(error) => {
                    &&& final(ctx)@ == old(ctx)@
                    &&& error == if !self.valid(old(ctx)) {
                        GraphError::StaleHandle
                    } else {
                        GraphError::DuplicateUuid
                    }
                    &&& (!self.valid(old(ctx)) || old(ctx)@.index.dom().contains(section.uuid))
                },
            },
    {
        if self.context != ctx.id() {
            return Err(GraphError::StaleHandle);
        }
        let parent = NodeRef { kind: NodeKind::Module, key: self.index };
        match ctx.add_node(parent, Record::Section(section)) {
            Ok(child) => Ok(Section { index: child.key, context: self.context }),
            Err(error) => Err(error),
        }
    }

    /// Removes one of the module's sections together with everything below
    /// it. The nodes leave their arenas, their identifiers leave the index,
    /// and the key leaves the module's list; handles on them are stale from
    /// then on.
    pub fn remove_section(&self, ctx: &mut Context, node: Section) -> (removed: Result<(), GraphError>)
        requires
            old(ctx).wf(),
        ensures
            final(ctx).wf(),
            match removed {
                Ok(_) => {
                    &&& self.valid(old(ctx))
                    &&& node.valid(old(ctx))
                    &&& old(ctx)@.parent_of(node.node_ref()) == Some(self.node_ref())
                    &&& final(ctx)@ == old(ctx)@.pruned(node.node_ref())
                },
                Err(error) => {
                    &&& final(ctx)@ == old(ctx)@
                    &&& error == if !self.valid(old(ctx)) || !node.valid(old(ctx)) {
                        GraphError::StaleHandle
                    } else {
                        GraphError::WrongParent
                    }
                    &&& (!self.valid(old(ctx)) || !node.valid(old(ctx)) || old(ctx)@.parent_of(
                        node.node_ref(),
                    ) != Some(self.node_ref()))
                },
            },
    {
        if self.context != ctx.id() || node.context != ctx.id() {
            return Err(GraphError::StaleHandle);
        }
        ctx.remove_node(
            NodeRef { kind: NodeKind::Module, key: self.index },
            NodeRef { kind: NodeKind::Section, key: node.index },
        )
    }
}

impl Module {
    /// The module's proxy blocks, in the order in which they were added, as they
    /// stand now: what is added or removed later does not reach the result.
    pub fn proxy_blocks(&self, ctx: &Context) -> (children: Result<Vec<ProxyBlock>, GraphError>)
        ensures
            match children {
                Ok(children) => self.valid(ctx) && children@ == ProxyBlock::handles(
                    ctx@.nodes[self.node_ref()].list(NodeKind::ProxyBlock),
                    self.context,
                ),
                Err(error) => error == GraphError::StaleHandle && !self.valid(ctx),
            },
    {
        if self.context != ctx.id() {
            return Err(GraphError::StaleHandle);
        }
        match ctx.node_iter(NodeRef { kind: NodeKind::Module, key: self.index }, NodeKind::ProxyBlock) {
            Some(keys) => Ok(ProxyBlock::from_keys(&keys, self.context)),
            None => Err(GraphError::StaleHandle),
        }
    }

    /// Adds a proxy block as the module's last: the record goes into its arena,
    /// its identifier into the index, and its key onto the module's list. A
    /// record whose identifier a live node already has is refused.
    pub fn add_proxy_block(&self, ctx: &mut Context, proxy_block: ProxyBlockData) -> (added: Result<ProxyBlock, GraphError>)
        requires
            old(ctx).wf(),
        ensures
            final(ctx).wf(),
            match added {
                Ok(child) => {
                    &&& self.valid(old(ctx))
                    &&& !old(ctx)@.index.dom().contains(proxy_block.uuid)
                    &&& child.context == self.context
                    &&& !old(ctx)@.live(child.node_ref())
                    &&& !old(ctx)@.spent.contains(child.node_ref())
                    &&& final(ctx)@ == old(ctx)@.attach(
                        self.node_ref(),
                        child.node_ref(),
                        proxy_block.uuid,
                        Attrs::ProxyBlock,
                    )
                },
                Err(error) => {
                    &&& final(ctx)@ == old(ctx)@
                    &&& error == if !self.valid(old(ctx)) {
                        GraphError::StaleHandle
                    } else {
                        GraphError::DuplicateUuid
                    }
                    &&& (!self.valid(old(ctx)) || old(ctx)@.index.dom().contains(proxy_block.uuid))
                },
            },
    {
        if self.context != ctx.id() {
            return Err(GraphError::StaleHandle);
        }
        let parent = NodeRef { kind: NodeKind::Module, key: self.index };
        match ctx.add_node(parent, Record::ProxyBlock(proxy_block)) {
            Ok(child) => Ok(ProxyBlock { index: child.key, context: self.context }),
            Err(error) => Err(error),
        }
    }

    /// Removes one of the module's proxy blocks together with everything below
    /// it. The nodes leave their arenas, their identifiers leave the index,
    /// and the key leaves the module's list; handles on them are stale from
    /// then on.
    pub fn remove_proxy_block(&self, ctx: &mut Context, node: ProxyBlock) -> (removed: Result<(), GraphError>)
        requires
            old(ctx).wf(),
        ensures
            final(ctx).wf(),
            match removed {
                Ok(_) => {
                    &&& self.valid(old(ctx))
                    &&& node.valid(old(ctx))
                    &&& old(ctx)@.parent_of(node.node_ref()) == Some(self.node_ref())
                    &&& final(ctx)@ == old(ctx)@.pruned(node.node_ref())
                },
                Err(error) => {
                    &&& final(ctx)@ == old(ctx)@
                    &&& error == if !self.valid(old(ctx)) || !node.valid(old(ctx)) {
                        GraphError::StaleHandle
                    } else {
                        GraphError::WrongParent
                    }
                    &&& (!self.valid(old(ctx)) || !node.valid(old(ctx)) || old(ctx)@.parent_of(
                        node.node_ref(),
                    ) != Some(self.node_ref()))
                },
            },
    {
        if self.context != ctx.id() || node.context != ctx.id() {
            return Err(GraphError::StaleHandle);
        }
        ctx.remove_node(
            NodeRef { kind: NodeKind::Module, key: self.index },
            NodeRef { kind: NodeKind::ProxyBlock, key: node.index },
        )
    }
}

impl Module {
    /// The module's symbols, in the order in which they were added, as they
    /// stand now: what is added or removed later does not reach the result.
    pub fn symbols(&self, ctx: &Context) -> (children: Result<Vec<Symbol>, GraphError>)
        ensures
            match children {
                Ok(children) => self.valid(ctx) && children@ == Symbol::handles(
                    ctx@.nodes[self.node_ref()].list(NodeKind::Symbol),
                    self.context,
                ),
                Err(error) => error == GraphError::StaleHandle && !self.valid(ctx),
            },
    {
        if self.context != ctx.id() {
            return Err(GraphError::StaleHandle);
        }
        match ctx.node_iter(NodeRef { kind: NodeKind::Module, key: self.index }, NodeKind::Symbol) {
            Some(keys) => Ok(Symbol::from_keys(&keys, self.context)),
            None => Err(GraphError::StaleHandle),
        }
    }

    /// Adds a symbol as the module's last: the record goes into its arena,
    /// its identifier into the index, and its key onto the module's list. A
    /// record whose identifier a live node already has is refused.
    pub fn add_symbol(&self, ctx: &mut Context, symbol: SymbolData) -> (added: Result<Symbol, GraphError>)
        requires
            old(ctx).wf(),
        ensures
            final(ctx).wf(),
            match added {
                Ok(child) => {
                    &&& self.valid(old(ctx))
                    &&& !old(ctx)@.index.dom().contains(symbol.uuid)
                    &&& child.context == self.context
                    &&& !old(ctx)@.live(child.node_ref())
                    &&& !old(ctx)@.spent.contains(child.node_ref())
                    &&& final(ctx)@ == old(ctx)@.attach(
                        self.node_ref(),
                        child.node_ref(),
                        symbol.uuid,
                        symbol.attrs(),
                    )
                },
                Err(error) => {
                    &&& final(ctx)@ == old(ctx)@
                    &&& error == if !self.valid(old(ctx)) {
                        GraphError::StaleHandle
                    } else {
                        GraphError::DuplicateUuid
                    }
                    &&& (!self.valid(old(ctx)) || old(ctx)@.index.dom().contains(symbol.uuid))
                },
            },
    {
        if self.context != ctx.id() {
            return Err(GraphError::StaleHandle);
        }
        let parent = NodeRef { kind: NodeKind::Module, key: self.index };
        match ctx.add_node(parent, Record::Symbol(symbol)) {
            Ok(child) => Ok(Symbol { index: child.key, context: self.context }),
            Err(error) => Err(error),
        }
    }

    /// Removes one of the module's symbols together with everything below
    /// it. The nodes leave their arenas, their identifiers leave the index,
    /// and the key leaves the module's list; handles on them are stale from
    /// then on.
    pub fn remove_symbol(&self, ctx: &mut Context, node: Symbol) -> (removed: Result<(), GraphError>)
        requires
            old(ctx).wf(),
        ensures
            final(ctx).wf(),
            match removed {
                Ok(_) => {
                    &&& self.valid(old(ctx))
                    &&& node.valid(old(ctx))
                    &&& old(ctx)@.parent_of(node.node_ref()) == Some(self.node_ref())
                    &&& final(ctx)@ == old(ctx)@.pruned(node.node_ref())
                },
                Err(error) => {
                    &&& final(ctx)@ == old(ctx)@
                    &&& error == if !self.valid(old(ctx)) || !node.valid(old(ctx)) {
                        GraphError::StaleHandle
                    } else {
                        GraphError::WrongParent
                    }
                    &&& (!self.valid(old(ctx)) || !node.valid(old(ctx)) || old(ctx)@.parent_of(
                        node.node_ref(),
                    ) != Some(self.node_ref()))
                },
            },
    {
        if self.context != ctx.id() || node.context != ctx.id() {
            return Err(GraphError::StaleHandle);
        }
        ctx.remove_node(
            NodeRef { kind: NodeKind::Module, key: self.index },
            NodeRef { kind: NodeKind::Symbol, key: node.index },
        )
    }
}

impl Module {
    /// Whether the module was loaded elsewhere than at its preferred address.
    pub fn is_relocated(&self, ctx: &Context) -> (relocated: Result<bool, GraphError>)
        requires
            ctx.wf(),
        ensures
            match relocated {
                Ok(relocated) => self.valid(ctx) && relocated == (self.attrs(ctx).rebase_delta
                    != 0),
                Err(error) => error == GraphError::StaleHandle && !self.valid(ctx),
            },
    {
        match self.data(ctx) {
            Ok(data) => Ok(data.rebase_delta != 0),
            Err(error) => Err(error),
        }
    }

    /// The identifier that the module holds as its entry point, whether or
    /// not a live node has it.
    pub fn entry_point_uuid(&self, ctx: &Context) -> (uuid: Result<Option<Uuid>, GraphError>)
        requires
            ctx.wf(),
        ensures
            match uuid {
                Ok(uuid) => self.valid(ctx) && uuid == self.attrs(ctx).entry_point,
                Err(error) => error == GraphError::StaleHandle && !self.valid(ctx),
            },
    {
        match self.data(ctx) {
            Ok(data) => Ok(data.entry_point),
            Err(error) => Err(error),
        }
    }

    /// The code block that the entry point names in the given context.
    pub open spec fn entry_block(&self, ctx: &Context) -> Option<CodeBlock> {
        match self.attrs(ctx).entry_point {
            Some(uuid) => if ctx@.index.dom().contains(uuid) && ctx@.index[uuid].kind
                == NodeKind::CodeBlock {
                Some(CodeBlock { index: ctx@.index[uuid].key, context: self.context })
            } else {
                None
            },
            None => None,
        }
    }

    /// The code block at which the module is entered: the live code block
    /// that has the identifier held as entry point, if there is one. The
    /// module keeps the identifier when that block is removed.
    pub fn entry_point(&self, ctx: &Context) -> (block: Result<Option<CodeBlock>, GraphError>)
        requires
            ctx.wf(),
        ensures
            match block {
                Ok(block) => self.valid(ctx) && block == self.entry_block(ctx),
                Err(error) => error == GraphError::StaleHandle && !self.valid(ctx),
            },
    {
        let held = match self.data(ctx) {
            Ok(data) => data.entry_point,
            Err(error) => {
                return Err(error);
            },
        };
        match held {
            Some(uuid) => match ctx.find(uuid) {
                Some(node) => {
                    if node.kind == NodeKind::CodeBlock {
                        Ok(Some(CodeBlock { index: node.key, context: self.context }))
                    } else {
                        Ok(None)
                    }
                },
                None => Ok(None),
            },
            None => Ok(None),
        }
    }

    /// Makes a live code block the module's entry point: the module holds
    /// the block's identifier from then on.
    pub fn set_entry_point(&self, ctx: &mut Context, block: CodeBlock) -> (set: Result<
        (),
        GraphError,
    >)
        requires
            old(ctx).wf(),
        ensures
            final(ctx).wf(),
            match set {
                Ok(_) => self.valid(old(ctx)) && block.valid(old(ctx)) && final(ctx)@ == old(
                    ctx,
                )@.with_attrs(
                    self.node_ref(),
                    Attrs::Module(
                        ModuleAttrs {
                            entry_point: Some(old(ctx)@.nodes[block.node_ref()].uuid),
                            ..self.attrs(old(ctx))
                        },
                    ),
                ),
                Err(error) => error == GraphError::StaleHandle && (!self.valid(old(ctx))
                    || !block.valid(old(ctx))) && final(ctx)@ == old(ctx)@,
            },
    {
        if !self.is_valid(ctx) {
            return Err(GraphError::StaleHandle);
        }
        let uuid = match block.uuid(ctx) {
            Ok(uuid) => uuid,
            Err(error) => {
                return Err(error);
            },
        };
        proof {
            assert(ctx@.nodes.dom().contains(self.node_ref()));
        }
        let record = ctx.record_mut(NodeRef { kind: NodeKind::Module, key: self.index });
        match record {
            Record::Module(data) => {
                data.entry_point = Some(uuid);
            },
            _ => {},
        }
        Ok(())
    }
}

impl Module {
    /// The keys of the module's byte intervals.
    fn interval_keys(&self, ctx: &Context) -> (keys: Result<Vec<Key>, GraphError>)
        requires
            ctx.wf(),
        ensures
            match keys {
                Ok(keys) => self.valid(ctx) && keys@ == ctx@.module_intervals(self.index)
                    && ctx@.all_live(NodeKind::ByteInterval, keys@),
                Err(error) => error == GraphError::StaleHandle && !self.valid(ctx),
            },
    {
        if self.context != ctx.id() {
            return Err(GraphError::StaleHandle);
        }
        let node = NodeRef { kind: NodeKind::Module, key: self.index };
        match ctx.node_iter(node, NodeKind::Section) {
            Some(sections) => {
                proof {
                    lemma_list_live(ctx@, node, NodeKind::Section);
                }
                Ok(ctx.descend(NodeKind::Section, &sections, NodeKind::ByteInterval))
            },
            None => Err(GraphError::StaleHandle),
        }
    }

    /// The module's byte intervals: those of its first section, of its
    /// second and so on, as they stand now.
    pub fn byte_intervals(&self, ctx: &Context) -> (intervals: Result<
        Vec<ByteInterval>,
        GraphError,
    >)
        requires
            ctx.wf(),
        ensures
            match intervals {
                Ok(intervals) => self.valid(ctx) && intervals@ == ByteInterval::handles(
                    ctx@.module_intervals(self.index),
                    self.context,
                ),
                Err(error) => error == GraphError::StaleHandle && !self.valid(ctx),
            },
    {
        match self.interval_keys(ctx) {
            Ok(keys) => Ok(ByteInterval::from_keys(&keys, self.context)),
            Err(error) => Err(error),
        }
    }

    /// The module's code blocks: those of its first byte interval, of its second
    /// and so on, as they stand now.
    pub fn code_blocks(&self, ctx: &Context) -> (blocks: Result<Vec<CodeBlock>, GraphError>)
        requires
            ctx.wf(),
        ensures
            match blocks {
                Ok(blocks) => self.valid(ctx) && blocks@ == CodeBlock::handles(
                    ctx@.flat(
                        NodeKind::ByteInterval,
                        ctx@.module_intervals(self.index),
                        NodeKind::CodeBlock,
                    ),
                    self.context,
                ),
                Err(error) => error == GraphError::StaleHandle && !self.valid(ctx),
            },
    {
        match self.interval_keys(ctx) {
            Ok(intervals) => {
                let keys = ctx.descend(NodeKind::ByteInterval, &intervals, NodeKind::CodeBlock);
                Ok(CodeBlock::from_keys(&keys, self.context))
            },
            Err(error) => Err(error),
        }
    }

    /// The module's data blocks: those of its first byte interval, of its second
    /// and so on, as they stand now.
    pub fn data_blocks(&self, ctx: &Context) -> (blocks: Result<Vec<DataBlock>, GraphError>)
        requires
            ctx.wf(),
        ensures
            match blocks {
                Ok(blocks) => self.valid(ctx) && blocks@ == DataBlock::handles(
                    ctx@.flat(
                        NodeKind::ByteInterval,
                        ctx@.module_intervals(self.index),
                        NodeKind::DataBlock,
                    ),
                    self.context,
                ),
                Err(error) => error == GraphError::StaleHandle && !self.valid(ctx),
            },
    {
        match self.interval_keys(ctx) {
            Ok(intervals) => {
                let keys = ctx.descend(NodeKind::ByteInterval, &intervals, NodeKind::DataBlock);
                Ok(DataBlock::from_keys(&keys, self.context))
            },
            Err(error) => Err(error),
        }
    }

    /// The module's address: the lowest address among its byte intervals.
    /// There is none where the module has no byte interval or one of them
    /// has no address.
    pub fn address(&self, ctx: &Context) -> (address: Result<Option<Addr>, GraphError>)
        requires
            ctx.wf(),
        ensures
            match address {
                Ok(address) => self.valid(ctx) && address == ctx@.address(
                    ctx@.module_intervals(self.index),
                ),
                Err(error) => error == GraphError::StaleHandle && !self.valid(ctx),
            },
    {
        match self.interval_keys(ctx) {
            Ok(intervals) => match ctx.extent(&intervals) {
                Some((lowest, _)) => Ok(Some(lowest)),
                None => Ok(None),
            },
            Err(error) => Err(error),
        }
    }

    /// The module's size: from the lowest address among its byte intervals
    /// to the highest of their ends. There is none where the module has no
    /// byte interval or one of them has no address.
    pub fn size(&self, ctx: &Context) -> (size: Result<Option<u64>, GraphError>)
        requires
            ctx.wf(),
        ensures
            match size {
                Ok(size) => self.valid(ctx) && size == ctx@.size(ctx@.module_intervals(self.index)),
                Err(error) => error == GraphError::StaleHandle && !self.valid(ctx),
            },
    {
        match self.interval_keys(ctx) {
            Ok(intervals) => match ctx.extent(&intervals) {
                Some((lowest, highest)) => Ok(Some((highest - lowest).0)),
                None => Ok(None),
            },
            Err(error) => Err(error),
        }
    }
}

impl Node for Module {
    open spec fn kind() -> NodeKind {
        NodeKind::Module
    }

    open spec fn make(index: Key, context: Uuid) -> Module {
        Module { index, context }
    }

    fn node_kind() -> (kind: NodeKind) {
        NodeKind::Module
    }

    fn from_parts(index: Key, context: Uuid) -> (node: Module) {
        Module { index, context }
    }
}

impl NodeData for ModuleData {
    open spec fn data_kind(&self) -> NodeKind {
        NodeKind::Module
    }

    open spec fn data_uuid(&self) -> Uuid {
        self.uuid
    }

    open spec fn data_attrs(&self) -> Attrs {
        self.attrs()
    }

    fn uuid(&self) -> (uuid: Uuid) {
        self.uuid
    }

    fn into_record(self) -> (record: Record) {
        Record::Module(self)
    }
}

} // verus!
