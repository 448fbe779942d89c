//! Symbols: names for an address or for another node.

use vstd::prelude::*;
use crate::addr::Addr;
use crate::context::Context;
use crate::error::GraphError;
use crate::ident::Uuid;
use crate::ident::random_uuid;
use crate::kind::NodeKind;
use crate::kind::NodeRef;
use crate::module::Module;
use crate::node::Node;
use crate::node::NodeData;
use crate::record::Record;
use crate::store::Key;
use crate::view::Attrs;
use crate::view::SymbolAttrs;

verus! {

/// What a symbol stands for.
#[derive(Clone, Copy, Debug, PartialEq, Eq, Structural)]
pub enum Payload {
    /// A literal address.
    Value(Addr),
    /// The identifier of a node; it need not name a live one.
    Referent(Uuid),
}

/// The record of a symbol.
#[derive(Debug, PartialEq)]
pub struct SymbolData {
    pub uuid: Uuid,
    pub name: String,
    pub payload: Option<Payload>,
}

impl SymbolData {
    /// The attributes that the record holds.
    pub open spec fn attrs(&self) -> Attrs {
        Attrs::Symbol(SymbolAttrs { name: self.name@, payload: self.payload })
    }

    /// The attributes of a new symbol.
    pub open spec fn initial(name: Seq<char>) -> Attrs {
        Attrs::Symbol(SymbolAttrs { name, payload: None })
    }

    /// A symbol with the given identifier and name, and no payload.
    pub fn with_uuid(uuid: Uuid, name: &str) -> (symbol: SymbolData)
        ensures
            symbol.uuid == uuid,
            symbol.attrs() == SymbolData::initial(name@),
    {
        SymbolData { uuid, name: name.to_owned(), payload: None }
    }

    /// A symbol with a fresh random identifier.
    pub fn new(name: &str) -> (symbol: SymbolData)
        ensures
            symbol.attrs() == SymbolData::initial(name@),
    {
        SymbolData::with_uuid(random_uuid(), name)
    }
}

/// A handle on a symbol: the key of its slot and the context that the key
/// belongs to. A handle is valid in that context while the slot is occupied
/// in the key's generation.
#[derive(Clone, Copy, Debug, PartialEq, Eq, Structural)]
pub struct Symbol {
    pub index: Key,
    pub context: Uuid,
}

impl Symbol {
    /// The node that the handle names.
    pub open spec fn node_ref(&self) -> NodeRef {
        NodeRef { kind: NodeKind::Symbol, key: self.index }
    }

    /// Whether the handle names a live symbol of the given context.
    pub open spec fn valid(&self, ctx: &Context) -> bool {
        self.context == ctx@.id && ctx@.live(self.node_ref())
    }

    /// A handle from its parts.
    pub fn new(index: Key, context: Uuid) -> (node: Symbol)
        ensures
            node == (Symbol { index, context }),
    {
        Symbol { index, context }
    }

    /// The key of the slot that the handle names.
    pub fn index(&self) -> (index: Key)
        ensures
            index == self.index,
    {
        self.index
    }

    /// Computes [`Symbol::valid`].
    pub fn is_valid(&self, ctx: &Context) -> (valid: bool)
        ensures
            valid == self.valid(ctx),
    {
        self.context == ctx.id() && ctx.contains(NodeRef { kind: NodeKind::Symbol, key: self.index })
    }

    /// The symbol's identifier.
    pub fn uuid(&self, ctx: &Context) -> (uuid: Result<Uuid, GraphError>)
        ensures
            match uuid {
                Ok(uuid) => self.valid(ctx) && uuid == ctx@.nodes[self.node_ref()].uuid,
                Err(error) => error == GraphError::StaleHandle && !self.valid(ctx),
            },
    {
        if self.context != ctx.id() {
            return Err(GraphError::StaleHandle);
        }
        match ctx.uuid_of(NodeRef { kind: NodeKind::Symbol, key: self.index }) {
            Some(uuid) => Ok(uuid),
            None => Err(GraphError::StaleHandle),
        }
    }

    /// Gives the symbol another identifier; the index follows. An identifier
    /// that another live node has is refused.
    pub fn set_uuid(&self, ctx: &mut Context, uuid: Uuid) -> (set: Result<(), GraphError>)
        requires
            old(ctx).wf(),
        ensures
            final(ctx).wf(),
            match set {
                Ok(_) => {
                    &&& self.valid(old(ctx))
                    &&& (old(ctx)@.index.dom().contains(uuid) ==> old(ctx)@.index[uuid]
                        == self.node_ref())
                    &&& final(ctx)@ == old(ctx)@.renamed(self.node_ref(), uuid)
                },
                Err(error) => {
                    &&& final(ctx)@ == old(ctx)@
                    &&& error == if !self.valid(old(ctx)) {
                        GraphError::StaleHandle
                    } else {
                        GraphError::DuplicateUuid
                    }
                    &&& (!self.valid(old(ctx)) || (old(ctx)@.index.dom().contains(uuid) && old(
                        ctx,
                    )@.index[uuid] != self.node_ref()))
                },
            },
    {
        if self.context != ctx.id() {
            return Err(GraphError::StaleHandle);
        }
        ctx.set_uuid(NodeRef { kind: NodeKind::Symbol, key: self.index }, uuid)
    }

    /// The attributes of the symbol that the handle names.
    pub open spec fn attrs(&self, ctx: &Context) -> SymbolAttrs {
        ctx@.attrs(self.node_ref())->Symbol_0
    }

    /// The record behind the handle.
    fn data<'a>(&self, ctx: &'a Context) -> (data: Result<&'a SymbolData, GraphError>)
        requires
            ctx.wf(),
        ensures
            match data {
                Ok(data) => self.valid(ctx) && data.attrs() == ctx@.attrs(self.node_ref())
                    && ctx@.attrs(self.node_ref()) is Symbol,
                Err(error) => error == GraphError::StaleHandle && !self.valid(ctx),
            },
    {
        if self.context != ctx.id() {
            return Err(GraphError::StaleHandle);
        }
        proof {
            if ctx@.live(self.node_ref()) {
                assert(ctx@.nodes.dom().contains(self.node_ref()));
            }
        }
        match ctx.record(NodeRef { kind: NodeKind::Symbol, key: self.index }) {
            Some(Record::Symbol(data)) => Ok(data),
            _ => Err(GraphError::StaleHandle),
        }
    }

    /// The symbol's name.
    pub fn name(&self, ctx: &Context) -> (value: Result<String, GraphError>)
        requires
            ctx.wf(),
        ensures
            match value {
                Ok(value) => self.valid(ctx) && value@ == self.attrs(ctx).name,
                Err(error) => error == GraphError::StaleHandle && !self.valid(ctx),
            },
    {
        match self.data(ctx) {
            Ok(data) => Ok(data.name.clone()),
            Err(error) => Err(error),
        }
    }

    /// Sets the symbol's name.
    pub fn set_name(&self, ctx: &mut Context, name: &str) -> (set: Result<(), GraphError>)
        requires
            old(ctx).wf(),
        ensures
            final(ctx).wf(),
            match set {
                Ok(_) => self.valid(old(ctx)) && final(ctx)@ == old(ctx)@.with_attrs(
                    self.node_ref(),
                    Attrs::Symbol(SymbolAttrs { name: name@, ..self.attrs(old(ctx)) }),
                ),
                Err(error) => error == GraphError::StaleHandle && !self.valid(old(ctx))
                    && final(ctx)@ == old(ctx)@,
            },
    {
        if !self.is_valid(ctx) {
            return Err(GraphError::StaleHandle);
        }
        proof {
            assert(ctx@.nodes.dom().contains(self.node_ref()));
        }
        let record = ctx.record_mut(NodeRef { kind: NodeKind::Symbol, key: self.index });
        match record {
            Record::Symbol(data) => {
                data.name = name.to_owned();
            },
            _ => {},
        }
        Ok(())
    }

    /// The symbol's payload: what it stands for.
    pub fn payload(&self, ctx: &Context) -> (value: Result<Option<Payload>, GraphError>)
        requires
            ctx.wf(),
        ensures
            match value {
                Ok(value) => self.valid(ctx) && value == self.attrs(ctx).payload,
                Err(error) => error == GraphError::StaleHandle && !self.valid(ctx),
            },
    {
        match self.data(ctx) {
            Ok(data) => Ok(data.payload),
            Err(error) => Err(error),
        }
    }

    /// Sets the symbol's payload: what it stands for.
    pub fn set_payload(&self, ctx: &mut Context, payload: Option<Payload>) -> (set: Result<(), GraphError>)
        requires
            old(ctx).wf(),
        ensures
            final(ctx).wf(),
            match set {
                Ok(_) => self.valid(old(ctx)) && final(ctx)@ == old(ctx)@.with_attrs(
                    self.node_ref(),
                    Attrs::Symbol(SymbolAttrs { payload, ..self.attrs(old(ctx)) }),
                ),
                Err(error) => error == GraphError::StaleHandle && !self.valid(old(ctx))
                    && final(ctx)@ == old(ctx)@,
            },
    {
        if !self.is_valid(ctx) {
            return Err(GraphError::StaleHandle);
        }
        proof {
            assert(ctx@.nodes.dom().contains(self.node_ref()));
        }
        let record = ctx.record_mut(NodeRef { kind: NodeKind::Symbol, key: self.index });
        match record {
            Record::Symbol(data) => {
                data.payload = payload;
            },
            _ => {},
        }
        Ok(())
    }
}

impl Symbol {
    /// The handles on the symbols with the given keys, in the same order.
    pub open spec fn handles(keys: Seq<Key>, context: Uuid) -> Seq<Symbol> {
        Seq::new(keys.len(), |i: int| Symbol { index: keys[i], context })
    }

    /// Computes [`Symbol::handles`].
    pub fn from_keys(keys: &Vec<Key>, context: Uuid) -> (handles: Vec<Symbol>)
        ensures
            handles@ == Symbol::handles(keys@, context),
    {
        let mut handles: Vec<Symbol> = Vec::new();
        let mut done: usize = 0;
        while done < keys.len()
            invariant
                done <= keys.len(),
                handles@ == Symbol::handles(keys@.take(done as int), context),
            decreases keys.len() - done,
        {
            handles.push(Symbol { index: keys[done], context });
            done = done + 1;
            assert(handles@ =~= Symbol::handles(keys@.take(done as int), context));
        }
        assert(keys@.take(done as int) =~= keys@);
        handles
    }

    /// The module that contains the symbol.
    pub fn parent(&self, ctx: &Context) -> (parent: Result<Module, GraphError>)
        requires
            ctx.wf(),
        ensures
            match parent {
                Ok(parent) => {
                    &&& self.valid(ctx)
                    &&& parent.valid(ctx)
                    &&& ctx@.parent_of(self.node_ref()) == Some(parent.node_ref())
                },
                Err(error) => error == GraphError::StaleHandle && !self.valid(ctx),
            },
    {
        if self.context != ctx.id() {
            return Err(GraphError::StaleHandle);
        }
        proof {
            if ctx@.live(self.node_ref()) {
                assert(ctx@.nodes.dom().contains(self.node_ref()));
            }
        }
        match ctx.parent_key(NodeRef { kind: NodeKind::Symbol, key: self.index }) {
            Some(key) => Ok(Module { index: key, context: self.context }),
            None => Err(GraphError::StaleHandle),
        }
    }
}

impl Node for Symbol {
    open spec fn kind() -> NodeKind {
        NodeKind::Symbol
    }

    open spec fn make(index: Key, context: Uuid) -> Symbol {
        Symbol { index, context }
    }

    fn node_kind() -> (kind: NodeKind) {
        NodeKind::Symbol
    }

    fn from_parts(index: Key, context: Uuid) -> (node: Symbol) {
        Symbol { index, context }
    }
}

impl NodeData for SymbolData {
    open spec fn data_kind(&self) -> NodeKind {
        NodeKind::Symbol
    }

    open spec fn data_uuid(&self) -> Uuid {
        self.uuid
    }

    open spec fn data_attrs(&self) -> Attrs {
        self.attrs()
    }

    fn uuid(&self) -> (uuid: Uuid) {
        self.uuid
    }

    fn into_record(self) -> (record: Record) {
        Record::Symbol(self)
    }
}

} // verus!
