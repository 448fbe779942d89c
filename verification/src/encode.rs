//! Writes a graph as a tree of messages.

use vstd::prelude::*;
use crate::attrs::SectionFlag;
use crate::context::Context;
use crate::error::GraphError;
use crate::graph::lemma_list_live;
use crate::ident::Uuid;
use crate::ident::bytes_of_uuid;
use crate::ident::uuid_bytes;
use crate::ir::IR;
use crate::kind::NodeKind;
use crate::kind::NodeRef;
use crate::message::BlockMessage;
use crate::message::ByteIntervalMessage;
use crate::message::ExpressionMessage;
use crate::message::IrMessage;
use crate::message::ModuleMessage;
use crate::message::PayloadMessage;
use crate::message::SectionMessage;
use crate::message::SymbolMessage;
use crate::message::SymbolicExpressionMessage;
use crate::record::Record;
use crate::section::has_flag;
use crate::store::Key;
use crate::symbol::Payload;
use crate::symbolic_expression::SymbolicExpression;
use crate::tree::IntervalTree;
use crate::tree::IrTree;
use crate::tree::ModuleTree;
use crate::tree::SectionTree;
use crate::tree::SymbolTree;

verus! {

/// Whether each message is written for the tree at its place.
pub open spec fn printed_all<M, T>(
    messages: Seq<M>,
    trees: Seq<T>,
    printed: spec_fn(M, T) -> bool,
) -> bool {
    &&& messages.len() == trees.len()
    &&& forall|i: int| 0 <= i < messages.len() ==> #[trigger] printed(messages[i], trees[i])
}

/// Whether the message is that of the block with the given identifier.
pub open spec fn printed_block(message: BlockMessage, uuid: Uuid) -> bool {
    message.uuid@ == bytes_of_uuid(uuid)
}

/// [`printed_block`] as a value.
pub open spec fn block_printer() -> spec_fn(BlockMessage, Uuid) -> bool {
    |message: BlockMessage, uuid: Uuid| printed_block(message, uuid)
}

/// Whether the message is that of the payload.
pub open spec fn printed_payload(message: Option<PayloadMessage>, payload: Option<Payload>) -> bool {
    match (message, payload) {
        (None, None) => true,
        (Some(PayloadMessage::Value(value)), Some(Payload::Value(address))) => value == address.0,
        (Some(PayloadMessage::Referent(bytes)), Some(Payload::Referent(uuid))) => bytes@
            == bytes_of_uuid(uuid),
        _ => false,
    }
}

/// Whether the message is that of the symbol.
pub open spec fn printed_symbol(message: SymbolMessage, tree: SymbolTree) -> bool {
    &&& message.uuid@ == bytes_of_uuid(tree.uuid)
    &&& message.name@ == tree.attrs.name
    &&& printed_payload(message.payload, tree.attrs.payload)
}

/// [`printed_symbol`] as a value.
pub open spec fn symbol_printer() -> spec_fn(SymbolMessage, SymbolTree) -> bool {
    |message: SymbolMessage, tree: SymbolTree| printed_symbol(message, tree)
}

/// Whether the message is that of the symbolic expression at the offset.
pub open spec fn printed_expression(
    message: SymbolicExpressionMessage,
    placed: (u64, SymbolicExpression),
) -> bool {
    &&& message.offset == placed.0
    &&& match (message.expression, placed.1) {
        (
            ExpressionMessage::AddrConst { offset: written, symbol: bytes },
            SymbolicExpression::AddrConst { offset, symbol },
        ) => written == offset && bytes@ == bytes_of_uuid(symbol),
        (
            ExpressionMessage::AddrAddr {
                scale: scaled,
                offset: written,
                symbol1: first,
                symbol2: second,
            },
            SymbolicExpression::AddrAddr { scale, offset, symbol1, symbol2 },
        ) => scaled == scale && written == offset && first@ == bytes_of_uuid(symbol1) && second@
            == bytes_of_uuid(symbol2),
        _ => false,
    }
}

/// [`printed_expression`] as a value.
pub open spec fn expression_printer() -> spec_fn(
    SymbolicExpressionMessage,
    (u64, SymbolicExpression),
) -> bool {
    |message: SymbolicExpressionMessage, placed: (u64, SymbolicExpression)|
        printed_expression(message, placed)
}

/// Whether the message is that of the byte interval. An interval without
/// an address is written with the address zero.
pub open spec fn printed_interval(message: ByteIntervalMessage, tree: IntervalTree) -> bool {
    &&& message.uuid@ == bytes_of_uuid(tree.uuid)
    &&& printed_all(
        message.symbolic_expressions@,
        tree.attrs.symbolic_expressions,
        expression_printer(),
    )
    &&& message.has_address == (tree.attrs.address is Some)
    &&& message.address == match tree.attrs.address {
        Some(address) => address.0,
        None => 0,
    }
    &&& message.size == tree.attrs.size
    &&& message.contents@ == tree.attrs.bytes
    &&& printed_all(message.code_blocks@, tree.code_blocks, block_printer())
    &&& printed_all(message.data_blocks@, tree.data_blocks, block_printer())
}

/// [`printed_interval`] as a value.
pub open spec fn interval_printer() -> spec_fn(ByteIntervalMessage, IntervalTree) -> bool {
    |message: ByteIntervalMessage, tree: IntervalTree| printed_interval(message, tree)
}

/// The numbers below `bound` of the flags in the set, in rising order.
pub open spec fn flag_numbers_below(flags: Set<SectionFlag>, bound: int) -> Seq<i32>
    decreases bound,
{
    if bound <= 0 {
        Seq::empty()
    } else {
        let rest = flag_numbers_below(flags, bound - 1);
        match SectionFlag::of_wire((bound - 1) as i32) {
            Some(flag) => if flags.contains(flag) {
                rest.push((bound - 1) as i32)
            } else {
                rest
            },
            None => rest,
        }
    }
}

/// The numbers of the flags in the set, in rising order.
pub open spec fn flag_numbers(flags: Set<SectionFlag>) -> Seq<i32> {
    flag_numbers_below(flags, 7)
}

/// Whether the message is that of the section.
pub open spec fn printed_section(message: SectionMessage, tree: SectionTree) -> bool {
    &&& message.uuid@ == bytes_of_uuid(tree.uuid)
    &&& message.name@ == tree.attrs.name
    &&& message.section_flags@ == flag_numbers(tree.attrs.flags)
    &&& printed_all(message.byte_intervals@, tree.intervals, interval_printer())
}

/// [`printed_section`] as a value.
pub open spec fn section_printer() -> spec_fn(SectionMessage, SectionTree) -> bool {
    |message: SectionMessage, tree: SectionTree| printed_section(message, tree)
}

/// Whether the message is that of the module. A module without an entry
/// point is written with an entry point of no bytes.
pub open spec fn printed_module(message: ModuleMessage, tree: ModuleTree) -> bool {
    &&& message.uuid@ == bytes_of_uuid(tree.uuid)
    &&& message.name@ == tree.attrs.name
    &&& message.binary_path@ == tree.attrs.binary_path
    &&& message.preferred_addr == tree.attrs.preferred_address.0
    &&& message.rebase_delta == tree.attrs.rebase_delta
    &&& message.file_format == tree.attrs.file_format.wire()
    &&& message.isa == tree.attrs.isa.wire()
    &&& message.byte_order == tree.attrs.byte_order.wire()
    &&& message.entry_point@ == match tree.attrs.entry_point {
        Some(uuid) => bytes_of_uuid(uuid),
        None => Seq::empty(),
    }
    &&& printed_all(message.sections@, tree.sections, section_printer())
    &&& printed_all(message.symbols@, tree.symbols, symbol_printer())
    &&& printed_all(message.proxies@, tree.proxies, block_printer())
}

/// [`printed_module`] as a value.
pub open spec fn module_printer() -> spec_fn(ModuleMessage, ModuleTree) -> bool {
    |message: ModuleMessage, tree: ModuleTree| printed_module(message, tree)
}

/// Whether the message is that of the graph.
pub open spec fn printed_ir(message: IrMessage, tree: IrTree) -> bool {
    &&& message.uuid@ == bytes_of_uuid(tree.uuid)
    &&& message.version == tree.version
    &&& printed_all(message.modules@, tree.modules, module_printer())
}

/// Writes the blocks with the given keys.
pub(crate) fn encode_blocks(ctx: &Context, kind: NodeKind, keys: &Vec<Key>) -> (written: Result<
    Vec<BlockMessage>,
    GraphError,
>)
    requires
        ctx.wf(),
        ctx@.all_live(kind, keys@),
    ensures
        written is Ok,
        printed_all(written->Ok_0@, ctx@.uuids_of(kind, keys@), block_printer()),
{
    let mut messages: Vec<BlockMessage> = Vec::new();
    let mut done: usize = 0;
    while done < keys.len()
        invariant
            done <= keys.len(),
            ctx@.all_live(kind, keys@),
            messages@.len() == done,
            forall|i: int|
                0 <= i < done ==> #[trigger] block_printer()(
                    messages@[i],
                    ctx@.uuids_of(kind, keys@)[i],
                ),
        decreases keys.len() - done,
    {
        let node = NodeRef { kind, key: keys[done] };
        proof {
            assert(ctx@.live(NodeRef { kind, key: keys@[done as int] }));
        }
        match ctx.uuid_of(node) {
            Some(uuid) => {
                messages.push(BlockMessage { uuid: uuid_bytes(uuid) });
            },
            None => {
                return Err(GraphError::StaleHandle);
            },
        }
        done = done + 1;
    }
    Ok(messages)
}

/// Writes a payload.
fn encode_payload(payload: &Option<Payload>) -> (message: Option<PayloadMessage>)
    ensures
        printed_payload(message, *payload),
{
    match payload {
        None => None,
        Some(Payload::Value(address)) => Some(PayloadMessage::Value(address.0)),
        Some(Payload::Referent(uuid)) => Some(PayloadMessage::Referent(uuid_bytes(*uuid))),
    }
}

/// Writes the symbols with the given keys.
pub(crate) fn encode_symbols(ctx: &Context, keys: &Vec<Key>) -> (written: Result<
    Vec<SymbolMessage>,
    GraphError,
>)
    requires
        ctx.wf(),
        ctx@.all_live(NodeKind::Symbol, keys@),
    ensures
        written is Ok,
        printed_all(written->Ok_0@, ctx@.symbol_trees(keys@), symbol_printer()),
{
    let mut messages: Vec<SymbolMessage> = Vec::new();
    let mut done: usize = 0;
    while done < keys.len()
        invariant
            done <= keys.len(),
            ctx.wf(),
            ctx@.all_live(NodeKind::Symbol, keys@),
            messages@.len() == done,
            forall|i: int|
                0 <= i < done ==> #[trigger] symbol_printer()(
                    messages@[i],
                    ctx@.symbol_trees(keys@)[i],
                ),
        decreases keys.len() - done,
    {
        let node = NodeRef { kind: NodeKind::Symbol, key: keys[done] };
        proof {
            assert(ctx@.live(NodeRef { kind: NodeKind::Symbol, key: keys@[done as int] }));
            assert(ctx@.nodes.dom().contains(node));
        }
        match ctx.record(node) {
            Some(Record::Symbol(data)) => {
                messages.push(
                    SymbolMessage {
                        uuid: uuid_bytes(data.uuid),
                        name: data.name.clone(),
                        payload: encode_payload(&data.payload),
                    },
                );
            },
            _ => {
                return Err(GraphError::StaleHandle);
            },
        }
        done = done + 1;
    }
    Ok(messages)
}

/// Writes a symbolic expression with its offset.
fn encode_expression(placed: &(u64, SymbolicExpression)) -> (message: SymbolicExpressionMessage)
    ensures
        printed_expression(message, *placed),
{
    let expression = match placed.1 {
        SymbolicExpression::AddrConst { offset, symbol } => ExpressionMessage::AddrConst {
            offset,
            symbol: uuid_bytes(symbol),
        },
        SymbolicExpression::AddrAddr { scale, offset, symbol1, symbol2 } => {
            ExpressionMessage::AddrAddr {
                scale,
                offset,
                symbol1: uuid_bytes(symbol1),
                symbol2: uuid_bytes(symbol2),
            }
        },
    };
    SymbolicExpressionMessage { offset: placed.0, expression }
}

/// Writes the symbolic expressions of a byte interval, in their order.
pub fn encode_expressions(expressions: &Vec<(u64, SymbolicExpression)>) -> (messages: Vec<
    SymbolicExpressionMessage,
>)
    ensures
        printed_all(messages@, expressions@, expression_printer()),
{
    let mut messages: Vec<SymbolicExpressionMessage> = Vec::new();
    let mut done: usize = 0;
    while done < expressions.len()
        invariant
            done <= expressions.len(),
            messages@.len() == done,
            forall|i: int|
                0 <= i < done ==> #[trigger] expression_printer()(messages@[i], expressions@[i]),
        decreases expressions.len() - done,
    {
        messages.push(encode_expression(&expressions[done]));
        done = done + 1;
    }
    messages
}

/// The keys of a live node's children of one kind, which are live.
fn child_keys(ctx: &Context, node: NodeRef, kind: NodeKind) -> (keys: Result<Vec<Key>, GraphError>)
    requires
        ctx.wf(),
        ctx@.live(node),
    ensures
        keys is Ok,
        keys->Ok_0@ == ctx@.nodes[node].list(kind),
        ctx@.all_live(kind, keys->Ok_0@),
{
    proof {
        lemma_list_live(ctx@, node, kind);
    }
    match ctx.node_iter(node, kind) {
        Some(keys) => Ok(keys),
        None => Err(GraphError::StaleHandle),
    }
}

/// Writes the byte interval with the given key.
pub(crate) fn encode_interval(ctx: &Context, key: Key) -> (written: Result<
    ByteIntervalMessage,
    GraphError,
>)
    requires
        ctx.wf(),
        ctx@.live(NodeRef { kind: NodeKind::ByteInterval, key }),
    ensures
        written is Ok,
        printed_interval(written->Ok_0, ctx@.interval_tree(key)),
{
    let node = NodeRef { kind: NodeKind::ByteInterval, key };
    proof {
        assert(ctx@.nodes.dom().contains(node));
    }
    let code_keys = child_keys(ctx, node, NodeKind::CodeBlock)?;
    let data_keys = child_keys(ctx, node, NodeKind::DataBlock)?;
    let code_blocks = encode_blocks(ctx, NodeKind::CodeBlock, &code_keys)?;
    let data_blocks = encode_blocks(ctx, NodeKind::DataBlock, &data_keys)?;
    match ctx.record(node) {
        Some(Record::ByteInterval(data)) => Ok(
            ByteIntervalMessage {
                uuid: uuid_bytes(data.uuid),
                has_address: data.address.is_some(),
                address: match data.address {
                    Some(address) => address.0,
                    None => 0,
                },
                size: data.size,
                contents: data.bytes.clone(),
                symbolic_expressions: encode_expressions(&data.symbolic_expressions),
                code_blocks,
                data_blocks,
            },
        ),
        _ => Err(GraphError::StaleHandle),
    }
}

/// Writes the byte intervals with the given keys.
pub(crate) fn encode_intervals(ctx: &Context, keys: &Vec<Key>) -> (written: Result<Vec<ByteIntervalMessage>, GraphError>)
    requires
        ctx.wf(),
        ctx@.all_live(NodeKind::ByteInterval, keys@),
    ensures
        written is Ok,
        printed_all(written->Ok_0@, ctx@.interval_trees(keys@), interval_printer()),
{
    let mut messages: Vec<ByteIntervalMessage> = Vec::new();
    let mut done: usize = 0;
    while done < keys.len()
        invariant
            done <= keys.len(),
            ctx.wf(),
            ctx@.all_live(NodeKind::ByteInterval, keys@),
            messages@.len() == done,
            forall|i: int|
                0 <= i < done ==> #[trigger] interval_printer()(messages@[i], ctx@.interval_trees(keys@)[i]),
        decreases keys.len() - done,
    {
        proof {
            assert(ctx@.live(NodeRef { kind: NodeKind::ByteInterval, key: keys@[done as int] }));
        }
        let message = encode_interval(ctx, keys[done])?;
        messages.push(message);
        done = done + 1;
    }
    Ok(messages)
}

/// Writes the numbers of the flags of a list, each once and in rising
/// order.
pub fn encode_flags(flags: &Vec<SectionFlag>) -> (numbers: Vec<i32>)
    ensures
        numbers@ == flag_numbers(flags@.to_set()),
{
    let mut numbers: Vec<i32> = Vec::new();
    let mut number: i32 = 0;
    while number < 7
        invariant
            0 <= number <= 7,
            numbers@ == flag_numbers_below(flags@.to_set(), number as int),
        decreases 7 - number,
    {
        match SectionFlag::from_i32(number) {
            Some(flag) => {
                if has_flag(flags, flag) {
                    numbers.push(number);
                }
            },
            None => {},
        }
        number = number + 1;
    }
    numbers
}

/// Writes the section with the given key.
pub(crate) fn encode_section(ctx: &Context, key: Key) -> (written: Result<SectionMessage, GraphError>)
    requires
        ctx.wf(),
        ctx@.live(NodeRef { kind: NodeKind::Section, key }),
    ensures
        written is Ok,
        printed_section(written->Ok_0, ctx@.section_tree(key)),
{
    let node = NodeRef { kind: NodeKind::Section, key };
    proof {
        assert(ctx@.nodes.dom().contains(node));
    }
    let keys = child_keys(ctx, node, NodeKind::ByteInterval)?;
    let byte_intervals = encode_intervals(ctx, &keys)?;
    match ctx.record(node) {
        Some(Record::Section(data)) => Ok(
            SectionMessage {
                uuid: uuid_bytes(data.uuid),
                name: data.name.clone(),
                section_flags: encode_flags(&data.flags),
                byte_intervals,
            },
        ),
        _ => Err(GraphError::StaleHandle),
    }
}

/// Writes the sections with the given keys.
pub(crate) fn encode_sections(ctx: &Context, keys: &Vec<Key>) -> (written: Result<Vec<SectionMessage>, GraphError>)
    requires
        ctx.wf(),
        ctx@.all_live(NodeKind::Section, keys@),
    ensures
        written is Ok,
        printed_all(written->Ok_0@, ctx@.section_trees(keys@), section_printer()),
{
    let mut messages: Vec<SectionMessage> = Vec::new();
    let mut done: usize = 0;
    while done < keys.len()
        invariant
            done <= keys.len(),
            ctx.wf(),
            ctx@.all_live(NodeKind::Section, keys@),
            messages@.len() == done,
            forall|i: int|
                0 <= i < done ==> #[trigger] section_printer()(messages@[i], ctx@.section_trees(keys@)[i]),
        decreases keys.len() - done,
    {
        proof {
            assert(ctx@.live(NodeRef { kind: NodeKind::Section, key: keys@[done as int] }));
        }
        let message = encode_section(ctx, keys[done])?;
        messages.push(message);
        done = done + 1;
    }
    Ok(messages)
}

/// Writes the module with the given key.
pub(crate) fn encode_module(ctx: &Context, key: Key) -> (written: Result<ModuleMessage, GraphError>)
    requires
        ctx.wf(),
        ctx@.live(NodeRef { kind: NodeKind::Module, key }),
    ensures
        written is Ok,
        printed_module(written->Ok_0, ctx@.module_tree(key)),
{
    let node = NodeRef { kind: NodeKind::Module, key };
    proof {
        assert(ctx@.nodes.dom().contains(node));
    }
    let section_keys = child_keys(ctx, node, NodeKind::Section)?;
    let symbol_keys = child_keys(ctx, node, NodeKind::Symbol)?;
    let proxy_keys = child_keys(ctx, node, NodeKind::ProxyBlock)?;
    let sections = encode_sections(ctx, &section_keys)?;
    let symbols = encode_symbols(ctx, &symbol_keys)?;
    let proxies = encode_blocks(ctx, NodeKind::ProxyBlock, &proxy_keys)?;
    match ctx.record(node) {
        Some(Record::Module(data)) => Ok(
            ModuleMessage {
                uuid: uuid_bytes(data.uuid),
                binary_path: data.binary_path.clone(),
                preferred_addr: data.preferred_address.0,
                rebase_delta: data.rebase_delta,
                file_format: data.file_format.to_i32(),
                isa: data.isa.to_i32(),
                name: data.name.clone(),
                symbols,
                proxies,
                sections,
                entry_point: match data.entry_point {
                    Some(uuid) => uuid_bytes(uuid),
                    None => Vec::new(),
                },
                byte_order: data.byte_order.to_i32(),
            },
        ),
        _ => Err(GraphError::StaleHandle),
    }
}

/// Writes the modules with the given keys.
pub(crate) fn encode_modules(ctx: &Context, keys: &Vec<Key>) -> (written: Result<Vec<ModuleMessage>, GraphError>)
    requires
        ctx.wf(),
        ctx@.all_live(NodeKind::Module, keys@),
    ensures
        written is Ok,
        printed_all(written->Ok_0@, ctx@.module_trees(keys@), module_printer()),
{
    let mut messages: Vec<ModuleMessage> = Vec::new();
    let mut done: usize = 0;
    while done < keys.len()
        invariant
            done <= keys.len(),
            ctx.wf(),
            ctx@.all_live(NodeKind::Module, keys@),
            messages@.len() == done,
            forall|i: int|
                0 <= i < done ==> #[trigger] module_printer()(messages@[i], ctx@.module_trees(keys@)[i]),
        decreases keys.len() - done,
    {
        proof {
            assert(ctx@.live(NodeRef { kind: NodeKind::Module, key: keys@[done as int] }));
        }
        let message = encode_module(ctx, keys[done])?;
        messages.push(message);
        done = done + 1;
    }
    Ok(messages)
}

/// Writes the graph of a context as the message of its IR: every node with
/// its identifier and its attributes, and inside it the messages of its
/// children, by their kind and in their order.
pub fn encode(ctx: &Context, ir: &IR) -> (written: Result<IrMessage, GraphError>)
    requires
        ctx.wf(),
    ensures
        match written {
            Ok(message) => ir.valid(ctx) && printed_ir(message, ctx@.ir_tree()),
            Err(error) => error == GraphError::StaleHandle && !ir.valid(ctx),
        },
{
    if !ir.is_valid(ctx) {
        return Err(GraphError::StaleHandle);
    }
    let node = NodeRef { kind: NodeKind::Ir, key: ir.index };
    proof {
        assert(ctx@.nodes.dom().contains(node));
        assert(node == ctx@.root_ref());
    }
    let keys = child_keys(ctx, node, NodeKind::Module)?;
    let modules = encode_modules(ctx, &keys)?;
    match ctx.record(node) {
        Some(Record::Ir(data)) => Ok(
            IrMessage { uuid: uuid_bytes(data.uuid), version: data.version, modules },
        ),
        _ => Err(GraphError::StaleHandle),
    }
}

} // verus!
