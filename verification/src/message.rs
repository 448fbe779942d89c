//! The tree of messages in which a graph travels: every node is a message
//! that carries the sixteen bytes of its identifier, and the messages of its
//! children lie inside it, by their kind and in their order.

use vstd::prelude::*;
use crate::addr::Addr;
use crate::attrs::ByteOrder;
use crate::attrs::FileFormat;
use crate::attrs::ISA;
use crate::attrs::SectionFlag;
use crate::error::GraphError;
use crate::ident::Uuid;
use crate::ident::uuid_of_bytes;
use crate::symbol::Payload;
use crate::symbolic_expression::SymbolicExpression;
use crate::tree::IntervalTree;
use crate::tree::IrTree;
use crate::tree::ModuleTree;
use crate::tree::SectionTree;
use crate::tree::SymbolTree;
use crate::view::ByteIntervalAttrs;
use crate::view::ModuleAttrs;
use crate::view::SectionAttrs;
use crate::view::SymbolAttrs;

verus! {

/// The message of a code block, a data block or a proxy block.
#[derive(Debug, PartialEq)]
pub struct BlockMessage {
    pub uuid: Vec<u8>,
}

/// What the message of a symbol says that the symbol stands for.
#[derive(Debug, PartialEq)]
pub enum PayloadMessage {
    Value(u64),
    Referent(Vec<u8>),
}

/// The message of a symbol.
#[derive(Debug, PartialEq)]
pub struct SymbolMessage {
    pub uuid: Vec<u8>,
    pub name: String,
    pub payload: Option<PayloadMessage>,
}

/// What the message of a symbolic expression says of symbols.
#[derive(Debug, PartialEq)]
pub enum ExpressionMessage {
    AddrConst { offset: i64, symbol: Vec<u8> },
    AddrAddr { scale: i64, offset: i64, symbol1: Vec<u8>, symbol2: Vec<u8> },
}

/// The message of a symbolic expression at an offset of a byte interval.
#[derive(Debug, PartialEq)]
pub struct SymbolicExpressionMessage {
    pub offset: u64,
    pub expression: ExpressionMessage,
}

/// The message of a byte interval. The address counts only where
/// `has_address` is set.
#[derive(Debug, PartialEq)]
pub struct ByteIntervalMessage {
    pub uuid: Vec<u8>,
    pub has_address: bool,
    pub address: u64,
    pub size: u64,
    pub contents: Vec<u8>,
    pub symbolic_expressions: Vec<SymbolicExpressionMessage>,
    pub code_blocks: Vec<BlockMessage>,
    pub data_blocks: Vec<BlockMessage>,
}

/// The message of a section.
#[derive(Debug, PartialEq)]
pub struct SectionMessage {
    pub uuid: Vec<u8>,
    pub name: String,
    pub section_flags: Vec<i32>,
    pub byte_intervals: Vec<ByteIntervalMessage>,
}

/// The message of a module. An entry point of no bytes is no entry point.
#[derive(Debug, PartialEq)]
pub struct ModuleMessage {
    pub uuid: Vec<u8>,
    pub binary_path: String,
    pub preferred_addr: u64,
    pub rebase_delta: i64,
    pub file_format: i32,
    pub isa: i32,
    pub name: String,
    pub symbols: Vec<SymbolMessage>,
    pub proxies: Vec<BlockMessage>,
    pub sections: Vec<SectionMessage>,
    pub entry_point: Vec<u8>,
    pub byte_order: i32,
}

/// The message of an IR: the root of a tree of messages.
#[derive(Debug, PartialEq)]
pub struct IrMessage {
    pub uuid: Vec<u8>,
    pub version: u32,
    pub modules: Vec<ModuleMessage>,
}

/// What the messages of a list stand for, each read by `parse`; the first
/// message that cannot be read decides the error.
pub open spec fn parse_all<M, T>(
    messages: Seq<M>,
    parse: spec_fn(M) -> Result<T, GraphError>,
) -> Result<Seq<T>, GraphError>
    decreases messages.len(),
{
    if messages.len() == 0 {
        Ok(Seq::empty())
    } else {
        match parse_all(messages.drop_last(), parse) {
            Err(error) => Err(error),
            Ok(trees) => match parse(messages.last()) {
                Err(error) => Err(error),
                Ok(tree) => Ok(trees.push(tree)),
            },
        }
    }
}

/// The identifier that the bytes stand for.
pub open spec fn parsed_uuid(bytes: Seq<u8>) -> Result<Uuid, GraphError> {
    if bytes.len() == 16 {
        Ok(uuid_of_bytes(bytes))
    } else {
        Err(GraphError::InvalidUuid)
    }
}

/// The identifier of the block that the message stands for.
pub open spec fn parsed_block(message: BlockMessage) -> Result<Uuid, GraphError> {
    parsed_uuid(message.uuid@)
}

/// [`parsed_block`] as a value.
pub open spec fn block_parser() -> spec_fn(BlockMessage) -> Result<Uuid, GraphError> {
    |message: BlockMessage| parsed_block(message)
}

/// The payload that the message stands for.
pub open spec fn parsed_payload(message: Option<PayloadMessage>) -> Result<
    Option<Payload>,
    GraphError,
> {
    match message {
        None => Ok(None),
        Some(PayloadMessage::Value(value)) => Ok(Some(Payload::Value(Addr(value)))),
        Some(PayloadMessage::Referent(bytes)) => match parsed_uuid(bytes@) {
            Err(error) => Err(error),
            Ok(uuid) => Ok(Some(Payload::Referent(uuid))),
        },
    }
}

/// The symbol that the message stands for.
pub open spec fn parsed_symbol(message: SymbolMessage) -> Result<SymbolTree, GraphError> {
    match parsed_payload(message.payload) {
        Err(error) => Err(error),
        Ok(payload) => match parsed_uuid(message.uuid@) {
            Err(error) => Err(error),
            Ok(uuid) => Ok(
                SymbolTree { uuid, attrs: SymbolAttrs { name: message.name@, payload } },
            ),
        },
    }
}

/// [`parsed_symbol`] as a value.
pub open spec fn symbol_parser() -> spec_fn(SymbolMessage) -> Result<SymbolTree, GraphError> {
    |message: SymbolMessage| parsed_symbol(message)
}

/// The symbolic expression, with its offset, that the message stands for.
pub open spec fn parsed_expression(message: SymbolicExpressionMessage) -> Result<
    (u64, SymbolicExpression),
    GraphError,
> {
    match message.expression {
        ExpressionMessage::AddrConst { offset, symbol } => match parsed_uuid(symbol@) {
            Err(error) => Err(error),
            Ok(symbol) => Ok((message.offset, SymbolicExpression::AddrConst { offset, symbol })),
        },
        ExpressionMessage::AddrAddr { scale, offset, symbol1, symbol2 } => match parsed_uuid(
            symbol1@,
        ) {
            Err(error) => Err(error),
            Ok(symbol1) => match parsed_uuid(symbol2@) {
                Err(error) => Err(error),
                Ok(symbol2) => Ok(
                    (
                        message.offset,
                        SymbolicExpression::AddrAddr { scale, offset, symbol1, symbol2 },
                    ),
                ),
            },
        },
    }
}

/// [`parsed_expression`] as a value.
pub open spec fn expression_parser() -> spec_fn(SymbolicExpressionMessage) -> Result<
    (u64, SymbolicExpression),
    GraphError,
> {
    |message: SymbolicExpressionMessage| parsed_expression(message)
}

/// The byte interval that the message stands for.
pub open spec fn parsed_interval(message: ByteIntervalMessage) -> Result<
    IntervalTree,
    GraphError,
> {
    match parsed_uuid(message.uuid@) {
        Err(error) => Err(error),
        Ok(uuid) => match parse_all(message.symbolic_expressions@, expression_parser()) {
            Err(error) => Err(error),
            Ok(symbolic_expressions) => match parse_all(message.code_blocks@, block_parser()) {
                Err(error) => Err(error),
                Ok(code_blocks) => match parse_all(message.data_blocks@, block_parser()) {
                    Err(error) => Err(error),
                    Ok(data_blocks) => Ok(
                        IntervalTree {
                            uuid,
                            attrs: ByteIntervalAttrs {
                                size: message.size,
                                address: if message.has_address {
                                    Some(Addr(message.address))
                                } else {
                                    None
                                },
                                bytes: message.contents@,
                                symbolic_expressions,
                            },
                            code_blocks,
                            data_blocks,
                        },
                    ),
                },
            },
        },
    }
}

/// [`parsed_interval`] as a value.
pub open spec fn interval_parser() -> spec_fn(ByteIntervalMessage) -> Result<
    IntervalTree,
    GraphError,
> {
    |message: ByteIntervalMessage| parsed_interval(message)
}

/// The flag that a number stands for.
pub open spec fn parsed_flag(value: i32) -> Result<SectionFlag, GraphError> {
    match SectionFlag::of_wire(value) {
        Some(flag) => Ok(flag),
        None => Err(GraphError::InvalidEnum),
    }
}

/// [`parsed_flag`] as a value.
pub open spec fn flag_parser() -> spec_fn(i32) -> Result<SectionFlag, GraphError> {
    |value: i32| parsed_flag(value)
}

/// The section that the message stands for.
pub open spec fn parsed_section(message: SectionMessage) -> Result<SectionTree, GraphError> {
    match parse_all(message.section_flags@, flag_parser()) {
        Err(error) => Err(error),
        Ok(flags) => match parse_all(message.byte_intervals@, interval_parser()) {
            Err(error) => Err(error),
            Ok(intervals) => match parsed_uuid(message.uuid@) {
                Err(error) => Err(error),
                Ok(uuid) => Ok(
                    SectionTree {
                        uuid,
                        attrs: SectionAttrs { name: message.name@, flags: flags.to_set() },
                        intervals,
                    },
                ),
            },
        },
    }
}

/// [`parsed_section`] as a value.
pub open spec fn section_parser() -> spec_fn(SectionMessage) -> Result<SectionTree, GraphError> {
    |message: SectionMessage| parsed_section(message)
}

/// The entry point that the bytes stand for: none where there are no bytes.
pub open spec fn parsed_entry_point(bytes: Seq<u8>) -> Result<Option<Uuid>, GraphError> {
    if bytes.len() == 0 {
        Ok(None)
    } else {
        match parsed_uuid(bytes) {
            Err(error) => Err(error),
            Ok(uuid) => Ok(Some(uuid)),
        }
    }
}

/// The closed enums of a module that the numbers stand for.
pub open spec fn parsed_enums(message: ModuleMessage) -> Result<
    (FileFormat, ISA, ByteOrder),
    GraphError,
> {
    match (
        FileFormat::of_wire(message.file_format),
        ISA::of_wire(message.isa),
        ByteOrder::of_wire(message.byte_order),
    ) {
        (Some(file_format), Some(isa), Some(byte_order)) => Ok((file_format, isa, byte_order)),
        _ => Err(GraphError::InvalidEnum),
    }
}

/// The module that the message stands for.
pub open spec fn parsed_module(message: ModuleMessage) -> Result<ModuleTree, GraphError> {
    match parsed_enums(message) {
        Err(error) => Err(error),
        Ok((file_format, isa, byte_order)) => match parse_all(
            message.sections@,
            section_parser(),
        ) {
            Err(error) => Err(error),
            Ok(sections) => match parse_all(message.symbols@, symbol_parser()) {
                Err(error) => Err(error),
                Ok(symbols) => match parse_all(message.proxies@, block_parser()) {
                    Err(error) => Err(error),
                    Ok(proxies) => match parsed_uuid(message.uuid@) {
                        Err(error) => Err(error),
                        Ok(uuid) => match parsed_entry_point(message.entry_point@) {
                            Err(error) => Err(error),
                            Ok(entry_point) => Ok(
                                ModuleTree {
                                    uuid,
                                    attrs: ModuleAttrs {
                                        name: message.name@,
                                        binary_path: message.binary_path@,
                                        entry_point,
                                        byte_order,
                                        isa,
                                        rebase_delta: message.rebase_delta,
                                        preferred_address: Addr(message.preferred_addr),
                                        file_format,
                                    },
                                    sections,
                                    symbols,
                                    proxies,
                                },
                            ),
                        },
                    },
                },
            },
        },
    }
}

/// [`parsed_module`] as a value.
pub open spec fn module_parser() -> spec_fn(ModuleMessage) -> Result<ModuleTree, GraphError> {
    |message: ModuleMessage| parsed_module(message)
}

/// The graph that the message stands for.
pub open spec fn parsed_ir(message: IrMessage) -> Result<IrTree, GraphError> {
    match parsed_uuid(message.uuid@) {
        Err(error) => Err(error),
        Ok(uuid) => match parse_all(message.modules@, module_parser()) {
            Err(error) => Err(error),
            Ok(modules) => Ok(IrTree { uuid, version: message.version, modules }),
        },
    }
}

/// Reading one message more: what the first `n + 1` messages stand for
/// follows from what the first `n` stand for and from the next.
pub proof fn lemma_parse_all_step<M, T>(
    messages: Seq<M>,
    parse: spec_fn(M) -> Result<T, GraphError>,
    n: int,
)
    requires
        0 <= n < messages.len(),
    ensures
        parse_all(messages.take(n + 1), parse) == match parse_all(messages.take(n), parse) {
            Err(error) => Err(error),
            Ok(trees) => match parse(messages[n]) {
                Err(error) => Err(error),
                Ok(tree) => Ok(trees.push(tree)),
            },
        },
{
    assert(messages.take(n + 1).drop_last() == messages.take(n));
    assert(messages.take(n + 1).last() == messages[n]);
}

/// An error among the first messages is the error of the whole list.
pub proof fn lemma_parse_all_error<M, T>(
    messages: Seq<M>,
    parse: spec_fn(M) -> Result<T, GraphError>,
    n: int,
)
    requires
        0 <= n <= messages.len(),
        parse_all(messages.take(n), parse) is Err,
    ensures
        parse_all(messages, parse) == parse_all(messages.take(n), parse),
    decreases messages.len() - n,
{
    if n < messages.len() {
        lemma_parse_all_step(messages, parse, n);
        lemma_parse_all_error(messages, parse, n + 1);
    } else {
        assert(messages.take(n) == messages);
    }
}

/// A list is read exactly where each of its messages is, and then what it
/// stands for is what the messages stand for, in order.
pub proof fn lemma_parse_all_ok<M, T>(messages: Seq<M>, parse: spec_fn(M) -> Result<T, GraphError>)
    ensures
        parse_all(messages, parse) is Ok <==> forall|i: int|
            0 <= i < messages.len() ==> (#[trigger] parse(messages[i])) is Ok,
        parse_all(messages, parse) is Ok ==> {
            &&& parse_all(messages, parse)->Ok_0.len() == messages.len()
            &&& forall|i: int|
                0 <= i < messages.len() ==> parse(messages[i]) == Ok::<T, GraphError>(
                    #[trigger] parse_all(messages, parse)->Ok_0[i],
                )
        },
    decreases messages.len(),
{
    if messages.len() > 0 {
        let rest = messages.drop_last();
        lemma_parse_all_ok(rest, parse);
        assert forall|i: int| 0 <= i < rest.len() implies rest[i] == messages[i] by {}
        if parse_all(messages, parse) is Ok {
            assert forall|i: int| 0 <= i < messages.len() implies (#[trigger] parse(
                messages[i],
            )) is Ok by {
                if i < rest.len() {
                    assert(rest[i] == messages[i]);
                }
            }
        }
        if forall|i: int| 0 <= i < messages.len() ==> (#[trigger] parse(messages[i])) is Ok {
            assert forall|i: int| 0 <= i < rest.len() implies (#[trigger] parse(rest[i])) is Ok by {
                assert(rest[i] == messages[i]);
            }
            assert(parse(messages[messages.len() - 1]) is Ok);
        }
    }
}

} // verus!
