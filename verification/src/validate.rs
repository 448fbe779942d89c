//! Checks that a tree of messages can be read, before anything is built
//! from it.

use vstd::prelude::*;
use crate::addr::Addr;
use crate::attrs::ByteOrder;
use crate::attrs::FileFormat;
use crate::attrs::ISA;
use crate::attrs::SectionFlag;
use crate::error::GraphError;
use crate::ident::Uuid;
use crate::ident::parse_uuid;
use crate::message::BlockMessage;
use crate::message::ByteIntervalMessage;
use crate::message::ExpressionMessage;
use crate::message::IrMessage;
use crate::message::ModuleMessage;
use crate::message::PayloadMessage;
use crate::message::SectionMessage;
use crate::message::SymbolMessage;
use crate::message::SymbolicExpressionMessage;
use crate::message::block_parser;
use crate::message::expression_parser;
use crate::message::flag_parser;
use crate::message::interval_parser;
use crate::message::lemma_parse_all_error;
use crate::message::lemma_parse_all_step;
use crate::message::module_parser;
use crate::message::parse_all;
use crate::message::parsed_entry_point;
use crate::message::parsed_enums;
use crate::message::parsed_expression;
use crate::message::parsed_interval;
use crate::message::parsed_ir;
use crate::message::parsed_module;
use crate::message::parsed_payload;
use crate::message::parsed_section;
use crate::message::parsed_symbol;
use crate::message::parsed_uuid;
use crate::message::section_parser;
use crate::message::symbol_parser;
use crate::symbol::Payload;
use crate::symbolic_expression::SymbolicExpression;

verus! {

/// Whether a check came out as the reading of the message does: passed
/// where the message can be read, and failed with the same error where it
/// cannot.
pub open spec fn agrees<T>(checked: Result<(), GraphError>, parsed: Result<T, GraphError>) -> bool {
    match parsed {
        Ok(_) => checked is Ok,
        Err(error) => checked == Err::<(), GraphError>(error),
    }
}

/// Reads an identifier from the bytes of a message.
pub fn read_uuid(bytes: &Vec<u8>) -> (uuid: Result<Uuid, GraphError>)
    ensures
        uuid == parsed_uuid(bytes@),
{
    parse_uuid(bytes.as_slice())
}

/// Reads the entry point of a module from its bytes.
pub fn read_entry_point(bytes: &Vec<u8>) -> (entry_point: Result<Option<Uuid>, GraphError>)
    ensures
        entry_point == parsed_entry_point(bytes@),
{
    if bytes.len() == 0 {
        Ok(None)
    } else {
        match read_uuid(bytes) {
            Ok(uuid) => Ok(Some(uuid)),
            Err(error) => Err(error),
        }
    }
}

/// Reads the payload of a symbol.
pub fn read_payload(message: &Option<PayloadMessage>) -> (payload: Result<
    Option<Payload>,
    GraphError,
>)
    ensures
        payload == parsed_payload(*message),
{
    match message {
        None => Ok(None),
        Some(PayloadMessage::Value(value)) => Ok(Some(Payload::Value(Addr(*value)))),
        Some(PayloadMessage::Referent(bytes)) => match read_uuid(bytes) {
            Ok(uuid) => Ok(Some(Payload::Referent(uuid))),
            Err(error) => Err(error),
        },
    }
}

/// Reads the closed enums of a module.
pub fn read_enums(message: &ModuleMessage) -> (enums: Result<
    (FileFormat, ISA, ByteOrder),
    GraphError,
>)
    ensures
        enums == parsed_enums(*message),
{
    match (
        FileFormat::from_i32(message.file_format),
        ISA::from_i32(message.isa),
        ByteOrder::from_i32(message.byte_order),
    ) {
        (Some(file_format), Some(isa), Some(byte_order)) => Ok((file_format, isa, byte_order)),
        _ => Err(GraphError::InvalidEnum),
    }
}

/// Checks the messages of blocks.
pub fn validate_blocks(blocks: &Vec<BlockMessage>) -> (checked: Result<(), GraphError>)
    ensures
        agrees(checked, parse_all(blocks@, block_parser())),
{
    let mut done: usize = 0;
    while done < blocks.len()
        invariant
            done <= blocks.len(),
            parse_all(blocks@.take(done as int), block_parser()) is Ok,
        decreases blocks.len() - done,
    {
        proof {
            lemma_parse_all_step(blocks@, block_parser(), done as int);
        }
        match read_uuid(&blocks[done].uuid) {
            Ok(_) => {},
            Err(error) => {
                proof {
                    lemma_parse_all_error(blocks@, block_parser(), done + 1);
                }
                return Err(error);
            },
        }
        done = done + 1;
    }
    assert(blocks@.take(done as int) == blocks@);
    Ok(())
}

/// Reads the flags of a section from their numbers.
pub fn read_flags(numbers: &Vec<i32>) -> (flags: Result<Vec<SectionFlag>, GraphError>)
    ensures
        match flags {
            Ok(flags) => parse_all(numbers@, flag_parser()) == Ok::<Seq<SectionFlag>, GraphError>(
                flags@,
            ),
            Err(error) => parse_all(numbers@, flag_parser()) == Err::<
                Seq<SectionFlag>,
                GraphError,
            >(error),
        },
{
    let mut flags: Vec<SectionFlag> = Vec::new();
    let mut done: usize = 0;
    while done < numbers.len()
        invariant
            done <= numbers.len(),
            parse_all(numbers@.take(done as int), flag_parser()) == Ok::<
                Seq<SectionFlag>,
                GraphError,
            >(flags@),
        decreases numbers.len() - done,
    {
        proof {
            lemma_parse_all_step(numbers@, flag_parser(), done as int);
        }
        match SectionFlag::from_i32(numbers[done]) {
            Some(flag) => {
                flags.push(flag);
            },
            None => {
                proof {
                    lemma_parse_all_error(numbers@, flag_parser(), done + 1);
                }
                return Err(GraphError::InvalidEnum);
            },
        }
        done = done + 1;
    }
    assert(numbers@.take(done as int) == numbers@);
    Ok(flags)
}

/// Checks the numbers of section flags.
pub fn validate_flags(flags: &Vec<i32>) -> (checked: Result<(), GraphError>)
    ensures
        agrees(checked, parse_all(flags@, flag_parser())),
{
    match read_flags(flags) {
        Ok(_) => Ok(()),
        Err(error) => Err(error),
    }
}

/// Checks the message of a symbol.
pub fn validate_symbol(message: &SymbolMessage) -> (checked: Result<(), GraphError>)
    ensures
        agrees(checked, parsed_symbol(*message)),
{
    match read_payload(&message.payload) {
        Ok(_) => {},
        Err(error) => {
            return Err(error);
        },
    }
    match read_uuid(&message.uuid) {
        Ok(_) => Ok(()),
        Err(error) => Err(error),
    }
}

/// Checks the messages of symbols.
pub fn validate_symbols(symbols: &Vec<SymbolMessage>) -> (checked: Result<(), GraphError>)
    ensures
        agrees(checked, parse_all(symbols@, symbol_parser())),
{
    let mut done: usize = 0;
    while done < symbols.len()
        invariant
            done <= symbols.len(),
            parse_all(symbols@.take(done as int), symbol_parser()) is Ok,
        decreases symbols.len() - done,
    {
        proof {
            lemma_parse_all_step(symbols@, symbol_parser(), done as int);
        }
        match validate_symbol(&symbols[done]) {
            Ok(_) => {},
            Err(error) => {
                proof {
                    lemma_parse_all_error(symbols@, symbol_parser(), done + 1);
                }
                return Err(error);
            },
        }
        done = done + 1;
    }
    assert(symbols@.take(done as int) == symbols@);
    Ok(())
}

/// Reads a symbolic expression with its offset.
pub fn read_expression(message: &SymbolicExpressionMessage) -> (expression: Result<
    (u64, SymbolicExpression),
    GraphError,
>)
    ensures
        expression == parsed_expression(*message),
{
    match &message.expression {
        ExpressionMessage::AddrConst { offset, symbol } => match read_uuid(symbol) {
            Ok(symbol) => Ok(
                (message.offset, SymbolicExpression::AddrConst { offset: *offset, symbol }),
            ),
            Err(error) => Err(error),
        },
        ExpressionMessage::AddrAddr { scale, offset, symbol1, symbol2 } => match read_uuid(
            symbol1,
        ) {
            Ok(symbol1) => match read_uuid(symbol2) {
                Ok(symbol2) => Ok(
                    (
                        message.offset,
                        SymbolicExpression::AddrAddr {
                            scale: *scale,
                            offset: *offset,
                            symbol1,
                            symbol2,
                        },
                    ),
                ),
                Err(error) => Err(error),
            },
            Err(error) => Err(error),
        },
    }
}

/// Reads the symbolic expressions of a byte interval.
pub fn read_expressions(messages: &Vec<SymbolicExpressionMessage>) -> (expressions: Result<
    Vec<(u64, SymbolicExpression)>,
    GraphError,
>)
    ensures
        match expressions {
            Ok(expressions) => parse_all(messages@, expression_parser()) == Ok::<
                Seq<(u64, SymbolicExpression)>,
                GraphError,
            >(expressions@),
            Err(error) => parse_all(messages@, expression_parser()) == Err::<
                Seq<(u64, SymbolicExpression)>,
                GraphError,
            >(error),
        },
{
    let mut expressions: Vec<(u64, SymbolicExpression)> = Vec::new();
    let mut done: usize = 0;
    while done < messages.len()
        invariant
            done <= messages.len(),
            parse_all(messages@.take(done as int), expression_parser()) == Ok::<
                Seq<(u64, SymbolicExpression)>,
                GraphError,
            >(expressions@),
        decreases messages.len() - done,
    {
        proof {
            lemma_parse_all_step(messages@, expression_parser(), done as int);
        }
        match read_expression(&messages[done]) {
            Ok(expression) => {
                expressions.push(expression);
            },
            Err(error) => {
                proof {
                    lemma_parse_all_error(messages@, expression_parser(), done + 1);
                }
                return Err(error);
            },
        }
        done = done + 1;
    }
    assert(messages@.take(done as int) == messages@);
    Ok(expressions)
}

/// Checks the message of a byte interval.
pub fn validate_interval(message: &ByteIntervalMessage) -> (checked: Result<(), GraphError>)
    ensures
        agrees(checked, parsed_interval(*message)),
{
    match read_uuid(&message.uuid) {
        Ok(_) => {},
        Err(error) => {
            return Err(error);
        },
    }
    match read_expressions(&message.symbolic_expressions) {
        Ok(_) => {},
        Err(error) => {
            return Err(error);
        },
    }
    match validate_blocks(&message.code_blocks) {
        Ok(_) => {},
        Err(error) => {
            return Err(error);
        },
    }
    validate_blocks(&message.data_blocks)
}

/// Checks the messages of byte intervals.
pub fn validate_intervals(intervals: &Vec<ByteIntervalMessage>) -> (checked: Result<
    (),
    GraphError,
>)
    ensures
        agrees(checked, parse_all(intervals@, interval_parser())),
{
    let mut done: usize = 0;
    while done < intervals.len()
        invariant
            done <= intervals.len(),
            parse_all(intervals@.take(done as int), interval_parser()) is Ok,
        decreases intervals.len() - done,
    {
        proof {
            lemma_parse_all_step(intervals@, interval_parser(), done as int);
        }
        match validate_interval(&intervals[done]) {
            Ok(_) => {},
            Err(error) => {
                proof {
                    lemma_parse_all_error(intervals@, interval_parser(), done + 1);
                }
                return Err(error);
            },
        }
        done = done + 1;
    }
    assert(intervals@.take(done as int) == intervals@);
    Ok(())
}

/// Checks the message of a section.
pub fn validate_section(message: &SectionMessage) -> (checked: Result<(), GraphError>)
    ensures
        agrees(checked, parsed_section(*message)),
{
    match validate_flags(&message.section_flags) {
        Ok(_) => {},
        Err(error) => {
            return Err(error);
        },
    }
    match validate_intervals(&message.byte_intervals) {
        Ok(_) => {},
        Err(error) => {
            return Err(error);
        },
    }
    match read_uuid(&message.uuid) {
        Ok(_) => Ok(()),
        Err(error) => Err(error),
    }
}

/// Checks the messages of sections.
pub fn validate_sections(sections: &Vec<SectionMessage>) -> (checked: Result<(), GraphError>)
    ensures
        agrees(checked, parse_all(sections@, section_parser())),
{
    let mut done: usize = 0;
    while done < sections.len()
        invariant
            done <= sections.len(),
            parse_all(sections@.take(done as int), section_parser()) is Ok,
        decreases sections.len() - done,
    {
        proof {
            lemma_parse_all_step(sections@, section_parser(), done as int);
        }
        match validate_section(&sections[done]) {
            Ok(_) => {},
            Err(error) => {
                proof {
                    lemma_parse_all_error(sections@, section_parser(), done + 1);
                }
                return Err(error);
            },
        }
        done = done + 1;
    }
    assert(sections@.take(done as int) == sections@);
    Ok(())
}

/// Checks the message of a module.
pub fn validate_module(message: &ModuleMessage) -> (checked: Result<(), GraphError>)
    ensures
        agrees(checked, parsed_module(*message)),
{
    match read_enums(message) {
        Ok(_) => {},
        Err(error) => {
            return Err(error);
        },
    }
    match validate_sections(&message.sections) {
        Ok(_) => {},
        Err(error) => {
            return Err(error);
        },
    }
    match validate_symbols(&message.symbols) {
        Ok(_) => {},
        Err(error) => {
            return Err(error);
        },
    }
    match validate_blocks(&message.proxies) {
        Ok(_) => {},
        Err(error) => {
            return Err(error);
        },
    }
    match read_uuid(&message.uuid) {
        Ok(_) => {},
        Err(error) => {
            return Err(error);
        },
    }
    match read_entry_point(&message.entry_point) {
        Ok(_) => Ok(()),
        Err(error) => Err(error),
    }
}

/// Checks the messages of modules.
pub fn validate_modules(modules: &Vec<ModuleMessage>) -> (checked: Result<(), GraphError>)
    ensures
        agrees(checked, parse_all(modules@, module_parser())),
{
    let mut done: usize = 0;
    while done < modules.len()
        invariant
            done <= modules.len(),
            parse_all(modules@.take(done as int), module_parser()) is Ok,
        decreases modules.len() - done,
    {
        proof {
            lemma_parse_all_step(modules@, module_parser(), done as int);
        }
        match validate_module(&modules[done]) {
            Ok(_) => {},
            Err(error) => {
                proof {
                    lemma_parse_all_error(modules@, module_parser(), done + 1);
                }
                return Err(error);
            },
        }
        done = done + 1;
    }
    assert(modules@.take(done as int) == modules@);
    Ok(())
}

/// Checks a whole tree of messages: every identifier has sixteen bytes and
/// every number of a closed enum names one of its values.
pub fn validate(message: &IrMessage) -> (checked: Result<(), GraphError>)
    ensures
        agrees(checked, parsed_ir(*message)),
{
    match read_uuid(&message.uuid) {
        Ok(_) => {},
        Err(error) => {
            return Err(error);
        },
    }
    validate_modules(&message.modules)
}

} // verus!
