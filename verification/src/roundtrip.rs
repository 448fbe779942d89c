//! What is written can be read: the message of a graph stands for that
//! graph.

use vstd::prelude::*;
use crate::attrs::ByteOrder;
use crate::attrs::FileFormat;
use crate::attrs::ISA;
use crate::attrs::SectionFlag;
use crate::attrs::lemma_wire_round_trip;
use crate::context::Context;
use crate::decode::decode;
use crate::distinct::lemma_tree_uuids_distinct;
use crate::encode::block_printer;
use crate::encode::encode;
use crate::encode::expression_printer;
use crate::encode::flag_numbers;
use crate::encode::flag_numbers_below;
use crate::encode::interval_printer;
use crate::encode::module_printer;
use crate::encode::printed_all;
use crate::encode::printed_interval;
use crate::encode::printed_ir;
use crate::encode::printed_module;
use crate::encode::printed_section;
use crate::encode::printed_symbol;
use crate::encode::section_printer;
use crate::encode::symbol_printer;
use crate::error::GraphError;
use crate::graph::ContextView;
use crate::ident::Uuid;
use crate::ident::lemma_uuid_bytes_round_trip;
use crate::ir::IR;
use crate::message::BlockMessage;
use crate::message::ByteIntervalMessage;
use crate::message::IrMessage;
use crate::message::ModuleMessage;
use crate::message::SectionMessage;
use crate::message::SymbolMessage;
use crate::message::SymbolicExpressionMessage;
use crate::message::block_parser;
use crate::message::expression_parser;
use crate::message::flag_parser;
use crate::message::interval_parser;
use crate::message::lemma_parse_all_ok;
use crate::message::module_parser;
use crate::message::parse_all;
use crate::message::parsed_interval;
use crate::message::parsed_ir;
use crate::message::parsed_module;
use crate::message::parsed_section;
use crate::message::parsed_symbol;
use crate::message::section_parser;
use crate::message::symbol_parser;
use crate::seqs::lemma_push_to_set;
use crate::symbolic_expression::SymbolicExpression;
use crate::tree::IntervalTree;
use crate::tree::IrTree;
use crate::tree::ModuleTree;
use crate::tree::SectionTree;
use crate::tree::SymbolTree;

verus! {

/// A list whose messages stand for the given trees, one for one, stands for
/// the list of those trees.
pub proof fn lemma_parse_all_exact<M, T>(
    messages: Seq<M>,
    trees: Seq<T>,
    parse: spec_fn(M) -> Result<T, GraphError>,
)
    requires
        messages.len() == trees.len(),
        forall|i: int|
            0 <= i < messages.len() ==> #[trigger] parse(messages[i]) == Ok::<T, GraphError>(
                trees[i],
            ),
    ensures
        parse_all(messages, parse) == Ok::<Seq<T>, GraphError>(trees),
{
    lemma_parse_all_ok(messages, parse);
    let read = parse_all(messages, parse)->Ok_0;
    assert forall|i: int| 0 <= i < read.len() implies read[i] == trees[i] by {
        assert(parse(messages[i]) == Ok::<T, GraphError>(read[i]));
    }
    assert(read =~= trees);
}

/// The messages of blocks stand for the identifiers that they were written
/// for.
pub proof fn lemma_blocks_read_back(messages: Seq<BlockMessage>, uuids: Seq<Uuid>)
    requires
        printed_all(messages, uuids, block_printer()),
    ensures
        parse_all(messages, block_parser()) == Ok::<Seq<Uuid>, GraphError>(uuids),
{
    assert forall|i: int| 0 <= i < messages.len() implies #[trigger] block_parser()(messages[i])
        == Ok::<Uuid, GraphError>(uuids[i]) by {
        assert(block_printer()(messages[i], uuids[i]));
        lemma_uuid_bytes_round_trip(uuids[i]);
    }
    lemma_parse_all_exact(messages, uuids, block_parser());
}

/// The message of a symbol stands for the symbol that it was written for.
pub proof fn lemma_symbol_reads_back(message: SymbolMessage, tree: SymbolTree)
    requires
        printed_symbol(message, tree),
    ensures
        parsed_symbol(message) == Ok::<SymbolTree, GraphError>(tree),
{
    lemma_uuid_bytes_round_trip(tree.uuid);
    match tree.attrs.payload {
        Some(crate::symbol::Payload::Referent(uuid)) => {
            lemma_uuid_bytes_round_trip(uuid);
        },
        _ => {},
    }
}

/// The messages of symbols stand for the symbols that they were written
/// for.
pub proof fn lemma_symbols_read_back(messages: Seq<SymbolMessage>, trees: Seq<SymbolTree>)
    requires
        printed_all(messages, trees, symbol_printer()),
    ensures
        parse_all(messages, symbol_parser()) == Ok::<Seq<SymbolTree>, GraphError>(trees),
{
    assert forall|i: int| 0 <= i < messages.len() implies #[trigger] symbol_parser()(
        messages[i],
    ) == Ok::<SymbolTree, GraphError>(trees[i]) by {
        assert(symbol_printer()(messages[i], trees[i]));
        lemma_symbol_reads_back(messages[i], trees[i]);
    }
    lemma_parse_all_exact(messages, trees, symbol_parser());
}

/// The messages of symbolic expressions stand for the expressions that
/// they were written for.
pub proof fn lemma_expressions_read_back(
    messages: Seq<SymbolicExpressionMessage>,
    expressions: Seq<(u64, SymbolicExpression)>,
)
    requires
        printed_all(messages, expressions, expression_printer()),
    ensures
        parse_all(messages, expression_parser()) == Ok::<
            Seq<(u64, SymbolicExpression)>,
            GraphError,
        >(expressions),
{
    assert forall|i: int| 0 <= i < messages.len() implies #[trigger] expression_parser()(
        messages[i],
    ) == Ok::<(u64, SymbolicExpression), GraphError>(expressions[i]) by {
        assert(expression_printer()(messages[i], expressions[i]));
        match expressions[i].1 {
            SymbolicExpression::AddrConst { offset, symbol } => {
                lemma_uuid_bytes_round_trip(symbol);
            },
            SymbolicExpression::AddrAddr { scale, offset, symbol1, symbol2 } => {
                lemma_uuid_bytes_round_trip(symbol1);
                lemma_uuid_bytes_round_trip(symbol2);
            },
        }
    }
    lemma_parse_all_exact(messages, expressions, expression_parser());
}

/// The message of a byte interval stands for the interval that it was
/// written for.
pub proof fn lemma_interval_reads_back(message: ByteIntervalMessage, tree: IntervalTree)
    requires
        printed_interval(message, tree),
    ensures
        parsed_interval(message) == Ok::<IntervalTree, GraphError>(tree),
{
    lemma_uuid_bytes_round_trip(tree.uuid);
    lemma_expressions_read_back(message.symbolic_expressions@, tree.attrs.symbolic_expressions);
    lemma_blocks_read_back(message.code_blocks@, tree.code_blocks);
    lemma_blocks_read_back(message.data_blocks@, tree.data_blocks);
}

/// The messages of byte intervals stand for the intervals that they were
/// written for.
pub proof fn lemma_intervals_read_back(messages: Seq<ByteIntervalMessage>, trees: Seq<IntervalTree>)
    requires
        printed_all(messages, trees, interval_printer()),
    ensures
        parse_all(messages, interval_parser()) == Ok::<Seq<IntervalTree>, GraphError>(trees),
{
    assert forall|i: int| 0 <= i < messages.len() implies #[trigger] interval_parser()(
        messages[i],
    ) == Ok::<IntervalTree, GraphError>(trees[i]) by {
        assert(interval_printer()(messages[i], trees[i]));
        lemma_interval_reads_back(messages[i], trees[i]);
    }
    lemma_parse_all_exact(messages, trees, interval_parser());
}

/// The flags of a set whose numbers lie below the bound.
pub open spec fn flags_below(flags: Set<SectionFlag>, bound: int) -> Set<SectionFlag> {
    Set::new(|flag: SectionFlag| flags.contains(flag) && flag.wire() < bound)
}

/// The numbers written for a set of flags stand for the flags of the set
/// whose numbers lie below the bound.
pub proof fn lemma_flag_numbers_below(flags: Set<SectionFlag>, bound: int)
    requires
        0 <= bound <= 7,
    ensures
        parse_all(flag_numbers_below(flags, bound), flag_parser()) is Ok,
        parse_all(flag_numbers_below(flags, bound), flag_parser())->Ok_0.to_set() == flags_below(
            flags,
            bound,
        ),
    decreases bound,
{
    let numbers = flag_numbers_below(flags, bound);
    if bound == 0 {
        let read = parse_all(numbers, flag_parser())->Ok_0;
        assert(read =~= Seq::<SectionFlag>::empty());
        assert forall|flag: SectionFlag| !flags_below(flags, bound).contains(flag) by {
            assert(flag.wire() >= 0);
        }
        assert(read.to_set() =~= flags_below(flags, bound));
    } else {
        lemma_flag_numbers_below(flags, bound - 1);
        let rest = flag_numbers_below(flags, bound - 1);
        let read = parse_all(rest, flag_parser())->Ok_0;
        let number = (bound - 1) as i32;
        let named = SectionFlag::of_wire(number)->Some_0;
        assert(SectionFlag::of_wire(number) is Some);
        assert(named.wire() == number);
        assert forall|flag: SectionFlag| flag != named implies #[trigger] flag.wire()
            != number by {
            lemma_wire_round_trip(
                FileFormat::FormatUndefined,
                ISA::IsaUndefined,
                ByteOrder::Undefined,
                flag,
            );
        }
        if flags.contains(named) {
            let longer = rest.push(number);
            assert(numbers == longer);
            assert(longer.drop_last() =~= rest);
            assert(longer.last() == number);
            assert(flag_parser()(number) == Ok::<SectionFlag, GraphError>(named));
            assert(parse_all(longer, flag_parser()) == Ok::<Seq<SectionFlag>, GraphError>(
                read.push(named),
            ));
            lemma_push_to_set(read, named);
            assert forall|flag: SectionFlag|
                flags_below(flags, bound - 1).insert(named).contains(flag) == flags_below(
                    flags,
                    bound,
                ).contains(flag) by {
                if flag != named {
                    assert(flag.wire() != number);
                }
            }
            assert(flags_below(flags, bound - 1).insert(named) =~= flags_below(flags, bound));
        } else {
            assert(numbers == rest);
            assert forall|flag: SectionFlag|
                flags_below(flags, bound - 1).contains(flag) == flags_below(
                    flags,
                    bound,
                ).contains(flag) by {
                if flag != named {
                    assert(flag.wire() != number);
                }
            }
            assert(flags_below(flags, bound - 1) =~= flags_below(flags, bound));
        }
    }
}

/// The numbers written for a set of flags stand for that set.
pub proof fn lemma_flags_read_back(flags: Set<SectionFlag>)
    ensures
        parse_all(flag_numbers(flags), flag_parser()) is Ok,
        parse_all(flag_numbers(flags), flag_parser())->Ok_0.to_set() == flags,
{
    lemma_flag_numbers_below(flags, 7);
    assert forall|flag: SectionFlag| flags_below(flags, 7).contains(flag) == flags.contains(
        flag,
    ) by {
        assert(flag.wire() < 7);
    }
    assert(flags_below(flags, 7) =~= flags);
}

/// The message of a section stands for the section that it was written
/// for.
pub proof fn lemma_section_reads_back(message: SectionMessage, tree: SectionTree)
    requires
        printed_section(message, tree),
    ensures
        parsed_section(message) == Ok::<SectionTree, GraphError>(tree),
{
    lemma_uuid_bytes_round_trip(tree.uuid);
    lemma_flags_read_back(tree.attrs.flags);
    lemma_intervals_read_back(message.byte_intervals@, tree.intervals);
}

/// The messages of sections stand for the sections that they were written
/// for.
pub proof fn lemma_sections_read_back(messages: Seq<SectionMessage>, trees: Seq<SectionTree>)
    requires
        printed_all(messages, trees, section_printer()),
    ensures
        parse_all(messages, section_parser()) == Ok::<Seq<SectionTree>, GraphError>(trees),
{
    assert forall|i: int| 0 <= i < messages.len() implies #[trigger] section_parser()(
        messages[i],
    ) == Ok::<SectionTree, GraphError>(trees[i]) by {
        assert(section_printer()(messages[i], trees[i]));
        lemma_section_reads_back(messages[i], trees[i]);
    }
    lemma_parse_all_exact(messages, trees, section_parser());
}

/// The message of a module stands for the module that it was written for.
pub proof fn lemma_module_reads_back(message: ModuleMessage, tree: ModuleTree)
    requires
        printed_module(message, tree),
    ensures
        parsed_module(message) == Ok::<ModuleTree, GraphError>(tree),
{
    lemma_uuid_bytes_round_trip(tree.uuid);
    match tree.attrs.entry_point {
        Some(uuid) => {
            lemma_uuid_bytes_round_trip(uuid);
        },
        None => {},
    }
    lemma_wire_round_trip(
        tree.attrs.file_format,
        tree.attrs.isa,
        tree.attrs.byte_order,
        SectionFlag::SectionUndefined,
    );
    lemma_sections_read_back(message.sections@, tree.sections);
    lemma_symbols_read_back(message.symbols@, tree.symbols);
    lemma_blocks_read_back(message.proxies@, tree.proxies);
}

/// The messages of modules stand for the modules that they were written
/// for.
pub proof fn lemma_modules_read_back(messages: Seq<ModuleMessage>, trees: Seq<ModuleTree>)
    requires
        printed_all(messages, trees, module_printer()),
    ensures
        parse_all(messages, module_parser()) == Ok::<Seq<ModuleTree>, GraphError>(trees),
{
    assert forall|i: int| 0 <= i < messages.len() implies #[trigger] module_parser()(
        messages[i],
    ) == Ok::<ModuleTree, GraphError>(trees[i]) by {
        assert(module_printer()(messages[i], trees[i]));
        lemma_module_reads_back(messages[i], trees[i]);
    }
    lemma_parse_all_exact(messages, trees, module_parser());
}

/// The message of a graph stands for the graph that it was written for.
pub proof fn lemma_ir_reads_back(message: IrMessage, tree: IrTree)
    requires
        printed_ir(message, tree),
    ensures
        parsed_ir(message) == Ok::<IrTree, GraphError>(tree),
{
    lemma_uuid_bytes_round_trip(tree.uuid);
    lemma_modules_read_back(message.modules@, tree.modules);
}

/// The message written for a well-formed context is read as the tree of
/// that context, and no identifier occurs twice in it: the message can be
/// built again.
pub proof fn lemma_round_trip(v: ContextView, message: IrMessage)
    requires
        v.wf(),
        printed_ir(message, v.ir_tree()),
    ensures
        parsed_ir(message) == Ok::<IrTree, GraphError>(v.ir_tree()),
        v.ir_tree().uuids().no_duplicates(),
{
    lemma_ir_reads_back(message, v.ir_tree());
    lemma_tree_uuids_distinct(v);
}

/// Writes a graph and builds it again from what was written, in a context
/// of its own. The new graph has the same identifiers, the same attributes
/// (the identifiers that they hold among them) and the same children in the
/// same order.
pub fn duplicate(ctx: &Context, ir: &IR) -> (copy: Result<(Context, IR), GraphError>)
    requires
        ctx.wf(),
    ensures
        match copy {
            Ok((copy, root)) => {
                &&& ir.valid(ctx)
                &&& copy.wf()
                &&& root.valid(&copy)
                &&& copy@.ir_tree() == ctx@.ir_tree()
            },
            Err(error) => error == GraphError::StaleHandle && !ir.valid(ctx),
        },
{
    let message = match encode(ctx, ir) {
        Ok(message) => message,
        Err(error) => {
            return Err(error);
        },
    };
    proof {
        lemma_round_trip(ctx@, message);
    }
    decode(&message)
}

} // verus!
