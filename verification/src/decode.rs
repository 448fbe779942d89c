//! Builds a graph from a tree of messages.

use vstd::prelude::*;
use crate::addr::Addr;
use crate::byte_interval::ByteIntervalData;
use crate::code_block::CodeBlockData;
use crate::context::Context;
use crate::data_block::DataBlockData;
use crate::error::GraphError;
use crate::graph::ContextView;
use crate::ident::Uuid;
use crate::ident::random_uuid;
use crate::ir::IR;
use crate::ir::IRData;
use crate::kind::NodeKind;
use crate::kind::NodeRef;
use crate::message::BlockMessage;
use crate::message::ByteIntervalMessage;
use crate::message::IrMessage;
use crate::message::ModuleMessage;
use crate::message::SectionMessage;
use crate::message::SymbolMessage;
use crate::message::block_parser;
use crate::message::interval_parser;
use crate::message::lemma_parse_all_ok;
use crate::message::module_parser;
use crate::message::parse_all;
use crate::message::parsed_interval;
use crate::message::parsed_ir;
use crate::message::parsed_module;
use crate::message::parsed_section;
use crate::message::section_parser;
use crate::message::symbol_parser;
use crate::module::ModuleData;
use crate::proxy_block::ProxyBlockData;
use crate::record::Record;
use crate::section::SectionData;
use crate::seqs::lemma_add_to_set;
use crate::seqs::lemma_push_to_set;
use crate::store::Key;
use crate::symbol::SymbolData;
use crate::tree::IntervalTree;
use crate::tree::ModuleTree;
use crate::tree::SectionTree;
use crate::tree::SymbolTree;
use crate::tree::concat;
use crate::tree::lemma_interval_tree_frame;
use crate::tree::lemma_module_tree_frame;
use crate::tree::lemma_section_tree_frame;
use crate::validate::read_entry_point;
use crate::validate::read_enums;
use crate::validate::read_expressions;
use crate::validate::read_flags;
use crate::validate::read_payload;
use crate::validate::read_uuid;
use crate::validate::validate;
use crate::view::Attrs;

verus! {

/// Whether the identifiers differ from one another and from all that are
/// taken.
pub open spec fn fresh(uuids: Seq<Uuid>, taken: Set<Uuid>) -> bool {
    &&& uuids.no_duplicates()
    &&& forall|i: int| 0 <= i < uuids.len() ==> !taken.contains(#[trigger] uuids[i])
}

/// Identifiers in two runs are fresh exactly if the first run is and the
/// second is once those of the first are taken.
pub proof fn lemma_fresh_concat(first: Seq<Uuid>, second: Seq<Uuid>, taken: Set<Uuid>)
    ensures
        fresh(first + second, taken) <==> fresh(first, taken) && fresh(
            second,
            taken + first.to_set(),
        ),
{
    let both = first + second;
    if fresh(both, taken) {
        assert forall|i: int, j: int|
            0 <= i < first.len() && 0 <= j < first.len() && i != j implies first[i]
            != first[j] by {
            assert(both[i] == first[i] && both[j] == first[j]);
        }
        assert forall|i: int| 0 <= i < first.len() implies !taken.contains(#[trigger] first[i]) by {
            assert(both[i] == first[i]);
        }
        assert forall|i: int, j: int|
            0 <= i < second.len() && 0 <= j < second.len() && i != j implies second[i]
            != second[j] by {
            assert(both[first.len() + i] == second[i] && both[first.len() + j] == second[j]);
        }
        assert forall|i: int| 0 <= i < second.len() implies !(taken + first.to_set()).contains(
            #[trigger] second[i],
        ) by {
            assert(both[first.len() + i] == second[i]);
            if first.to_set().contains(second[i]) {
                let k = choose|k: int| 0 <= k < first.len() && first[k] == second[i];
                assert(both[k] == first[k]);
            }
        }
    }
    if fresh(first, taken) && fresh(second, taken + first.to_set()) {
        assert forall|i: int, j: int|
            0 <= i < both.len() && 0 <= j < both.len() && i != j implies both[i] != both[j] by {
            if i < first.len() && j >= first.len() {
                assert(both[j] == second[j - first.len()]);
                assert(first.to_set().contains(first[i]));
            }
            if j < first.len() && i >= first.len() {
                assert(both[i] == second[i - first.len()]);
                assert(first.to_set().contains(first[j]));
            }
            if i >= first.len() && j >= first.len() {
                assert(both[i] == second[i - first.len()]);
                assert(both[j] == second[j - first.len()]);
            }
        }
        assert forall|i: int| 0 <= i < both.len() implies !taken.contains(#[trigger] both[i]) by {
            if i >= first.len() {
                assert(both[i] == second[i - first.len()]);
            }
        }
    }
}

/// The first `n + 1` runs laid end to end are the first `n` laid end to end
/// and then the next.
pub proof fn lemma_concat_step(parts: Seq<Seq<Uuid>>, n: int)
    requires
        0 <= n < parts.len(),
    ensures
        concat(parts.take(n + 1)) == concat(parts.take(n)) + parts[n],
{
    assert(parts.take(n + 1).drop_last() == parts.take(n));
    assert(parts.take(n + 1).last() == parts[n]);
}

/// Runs laid end to end are the first `n` of them laid end to end and then
/// the others.
pub proof fn lemma_concat_split(parts: Seq<Seq<Uuid>>, n: int)
    requires
        0 <= n <= parts.len(),
    ensures
        concat(parts) == concat(parts.take(n)) + concat(parts.skip(n)),
    decreases parts.len(),
{
    if n == parts.len() {
        assert(parts.take(n) == parts);
        assert(parts.skip(n) =~= Seq::<Seq<Uuid>>::empty());
        assert(concat(parts) + Seq::<Uuid>::empty() =~= concat(parts));
    } else {
        let rest = parts.drop_last();
        lemma_concat_split(rest, n);
        assert(rest.take(n) == parts.take(n));
        assert(rest.skip(n) == parts.skip(n).drop_last());
        assert(parts.skip(n).last() == parts.last());
        assert(concat(parts.take(n)) + concat(rest.skip(n)) + parts.last() =~= concat(
            parts.take(n),
        ) + (concat(rest.skip(n)) + parts.last()));
    }
}

impl ContextView {
    /// Whether `after` has every node of `self`, and each of them but
    /// `parent` unchanged.
    pub open spec fn same_but(self, after: ContextView, parent: NodeRef) -> bool {
        &&& after.id == self.id
        &&& after.root == self.root
        &&& forall|node: NodeRef| #[trigger]
            self.nodes.dom().contains(node) ==> after.nodes.dom().contains(node) && (node
                != parent ==> after.nodes[node] == self.nodes[node])
    }

    /// Whether `after` is `self` with the node `child` added as the last
    /// child of `parent`, and possibly nodes below the new one.
    pub open spec fn grown(self, after: ContextView, parent: NodeRef, child: NodeRef) -> bool {
        &&& self.same_but(after, parent)
        &&& !self.live(child)
        &&& after.live(child)
        &&& after.nodes[parent] == self.nodes[parent].with_list(
            child.kind,
            self.nodes[parent].list(child.kind).push(child.key),
        )
    }
}

/// The record of a block of the given kind.
fn block_record(kind: NodeKind, uuid: Uuid) -> (record: Record)
    requires
        kind == NodeKind::CodeBlock || kind == NodeKind::DataBlock || kind == NodeKind::ProxyBlock,
    ensures
        record.kind() == kind,
        record.uuid() == uuid,
{
    match kind {
        NodeKind::CodeBlock => Record::CodeBlock(CodeBlockData { uuid }),
        NodeKind::DataBlock => Record::DataBlock(DataBlockData { uuid }),
        _ => Record::ProxyBlock(ProxyBlockData { uuid }),
    }
}

/// Adds the blocks of the messages, in order, as the last children of
/// `parent`.
pub(crate) fn build_blocks(
    ctx: &mut Context,
    parent: NodeRef,
    kind: NodeKind,
    blocks: &Vec<BlockMessage>,
) -> (built: Result<(), GraphError>)
    requires
        old(ctx).wf(),
        old(ctx)@.live(parent),
        parent.kind.contains_kind(kind),
        kind == NodeKind::CodeBlock || kind == NodeKind::DataBlock || kind == NodeKind::ProxyBlock,
        parse_all(blocks@, block_parser()) is Ok,
    ensures
        match built {
            Ok(_) => {
                let uuids = parse_all(blocks@, block_parser())->Ok_0;
                &&& final(ctx).wf()
                &&& old(ctx)@.same_but(final(ctx)@, parent)
                &&& final(ctx)@.nodes[parent] == old(ctx)@.nodes[parent].with_list(
                    kind,
                    final(ctx)@.nodes[parent].list(kind),
                )
                &&& final(ctx)@.uuids_of(kind, final(ctx)@.nodes[parent].list(kind)) == old(
                    ctx,
                )@.uuids_of(kind, old(ctx)@.nodes[parent].list(kind)) + uuids
                &&& fresh(uuids, old(ctx)@.index.dom())
                &&& final(ctx)@.index.dom() == old(ctx)@.index.dom() + uuids.to_set()
            },
            Err(error) => error == GraphError::DuplicateUuid && !fresh(
                parse_all(blocks@, block_parser())->Ok_0,
                old(ctx)@.index.dom(),
            ),
        },
{
    let ghost uuids = parse_all(blocks@, block_parser())->Ok_0;
    let ghost before = ctx@;
    proof {
        lemma_parse_all_ok(blocks@, block_parser());
        assert(before.nodes.dom().contains(parent));
        assert(before.nodes[parent].kind() == parent.kind);
        assert(before.nodes[parent].shaped());
        assert(parent.kind.contains_kind(kind));
        assert(before.nodes[parent].children.dom().contains(kind));
        assert(before.nodes[parent].list(kind) == before.nodes[parent].children[kind]);
        assert(before.nodes[parent].with_list(kind, before.nodes[parent].list(kind)).children
            =~= before.nodes[parent].children);
        assert(before.uuids_of(kind, before.nodes[parent].list(kind)) + uuids.take(0)
            =~= before.uuids_of(kind, before.nodes[parent].list(kind)));
        assert(before.index.dom() + uuids.take(0).to_set() =~= before.index.dom());
    }
    let mut done: usize = 0;
    while done < blocks.len()
        invariant
            done <= blocks.len(),
            uuids == parse_all(blocks@, block_parser())->Ok_0,
            uuids.len() == blocks.len(),
            forall|i: int|
                0 <= i < blocks.len() ==> block_parser()(blocks@[i]) == Ok::<Uuid, GraphError>(
                    #[trigger] uuids[i],
                ),
            before == old(ctx)@,
            before.wf(),
            parent.kind.contains_kind(kind),
            kind == NodeKind::CodeBlock || kind == NodeKind::DataBlock || kind
                == NodeKind::ProxyBlock,
            ctx.wf(),
            ctx@.live(parent),
            before.live(parent),
            before.same_but(ctx@, parent),
            ctx@.nodes[parent] == before.nodes[parent].with_list(
                kind,
                ctx@.nodes[parent].list(kind),
            ),
            ctx@.uuids_of(kind, ctx@.nodes[parent].list(kind)) == before.uuids_of(
                kind,
                before.nodes[parent].list(kind),
            ) + uuids.take(done as int),
            fresh(uuids.take(done as int), before.index.dom()),
            ctx@.index.dom() == before.index.dom() + uuids.take(done as int).to_set(),
        decreases blocks.len() - done,
    {
        let ghost now = ctx@;
        proof {
            assert(block_parser()(blocks@[done as int]) == Ok::<Uuid, GraphError>(
                uuids[done as int],
            ));
        }
        let uuid = match read_uuid(&blocks[done].uuid) {
            Ok(uuid) => uuid,
            Err(error) => {
                return Err(error);
            },
        };
        match ctx.add_node(parent, block_record(kind, uuid)) {
            Ok(child) => {
                proof {
                    let next = ctx@;
                    let list = now.nodes[parent].list(kind);
                    assert(now.nodes.dom().contains(parent));
                    assert(next.nodes[parent].list(kind) == list.push(child.key));
                    assert(next.nodes[parent].children =~= before.nodes[parent].with_list(
                        kind,
                        next.nodes[parent].list(kind),
                    ).children);
                    assert forall|i: int| 0 <= i < list.len() implies next.nodes[NodeRef {
                        kind,
                        key: list[i],
                    }] == now.nodes[NodeRef { kind, key: list[i] }] by {
                        let node = NodeRef { kind, key: now.nodes[parent].list(kind)[i] };
                        assert(now.nodes.dom().contains(node));
                    }
                    assert(next.uuids_of(kind, list.push(child.key)) =~= now.uuids_of(
                        kind,
                        list,
                    ).push(uuid));
                    assert(uuids.take(done + 1) =~= uuids.take(done as int).push(uuid));
                    assert(now.uuids_of(kind, list).push(uuid) =~= before.uuids_of(
                        kind,
                        before.nodes[parent].list(kind),
                    ) + uuids.take(done + 1));
                    assert(!now.index.dom().contains(uuid));
                    assert(!uuids.take(done as int).to_set().contains(uuid));
                    assert(fresh(uuids.take(done + 1), before.index.dom())) by {
                        lemma_fresh_concat(uuids.take(done as int), seq![uuid], before.index.dom());
                        assert(uuids.take(done as int) + seq![uuid] =~= uuids.take(done + 1));
                    }
                    lemma_push_to_set(uuids.take(done as int), uuid);
                    assert(next.index.dom() =~= before.index.dom() + uuids.take(
                        done + 1,
                    ).to_set());
                }
            },
            Err(error) => {
                proof {
                    assert(now.index.dom().contains(uuid));
                    if fresh(uuids, before.index.dom()) {
                        if before.index.dom().contains(uuid) {
                            assert(false);
                        } else {
                            assert(uuids.take(done as int).to_set().contains(uuid));
                            let i = choose|i: int|
                                0 <= i < done && uuids.take(done as int)[i] == uuid;
                            assert(uuids[i] == uuids[done as int]);
                            assert(false);
                        }
                    }
                }
                return Err(GraphError::DuplicateUuid);
            },
        }
        done = done + 1;
    }
    proof {
        assert(uuids.take(done as int) =~= uuids);
    }
    Ok(())
}

/// Adds the symbols of the messages, in order, as the last symbols of the
/// module `parent`.
pub(crate) fn build_symbols(ctx: &mut Context, parent: NodeRef, symbols: &Vec<SymbolMessage>) -> (built:
    Result<(), GraphError>)
    requires
        old(ctx).wf(),
        old(ctx)@.live(parent),
        parent.kind == NodeKind::Module,
        parse_all(symbols@, symbol_parser()) is Ok,
    ensures
        match built {
            Ok(_) => {
                let trees = parse_all(symbols@, symbol_parser())->Ok_0;
                &&& final(ctx).wf()
                &&& old(ctx)@.same_but(final(ctx)@, parent)
                &&& final(ctx)@.nodes[parent] == old(ctx)@.nodes[parent].with_list(
                    NodeKind::Symbol,
                    final(ctx)@.nodes[parent].list(NodeKind::Symbol),
                )
                &&& final(ctx)@.symbol_trees(final(ctx)@.nodes[parent].list(NodeKind::Symbol))
                    == old(ctx)@.symbol_trees(old(ctx)@.nodes[parent].list(NodeKind::Symbol))
                    + trees
                &&& fresh(SymbolTree::uuids(trees), old(ctx)@.index.dom())
                &&& final(ctx)@.index.dom() == old(ctx)@.index.dom() + SymbolTree::uuids(
                    trees,
                ).to_set()
            },
            Err(error) => error == GraphError::DuplicateUuid && !fresh(
                SymbolTree::uuids(parse_all(symbols@, symbol_parser())->Ok_0),
                old(ctx)@.index.dom(),
            ),
        },
{
    let kind = NodeKind::Symbol;
    let ghost trees = parse_all(symbols@, symbol_parser())->Ok_0;
    let ghost uuids = SymbolTree::uuids(trees);
    let ghost before = ctx@;
    proof {
        lemma_parse_all_ok(symbols@, symbol_parser());
        assert(before.nodes.dom().contains(parent));
        assert(before.nodes[parent].kind() == parent.kind);
        assert(before.nodes[parent].shaped());
        assert(parent.kind.contains_kind(kind));
        assert(before.nodes[parent].children.dom().contains(kind));
        assert(before.nodes[parent].list(kind) == before.nodes[parent].children[kind]);
        assert(before.nodes[parent].with_list(kind, before.nodes[parent].list(kind)).children
            =~= before.nodes[parent].children);
        assert(before.symbol_trees(before.nodes[parent].list(kind)) + trees.take(0)
            =~= before.symbol_trees(before.nodes[parent].list(kind)));
        assert(before.index.dom() + uuids.take(0).to_set() =~= before.index.dom());
    }
    let mut done: usize = 0;
    while done < symbols.len()
        invariant
            done <= symbols.len(),
            kind == NodeKind::Symbol,
            trees == parse_all(symbols@, symbol_parser())->Ok_0,
            uuids == SymbolTree::uuids(trees),
            trees.len() == symbols.len(),
            forall|i: int|
                0 <= i < symbols.len() ==> symbol_parser()(symbols@[i]) == Ok::<
                    SymbolTree,
                    GraphError,
                >(#[trigger] trees[i]),
            before == old(ctx)@,
            before.wf(),
            parent.kind == NodeKind::Module,
            ctx.wf(),
            ctx@.live(parent),
            before.live(parent),
            before.same_but(ctx@, parent),
            ctx@.nodes[parent] == before.nodes[parent].with_list(
                kind,
                ctx@.nodes[parent].list(kind),
            ),
            ctx@.symbol_trees(ctx@.nodes[parent].list(kind)) == before.symbol_trees(
                before.nodes[parent].list(kind),
            ) + trees.take(done as int),
            fresh(uuids.take(done as int), before.index.dom()),
            ctx@.index.dom() == before.index.dom() + uuids.take(done as int).to_set(),
        decreases symbols.len() - done,
    {
        let ghost now = ctx@;
        let ghost tree = trees[done as int];
        proof {
            assert(symbol_parser()(symbols@[done as int]) == Ok::<SymbolTree, GraphError>(tree));
            assert(uuids[done as int] == tree.uuid);
        }
        let message = &symbols[done];
        let payload = match read_payload(&message.payload) {
            Ok(payload) => payload,
            Err(error) => {
                return Err(error);
            },
        };
        let uuid = match read_uuid(&message.uuid) {
            Ok(uuid) => uuid,
            Err(error) => {
                return Err(error);
            },
        };
        let record = Record::Symbol(SymbolData { uuid, name: message.name.clone(), payload });
        proof {
            assert(record.attrs() == Attrs::Symbol(tree.attrs));
        }
        match ctx.add_node(parent, record) {
            Ok(child) => {
                proof {
                    let next = ctx@;
                    let list = now.nodes[parent].list(kind);
                    assert(now.nodes.dom().contains(parent));
                    assert(next.nodes[parent].list(kind) == list.push(child.key));
                    assert(next.nodes[parent].children =~= before.nodes[parent].with_list(
                        kind,
                        next.nodes[parent].list(kind),
                    ).children);
                    assert forall|i: int| 0 <= i < list.len() implies next.nodes[NodeRef {
                        kind,
                        key: list[i],
                    }] == now.nodes[NodeRef { kind, key: list[i] }] by {
                        let node = NodeRef { kind, key: now.nodes[parent].list(kind)[i] };
                        assert(now.nodes.dom().contains(node));
                    }
                    assert(next.symbol_tree(child.key) == tree);
                    assert(next.symbol_trees(list.push(child.key)) =~= now.symbol_trees(
                        list,
                    ).push(tree));
                    assert(trees.take(done + 1) =~= trees.take(done as int).push(tree));
                    assert(uuids.take(done + 1) =~= uuids.take(done as int).push(uuid));
                    assert(now.symbol_trees(list).push(tree) =~= before.symbol_trees(
                        before.nodes[parent].list(kind),
                    ) + trees.take(done + 1));
                    assert(!now.index.dom().contains(uuid));
                    assert(!uuids.take(done as int).to_set().contains(uuid));
                    assert(fresh(uuids.take(done + 1), before.index.dom())) by {
                        lemma_fresh_concat(uuids.take(done as int), seq![uuid], before.index.dom());
                        assert(uuids.take(done as int) + seq![uuid] =~= uuids.take(done + 1));
                    }
                    lemma_push_to_set(uuids.take(done as int), uuid);
                    assert(next.index.dom() =~= before.index.dom() + uuids.take(
                        done + 1,
                    ).to_set());
                }
            },
            Err(error) => {
                proof {
                    assert(now.index.dom().contains(uuid));
                    if fresh(uuids, before.index.dom()) {
                        if before.index.dom().contains(uuid) {
                            assert(false);
                        } else {
                            assert(uuids.take(done as int).to_set().contains(uuid));
                            let i = choose|i: int|
                                0 <= i < done && uuids.take(done as int)[i] == uuid;
                            assert(uuids[i] == uuids[done as int]);
                            assert(false);
                        }
                    }
                }
                return Err(GraphError::DuplicateUuid);
            },
        }
        done = done + 1;
    }
    proof {
        assert(uuids.take(done as int) =~= uuids);
        assert(trees.take(done as int) =~= trees);
    }
    Ok(())
}

/// Adds the byte interval of the message, with its blocks, as the last
/// byte interval of the section `parent`.
pub(crate) fn build_interval(ctx: &mut Context, parent: NodeRef, message: &ByteIntervalMessage) -> (built:
    Result<NodeRef, GraphError>)
    requires
        old(ctx).wf(),
        old(ctx)@.live(parent),
        parent.kind == NodeKind::Section,
        parsed_interval(*message) is Ok,
    ensures
        match built {
            Ok(child) => {
                let tree = parsed_interval(*message)->Ok_0;
                &&& final(ctx).wf()
                &&& child.kind == NodeKind::ByteInterval
                &&& old(ctx)@.grown(final(ctx)@, parent, child)
                &&& final(ctx)@.interval_tree(child.key) == tree
                &&& fresh(tree.uuids(), old(ctx)@.index.dom())
                &&& final(ctx)@.index.dom() == old(ctx)@.index.dom() + tree.uuids().to_set()
            },
            Err(error) => error == GraphError::DuplicateUuid && !fresh(
                parsed_interval(*message)->Ok_0.uuids(),
                old(ctx)@.index.dom(),
            ),
        },
{
    let ghost tree = parsed_interval(*message)->Ok_0;
    let ghost before = ctx@;
    let ghost taken = before.index.dom();
    let uuid = match read_uuid(&message.uuid) {
        Ok(uuid) => uuid,
        Err(error) => {
            return Err(error);
        },
    };
    let symbolic_expressions = match read_expressions(&message.symbolic_expressions) {
        Ok(expressions) => expressions,
        Err(error) => {
            return Err(error);
        },
    };
    let record = Record::ByteInterval(
        ByteIntervalData {
            uuid,
            size: message.size,
            address: if message.has_address {
                Some(Addr(message.address))
            } else {
                None
            },
            bytes: message.contents.clone(),
            symbolic_expressions,
        },
    );
    proof {
        assert(before.nodes.dom().contains(parent));
        assert(record.attrs() == Attrs::ByteInterval(tree.attrs));
        lemma_fresh_concat(seq![uuid] + tree.code_blocks, tree.data_blocks, taken);
        lemma_fresh_concat(seq![uuid], tree.code_blocks, taken);
        lemma_add_to_set(seq![uuid] + tree.code_blocks, tree.data_blocks);
        lemma_add_to_set(seq![uuid], tree.code_blocks);
        assert(seq![uuid].to_set() =~= Set::empty().insert(uuid)) by {
            lemma_push_to_set(Seq::<Uuid>::empty(), uuid);
            assert(Seq::<Uuid>::empty().push(uuid) =~= seq![uuid]);
            assert(Seq::<Uuid>::empty().to_set() =~= Set::empty());
        }
        assert(seq![uuid][0] == uuid);
    }
    let child = match ctx.add_node(parent, record) {
        Ok(child) => child,
        Err(error) => {
            proof {
                assert(taken.contains(seq![uuid][0]));
            }
            return Err(GraphError::DuplicateUuid);
        },
    };
    let ghost first = ctx@;
    proof {
        assert(first.index.dom() =~= taken + seq![uuid].to_set());
        assert(first.nodes[child].list(NodeKind::CodeBlock) =~= Seq::<Key>::empty());
        assert(first.nodes[child].list(NodeKind::DataBlock) =~= Seq::<Key>::empty());
        assert(fresh(seq![uuid], taken));
    }
    match build_blocks(ctx, child, NodeKind::CodeBlock, &message.code_blocks) {
        Ok(_) => {},
        Err(error) => {
            return Err(error);
        },
    }
    let ghost second = ctx@;
    proof {
        assert(first.nodes.dom().contains(child));
        assert(first.nodes.dom().contains(parent));
        assert(second.nodes.dom().contains(child));
        assert(second.nodes[child].list(NodeKind::DataBlock) =~= Seq::<Key>::empty());
        assert(first.uuids_of(NodeKind::CodeBlock, Seq::<Key>::empty()) + tree.code_blocks
            =~= tree.code_blocks);
    }
    match build_blocks(ctx, child, NodeKind::DataBlock, &message.data_blocks) {
        Ok(_) => {},
        Err(error) => {
            return Err(error);
        },
    }
    proof {
        let last = ctx@;
        assert(second.nodes.dom().contains(parent));
        let code = second.nodes[child].list(NodeKind::CodeBlock);
        assert(last.nodes[child].list(NodeKind::CodeBlock) == code);
        assert forall|i: int| 0 <= i < code.len() implies last.nodes[NodeRef {
            kind: NodeKind::CodeBlock,
            key: code[i],
        }] == second.nodes[NodeRef { kind: NodeKind::CodeBlock, key: code[i] }] by {
            let node = NodeRef {
                kind: NodeKind::CodeBlock,
                key: second.nodes[child].list(NodeKind::CodeBlock)[i],
            };
            assert(second.nodes.dom().contains(node));
        }
        assert(last.uuids_of(NodeKind::CodeBlock, code) =~= second.uuids_of(
            NodeKind::CodeBlock,
            code,
        ));
        assert(second.uuids_of(NodeKind::DataBlock, Seq::<Key>::empty()) + tree.data_blocks
            =~= tree.data_blocks);
        assert(last.interval_tree(child.key) == tree);
        assert(last.index.dom() =~= taken + tree.uuids().to_set());
        assert forall|node: NodeRef| #[trigger] before.nodes.dom().contains(node) implies last.nodes.dom().contains(
            node,
        ) && (node != parent ==> last.nodes[node] == before.nodes[node]) by {
            assert(first.nodes.dom().contains(node));
            assert(second.nodes.dom().contains(node));
        }
    }
    Ok(child)
}

/// Adds the byte intervals of the messages, in order and each with what lies
/// below it, as the last byte intervals of `parent`.
pub(crate) fn build_intervals(ctx: &mut Context, parent: NodeRef, messages: &Vec<ByteIntervalMessage>) -> (built: Result<
    (),
    GraphError,
>)
    requires
        old(ctx).wf(),
        old(ctx)@.live(parent),
        parent.kind == NodeKind::Section,
        parse_all(messages@, interval_parser()) is Ok,
    ensures
        match built {
            Ok(_) => {
                let trees = parse_all(messages@, interval_parser())->Ok_0;
                &&& final(ctx).wf()
                &&& old(ctx)@.same_but(final(ctx)@, parent)
                &&& final(ctx)@.nodes[parent] == old(ctx)@.nodes[parent].with_list(
                    NodeKind::ByteInterval,
                    final(ctx)@.nodes[parent].list(NodeKind::ByteInterval),
                )
                &&& final(ctx)@.interval_trees(final(ctx)@.nodes[parent].list(NodeKind::ByteInterval)) == old(
                    ctx,
                )@.interval_trees(old(ctx)@.nodes[parent].list(NodeKind::ByteInterval)) + trees
                &&& fresh(concat(IntervalTree::parts(trees)), old(ctx)@.index.dom())
                &&& final(ctx)@.index.dom() == old(ctx)@.index.dom() + concat(
                    IntervalTree::parts(trees),
                ).to_set()
            },
            Err(error) => error == GraphError::DuplicateUuid && !fresh(
                concat(IntervalTree::parts(parse_all(messages@, interval_parser())->Ok_0)),
                old(ctx)@.index.dom(),
            ),
        },
{
    let kind = NodeKind::ByteInterval;
    let ghost trees = parse_all(messages@, interval_parser())->Ok_0;
    let ghost parts = IntervalTree::parts(trees);
    let ghost before = ctx@;
    let ghost taken = before.index.dom();
    proof {
        lemma_parse_all_ok(messages@, interval_parser());
        assert(before.nodes.dom().contains(parent));
        assert(before.nodes[parent].kind() == parent.kind);
        assert(before.nodes[parent].shaped());
        assert(parent.kind.contains_kind(kind));
        assert(before.nodes[parent].children.dom().contains(kind));
        assert(before.nodes[parent].list(kind) == before.nodes[parent].children[kind]);
        assert(before.nodes[parent].with_list(kind, before.nodes[parent].list(kind)).children
            =~= before.nodes[parent].children);
        assert(before.interval_trees(before.nodes[parent].list(kind)) + trees.take(0)
            =~= before.interval_trees(before.nodes[parent].list(kind)));
        assert(parts.take(0) =~= Seq::<Seq<Uuid>>::empty());
        assert(taken + concat(parts.take(0)).to_set() =~= taken);
    }
    let mut done: usize = 0;
    while done < messages.len()
        invariant
            done <= messages.len(),
            kind == NodeKind::ByteInterval,
            trees == parse_all(messages@, interval_parser())->Ok_0,
            parts == IntervalTree::parts(trees),
            trees.len() == messages.len(),
            forall|i: int|
                0 <= i < messages.len() ==> interval_parser()(messages@[i]) == Ok::<
                    IntervalTree,
                    GraphError,
                >(#[trigger] trees[i]),
            before == old(ctx)@,
            taken == before.index.dom(),
            before.wf(),
            parent.kind == NodeKind::Section,
            ctx.wf(),
            ctx@.live(parent),
            before.live(parent),
            before.same_but(ctx@, parent),
            ctx@.nodes[parent] == before.nodes[parent].with_list(
                kind,
                ctx@.nodes[parent].list(kind),
            ),
            ctx@.interval_trees(ctx@.nodes[parent].list(kind)) == before.interval_trees(
                before.nodes[parent].list(kind),
            ) + trees.take(done as int),
            fresh(concat(parts.take(done as int)), taken),
            ctx@.index.dom() == taken + concat(parts.take(done as int)).to_set(),
        decreases messages.len() - done,
    {
        let ghost now = ctx@;
        let ghost tree = trees[done as int];
        proof {
            assert(interval_parser()(messages@[done as int]) == Ok::<IntervalTree, GraphError>(tree));
            assert(parts[done as int] == tree.uuids());
            lemma_concat_step(parts, done as int);
            lemma_fresh_concat(concat(parts.take(done as int)), tree.uuids(), taken);
            lemma_add_to_set(concat(parts.take(done as int)), tree.uuids());
        }
        match build_interval(ctx, parent, &messages[done]) {
            Ok(child) => {
                proof {
                    let next = ctx@;
                    let list = now.nodes[parent].list(kind);
                    assert(now.nodes.dom().contains(parent));
                    assert(next.nodes[parent].list(kind) == list.push(child.key));
                    assert(next.nodes[parent].children =~= before.nodes[parent].with_list(
                        kind,
                        next.nodes[parent].list(kind),
                    ).children);
                    assert(now.same_below(next, 3));
                    assert forall|i: int| 0 <= i < list.len() implies next.interval_tree(list[i])
                        == now.interval_tree(list[i]) by {
                        let node = NodeRef { kind, key: now.nodes[parent].list(kind)[i] };
                        assert(now.nodes.dom().contains(node));
                        lemma_interval_tree_frame(now, next, list[i]);
                    }
                    assert(next.interval_trees(list.push(child.key)) =~= now.interval_trees(list).push(tree));
                    assert(trees.take(done + 1) =~= trees.take(done as int).push(tree));
                    assert(now.interval_trees(list).push(tree) =~= before.interval_trees(
                        before.nodes[parent].list(kind),
                    ) + trees.take(done + 1));
                    assert(next.index.dom() =~= taken + concat(parts.take(done + 1)).to_set());
                    assert forall|node: NodeRef| #[trigger]
                        before.nodes.dom().contains(node) implies next.nodes.dom().contains(node)
                        && (node != parent ==> next.nodes[node] == before.nodes[node]) by {
                        assert(now.nodes.dom().contains(node));
                    }
                }
            },
            Err(error) => {
                proof {
                    if fresh(concat(parts), taken) {
                        lemma_concat_split(parts, done + 1);
                        lemma_fresh_concat(
                            concat(parts.take(done + 1)),
                            concat(parts.skip(done + 1)),
                            taken,
                        );
                        assert(false);
                    }
                }
                return Err(GraphError::DuplicateUuid);
            },
        }
        done = done + 1;
    }
    proof {
        assert(parts.take(done as int) =~= parts);
        assert(trees.take(done as int) =~= trees);
    }
    Ok(())
}

/// Adds the section of the message, with what lies below it, as the last
/// section of the module `parent`.
pub(crate) fn build_section(ctx: &mut Context, parent: NodeRef, message: &SectionMessage) -> (built:
    Result<NodeRef, GraphError>)
    requires
        old(ctx).wf(),
        old(ctx)@.live(parent),
        parent.kind == NodeKind::Module,
        parsed_section(*message) is Ok,
    ensures
        match built {
            Ok(child) => {
                let tree = parsed_section(*message)->Ok_0;
                &&& final(ctx).wf()
                &&& child.kind == NodeKind::Section
                &&& old(ctx)@.grown(final(ctx)@, parent, child)
                &&& final(ctx)@.section_tree(child.key) == tree
                &&& fresh(tree.uuids(), old(ctx)@.index.dom())
                &&& final(ctx)@.index.dom() == old(ctx)@.index.dom() + tree.uuids().to_set()
            },
            Err(error) => error == GraphError::DuplicateUuid && !fresh(
                parsed_section(*message)->Ok_0.uuids(),
                old(ctx)@.index.dom(),
            ),
        },
{
    let ghost tree = parsed_section(*message)->Ok_0;
    let ghost before = ctx@;
    let ghost taken = before.index.dom();
    let ghost below = concat(IntervalTree::parts(tree.intervals));
    let flags = match read_flags(&message.section_flags) {
        Ok(flags) => flags,
        Err(error) => {
            return Err(error);
        },
    };
    let uuid = match read_uuid(&message.uuid) {
        Ok(uuid) => uuid,
        Err(error) => {
            return Err(error);
        },
    };
    let record = Record::Section(SectionData { uuid, name: message.name.clone(), flags });
    proof {
        assert(before.nodes.dom().contains(parent));
        assert(record.attrs() == Attrs::Section(tree.attrs));
        lemma_fresh_concat(seq![uuid], below, taken);
        lemma_add_to_set(seq![uuid], below);
        assert(seq![uuid].to_set() =~= Set::empty().insert(uuid)) by {
            lemma_push_to_set(Seq::<Uuid>::empty(), uuid);
            assert(Seq::<Uuid>::empty().push(uuid) =~= seq![uuid]);
            assert(Seq::<Uuid>::empty().to_set() =~= Set::empty());
        }
        assert(seq![uuid][0] == uuid);
    }
    let child = match ctx.add_node(parent, record) {
        Ok(child) => child,
        Err(error) => {
            proof {
                assert(taken.contains(seq![uuid][0]));
            }
            return Err(GraphError::DuplicateUuid);
        },
    };
    let ghost first = ctx@;
    proof {
        assert(first.index.dom() =~= taken + seq![uuid].to_set());
        assert(first.nodes[child].list(NodeKind::ByteInterval) =~= Seq::<Key>::empty());
        assert(fresh(seq![uuid], taken));
        assert(first.interval_trees(Seq::<Key>::empty()) + tree.intervals =~= tree.intervals);
    }
    match build_intervals(ctx, child, &message.byte_intervals) {
        Ok(_) => {},
        Err(error) => {
            return Err(error);
        },
    }
    proof {
        let last = ctx@;
        assert(first.nodes.dom().contains(child));
        assert(first.nodes.dom().contains(parent));
        assert(last.section_tree(child.key) == tree);
        assert(last.index.dom() =~= taken + tree.uuids().to_set());
        assert forall|node: NodeRef| #[trigger] before.nodes.dom().contains(node) implies last.nodes.dom().contains(
            node,
        ) && (node != parent ==> last.nodes[node] == before.nodes[node]) by {
            assert(first.nodes.dom().contains(node));
        }
    }
    Ok(child)
}

/// Adds the sections of the messages, in order and each with what lies
/// below it, as the last sections of `parent`.
pub(crate) fn build_sections(ctx: &mut Context, parent: NodeRef, messages: &Vec<SectionMessage>) -> (built: Result<
    (),
    GraphError,
>)
    requires
        old(ctx).wf(),
        old(ctx)@.live(parent),
        parent.kind == NodeKind::Module,
        parse_all(messages@, section_parser()) is Ok,
    ensures
        match built {
            Ok(_) => {
                let trees = parse_all(messages@, section_parser())->Ok_0;
                &&& final(ctx).wf()
                &&& old(ctx)@.same_but(final(ctx)@, parent)
                &&& final(ctx)@.nodes[parent] == old(ctx)@.nodes[parent].with_list(
                    NodeKind::Section,
                    final(ctx)@.nodes[parent].list(NodeKind::Section),
                )
                &&& final(ctx)@.section_trees(final(ctx)@.nodes[parent].list(NodeKind::Section)) == old(
                    ctx,
                )@.section_trees(old(ctx)@.nodes[parent].list(NodeKind::Section)) + trees
                &&& fresh(concat(SectionTree::parts(trees)), old(ctx)@.index.dom())
                &&& final(ctx)@.index.dom() == old(ctx)@.index.dom() + concat(
                    SectionTree::parts(trees),
                ).to_set()
            },
            Err(error) => error == GraphError::DuplicateUuid && !fresh(
                concat(SectionTree::parts(parse_all(messages@, section_parser())->Ok_0)),
                old(ctx)@.index.dom(),
            ),
        },
{
    let kind = NodeKind::Section;
    let ghost trees = parse_all(messages@, section_parser())->Ok_0;
    let ghost parts = SectionTree::parts(trees);
    let ghost before = ctx@;
    let ghost taken = before.index.dom();
    proof {
        lemma_parse_all_ok(messages@, section_parser());
        assert(before.nodes.dom().contains(parent));
        assert(before.nodes[parent].kind() == parent.kind);
        assert(before.nodes[parent].shaped());
        assert(parent.kind.contains_kind(kind));
        assert(before.nodes[parent].children.dom().contains(kind));
        assert(before.nodes[parent].list(kind) == before.nodes[parent].children[kind]);
        assert(before.nodes[parent].with_list(kind, before.nodes[parent].list(kind)).children
            =~= before.nodes[parent].children);
        assert(before.section_trees(before.nodes[parent].list(kind)) + trees.take(0)
            =~= before.section_trees(before.nodes[parent].list(kind)));
        assert(parts.take(0) =~= Seq::<Seq<Uuid>>::empty());
        assert(taken + concat(parts.take(0)).to_set() =~= taken);
    }
    let mut done: usize = 0;
    while done < messages.len()
        invariant
            done <= messages.len(),
            kind == NodeKind::Section,
            trees == parse_all(messages@, section_parser())->Ok_0,
            parts == SectionTree::parts(trees),
            trees.len() == messages.len(),
            forall|i: int|
                0 <= i < messages.len() ==> section_parser()(messages@[i]) == Ok::<
                    SectionTree,
                    GraphError,
                >(#[trigger] trees[i]),
            before == old(ctx)@,
            taken == before.index.dom(),
            before.wf(),
            parent.kind == NodeKind::Module,
            ctx.wf(),
            ctx@.live(parent),
            before.live(parent),
            before.same_but(ctx@, parent),
            ctx@.nodes[parent] == before.nodes[parent].with_list(
                kind,
                ctx@.nodes[parent].list(kind),
            ),
            ctx@.section_trees(ctx@.nodes[parent].list(kind)) == before.section_trees(
                before.nodes[parent].list(kind),
            ) + trees.take(done as int),
            fresh(concat(parts.take(done as int)), taken),
            ctx@.index.dom() == taken + concat(parts.take(done as int)).to_set(),
        decreases messages.len() - done,
    {
        let ghost now = ctx@;
        let ghost tree = trees[done as int];
        proof {
            assert(section_parser()(messages@[done as int]) == Ok::<SectionTree, GraphError>(tree));
            assert(parts[done as int] == tree.uuids());
            lemma_concat_step(parts, done as int);
            lemma_fresh_concat(concat(parts.take(done as int)), tree.uuids(), taken);
            lemma_add_to_set(concat(parts.take(done as int)), tree.uuids());
        }
        match build_section(ctx, parent, &messages[done]) {
            Ok(child) => {
                proof {
                    let next = ctx@;
                    let list = now.nodes[parent].list(kind);
                    assert(now.nodes.dom().contains(parent));
                    assert(next.nodes[parent].list(kind) == list.push(child.key));
                    assert(next.nodes[parent].children =~= before.nodes[parent].with_list(
                        kind,
                        next.nodes[parent].list(kind),
                    ).children);
                    assert(now.same_below(next, 2));
                    assert forall|i: int| 0 <= i < list.len() implies next.section_tree(list[i])
                        == now.section_tree(list[i]) by {
                        let node = NodeRef { kind, key: now.nodes[parent].list(kind)[i] };
                        assert(now.nodes.dom().contains(node));
                        lemma_section_tree_frame(now, next, list[i]);
                    }
                    assert(next.section_trees(list.push(child.key)) =~= now.section_trees(list).push(tree));
                    assert(trees.take(done + 1) =~= trees.take(done as int).push(tree));
                    assert(now.section_trees(list).push(tree) =~= before.section_trees(
                        before.nodes[parent].list(kind),
                    ) + trees.take(done + 1));
                    assert(next.index.dom() =~= taken + concat(parts.take(done + 1)).to_set());
                    assert forall|node: NodeRef| #[trigger]
                        before.nodes.dom().contains(node) implies next.nodes.dom().contains(node)
                        && (node != parent ==> next.nodes[node] == before.nodes[node]) by {
                        assert(now.nodes.dom().contains(node));
                    }
                }
            },
            Err(error) => {
                proof {
                    if fresh(concat(parts), taken) {
                        lemma_concat_split(parts, done + 1);
                        lemma_fresh_concat(
                            concat(parts.take(done + 1)),
                            concat(parts.skip(done + 1)),
                            taken,
                        );
                        assert(false);
                    }
                }
                return Err(GraphError::DuplicateUuid);
            },
        }
        done = done + 1;
    }
    proof {
        assert(parts.take(done as int) =~= parts);
        assert(trees.take(done as int) =~= trees);
    }
    Ok(())
}

/// Adds the module of the message, with what lies below it, as the last
/// module of the IR `parent`.
pub(crate) fn build_module(ctx: &mut Context, parent: NodeRef, message: &ModuleMessage) -> (built:
    Result<NodeRef, GraphError>)
    requires
        old(ctx).wf(),
        old(ctx)@.live(parent),
        parent.kind == NodeKind::Ir,
        parsed_module(*message) is Ok,
    ensures
        match built {
            Ok(child) => {
                let tree = parsed_module(*message)->Ok_0;
                &&& final(ctx).wf()
                &&& child.kind == NodeKind::Module
                &&& old(ctx)@.grown(final(ctx)@, parent, child)
                &&& final(ctx)@.module_tree(child.key) == tree
                &&& fresh(tree.uuids(), old(ctx)@.index.dom())
                &&& final(ctx)@.index.dom() == old(ctx)@.index.dom() + tree.uuids().to_set()
            },
            Err(error) => error == GraphError::DuplicateUuid && !fresh(
                parsed_module(*message)->Ok_0.uuids(),
                old(ctx)@.index.dom(),
            ),
        },
{
    let ghost tree = parsed_module(*message)->Ok_0;
    let ghost before = ctx@;
    let ghost taken = before.index.dom();
    let ghost below = concat(SectionTree::parts(tree.sections));
    let ghost names = SymbolTree::uuids(tree.symbols);
    let (file_format, isa, byte_order) = match read_enums(message) {
        Ok(enums) => enums,
        Err(error) => {
            return Err(error);
        },
    };
    let uuid = match read_uuid(&message.uuid) {
        Ok(uuid) => uuid,
        Err(error) => {
            return Err(error);
        },
    };
    let entry_point = match read_entry_point(&message.entry_point) {
        Ok(entry_point) => entry_point,
        Err(error) => {
            return Err(error);
        },
    };
    let record = Record::Module(
        ModuleData {
            uuid,
            name: message.name.clone(),
            binary_path: message.binary_path.clone(),
            entry_point,
            byte_order,
            isa,
            rebase_delta: message.rebase_delta,
            preferred_address: Addr(message.preferred_addr),
            file_format,
        },
    );
    proof {
        assert(before.nodes.dom().contains(parent));
        assert(record.attrs() == Attrs::Module(tree.attrs));
        lemma_fresh_concat(seq![uuid] + below + names, tree.proxies, taken);
        lemma_fresh_concat(seq![uuid] + below, names, taken);
        lemma_fresh_concat(seq![uuid], below, taken);
        lemma_add_to_set(seq![uuid] + below + names, tree.proxies);
        lemma_add_to_set(seq![uuid] + below, names);
        lemma_add_to_set(seq![uuid], below);
        assert(seq![uuid].to_set() =~= Set::empty().insert(uuid)) by {
            lemma_push_to_set(Seq::<Uuid>::empty(), uuid);
            assert(Seq::<Uuid>::empty().push(uuid) =~= seq![uuid]);
            assert(Seq::<Uuid>::empty().to_set() =~= Set::empty());
        }
        assert(seq![uuid][0] == uuid);
    }
    let child = match ctx.add_node(parent, record) {
        Ok(child) => child,
        Err(error) => {
            proof {
                assert(taken.contains(seq![uuid][0]));
            }
            return Err(GraphError::DuplicateUuid);
        },
    };
    let ghost first = ctx@;
    proof {
        assert(first.index.dom() =~= taken + seq![uuid].to_set());
        assert(first.nodes[child].list(NodeKind::Section) =~= Seq::<Key>::empty());
        assert(first.nodes[child].list(NodeKind::Symbol) =~= Seq::<Key>::empty());
        assert(first.nodes[child].list(NodeKind::ProxyBlock) =~= Seq::<Key>::empty());
        assert(fresh(seq![uuid], taken));
        assert(first.section_trees(Seq::<Key>::empty()) + tree.sections =~= tree.sections);
    }
    match build_sections(ctx, child, &message.sections) {
        Ok(_) => {},
        Err(error) => {
            return Err(error);
        },
    }
    let ghost second = ctx@;
    proof {
        assert(first.nodes.dom().contains(child));
        assert(first.nodes.dom().contains(parent));
        assert(second.nodes.dom().contains(child));
        assert(second.nodes[child].list(NodeKind::Symbol) =~= Seq::<Key>::empty());
        assert(second.nodes[child].list(NodeKind::ProxyBlock) =~= Seq::<Key>::empty());
        assert(second.symbol_trees(Seq::<Key>::empty()) + tree.symbols =~= tree.symbols);
        assert(second.index.dom() =~= taken + (seq![uuid] + below).to_set());
    }
    match build_symbols(ctx, child, &message.symbols) {
        Ok(_) => {},
        Err(error) => {
            return Err(error);
        },
    }
    let ghost third = ctx@;
    proof {
        assert(second.nodes.dom().contains(parent));
        assert(third.nodes.dom().contains(child));
        assert(third.nodes[child].list(NodeKind::ProxyBlock) =~= Seq::<Key>::empty());
        assert(third.uuids_of(NodeKind::ProxyBlock, Seq::<Key>::empty()) + tree.proxies
            =~= tree.proxies);
        assert(third.index.dom() =~= taken + (seq![uuid] + below + names).to_set());
    }
    match build_blocks(ctx, child, NodeKind::ProxyBlock, &message.proxies) {
        Ok(_) => {},
        Err(error) => {
            return Err(error);
        },
    }
    proof {
        let last = ctx@;
        assert(third.nodes.dom().contains(parent));
        let sections = second.nodes[child].list(NodeKind::Section);
        assert(third.nodes[child].list(NodeKind::Section) == sections);
        assert(last.nodes[child].list(NodeKind::Section) == sections);
        assert(second.same_below(last, 2)) by {
            assert forall|node: NodeRef| #[trigger]
                second.nodes.dom().contains(node) && node.kind.depth()
                >= 2 implies last.nodes.dom().contains(node) && last.nodes[node]
                == second.nodes[node] by {
                assert(third.nodes.dom().contains(node));
            }
        }
        assert forall|i: int| 0 <= i < sections.len() implies last.section_tree(sections[i])
            == second.section_tree(sections[i]) by {
            let node = NodeRef {
                kind: NodeKind::Section,
                key: second.nodes[child].list(NodeKind::Section)[i],
            };
            assert(second.nodes.dom().contains(node));
            lemma_section_tree_frame(second, last, sections[i]);
        }
        assert(last.section_trees(sections) =~= second.section_trees(sections));
        let symbols = third.nodes[child].list(NodeKind::Symbol);
        assert(last.nodes[child].list(NodeKind::Symbol) == symbols);
        assert forall|i: int| 0 <= i < symbols.len() implies last.symbol_tree(symbols[i])
            == third.symbol_tree(symbols[i]) by {
            let node = NodeRef {
                kind: NodeKind::Symbol,
                key: third.nodes[child].list(NodeKind::Symbol)[i],
            };
            assert(third.nodes.dom().contains(node));
        }
        assert(last.symbol_trees(symbols) =~= third.symbol_trees(symbols));
        assert(last.module_tree(child.key) == tree);
        assert(last.index.dom() =~= taken + tree.uuids().to_set());
        assert forall|node: NodeRef| #[trigger] before.nodes.dom().contains(node) implies last.nodes.dom().contains(
            node,
        ) && (node != parent ==> last.nodes[node] == before.nodes[node]) by {
            assert(first.nodes.dom().contains(node));
            assert(second.nodes.dom().contains(node));
            assert(third.nodes.dom().contains(node));
        }
    }
    Ok(child)
}

/// Adds the modules of the messages, in order and each with what lies
/// below it, as the last modules of `parent`.
pub(crate) fn build_modules(ctx: &mut Context, parent: NodeRef, messages: &Vec<ModuleMessage>) -> (built: Result<
    (),
    GraphError,
>)
    requires
        old(ctx).wf(),
        old(ctx)@.live(parent),
        parent.kind == NodeKind::Ir,
        parse_all(messages@, module_parser()) is Ok,
    ensures
        match built {
            Ok(_) => {
                let trees = parse_all(messages@, module_parser())->Ok_0;
                &&& final(ctx).wf()
                &&& old(ctx)@.same_but(final(ctx)@, parent)
                &&& final(ctx)@.nodes[parent] == old(ctx)@.nodes[parent].with_list(
                    NodeKind::Module,
                    final(ctx)@.nodes[parent].list(NodeKind::Module),
                )
                &&& final(ctx)@.module_trees(final(ctx)@.nodes[parent].list(NodeKind::Module)) == old(
                    ctx,
                )@.module_trees(old(ctx)@.nodes[parent].list(NodeKind::Module)) + trees
                &&& fresh(concat(ModuleTree::parts(trees)), old(ctx)@.index.dom())
                &&& final(ctx)@.index.dom() == old(ctx)@.index.dom() + concat(
                    ModuleTree::parts(trees),
                ).to_set()
            },
            Err(error) => error == GraphError::DuplicateUuid && !fresh(
                concat(ModuleTree::parts(parse_all(messages@, module_parser())->Ok_0)),
                old(ctx)@.index.dom(),
            ),
        },
{
    let kind = NodeKind::Module;
    let ghost trees = parse_all(messages@, module_parser())->Ok_0;
    let ghost parts = ModuleTree::parts(trees);
    let ghost before = ctx@;
    let ghost taken = before.index.dom();
    proof {
        lemma_parse_all_ok(messages@, module_parser());
        assert(before.nodes.dom().contains(parent));
        assert(before.nodes[parent].kind() == parent.kind);
        assert(before.nodes[parent].shaped());
        assert(parent.kind.contains_kind(kind));
        assert(before.nodes[parent].children.dom().contains(kind));
        assert(before.nodes[parent].list(kind) == before.nodes[parent].children[kind]);
        assert(before.nodes[parent].with_list(kind, before.nodes[parent].list(kind)).children
            =~= before.nodes[parent].children);
        assert(before.module_trees(before.nodes[parent].list(kind)) + trees.take(0)
            =~= before.module_trees(before.nodes[parent].list(kind)));
        assert(parts.take(0) =~= Seq::<Seq<Uuid>>::empty());
        assert(taken + concat(parts.take(0)).to_set() =~= taken);
    }
    let mut done: usize = 0;
    while done < messages.len()
        invariant
            done <= messages.len(),
            kind == NodeKind::Module,
            trees == parse_all(messages@, module_parser())->Ok_0,
            parts == ModuleTree::parts(trees),
            trees.len() == messages.len(),
            forall|i: int|
                0 <= i < messages.len() ==> module_parser()(messages@[i]) == Ok::<
                    ModuleTree,
                    GraphError,
                >(#[trigger] trees[i]),
            before == old(ctx)@,
            taken == before.index.dom(),
            before.wf(),
            parent.kind == NodeKind::Ir,
            ctx.wf(),
            ctx@.live(parent),
            before.live(parent),
            before.same_but(ctx@, parent),
            ctx@.nodes[parent] == before.nodes[parent].with_list(
                kind,
                ctx@.nodes[parent].list(kind),
            ),
            ctx@.module_trees(ctx@.nodes[parent].list(kind)) == before.module_trees(
                before.nodes[parent].list(kind),
            ) + trees.take(done as int),
            fresh(concat(parts.take(done as int)), taken),
            ctx@.index.dom() == taken + concat(parts.take(done as int)).to_set(),
        decreases messages.len() - done,
    {
        let ghost now = ctx@;
        let ghost tree = trees[done as int];
        proof {
            assert(module_parser()(messages@[done as int]) == Ok::<ModuleTree, GraphError>(tree));
            assert(parts[done as int] == tree.uuids());
            lemma_concat_step(parts, done as int);
            lemma_fresh_concat(concat(parts.take(done as int)), tree.uuids(), taken);
            lemma_add_to_set(concat(parts.take(done as int)), tree.uuids());
        }
        match build_module(ctx, parent, &messages[done]) {
            Ok(child) => {
                proof {
                    let next = ctx@;
                    let list = now.nodes[parent].list(kind);
                    assert(now.nodes.dom().contains(parent));
                    assert(next.nodes[parent].list(kind) == list.push(child.key));
                    assert(next.nodes[parent].children =~= before.nodes[parent].with_list(
                        kind,
                        next.nodes[parent].list(kind),
                    ).children);
                    assert(now.same_below(next, 1));
                    assert forall|i: int| 0 <= i < list.len() implies next.module_tree(list[i])
                        == now.module_tree(list[i]) by {
                        let node = NodeRef { kind, key: now.nodes[parent].list(kind)[i] };
                        assert(now.nodes.dom().contains(node));
                        lemma_module_tree_frame(now, next, list[i]);
                    }
                    assert(next.module_trees(list.push(child.key)) =~= now.module_trees(list).push(tree));
                    assert(trees.take(done + 1) =~= trees.take(done as int).push(tree));
                    assert(now.module_trees(list).push(tree) =~= before.module_trees(
                        before.nodes[parent].list(kind),
                    ) + trees.take(done + 1));
                    assert(next.index.dom() =~= taken + concat(parts.take(done + 1)).to_set());
                    assert forall|node: NodeRef| #[trigger]
                        before.nodes.dom().contains(node) implies next.nodes.dom().contains(node)
                        && (node != parent ==> next.nodes[node] == before.nodes[node]) by {
                        assert(now.nodes.dom().contains(node));
                    }
                }
            },
            Err(error) => {
                proof {
                    if fresh(concat(parts), taken) {
                        lemma_concat_split(parts, done + 1);
                        lemma_fresh_concat(
                            concat(parts.take(done + 1)),
                            concat(parts.skip(done + 1)),
                            taken,
                        );
                        assert(false);
                    }
                }
                return Err(GraphError::DuplicateUuid);
            },
        }
        done = done + 1;
    }
    proof {
        assert(parts.take(done as int) =~= parts);
        assert(trees.take(done as int) =~= trees);
    }
    Ok(())
}

/// Builds a graph from the message of an IR, in a context of its own.
///
/// The message is read first: an identifier that has not sixteen bytes, or a
/// number that names no value of its enum, fails the whole message before
/// anything is built. Then the nodes are added from the IR down, each after
/// the one that contains it and in the order of the messages; an identifier
/// that occurs twice fails the message. A failed message leaves nothing
/// behind.
pub fn decode(message: &IrMessage) -> (decoded: Result<(Context, IR), GraphError>)
    ensures
        match decoded {
            Ok((ctx, ir)) => {
                &&& parsed_ir(*message) is Ok
                &&& parsed_ir(*message)->Ok_0.uuids().no_duplicates()
                &&& ctx.wf()
                &&& ir.valid(&ctx)
                &&& ir.index == ctx@.root
                &&& ctx@.ir_tree() == parsed_ir(*message)->Ok_0
            },
            Err(error) => match parsed_ir(*message) {
                Err(failed) => error == failed,
                Ok(tree) => error == GraphError::DuplicateUuid && !tree.uuids().no_duplicates(),
            },
        },
{
    match validate(message) {
        Ok(_) => {},
        Err(error) => {
            return Err(error);
        },
    }
    let ghost tree = parsed_ir(*message)->Ok_0;
    let ghost below = concat(ModuleTree::parts(tree.modules));
    let uuid = match read_uuid(&message.uuid) {
        Ok(uuid) => uuid,
        Err(error) => {
            return Err(error);
        },
    };
    let (mut ctx, ir) = IRData::create(random_uuid(), uuid);
    let root = NodeRef { kind: NodeKind::Ir, key: ir.index };
    let ghost made = ctx@;
    proof {
        assert(made.nodes.dom().contains(root));
    }
    match ir.set_version(&mut ctx, message.version) {
        Ok(_) => {},
        Err(error) => {
            return Err(error);
        },
    }
    let ghost first = ctx@;
    proof {
        assert(first.nodes.dom().contains(root));
        assert(first.nodes[root].list(NodeKind::Module) =~= Seq::<Key>::empty());
        assert(first.module_trees(Seq::<Key>::empty()) + tree.modules =~= tree.modules);
        assert(first.index.dom() =~= Set::<Uuid>::empty().insert(uuid));
        lemma_fresh_concat(seq![uuid], below, Set::<Uuid>::empty());
        assert(seq![uuid].to_set() =~= Set::empty().insert(uuid)) by {
            lemma_push_to_set(Seq::<Uuid>::empty(), uuid);
            assert(Seq::<Uuid>::empty().push(uuid) =~= seq![uuid]);
            assert(Seq::<Uuid>::empty().to_set() =~= Set::empty());
        }
        assert(Set::<Uuid>::empty() + seq![uuid].to_set() =~= first.index.dom());
        assert(fresh(seq![uuid], Set::<Uuid>::empty()));
    }
    match build_modules(&mut ctx, root, &message.modules) {
        Ok(_) => {},
        Err(error) => {
            return Err(error);
        },
    }
    proof {
        let last = ctx@;
        assert(last.ir_tree() == tree);
    }
    Ok((ctx, ir))
}

} // verus!
