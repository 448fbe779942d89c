//! An in-memory graph of the nodes that describe a binary: an IR holds
//! modules, a module holds sections, symbols and proxy blocks, a section holds
//! byte intervals, and a byte interval holds code blocks, data blocks and
//! symbolic expressions.
//!
//! Every node lives in the arena of its kind inside a [`Context`], which also
//! finds a node by its identifier. A handle ([`IR`], [`Module`], ...) is a
//! small value that names a node by the key of its arena slot; every
//! operation through a handle takes the context, and a handle whose node is
//! gone is refused as stale.
//!
//! The contracts speak of a context through its model,
//! [`graph::ContextView`], and of its invariant, [`graph::ContextView::wf`].
//! The modules [`laws`], [`distinct`] and [`roundtrip`] state what follows
//! from the invariant.

pub mod addr;
pub mod attrs;
pub mod byte_interval;
pub mod code_block;
pub mod context;
pub mod data_block;
pub mod decode;
pub mod distinct;
pub mod encode;
pub mod error;
pub mod graph;
pub mod ident;
pub mod ir;
pub mod kind;
pub mod laws;
pub mod message;
pub mod module;
pub mod node;
pub mod proxy_block;
pub mod record;
pub mod roundtrip;
pub mod section;
pub mod seqs;
pub mod store;
pub mod symbol;
pub mod symbolic_expression;
pub mod tree;
pub mod validate;
pub mod view;
pub mod walk;

pub use addr::Addr;
pub use attrs::{ByteOrder, FileFormat, SectionFlag, ISA};
pub use byte_interval::{ByteInterval, ByteIntervalData};
pub use code_block::{CodeBlock, CodeBlockData};
pub use context::Context;
pub use data_block::{DataBlock, DataBlockData};
pub use decode::decode;
pub use encode::encode;
pub use error::GraphError;
pub use ident::Uuid;
pub use ir::{IRData, IR};
pub use kind::{NodeKind, NodeRef};
pub use message::{
    BlockMessage, ByteIntervalMessage, ExpressionMessage, IrMessage, ModuleMessage,
    PayloadMessage, SectionMessage, SymbolMessage, SymbolicExpressionMessage,
};
pub use module::{Module, ModuleData};
pub use node::{Node, NodeData};
pub use proxy_block::{ProxyBlock, ProxyBlockData};
pub use roundtrip::duplicate;
pub use section::{Section, SectionData};
pub use store::Key;
pub use symbol::{Payload, Symbol, SymbolData};
pub use symbolic_expression::SymbolicExpression;
