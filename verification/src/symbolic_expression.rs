//! Symbolic expressions: what the bytes at an offset of a byte interval
//! stand for, in terms of symbols.

use vstd::prelude::*;
use crate::ident::Uuid;

verus! {

/// An expression over symbols, which are held by their identifiers and
/// need not be live.
#[derive(Clone, Copy, Debug, PartialEq, Eq, Structural)]
pub enum SymbolicExpression {
    /// The address of a symbol and an offset from it.
    AddrConst { offset: i64, symbol: Uuid },
    /// The distance between two symbols, scaled, and an offset from it.
    AddrAddr { scale: i64, offset: i64, symbol1: Uuid, symbol2: Uuid },
}

/// The expression that a list holds for an offset: the first that it holds
/// for that offset, if any.
pub open spec fn expression_at(
    expressions: Seq<(u64, SymbolicExpression)>,
    offset: u64,
) -> Option<SymbolicExpression>
    decreases expressions.len(),
{
    if expressions.len() == 0 {
        None
    } else if expressions[0].0 == offset {
        Some(expressions[0].1)
    } else {
        expression_at(expressions.drop_first(), offset)
    }
}

/// The list without what it holds for an offset.
pub open spec fn expressions_without(
    expressions: Seq<(u64, SymbolicExpression)>,
    offset: u64,
) -> Seq<(u64, SymbolicExpression)> {
    expressions.filter(|placed: (u64, SymbolicExpression)| placed.0 != offset)
}

/// Computes [`expression_at`].
pub fn find_expression(expressions: &Vec<(u64, SymbolicExpression)>, offset: u64) -> (found: Option<
    SymbolicExpression,
>)
    ensures
        found == expression_at(expressions@, offset),
{
    let mut at: usize = 0;
    assert(expressions@.skip(0) =~= expressions@);
    while at < expressions.len()
        invariant
            at <= expressions.len(),
            expression_at(expressions@, offset) == expression_at(
                expressions@.skip(at as int),
                offset,
            ),
        decreases expressions.len() - at,
    {
        let ghost rest = expressions@.skip(at as int);
        assert(rest[0] == expressions@[at as int]);
        if expressions[at].0 == offset {
            return Some(expressions[at].1);
        }
        assert(rest.drop_first() =~= expressions@.skip(at + 1));
        at = at + 1;
    }
    assert(expressions@.skip(at as int).len() == 0);
    None
}

/// Computes [`expressions_without`].
pub fn drop_expressions(expressions: &Vec<(u64, SymbolicExpression)>, offset: u64) -> (kept: Vec<
    (u64, SymbolicExpression),
>)
    ensures
        kept@ == expressions_without(expressions@, offset),
{
    let mut kept: Vec<(u64, SymbolicExpression)> = Vec::new();
    let mut at: usize = 0;
    proof {
        assert(expressions@.take(0) =~= Seq::<(u64, SymbolicExpression)>::empty());
        assert(expressions_without(Seq::<(u64, SymbolicExpression)>::empty(), offset) =~= Seq::<
            (u64, SymbolicExpression),
        >::empty()) by {
            reveal(Seq::filter);
        }
    }
    while at < expressions.len()
        invariant
            at <= expressions.len(),
            kept@ == expressions_without(expressions@.take(at as int), offset),
        decreases expressions.len() - at,
    {
        proof {
            let shorter = expressions@.take(at as int);
            let longer = expressions@.take(at + 1);
            assert(longer.drop_last() =~= shorter);
            assert(longer.last() == expressions@[at as int]);
            reveal(Seq::filter);
        }
        if expressions[at].0 != offset {
            kept.push(expressions[at]);
        }
        at = at + 1;
    }
    assert(expressions@.take(at as int) =~= expressions@);
    kept
}

/// A copy of a list of symbolic expressions.
pub fn copy_expressions(expressions: &Vec<(u64, SymbolicExpression)>) -> (copy: Vec<
    (u64, SymbolicExpression),
>)
    ensures
        copy@ == expressions@,
{
    let mut copy: Vec<(u64, SymbolicExpression)> = Vec::new();
    let mut at: usize = 0;
    while at < expressions.len()
        invariant
            at <= expressions.len(),
            copy@ == expressions@.take(at as int),
        decreases expressions.len() - at,
    {
        copy.push(expressions[at]);
        at = at + 1;
        assert(copy@ =~= expressions@.take(at as int));
    }
    assert(expressions@.take(at as int) =~= expressions@);
    copy
}

} // verus!
