//! Polynomial expression trees.
//!
//! An expression is data, not a closure: a constant, a query of a column at a
//! relative row offset (a rotation), a selector read, or a sum, difference or
//! product of sub-expressions. The checker evaluates the same tree at
//! arbitrary base rows without side effects.

use vstd::prelude::*;

use crate::column::{Column, Selector};
use crate::field::Fp;
use crate::system::ConstraintSystem;

verus! {

/// A gate's or lookup's polynomial over the table.
///
/// A `Query` reads the queried column at the base row plus the rotation,
/// wrapping around the end of the table. A `Selector` leaf always reads at
/// the base row itself and evaluates to one or zero.
#[derive(Debug)]
pub enum Expr {
    Constant(Fp),
    Selector(Selector),
    Query { column: Column, rotation: usize },
    Sum(Box<Expr>, Box<Expr>),
    Diff(Box<Expr>, Box<Expr>),
    Product(Box<Expr>, Box<Expr>),
}

impl Expr {
    /// The expression references only columns and selectors that `cs`
    /// declares.
    pub open spec fn wf(self, cs: ConstraintSystem) -> bool
        decreases self,
    {
        match self {
            Expr::Constant(_) => true,
            Expr::Selector(s) => cs.selector_declared(s),
            Expr::Query { column, rotation } => cs.column_declared(column),
            Expr::Sum(l, r) => l.wf(cs) && r.wf(cs),
            Expr::Diff(l, r) => l.wf(cs) && r.wf(cs),
            Expr::Product(l, r) => l.wf(cs) && r.wf(cs),
        }
    }

    /// The column queries of the expression, left to right.
    pub open spec fn queries(self) -> Seq<(Column, usize)>
        decreases self,
    {
        match self {
            Expr::Constant(_) => Seq::empty(),
            Expr::Selector(_) => Seq::empty(),
            Expr::Query { column, rotation } => seq![(column, rotation)],
            Expr::Sum(l, r) => l.queries() + r.queries(),
            Expr::Diff(l, r) => l.queries() + r.queries(),
            Expr::Product(l, r) => l.queries() + r.queries(),
        }
    }

    /// Collects the column queries of the expression, left to right.
    pub fn collect_queries(&self, out: &mut Vec<(Column, usize)>)
        ensures
            final(out)@ == old(out)@ + self.queries(),
        decreases self,
    {
        let ghost pre = out@;
        match self {
            Expr::Constant(_) => {},
            Expr::Selector(_) => {},
            Expr::Query { column, rotation } => {
                out.push((*column, *rotation));
            },
            Expr::Sum(l, r) => {
                l.collect_queries(out);
                r.collect_queries(out);
            },
            Expr::Diff(l, r) => {
                l.collect_queries(out);
                r.collect_queries(out);
            },
            Expr::Product(l, r) => {
                l.collect_queries(out);
                r.collect_queries(out);
            },
        }
        assert(out@ =~= pre + self.queries());
    }
}

} // verus!
