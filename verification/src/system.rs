//! The constraint-system builder.
//!
//! Columns, selectors, gates and lookups are declared once, during a single
//! configuration pass; the finished system is immutable and describes
//! structure only. Referencing a column or selector that was never declared
//! is a programmer error and is ruled out at the call, not deferred to the
//! checker.

use vstd::prelude::*;

use crate::column::{Column, ColumnKind, Selector};
use crate::expr::Expr;

verus! {

/// A named gate: a polynomial required to vanish on every row its governing
/// selector activates.
#[derive(Debug)]
pub struct Gate {
    pub name: String,
    pub selector: Selector,
    pub poly: Expr,
}

/// A lookup: on every row its selector activates, the input expression must
/// evaluate to a value held somewhere in the target column.
#[derive(Debug)]
pub struct Lookup {
    pub selector: Selector,
    pub input: Expr,
    pub table_column: Column,
}

/// The immutable specification of a circuit: its columns (with their
/// equality-enabled flags), selectors (with their complex flags), gates and
/// lookups.
pub struct ConstraintSystem {
    /// One equality-enabled flag per witness column.
    pub witness_eq: Vec<bool>,
    /// One equality-enabled flag per public column.
    pub public_eq: Vec<bool>,
    /// One equality-enabled flag per fixed column.
    pub fixed_eq: Vec<bool>,
    /// One complex flag per selector.
    pub selectors_complex: Vec<bool>,
    pub gates: Vec<Gate>,
    pub lookups: Vec<Lookup>,
}

impl ConstraintSystem {
    /// The equality-enabled flags of the columns of one kind.
    pub open spec fn flags(&self, kind: ColumnKind) -> Seq<bool> {
        match kind {
            ColumnKind::Witness => self.witness_eq@,
            ColumnKind::Public => self.public_eq@,
            ColumnKind::Fixed => self.fixed_eq@,
        }
    }

    /// How many columns of one kind are declared.
    pub open spec fn num_columns(&self, kind: ColumnKind) -> nat {
        self.flags(kind).len()
    }

    pub open spec fn num_selectors(&self) -> nat {
        self.selectors_complex@.len()
    }

    pub open spec fn column_declared(&self, c: Column) -> bool {
        c.index < self.num_columns(c.kind)
    }

    pub open spec fn selector_declared(&self, s: Selector) -> bool {
        s.index < self.num_selectors()
    }

    /// Whether the column may participate in equality constraints.
    pub open spec fn eq_enabled(&self, c: Column) -> bool {
        self.column_declared(c) && self.flags(c.kind)[c.index as int]
    }

    /// Every gate and lookup references only declared columns and selectors.
    pub open spec fn wf(&self) -> bool {
        &&& forall|i: int|
            0 <= i < self.gates@.len() ==> {
                &&& (#[trigger] self.gates@[i]).poly.wf(*self)
                &&& self.selector_declared(self.gates@[i].selector)
            }
        &&& forall|i: int|
            0 <= i < self.lookups@.len() ==> {
                &&& (#[trigger] self.lookups@[i]).input.wf(*self)
                &&& self.selector_declared(self.lookups@[i].selector)
                &&& self.column_declared(self.lookups@[i].table_column)
            }
    }

    /// `other` declares at least the columns and selectors of `self`.
    pub open spec fn extended_by(&self, other: &ConstraintSystem) -> bool {
        &&& self.num_columns(ColumnKind::Witness) <= other.num_columns(ColumnKind::Witness)
        &&& self.num_columns(ColumnKind::Public) <= other.num_columns(ColumnKind::Public)
        &&& self.num_columns(ColumnKind::Fixed) <= other.num_columns(ColumnKind::Fixed)
        &&& self.num_selectors() <= other.num_selectors()
    }

    /// An empty system: no columns, no selectors, no gates, no lookups.
    pub fn new() -> (s: Self)
        ensures
            s.witness_eq@ == Seq::<bool>::empty(),
            s.public_eq@ == Seq::<bool>::empty(),
            s.fixed_eq@ == Seq::<bool>::empty(),
            s.selectors_complex@ == Seq::<bool>::empty(),
            s.gates@ == Seq::<Gate>::empty(),
            s.lookups@ == Seq::<Lookup>::empty(),
            s.wf(),
    {
        ConstraintSystem {
            witness_eq: Vec::new(),
            public_eq: Vec::new(),
            fixed_eq: Vec::new(),
            selectors_complex: Vec::new(),
            gates: Vec::new(),
            lookups: Vec::new(),
        }
    }

    /// Declares a new column of the given kind, with equality disabled.
    pub fn add_column(&mut self, kind: ColumnKind) -> (c: Column)
        ensures
            c.kind == kind,
            c.index == old(self).num_columns(kind),
            final(self).flags(kind) == old(self).flags(kind).push(false),
            kind != ColumnKind::Witness ==> final(self).witness_eq == old(self).witness_eq,
            kind != ColumnKind::Public ==> final(self).public_eq == old(self).public_eq,
            kind != ColumnKind::Fixed ==> final(self).fixed_eq == old(self).fixed_eq,
            final(self).selectors_complex@ == old(self).selectors_complex@,
            final(self).gates@ == old(self).gates@,
            final(self).lookups@ == old(self).lookups@,
            old(self).wf() ==> final(self).wf(),
    {
        let ghost pre = *self;
        let index = match kind {
            ColumnKind::Witness => {
                let i = self.witness_eq.len();
                self.witness_eq.push(false);
                i
            },
            ColumnKind::Public => {
                let i = self.public_eq.len();
                self.public_eq.push(false);
                i
            },
            ColumnKind::Fixed => {
                let i = self.fixed_eq.len();
                self.fixed_eq.push(false);
                i
            },
        };
        proof {
            if pre.wf() {
                lemma_wf_extend(pre, *self);
            }
        }
        Column { kind, index }
    }

    /// Declares a new selector; `complex` marks one used inside lookups,
    /// which the backend must never combine with others.
    pub fn add_selector(&mut self, complex: bool) -> (s: Selector)
        ensures
            s.index == old(self).num_selectors(),
            final(self).selectors_complex@ == old(self).selectors_complex@.push(complex),
            final(self).witness_eq == old(self).witness_eq,
            final(self).public_eq == old(self).public_eq,
            final(self).fixed_eq == old(self).fixed_eq,
            final(self).gates@ == old(self).gates@,
            final(self).lookups@ == old(self).lookups@,
            old(self).wf() ==> final(self).wf(),
    {
        let ghost pre = *self;
        let index = self.selectors_complex.len();
        self.selectors_complex.push(complex);
        proof {
            if pre.wf() {
                lemma_wf_extend(pre, *self);
            }
        }
        Selector { index }
    }

    /// Turns on equality for a declared column. Enabling it has a real cost
    /// in a proving backend, so it defaults to off.
    pub fn enable_equality(&mut self, c: Column)
        requires
            old(self).column_declared(c),
        ensures
            final(self).flags(c.kind) == old(self).flags(c.kind).update(c.index as int, true),
            c.kind != ColumnKind::Witness ==> final(self).witness_eq == old(self).witness_eq,
            c.kind != ColumnKind::Public ==> final(self).public_eq == old(self).public_eq,
            c.kind != ColumnKind::Fixed ==> final(self).fixed_eq == old(self).fixed_eq,
            final(self).selectors_complex@ == old(self).selectors_complex@,
            final(self).gates@ == old(self).gates@,
            final(self).lookups@ == old(self).lookups@,
            old(self).wf() ==> final(self).wf(),
    {
        let ghost pre = *self;
        match c.kind {
            ColumnKind::Witness => {
                self.witness_eq[c.index] = true;
            },
            ColumnKind::Public => {
                self.public_eq[c.index] = true;
            },
            ColumnKind::Fixed => {
                self.fixed_eq[c.index] = true;
            },
        }
        proof {
            if pre.wf() {
                lemma_wf_extend(pre, *self);
            }
        }
    }

    /// Adds a named gate, governed by a declared selector, over a polynomial
    /// that references only declared columns and selectors.
    pub fn add_gate(&mut self, name: String, selector: Selector, poly: Expr)
        requires
            old(self).selector_declared(selector),
            poly.wf(*old(self)),
        ensures
            final(self).gates@ == old(self).gates@.push(Gate { name, selector, poly }),
            final(self).witness_eq == old(self).witness_eq,
            final(self).public_eq == old(self).public_eq,
            final(self).fixed_eq == old(self).fixed_eq,
            final(self).selectors_complex@ == old(self).selectors_complex@,
            final(self).lookups@ == old(self).lookups@,
            old(self).wf() ==> final(self).wf(),
    {
        let ghost pre = *self;
        let ghost gpoly = poly;
        self.gates.push(Gate { name, selector, poly });
        proof {
            assert(self.gates@.drop_last() =~= pre.gates@);
            if pre.wf() {
                lemma_expr_wf_extend(gpoly, pre, *self);
                lemma_wf_extend(pre, *self);
            }
        }
    }

    /// Adds a lookup: on rows the selector activates, the input expression
    /// must take a value present somewhere in the target column.
    pub fn add_lookup(&mut self, selector: Selector, input: Expr, table_column: Column)
        requires
            old(self).selector_declared(selector),
            input.wf(*old(self)),
            old(self).column_declared(table_column),
        ensures
            final(self).lookups@ == old(self).lookups@.push(
                Lookup { selector, input, table_column },
            ),
            final(self).witness_eq == old(self).witness_eq,
            final(self).public_eq == old(self).public_eq,
            final(self).fixed_eq == old(self).fixed_eq,
            final(self).selectors_complex@ == old(self).selectors_complex@,
            final(self).gates@ == old(self).gates@,
            old(self).wf() ==> final(self).wf(),
    {
        let ghost pre = *self;
        let ghost ginput = input;
        self.lookups.push(Lookup { selector, input, table_column });
        proof {
            assert(self.lookups@.drop_last() =~= pre.lookups@);
            if pre.wf() {
                lemma_expr_wf_extend(ginput, pre, *self);
                lemma_wf_extend(pre, *self);
            }
        }
    }
}

/// Well-formedness of an expression survives extending the system with more
/// columns and selectors.
pub proof fn lemma_expr_wf_extend(e: Expr, cs1: ConstraintSystem, cs2: ConstraintSystem)
    requires
        e.wf(cs1),
        cs1.extended_by(&cs2),
    ensures
        e.wf(cs2),
    decreases e,
{
    match e {
        Expr::Constant(_) => {},
        Expr::Selector(_) => {},
        Expr::Query { column, rotation } => {},
        Expr::Sum(l, r) => {
            lemma_expr_wf_extend(*l, cs1, cs2);
            lemma_expr_wf_extend(*r, cs1, cs2);
        },
        Expr::Diff(l, r) => {
            lemma_expr_wf_extend(*l, cs1, cs2);
            lemma_expr_wf_extend(*r, cs1, cs2);
        },
        Expr::Product(l, r) => {
            lemma_expr_wf_extend(*l, cs1, cs2);
            lemma_expr_wf_extend(*r, cs1, cs2);
        },
    }
}

/// Well-formedness of a whole system survives extending it, as long as the
/// new gates and lookups (if any) are themselves well-formed in the
/// extension.
proof fn lemma_wf_extend(cs1: ConstraintSystem, cs2: ConstraintSystem)
    requires
        cs1.wf(),
        cs1.extended_by(&cs2),
        cs2.gates@ == cs1.gates@ || cs2.gates@.drop_last() == cs1.gates@ && cs2.gates@.len()
            == cs1.gates@.len() + 1 && cs2.gates@.last().poly.wf(cs2)
            && cs2.selector_declared(cs2.gates@.last().selector),
        cs2.lookups@ == cs1.lookups@ || cs2.lookups@.drop_last() == cs1.lookups@
            && cs2.lookups@.len() == cs1.lookups@.len() + 1 && cs2.lookups@.last().input.wf(cs2)
            && cs2.selector_declared(cs2.lookups@.last().selector)
            && cs2.column_declared(cs2.lookups@.last().table_column),
    ensures
        cs2.wf(),
{
    assert forall|i: int| 0 <= i < cs2.gates@.len() implies {
        &&& (#[trigger] cs2.gates@[i]).poly.wf(cs2)
        &&& cs2.selector_declared(cs2.gates@[i].selector)
    } by {
        if i < cs1.gates@.len() {
            assert(cs2.gates@[i] == cs1.gates@[i]);
            lemma_expr_wf_extend(cs1.gates@[i].poly, cs1, cs2);
        }
    }
    assert forall|i: int| 0 <= i < cs2.lookups@.len() implies {
        &&& (#[trigger] cs2.lookups@[i]).input.wf(cs2)
        &&& cs2.selector_declared(cs2.lookups@[i].selector)
        &&& cs2.column_declared(cs2.lookups@[i].table_column)
    } by {
        if i < cs1.lookups@.len() {
            assert(cs2.lookups@[i] == cs1.lookups@[i]);
            lemma_expr_wf_extend(cs1.lookups@[i].input, cs1, cs2);
        }
    }
}

} // verus!
