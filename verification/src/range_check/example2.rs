//! A range check that chooses between two strategies: the direct polynomial
//! gate of small ranges, and a lookup against a loaded table column for
//! larger ones.
//!
//! The branch in `assign` keeps the comparison of the source it follows: the
//! claimed range is checked with `<` against the configured range, so a claimed
//! range equal to it already takes the lookup path. The two strategies stand
//! on their own; exercise each branch explicitly.

use vstd::prelude::*;
use vstd::string::StringExecFns;

use crate::assign::{Assignment, Error};
use crate::column::{Column, ColumnKind, Selector};
use crate::expr::Expr;
use crate::field::Fp;
use crate::range_check::example1::{
    assign_value_row, assigned_one_row, lemma_range_check_expr_wf, range_check_expr,
    spec_range_check_expr,
};
use crate::range_check::table::RangeCheckTable;
use crate::system::ConstraintSystem;

verus! {

/// One advice column, the direct check's selector and range, the lookup's
/// complex
/// selector, and the loaded table.
#[derive(Clone, Copy, Debug, PartialEq, Eq, Structural)]
pub struct RangeCheckConfig {
    pub value: Column,
    pub q_range_check: Selector,
    pub q_lookup: Selector,
    pub table: RangeCheckTable,
    pub range: usize,
}

impl RangeCheckConfig {
    /// Declares a gate named `Range check` over the witness column, a
    /// complex selector for the lookup, the table's fixed column, and the
    /// lookup of the value into that column.
    pub fn configure(
        meta: &mut ConstraintSystem,
        value: Column,
        range: usize,
        lookup_range: usize,
    ) -> (config: RangeCheckConfig)
        requires
            old(meta).column_declared(value),
            value.kind == ColumnKind::Witness,
            1 <= range,
        ensures
            config.value == value,
            config.q_range_check.index == old(meta).num_selectors(),
            config.q_lookup.index == old(meta).num_selectors() + 1,
            config.table.value.kind == ColumnKind::Fixed,
            config.table.value.index == old(meta).num_columns(ColumnKind::Fixed),
            config.table.lookup_range == lookup_range,
            config.range == range,
            final(meta).selectors_complex@ == old(meta).selectors_complex@.push(false).push(true),
            final(meta).flags(ColumnKind::Fixed) == old(meta).flags(ColumnKind::Fixed).push(false),
            final(meta).witness_eq == old(meta).witness_eq,
            final(meta).public_eq == old(meta).public_eq,
            final(meta).gates@.len() == old(meta).gates@.len() + 1,
            final(meta).gates@.drop_last() == old(meta).gates@,
            final(meta).gates@.last().name@ == "Range check"@,
            final(meta).gates@.last().selector == config.q_range_check,
            final(meta).gates@.last().poly == spec_range_check_expr(value, range as int),
            final(meta).lookups@.len() == old(meta).lookups@.len() + 1,
            final(meta).lookups@.drop_last() == old(meta).lookups@,
            final(meta).lookups@.last().selector == config.q_lookup,
            final(meta).lookups@.last().input == (Expr::Query { column: value, rotation: 0 }),
            final(meta).lookups@.last().table_column == config.table.value,
            old(meta).wf() ==> final(meta).wf(),
    {
        let q_range_check = meta.add_selector(false);
        let q_lookup = meta.add_selector(true);
        let table = RangeCheckTable::configure(meta, lookup_range);
        let poly = range_check_expr(value, range);
        proof {
            lemma_range_check_expr_wf(value, range as int, *meta);
        }
        let name = String::from_str("Range check");
        meta.add_gate(name, q_range_check, poly);
        meta.add_lookup(q_lookup, Expr::Query { column: value, rotation: 0 }, table.value);
        RangeCheckConfig { value, q_range_check, q_lookup, table, range }
    }

    /// Assigns the value in a fresh single-row region, enabling the direct
    /// range-check gate when the claimed range is below the configured range and
    /// the lookup otherwise. The claimed range may not exceed the table's.
    pub fn assign(&self, layouter: &mut Assignment, value: Option<Fp>, range: usize) -> (r: Result<
        (),
        Error,
    >)
        requires
            old(layouter).shape_wf(),
            self.value.kind == ColumnKind::Witness,
            self.value.index < old(layouter).table.witness@.len(),
            self.q_range_check.index < old(layouter).table.selectors@.len(),
            self.q_lookup.index < old(layouter).table.selectors@.len(),
            range <= self.table.lookup_range,
        ensures
            final(layouter).shape_wf(),
            range < self.range ==> assigned_one_row(
                *old(layouter),
                *final(layouter),
                "Assign value"@,
                self.q_range_check,
                self.value,
                value,
                r,
            ),
            range >= self.range ==> assigned_one_row(
                *old(layouter),
                *final(layouter),
                "Assign value for lookup range check"@,
                self.q_lookup,
                self.value,
                value,
                r,
            ),
    {
        if range < self.range {
            assign_value_row(
                layouter,
                String::from_str("Assign value"),
                self.q_range_check,
                self.value,
                value,
            )
        } else {
            assign_value_row(
                layouter,
                String::from_str("Assign value for lookup range check"),
                self.q_lookup,
                self.value,
                value,
            )
        }
    }
}

} // verus!
