//! Column identities, selectors and cell references.

use vstd::prelude::*;

verus! {

/// The kind of a column.
///
/// Witness columns hold private, per-instance values; public columns hold the
/// per-proof public inputs; fixed columns hold constants chosen at configure
/// time, such as lookup tables.
#[derive(Clone, Copy, Debug, PartialEq, Eq, Structural, Hash)]
pub enum ColumnKind {
    Witness,
    Public,
    Fixed,
}

/// A column's identity: its kind together with its index among the columns of
/// that kind.
#[derive(Clone, Copy, Debug, PartialEq, Eq, Structural, Hash)]
pub struct Column {
    pub kind: ColumnKind,
    pub index: usize,
}

/// A selector: a per-row boolean flag that turns gates or lookups on and off.
///
/// Whether the selector is simple or complex is recorded in the constraint
/// system; the checker treats both as plain boolean columns.
#[derive(Clone, Copy, Debug, PartialEq, Eq, Structural, Hash)]
pub struct Selector {
    pub index: usize,
}

/// An absolute cell reference: a column and an absolute row.
///
/// For a public column the row indexes the public-input vector of that
/// column rather than the table.
#[derive(Clone, Copy, Debug, PartialEq, Eq, Structural, Hash)]
pub struct Cell {
    pub column: Column,
    pub row: usize,
}

} // verus!
