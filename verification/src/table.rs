//! The assigned table: a grid of optional field elements per column kind,
//! plus the regions that were laid out on it.

use vstd::prelude::*;

use crate::column::ColumnKind;
use crate::field::Fp;
use crate::system::ConstraintSystem;

verus! {

/// One region as the layouter recorded it: its name and the absolute rows
/// `start .. start + rows` it occupies.
#[derive(Debug, PartialEq, Eq)]
pub struct RegionInfo {
    pub name: String,
    pub start: usize,
    pub rows: usize,
}

/// Whether the region covers the absolute row.
pub open spec fn region_contains(r: RegionInfo, row: int) -> bool {
    r.start <= row < r.start + r.rows
}

/// The index of the first region covering `row`, if any, scanning from `i`.
pub open spec fn region_index_from(regions: Seq<RegionInfo>, row: int, i: int) -> Option<int>
    decreases regions.len() - i,
    when 0 <= i <= regions.len()
{
    if i >= regions.len() {
        None
    } else if region_contains(regions[i], row) {
        Some(i)
    } else {
        region_index_from(regions, row, i + 1)
    }
}

/// The index of the region covering `row`, if any.
pub open spec fn region_index(regions: Seq<RegionInfo>, row: int) -> Option<int> {
    region_index_from(regions, row, 0)
}

/// One region reduced to plain values: its name's characters, its start and
/// its row count.
pub open spec fn region_model(r: RegionInfo) -> (Seq<char>, int, int) {
    (r.name@, r.start as int, r.rows as int)
}

/// A region list reduced to plain values.
pub open spec fn regions_model(s: Seq<RegionInfo>) -> Seq<(Seq<char>, int, int)> {
    s.map_values(|r: RegionInfo| region_model(r))
}

/// The grid of values for one circuit instance: for each witness and fixed
/// column a row of optional field elements, for each selector a boolean
/// column, all of height `n`.
#[derive(Debug, PartialEq, Eq)]
pub struct Table {
    /// The number of rows, a power of two.
    pub n: usize,
    /// Witness cells, indexed `[column][row]`; `None` is an unassigned cell.
    pub witness: Vec<Vec<Option<Fp>>>,
    /// Fixed cells, indexed `[column][row]`.
    pub fixed: Vec<Vec<Option<Fp>>>,
    /// Selector flags, indexed `[selector][row]`.
    pub selectors: Vec<Vec<bool>>,
    /// The regions laid out so far, in allocation order.
    pub regions: Vec<RegionInfo>,
}

impl Table {
    /// Every column has exactly `n` rows, the row count is positive and small
    /// enough for row arithmetic, and the regions are disjoint, in increasing
    /// order, and within the table.
    pub open spec fn shape_wf(&self) -> bool {
        &&& 1 <= self.n <= 0x4000_0000
        &&& forall|i: int|
            0 <= i < self.witness@.len() ==> (#[trigger] self.witness@[i])@.len() == self.n
        &&& forall|i: int|
            0 <= i < self.fixed@.len() ==> (#[trigger] self.fixed@[i])@.len() == self.n
        &&& forall|i: int|
            0 <= i < self.selectors@.len() ==> (#[trigger] self.selectors@[i])@.len() == self.n
        &&& forall|i: int|
            0 <= i < self.regions@.len() ==> (#[trigger] self.regions@[i]).start
                + self.regions@[i].rows <= self.n
        &&& forall|i: int, j: int|
            0 <= i < j < self.regions@.len() ==> (#[trigger] self.regions@[i]).start
                + self.regions@[i].rows <= (#[trigger] self.regions@[j]).start
    }

    /// The table has exactly the columns and selectors that `cs` declares.
    pub open spec fn matches(&self, cs: &ConstraintSystem) -> bool {
        &&& self.witness@.len() == cs.num_columns(ColumnKind::Witness)
        &&& self.fixed@.len() == cs.num_columns(ColumnKind::Fixed)
        &&& self.selectors@.len() == cs.num_selectors()
    }
}

} // verus!
