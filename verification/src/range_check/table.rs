//! The lookup table for the range check: a fixed column loaded once with the
//! values `0 .. lookup_range`.

use vstd::prelude::*;
use vstd::string::StringExecFns;

use crate::assign::{Assignment, Error};
use crate::column::{Column, ColumnKind};
use crate::field::Fp;
use crate::system::ConstraintSystem;

verus! {

/// A fixed column meant to hold every value of `0 .. lookup_range`.
#[derive(Clone, Copy, Debug, PartialEq, Eq, Structural)]
pub struct RangeCheckTable {
    pub value: Column,
    pub lookup_range: usize,
}

impl RangeCheckTable {
    /// Declares the table's fixed column.
    pub fn configure(meta: &mut ConstraintSystem, lookup_range: usize) -> (t: RangeCheckTable)
        ensures
            t.value.kind == ColumnKind::Fixed,
            t.value.index == old(meta).num_columns(ColumnKind::Fixed),
            t.lookup_range == lookup_range,
            final(meta).flags(ColumnKind::Fixed) == old(meta).flags(ColumnKind::Fixed).push(false),
            final(meta).witness_eq == old(meta).witness_eq,
            final(meta).public_eq == old(meta).public_eq,
            final(meta).selectors_complex@ == old(meta).selectors_complex@,
            final(meta).gates@ == old(meta).gates@,
            final(meta).lookups@ == old(meta).lookups@,
            old(meta).wf() ==> final(meta).wf(),
    {
        let value = meta.add_column(ColumnKind::Fixed);
        RangeCheckTable { value, lookup_range }
    }

    /// Fills the column with `0 .. lookup_range` in one region, row `i`
    /// holding the field element for `i`.
    pub fn load(&self, layouter: &mut Assignment) -> (r: Result<(), Error>)
        requires
            old(layouter).shape_wf(),
            self.value.kind == ColumnKind::Fixed,
            self.value.index < old(layouter).table.fixed@.len(),
            1 <= self.lookup_range,
        ensures
            final(layouter).shape_wf(),
            r is Ok <==> old(layouter).cursor + self.lookup_range <= old(layouter).table.n,
            r is Err ==> r == Err::<(), Error>(Error::NotEnoughRows) && *final(layouter) == *old(
                layouter,
            ),
            r is Ok ==> {
                &&& final(layouter).table.regions@.len() == old(layouter).table.regions@.len() + 1
                &&& final(layouter).table.regions@.drop_last() == old(layouter).table.regions@
                &&& final(layouter).table.regions@.last().name@ == "load range-check table"@
                &&& final(layouter).table.regions@.last().start == old(layouter).cursor
                &&& final(layouter).table.regions@.last().rows == self.lookup_range
                &&& final(layouter).cursor == old(layouter).cursor + self.lookup_range
                &&& final(layouter).table.fixed@.len() == old(layouter).table.fixed@.len()
                &&& forall|i: int|
                    0 <= i < old(layouter).table.fixed@.len() && i != self.value.index
                        ==> final(layouter).table.fixed@[i] == old(layouter).table.fixed@[i]
                &&& final(layouter).table.fixed@[self.value.index as int]@.len() == old(
                    layouter,
                ).table.fixed@[self.value.index as int]@.len()
                &&& forall|j: int|
                    old(layouter).cursor <= j < old(layouter).cursor + self.lookup_range
                        ==> final(layouter).table.fixed@[self.value.index as int]@[j]
                        == Some(Fp::from_spec((j - old(layouter).cursor) as u64))
                &&& forall|j: int|
                    0 <= j < old(layouter).table.n
                        && !(old(layouter).cursor <= j < old(layouter).cursor + self.lookup_range)
                        ==> final(layouter).table.fixed@[self.value.index as int]@[j]
                        == old(layouter).table.fixed@[self.value.index as int]@[j]
                &&& final(layouter).table.witness == old(layouter).table.witness
                &&& final(layouter).table.selectors == old(layouter).table.selectors
                &&& final(layouter).table.n == old(layouter).table.n
                &&& final(layouter).public == old(layouter).public
                &&& final(layouter).equalities == old(layouter).equalities
                &&& final(layouter).witness_eq == old(layouter).witness_eq
                &&& final(layouter).public_eq == old(layouter).public_eq
                &&& final(layouter).fixed_eq == old(layouter).fixed_eq
            },
    {
        let region = match layouter.assign_region(
            String::from_str("load range-check table"),
            self.lookup_range,
        ) {
            Ok(region) => region,
            Err(e) => {
                return Err(e);
            },
        };
        let ghost pre = *layouter;
        let mut i: usize = 0;
        while i < self.lookup_range
            invariant
                i <= self.lookup_range,
                layouter.shape_wf(),
                layouter.region_wf(region),
                region.rows == self.lookup_range,
                self.value.kind == ColumnKind::Fixed,
                self.value.index < layouter.table.fixed@.len(),
                layouter.table.fixed@.len() == pre.table.fixed@.len(),
                forall|c: int|
                    0 <= c < pre.table.fixed@.len() && c != self.value.index
                        ==> layouter.table.fixed@[c] == pre.table.fixed@[c],
                layouter.table.fixed@[self.value.index as int]@.len()
                    == pre.table.fixed@[self.value.index as int]@.len(),
                forall|j: int|
                    region.start <= j < region.start + i ==> layouter.table.fixed@[self.value.index as int]@[j]
                        == Some(Fp::from_spec((j - region.start) as u64)),
                forall|j: int|
                    0 <= j < pre.table.fixed@[self.value.index as int]@.len() && !(region.start <= j
                        < region.start + i) ==> layouter.table.fixed@[self.value.index as int]@[j]
                        == pre.table.fixed@[self.value.index as int]@[j],
                layouter.table.witness == pre.table.witness,
                layouter.table.selectors == pre.table.selectors,
                layouter.table.regions == pre.table.regions,
                layouter.table.n == pre.table.n,
                layouter.public == pre.public,
                layouter.equalities == pre.equalities,
                layouter.cursor == pre.cursor,
                layouter.witness_eq == pre.witness_eq,
                layouter.public_eq == pre.public_eq,
                layouter.fixed_eq == pre.fixed_eq,
            decreases self.lookup_range - i,
        {
            let v = Fp::from(i as u64);
            match layouter.assign_fixed(region, self.value, i, Some(v)) {
                Ok(_) => {},
                Err(_) => {
                    proof {
                        assert(false);
                    }
                },
            };
            i = i + 1;
        }
        Ok(())
    }
}

} // verus!
