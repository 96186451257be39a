//! The assignment engine and layouter.
//!
//! An `Assignment` is the per-instance mutable state: a fresh table, the
//! public-input vectors, and the equality constraints collected so far.
//! Regions are composed with a single monotonically increasing cursor: each
//! `assign_region` call reserves the next free rows, and assignments inside a
//! region address rows relative to the region's start. Rows are reserved
//! before a region's body runs, so a failing body still consumes row space.

use vstd::prelude::*;
use vstd::arithmetic::power2::pow2;
use vstd::arithmetic::power2::lemma2_to64;
use vstd::arithmetic::power2::lemma_pow2_strictly_increases;

use crate::column::{Cell, Column, ColumnKind, Selector};
use crate::field::Fp;
use crate::system::ConstraintSystem;
use crate::table::{RegionInfo, Table};

verus! {

/// A failure during synthesis.
#[derive(Clone, Copy, Debug, PartialEq, Eq, Structural, Hash)]
pub enum Error {
    /// A value that was required to be concrete was absent, or an unassigned
    /// cell was read.
    Synthesis,
    /// A region was requested beyond the end of the table.
    NotEnoughRows,
    /// An offset fell outside its region, or a public row outside the
    /// public-input vector.
    OutOfBounds,
    /// A copy or expose operation targeted a column whose equality flag was
    /// never enabled.
    EqualityNotEnabled,
}

/// A handle to one laid-out region: assignments through it address rows
/// `0 .. rows` relative to `start`.
#[derive(Clone, Copy, Debug, PartialEq, Eq, Structural, Hash)]
pub struct Region {
    pub index: usize,
    pub start: usize,
    pub rows: usize,
}

/// The per-instance state produced by synthesis: the table under
/// construction, the public inputs it is checked against, the equality pairs
/// declared so far, and the layouter's cursor.
#[derive(Debug, PartialEq, Eq)]
pub struct Assignment {
    pub table: Table,
    /// Public-input vectors, one per public column.
    pub public: Vec<Vec<Fp>>,
    /// Unordered pairs of cells declared equal.
    pub equalities: Vec<(Cell, Cell)>,
    /// The next free row.
    pub cursor: usize,
    /// Copies of the equality-enabled flags of the constraint system.
    pub witness_eq: Vec<bool>,
    pub public_eq: Vec<bool>,
    pub fixed_eq: Vec<bool>,
}

impl Assignment {
    /// Internal consistency: grid shapes, regions, and the cursor.
    pub open spec fn shape_wf(&self) -> bool {
        &&& self.table.shape_wf()
        &&& self.cursor <= self.table.n
        &&& forall|i: int|
            0 <= i < self.table.regions@.len() ==> (#[trigger] self.table.regions@[i]).start
                + self.table.regions@[i].rows <= self.cursor
        &&& self.witness_eq@.len() == self.table.witness@.len()
        &&& self.fixed_eq@.len() == self.table.fixed@.len()
        &&& self.public_eq@.len() == self.public@.len()
    }

    /// The assignment belongs to `cs`: shapes match its declarations and the
    /// equality flags are its flags.
    pub open spec fn wf(&self, cs: &ConstraintSystem) -> bool {
        &&& self.shape_wf()
        &&& self.table.matches(cs)
        &&& self.public@.len() == cs.num_columns(ColumnKind::Public)
        &&& self.witness_eq@ == cs.witness_eq@
        &&& self.public_eq@ == cs.public_eq@
        &&& self.fixed_eq@ == cs.fixed_eq@
    }

    /// The region handle is genuine: it matches the recorded region.
    pub open spec fn region_wf(&self, r: Region) -> bool {
        &&& r.index < self.table.regions@.len()
        &&& self.table.regions@[r.index as int].start == r.start
        &&& self.table.regions@[r.index as int].rows == r.rows
    }

    /// Whether equality is enabled for the column, by the copied flags.
    pub open spec fn eq_enabled(&self, c: Column) -> bool {
        match c.kind {
            ColumnKind::Witness => c.index < self.witness_eq@.len()
                && self.witness_eq@[c.index as int],
            ColumnKind::Public => c.index < self.public_eq@.len()
                && self.public_eq@[c.index as int],
            ColumnKind::Fixed => c.index < self.fixed_eq@.len()
                && self.fixed_eq@[c.index as int],
        }
    }

    /// The value a cell reference denotes: a table cell for witness and fixed
    /// columns, a public-input entry for public columns. An unassigned or
    /// out-of-range cell is the error.
    pub open spec fn spec_cell_value(&self, cell: Cell) -> Result<Fp, Cell> {
        match cell.column.kind {
            ColumnKind::Witness => if cell.column.index < self.table.witness@.len()
                && cell.row < self.table.witness@[cell.column.index as int]@.len() {
                match self.table.witness@[cell.column.index as int]@[cell.row as int] {
                    Some(v) => Ok(v),
                    None => Err(cell),
                }
            } else {
                Err(cell)
            },
            ColumnKind::Fixed => if cell.column.index < self.table.fixed@.len()
                && cell.row < self.table.fixed@[cell.column.index as int]@.len() {
                match self.table.fixed@[cell.column.index as int]@[cell.row as int] {
                    Some(v) => Ok(v),
                    None => Err(cell),
                }
            } else {
                Err(cell)
            },
            ColumnKind::Public => if cell.column.index < self.public@.len() && cell.row
                < self.public@[cell.column.index as int]@.len() {
                Ok(self.public@[cell.column.index as int]@[cell.row as int])
            } else {
                Err(cell)
            },
        }
    }

    /// Whether the selector is on at the absolute row.
    pub open spec fn selector_on(&self, s: Selector, row: int) -> bool {
        &&& s.index < self.table.selectors@.len()
        &&& 0 <= row < self.table.selectors@[s.index as int]@.len()
        &&& self.table.selectors@[s.index as int]@[row]
    }

    /// Reads the value a cell reference denotes.
    pub fn cell_value(&self, cell: Cell) -> (r: Result<Fp, Cell>)
        ensures
            r == self.spec_cell_value(cell),
    {
        match cell.column.kind {
            ColumnKind::Witness => {
                if cell.column.index < self.table.witness.len() && cell.row
                    < self.table.witness[cell.column.index].len() {
                    match self.table.witness[cell.column.index][cell.row] {
                        Some(v) => Ok(v),
                        None => Err(cell),
                    }
                } else {
                    Err(cell)
                }
            },
            ColumnKind::Fixed => {
                if cell.column.index < self.table.fixed.len() && cell.row
                    < self.table.fixed[cell.column.index].len() {
                    match self.table.fixed[cell.column.index][cell.row] {
                        Some(v) => Ok(v),
                        None => Err(cell),
                    }
                } else {
                    Err(cell)
                }
            },
            ColumnKind::Public => {
                if cell.column.index < self.public.len() && cell.row
                    < self.public[cell.column.index].len() {
                    Ok(self.public[cell.column.index][cell.row])
                } else {
                    Err(cell)
                }
            },
        }
    }

    /// A fresh assignment for one instance: an all-unassigned table of
    /// `2^k` rows shaped after `cs`, the given public inputs, no equalities,
    /// and the cursor at row zero.
    pub fn new(cs: &ConstraintSystem, k: usize, public: Vec<Vec<Fp>>) -> (s: Assignment)
        requires
            k < 31,
            public@.len() == cs.num_columns(ColumnKind::Public),
        ensures
            s.wf(cs),
            s.table.n == pow2(k as nat),
            forall|i: int, j: int|
                0 <= i < s.table.witness@.len() && 0 <= j < s.table.n
                    ==> (#[trigger] s.table.witness@[i]@[j]) is None,
            forall|i: int, j: int|
                0 <= i < s.table.fixed@.len() && 0 <= j < s.table.n
                    ==> (#[trigger] s.table.fixed@[i]@[j]) is None,
            forall|i: int, j: int|
                0 <= i < s.table.selectors@.len() && 0 <= j < s.table.n
                    ==> !(#[trigger] s.table.selectors@[i]@[j]),
            s.table.regions@ == Seq::<RegionInfo>::empty(),
            s.equalities@ == Seq::<(Cell, Cell)>::empty(),
            s.cursor == 0,
            s.public == public,
    {
        proof {
            lemma2_to64();
            if k < 30 {
                lemma_pow2_strictly_increases(k as nat, 30);
            }
        }
        let mut n: usize = 1;
        let mut i: usize = 0;
        while i < k
            invariant
                i <= k,
                k < 31,
                n == pow2(i as nat),
                n <= 0x4000_0000,
            decreases k - i,
        {
            proof {
                lemma2_to64();
                if i + 1 < 30 {
                    lemma_pow2_strictly_increases((i + 1) as nat, 30);
                }
                assert(pow2((i + 1) as nat) == 2 * pow2(i as nat)) by {
                    vstd::arithmetic::power2::lemma_pow2_adds(i as nat, 1);
                    lemma2_to64();
                }
            }
            n = n * 2;
            i = i + 1;
        }
        let witness = option_grid(cs.witness_eq.len(), n);
        let fixed = option_grid(cs.fixed_eq.len(), n);
        let selectors = bool_grid(cs.selectors_complex.len(), n);
        let s = Assignment {
            table: Table { n, witness, fixed, selectors, regions: Vec::new() },
            public,
            equalities: Vec::new(),
            cursor: 0,
            witness_eq: copy_flags(&cs.witness_eq),
            public_eq: copy_flags(&cs.public_eq),
            fixed_eq: copy_flags(&cs.fixed_eq),
        };
        s
    }

    /// Reserves the next `rows` rows as a new named region and returns its
    /// handle; the cursor never moves backwards, so regions are disjoint and
    /// ordered by call sequence.
    pub fn assign_region(&mut self, name: String, rows: usize) -> (r: Result<Region, Error>)
        requires
            old(self).shape_wf(),
        ensures
            final(self).shape_wf(),
            r is Ok <==> old(self).cursor + rows <= old(self).table.n,
            r matches Ok(region) ==> {
                &&& region == (Region {
                    index: old(self).table.regions@.len() as usize,
                    start: old(self).cursor,
                    rows: rows,
                })
                &&& final(self).table.regions@ == old(self).table.regions@.push(
                    RegionInfo { name: name, start: old(self).cursor, rows: rows },
                )
                &&& final(self).cursor == old(self).cursor + rows
                &&& final(self).region_wf(region)
                &&& final(self).table.witness == old(self).table.witness
                &&& final(self).table.fixed == old(self).table.fixed
                &&& final(self).table.selectors == old(self).table.selectors
                &&& final(self).table.n == old(self).table.n
                &&& final(self).public == old(self).public
                &&& final(self).equalities == old(self).equalities
                &&& final(self).witness_eq == old(self).witness_eq
                &&& final(self).public_eq == old(self).public_eq
                &&& final(self).fixed_eq == old(self).fixed_eq
            },
            r is Err ==> r == Err::<Region, Error>(Error::NotEnoughRows) && *final(self) == *old(
                self,
            ),
    {
        if rows > self.table.n - self.cursor {
            return Err(Error::NotEnoughRows);
        }
        let region = Region { index: self.table.regions.len(), start: self.cursor, rows };
        self.table.regions.push(RegionInfo { name, start: region.start, rows });
        self.cursor = self.cursor + rows;
        Ok(region)
    }

    /// Turns a selector on at the given in-region offset.
    pub fn enable_selector(&mut self, region: Region, s: Selector, offset: usize) -> (r: Result<
        (),
        Error,
    >)
        requires
            old(self).shape_wf(),
            old(self).region_wf(region),
            s.index < old(self).table.selectors@.len(),
        ensures
            final(self).shape_wf(),
            final(self).region_wf(region),
            r is Ok <==> offset < region.rows,
            r matches Ok(u) ==> {
                &&& final(self).table.selectors@[s.index as int]@ == old(
                    self,
                ).table.selectors@[s.index as int]@.update(
                    region.start + offset,
                    true,
                )
                &&& forall|i: int|
                    0 <= i < old(self).table.selectors@.len() && i != s.index
                        ==> final(self).table.selectors@[i] == old(self).table.selectors@[i]
                &&& final(self).table.selectors@.len() == old(self).table.selectors@.len()
                &&& final(self).table.witness == old(self).table.witness
                &&& final(self).table.fixed == old(self).table.fixed
                &&& final(self).table.regions == old(self).table.regions
                &&& final(self).table.n == old(self).table.n
                &&& final(self).public == old(self).public
                &&& final(self).equalities == old(self).equalities
                &&& final(self).cursor == old(self).cursor
                &&& final(self).witness_eq == old(self).witness_eq
                &&& final(self).public_eq == old(self).public_eq
                &&& final(self).fixed_eq == old(self).fixed_eq
            },
            r is Err ==> r == Err::<(), Error>(Error::OutOfBounds) && *final(self) == *old(self),
    {
        if offset >= region.rows {
            return Err(Error::OutOfBounds);
        }
        let row = region.start + offset;
        self.table.selectors[s.index][row] = true;
        Ok(())
    }

    /// Assigns a witness value at `(col, offset)` inside the region. An
    /// absent value is the unassigned-witness failure: it aborts synthesis.
    pub fn assign_witness(
        &mut self,
        region: Region,
        col: Column,
        offset: usize,
        value: Option<Fp>,
    ) -> (r: Result<Cell, Error>)
        requires
            old(self).shape_wf(),
            old(self).region_wf(region),
            col.kind == ColumnKind::Witness,
            col.index < old(self).table.witness@.len(),
        ensures
            final(self).shape_wf(),
            final(self).region_wf(region),
            r is Ok <==> offset < region.rows && value is Some,
            r matches Ok(cell) ==> {
                &&& cell == (Cell { column: col, row: (region.start + offset) as usize })
                &&& final(self).table.witness@[col.index as int]@ == old(
                    self,
                ).table.witness@[col.index as int]@.update(region.start + offset, value)
                &&& forall|i: int|
                    0 <= i < old(self).table.witness@.len() && i != col.index
                        ==> final(self).table.witness@[i] == old(self).table.witness@[i]
                &&& final(self).table.witness@.len() == old(self).table.witness@.len()
                &&& final(self).table.fixed == old(self).table.fixed
                &&& final(self).table.selectors == old(self).table.selectors
                &&& final(self).table.regions == old(self).table.regions
                &&& final(self).table.n == old(self).table.n
                &&& final(self).public == old(self).public
                &&& final(self).equalities == old(self).equalities
                &&& final(self).cursor == old(self).cursor
                &&& final(self).witness_eq == old(self).witness_eq
                &&& final(self).public_eq == old(self).public_eq
                &&& final(self).fixed_eq == old(self).fixed_eq
            },
            r is Err ==> *final(self) == *old(self),
            offset >= region.rows ==> r == Err::<Cell, Error>(Error::OutOfBounds),
            offset < region.rows && value is None ==> r == Err::<Cell, Error>(Error::Synthesis),
    {
        if offset >= region.rows {
            return Err(Error::OutOfBounds);
        }
        match value {
            None => Err(Error::Synthesis),
            Some(v) => {
                let row = region.start + offset;
                self.table.witness[col.index][row] = Some(v);
                Ok(Cell { column: col, row })
            },
        }
    }

    /// Assigns a fixed value at `(col, offset)` inside the region; fixed
    /// columns hold configure-time constants such as lookup tables.
    pub fn assign_fixed(
        &mut self,
        region: Region,
        col: Column,
        offset: usize,
        value: Option<Fp>,
    ) -> (r: Result<Cell, Error>)
        requires
            old(self).shape_wf(),
            old(self).region_wf(region),
            col.kind == ColumnKind::Fixed,
            col.index < old(self).table.fixed@.len(),
        ensures
            final(self).shape_wf(),
            final(self).region_wf(region),
            r is Ok <==> offset < region.rows && value is Some,
            r matches Ok(cell) ==> {
                &&& cell == (Cell { column: col, row: (region.start + offset) as usize })
                &&& final(self).table.fixed@[col.index as int]@ == old(
                    self,
                ).table.fixed@[col.index as int]@.update(region.start + offset, value)
                &&& forall|i: int|
                    0 <= i < old(self).table.fixed@.len() && i != col.index
                        ==> final(self).table.fixed@[i] == old(self).table.fixed@[i]
                &&& final(self).table.fixed@.len() == old(self).table.fixed@.len()
                &&& final(self).table.witness == old(self).table.witness
                &&& final(self).table.selectors == old(self).table.selectors
                &&& final(self).table.regions == old(self).table.regions
                &&& final(self).table.n == old(self).table.n
                &&& final(self).public == old(self).public
                &&& final(self).equalities == old(self).equalities
                &&& final(self).cursor == old(self).cursor
                &&& final(self).witness_eq == old(self).witness_eq
                &&& final(self).public_eq == old(self).public_eq
                &&& final(self).fixed_eq == old(self).fixed_eq
            },
            r is Err ==> *final(self) == *old(self),
            offset >= region.rows ==> r == Err::<Cell, Error>(Error::OutOfBounds),
            offset < region.rows && value is None ==> r == Err::<Cell, Error>(Error::Synthesis),
    {
        if offset >= region.rows {
            return Err(Error::OutOfBounds);
        }
        match value {
            None => Err(Error::Synthesis),
            Some(v) => {
                let row = region.start + offset;
                self.table.fixed[col.index][row] = Some(v);
                Ok(Cell { column: col, row })
            },
        }
    }

    /// Copies an already-assigned cell's value to `(col, offset)` inside the
    /// region: writes the value there and records an equality constraint
    /// between source and destination. Both columns must have equality
    /// enabled; an unassigned source is the unassigned-witness failure.
    pub fn copy(&mut self, region: Region, src: Cell, col: Column, offset: usize) -> (r: Result<
        Cell,
        Error,
    >)
        requires
            old(self).shape_wf(),
            old(self).region_wf(region),
            col.kind == ColumnKind::Witness,
            col.index < old(self).table.witness@.len(),
        ensures
            final(self).shape_wf(),
            final(self).region_wf(region),
            r is Ok <==> offset < region.rows && old(self).eq_enabled(src.column) && old(
                self,
            ).eq_enabled(col) && old(self).spec_cell_value(src) is Ok,
            r matches Ok(cell) ==> {
                &&& cell == (Cell { column: col, row: (region.start + offset) as usize })
                &&& final(self).table.witness@[col.index as int]@ == old(
                    self,
                ).table.witness@[col.index as int]@.update(
                    region.start + offset,
                    Some(old(self).spec_cell_value(src)->Ok_0),
                )
                &&& forall|i: int|
                    0 <= i < old(self).table.witness@.len() && i != col.index
                        ==> final(self).table.witness@[i] == old(self).table.witness@[i]
                &&& final(self).table.witness@.len() == old(self).table.witness@.len()
                &&& final(self).equalities@ == old(self).equalities@.push((src, cell))
                &&& final(self).table.fixed == old(self).table.fixed
                &&& final(self).table.selectors == old(self).table.selectors
                &&& final(self).table.regions == old(self).table.regions
                &&& final(self).table.n == old(self).table.n
                &&& final(self).public == old(self).public
                &&& final(self).cursor == old(self).cursor
                &&& final(self).witness_eq == old(self).witness_eq
                &&& final(self).public_eq == old(self).public_eq
                &&& final(self).fixed_eq == old(self).fixed_eq
            },
            r is Err ==> *final(self) == *old(self),
            offset >= region.rows ==> r == Err::<Cell, Error>(Error::OutOfBounds),
            offset < region.rows && !(old(self).eq_enabled(src.column) && old(self).eq_enabled(
                col,
            )) ==> r == Err::<Cell, Error>(Error::EqualityNotEnabled),
            offset < region.rows && old(self).eq_enabled(src.column) && old(self).eq_enabled(col)
                && old(self).spec_cell_value(src) is Err ==> r == Err::<Cell, Error>(
                Error::Synthesis,
            ),
    {
        if offset >= region.rows {
            return Err(Error::OutOfBounds);
        }
        if !(self.column_eq_enabled(src.column) && self.column_eq_enabled(col)) {
            return Err(Error::EqualityNotEnabled);
        }
        match self.cell_value(src) {
            Err(_) => Err(Error::Synthesis),
            Ok(v) => {
                let row = region.start + offset;
                self.table.witness[col.index][row] = Some(v);
                let cell = Cell { column: col, row };
                self.equalities.push((src, cell));
                Ok(cell)
            },
        }
    }

    /// Assigns the public input `(pub_col, pub_row)` to `(col, offset)`
    /// inside the region and records the equality between the two.
    pub fn assign_from_public(
        &mut self,
        region: Region,
        pub_col: Column,
        pub_row: usize,
        col: Column,
        offset: usize,
    ) -> (r: Result<Cell, Error>)
        requires
            old(self).shape_wf(),
            old(self).region_wf(region),
            pub_col.kind == ColumnKind::Public,
            col.kind == ColumnKind::Witness,
            col.index < old(self).table.witness@.len(),
        ensures
            final(self).shape_wf(),
            final(self).region_wf(region),
            r is Ok <==> offset < region.rows && old(self).eq_enabled(pub_col) && old(
                self,
            ).eq_enabled(col) && old(self).spec_cell_value(
                Cell { column: pub_col, row: pub_row },
            ) is Ok,
            r matches Ok(cell) ==> {
                &&& cell == (Cell { column: col, row: (region.start + offset) as usize })
                &&& final(self).table.witness@[col.index as int]@ == old(
                    self,
                ).table.witness@[col.index as int]@.update(
                    region.start + offset,
                    Some(old(self).spec_cell_value(Cell { column: pub_col, row: pub_row })->Ok_0),
                )
                &&& forall|i: int|
                    0 <= i < old(self).table.witness@.len() && i != col.index
                        ==> final(self).table.witness@[i] == old(self).table.witness@[i]
                &&& final(self).table.witness@.len() == old(self).table.witness@.len()
                &&& final(self).equalities@ == old(self).equalities@.push(
                    (Cell { column: pub_col, row: pub_row }, cell),
                )
                &&& final(self).table.fixed == old(self).table.fixed
                &&& final(self).table.selectors == old(self).table.selectors
                &&& final(self).table.regions == old(self).table.regions
                &&& final(self).table.n == old(self).table.n
                &&& final(self).public == old(self).public
                &&& final(self).cursor == old(self).cursor
                &&& final(self).witness_eq == old(self).witness_eq
                &&& final(self).public_eq == old(self).public_eq
                &&& final(self).fixed_eq == old(self).fixed_eq
            },
            r is Err ==> *final(self) == *old(self),
            offset >= region.rows ==> r == Err::<Cell, Error>(Error::OutOfBounds),
            offset < region.rows && !(old(self).eq_enabled(pub_col) && old(self).eq_enabled(col))
                ==> r == Err::<Cell, Error>(Error::EqualityNotEnabled),
            offset < region.rows && old(self).eq_enabled(pub_col) && old(self).eq_enabled(col)
                && old(self).spec_cell_value(Cell { column: pub_col, row: pub_row }) is Err ==> r
                == Err::<Cell, Error>(Error::OutOfBounds),
    {
        if offset >= region.rows {
            return Err(Error::OutOfBounds);
        }
        if !(self.column_eq_enabled(pub_col) && self.column_eq_enabled(col)) {
            return Err(Error::EqualityNotEnabled);
        }
        let src = Cell { column: pub_col, row: pub_row };
        match self.cell_value(src) {
            Err(_) => Err(Error::OutOfBounds),
            Ok(v) => {
                let row = region.start + offset;
                self.table.witness[col.index][row] = Some(v);
                let cell = Cell { column: col, row };
                self.equalities.push((src, cell));
                Ok(cell)
            },
        }
    }

    /// Exposes an assigned cell as equal to the given row of a public
    /// column: records the equality constraint between the two.
    pub fn constrain_public(&mut self, cell: Cell, pub_col: Column, row: usize) -> (r: Result<
        (),
        Error,
    >)
        requires
            old(self).shape_wf(),
            pub_col.kind == ColumnKind::Public,
        ensures
            final(self).shape_wf(),
            r is Ok <==> old(self).eq_enabled(cell.column) && old(self).eq_enabled(pub_col) && row
                < old(self).public@[pub_col.index as int]@.len(),
            r is Ok ==> {
                &&& final(self).equalities@ == old(self).equalities@.push(
                    (cell, Cell { column: pub_col, row: row }),
                )
                &&& final(self).table == old(self).table
                &&& final(self).public == old(self).public
                &&& final(self).cursor == old(self).cursor
                &&& final(self).witness_eq == old(self).witness_eq
                &&& final(self).public_eq == old(self).public_eq
                &&& final(self).fixed_eq == old(self).fixed_eq
            },
            r is Err ==> *final(self) == *old(self),
            !(old(self).eq_enabled(cell.column) && old(self).eq_enabled(pub_col)) ==> r == Err::<
                (),
                Error,
            >(Error::EqualityNotEnabled),
            old(self).eq_enabled(cell.column) && old(self).eq_enabled(pub_col) && row >= old(
                self,
            ).public@[pub_col.index as int]@.len() ==> r == Err::<(), Error>(Error::OutOfBounds),
    {
        if !(self.column_eq_enabled(cell.column) && self.column_eq_enabled(pub_col)) {
            return Err(Error::EqualityNotEnabled);
        }
        if row >= self.public[pub_col.index].len() {
            return Err(Error::OutOfBounds);
        }
        self.equalities.push((cell, Cell { column: pub_col, row }));
        Ok(())
    }

    /// Reads the equality-enabled flag copied from the constraint system.
    fn column_eq_enabled(&self, c: Column) -> (r: bool)
        ensures
            r == self.eq_enabled(c),
    {
        match c.kind {
            ColumnKind::Witness => c.index < self.witness_eq.len() && self.witness_eq[c.index],
            ColumnKind::Public => c.index < self.public_eq.len() && self.public_eq[c.index],
            ColumnKind::Fixed => c.index < self.fixed_eq.len() && self.fixed_eq[c.index],
        }
    }
}

/// Everything observable about an assignment, as plain mathematical values:
/// the grids as sequences, the regions by name, start and row count, the
/// equality pairs, the public inputs and the cursor. Two assignments with
/// equal models are bit-identical for every purpose of this library.
pub struct AssignmentModel {
    pub witness: Seq<Seq<Option<Fp>>>,
    pub fixed: Seq<Seq<Option<Fp>>>,
    pub selectors: Seq<Seq<bool>>,
    pub regions: Seq<(Seq<char>, int, int)>,
    pub public: Seq<Seq<Fp>>,
    pub equalities: Seq<(Cell, Cell)>,
    pub cursor: int,
    pub n: int,
}

impl Assignment {
    /// The assignment reduced to plain values.
    pub open spec fn model(&self) -> AssignmentModel {
        AssignmentModel {
            witness: self.table.witness@.map_values(|v: Vec<Option<Fp>>| v@),
            fixed: self.table.fixed@.map_values(|v: Vec<Option<Fp>>| v@),
            selectors: self.table.selectors@.map_values(|v: Vec<bool>| v@),
            regions: crate::table::regions_model(self.table.regions@),
            public: self.public@.map_values(|v: Vec<Fp>| v@),
            equalities: self.equalities@,
            cursor: self.cursor as int,
            n: self.table.n as int,
        }
    }
}

/// A grid of `cols` columns by `rows` unassigned cells.
fn option_grid(cols: usize, rows: usize) -> (g: Vec<Vec<Option<Fp>>>)
    ensures
        g@.len() == cols,
        forall|i: int| 0 <= i < cols ==> (#[trigger] g@[i])@.len() == rows,
        forall|i: int, j: int| 0 <= i < cols && 0 <= j < rows ==> (#[trigger] g@[i]@[j]) is None,
{
    let mut g: Vec<Vec<Option<Fp>>> = Vec::new();
    let mut i: usize = 0;
    while i < cols
        invariant
            i <= cols,
            g@.len() == i,
            forall|x: int| 0 <= x < i ==> (#[trigger] g@[x])@.len() == rows,
            forall|x: int, j: int| 0 <= x < i && 0 <= j < rows ==> (#[trigger] g@[x]@[j]) is None,
        decreases cols - i,
    {
        let mut column: Vec<Option<Fp>> = Vec::new();
        let mut j: usize = 0;
        while j < rows
            invariant
                j <= rows,
                column@.len() == j,
                forall|y: int| 0 <= y < j ==> (#[trigger] column@[y]) is None,
            decreases rows - j,
        {
            column.push(None);
            j = j + 1;
        }
        g.push(column);
        i = i + 1;
    }
    g
}

/// A grid of `cols` boolean columns by `rows` rows, all off.
fn bool_grid(cols: usize, rows: usize) -> (g: Vec<Vec<bool>>)
    ensures
        g@.len() == cols,
        forall|i: int| 0 <= i < cols ==> (#[trigger] g@[i])@.len() == rows,
        forall|i: int, j: int| 0 <= i < cols && 0 <= j < rows ==> !(#[trigger] g@[i]@[j]),
{
    let mut g: Vec<Vec<bool>> = Vec::new();
    let mut i: usize = 0;
    while i < cols
        invariant
            i <= cols,
            g@.len() == i,
            forall|x: int| 0 <= x < i ==> (#[trigger] g@[x])@.len() == rows,
            forall|x: int, j: int| 0 <= x < i && 0 <= j < rows ==> !(#[trigger] g@[x]@[j]),
        decreases cols - i,
    {
        let mut column: Vec<bool> = Vec::new();
        let mut j: usize = 0;
        while j < rows
            invariant
                j <= rows,
                column@.len() == j,
                forall|y: int| 0 <= y < j ==> !(#[trigger] column@[y]),
            decreases rows - j,
        {
            column.push(false);
            j = j + 1;
        }
        g.push(column);
        i = i + 1;
    }
    g
}

/// An exact copy of a flag vector.
fn copy_flags(v: &Vec<bool>) -> (r: Vec<bool>)
    ensures
        r@ == v@,
{
    let mut r: Vec<bool> = Vec::new();
    let mut i: usize = 0;
    while i < v.len()
        invariant
            i <= v@.len(),
            r@ == v@.subrange(0, i as int),
        decreases v@.len() - i,
    {
        r.push(v[i]);
        proof {
            assert(r@ =~= v@.subrange(0, i + 1));
        }
        i = i + 1;
    }
    proof {
        assert(v@.subrange(0, v@.len() as int) =~= v@);
    }
    r
}

} // verus!
