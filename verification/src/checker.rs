//! The satisfaction checker.
//!
//! A pure function of (constraint system, assigned table, equality pairs,
//! public inputs): it evaluates every gate on every row its selector
//! activates, checks every lookup's input against the target column, and
//! compares the two cells of every declared equality pair. Violations are
//! collected, never short-circuited, so a circuit author gets a full
//! diagnostic pass.

use vstd::prelude::*;
use vstd::arithmetic::div_mod::lemma_add_mod_noop;
use vstd::arithmetic::div_mod::lemma_mod_division_less_than_divisor;
use vstd::arithmetic::div_mod::lemma_small_mod;

use crate::assign::Assignment;
use crate::column::{Cell, Column};
use crate::expr::Expr;
use crate::field::Fp;
use crate::system::ConstraintSystem;
use crate::table::{region_contains, region_index, region_index_from, RegionInfo};

verus! {

/// Where a violation happened: inside a laid-out region, at an in-region
/// offset, or at an absolute row no region covers.
#[derive(Clone, Copy, Debug, PartialEq, Eq, Structural, Hash)]
pub enum Location {
    InRegion { region: usize, offset: usize },
    OutsideRegion { row: usize },
}

/// One finding of the checker. Indices refer to the constraint system's gate
/// and lookup lists and to the assignment's equality-pair list; the names
/// live there.
#[derive(Clone, Copy, Debug, PartialEq, Eq, Structural, Hash)]
pub enum Violation {
    /// A gate's polynomial did not vanish on a row its selector activates.
    ConstraintNotSatisfied { gate: usize, row: usize, location: Location },
    /// A lookup input's value is nowhere in the target column.
    LookupNotSatisfied { lookup: usize, row: usize, location: Location, value: Fp },
    /// The two cells of an equality pair hold different values.
    PermutationNotSatisfied { index: usize, a: Cell, b: Cell, value_a: Fp, value_b: Fp },
    /// A checked constraint read a cell that was never assigned.
    CellNotAssigned { cell: Cell },
}

/// The absolute row queried from base `row` at `rotation`, wrapping around
/// the end of a table of `n` rows.
pub open spec fn wrap_row(row: int, rotation: int, n: int) -> int {
    (row + rotation) % n
}

/// Evaluation of an expression at a base row: leaves read the table (or the
/// public inputs), selectors read as one or zero, and the first unassigned
/// cell, in leftmost order, is the error.
pub open spec fn spec_eval(e: Expr, asg: Assignment, row: int) -> Result<Fp, Cell>
    decreases e,
{
    match e {
        Expr::Constant(c) => Ok(c),
        Expr::Selector(s) => Ok(
            if asg.selector_on(s, row) {
                Fp::one_spec()
            } else {
                Fp::zero_spec()
            },
        ),
        Expr::Query { column, rotation } => asg.spec_cell_value(
            Cell { column, row: wrap_row(row, rotation as int, asg.table.n as int) as usize },
        ),
        Expr::Sum(l, r) => match (spec_eval(*l, asg, row), spec_eval(*r, asg, row)) {
            (Result::Err(c), _) => Err(c),
            (Result::Ok(_), Result::Err(c)) => Err(c),
            (Result::Ok(a), Result::Ok(b)) => Ok(Fp::add_spec(a, b)),
        },
        Expr::Diff(l, r) => match (spec_eval(*l, asg, row), spec_eval(*r, asg, row)) {
            (Result::Err(c), _) => Err(c),
            (Result::Ok(_), Result::Err(c)) => Err(c),
            (Result::Ok(a), Result::Ok(b)) => Ok(Fp::sub_spec(a, b)),
        },
        Expr::Product(l, r) => match (spec_eval(*l, asg, row), spec_eval(*r, asg, row)) {
            (Result::Err(c), _) => Err(c),
            (Result::Ok(_), Result::Err(c)) => Err(c),
            (Result::Ok(a), Result::Ok(b)) => Ok(Fp::mul_spec(a, b)),
        },
    }
}

/// Computes the wrapped absolute row.
fn wrap(row: usize, rotation: usize, n: usize) -> (r: usize)
    requires
        1 <= n <= 0x4000_0000,
        row < n,
    ensures
        r == wrap_row(row as int, rotation as int, n as int),
        r < n,
{
    proof {
        lemma_small_mod(row as nat, n as nat);
        lemma_add_mod_noop(row as int, rotation as int, n as int);
        lemma_mod_division_less_than_divisor(rotation as int, n as int);
        lemma_mod_division_less_than_divisor(row + (rotation as int) % (n as int), n as int);
        assert((rotation as int) % (n as int) < n);
        assert(row + (rotation as int) % (n as int) < 2 * (n as int));
    }
    (row + rotation % n) % n
}

/// Evaluates an expression at a base row.
pub fn eval(e: &Expr, cs: &ConstraintSystem, asg: &Assignment, row: usize) -> (r: Result<Fp, Cell>)
    requires
        e.wf(*cs),
        asg.wf(cs),
        row < asg.table.n,
    ensures
        r == spec_eval(*e, *asg, row as int),
    decreases *e,
{
    match e {
        Expr::Constant(c) => Ok(*c),
        Expr::Selector(s) => {
            if asg.table.selectors[s.index][row] {
                Ok(Fp::one())
            } else {
                Ok(Fp::zero())
            }
        },
        Expr::Query { column, rotation } => {
            let wr = wrap(row, *rotation, asg.table.n);
            asg.cell_value(Cell { column: *column, row: wr })
        },
        Expr::Sum(l, r) => match eval(l, cs, asg, row) {
            Err(c) => Err(c),
            Ok(a) => match eval(r, cs, asg, row) {
                Err(c) => Err(c),
                Ok(b) => Ok(a.add(b)),
            },
        },
        Expr::Diff(l, r) => match eval(l, cs, asg, row) {
            Err(c) => Err(c),
            Ok(a) => match eval(r, cs, asg, row) {
                Err(c) => Err(c),
                Ok(b) => Ok(a.sub(b)),
            },
        },
        Expr::Product(l, r) => match eval(l, cs, asg, row) {
            Err(c) => Err(c),
            Ok(a) => match eval(r, cs, asg, row) {
                Err(c) => Err(c),
                Ok(b) => Ok(a.mul(b)),
            },
        },
    }
}

/// The location of an absolute row: the region covering it, if any.
pub open spec fn spec_location(asg: Assignment, row: int) -> Location {
    match region_index(asg.table.regions@, row) {
        Some(i) => Location::InRegion {
            region: i as usize,
            offset: (row - asg.table.regions@[i].start) as usize,
        },
        None => Location::OutsideRegion { row: row as usize },
    }
}

/// Scanning for the first covering region from `i` equals scanning from
/// `i + 1` when region `i` does not cover the row.
proof fn lemma_region_index_skip(regions: Seq<RegionInfo>, row: int, i: int)
    requires
        0 <= i < regions.len(),
        !region_contains(regions[i], row),
    ensures
        region_index_from(regions, row, i) == region_index_from(regions, row, i + 1),
{
}

/// Finds the location of an absolute row.
fn location_of(asg: &Assignment, row: usize) -> (loc: Location)
    requires
        asg.shape_wf(),
    ensures
        loc == spec_location(*asg, row as int),
{
    let regions = &asg.table.regions;
    let mut i: usize = 0;
    while i < regions.len()
        invariant
            i <= regions@.len(),
            asg.shape_wf(),
            regions == asg.table.regions,
            region_index(regions@, row as int) == region_index_from(regions@, row as int, i as int),
        decreases regions@.len() - i,
    {
        let r = &regions[i];
        if r.start <= row && row < r.start + r.rows {
            return Location::InRegion { region: i, offset: row - r.start };
        }
        proof {
            lemma_region_index_skip(regions@, row as int, i as int);
        }
        i = i + 1;
    }
    Location::OutsideRegion { row }
}

/// The violations of gate `g` at row `row`: nothing when that selector
/// is off there; otherwise an unassigned-cell finding when evaluation fails,
/// and a constraint finding when the polynomial does not vanish.
pub open spec fn spec_gate_row(cs: ConstraintSystem, asg: Assignment, g: int, row: int) -> Seq<
    Violation,
> {
    let gate = cs.gates@[g];
    if !asg.selector_on(gate.selector, row) {
        Seq::empty()
    } else {
        match spec_eval(gate.poly, asg, row) {
            Result::Err(cell) => seq![Violation::CellNotAssigned { cell }],
            Result::Ok(v) => if v == Fp::zero_spec() {
                Seq::empty()
            } else {
                seq![
                    Violation::ConstraintNotSatisfied {
                        gate: g as usize,
                        row: row as usize,
                        location: spec_location(asg, row),
                    },
                ]
            },
        }
    }
}

/// The violations of gate `g` over rows `0 .. row`, in row order.
pub open spec fn spec_gate_rows_upto(
    cs: ConstraintSystem,
    asg: Assignment,
    g: int,
    row: int,
) -> Seq<Violation>
    decreases row,
    when row >= 0
{
    if row <= 0 {
        Seq::empty()
    } else {
        spec_gate_rows_upto(cs, asg, g, row - 1) + spec_gate_row(cs, asg, g, row - 1)
    }
}

/// The violations of gates `0 .. g`, in gate order.
pub open spec fn spec_gates_upto(cs: ConstraintSystem, asg: Assignment, g: int) -> Seq<Violation>
    decreases g,
    when g >= 0
{
    if g <= 0 {
        Seq::empty()
    } else {
        spec_gates_upto(cs, asg, g - 1) + spec_gate_rows_upto(cs, asg, g - 1, asg.table.n as int)
    }
}

/// All gate violations.
pub open spec fn spec_gate_violations(cs: ConstraintSystem, asg: Assignment) -> Seq<Violation> {
    spec_gates_upto(cs, asg, cs.gates@.len() as int)
}

/// Whether some row of the target column holds the value.
pub open spec fn spec_table_contains(asg: Assignment, col: Column, v: Fp) -> bool {
    exists|r: int|
        0 <= r < asg.table.n && #[trigger] asg.spec_cell_value(Cell { column: col, row: r as usize })
            == Ok::<Fp, Cell>(v)
}

/// The violations of lookup `l` at row `row`: set membership of the input
/// expression's value in the target column, on rows the selector activates.
pub open spec fn spec_lookup_row(cs: ConstraintSystem, asg: Assignment, l: int, row: int) -> Seq<
    Violation,
> {
    let lk = cs.lookups@[l];
    if !asg.selector_on(lk.selector, row) {
        Seq::empty()
    } else {
        match spec_eval(lk.input, asg, row) {
            Result::Err(cell) => seq![Violation::CellNotAssigned { cell }],
            Result::Ok(v) => if spec_table_contains(asg, lk.table_column, v) {
                Seq::empty()
            } else {
                seq![
                    Violation::LookupNotSatisfied {
                        lookup: l as usize,
                        row: row as usize,
                        location: spec_location(asg, row),
                        value: v,
                    },
                ]
            },
        }
    }
}

/// The violations of lookup `l` over rows `0 .. row`.
pub open spec fn spec_lookup_rows_upto(
    cs: ConstraintSystem,
    asg: Assignment,
    l: int,
    row: int,
) -> Seq<Violation>
    decreases row,
    when row >= 0
{
    if row <= 0 {
        Seq::empty()
    } else {
        spec_lookup_rows_upto(cs, asg, l, row - 1) + spec_lookup_row(cs, asg, l, row - 1)
    }
}

/// The violations of lookups `0 .. l`.
pub open spec fn spec_lookups_upto(cs: ConstraintSystem, asg: Assignment, l: int) -> Seq<Violation>
    decreases l,
    when l >= 0
{
    if l <= 0 {
        Seq::empty()
    } else {
        spec_lookups_upto(cs, asg, l - 1) + spec_lookup_rows_upto(
            cs,
            asg,
            l - 1,
            asg.table.n as int,
        )
    }
}

/// All lookup violations.
pub open spec fn spec_lookup_violations(cs: ConstraintSystem, asg: Assignment) -> Seq<Violation> {
    spec_lookups_upto(cs, asg, cs.lookups@.len() as int)
}

/// The violations of equality pair `i`: an unassigned-cell finding when
/// either side cannot be read, a permutation finding when the two values
/// differ.
pub open spec fn spec_pair_violations(asg: Assignment, i: int) -> Seq<Violation> {
    let pair = asg.equalities@[i];
    match (asg.spec_cell_value(pair.0), asg.spec_cell_value(pair.1)) {
        (Result::Err(c), _) => seq![Violation::CellNotAssigned { cell: c }],
        (Result::Ok(_), Result::Err(c)) => seq![Violation::CellNotAssigned { cell: c }],
        (Result::Ok(va), Result::Ok(vb)) => if va == vb {
            Seq::empty()
        } else {
            seq![
                Violation::PermutationNotSatisfied {
                    index: i as usize,
                    a: pair.0,
                    b: pair.1,
                    value_a: va,
                    value_b: vb,
                },
            ]
        },
    }
}

/// The violations of equality pairs `0 .. i`.
pub open spec fn spec_pairs_upto(asg: Assignment, i: int) -> Seq<Violation>
    decreases i,
    when i >= 0
{
    if i <= 0 {
        Seq::empty()
    } else {
        spec_pairs_upto(asg, i - 1) + spec_pair_violations(asg, i - 1)
    }
}

/// All permutation violations.
pub open spec fn spec_permutation_violations(asg: Assignment) -> Seq<Violation> {
    spec_pairs_upto(asg, asg.equalities@.len() as int)
}

/// Every violation of the instance, in checking order: gates, then lookups,
/// then equality pairs.
pub open spec fn spec_violations(cs: ConstraintSystem, asg: Assignment) -> Seq<Violation> {
    spec_gate_violations(cs, asg) + spec_lookup_violations(cs, asg) + spec_permutation_violations(
        asg,
    )
}

/// The instance satisfies every declared constraint.
pub open spec fn spec_satisfied(cs: ConstraintSystem, asg: Assignment) -> bool {
    spec_violations(cs, asg).len() == 0
}

/// Every gate's polynomial vanishes on every row its selector activates.
pub open spec fn gates_ok(cs: ConstraintSystem, asg: Assignment) -> bool {
    forall|g: int, row: int|
        0 <= g < cs.gates@.len() && 0 <= row < asg.table.n && asg.selector_on(
            cs.gates@[g].selector,
            row,
        ) ==> #[trigger] spec_eval(cs.gates@[g].poly, asg, row) == Ok::<Fp, Cell>(Fp::zero_spec())
}

/// Every lookup's input evaluates, on every row its selector activates, to a
/// value held somewhere in the target column.
pub open spec fn lookups_ok(cs: ConstraintSystem, asg: Assignment) -> bool {
    forall|l: int, row: int|
        0 <= l < cs.lookups@.len() && 0 <= row < asg.table.n && asg.selector_on(
            cs.lookups@[l].selector,
            row,
        ) ==> (#[trigger] spec_eval(cs.lookups@[l].input, asg, row)) is Ok && spec_table_contains(
            asg,
            cs.lookups@[l].table_column,
            spec_eval(cs.lookups@[l].input, asg, row)->Ok_0,
        )
}

/// Both cells of every declared equality pair are readable and hold the same
/// value.
pub open spec fn permutation_ok(asg: Assignment) -> bool {
    forall|i: int|
        0 <= i < asg.equalities@.len() ==> asg.spec_cell_value(
            (#[trigger] asg.equalities@[i]).0,
        ) is Ok && asg.spec_cell_value(asg.equalities@[i].1) is Ok && asg.spec_cell_value(
            asg.equalities@[i].0,
        )->Ok_0 == asg.spec_cell_value(asg.equalities@[i].1)->Ok_0
}

proof fn lemma_gate_rows_empty(cs: ConstraintSystem, asg: Assignment, g: int, row: int)
    requires
        0 <= row,
    ensures
        (spec_gate_rows_upto(cs, asg, g, row).len() == 0) <==> (forall|r: int|
            0 <= r < row ==> (#[trigger] spec_gate_row(cs, asg, g, r)).len() == 0),
    decreases row,
{
    if row > 0 {
        lemma_gate_rows_empty(cs, asg, g, row - 1);
    }
}

proof fn lemma_gates_empty(cs: ConstraintSystem, asg: Assignment, g: int)
    requires
        0 <= g,
    ensures
        (spec_gates_upto(cs, asg, g).len() == 0) <==> (forall|i: int|
            0 <= i < g ==> (#[trigger] spec_gate_rows_upto(cs, asg, i, asg.table.n as int)).len()
                == 0),
    decreases g,
{
    if g > 0 {
        lemma_gates_empty(cs, asg, g - 1);
    }
}

proof fn lemma_lookup_rows_empty(cs: ConstraintSystem, asg: Assignment, l: int, row: int)
    requires
        0 <= row,
    ensures
        (spec_lookup_rows_upto(cs, asg, l, row).len() == 0) <==> (forall|r: int|
            0 <= r < row ==> (#[trigger] spec_lookup_row(cs, asg, l, r)).len() == 0),
    decreases row,
{
    if row > 0 {
        lemma_lookup_rows_empty(cs, asg, l, row - 1);
    }
}

proof fn lemma_lookups_empty(cs: ConstraintSystem, asg: Assignment, l: int)
    requires
        0 <= l,
    ensures
        (spec_lookups_upto(cs, asg, l).len() == 0) <==> (forall|i: int|
            0 <= i < l ==> (#[trigger] spec_lookup_rows_upto(cs, asg, i, asg.table.n as int)).len()
                == 0),
    decreases l,
{
    if l > 0 {
        lemma_lookups_empty(cs, asg, l - 1);
    }
}

proof fn lemma_pairs_empty(asg: Assignment, i: int)
    requires
        0 <= i,
    ensures
        (spec_pairs_upto(asg, i).len() == 0) <==> (forall|j: int|
            0 <= j < i ==> (#[trigger] spec_pair_violations(asg, j)).len() == 0),
    decreases i,
{
    if i > 0 {
        lemma_pairs_empty(asg, i - 1);
    }
}

/// What an empty violation list means: the checker reports nothing exactly
/// when every gate vanishes on its active rows, every lookup input is found
/// in its target column on its active rows, and the two cells of every
/// equality pair agree.
pub proof fn lemma_satisfied_characterization(cs: ConstraintSystem, asg: Assignment)
    ensures
        spec_satisfied(cs, asg) <==> gates_ok(cs, asg) && lookups_ok(cs, asg) && permutation_ok(
            asg,
        ),
{
    let n = asg.table.n as int;
    lemma_gates_empty(cs, asg, cs.gates@.len() as int);
    lemma_lookups_empty(cs, asg, cs.lookups@.len() as int);
    lemma_pairs_empty(asg, asg.equalities@.len() as int);
    if spec_satisfied(cs, asg) {
        assert forall|g: int, row: int|
            0 <= g < cs.gates@.len() && 0 <= row < asg.table.n && asg.selector_on(
                cs.gates@[g].selector,
                row,
            ) implies #[trigger] spec_eval(cs.gates@[g].poly, asg, row) == Ok::<Fp, Cell>(
            Fp::zero_spec(),
        ) by {
            lemma_gate_rows_empty(cs, asg, g, n);
            assert(spec_gate_row(cs, asg, g, row).len() == 0);
        }
        assert forall|l: int, row: int|
            0 <= l < cs.lookups@.len() && 0 <= row < asg.table.n && asg.selector_on(
                cs.lookups@[l].selector,
                row,
            ) implies (#[trigger] spec_eval(cs.lookups@[l].input, asg, row)) is Ok
            && spec_table_contains(
            asg,
            cs.lookups@[l].table_column,
            spec_eval(cs.lookups@[l].input, asg, row)->Ok_0,
        ) by {
            lemma_lookup_rows_empty(cs, asg, l, n);
            assert(spec_lookup_row(cs, asg, l, row).len() == 0);
        }
        assert forall|i: int| 0 <= i < asg.equalities@.len() implies asg.spec_cell_value(
            (#[trigger] asg.equalities@[i]).0,
        ) is Ok && asg.spec_cell_value(asg.equalities@[i].1) is Ok && asg.spec_cell_value(
            asg.equalities@[i].0,
        )->Ok_0 == asg.spec_cell_value(asg.equalities@[i].1)->Ok_0 by {
            assert(spec_pair_violations(asg, i).len() == 0);
        }
    }
    if gates_ok(cs, asg) && lookups_ok(cs, asg) && permutation_ok(asg) {
        assert forall|i: int| 0 <= i < cs.gates@.len() implies (#[trigger] spec_gate_rows_upto(
            cs,
            asg,
            i,
            n,
        )).len() == 0 by {
            lemma_gate_rows_empty(cs, asg, i, n);
            assert forall|r: int| 0 <= r < n implies (#[trigger] spec_gate_row(cs, asg, i, r)).len()
                == 0 by {
                if asg.selector_on(cs.gates@[i].selector, r) {
                    assert(spec_eval(cs.gates@[i].poly, asg, r) == Ok::<Fp, Cell>(Fp::zero_spec()));
                }
            }
        }
        assert forall|i: int| 0 <= i < cs.lookups@.len() implies (#[trigger] spec_lookup_rows_upto(
            cs,
            asg,
            i,
            n,
        )).len() == 0 by {
            lemma_lookup_rows_empty(cs, asg, i, n);
            assert forall|r: int| 0 <= r < n implies (#[trigger] spec_lookup_row(
                cs,
                asg,
                i,
                r,
            )).len() == 0 by {
                if asg.selector_on(cs.lookups@[i].selector, r) {
                    assert((spec_eval(cs.lookups@[i].input, asg, r)) is Ok && spec_table_contains(
                        asg,
                        cs.lookups@[i].table_column,
                        spec_eval(cs.lookups@[i].input, asg, r)->Ok_0,
                    ));
                }
            }
        }
        assert forall|j: int| 0 <= j < asg.equalities@.len() implies (#[trigger]
        spec_pair_violations(asg, j)).len() == 0 by {
            assert(asg.spec_cell_value(asg.equalities@[j].0) is Ok);
        }
        assert(spec_violations(cs, asg).len() == 0);
    }
}

/// A row whose gate selector is off contributes nothing, whatever stands in
/// the cells a gate would read: the checker only considers rows where the
/// governing selector is enabled.
pub proof fn lemma_gate_row_skipped(cs: ConstraintSystem, asg: Assignment, g: int, row: int)
    requires
        !asg.selector_on(cs.gates@[g].selector, row),
    ensures
        spec_gate_row(cs, asg, g, row) == Seq::<Violation>::empty(),
{
}

proof fn lemma_pairs_upto_index(asg: Assignment, i: int, j: int, v: Violation)
    requires
        0 <= i < j,
        spec_pair_violations(asg, i).contains(v),
    ensures
        spec_pairs_upto(asg, j).contains(v),
    decreases j,
{
    if j == i + 1 {
        assert(spec_pairs_upto(asg, j) == spec_pairs_upto(asg, i) + spec_pair_violations(asg, i));
        let k = choose|k: int|
            0 <= k < spec_pair_violations(asg, i).len() && #[trigger] spec_pair_violations(asg, i)[k]
                == v;
        assert(spec_pairs_upto(asg, j)[spec_pairs_upto(asg, i).len() + k] == v);
    } else {
        lemma_pairs_upto_index(asg, i, j - 1, v);
        let k = choose|k: int|
            0 <= k < spec_pairs_upto(asg, j - 1).len() && #[trigger] spec_pairs_upto(asg, j - 1)[k]
                == v;
        assert(spec_pairs_upto(asg, j)[k] == v);
    }
}

/// A declared equality pair whose two cells hold different values is always
/// reported: the violation list contains a permutation finding that names
/// both cells and both values.
pub proof fn lemma_mismatched_pair_reported(
    cs: ConstraintSystem,
    asg: Assignment,
    i: int,
    va: Fp,
    vb: Fp,
)
    requires
        0 <= i < asg.equalities@.len(),
        asg.spec_cell_value(asg.equalities@[i].0) == Ok::<Fp, Cell>(va),
        asg.spec_cell_value(asg.equalities@[i].1) == Ok::<Fp, Cell>(vb),
        va != vb,
    ensures
        spec_violations(cs, asg).contains(
            Violation::PermutationNotSatisfied {
                index: i as usize,
                a: asg.equalities@[i].0,
                b: asg.equalities@[i].1,
                value_a: va,
                value_b: vb,
            },
        ),
{
    let v = Violation::PermutationNotSatisfied {
        index: i as usize,
        a: asg.equalities@[i].0,
        b: asg.equalities@[i].1,
        value_a: va,
        value_b: vb,
    };
    assert(spec_pair_violations(asg, i)[0] == v);
    lemma_pairs_upto_index(asg, i, asg.equalities@.len() as int, v);
    let k = choose|k: int|
        0 <= k < spec_permutation_violations(asg).len() && spec_permutation_violations(asg)[k]
            == v;
    let base = spec_gate_violations(cs, asg) + spec_lookup_violations(cs, asg);
    assert(spec_violations(cs, asg)[base.len() + k] == v);
}

/// Two cells stand in one declared pair, in either order.
pub open spec fn adjacent(pairs: Seq<(Cell, Cell)>, a: Cell, b: Cell) -> bool {
    exists|i: int|
        0 <= i < pairs.len() && ((#[trigger] pairs[i]) == (a, b) || pairs[i] == (b, a))
}

/// The path steps through declared pairs from `a` to `b`.
pub open spec fn connected_via(pairs: Seq<(Cell, Cell)>, path: Seq<Cell>, a: Cell, b: Cell) -> bool {
    &&& path.len() >= 1
    &&& path.first() == a
    &&& path.last() == b
    &&& forall|i: int| 0 <= i < path.len() - 1 ==> adjacent(pairs, #[trigger] path[i], path[i + 1])
}

/// The two cells lie in one equivalence class of the declared pairs.
pub open spec fn same_class(pairs: Seq<(Cell, Cell)>, a: Cell, b: Cell) -> bool {
    a == b || exists|path: Seq<Cell>| connected_via(pairs, path, a, b)
}

proof fn lemma_path_values(asg: Assignment, path: Seq<Cell>)
    requires
        permutation_ok(asg),
        path.len() >= 1,
        forall|i: int|
            0 <= i < path.len() - 1 ==> adjacent(asg.equalities@, #[trigger] path[i], path[i + 1]),
    ensures
        asg.spec_cell_value(path.first()) == asg.spec_cell_value(path.last()),
    decreases path.len(),
{
    if path.len() > 1 {
        let pairs = asg.equalities@;
        assert(adjacent(pairs, path[0], path[1]));
        let i = choose|i: int|
            0 <= i < pairs.len() && ((#[trigger] pairs[i]) == (path[0], path[1]) || pairs[i] == (
                path[1],
                path[0],
            ));
        assert(asg.spec_cell_value(pairs[i].0) is Ok);
        let sub = path.drop_first();
        assert forall|k: int| 0 <= k < sub.len() - 1 implies adjacent(
            pairs,
            #[trigger] sub[k],
            sub[k + 1],
        ) by {
            assert(sub[k] == path[k + 1]);
            assert(sub[k + 1] == path[k + 2]);
            assert(adjacent(pairs, path[k + 1], path[k + 2]));
        }
        assert(sub.first() == path[1]);
        assert(sub.last() == path.last());
        lemma_path_values(asg, sub);
    }
}

/// One class, one value: when the checker finds no permutation violation,
/// any two cells in one equivalence class of the declared pairs read the
/// same, including both being readable at all.
pub proof fn lemma_equality_class_single_valued(asg: Assignment, a: Cell, b: Cell)
    requires
        permutation_ok(asg),
        same_class(asg.equalities@, a, b),
    ensures
        asg.spec_cell_value(a) == asg.spec_cell_value(b),
{
    if a != b {
        let path = choose|path: Seq<Cell>| connected_via(asg.equalities@, path, a, b);
        lemma_path_values(asg, path);
    }
}

/// Scans the target column for the value.
fn table_contains(asg: &Assignment, col: Column, v: Fp) -> (r: bool)
    requires
        asg.shape_wf(),
    ensures
        r == spec_table_contains(*asg, col, v),
{
    let n = asg.table.n;
    let mut row: usize = 0;
    while row < n
        invariant
            row <= n,
            n == asg.table.n,
            asg.shape_wf(),
            forall|x: int|
                0 <= x < row ==> #[trigger] asg.spec_cell_value(Cell { column: col, row: x as usize })
                    != Ok::<Fp, Cell>(v),
        decreases n - row,
    {
        match asg.cell_value(Cell { column: col, row }) {
            Ok(w) => {
                if w == v {
                    assert(spec_table_contains(*asg, col, v)) by {
                        assert(asg.spec_cell_value(Cell { column: col, row: row as usize })
                            == Ok::<Fp, Cell>(v));
                    }
                    return true;
                }
            },
            Err(_) => {},
        }
        row = row + 1;
    }
    false
}

/// Appends the violations of gate `g` at one row.
fn check_gate_row(cs: &ConstraintSystem, asg: &Assignment, g: usize, row: usize, out: &mut Vec<
    Violation,
>)
    requires
        cs.wf(),
        asg.wf(cs),
        g < cs.gates@.len(),
        row < asg.table.n,
    ensures
        final(out)@ == old(out)@ + spec_gate_row(*cs, *asg, g as int, row as int),
{
    let ghost pre = out@;
    let gate = &cs.gates[g];
    if asg.table.selectors[gate.selector.index][row] {
        match eval(&gate.poly, cs, asg, row) {
            Err(cell) => {
                out.push(Violation::CellNotAssigned { cell });
            },
            Ok(v) => {
                if !(v == Fp::zero()) {
                    let location = location_of(asg, row);
                    out.push(Violation::ConstraintNotSatisfied { gate: g, row, location });
                }
            },
        }
    }
    assert(out@ =~= pre + spec_gate_row(*cs, *asg, g as int, row as int));
}

/// Appends the violations of lookup `l` at one row.
fn check_lookup_row(cs: &ConstraintSystem, asg: &Assignment, l: usize, row: usize, out: &mut Vec<
    Violation,
>)
    requires
        cs.wf(),
        asg.wf(cs),
        l < cs.lookups@.len(),
        row < asg.table.n,
    ensures
        final(out)@ == old(out)@ + spec_lookup_row(*cs, *asg, l as int, row as int),
{
    let ghost pre = out@;
    let lk = &cs.lookups[l];
    if asg.table.selectors[lk.selector.index][row] {
        match eval(&lk.input, cs, asg, row) {
            Err(cell) => {
                out.push(Violation::CellNotAssigned { cell });
            },
            Ok(v) => {
                if !table_contains(asg, lk.table_column, v) {
                    let location = location_of(asg, row);
                    out.push(
                        Violation::LookupNotSatisfied { lookup: l, row, location, value: v },
                    );
                }
            },
        }
    }
    assert(out@ =~= pre + spec_lookup_row(*cs, *asg, l as int, row as int));
}

/// Appends the violations of equality pair `i`.
fn check_pair(asg: &Assignment, i: usize, out: &mut Vec<Violation>)
    requires
        asg.shape_wf(),
        i < asg.equalities@.len(),
    ensures
        final(out)@ == old(out)@ + spec_pair_violations(*asg, i as int),
{
    let ghost pre = out@;
    let (a, b) = asg.equalities[i];
    match asg.cell_value(a) {
        Err(c) => {
            out.push(Violation::CellNotAssigned { cell: c });
        },
        Ok(va) => match asg.cell_value(b) {
            Err(c) => {
                out.push(Violation::CellNotAssigned { cell: c });
            },
            Ok(vb) => {
                if !(va == vb) {
                    out.push(
                        Violation::PermutationNotSatisfied { index: i, a, b, value_a: va, value_b: vb },
                    );
                }
            },
        },
    }
    assert(out@ =~= pre + spec_pair_violations(*asg, i as int));
}

/// Checks the whole instance and returns every violation, in checking order.
pub fn verify(cs: &ConstraintSystem, asg: &Assignment) -> (v: Vec<Violation>)
    requires
        cs.wf(),
        asg.wf(cs),
    ensures
        v@ == spec_violations(*cs, *asg),
{
    let mut out: Vec<Violation> = Vec::new();
    let n = asg.table.n;

    let mut g: usize = 0;
    while g < cs.gates.len()
        invariant
            g <= cs.gates@.len(),
            cs.wf(),
            asg.wf(cs),
            n == asg.table.n,
            out@ == spec_gates_upto(*cs, *asg, g as int),
        decreases cs.gates@.len() - g,
    {
        let mut row: usize = 0;
        while row < n
            invariant
                row <= n,
                g < cs.gates@.len(),
                cs.wf(),
                asg.wf(cs),
                n == asg.table.n,
                out@ == spec_gates_upto(*cs, *asg, g as int) + spec_gate_rows_upto(
                    *cs,
                    *asg,
                    g as int,
                    row as int,
                ),
            decreases n - row,
        {
            check_gate_row(cs, asg, g, row, &mut out);
            proof {
                assert(out@ =~= spec_gates_upto(*cs, *asg, g as int) + spec_gate_rows_upto(
                    *cs,
                    *asg,
                    g as int,
                    row + 1,
                ));
            }
            row = row + 1;
        }
        proof {
            assert(out@ =~= spec_gates_upto(*cs, *asg, g + 1));
        }
        g = g + 1;
    }
    assert(out@ == spec_gate_violations(*cs, *asg));

    let mut l: usize = 0;
    while l < cs.lookups.len()
        invariant
            l <= cs.lookups@.len(),
            cs.wf(),
            asg.wf(cs),
            n == asg.table.n,
            out@ == spec_gate_violations(*cs, *asg) + spec_lookups_upto(*cs, *asg, l as int),
        decreases cs.lookups@.len() - l,
    {
        let mut row: usize = 0;
        while row < n
            invariant
                row <= n,
                l < cs.lookups@.len(),
                cs.wf(),
                asg.wf(cs),
                n == asg.table.n,
                out@ == spec_gate_violations(*cs, *asg) + spec_lookups_upto(*cs, *asg, l as int)
                    + spec_lookup_rows_upto(*cs, *asg, l as int, row as int),
            decreases n - row,
        {
            check_lookup_row(cs, asg, l, row, &mut out);
            proof {
                assert(out@ =~= spec_gate_violations(*cs, *asg) + spec_lookups_upto(
                    *cs,
                    *asg,
                    l as int,
                ) + spec_lookup_rows_upto(*cs, *asg, l as int, row + 1));
            }
            row = row + 1;
        }
        proof {
            assert(out@ =~= spec_gate_violations(*cs, *asg) + spec_lookups_upto(*cs, *asg, l + 1));
        }
        l = l + 1;
    }
    assert(out@ == spec_gate_violations(*cs, *asg) + spec_lookup_violations(*cs, *asg));

    let mut i: usize = 0;
    while i < asg.equalities.len()
        invariant
            i <= asg.equalities@.len(),
            cs.wf(),
            asg.wf(cs),
            out@ == spec_gate_violations(*cs, *asg) + spec_lookup_violations(*cs, *asg)
                + spec_pairs_upto(*asg, i as int),
        decreases asg.equalities@.len() - i,
    {
        check_pair(asg, i, &mut out);
        proof {
            assert(out@ =~= spec_gate_violations(*cs, *asg) + spec_lookup_violations(*cs, *asg)
                + spec_pairs_upto(*asg, i + 1));
        }
        i = i + 1;
    }
    proof {
        assert(out@ =~= spec_violations(*cs, *asg));
    }
    out
}

/// The cells a gate's polynomial queries at a base row, with their values:
/// one entry per query, left to right, as (column, rotation, value), the
/// value `None` for an unassigned cell.
pub open spec fn spec_gate_cells(cs: ConstraintSystem, asg: Assignment, g: int, row: int) -> Seq<
    (Column, usize, Option<Fp>),
> {
    Seq::new(
        cs.gates@[g].poly.queries().len(),
        |j: int|
            {
                let q = cs.gates@[g].poly.queries()[j];
                let cell = Cell {
                    column: q.0,
                    row: wrap_row(row, q.1 as int, asg.table.n as int) as usize,
                };
                (
                    q.0,
                    q.1,
                    match asg.spec_cell_value(cell) {
                        Result::Ok(v) => Some(v),
                        Result::Err(_) => None,
                    },
                )
            },
    )
}

/// Reports the cells involved in a gate at one row, with the concrete value
/// of each, for diagnosing a constraint violation.
pub fn gate_cells(cs: &ConstraintSystem, asg: &Assignment, g: usize, row: usize) -> (r: Vec<
    (Column, usize, Option<Fp>),
>)
    requires
        cs.wf(),
        asg.wf(cs),
        g < cs.gates@.len(),
        row < asg.table.n,
    ensures
        r@ == spec_gate_cells(*cs, *asg, g as int, row as int),
{
    let mut queries: Vec<(Column, usize)> = Vec::new();
    cs.gates[g].poly.collect_queries(&mut queries);
    let mut r: Vec<(Column, usize, Option<Fp>)> = Vec::new();
    let mut j: usize = 0;
    while j < queries.len()
        invariant
            j <= queries@.len(),
            cs.wf(),
            asg.wf(cs),
            g < cs.gates@.len(),
            row < asg.table.n,
            queries@ == cs.gates@[g as int].poly.queries(),
            r@.len() == j,
            forall|x: int|
                0 <= x < j ==> r@[x] == spec_gate_cells(*cs, *asg, g as int, row as int)[x],
        decreases queries@.len() - j,
    {
        let (column, rotation) = queries[j];
        let wr = wrap(row, rotation, asg.table.n);
        let value = match asg.cell_value(Cell { column, row: wr }) {
            Ok(v) => Some(v),
            Err(_) => None,
        };
        r.push((column, rotation, value));
        j = j + 1;
    }
    proof {
        assert(r@ =~= spec_gate_cells(*cs, *asg, g as int, row as int));
    }
    r
}

/// Whether the instance satisfies every declared constraint.
pub fn is_satisfied(cs: &ConstraintSystem, asg: &Assignment) -> (r: bool)
    requires
        cs.wf(),
        asg.wf(cs),
    ensures
        r == spec_satisfied(*cs, *asg),
{
    let v = verify(cs, asg);
    v.len() == 0
}

/// The convenience entry point for pass/fail use: callable only on a
/// satisfied instance, where the full check is owed to find nothing. The
/// list-returning `verify` serves precise inspection.
pub fn assert_satisfied(cs: &ConstraintSystem, asg: &Assignment)
    requires
        cs.wf(),
        asg.wf(cs),
        spec_satisfied(*cs, *asg),
{
    let v = verify(cs, asg);
    assert(v@.len() == 0);
}

} // verus!
