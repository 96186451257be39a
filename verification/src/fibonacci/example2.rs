//! The single-column Fibonacci circuit.
//!
//! One advice column holds the whole sequence; one gate queries the same
//! column at rotations 0, 1 and 2, so one selector row constrains three
//! consecutive cells. The first two cells are bound to the public inputs, and
//! the last computed cell is exposed back to them.

use vstd::prelude::*;
use vstd::string::StringExecFns;

use crate::assign::{Assignment, Error};
use crate::column::{Cell, Column, ColumnKind, Selector};
use crate::expr::Expr;
use crate::field::Fp;
use crate::system::ConstraintSystem;

verus! {

/// The Fibonacci sequence in the scalar field, from seeds `a` and `b`.
pub open spec fn fib_fp(a: Fp, b: Fp, i: int) -> Fp
    decreases i,
    when i >= 0
{
    if i <= 0 {
        a
    } else if i == 1 {
        b
    } else {
        Fp::add_spec(fib_fp(a, b, i - 2), fib_fp(a, b, i - 1))
    }
}

/// The addition constraint's polynomial: the column at the base row plus the
/// column one row below, minus the column two rows below.
pub open spec fn fib_gate_poly(advice: Column) -> Expr {
    Expr::Diff(
        Box::new(
            Expr::Sum(
                Box::new(Expr::Query { column: advice, rotation: 0 }),
                Box::new(Expr::Query { column: advice, rotation: 1 }),
            ),
        ),
        Box::new(Expr::Query { column: advice, rotation: 2 }),
    )
}

/// The advice column after `upto` rows of the sequence stand at
/// `r0 .. r0 + upto`: the sequence there, the old cells elsewhere.
pub open spec fn fib_witness_col(
    pre: Seq<Option<Fp>>,
    r0: int,
    upto: int,
    p0: Fp,
    p1: Fp,
) -> Seq<Option<Fp>> {
    Seq::new(
        pre.len(),
        |j: int|
            if r0 <= j < r0 + upto {
                Some(fib_fp(p0, p1, j - r0))
            } else {
                pre[j]
            },
    )
}

/// The selector column after the region's first `upto` offsets are processed:
/// on at offset 0 and at offsets `2 .. upto` that lie below `nrows - 2`, the
/// old flags elsewhere.
pub open spec fn fib_selector_col(pre: Seq<bool>, r0: int, upto: int, nrows: int) -> Seq<bool> {
    Seq::new(
        pre.len(),
        |j: int|
            if j == r0 || (r0 + 2 <= j < r0 + upto && j < r0 + (nrows - 2)) {
                true
            } else {
                pre[j]
            },
    )
}

/// How `FiboChip::assign` changes the layouter when it succeeds: one region
/// of `nrows` rows named `entire fibonacci table` at the old cursor, the
/// advice column holding the Fibonacci sequence seeded by the first two
/// public inputs, the selector on at offset 0 and at offsets `2 .. nrows - 2`,
/// the first two rows constrained equal to the public inputs, and everything
/// else untouched.
pub open spec fn fib_assigned(
    pre: Assignment,
    post: Assignment,
    config: FiboConfig,
    nrows: int,
) -> bool {
    let r0 = pre.cursor as int;
    &&& fib_assigned_core(pre, post, config, nrows)
    &&& post.equalities@ == pre.equalities@.push(
        (Cell { column: config.instance, row: 0 }, Cell { column: config.advice, row: r0 as usize }),
    ).push(
        (
            Cell { column: config.instance, row: 1 },
            Cell { column: config.advice, row: (r0 + 1) as usize },
        ),
    )
}

/// The table-side clauses of `fib_assigned`, shared with the synthesized
/// relation, which adds one more equality pair.
pub open spec fn fib_assigned_core(
    pre: Assignment,
    post: Assignment,
    config: FiboConfig,
    nrows: int,
) -> bool {
    let r0 = pre.cursor as int;
    let p0 = pre.public@[config.instance.index as int]@[0];
    let p1 = pre.public@[config.instance.index as int]@[1];
    &&& post.table.regions@.len() == pre.table.regions@.len() + 1
    &&& post.table.regions@.drop_last() == pre.table.regions@
    &&& post.table.regions@.last().name@ == "entire fibonacci table"@
    &&& post.table.regions@.last().start == r0
    &&& post.table.regions@.last().rows == nrows
    &&& post.cursor == pre.cursor + nrows
    &&& post.table.witness@.len() == pre.table.witness@.len()
    &&& forall|c: int|
        0 <= c < pre.table.witness@.len() && c != config.advice.index ==> post.table.witness@[c]
            == pre.table.witness@[c]
    &&& post.table.witness@[config.advice.index as int]@ == fib_witness_col(
        pre.table.witness@[config.advice.index as int]@,
        r0,
        nrows,
        p0,
        p1,
    )
    &&& post.table.selectors@.len() == pre.table.selectors@.len()
    &&& forall|c: int|
        0 <= c < pre.table.selectors@.len() && c != config.selector.index
            ==> post.table.selectors@[c] == pre.table.selectors@[c]
    &&& post.table.selectors@[config.selector.index as int]@ == fib_selector_col(
        pre.table.selectors@[config.selector.index as int]@,
        r0,
        nrows,
        nrows,
    )
    &&& post.table.fixed == pre.table.fixed
    &&& post.table.n == pre.table.n
    &&& post.public == pre.public
    &&& post.witness_eq == pre.witness_eq
    &&& post.public_eq == pre.public_eq
    &&& post.fixed_eq == pre.fixed_eq
}

/// One advice column, a selector for the addition gate, and the public
/// column.
#[derive(Clone, Copy, Debug, PartialEq, Eq, Structural)]
pub struct FiboConfig {
    pub advice: Column,
    pub selector: Selector,
    pub instance: Column,
}

impl FiboConfig {
    /// The configuration fits the assignment: its columns and selector exist
    /// there, and both its columns take part in equality constraints.
    pub open spec fn suits(&self, asg: Assignment) -> bool {
        &&& self.advice.kind == ColumnKind::Witness
        &&& self.advice.index < asg.table.witness@.len()
        &&& self.selector.index < asg.table.selectors@.len()
        &&& self.instance.kind == ColumnKind::Public
        &&& self.instance.index < asg.public@.len()
        &&& asg.eq_enabled(self.advice)
        &&& asg.eq_enabled(self.instance)
    }
}

/// The chip: declares the addition gate once and provides the assignment
/// routine.
pub struct FiboChip {
    pub config: FiboConfig,
}

impl FiboChip {
    pub fn construct(config: FiboConfig) -> (chip: FiboChip)
        ensures
            chip.config == config,
    {
        FiboChip { config }
    }

    /// Declares a gate named `add` over the advice column at rotations
    /// 0, 1 and 2, and enables equality on the advice and public columns.
    pub fn configure(meta: &mut ConstraintSystem, advice: Column, instance: Column) -> (config:
        FiboConfig)
        requires
            old(meta).column_declared(advice),
            advice.kind == ColumnKind::Witness,
            old(meta).column_declared(instance),
            instance.kind == ColumnKind::Public,
        ensures
            config.advice == advice,
            config.selector.index == old(meta).num_selectors(),
            config.instance == instance,
            final(meta).selectors_complex@ == old(meta).selectors_complex@.push(false),
            final(meta).flags(ColumnKind::Witness) == old(meta).flags(ColumnKind::Witness).update(
                advice.index as int,
                true,
            ),
            final(meta).flags(ColumnKind::Public) == old(meta).flags(ColumnKind::Public).update(
                instance.index as int,
                true,
            ),
            final(meta).flags(ColumnKind::Fixed) == old(meta).flags(ColumnKind::Fixed),
            final(meta).gates@.len() == old(meta).gates@.len() + 1,
            final(meta).gates@.drop_last() == old(meta).gates@,
            final(meta).gates@.last().name@ == "add"@,
            final(meta).gates@.last().selector == config.selector,
            final(meta).gates@.last().poly == fib_gate_poly(advice),
            final(meta).lookups@ == old(meta).lookups@,
            old(meta).wf() ==> final(meta).wf(),
    {
        let selector = meta.add_selector(false);
        meta.enable_equality(advice);
        meta.enable_equality(instance);
        let poly = Expr::Diff(
            Box::new(
                Expr::Sum(
                    Box::new(Expr::Query { column: advice, rotation: 0 }),
                    Box::new(Expr::Query { column: advice, rotation: 1 }),
                ),
            ),
            Box::new(Expr::Query { column: advice, rotation: 2 }),
        );
        proof {
            let q0 = Expr::Query { column: advice, rotation: 0 };
            let q1 = Expr::Query { column: advice, rotation: 1 };
            let q2 = Expr::Query { column: advice, rotation: 2 };
            assert(q0.wf(*meta) && q1.wf(*meta) && q2.wf(*meta));
            let s01 = Expr::Sum(Box::new(q0), Box::new(q1));
            assert(s01.wf(*meta));
            assert((Expr::Diff(Box::new(s01), Box::new(q2))).wf(*meta));
        }
        let name = String::from_str("add");
        meta.add_gate(name, selector, poly);
        FiboConfig { advice, selector, instance }
    }

    /// Lays out the whole table in one region: binds rows 0 and 1 to the
    /// first two public inputs, fills each later row with the sum of the two
    /// before it, and enables the selector on row 0 and on every row
    /// from 2 whose two successors stay inside the region. Returns the cell
    /// of the last row.
    pub fn assign(&self, layouter: &mut Assignment, nrows: usize) -> (r: Result<Cell, Error>)
        requires
            old(layouter).shape_wf(),
            self.config.suits(*old(layouter)),
            2 <= nrows,
        ensures
            final(layouter).shape_wf(),
            self.config.suits(*final(layouter)),
            r is Ok <==> old(layouter).cursor + nrows <= old(layouter).table.n && old(
                layouter,
            ).public@[self.config.instance.index as int]@.len() >= 2,
            old(layouter).cursor + nrows > old(layouter).table.n ==> r == Err::<Cell, Error>(
                Error::NotEnoughRows,
            ) && *final(layouter) == *old(layouter),
            old(layouter).cursor + nrows <= old(layouter).table.n && old(
                layouter,
            ).public@[self.config.instance.index as int]@.len() < 2 ==> r == Err::<Cell, Error>(
                Error::OutOfBounds,
            ),
            r matches Ok(out) ==> fib_assigned(
                *old(layouter),
                *final(layouter),
                self.config,
                nrows as int,
            ) && out == (Cell {
                column: self.config.advice,
                row: (old(layouter).cursor + nrows - 1) as usize,
            }),
    {
        let instance = self.config.instance;
        let advice = self.config.advice;
        let ghost pre = *old(layouter);
        let ghost ai = advice.index as int;
        let ghost si = self.config.selector.index as int;
        let ghost pre_w = pre.table.witness@[ai]@;
        let ghost pre_s = pre.table.selectors@[si]@;
        let region = match layouter.assign_region(
            String::from_str("entire fibonacci table"),
            nrows,
        ) {
            Ok(region) => region,
            Err(e) => {
                return Err(e);
            },
        };
        let ghost r0 = region.start as int;
        proof {
            assert(layouter.table.regions@.drop_last() =~= pre.table.regions@);
        }
        match layouter.enable_selector(region, self.config.selector, 0) {
            Ok(u) => u,
            Err(e) => {
                return Err(e);
            },
        };
        let a_cell = match layouter.assign_from_public(region, instance, 0, advice, 0) {
            Ok(c) => c,
            Err(e) => {
                return Err(e);
            },
        };
        let b_cell = match layouter.assign_from_public(region, instance, 1, advice, 1) {
            Ok(c) => c,
            Err(e) => {
                return Err(e);
            },
        };
        let ghost p0 = pre.public@[instance.index as int]@[0];
        let ghost p1 = pre.public@[instance.index as int]@[1];
        proof {
            assert(layouter.table.witness@[ai]@ =~= fib_witness_col(pre_w, r0, 2, p0, p1));
            assert(layouter.table.selectors@[si]@ =~= fib_selector_col(pre_s, r0, 2, nrows as int));
        }
        let mut va = match layouter.cell_value(a_cell) {
            Ok(v) => v,
            Err(_) => {
                proof {
                    assert(false);
                }
                Fp::zero()
            },
        };
        let mut vb = match layouter.cell_value(b_cell) {
            Ok(v) => v,
            Err(_) => {
                proof {
                    assert(false);
                }
                Fp::zero()
            },
        };
        let mut out = b_cell;
        let mut row: usize = 2;
        while row < nrows
            invariant
                2 <= row <= nrows,
                layouter.shape_wf(),
                self.config.suits(*layouter),
                advice == self.config.advice,
                instance == self.config.instance,
                ai == advice.index as int,
                si == self.config.selector.index as int,
                layouter.region_wf(region),
                region.rows == nrows,
                region.start == r0,
                r0 + nrows <= layouter.table.n,
                pre_w == pre.table.witness@[ai]@,
                pre_s == pre.table.selectors@[si]@,
                p0 == pre.public@[instance.index as int]@[0],
                p1 == pre.public@[instance.index as int]@[1],
                va == fib_fp(p0, p1, row - 2),
                vb == fib_fp(p0, p1, row - 1),
                out == (Cell { column: advice, row: (r0 + row - 1) as usize }),
                layouter.table.witness@.len() == pre.table.witness@.len(),
                forall|c: int|
                    0 <= c < pre.table.witness@.len() && c != ai ==> layouter.table.witness@[c]
                        == pre.table.witness@[c],
                layouter.table.witness@[ai]@ == fib_witness_col(pre_w, r0, row as int, p0, p1),
                layouter.table.selectors@.len() == pre.table.selectors@.len(),
                forall|c: int|
                    0 <= c < pre.table.selectors@.len() && c != si ==> layouter.table.selectors@[c]
                        == pre.table.selectors@[c],
                layouter.table.selectors@[si]@ == fib_selector_col(
                    pre_s,
                    r0,
                    row as int,
                    nrows as int,
                ),
                layouter.table.fixed == pre.table.fixed,
                layouter.table.regions@.len() == pre.table.regions@.len() + 1,
                layouter.table.regions@.drop_last() == pre.table.regions@,
                layouter.table.regions@.last().name@ == "entire fibonacci table"@,
                layouter.table.regions@.last().start == r0,
                layouter.table.regions@.last().rows == nrows,
                layouter.table.n == pre.table.n,
                layouter.public == pre.public,
                layouter.equalities@ == pre.equalities@.push(
                    (Cell { column: instance, row: 0 }, Cell { column: advice, row: r0 as usize }),
                ).push(
                    (
                        Cell { column: instance, row: 1 },
                        Cell { column: advice, row: (r0 + 1) as usize },
                    ),
                ),
                layouter.cursor == pre.cursor + nrows,
                layouter.witness_eq == pre.witness_eq,
                layouter.public_eq == pre.public_eq,
                layouter.fixed_eq == pre.fixed_eq,
            decreases nrows - row,
        {
            let ghost w_before = layouter.table.witness@[ai]@;
            let ghost s_before = layouter.table.selectors@[si]@;
            if row < nrows - 2 {
                match layouter.enable_selector(region, self.config.selector, row) {
                    Ok(u) => u,
                    Err(_) => {
                        proof {
                            assert(false);
                        }
                    },
                };
            }
            proof {
                assert(layouter.table.selectors@[si]@ =~= fib_selector_col(
                    pre_s,
                    r0,
                    row + 1,
                    nrows as int,
                ));
            }
            let c_val = va.add(vb);
            let c_cell = match layouter.assign_witness(region, advice, row, Some(c_val)) {
                Ok(c) => c,
                Err(_) => {
                    proof {
                        assert(false);
                    }
                    out
                },
            };
            proof {
                assert(layouter.table.witness@[ai]@ =~= fib_witness_col(
                    pre_w,
                    r0,
                    row + 1,
                    p0,
                    p1,
                ));
            }
            va = vb;
            vb = c_val;
            out = c_cell;
            row = row + 1;
        }
        proof {
            assert(fib_assigned(pre, *layouter, self.config, nrows as int));
        }
        Ok(out)
    }

    /// Exposes an assigned cell as equal to the given absolute row of the
    /// public column.
    pub fn expose_public(&self, layouter: &mut Assignment, cell: Cell, row: usize) -> (r: Result<
        (),
        Error,
    >)
        requires
            old(layouter).shape_wf(),
            self.config.instance.kind == ColumnKind::Public,
        ensures
            final(layouter).shape_wf(),
            r is Ok <==> old(layouter).eq_enabled(cell.column) && old(layouter).eq_enabled(
                self.config.instance,
            ) && row < old(layouter).public@[self.config.instance.index as int]@.len(),
            r is Ok ==> final(layouter).equalities@ == old(layouter).equalities@.push(
                (cell, Cell { column: self.config.instance, row: row }),
            ) && final(layouter).table == old(layouter).table && final(layouter).public == old(
                layouter,
            ).public && final(layouter).cursor == old(layouter).cursor && final(layouter).witness_eq
                == old(layouter).witness_eq && final(layouter).public_eq == old(layouter).public_eq
                && final(layouter).fixed_eq == old(layouter).fixed_eq,
            r is Err ==> *final(layouter) == *old(layouter),
            !(old(layouter).eq_enabled(cell.column) && old(layouter).eq_enabled(
                self.config.instance,
            )) ==> r == Err::<(), Error>(Error::EqualityNotEnabled),
            old(layouter).eq_enabled(cell.column) && old(layouter).eq_enabled(self.config.instance)
                && row >= old(layouter).public@[self.config.instance.index as int]@.len() ==> r
                == Err::<(), Error>(Error::OutOfBounds),
    {
        layouter.constrain_public(cell, self.config.instance, row)
    }
}

/// How `MyCircuit::synthesize` changes the layouter when it succeeds: the
/// whole ten-row table of `fib_assigned`, and one more equality exposing the
/// last cell as the third public input.
pub open spec fn fib_synthesized(pre: Assignment, post: Assignment, config: FiboConfig) -> bool {
    let r0 = pre.cursor as int;
    &&& fib_assigned_core(pre, post, config, 10)
    &&& post.equalities@ == pre.equalities@.push(
        (Cell { column: config.instance, row: 0 }, Cell { column: config.advice, row: r0 as usize }),
    ).push(
        (
            Cell { column: config.instance, row: 1 },
            Cell { column: config.advice, row: (r0 + 1) as usize },
        ),
    ).push(
        (
            Cell { column: config.advice, row: (r0 + 9) as usize },
            Cell { column: config.instance, row: 2 },
        ),
    )
}

/// A freshly synthesized table satisfies its own constraint system: when the
/// circuit's single gate and no lookups are declared, the table was built by
/// `FiboChip::assign` on a fresh layouter, and the three public inputs are
/// the two seeds and the tenth sequence value, the checker finds nothing.
pub proof fn lemma_fib_synthesis_satisfied(
    cs: ConstraintSystem,
    pre: Assignment,
    post: Assignment,
    config: FiboConfig,
)
    requires
        cs.gates@.len() == 1,
        cs.gates@[0].selector == config.selector,
        cs.gates@[0].poly == fib_gate_poly(config.advice),
        cs.lookups@.len() == 0,
        config.suits(post),
        post.shape_wf(),
        fib_assigned_core(pre, post, config, 10),
        post.equalities@ == pre.equalities@.push(
            (
                Cell { column: config.instance, row: 0 },
                Cell { column: config.advice, row: pre.cursor },
            ),
        ).push(
            (
                Cell { column: config.instance, row: 1 },
                Cell { column: config.advice, row: (pre.cursor + 1) as usize },
            ),
        ).push(
            (
                Cell { column: config.advice, row: (pre.cursor + 9) as usize },
                Cell { column: config.instance, row: 2 },
            ),
        ),
        pre.equalities@.len() == 0,
        forall|j: int|
            0 <= j < pre.table.selectors@[config.selector.index as int]@.len()
                ==> !(#[trigger] pre.table.selectors@[config.selector.index as int]@[j]),
        pre.public@[config.instance.index as int]@.len() == 3,
        pre.public@[config.instance.index as int]@[2] == fib_fp(
            pre.public@[config.instance.index as int]@[0],
            pre.public@[config.instance.index as int]@[1],
            9,
        ),
    ensures
        crate::checker::spec_satisfied(cs, post),
{
    let r0 = pre.cursor as int;
    let n = post.table.n as int;
    let ai = config.advice.index as int;
    let si = config.selector.index as int;
    let p0 = pre.public@[config.instance.index as int]@[0];
    let p1 = pre.public@[config.instance.index as int]@[1];
    assert(r0 + 10 <= n);
    assert forall|g: int, row: int|
        0 <= g < cs.gates@.len() && 0 <= row < post.table.n && post.selector_on(
            cs.gates@[g].selector,
            row,
        ) implies #[trigger] crate::checker::spec_eval(cs.gates@[g].poly, post, row) == Ok::<
        Fp,
        Cell,
    >(Fp::zero_spec()) by {
        assert(post.table.selectors@[si]@[row] == fib_selector_col(
            pre.table.selectors@[si]@,
            r0,
            10,
            10,
        )[row]);
        assert(row == r0 || (r0 + 2 <= row < r0 + 8));
        let i = row - r0;
        let q0 = Expr::Query { column: config.advice, rotation: 0 };
        let q1 = Expr::Query { column: config.advice, rotation: 1 };
        let q2 = Expr::Query { column: config.advice, rotation: 2 };
        vstd::arithmetic::div_mod::lemma_small_mod(row as nat, n as nat);
        vstd::arithmetic::div_mod::lemma_small_mod((row + 1) as nat, n as nat);
        vstd::arithmetic::div_mod::lemma_small_mod((row + 2) as nat, n as nat);
        assert(post.table.witness@[ai]@[row] == Some(fib_fp(p0, p1, i)));
        assert(post.table.witness@[ai]@[row + 1] == Some(fib_fp(p0, p1, i + 1)));
        assert(post.table.witness@[ai]@[row + 2] == Some(fib_fp(p0, p1, i + 2)));
        assert(crate::checker::spec_eval(q0, post, row) == Ok::<Fp, Cell>(fib_fp(p0, p1, i)));
        assert(crate::checker::spec_eval(q1, post, row) == Ok::<Fp, Cell>(fib_fp(p0, p1, i + 1)));
        assert(crate::checker::spec_eval(q2, post, row) == Ok::<Fp, Cell>(fib_fp(p0, p1, i + 2)));
        let s01 = Expr::Sum(Box::new(q0), Box::new(q1));
        assert(crate::checker::spec_eval(s01, post, row) == Ok::<Fp, Cell>(
            Fp::add_spec(fib_fp(p0, p1, i), fib_fp(p0, p1, i + 1)),
        ));
        assert(fib_fp(p0, p1, i + 2) == Fp::add_spec(fib_fp(p0, p1, i), fib_fp(p0, p1, i + 1)));
        Fp::lemma_sub_self(fib_fp(p0, p1, i + 2));
        assert(crate::checker::spec_eval(
            Expr::Diff(Box::new(s01), Box::new(q2)),
            post,
            row,
        ) == Ok::<Fp, Cell>(Fp::zero_spec()));
        assert(cs.gates@[g].poly == Expr::Diff(Box::new(s01), Box::new(q2)));
    }
    assert(crate::checker::gates_ok(cs, post));
    assert(crate::checker::lookups_ok(cs, post));
    assert forall|i: int| 0 <= i < post.equalities@.len() implies post.spec_cell_value(
        (#[trigger] post.equalities@[i]).0,
    ) is Ok && post.spec_cell_value(post.equalities@[i].1) is Ok && post.spec_cell_value(
        post.equalities@[i].0,
    )->Ok_0 == post.spec_cell_value(post.equalities@[i].1)->Ok_0 by {
        assert(post.table.witness@[ai]@[r0] == Some(fib_fp(p0, p1, 0)));
        assert(post.table.witness@[ai]@[r0 + 1] == Some(fib_fp(p0, p1, 1)));
        assert(post.table.witness@[ai]@[r0 + 9] == Some(fib_fp(p0, p1, 9)));
        assert(fib_fp(p0, p1, 0) == p0);
        assert(fib_fp(p0, p1, 1) == p1);
        if i == 0 {
            assert(post.equalities@[i] == (
                Cell { column: config.instance, row: 0 },
                Cell { column: config.advice, row: r0 as usize },
            ));
        } else if i == 1 {
            assert(post.equalities@[i] == (
                Cell { column: config.instance, row: 1 },
                Cell { column: config.advice, row: (r0 + 1) as usize },
            ));
        } else {
            assert(post.equalities@[i] == (
                Cell { column: config.advice, row: (r0 + 9) as usize },
                Cell { column: config.instance, row: 2 },
            ));
        }
    }
    assert(crate::checker::permutation_ok(post));
    crate::checker::lemma_satisfied_characterization(cs, post);
}

/// Synthesis is deterministic: two runs from one starting state, against one
/// configuration and the same public inputs, leave bit-identical tables,
/// regions and equality sets.
pub proof fn lemma_synthesis_deterministic(
    pre: Assignment,
    p1: Assignment,
    p2: Assignment,
    config: FiboConfig,
)
    requires
        fib_synthesized(pre, p1, config),
        fib_synthesized(pre, p2, config),
    ensures
        p1.model() == p2.model(),
{
    assert forall|c: int| 0 <= c < p1.model().witness.len() implies p1.model().witness[c]
        == p2.model().witness[c] by {
        if c != config.advice.index {
            assert(p1.table.witness@[c] == pre.table.witness@[c]);
            assert(p2.table.witness@[c] == pre.table.witness@[c]);
        }
    }
    assert(p1.model().witness =~= p2.model().witness);
    assert forall|c: int| 0 <= c < p1.model().selectors.len() implies p1.model().selectors[c]
        == p2.model().selectors[c] by {
        if c != config.selector.index {
            assert(p1.table.selectors@[c] == pre.table.selectors@[c]);
            assert(p2.table.selectors@[c] == pre.table.selectors@[c]);
        }
    }
    assert(p1.model().selectors =~= p2.model().selectors);
    assert forall|k: int| 0 <= k < p1.model().regions.len() implies p1.model().regions[k]
        == p2.model().regions[k] by {
        if k < pre.table.regions@.len() {
            assert(p1.table.regions@[k] == p1.table.regions@.drop_last()[k]);
            assert(p2.table.regions@[k] == p2.table.regions@.drop_last()[k]);
        } else {
            assert(p1.table.regions@[k] == p1.table.regions@.last());
            assert(p2.table.regions@[k] == p2.table.regions@.last());
        }
    }
    assert(p1.model().regions =~= p2.model().regions);
}

/// A circuit instance. The seeds live in the public inputs, so an instance
/// carries no witness of its own; the fields stay for parity with the
/// three-column circuit.
#[derive(Clone, Copy, Debug, PartialEq, Eq, Structural)]
pub struct MyCircuit {
    pub a: Option<Fp>,
    pub b: Option<Fp>,
}

impl Default for MyCircuit {
    /// The circuit without witnesses, as key generation would see it.
    fn default() -> (r: Self)
        ensures
            r.a is None,
            r.b is None,
    {
        MyCircuit { a: None, b: None }
    }
}

impl MyCircuit {
    /// The circuit with its witnesses blinded.
    pub fn without_witnesses(&self) -> (r: Self)
        ensures
            r.a is None,
            r.b is None,
    {
        MyCircuit { a: None, b: None }
    }

    /// Declares the circuit's columns and hands them to the chip.
    pub fn configure(meta: &mut ConstraintSystem) -> (config: FiboConfig)
        ensures
            config.advice.kind == ColumnKind::Witness,
            config.advice.index == old(meta).num_columns(ColumnKind::Witness),
            config.selector.index == old(meta).num_selectors(),
            config.instance.kind == ColumnKind::Public,
            config.instance.index == old(meta).num_columns(ColumnKind::Public),
            final(meta).flags(ColumnKind::Witness) == old(meta).flags(ColumnKind::Witness).push(
                true,
            ),
            final(meta).flags(ColumnKind::Public) == old(meta).flags(ColumnKind::Public).push(true),
            final(meta).flags(ColumnKind::Fixed) == old(meta).flags(ColumnKind::Fixed),
            final(meta).selectors_complex@ == old(meta).selectors_complex@.push(false),
            final(meta).gates@.len() == old(meta).gates@.len() + 1,
            final(meta).gates@.drop_last() == old(meta).gates@,
            final(meta).gates@.last().name@ == "add"@,
            final(meta).gates@.last().selector == config.selector,
            final(meta).gates@.last().poly == fib_gate_poly(config.advice),
            final(meta).lookups@ == old(meta).lookups@,
            old(meta).wf() ==> final(meta).wf(),
    {
        let ghost pre = *meta;
        let advice = meta.add_column(ColumnKind::Witness);
        let ghost m1 = *meta;
        let instance = meta.add_column(ColumnKind::Public);
        let ghost m2 = *meta;
        let config = FiboChip::configure(meta, advice, instance);
        proof {
            assert(m1.witness_eq@ == pre.witness_eq@.push(false));
            assert(m2.witness_eq@ == m1.witness_eq@);
            assert(m2.public_eq@ == m1.public_eq@.push(false));
            assert(meta.witness_eq@ == m2.witness_eq@.update(advice.index as int, true));
            assert(meta.public_eq@ == m2.public_eq@.update(instance.index as int, true));
            assert(meta.flags(ColumnKind::Witness) =~= pre.flags(ColumnKind::Witness).push(true));
            assert(meta.flags(ColumnKind::Public) =~= pre.flags(ColumnKind::Public).push(true));
        }
        config
    }

    /// Runs the chip: lays out the ten-row table and exposes the last cell as
    /// the third public input.
    pub fn synthesize(&self, config: FiboConfig, layouter: &mut Assignment) -> (r: Result<
        (),
        Error,
    >)
        requires
            old(layouter).shape_wf(),
            config.suits(*old(layouter)),
        ensures
            final(layouter).shape_wf(),
            r is Ok <==> old(layouter).cursor + 10 <= old(layouter).table.n && old(
                layouter,
            ).public@[config.instance.index as int]@.len() >= 3,
            old(layouter).cursor + 10 > old(layouter).table.n ==> r == Err::<(), Error>(
                Error::NotEnoughRows,
            ) && *final(layouter) == *old(layouter),
            old(layouter).cursor + 10 <= old(layouter).table.n && old(
                layouter,
            ).public@[config.instance.index as int]@.len() < 3 ==> r == Err::<(), Error>(
                Error::OutOfBounds,
            ),
            r is Ok ==> fib_synthesized(*old(layouter), *final(layouter), config),
    {
        let chip = FiboChip::construct(config);
        let out_cell = match chip.assign(layouter, 10) {
            Ok(c) => c,
            Err(e) => {
                return Err(e);
            },
        };
        match chip.expose_public(layouter, out_cell, 2) {
            Ok(u) => Ok(u),
            Err(e) => Err(e),
        }
    }
}

} // verus!
