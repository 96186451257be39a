//! The three-column Fibonacci circuit.
//!
//! Each row holds three consecutive sequence values `a`, `b`, `c`, with the
//! gate `a + b - c == 0` on every selector row. Each later row copies the
//! previous row's `b` and `c` into its `a` and `b`, so the equality argument
//! stitches the rows into one sequence. The first two values and the final
//! result are bound to the public inputs.

use vstd::prelude::*;
use vstd::string::StringExecFns;

use crate::assign::{Assignment, Error};
use crate::column::{Cell, Column, ColumnKind, Selector};
use crate::expr::Expr;
use crate::fibonacci::example2::fib_fp;
use crate::field::Fp;
use crate::system::ConstraintSystem;
use crate::table::regions_model;

verus! {

/// The addition constraint's polynomial: the first column plus the second,
/// minus the third, all at the base row.
pub open spec fn fib_row_gate_poly(col_a: Column, col_b: Column, col_c: Column) -> Expr {
    Expr::Diff(
        Box::new(
            Expr::Sum(
                Box::new(Expr::Query { column: col_a, rotation: 0 }),
                Box::new(Expr::Query { column: col_b, rotation: 0 }),
            ),
        ),
        Box::new(Expr::Query { column: col_c, rotation: 0 }),
    )
}

/// One advice column after rows `r0 .. r0 + upto` were filled with the
/// sequence values at `shift`, `shift + 1`, ...: those values there, the old
/// cells elsewhere.
pub open spec fn fib_col(
    pre: Seq<Option<Fp>>,
    r0: int,
    upto: int,
    af: Fp,
    bf: Fp,
    shift: int,
) -> Seq<Option<Fp>> {
    Seq::new(
        pre.len(),
        |j: int|
            if r0 <= j < r0 + upto {
                Some(fib_fp(af, bf, j - r0 + shift))
            } else {
                pre[j]
            },
    )
}

/// A selector column on at rows `r0 .. r0 + upto`, the old flags elsewhere.
pub open spec fn fib_sel_col(pre: Seq<bool>, r0: int, upto: int) -> Seq<bool> {
    Seq::new(
        pre.len(),
        |j: int|
            if r0 <= j < r0 + upto {
                true
            } else {
                pre[j]
            },
    )
}

/// The equality pair that synthesis declares at position `i` of its pair
/// list: the two bindings of the first row to the public inputs, then the two
/// copies of every later row.
pub open spec fn fib_pair(config: FiboConfig, r0: int, i: int) -> (Cell, Cell) {
    if i == 0 {
        (
            Cell { column: config.advice[0], row: r0 as usize },
            Cell { column: config.instance, row: 0 },
        )
    } else if i == 1 {
        (
            Cell { column: config.advice[1], row: r0 as usize },
            Cell { column: config.instance, row: 1 },
        )
    } else {
        let j = (i - 2) / 2;
        let row = (r0 + 1 + j) as usize;
        if (i - 2) % 2 == 0 {
            (
                if j == 0 {
                    Cell { column: config.advice[1], row: r0 as usize }
                } else {
                    Cell { column: config.advice[2], row: (r0 + j - 1) as usize }
                },
                Cell { column: config.advice[0], row: row },
            )
        } else {
            (
                Cell { column: config.advice[2], row: (r0 + j) as usize },
                Cell { column: config.advice[1], row: row },
            )
        }
    }
}

/// The first `count` equality pairs of a synthesis run laid out at `r0`.
pub open spec fn fib_pairs(config: FiboConfig, r0: int, count: int) -> Seq<(Cell, Cell)> {
    Seq::new(count as nat, |i: int| fib_pair(config, r0, i))
}

/// How `MyCircuit::synthesize` changes the layouter when it succeeds: eight
/// single-row regions (the first named `first_row`, the rest `next row`),
/// the three advice columns holding three staggered windows of the Fibonacci
/// sequence seeded by the witnesses, the selector on every region row, and
/// the sixteen copy pairs plus the exposure of the last sum.
pub open spec fn fib_synthesized(
    pre: Assignment,
    post: Assignment,
    config: FiboConfig,
    af: Fp,
    bf: Fp,
) -> bool {
    let r0 = pre.cursor as int;
    &&& regions_model(post.table.regions@) == regions_model(pre.table.regions@) + Seq::new(
        8,
        |t: int|
            (
                if t == 0 {
                    "first_row"@
                } else {
                    "next row"@
                },
                r0 + t,
                1int,
            ),
    )
    &&& post.cursor == pre.cursor + 8
    &&& post.table.witness@.len() == pre.table.witness@.len()
    &&& forall|c: int|
        0 <= c < pre.table.witness@.len() && c != config.advice[0].index && c
            != config.advice[1].index && c != config.advice[2].index ==> post.table.witness@[c]
            == pre.table.witness@[c]
    &&& post.table.witness@[config.advice[0].index as int]@ == fib_col(
        pre.table.witness@[config.advice[0].index as int]@,
        r0,
        8,
        af,
        bf,
        0,
    )
    &&& post.table.witness@[config.advice[1].index as int]@ == fib_col(
        pre.table.witness@[config.advice[1].index as int]@,
        r0,
        8,
        af,
        bf,
        1,
    )
    &&& post.table.witness@[config.advice[2].index as int]@ == fib_col(
        pre.table.witness@[config.advice[2].index as int]@,
        r0,
        8,
        af,
        bf,
        2,
    )
    &&& post.table.selectors@.len() == pre.table.selectors@.len()
    &&& forall|c: int|
        0 <= c < pre.table.selectors@.len() && c != config.selector.index
            ==> post.table.selectors@[c] == pre.table.selectors@[c]
    &&& post.table.selectors@[config.selector.index as int]@ == fib_sel_col(
        pre.table.selectors@[config.selector.index as int]@,
        r0,
        8,
    )
    &&& post.table.fixed == pre.table.fixed
    &&& post.table.n == pre.table.n
    &&& post.public == pre.public
    &&& post.equalities@ == pre.equalities@ + fib_pairs(config, r0, 16).push(
        (
            Cell { column: config.advice[2], row: (r0 + 7) as usize },
            Cell { column: config.instance, row: 2 },
        ),
    )
    &&& post.witness_eq == pre.witness_eq
    &&& post.public_eq == pre.public_eq
    &&& post.fixed_eq == pre.fixed_eq
}

/// Three advice columns, a selector for the addition gate, and the public
/// column.
#[derive(Clone, Copy, Debug)]
pub struct FiboConfig {
    pub advice: [Column; 3],
    pub selector: Selector,
    pub instance: Column,
}

impl FiboConfig {
    /// The configuration fits the assignment: three distinct witness columns
    /// and the public column exist there and take part in equality
    /// constraints.
    pub open spec fn suits(&self, asg: Assignment) -> bool {
        &&& forall|i: int|
            0 <= i < 3 ==> (#[trigger] self.advice[i]).kind == ColumnKind::Witness
                && self.advice[i].index < asg.table.witness@.len() && asg.eq_enabled(self.advice[i])
        &&& self.advice[0].index != self.advice[1].index
        &&& self.advice[0].index != self.advice[2].index
        &&& self.advice[1].index != self.advice[2].index
        &&& self.selector.index < asg.table.selectors@.len()
        &&& self.instance.kind == ColumnKind::Public
        &&& self.instance.index < asg.public@.len()
        &&& asg.eq_enabled(self.instance)
    }
}

/// The relation `FiboChip::assign_first_row` establishes when it succeeds:
/// one single-row region named `first_row` at the old cursor, the selector on
/// there, and the three advice cells holding the seeds and their sum.
pub open spec fn first_row_assigned(
    pre: Assignment,
    post: Assignment,
    config: FiboConfig,
    af: Fp,
    bf: Fp,
) -> bool {
    let r0 = pre.cursor as int;
    &&& post.table.regions@.len() == pre.table.regions@.len() + 1
    &&& post.table.regions@.drop_last() == pre.table.regions@
    &&& post.table.regions@.last().name@ == "first_row"@
    &&& post.table.regions@.last().start == r0
    &&& post.table.regions@.last().rows == 1
    &&& post.cursor == pre.cursor + 1
    &&& post.table.witness@.len() == pre.table.witness@.len()
    &&& forall|c: int|
        0 <= c < pre.table.witness@.len() && c != config.advice[0].index && c
            != config.advice[1].index && c != config.advice[2].index ==> post.table.witness@[c]
            == pre.table.witness@[c]
    &&& post.table.witness@[config.advice[0].index as int]@ == pre.table.witness@[config.advice[0].index as int]@.update(
        r0,
        Some(af),
    )
    &&& post.table.witness@[config.advice[1].index as int]@ == pre.table.witness@[config.advice[1].index as int]@.update(
        r0,
        Some(bf),
    )
    &&& post.table.witness@[config.advice[2].index as int]@ == pre.table.witness@[config.advice[2].index as int]@.update(
        r0,
        Some(Fp::add_spec(af, bf)),
    )
    &&& post.table.selectors@.len() == pre.table.selectors@.len()
    &&& forall|c: int|
        0 <= c < pre.table.selectors@.len() && c != config.selector.index
            ==> post.table.selectors@[c] == pre.table.selectors@[c]
    &&& post.table.selectors@[config.selector.index as int]@ == pre.table.selectors@[config.selector.index as int]@.update(
        r0,
        true,
    )
    &&& post.table.fixed == pre.table.fixed
    &&& post.table.n == pre.table.n
    &&& post.public == pre.public
    &&& post.equalities == pre.equalities
    &&& post.witness_eq == pre.witness_eq
    &&& post.public_eq == pre.public_eq
    &&& post.fixed_eq == pre.fixed_eq
}

/// The relation `FiboChip::assign_row` establishes when it succeeds: one
/// single-row region named `next row` at the old cursor, the selector on
/// there, the previous `b` and `c` copied into `a` and `b` with their
/// equality pairs recorded, and their sum in `c`.
pub open spec fn row_assigned(
    pre: Assignment,
    post: Assignment,
    config: FiboConfig,
    prev_b: Cell,
    prev_c: Cell,
) -> bool {
    let r0 = pre.cursor as int;
    let vb = pre.spec_cell_value(prev_b)->Ok_0;
    let vc = pre.spec_cell_value(prev_c)->Ok_0;
    &&& post.table.regions@.len() == pre.table.regions@.len() + 1
    &&& post.table.regions@.drop_last() == pre.table.regions@
    &&& post.table.regions@.last().name@ == "next row"@
    &&& post.table.regions@.last().start == r0
    &&& post.table.regions@.last().rows == 1
    &&& post.cursor == pre.cursor + 1
    &&& post.table.witness@.len() == pre.table.witness@.len()
    &&& forall|c: int|
        0 <= c < pre.table.witness@.len() && c != config.advice[0].index && c
            != config.advice[1].index && c != config.advice[2].index ==> post.table.witness@[c]
            == pre.table.witness@[c]
    &&& post.table.witness@[config.advice[0].index as int]@ == pre.table.witness@[config.advice[0].index as int]@.update(
        r0,
        Some(vb),
    )
    &&& post.table.witness@[config.advice[1].index as int]@ == pre.table.witness@[config.advice[1].index as int]@.update(
        r0,
        Some(vc),
    )
    &&& post.table.witness@[config.advice[2].index as int]@ == pre.table.witness@[config.advice[2].index as int]@.update(
        r0,
        Some(Fp::add_spec(vb, vc)),
    )
    &&& post.table.selectors@.len() == pre.table.selectors@.len()
    &&& forall|c: int|
        0 <= c < pre.table.selectors@.len() && c != config.selector.index
            ==> post.table.selectors@[c] == pre.table.selectors@[c]
    &&& post.table.selectors@[config.selector.index as int]@ == pre.table.selectors@[config.selector.index as int]@.update(
        r0,
        true,
    )
    &&& post.table.fixed == pre.table.fixed
    &&& post.table.n == pre.table.n
    &&& post.public == pre.public
    &&& post.equalities@ == pre.equalities@.push(
        (prev_b, Cell { column: config.advice[0], row: r0 as usize }),
    ).push((prev_c, Cell { column: config.advice[1], row: r0 as usize }))
    &&& post.witness_eq == pre.witness_eq
    &&& post.public_eq == pre.public_eq
    &&& post.fixed_eq == pre.fixed_eq
}

/// The chip: declares the addition gate and equality once and provides the
/// assignment functions that the synthesizer calls.
pub struct FiboChip {
    pub config: FiboConfig,
}

impl FiboChip {
    pub fn construct(config: FiboConfig) -> (chip: FiboChip)
        ensures
            chip.config == config,
    {
        FiboChip { config }
    }

    /// Declares a gate named `add` over the three advice columns at the
    /// current row, and enables equality on them and on the public column.
    pub fn configure(meta: &mut ConstraintSystem, advice: [Column; 3], instance: Column) -> (config:
        FiboConfig)
        requires
            forall|i: int|
                0 <= i < 3 ==> old(meta).column_declared(#[trigger] advice[i]) && advice[i].kind
                    == ColumnKind::Witness,
            old(meta).column_declared(instance),
            instance.kind == ColumnKind::Public,
        ensures
            config.advice == advice,
            config.selector.index == old(meta).num_selectors(),
            config.instance == instance,
            final(meta).selectors_complex@ == old(meta).selectors_complex@.push(false),
            final(meta).flags(ColumnKind::Witness) == old(meta).flags(ColumnKind::Witness).update(
                advice[0].index as int,
                true,
            ).update(advice[1].index as int, true).update(advice[2].index as int, true),
            final(meta).flags(ColumnKind::Public) == old(meta).flags(ColumnKind::Public).update(
                instance.index as int,
                true,
            ),
            final(meta).flags(ColumnKind::Fixed) == old(meta).flags(ColumnKind::Fixed),
            final(meta).gates@.len() == old(meta).gates@.len() + 1,
            final(meta).gates@.drop_last() == old(meta).gates@,
            final(meta).gates@.last().name@ == "add"@,
            final(meta).gates@.last().selector == config.selector,
            final(meta).gates@.last().poly == fib_row_gate_poly(advice[0], advice[1], advice[2]),
            final(meta).lookups@ == old(meta).lookups@,
            old(meta).wf() ==> final(meta).wf(),
    {
        let col_a = advice[0];
        let col_b = advice[1];
        let col_c = advice[2];
        let selector = meta.add_selector(false);
        meta.enable_equality(col_a);
        meta.enable_equality(col_b);
        meta.enable_equality(col_c);
        meta.enable_equality(instance);
        let poly = Expr::Diff(
            Box::new(
                Expr::Sum(
                    Box::new(Expr::Query { column: col_a, rotation: 0 }),
                    Box::new(Expr::Query { column: col_b, rotation: 0 }),
                ),
            ),
            Box::new(Expr::Query { column: col_c, rotation: 0 }),
        );
        proof {
            let q0 = Expr::Query { column: col_a, rotation: 0 };
            let q1 = Expr::Query { column: col_b, rotation: 0 };
            let q2 = Expr::Query { column: col_c, rotation: 0 };
            assert(q0.wf(*meta) && q1.wf(*meta) && q2.wf(*meta));
            let s01 = Expr::Sum(Box::new(q0), Box::new(q1));
            assert(s01.wf(*meta));
            assert((Expr::Diff(Box::new(s01), Box::new(q2))).wf(*meta));
        }
        let name = String::from_str("add");
        meta.add_gate(name, selector, poly);
        FiboConfig { advice, selector, instance }
    }

    /// Lays out the first row in a single-row region named `first_row`: the
    /// two seeds and their sum, with the selector on. Absent seeds are the
    /// unassigned-witness failure.
    pub fn assign_first_row(&self, layouter: &mut Assignment, a: Option<Fp>, b: Option<Fp>) -> (r:
        Result<(Cell, Cell, Cell), Error>)
        requires
            old(layouter).shape_wf(),
            self.config.suits(*old(layouter)),
        ensures
            final(layouter).shape_wf(),
            self.config.suits(*final(layouter)),
            r is Ok <==> old(layouter).cursor + 1 <= old(layouter).table.n && a is Some
                && b is Some,
            old(layouter).cursor + 1 > old(layouter).table.n ==> r == Err::<
                (Cell, Cell, Cell),
                Error,
            >(Error::NotEnoughRows) && *final(layouter) == *old(layouter),
            old(layouter).cursor + 1 <= old(layouter).table.n && (a is None || b is None) ==> r
                == Err::<(Cell, Cell, Cell), Error>(Error::Synthesis),
            r matches Ok(cells) ==> first_row_assigned(
                *old(layouter),
                *final(layouter),
                self.config,
                a->0,
                b->0,
            ) && cells == (
                (
                    Cell { column: self.config.advice[0], row: old(layouter).cursor },
                    Cell { column: self.config.advice[1], row: old(layouter).cursor },
                    Cell { column: self.config.advice[2], row: old(layouter).cursor },
                )
            ),
    {
        let region = match layouter.assign_region(String::from_str("first_row"), 1) {
            Ok(region) => region,
            Err(e) => {
                return Err(e);
            },
        };
        proof {
            assert(layouter.table.regions@.drop_last() =~= old(layouter).table.regions@);
        }
        match layouter.enable_selector(region, self.config.selector, 0) {
            Ok(u) => u,
            Err(e) => {
                return Err(e);
            },
        };
        let a_cell = match layouter.assign_witness(region, self.config.advice[0], 0, a) {
            Ok(c) => c,
            Err(e) => {
                return Err(e);
            },
        };
        let b_cell = match layouter.assign_witness(region, self.config.advice[1], 0, b) {
            Ok(c) => c,
            Err(e) => {
                return Err(e);
            },
        };
        let c_val = match (a, b) {
            (Some(x), Some(y)) => Some(x.add(y)),
            _ => None,
        };
        let c_cell = match layouter.assign_witness(region, self.config.advice[2], 0, c_val) {
            Ok(c) => c,
            Err(e) => {
                return Err(e);
            },
        };
        Ok((a_cell, b_cell, c_cell))
    }

    /// Lays out one more row in a single-row region named `next row`: copies
    /// the previous row's `b` and `c` into `a` and `b`, recording the two
    /// equality pairs, and assigns their sum to `c`, with the selector on.
    pub fn assign_row(&self, layouter: &mut Assignment, prev_b: Cell, prev_c: Cell) -> (r: Result<
        Cell,
        Error,
    >)
        requires
            old(layouter).shape_wf(),
            self.config.suits(*old(layouter)),
            prev_b.row < old(layouter).cursor,
            prev_c.row < old(layouter).cursor,
        ensures
            final(layouter).shape_wf(),
            self.config.suits(*final(layouter)),
            r is Ok <==> old(layouter).cursor + 1 <= old(layouter).table.n && old(
                layouter,
            ).eq_enabled(prev_b.column) && old(layouter).eq_enabled(prev_c.column) && old(
                layouter,
            ).spec_cell_value(prev_b) is Ok && old(layouter).spec_cell_value(prev_c) is Ok,
            old(layouter).cursor + 1 > old(layouter).table.n ==> r == Err::<Cell, Error>(
                Error::NotEnoughRows,
            ) && *final(layouter) == *old(layouter),
            r matches Ok(cell) ==> row_assigned(
                *old(layouter),
                *final(layouter),
                self.config,
                prev_b,
                prev_c,
            ) && cell == (Cell { column: self.config.advice[2], row: old(layouter).cursor }),
    {
        let ghost pre = *old(layouter);
        let vb = match layouter.cell_value(prev_b) {
            Ok(v) => Some(v),
            Err(_) => None,
        };
        let vc = match layouter.cell_value(prev_c) {
            Ok(v) => Some(v),
            Err(_) => None,
        };
        let region = match layouter.assign_region(String::from_str("next row"), 1) {
            Ok(region) => region,
            Err(e) => {
                return Err(e);
            },
        };
        proof {
            assert(layouter.table.regions@.drop_last() =~= pre.table.regions@);
        }
        match layouter.enable_selector(region, self.config.selector, 0) {
            Ok(u) => u,
            Err(e) => {
                return Err(e);
            },
        };
        let a_cell = match layouter.copy(region, prev_b, self.config.advice[0], 0) {
            Ok(c) => c,
            Err(e) => {
                return Err(e);
            },
        };
        let b_cell = match layouter.copy(region, prev_c, self.config.advice[1], 0) {
            Ok(c) => c,
            Err(e) => {
                return Err(e);
            },
        };
        let c_val = match (vb, vc) {
            (Some(x), Some(y)) => Some(x.add(y)),
            _ => None,
        };
        let c_cell = match layouter.assign_witness(region, self.config.advice[2], 0, c_val) {
            Ok(c) => c,
            Err(e) => {
                return Err(e);
            },
        };
        Ok(c_cell)
    }

    /// Exposes an assigned cell as equal to the given absolute row of the
    /// public column.
    pub fn expose_public(&self, layouter: &mut Assignment, cell: Cell, row: usize) -> (r: Result<
        (),
        Error,
    >)
        requires
            old(layouter).shape_wf(),
            self.config.instance.kind == ColumnKind::Public,
        ensures
            final(layouter).shape_wf(),
            r is Ok <==> old(layouter).eq_enabled(cell.column) && old(layouter).eq_enabled(
                self.config.instance,
            ) && row < old(layouter).public@[self.config.instance.index as int]@.len(),
            r is Ok ==> final(layouter).equalities@ == old(layouter).equalities@.push(
                (cell, Cell { column: self.config.instance, row: row }),
            ) && final(layouter).table == old(layouter).table && final(layouter).public == old(
                layouter,
            ).public && final(layouter).cursor == old(layouter).cursor && final(layouter).witness_eq
                == old(layouter).witness_eq && final(layouter).public_eq == old(layouter).public_eq
                && final(layouter).fixed_eq == old(layouter).fixed_eq,
            r is Err ==> *final(layouter) == *old(layouter),
            !(old(layouter).eq_enabled(cell.column) && old(layouter).eq_enabled(
                self.config.instance,
            )) ==> r == Err::<(), Error>(Error::EqualityNotEnabled),
            old(layouter).eq_enabled(cell.column) && old(layouter).eq_enabled(self.config.instance)
                && row >= old(layouter).public@[self.config.instance.index as int]@.len() ==> r
                == Err::<(), Error>(Error::OutOfBounds),
    {
        layouter.constrain_public(cell, self.config.instance, row)
    }
}

/// A freshly synthesized table satisfies its own constraint system: when the
/// circuit's single gate and no lookups are declared, the table was built by
/// `MyCircuit::synthesize` on a fresh layouter, and the three public inputs
/// are the two seeds and the tenth sequence value, the checker finds nothing.
pub proof fn lemma_fib_synthesis_satisfied(
    cs: ConstraintSystem,
    pre: Assignment,
    post: Assignment,
    config: FiboConfig,
    af: Fp,
    bf: Fp,
)
    requires
        cs.gates@.len() == 1,
        cs.gates@[0].selector == config.selector,
        cs.gates@[0].poly == fib_row_gate_poly(config.advice[0], config.advice[1], config.advice[2]),
        cs.lookups@.len() == 0,
        config.suits(post),
        post.shape_wf(),
        fib_synthesized(pre, post, config, af, bf),
        pre.equalities@.len() == 0,
        forall|j: int|
            0 <= j < pre.table.selectors@[config.selector.index as int]@.len()
                ==> !(#[trigger] pre.table.selectors@[config.selector.index as int]@[j]),
        pre.public@[config.instance.index as int]@.len() == 3,
        pre.public@[config.instance.index as int]@[0] == af,
        pre.public@[config.instance.index as int]@[1] == bf,
        pre.public@[config.instance.index as int]@[2] == fib_fp(af, bf, 9),
    ensures
        crate::checker::spec_satisfied(cs, post),
{
    let r0 = pre.cursor as int;
    let n = post.table.n as int;
    let si = config.selector.index as int;
    assert(r0 + 8 <= n);
    assert forall|g: int, row: int|
        0 <= g < cs.gates@.len() && 0 <= row < post.table.n && post.selector_on(
            cs.gates@[g].selector,
            row,
        ) implies #[trigger] crate::checker::spec_eval(cs.gates@[g].poly, post, row) == Ok::<
        Fp,
        Cell,
    >(Fp::zero_spec()) by {
        assert(post.table.selectors@[si]@[row] == fib_sel_col(
            pre.table.selectors@[si]@,
            r0,
            8,
        )[row]);
        assert(r0 <= row < r0 + 8);
        let i = row - r0;
        let q0 = Expr::Query { column: config.advice[0], rotation: 0 };
        let q1 = Expr::Query { column: config.advice[1], rotation: 0 };
        let q2 = Expr::Query { column: config.advice[2], rotation: 0 };
        vstd::arithmetic::div_mod::lemma_small_mod(row as nat, n as nat);
        assert(post.table.witness@[config.advice[0].index as int]@[row] == Some(fib_fp(af, bf, i)));
        assert(post.table.witness@[config.advice[1].index as int]@[row] == Some(
            fib_fp(af, bf, i + 1),
        ));
        assert(post.table.witness@[config.advice[2].index as int]@[row] == Some(
            fib_fp(af, bf, i + 2),
        ));
        assert(crate::checker::spec_eval(q0, post, row) == Ok::<Fp, Cell>(fib_fp(af, bf, i)));
        assert(crate::checker::spec_eval(q1, post, row) == Ok::<Fp, Cell>(fib_fp(af, bf, i + 1)));
        assert(crate::checker::spec_eval(q2, post, row) == Ok::<Fp, Cell>(fib_fp(af, bf, i + 2)));
        let s01 = Expr::Sum(Box::new(q0), Box::new(q1));
        assert(crate::checker::spec_eval(s01, post, row) == Ok::<Fp, Cell>(
            Fp::add_spec(fib_fp(af, bf, i), fib_fp(af, bf, i + 1)),
        ));
        assert(fib_fp(af, bf, i + 2) == Fp::add_spec(fib_fp(af, bf, i), fib_fp(af, bf, i + 1)));
        Fp::lemma_sub_self(fib_fp(af, bf, i + 2));
        assert(crate::checker::spec_eval(
            Expr::Diff(Box::new(s01), Box::new(q2)),
            post,
            row,
        ) == Ok::<Fp, Cell>(Fp::zero_spec()));
        assert(cs.gates@[g].poly == Expr::Diff(Box::new(s01), Box::new(q2)));
    }
    assert(crate::checker::gates_ok(cs, post));
    assert(crate::checker::lookups_ok(cs, post));
    assert forall|i: int| 0 <= i < post.equalities@.len() implies post.spec_cell_value(
        (#[trigger] post.equalities@[i]).0,
    ) is Ok && post.spec_cell_value(post.equalities@[i].1) is Ok && post.spec_cell_value(
        post.equalities@[i].0,
    )->Ok_0 == post.spec_cell_value(post.equalities@[i].1)->Ok_0 by {
        assert(post.equalities@.len() == 17);
        assert forall|rw: int| r0 <= rw < r0 + 8 implies {
            &&& (#[trigger] post.table.witness@[config.advice[0].index as int]@[rw]) == Some(
                fib_fp(af, bf, rw - r0),
            )
            &&& post.table.witness@[config.advice[1].index as int]@[rw] == Some(
                fib_fp(af, bf, rw - r0 + 1),
            )
            &&& post.table.witness@[config.advice[2].index as int]@[rw] == Some(
                fib_fp(af, bf, rw - r0 + 2),
            )
        } by {
            assert(post.table.witness@[config.advice[0].index as int]@[rw] == fib_col(
                pre.table.witness@[config.advice[0].index as int]@,
                r0,
                8,
                af,
                bf,
                0,
            )[rw]);
            assert(post.table.witness@[config.advice[1].index as int]@[rw] == fib_col(
                pre.table.witness@[config.advice[1].index as int]@,
                r0,
                8,
                af,
                bf,
                1,
            )[rw]);
            assert(post.table.witness@[config.advice[2].index as int]@[rw] == fib_col(
                pre.table.witness@[config.advice[2].index as int]@,
                r0,
                8,
                af,
                bf,
                2,
            )[rw]);
        }
        if i < 16 {
            assert(post.equalities@[i] == fib_pairs(config, r0, 16)[i]);
            assert(post.equalities@[i] == fib_pair(config, r0, i));
            if i >= 2 {
                let j = (i - 2) / 2;
                let par = (i - 2) % 2;
                vstd::arithmetic::div_mod::lemma_fundamental_div_mod(i - 2, 2);
                assert(i == 2 + 2 * j + par);
                assert(0 <= j < 7);
            }
        } else {
            assert(post.equalities@[i] == (
                Cell { column: config.advice[2], row: (r0 + 7) as usize },
                Cell { column: config.instance, row: 2 },
            ));
            assert(fib_fp(af, bf, 9) == fib_fp(af, bf, 7int + 2));
        }
    }
    assert(crate::checker::permutation_ok(post));
    crate::checker::lemma_satisfied_characterization(cs, post);
}

/// Synthesis is deterministic: two runs from one starting state, against one
/// configuration and the same seeds, leave bit-identical tables, regions and
/// equality sets.
pub proof fn lemma_synthesis_deterministic(
    pre: Assignment,
    p1: Assignment,
    p2: Assignment,
    config: FiboConfig,
    af: Fp,
    bf: Fp,
)
    requires
        fib_synthesized(pre, p1, config, af, bf),
        fib_synthesized(pre, p2, config, af, bf),
    ensures
        p1.model() == p2.model(),
{
    assert forall|c: int| 0 <= c < p1.model().witness.len() implies p1.model().witness[c]
        == p2.model().witness[c] by {
        if c != config.advice[0].index && c != config.advice[1].index && c
            != config.advice[2].index {
            assert(p1.table.witness@[c] == pre.table.witness@[c]);
            assert(p2.table.witness@[c] == pre.table.witness@[c]);
        }
    }
    assert(p1.model().witness =~= p2.model().witness);
    assert forall|c: int| 0 <= c < p1.model().selectors.len() implies p1.model().selectors[c]
        == p2.model().selectors[c] by {
        if c != config.selector.index {
            assert(p1.table.selectors@[c] == pre.table.selectors@[c]);
            assert(p2.table.selectors@[c] == pre.table.selectors@[c]);
        }
    }
    assert(p1.model().selectors =~= p2.model().selectors);
    assert(p1.model().regions == p2.model().regions);
}

/// A circuit instance: the two optional seed witnesses.
#[derive(Clone, Copy, Debug, PartialEq, Eq, Structural)]
pub struct MyCircuit {
    pub a: Option<Fp>,
    pub b: Option<Fp>,
}

impl Default for MyCircuit {
    /// The circuit without witnesses, as key generation would see it.
    fn default() -> (r: Self)
        ensures
            r.a is None,
            r.b is None,
    {
        MyCircuit { a: None, b: None }
    }
}

impl MyCircuit {
    /// The circuit with its witnesses blinded.
    pub fn without_witnesses(&self) -> (r: Self)
        ensures
            r.a is None,
            r.b is None,
    {
        MyCircuit { a: None, b: None }
    }

    /// Declares the circuit's columns and hands them to the chip.
    pub fn configure(meta: &mut ConstraintSystem) -> (config: FiboConfig)
        ensures
            config.advice[0] == (Column {
                kind: ColumnKind::Witness,
                index: old(meta).witness_eq@.len() as usize,
            }),
            config.advice[1] == (Column {
                kind: ColumnKind::Witness,
                index: (old(meta).witness_eq@.len() + 1) as usize,
            }),
            config.advice[2] == (Column {
                kind: ColumnKind::Witness,
                index: (old(meta).witness_eq@.len() + 2) as usize,
            }),
            config.selector.index == old(meta).num_selectors() + 0,
            config.instance.kind == ColumnKind::Public,
            config.instance.index == old(meta).num_columns(ColumnKind::Public),
            final(meta).flags(ColumnKind::Witness) == old(meta).flags(ColumnKind::Witness).push(
                true,
            ).push(true).push(true),
            final(meta).flags(ColumnKind::Public) == old(meta).flags(ColumnKind::Public).push(true),
            final(meta).flags(ColumnKind::Fixed) == old(meta).flags(ColumnKind::Fixed),
            final(meta).selectors_complex@ == old(meta).selectors_complex@.push(false),
            final(meta).gates@.len() == old(meta).gates@.len() + 1,
            final(meta).gates@.drop_last() == old(meta).gates@,
            final(meta).gates@.last().name@ == "add"@,
            final(meta).gates@.last().selector == config.selector,
            final(meta).gates@.last().poly == fib_row_gate_poly(
                config.advice[0],
                config.advice[1],
                config.advice[2],
            ),
            final(meta).lookups@ == old(meta).lookups@,
            old(meta).wf() ==> final(meta).wf(),
    {
        let ghost pre = *meta;
        let col_a = meta.add_column(ColumnKind::Witness);
        let col_b = meta.add_column(ColumnKind::Witness);
        let col_c = meta.add_column(ColumnKind::Witness);
        let instance = meta.add_column(ColumnKind::Public);
        let advice = [col_a, col_b, col_c];
        let config = FiboChip::configure(meta, advice, instance);
        proof {
            assert(meta.witness_eq@ =~= pre.witness_eq@.push(true).push(true).push(true));
            assert(meta.public_eq@ =~= pre.public_eq@.push(true));
        }
        config
    }

    /// Runs the chip: lays out the first row, exposes the two seeds, extends
    /// the sequence row by row to its tenth value, and exposes that value as
    /// the third public input.
    pub fn synthesize(&self, config: FiboConfig, layouter: &mut Assignment) -> (r: Result<
        (),
        Error,
    >)
        requires
            old(layouter).shape_wf(),
            config.suits(*old(layouter)),
        ensures
            final(layouter).shape_wf(),
            r is Ok <==> old(layouter).cursor + 8 <= old(layouter).table.n && self.a is Some
                && self.b is Some && old(layouter).public@[config.instance.index as int]@.len()
                >= 3,
            self.a is Some && self.b is Some && old(
                layouter,
            ).public@[config.instance.index as int]@.len() >= 3 && old(layouter).cursor + 8 > old(
                layouter,
            ).table.n ==> r == Err::<(), Error>(Error::NotEnoughRows),
            old(layouter).cursor + 8 <= old(layouter).table.n && (self.a is None
                || self.b is None) ==> r == Err::<(), Error>(Error::Synthesis),
            old(layouter).cursor + 8 <= old(layouter).table.n && self.a is Some && self.b is Some
                && old(layouter).public@[config.instance.index as int]@.len() < 3 ==> r == Err::<
                (),
                Error,
            >(Error::OutOfBounds),
            r is Ok ==> fib_synthesized(
                *old(layouter),
                *final(layouter),
                config,
                self.a->0,
                self.b->0,
            ),
    {
        let ghost pre = *old(layouter);
        let ghost r0 = pre.cursor as int;
        let ghost prelen = pre.table.regions@.len() as int;
        let chip = FiboChip::construct(config);

        let cells = match chip.assign_first_row(layouter, self.a, self.b) {
            Ok(c) => c,
            Err(e) => {
                return Err(e);
            },
        };
        let (prev_a, first_b, first_c) = cells;
        let ghost af = self.a->0;
        let ghost bf = self.b->0;
        proof {
            assert(regions_model(layouter.table.regions@) =~= regions_model(pre.table.regions@)
                + Seq::new(
                1,
                |t: int|
                    (
                        if t == 0 {
                            "first_row"@
                        } else {
                            "next row"@
                        },
                        r0 + t,
                        1int,
                    ),
            ));
        }
        match chip.expose_public(layouter, prev_a, 0) {
            Ok(u) => u,
            Err(e) => {
                return Err(e);
            },
        };
        match chip.expose_public(layouter, first_b, 1) {
            Ok(u) => u,
            Err(e) => {
                return Err(e);
            },
        };
        proof {
            assert(fib_fp(af, bf, 0) == af);
            assert(fib_fp(af, bf, 1) == bf);
            assert(fib_fp(af, bf, 2) == Fp::add_spec(af, bf));
            assert(layouter.equalities@ =~= pre.equalities@ + fib_pairs(config, r0, 2));
            assert(layouter.table.witness@[config.advice[0].index as int]@ =~= fib_col(
                pre.table.witness@[config.advice[0].index as int]@,
                r0,
                1,
                af,
                bf,
                0,
            ));
            assert(layouter.table.witness@[config.advice[1].index as int]@ =~= fib_col(
                pre.table.witness@[config.advice[1].index as int]@,
                r0,
                1,
                af,
                bf,
                1,
            ));
            assert(layouter.table.witness@[config.advice[2].index as int]@ =~= fib_col(
                pre.table.witness@[config.advice[2].index as int]@,
                r0,
                1,
                af,
                bf,
                2,
            ));
            assert(layouter.table.selectors@[config.selector.index as int]@ =~= fib_sel_col(
                pre.table.selectors@[config.selector.index as int]@,
                r0,
                1,
            ));
        }
        let mut prev_b = first_b;
        let mut prev_c = first_c;
        let mut i: usize = 3;
        while i < 10
            invariant
                3 <= i <= 10,
                pre == *old(layouter),
                self.a is Some,
                self.b is Some,
                pre.public@[config.instance.index as int]@.len() >= 2,
                layouter.shape_wf(),
                config.suits(*layouter),
                chip.config == config,
                r0 == pre.cursor as int,
                prelen == pre.table.regions@.len() as int,
                af == self.a->0,
                bf == self.b->0,
                prev_b == (if i == 3 {
                    Cell { column: config.advice[1], row: r0 as usize }
                } else {
                    Cell { column: config.advice[2], row: (r0 + i - 4) as usize }
                }),
                prev_c == (Cell { column: config.advice[2], row: (r0 + i - 3) as usize }),
                layouter.cursor == pre.cursor + i - 2,
                regions_model(layouter.table.regions@) == regions_model(pre.table.regions@)
                    + Seq::new(
                    (i - 2) as nat,
                    |t: int|
                        (
                            if t == 0 {
                                "first_row"@
                            } else {
                                "next row"@
                            },
                            r0 + t,
                            1int,
                        ),
                ),
                layouter.table.witness@.len() == pre.table.witness@.len(),
                forall|c: int|
                    0 <= c < pre.table.witness@.len() && c != config.advice[0].index && c
                        != config.advice[1].index && c != config.advice[2].index
                        ==> layouter.table.witness@[c] == pre.table.witness@[c],
                layouter.table.witness@[config.advice[0].index as int]@ == fib_col(
                    pre.table.witness@[config.advice[0].index as int]@,
                    r0,
                    i - 2,
                    af,
                    bf,
                    0,
                ),
                layouter.table.witness@[config.advice[1].index as int]@ == fib_col(
                    pre.table.witness@[config.advice[1].index as int]@,
                    r0,
                    i - 2,
                    af,
                    bf,
                    1,
                ),
                layouter.table.witness@[config.advice[2].index as int]@ == fib_col(
                    pre.table.witness@[config.advice[2].index as int]@,
                    r0,
                    i - 2,
                    af,
                    bf,
                    2,
                ),
                layouter.table.selectors@.len() == pre.table.selectors@.len(),
                forall|c: int|
                    0 <= c < pre.table.selectors@.len() && c != config.selector.index
                        ==> layouter.table.selectors@[c] == pre.table.selectors@[c],
                layouter.table.selectors@[config.selector.index as int]@ == fib_sel_col(
                    pre.table.selectors@[config.selector.index as int]@,
                    r0,
                    i - 2,
                ),
                layouter.table.fixed == pre.table.fixed,
                layouter.table.n == pre.table.n,
                layouter.public == pre.public,
                layouter.equalities@ == pre.equalities@ + fib_pairs(config, r0, 2 * i - 6 + 2),
                layouter.witness_eq == pre.witness_eq,
                layouter.public_eq == pre.public_eq,
                layouter.fixed_eq == pre.fixed_eq,
            decreases 10 - i,
        {
            let ghost jj = i - 3;
            let ghost regs_before = layouter.table.regions@;
            let ghost lay_before = *layouter;
            let c_cell = match chip.assign_row(layouter, prev_b, prev_c) {
                Ok(c) => c,
                Err(e) => {
                    proof {
                        assert(lay_before.spec_cell_value(prev_b) is Ok);
                        assert(lay_before.spec_cell_value(prev_c) is Ok);
                        assert(lay_before.cursor + 1 > lay_before.table.n);
                        if pre.cursor + 8 <= pre.table.n {
                            assert(false);
                        }
                    }
                    return Err(e);
                },
            };
            proof {
                assert(layouter.table.regions@.len() == regs_before.len() + 1);
                assert forall|k: int| 0 <= k < regs_before.len() implies layouter.table.regions@[k]
                    == regs_before[k] by {
                    assert(layouter.table.regions@.drop_last() =~= regs_before);
                }
                assert(regs_before.len() == prelen + i - 2) by {
                    assert(regions_model(regs_before).len() == regs_before.len());
                }
                assert forall|k: int| 0 <= k < regs_before.len() + 1 implies regions_model(
                    layouter.table.regions@,
                )[k] == (regions_model(pre.table.regions@) + Seq::new(
                    (i - 1) as nat,
                    |t: int|
                        (
                            if t == 0 {
                                "first_row"@
                            } else {
                                "next row"@
                            },
                            r0 + t,
                            1int,
                        ),
                ))[k] by {
                    assert(regions_model(layouter.table.regions@)[k] == crate::table::region_model(
                        layouter.table.regions@[k],
                    ));
                    if k < regs_before.len() {
                        assert(regions_model(regs_before)[k] == crate::table::region_model(
                            regs_before[k],
                        ));
                    } else {
                        assert(layouter.table.regions@[k] == layouter.table.regions@.last());
                    }
                }
                assert(regions_model(layouter.table.regions@) =~= regions_model(
                    pre.table.regions@,
                ) + Seq::new(
                    (i - 1) as nat,
                    |t: int|
                        (
                            if t == 0 {
                                "first_row"@
                            } else {
                                "next row"@
                            },
                            r0 + t,
                            1int,
                        ),
                ));
                assert(layouter.table.witness@[config.advice[0].index as int]@ =~= fib_col(
                    pre.table.witness@[config.advice[0].index as int]@,
                    r0,
                    i - 1,
                    af,
                    bf,
                    0,
                ));
                assert(layouter.table.witness@[config.advice[1].index as int]@ =~= fib_col(
                    pre.table.witness@[config.advice[1].index as int]@,
                    r0,
                    i - 1,
                    af,
                    bf,
                    1,
                ));
                assert(layouter.table.witness@[config.advice[2].index as int]@ =~= fib_col(
                    pre.table.witness@[config.advice[2].index as int]@,
                    r0,
                    i - 1,
                    af,
                    bf,
                    2,
                ));
                assert(layouter.table.selectors@[config.selector.index as int]@ =~= fib_sel_col(
                    pre.table.selectors@[config.selector.index as int]@,
                    r0,
                    i - 1,
                ));
                assert(fib_pair(config, r0, 2 + 2 * jj) == (
                    prev_b,
                    Cell { column: config.advice[0], row: (r0 + jj + 1) as usize },
                ));
                assert(fib_pair(config, r0, 3 + 2 * jj) == (
                    prev_c,
                    Cell { column: config.advice[1], row: (r0 + jj + 1) as usize },
                ));
                assert(layouter.equalities@ =~= pre.equalities@ + fib_pairs(
                    config,
                    r0,
                    2 * i - 6 + 4,
                ));
            }
            prev_b = prev_c;
            prev_c = c_cell;
            i = i + 1;
        }
        match chip.expose_public(layouter, prev_c, 2) {
            Ok(u) => u,
            Err(e) => {
                return Err(e);
            },
        };
        proof {
            assert(layouter.equalities@ =~= pre.equalities@ + fib_pairs(config, r0, 16).push(
                (
                    Cell { column: config.advice[2], row: (r0 + 7) as usize },
                    Cell { column: config.instance, row: 2 },
                ),
            ));
            assert(fib_synthesized(pre, *layouter, config, af, bf));
        }
        Ok(())
    }
}

} // verus!
