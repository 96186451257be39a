//! A direct range check: the value witnessed in a cell is below a given
//! range.
//!
//! For a value `v` and a range `R` a single gate checks
//! `v * (1 - v) * (2 - v) * ... * (R - 1 - v) == 0`:
//! the product vanishes exactly when `v` is one of `0 .. R`. The product's
//! degree grows with `R`, so this strategy suits small ranges only.

use vstd::prelude::*;
use vstd::string::StringExecFns;

use crate::assign::{Assignment, Error};
use crate::column::{Cell, Column, ColumnKind, Selector};
use crate::expr::Expr;
use crate::field::{Fp, FIELD_MODULUS};
use crate::system::ConstraintSystem;

verus! {

/// The product `v * (1 - v) * ... * (range - 1 - v)` over queries of `value`
/// at the current row.
pub open spec fn spec_range_check_expr(value: Column, range: int) -> Expr
    decreases range,
    when range >= 1
{
    if range <= 1 {
        Expr::Query { column: value, rotation: 0 }
    } else {
        Expr::Product(
            Box::new(spec_range_check_expr(value, range - 1)),
            Box::new(
                Expr::Diff(
                    Box::new(Expr::Constant(Fp::from_spec((range - 1) as u64))),
                    Box::new(Expr::Query { column: value, rotation: 0 }),
                ),
            ),
        )
    }
}

/// The range-check product references only the value column.
pub proof fn lemma_range_check_expr_wf(value: Column, range: int, cs: ConstraintSystem)
    requires
        range >= 1,
        cs.column_declared(value),
    ensures
        spec_range_check_expr(value, range).wf(cs),
    decreases range,
{
    let q = Expr::Query { column: value, rotation: 0 };
    assert(q.wf(cs));
    if range <= 1 {
        assert(spec_range_check_expr(value, range) == q);
    } else {
        lemma_range_check_expr_wf(value, range - 1, cs);
        let c = Expr::Constant(Fp::from_spec((range - 1) as u64));
        assert(c.wf(cs));
        let d = Expr::Diff(Box::new(c), Box::new(q));
        assert(d.wf(cs));
        let p = Expr::Product(Box::new(spec_range_check_expr(value, range - 1)), Box::new(d));
        assert(p.wf(cs));
        assert(spec_range_check_expr(value, range) == p);
    }
}

/// Builds the range-check product for `range`.
pub fn range_check_expr(value: Column, range: usize) -> (e: Expr)
    requires
        1 <= range,
    ensures
        e == spec_range_check_expr(value, range as int),
{
    let mut e = Expr::Query { column: value, rotation: 0 };
    let mut i: usize = 1;
    while i < range
        invariant
            1 <= i <= range,
            e == spec_range_check_expr(value, i as int),
        decreases range - i,
    {
        e =
        Expr::Product(
            Box::new(e),
            Box::new(
                Expr::Diff(
                    Box::new(Expr::Constant(Fp::from(i as u64))),
                    Box::new(Expr::Query { column: value, rotation: 0 }),
                ),
            ),
        );
        i = i + 1;
    }
    e
}

/// The product always evaluates when its one queried cell does.
proof fn lemma_range_check_eval_ok(asg: Assignment, value: Column, range: int, row: int)
    requires
        1 <= range,
        crate::checker::spec_eval(Expr::Query { column: value, rotation: 0 }, asg, row) is Ok,
    ensures
        crate::checker::spec_eval(spec_range_check_expr(value, range), asg, row) is Ok,
    decreases range,
{
    let q = Expr::Query { column: value, rotation: 0 };
    if range > 1 {
        lemma_range_check_eval_ok(asg, value, range - 1, row);
        let c = Expr::Constant(Fp::from_spec((range - 1) as u64));
        assert(crate::checker::spec_eval(c, asg, row) is Ok);
        let d = Expr::Diff(Box::new(c), Box::new(q));
        assert(crate::checker::spec_eval(d, asg, row) is Ok);
        assert(spec_range_check_expr(value, range) == Expr::Product(
            Box::new(spec_range_check_expr(value, range - 1)),
            Box::new(d),
        ));
    }
}

/// The direct range check accepts every value below the range: when the
/// queried cell holds the field element for some `k < range`, the product
/// `v * (1 - v) * ... * (range - 1 - v)` evaluates to the additive identity,
/// so the checker finds nothing at that row.
pub proof fn lemma_range_check_vanishes(
    asg: Assignment,
    value: Column,
    range: int,
    row: int,
    k: int,
)
    requires
        1 <= range,
        0 <= k < range,
        k < FIELD_MODULUS,
        crate::checker::spec_eval(Expr::Query { column: value, rotation: 0 }, asg, row) == Ok::<
            Fp,
            Cell,
        >(Fp::from_spec(k as u64)),
    ensures
        crate::checker::spec_eval(spec_range_check_expr(value, range), asg, row) == Ok::<Fp, Cell>(
            Fp::zero_spec(),
        ),
    decreases range,
{
    let q = Expr::Query { column: value, rotation: 0 };
    let v = Fp::from_spec(k as u64);
    if range == 1 {
        Fp::lemma_from_view(0);
        Fp::lemma_view_injective(v, Fp::zero_spec());
        Fp::lemma_from_view(k as u64);
        assert(v == Fp::zero_spec());
    } else {
        let c = Expr::Constant(Fp::from_spec((range - 1) as u64));
        let d = Expr::Diff(Box::new(c), Box::new(q));
        assert(crate::checker::spec_eval(c, asg, row) == Ok::<Fp, Cell>(
            Fp::from_spec((range - 1) as u64),
        ));
        assert(crate::checker::spec_eval(d, asg, row) == Ok::<Fp, Cell>(
            Fp::sub_spec(Fp::from_spec((range - 1) as u64), v),
        ));
        assert(spec_range_check_expr(value, range) == Expr::Product(
            Box::new(spec_range_check_expr(value, range - 1)),
            Box::new(d),
        ));
        if k == range - 1 {
            lemma_range_check_eval_ok(asg, value, range - 1, row);
            Fp::lemma_sub_self(v);
            let left = crate::checker::spec_eval(spec_range_check_expr(value, range - 1), asg, row);
            Fp::lemma_mul_zero(left->Ok_0, v);
            assert(crate::checker::spec_eval(spec_range_check_expr(value, range), asg, row)
                == Ok::<Fp, Cell>(Fp::mul_spec(left->Ok_0, Fp::zero_spec())));
        } else {
            lemma_range_check_vanishes(asg, value, range - 1, row, k);
            let fv = crate::checker::spec_eval(d, asg, row)->Ok_0;
            Fp::lemma_mul_zero(fv, fv);
            assert(crate::checker::spec_eval(spec_range_check_expr(value, range), asg, row)
                == Ok::<Fp, Cell>(Fp::mul_spec(Fp::zero_spec(), fv)));
        }
    }
}

/// One advice column, one selector, and the range being enforced.
#[derive(Clone, Copy, Debug, PartialEq, Eq, Structural)]
pub struct RangeCheckConfig {
    pub value: Column,
    pub q_range_check: Selector,
    pub range: usize,
}

impl RangeCheckConfig {
    /// Declares the range-check gate over the given witness column: a fresh
    /// simple selector, and the product expression gated by it, as a gate
    /// named `Range check`.
    pub fn configure(meta: &mut ConstraintSystem, value: Column, range: usize) -> (config:
        RangeCheckConfig)
        requires
            old(meta).column_declared(value),
            value.kind == ColumnKind::Witness,
            1 <= range,
        ensures
            config.value == value,
            config.q_range_check.index == old(meta).num_selectors(),
            config.range == range,
            final(meta).selectors_complex@ == old(meta).selectors_complex@.push(false),
            final(meta).gates@.len() == old(meta).gates@.len() + 1,
            final(meta).gates@.drop_last() == old(meta).gates@,
            final(meta).gates@.last().name@ == "Range check"@,
            final(meta).gates@.last().selector == config.q_range_check,
            final(meta).gates@.last().poly == spec_range_check_expr(value, range as int),
            final(meta).witness_eq == old(meta).witness_eq,
            final(meta).public_eq == old(meta).public_eq,
            final(meta).fixed_eq == old(meta).fixed_eq,
            final(meta).lookups@ == old(meta).lookups@,
            old(meta).wf() ==> final(meta).wf(),
    {
        let q_range_check = meta.add_selector(false);
        let poly = range_check_expr(value, range);
        proof {
            lemma_range_check_expr_wf(value, range as int, *meta);
        }
        let name = String::from_str("Range check");
        meta.add_gate(name, q_range_check, poly);
        RangeCheckConfig { value, q_range_check, range }
    }

    /// Lays out one single-row region named `Assign value`, enables the
    /// range-check selector on it, and assigns the value there. An absent
    /// value is the unassigned-witness failure.
    pub fn assign(&self, layouter: &mut Assignment, value: Option<Fp>) -> (r: Result<(), Error>)
        requires
            old(layouter).shape_wf(),
            self.value.kind == ColumnKind::Witness,
            self.value.index < old(layouter).table.witness@.len(),
            self.q_range_check.index < old(layouter).table.selectors@.len(),
        ensures
            final(layouter).shape_wf(),
            assigned_one_row(
                *old(layouter),
                *final(layouter),
                "Assign value"@,
                self.q_range_check,
                self.value,
                value,
                r,
            ),
    {
        assign_value_row(
            layouter,
            String::from_str("Assign value"),
            self.q_range_check,
            self.value,
            value,
        )
    }
}

/// The relation between the layouter state before and after assigning one
/// single-row region: the region is laid out under the given name, the
/// selector is enabled on its row, and the value stands in the column there.
/// An absent value or a full table is the corresponding failure, and a failed
/// region still consumes its row.
pub open spec fn assigned_one_row(
    pre: Assignment,
    post: Assignment,
    name: Seq<char>,
    sel: Selector,
    col: Column,
    value: Option<Fp>,
    r: Result<(), Error>,
) -> bool {
    &&& (r is Ok <==> pre.cursor + 1 <= pre.table.n && value is Some)
    &&& (pre.cursor + 1 > pre.table.n ==> r == Err::<(), Error>(Error::NotEnoughRows) && post
        == pre)
    &&& (pre.cursor + 1 <= pre.table.n ==> {
        &&& post.table.regions@.len() == pre.table.regions@.len() + 1
        &&& post.table.regions@.drop_last() == pre.table.regions@
        &&& post.table.regions@.last().name@ == name
        &&& post.table.regions@.last().start == pre.cursor
        &&& post.table.regions@.last().rows == 1
        &&& post.cursor == pre.cursor + 1
        &&& post.table.selectors@[sel.index as int]@ == pre.table.selectors@[sel.index as int]@.update(
            pre.cursor as int,
            true,
        )
        &&& forall|i: int|
            0 <= i < pre.table.selectors@.len() && i != sel.index
                ==> post.table.selectors@[i] == pre.table.selectors@[i]
        &&& post.table.selectors@.len() == pre.table.selectors@.len()
        &&& post.table.fixed == pre.table.fixed
        &&& post.table.n == pre.table.n
        &&& post.public == pre.public
        &&& post.equalities == pre.equalities
        &&& post.witness_eq == pre.witness_eq
        &&& post.public_eq == pre.public_eq
        &&& post.fixed_eq == pre.fixed_eq
        &&& (value is Some ==> {
            &&& post.table.witness@[col.index as int]@ == pre.table.witness@[col.index as int]@.update(
                pre.cursor as int,
                value,
            )
            &&& forall|i: int|
                0 <= i < pre.table.witness@.len() && i != col.index
                    ==> post.table.witness@[i] == pre.table.witness@[i]
            &&& post.table.witness@.len() == pre.table.witness@.len()
        })
        &&& (value is None ==> r == Err::<(), Error>(Error::Synthesis) && post.table.witness
            == pre.table.witness)
    })
}

/// Lays out one single-row region under the given name, enables the selector
/// at its only row, and assigns the value to the column there.
pub fn assign_value_row(
    layouter: &mut Assignment,
    name: String,
    sel: Selector,
    col: Column,
    value: Option<Fp>,
) -> (r: Result<(), Error>)
    requires
        old(layouter).shape_wf(),
        col.kind == ColumnKind::Witness,
        col.index < old(layouter).table.witness@.len(),
        sel.index < old(layouter).table.selectors@.len(),
    ensures
        final(layouter).shape_wf(),
        assigned_one_row(*old(layouter), *final(layouter), name@, sel, col, value, r),
{
    let region = match layouter.assign_region(name, 1) {
        Ok(region) => region,
        Err(e) => {
            return Err(e);
        },
    };
    proof {
        assert(layouter.table.regions@.drop_last() =~= old(layouter).table.regions@);
    }
    match layouter.enable_selector(region, sel, 0) {
        Ok(u) => u,
        Err(e) => {
            return Err(e);
        },
    };
    let r: Result<(), Error> = match layouter.assign_witness(region, col, 0, value) {
        Ok(_) => Ok(()),
        Err(e) => Err(e),
    };
    proof {
        assert(layouter.table.regions@.drop_last() =~= old(layouter).table.regions@);
    }
    r
}

} // verus!
