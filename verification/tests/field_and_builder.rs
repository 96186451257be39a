use plonkish::assign::{Assignment, Error};
use plonkish::column::ColumnKind;
use plonkish::field::{Fp, FIELD_MODULUS};
use plonkish::system::ConstraintSystem;

fn fp(x: u64) -> Fp {
    Fp::from(x)
}

#[test]
fn field_arithmetic() {
    assert_eq!(fp(2).add(fp(3)), fp(5));
    assert_eq!(fp(5).sub(fp(3)), fp(2));
    assert_eq!(fp(6).mul(fp(7)), fp(42));
    assert_eq!(Fp::zero(), fp(0));
    assert_eq!(Fp::one(), fp(1));

    // Reduction and wrap-around at the modulus.
    assert_eq!(fp(FIELD_MODULUS), fp(0));
    assert_eq!(fp(0).sub(fp(1)), fp(FIELD_MODULUS - 1));
    assert_eq!(fp(FIELD_MODULUS - 1).add(fp(1)), fp(0));
    assert_eq!(fp(FIELD_MODULUS - 1).mul(fp(FIELD_MODULUS - 1)), fp(1));
}

#[test]
fn field_hex_representation() {
    assert_eq!(fp(0).hex_string(), "0x0");
    assert_eq!(fp(8).hex_string(), "0x8");
    assert_eq!(fp(10).hex_string(), "0xa");
    assert_eq!(fp(255).hex_string(), "0xff");
    assert_eq!(fp(256).hex_string(), "0x100");
    assert_eq!(fp(3735928559).hex_string(), "0xdeadbeef");
}

#[test]
fn layouter_reserves_disjoint_regions_in_order() {
    let mut cs = ConstraintSystem::new();
    let col = cs.add_column(ColumnKind::Witness);
    let mut asg = Assignment::new(&cs, 3, vec![]);
    assert_eq!(asg.table.n, 8);

    let r1 = asg.assign_region("one".to_string(), 3).unwrap();
    let r2 = asg.assign_region("two".to_string(), 2).unwrap();
    assert_eq!((r1.start, r1.rows), (0, 3));
    assert_eq!((r2.start, r2.rows), (3, 2));
    assert_eq!(asg.table.regions[0].name, "one");
    assert_eq!(asg.table.regions[1].name, "two");

    // The table is full after 8 rows; a further region is refused.
    assert_eq!(asg.assign_region("three".to_string(), 4), Err(Error::NotEnoughRows));
    let r3 = asg.assign_region("three".to_string(), 3).unwrap();
    assert_eq!((r3.start, r3.rows), (5, 3));

    // In-region offsets are checked against the region's rows.
    assert_eq!(asg.assign_witness(r2, col, 2, Some(fp(1))), Err(Error::OutOfBounds));
    // An absent value is the unassigned-witness failure.
    assert_eq!(asg.assign_witness(r2, col, 0, None), Err(Error::Synthesis));
    let cell = asg.assign_witness(r2, col, 1, Some(fp(9))).unwrap();
    assert_eq!(cell.row, 4);
    assert_eq!(asg.table.witness[col.index][4], Some(fp(9)));
}

#[test]
fn builder_declares_columns_selectors_and_flags() {
    let mut cs = ConstraintSystem::new();
    let w0 = cs.add_column(ColumnKind::Witness);
    let w1 = cs.add_column(ColumnKind::Witness);
    let p0 = cs.add_column(ColumnKind::Public);
    let f0 = cs.add_column(ColumnKind::Fixed);
    let simple = cs.add_selector(false);
    let complex = cs.add_selector(true);

    assert_eq!((w0.kind, w0.index), (ColumnKind::Witness, 0));
    assert_eq!((w1.kind, w1.index), (ColumnKind::Witness, 1));
    assert_eq!((p0.kind, p0.index), (ColumnKind::Public, 0));
    assert_eq!((f0.kind, f0.index), (ColumnKind::Fixed, 0));
    assert_eq!(simple.index, 0);
    assert_eq!(complex.index, 1);
    assert_eq!(cs.selectors_complex, vec![false, true]);

    assert_eq!(cs.witness_eq, vec![false, false]);
    cs.enable_equality(w1);
    assert_eq!(cs.witness_eq, vec![false, true]);
    assert_eq!(cs.public_eq, vec![false]);
    assert_eq!(cs.fixed_eq, vec![false]);
}

#[test]
fn constrain_public_checks_flags_and_bounds() {
    let mut cs = ConstraintSystem::new();
    let col = cs.add_column(ColumnKind::Witness);
    let inst = cs.add_column(ColumnKind::Public);
    let mut asg = Assignment::new(&cs, 2, vec![vec![fp(1)]]);
    let region = asg.assign_region("r".to_string(), 1).unwrap();
    let cell = asg.assign_witness(region, col, 0, Some(fp(1))).unwrap();

    assert_eq!(asg.constrain_public(cell, inst, 0), Err(Error::EqualityNotEnabled));

    let mut cs2 = ConstraintSystem::new();
    let col2 = cs2.add_column(ColumnKind::Witness);
    let inst2 = cs2.add_column(ColumnKind::Public);
    cs2.enable_equality(col2);
    cs2.enable_equality(inst2);
    let mut asg2 = Assignment::new(&cs2, 2, vec![vec![fp(1)]]);
    let region2 = asg2.assign_region("r".to_string(), 1).unwrap();
    let cell2 = asg2.assign_witness(region2, col2, 0, Some(fp(1))).unwrap();
    assert_eq!(asg2.constrain_public(cell2, inst2, 1), Err(Error::OutOfBounds));
    asg2.constrain_public(cell2, inst2, 0).unwrap();
    assert_eq!(asg2.equalities.len(), 1);
}
