use plonkish::assign::{Assignment, Error};
use plonkish::checker;
use plonkish::checker::Violation;
use plonkish::column::{Cell, ColumnKind};
use plonkish::field::Fp;
use plonkish::fibonacci::example2::{FiboChip, MyCircuit};
use plonkish::system::ConstraintSystem;

fn fp(x: u64) -> Fp {
    Fp::from(x)
}

#[test]
fn single_column_fibonacci_satisfied() {
    let k = 4;
    let public = vec![vec![fp(1), fp(1), fp(55)]];
    let mut cs = ConstraintSystem::new();
    let config = MyCircuit::configure(&mut cs);
    let circuit = MyCircuit { a: Some(fp(1)), b: Some(fp(1)) };
    let mut asg = Assignment::new(&cs, k, public);
    circuit.synthesize(config, &mut asg).unwrap();
    checker::assert_satisfied(&cs, &asg);

    let expected = [1u64, 1, 2, 3, 5, 8, 13, 21, 34, 55];
    for (row, want) in expected.iter().enumerate() {
        assert_eq!(asg.table.witness[config.advice.index][row], Some(fp(*want)));
    }
    for row in 10..16 {
        assert_eq!(asg.table.witness[config.advice.index][row], None);
    }
    assert_eq!(cs.gates[0].name, "add");
    assert_eq!(asg.table.regions[0].name, "entire fibonacci table");
}

#[test]
fn single_column_fibonacci_wrong_output() {
    let k = 4;
    let public = vec![vec![fp(1), fp(1), fp(56)]];
    let mut cs = ConstraintSystem::new();
    let config = MyCircuit::configure(&mut cs);
    let circuit = MyCircuit { a: Some(fp(1)), b: Some(fp(1)) };
    let mut asg = Assignment::new(&cs, k, public);
    circuit.synthesize(config, &mut asg).unwrap();
    let violations = checker::verify(&cs, &asg);
    assert_eq!(
        violations,
        vec![Violation::PermutationNotSatisfied {
            index: 2,
            a: Cell { column: config.advice, row: 9 },
            b: Cell { column: config.instance, row: 2 },
            value_a: fp(55),
            value_b: fp(56),
        }]
    );
}

#[test]
fn rotation_stays_inside_table() {
    // Enabling the selector on the final two rows of the region makes the
    // gate read one row past the assigned span; the wrapped query stays
    // inside the table and the checker reports the unassigned cell instead
    // of reading out of bounds.
    let k = 4;
    let public = vec![vec![fp(1), fp(1), fp(55)]];
    let mut cs = ConstraintSystem::new();
    let config = MyCircuit::configure(&mut cs);
    let chip = FiboChip::construct(config);
    let mut asg = Assignment::new(&cs, k, public);
    chip.assign(&mut asg, 10).unwrap();
    checker::assert_satisfied(&cs, &asg);

    asg.table.selectors[config.selector.index][8] = true;
    asg.table.selectors[config.selector.index][9] = true;
    let violations = checker::verify(&cs, &asg);
    assert_eq!(
        violations,
        vec![
            Violation::CellNotAssigned { cell: Cell { column: config.advice, row: 10 } },
            Violation::CellNotAssigned { cell: Cell { column: config.advice, row: 10 } },
        ]
    );
}

#[test]
fn gate_skips_rows_without_selector() {
    // A corrupted cell in a row no enabled selector reaches leaves the
    // instance satisfied: a gate only considers rows where its selector at
    // offset 0 is enabled.
    let k = 4;
    let public = vec![vec![fp(1), fp(1), fp(55)]];
    let mut cs = ConstraintSystem::new();
    let config = MyCircuit::configure(&mut cs);
    let chip = FiboChip::construct(config);
    let mut asg = Assignment::new(&cs, k, public);
    chip.assign(&mut asg, 10).unwrap();

    asg.table.witness[config.advice.index][12] = Some(fp(123));
    checker::assert_satisfied(&cs, &asg);

    // The same corruption on a gated row is caught.
    asg.table.witness[config.advice.index][12] = None;
    asg.table.witness[config.advice.index][4] = Some(fp(123));
    assert!(!checker::is_satisfied(&cs, &asg));
}

#[test]
fn copy_links_cells_into_one_class() {
    // A copy writes the source value at the destination and declares the
    // pair equal; corrupting only the destination afterwards yields a
    // permutation violation naming both cells.
    let mut cs = ConstraintSystem::new();
    let col_x = cs.add_column(ColumnKind::Witness);
    let col_y = cs.add_column(ColumnKind::Witness);
    cs.enable_equality(col_x);
    cs.enable_equality(col_y);
    let mut asg = Assignment::new(&cs, 2, vec![]);
    let region = asg.assign_region("pair".to_string(), 2).unwrap();
    let src = asg.assign_witness(region, col_x, 0, Some(fp(7))).unwrap();
    let dst = asg.copy(region, src, col_y, 1).unwrap();
    assert_eq!(asg.table.witness[col_x.index][0], Some(fp(7)));
    assert_eq!(asg.table.witness[col_y.index][1], Some(fp(7)));
    assert_eq!(asg.equalities, vec![(src, dst)]);
    checker::assert_satisfied(&cs, &asg);

    asg.table.witness[col_y.index][1] = Some(fp(8));
    let violations = checker::verify(&cs, &asg);
    assert_eq!(
        violations,
        vec![Violation::PermutationNotSatisfied {
            index: 0,
            a: src,
            b: dst,
            value_a: fp(7),
            value_b: fp(8),
        }]
    );
}

#[test]
fn copy_requires_equality_enabled() {
    let mut cs = ConstraintSystem::new();
    let col_x = cs.add_column(ColumnKind::Witness);
    let col_y = cs.add_column(ColumnKind::Witness);
    cs.enable_equality(col_x);
    // col_y's equality flag stays off, so copying into it is rejected.
    let mut asg = Assignment::new(&cs, 2, vec![]);
    let region = asg.assign_region("pair".to_string(), 2).unwrap();
    let src = asg.assign_witness(region, col_x, 0, Some(fp(7))).unwrap();
    assert_eq!(asg.copy(region, src, col_y, 1), Err(Error::EqualityNotEnabled));
}
