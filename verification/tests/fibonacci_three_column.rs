use plonkish::assign::{Assignment, Error};
use plonkish::checker;
use plonkish::checker::{Location, Violation};
use plonkish::column::Cell;
use plonkish::example1::MyCircuit;
use plonkish::field::Fp;
use plonkish::system::ConstraintSystem;

fn fp(x: u64) -> Fp {
    Fp::from(x)
}

#[test]
fn three_column_fibonacci_satisfied() {
    let k = 4;
    let public = vec![vec![fp(1), fp(1), fp(55)]];
    let mut cs = ConstraintSystem::new();
    let config = MyCircuit::configure(&mut cs);
    let circuit = MyCircuit { a: Some(fp(1)), b: Some(fp(1)) };
    let mut asg = Assignment::new(&cs, k, public);
    circuit.synthesize(config, &mut asg).unwrap();
    checker::assert_satisfied(&cs, &asg);

    // The three columns hold three staggered windows of 1, 1, 2, 3, 5, 8,
    // 13, 21, 34, 55.
    let seq = [1u64, 1, 2, 3, 5, 8, 13, 21, 34, 55];
    for row in 0..8 {
        assert_eq!(asg.table.witness[config.advice[0].index][row], Some(fp(seq[row])));
        assert_eq!(asg.table.witness[config.advice[1].index][row], Some(fp(seq[row + 1])));
        assert_eq!(asg.table.witness[config.advice[2].index][row], Some(fp(seq[row + 2])));
    }
    assert_eq!(asg.table.regions[0].name, "first_row");
    for i in 1..8 {
        assert_eq!(asg.table.regions[i].name, "next row");
        assert_eq!(asg.table.regions[i].start, i);
    }
    assert_eq!(cs.gates[0].name, "add");
}

#[test]
fn corrupted_sum_is_reported_at_its_row() {
    // Forcing row 4's sum to a wrong value yields exactly one constraint
    // violation, at exactly that row, against the addition constraint.
    let k = 4;
    let public = vec![vec![fp(1), fp(1), fp(55)]];
    let mut cs = ConstraintSystem::new();
    let config = MyCircuit::configure(&mut cs);
    let circuit = MyCircuit { a: Some(fp(1)), b: Some(fp(1)) };
    let mut asg = Assignment::new(&cs, k, public);
    circuit.synthesize(config, &mut asg).unwrap();

    asg.table.witness[config.advice[2].index][4] = Some(fp(999));
    let violations = checker::verify(&cs, &asg);

    let constraint_violations: Vec<&Violation> = violations
        .iter()
        .filter(|v| matches!(v, Violation::ConstraintNotSatisfied { .. }))
        .collect();
    assert_eq!(
        constraint_violations,
        vec![&Violation::ConstraintNotSatisfied {
            gate: 0,
            row: 4,
            location: Location::InRegion { region: 4, offset: 0 },
        }]
    );
    assert_eq!(cs.gates[0].name, "add");

    // The corrupted cell was also copied onward, so the copies now disagree.
    let bad = Cell { column: config.advice[2], row: 4 };
    let permutation_violations: Vec<&Violation> = violations
        .iter()
        .filter(|v| matches!(v, Violation::PermutationNotSatisfied { a, .. } if *a == bad))
        .collect();
    assert_eq!(permutation_violations.len(), 2);
    assert_eq!(violations.len(), 3);
}

#[test]
fn synthesis_is_reproducible() {
    let k = 4;
    let mut cs = ConstraintSystem::new();
    let config = MyCircuit::configure(&mut cs);
    let circuit = MyCircuit { a: Some(fp(1)), b: Some(fp(1)) };

    let mut asg1 = Assignment::new(&cs, k, vec![vec![fp(1), fp(1), fp(55)]]);
    circuit.synthesize(config, &mut asg1).unwrap();
    let mut asg2 = Assignment::new(&cs, k, vec![vec![fp(1), fp(1), fp(55)]]);
    circuit.synthesize(config, &mut asg2).unwrap();

    assert_eq!(asg1, asg2);
}

#[test]
fn missing_witness_aborts_synthesis() {
    let k = 4;
    let mut cs = ConstraintSystem::new();
    let config = MyCircuit::configure(&mut cs);
    let circuit = MyCircuit { a: None, b: Some(fp(1)) };
    let mut asg = Assignment::new(&cs, k, vec![vec![fp(1), fp(1), fp(55)]]);
    assert_eq!(circuit.synthesize(config, &mut asg), Err(Error::Synthesis));

    let blinded = circuit.without_witnesses();
    assert_eq!(blinded.a, None);
    assert_eq!(blinded.b, None);
}

#[test]
fn wrong_public_output_is_a_permutation_violation() {
    let k = 4;
    let public = vec![vec![fp(1), fp(1), fp(56)]];
    let mut cs = ConstraintSystem::new();
    let config = MyCircuit::configure(&mut cs);
    let circuit = MyCircuit { a: Some(fp(1)), b: Some(fp(1)) };
    let mut asg = Assignment::new(&cs, k, public);
    circuit.synthesize(config, &mut asg).unwrap();
    let violations = checker::verify(&cs, &asg);
    assert_eq!(
        violations,
        vec![Violation::PermutationNotSatisfied {
            index: 16,
            a: Cell { column: config.advice[2], row: 7 },
            b: Cell { column: config.instance, row: 2 },
            value_a: fp(55),
            value_b: fp(56),
        }]
    );
}
