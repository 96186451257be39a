use plonkish::assign::Assignment;
use plonkish::checker;
use plonkish::checker::{Location, Violation};
use plonkish::column::ColumnKind;
use plonkish::field::Fp;
use plonkish::range_check::example1::RangeCheckConfig;
use plonkish::range_check::example2::RangeCheckConfig as LookupRangeCheckConfig;
use plonkish::system::ConstraintSystem;

#[test]
fn example1_test_range_check_1() {
    let k = 4;
    const RANGE: usize = 8; // 3-bit value

    // Successful cases
    for i in 0..RANGE {
        let mut cs = ConstraintSystem::new();
        let value = cs.add_column(ColumnKind::Witness);
        let config = RangeCheckConfig::configure(&mut cs, value, RANGE);
        let mut asg = Assignment::new(&cs, k, vec![]);
        config.assign(&mut asg, Some(Fp::from(i as u64))).unwrap();
        checker::assert_satisfied(&cs, &asg);
        assert!(checker::is_satisfied(&cs, &asg));
    }

    // Out-of-range value, v=8
    let mut cs = ConstraintSystem::new();
    let value = cs.add_column(ColumnKind::Witness);
    let config = RangeCheckConfig::configure(&mut cs, value, RANGE);
    let mut asg = Assignment::new(&cs, k, vec![]);
    config.assign(&mut asg, Some(Fp::from(RANGE as u64))).unwrap();
    assert_eq!(
        checker::verify(&cs, &asg),
        vec![Violation::ConstraintNotSatisfied {
            gate: 0,
            row: 0,
            location: Location::InRegion { region: 0, offset: 0 },
        }]
    );
    assert_eq!(cs.gates[0].name, "Range check");
    assert_eq!(asg.table.regions[0].name, "Assign value");
    let cells = checker::gate_cells(&cs, &asg, 0, 0);
    assert!(!cells.is_empty());
    for (column, rotation, v) in cells {
        assert_eq!(column, value);
        assert_eq!(rotation, 0);
        assert_eq!(v, Some(Fp::from(8)));
        assert_eq!(v.unwrap().hex_string(), "0x8");
    }
}

#[test]
fn example2_test_range_check_1() {
    let k = 9;
    const RANGE: usize = 8; // 3-bit value
    const LOOKUP_RANGE: usize = 256; // 8-bit value

    // Successful cases
    for i in 0..RANGE {
        let mut cs = ConstraintSystem::new();
        let value = cs.add_column(ColumnKind::Witness);
        let config = LookupRangeCheckConfig::configure(&mut cs, value, RANGE, LOOKUP_RANGE);
        let mut asg = Assignment::new(&cs, k, vec![]);
        config.table.load(&mut asg).unwrap();
        config.assign(&mut asg, Some(Fp::from(i as u64)), RANGE).unwrap();
        config.assign(&mut asg, Some(Fp::from(i as u64)), LOOKUP_RANGE).unwrap();
        checker::assert_satisfied(&cs, &asg);
        assert!(checker::is_satisfied(&cs, &asg));
    }
}

#[test]
fn lookup_config_direct_branch() {
    // A claimed range below the configured one takes the direct path, which
    // accepts everything below its own range and rejects the rest.
    const RANGE: usize = 8;
    const LOOKUP_RANGE: usize = 256;
    for i in 0..RANGE {
        let mut cs = ConstraintSystem::new();
        let value = cs.add_column(ColumnKind::Witness);
        let config = LookupRangeCheckConfig::configure(&mut cs, value, RANGE, LOOKUP_RANGE);
        let mut asg = Assignment::new(&cs, 9, vec![]);
        config.table.load(&mut asg).unwrap();
        config.assign(&mut asg, Some(Fp::from(i as u64)), RANGE - 1).unwrap();
        checker::assert_satisfied(&cs, &asg);
    }

    let mut cs = ConstraintSystem::new();
    let value = cs.add_column(ColumnKind::Witness);
    let config = LookupRangeCheckConfig::configure(&mut cs, value, RANGE, LOOKUP_RANGE);
    let mut asg = Assignment::new(&cs, 9, vec![]);
    config.table.load(&mut asg).unwrap();
    config.assign(&mut asg, Some(Fp::from(RANGE as u64)), RANGE - 1).unwrap();
    let violations = checker::verify(&cs, &asg);
    assert_eq!(
        violations,
        vec![Violation::ConstraintNotSatisfied {
            gate: 0,
            row: 256,
            location: Location::InRegion { region: 1, offset: 0 },
        }]
    );
    assert_eq!(asg.table.regions[1].name, "Assign value");
}

#[test]
fn lookup_config_lookup_branch() {
    // Values in the lookup range but beyond the direct check pass through
    // the table; a value beyond the table fails set membership.
    const RANGE: usize = 8;
    const LOOKUP_RANGE: usize = 256;
    for v in [8u64, 100, 255] {
        let mut cs = ConstraintSystem::new();
        let value = cs.add_column(ColumnKind::Witness);
        let config = LookupRangeCheckConfig::configure(&mut cs, value, RANGE, LOOKUP_RANGE);
        let mut asg = Assignment::new(&cs, 9, vec![]);
        config.table.load(&mut asg).unwrap();
        config.assign(&mut asg, Some(Fp::from(v)), LOOKUP_RANGE).unwrap();
        checker::assert_satisfied(&cs, &asg);
    }

    let mut cs = ConstraintSystem::new();
    let value = cs.add_column(ColumnKind::Witness);
    let config = LookupRangeCheckConfig::configure(&mut cs, value, RANGE, LOOKUP_RANGE);
    let mut asg = Assignment::new(&cs, 9, vec![]);
    config.table.load(&mut asg).unwrap();
    config.assign(&mut asg, Some(Fp::from(300)), LOOKUP_RANGE).unwrap();
    let violations = checker::verify(&cs, &asg);
    assert_eq!(
        violations,
        vec![Violation::LookupNotSatisfied {
            lookup: 0,
            row: 256,
            location: Location::InRegion { region: 1, offset: 0 },
            value: Fp::from(300),
        }]
    );
    assert_eq!(asg.table.regions[1].name, "Assign value for lookup range check");
}
