use mock_verifier::system::Gate;
use mock_verifier::verify;
use mock_verifier::Cell;
use mock_verifier::Column;
use mock_verifier::ColumnKind;
use mock_verifier::ConstraintSystem;
use mock_verifier::Error;
use mock_verifier::Expression;
use mock_verifier::Fp;
use mock_verifier::FpValue;
use mock_verifier::Layouter;
use mock_verifier::Rotation;
use mock_verifier::Selector;
use mock_verifier::Trace;
use mock_verifier::Violation;

fn fp(x: u64) -> Fp {
    Fp::from_u64(x)
}

fn advice0() -> Column {
    Column { kind: ColumnKind::Advice, index: 0 }
}

fn acell(row: usize) -> Cell {
    Cell { column: advice0(), row }
}

#[test]
fn copy_transitivity_is_flagged() {
    // A ~ B and B ~ C: forcing A and C apart must be caught although no
    // direct A-C constraint exists.
    let cs = ConstraintSystem {
        eq_advice: vec![true],
        eq_fixed: vec![],
        eq_instance: vec![],
        num_selectors: 0,
        constants: vec![],
        gates: vec![],
    };
    let trace = Trace {
        k: 3,
        advice: vec![vec![
            FpValue::Known(fp(5)),
            FpValue::Known(fp(5)),
            FpValue::Known(fp(7)),
        ]],
        fixed: vec![],
        selectors: vec![],
        copies: vec![(acell(0), acell(1)), (acell(1), acell(2))],
    };
    let pubs: Vec<Vec<Fp>> = vec![];
    let vs = verify(&cs, &trace, &pubs).expect_err("5 and 7 sit in one class");
    assert!(vs.contains(&Violation::PermutationMismatch {
        a: acell(0),
        b: acell(2),
        left: fp(5),
        right: fp(7),
    }));
}

fn one_cell_gate_system() -> ConstraintSystem {
    // One gate asserting that the advice cell itself is zero wherever the
    // selector is enabled.
    ConstraintSystem {
        eq_advice: vec![false],
        eq_fixed: vec![],
        eq_instance: vec![],
        num_selectors: 1,
        constants: vec![],
        gates: vec![Gate {
            name: "zero".to_string(),
            selector: Selector { index: 0 },
            polys: vec![Expression::Query(advice0(), Rotation::cur())],
        }],
    }
}

#[test]
fn disabled_selector_row_is_not_checked() {
    let cs = one_cell_gate_system();
    let trace = Trace {
        k: 1,
        advice: vec![vec![FpValue::Known(fp(5))]],
        fixed: vec![],
        selectors: vec![vec![false]],
        copies: vec![],
    };
    let pubs: Vec<Vec<Fp>> = vec![];
    assert_eq!(verify(&cs, &trace, &pubs), Ok(()));
}

#[test]
fn enabled_selector_row_is_checked() {
    let cs = one_cell_gate_system();
    let trace = Trace {
        k: 1,
        advice: vec![vec![FpValue::Known(fp(5))]],
        fixed: vec![],
        selectors: vec![vec![true]],
        copies: vec![],
    };
    let pubs: Vec<Vec<Fp>> = vec![];
    let vs = verify(&cs, &trace, &pubs).expect_err("5 is not zero");
    assert_eq!(vs.len(), 1);
    assert_eq!(
        vs[0],
        Violation::ConstraintNotSatisfied { gate: 0, poly: 0, row: 0, value: fp(5) }
    );
}

#[test]
fn unassigned_cell_under_enabled_gate_is_reported() {
    let cs = one_cell_gate_system();
    let trace = Trace {
        k: 1,
        advice: vec![vec![FpValue::Unknown]],
        fixed: vec![],
        selectors: vec![vec![true]],
        copies: vec![],
    };
    let pubs: Vec<Vec<Fp>> = vec![];
    let vs = verify(&cs, &trace, &pubs).expect_err("the referenced cell has no value");
    assert_eq!(vs.len(), 1);
    assert_eq!(vs[0], Violation::CellNotAssigned { gate: 0, row: 0, cell: acell(0) });
}

#[test]
fn rotations_wrap_around_the_table() {
    // A next-row query at the last row reads row 0 again.
    let cs = ConstraintSystem {
        eq_advice: vec![false],
        eq_fixed: vec![],
        eq_instance: vec![],
        num_selectors: 1,
        constants: vec![],
        gates: vec![Gate {
            name: "next-zero".to_string(),
            selector: Selector { index: 0 },
            polys: vec![Expression::Query(advice0(), Rotation::next())],
        }],
    };
    let trace = Trace {
        k: 2,
        advice: vec![vec![FpValue::Known(fp(1)), FpValue::Known(fp(0))]],
        fixed: vec![],
        selectors: vec![vec![false, true]],
        copies: vec![],
    };
    let pubs: Vec<Vec<Fp>> = vec![];
    let vs = verify(&cs, &trace, &pubs).expect_err("the query wraps to the non-zero row 0");
    assert_eq!(vs.len(), 1);
    assert_eq!(
        vs[0],
        Violation::ConstraintNotSatisfied { gate: 0, poly: 0, row: 1, value: fp(1) }
    );
}

#[test]
fn assigning_past_the_table_fails() {
    let mut cs = ConstraintSystem::new();
    let col = cs.advice_column();
    let mut l = Layouter::new(&cs, 2, vec![]);
    l.begin_region();
    let e = l
        .assign_advice(col, 2, FpValue::Known(fp(1)))
        .expect_err("row 2 of a two-row table");
    assert_eq!(e, Error::RowOutOfRange { row: 2, max: 2 });
    assert!(l.assign_advice(col, 1, FpValue::Known(fp(1))).is_ok());
    l.end_region();
}

#[test]
fn conflicting_reassignment_fails() {
    let mut cs = ConstraintSystem::new();
    let col = cs.advice_column();
    let mut l = Layouter::new(&cs, 2, vec![]);
    l.begin_region();
    l.assign_advice(col, 0, FpValue::Known(fp(1))).unwrap();
    let e = l
        .assign_advice(col, 0, FpValue::Known(fp(2)))
        .expect_err("the cell already holds 1");
    assert_eq!(e, Error::CellAlreadyAssigned { cell: acell(0) });
    // Reproducing the same value is legal.
    assert!(l.assign_advice(col, 0, FpValue::Known(fp(1))).is_ok());
    l.end_region();
}

#[test]
fn copy_constraint_needs_equality_capability() {
    let mut cs = ConstraintSystem::new();
    let col = cs.advice_column();
    let instance = cs.instance_column();
    cs.enable_equality(instance);
    let mut l = Layouter::new(&cs, 2, vec![vec![fp(7)]]);
    l.begin_region();
    let c = l.assign_advice(col, 0, FpValue::Known(fp(7))).unwrap();
    l.end_region();
    let e = l
        .constrain_instance(c.cell, instance, 0)
        .expect_err("the advice column is not equality-enabled");
    assert_eq!(e, Error::ColumnNotEqualityEnabled { column: col });
}

#[test]
fn public_input_length_must_match_bindings() {
    let mut cs = ConstraintSystem::new();
    let col = cs.advice_column();
    let instance = cs.instance_column();
    cs.enable_equality(col);
    cs.enable_equality(instance);
    let pubs = vec![vec![fp(7), fp(8)]];
    let mut l = Layouter::new(&cs, 2, pubs.clone());
    l.begin_region();
    let c = l.assign_advice_from_instance(instance, 0, col, 0).unwrap();
    l.end_region();
    l.constrain_instance(c.cell, instance, 0).unwrap();
    // Only instance row 0 is referenced, so two supplied rows are one too
    // many.
    let vs = verify(&cs, &l.trace, &pubs).expect_err("one extra public row");
    assert_eq!(vs.len(), 1);
    assert_eq!(
        vs[0],
        Violation::PublicInputWrongLength { column: 0, expected_len: 1, actual_len: 2 }
    );
}

#[test]
fn regions_are_placed_contiguously() {
    let mut cs = ConstraintSystem::new();
    let col = cs.advice_column();
    let mut l = Layouter::new(&cs, 4, vec![]);
    l.begin_region();
    let first = l.assign_advice(col, 0, FpValue::Known(fp(1))).unwrap();
    l.end_region();
    l.begin_region();
    let second = l.assign_advice(col, 0, FpValue::Known(fp(2))).unwrap();
    l.end_region();
    assert_eq!(first.cell, acell(0));
    assert_eq!(second.cell, acell(1));
}

#[test]
fn verifier_aggregates_findings_of_all_passes() {
    // One trace with a gate violation and a public-input disagreement at
    // once: both findings come back in a single list.
    let mut cs = ConstraintSystem::new();
    let col = cs.advice_column();
    let instance = cs.instance_column();
    cs.enable_equality(col);
    cs.enable_equality(instance);
    let sel = cs.selector();
    cs.gates.push(Gate {
        name: "zero".to_string(),
        selector: sel,
        polys: vec![Expression::Query(col, Rotation::cur())],
    });
    let trace = Trace {
        k: 1,
        advice: vec![vec![FpValue::Known(fp(5))]],
        fixed: vec![],
        selectors: vec![vec![true]],
        copies: vec![(acell(0), Cell { column: instance, row: 0 })],
    };
    let pubs = vec![vec![fp(7)]];
    let vs = verify(&cs, &trace, &pubs).expect_err("two independent problems");
    assert_eq!(vs.len(), 2);
    assert!(vs.contains(&Violation::ConstraintNotSatisfied {
        gate: 0,
        poly: 0,
        row: 0,
        value: fp(5),
    }));
    assert!(vs.contains(&Violation::PublicInputMismatch {
        column: 0,
        row: 0,
        expected: fp(7),
        actual: fp(5),
    }));
}
