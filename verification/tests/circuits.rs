use mock_verifier::fib_copy;
use mock_verifier::fib_rotation;
use mock_verifier::simple::SimpleCircuit;
use mock_verifier::verify;
use mock_verifier::ConstraintSystem;
use mock_verifier::Fp;
use mock_verifier::FpValue;
use mock_verifier::Layouter;
use mock_verifier::Violation;

fn fp(x: u64) -> Fp {
    Fp::from_u64(x)
}

fn run_fib_rotation(out: u64) -> Result<(), Vec<Violation>> {
    let mut cs = ConstraintSystem::new();
    let config = fib_rotation::FibonacciCircuit::configure(&mut cs);
    let pubs = vec![vec![fp(1), fp(1), fp(out)]];
    let mut l = Layouter::new(&cs, 10, pubs.clone());
    let circuit = fib_rotation::FibonacciCircuit;
    circuit.synthesize(config, &mut l).expect("synthesis fits in ten rows");
    verify(&cs, &l.trace, &pubs)
}

fn run_fib_copy(out: u64) -> Result<(), Vec<Violation>> {
    let mut cs = ConstraintSystem::new();
    let config = fib_copy::FibonacciCircuit::configure(&mut cs);
    let pubs = vec![vec![fp(1), fp(1), fp(out)]];
    let mut l = Layouter::new(&cs, 8, pubs.clone());
    let circuit = fib_copy::FibonacciCircuit;
    circuit.synthesize(config, &mut l).expect("synthesis fits in eight rows");
    verify(&cs, &l.trace, &pubs)
}

fn run_simple(a: u64, b: u64, constant: u64, public: u64) -> Result<(), Vec<Violation>> {
    let mut cs = ConstraintSystem::new();
    let config = SimpleCircuit::configure(&mut cs);
    let pubs = vec![vec![fp(public)]];
    let mut l = Layouter::new(&cs, 12, pubs.clone());
    let circuit = SimpleCircuit {
        constant: fp(constant),
        a: FpValue::Known(fp(a)),
        b: FpValue::Known(fp(b)),
    };
    circuit.synthesize(config, &mut l).expect("synthesis fits in twelve rows");
    verify(&cs, &l.trace, &pubs)
}

#[test]
fn fib_rotation_accepts_correct_output() {
    assert_eq!(run_fib_rotation(55), Ok(()));
}

#[test]
fn fib_rotation_rejects_wrong_output() {
    let vs = run_fib_rotation(56).expect_err("56 is not the tenth value");
    assert_eq!(vs.len(), 1);
    assert_eq!(
        vs[0],
        Violation::PublicInputMismatch { column: 0, row: 2, expected: fp(56), actual: fp(55) }
    );
}

#[test]
fn fib_copy_accepts_correct_output() {
    assert_eq!(run_fib_copy(55), Ok(()));
}

#[test]
fn fib_copy_rejects_wrong_output() {
    let vs = run_fib_copy(56).expect_err("56 is not the tenth value");
    assert_eq!(vs.len(), 1);
    assert_eq!(
        vs[0],
        Violation::PublicInputMismatch { column: 0, row: 2, expected: fp(56), actual: fp(55) }
    );
}

#[test]
fn simple_accepts_correct_product() {
    // 2 * 2^2 * 3^2 = 72
    assert_eq!(run_simple(2, 3, 2, 72), Ok(()));
}

#[test]
fn simple_rejects_missing_constant_factor() {
    // 36 omits the constant factor; the failing cell is the exposed one.
    let vs = run_simple(2, 3, 2, 36).expect_err("36 omits the constant factor");
    assert!(!vs.is_empty());
    assert_eq!(
        vs[0],
        Violation::PublicInputMismatch { column: 0, row: 0, expected: fp(36), actual: fp(72) }
    );
}

#[test]
fn verify_is_idempotent() {
    let mut cs = ConstraintSystem::new();
    let config = fib_rotation::FibonacciCircuit::configure(&mut cs);
    let pubs = vec![vec![fp(1), fp(1), fp(56)]];
    let mut l = Layouter::new(&cs, 10, pubs.clone());
    let circuit = fib_rotation::FibonacciCircuit;
    circuit.synthesize(config, &mut l).expect("synthesis fits in ten rows");
    let first = verify(&cs, &l.trace, &pubs);
    let second = verify(&cs, &l.trace, &pubs);
    assert_eq!(first, second);
    let accepted_first = verify(&cs, &l.trace, &vec![vec![fp(1), fp(1), fp(55)]]);
    let accepted_second = verify(&cs, &l.trace, &vec![vec![fp(1), fp(1), fp(55)]]);
    assert_eq!(accepted_first, accepted_second);
}

#[test]
fn fib_rotation_two_row_table() {
    // The minimal table: both seeds, no enabled selector rows.
    let mut cs = ConstraintSystem::new();
    let config = fib_rotation::FibonacciCircuit::configure(&mut cs);
    let pubs = vec![vec![fp(1), fp(1)]];
    let mut l = Layouter::new(&cs, 2, pubs.clone());
    let chip = fib_rotation::FibonacciChip::construct(config);
    chip.assign_row(&mut l, 2).expect("two rows fit");
    assert_eq!(verify(&cs, &l.trace, &pubs), Ok(()));
}

#[test]
fn fib_rotation_three_row_table() {
    // Row 0 is live, so the sum of the seeds is constrained there.
    let mut cs = ConstraintSystem::new();
    let config = fib_rotation::FibonacciCircuit::configure(&mut cs);
    let pubs = vec![vec![fp(1), fp(1)]];
    let mut l = Layouter::new(&cs, 3, pubs.clone());
    let chip = fib_rotation::FibonacciChip::construct(config);
    chip.assign_row(&mut l, 3).expect("three rows fit");
    assert_eq!(verify(&cs, &l.trace, &pubs), Ok(()));
}

#[test]
fn fib_rotation_rejects_tampered_middle_row() {
    // Overwriting a middle value breaks the recurrence gate on the rows
    // that read it.
    let mut cs = ConstraintSystem::new();
    let config = fib_rotation::FibonacciCircuit::configure(&mut cs);
    let pubs = vec![vec![fp(1), fp(1), fp(55)]];
    let mut l = Layouter::new(&cs, 10, pubs.clone());
    let circuit = fib_rotation::FibonacciCircuit;
    circuit.synthesize(config, &mut l).expect("synthesis fits in ten rows");
    l.trace.advice[0][4] = FpValue::Known(fp(6));
    let vs = verify(&cs, &l.trace, &pubs).expect_err("row 4 no longer holds f(4)");
    assert!(!vs.is_empty());
    for v in &vs {
        match v {
            Violation::ConstraintNotSatisfied { row, .. } => {
                assert!(*row == 2 || *row == 3 || *row == 4);
            }
            other => panic!("unexpected violation {:?}", other),
        }
    }
}

#[test]
fn simple_unknown_witness_synthesis_succeeds() {
    // A key-generation style run: the shape without values must synthesize.
    let mut cs = ConstraintSystem::new();
    let config = SimpleCircuit::configure(&mut cs);
    let pubs = vec![vec![fp(72)]];
    let mut l = Layouter::new(&cs, 12, pubs.clone());
    let circuit = SimpleCircuit {
        constant: fp(2),
        a: FpValue::Known(fp(2)),
        b: FpValue::Known(fp(3)),
    };
    let shape_only = circuit.without_witnesses();
    assert!(shape_only.synthesize(config, &mut l).is_ok());
}
