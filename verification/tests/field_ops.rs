use mock_verifier::Fp;
use mock_verifier::FpValue;
use mock_verifier::P;

fn fp(x: u64) -> Fp {
    Fp::from_u64(x)
}

#[test]
fn from_u64_reduces_modulo_p() {
    assert_eq!(Fp::from_u64(P).v, 0);
    assert_eq!(Fp::from_u64(P - 1).v, P - 1);
    assert_eq!(Fp::from_u64(7).v, 7);
}

#[test]
fn addition_wraps_at_the_modulus() {
    assert_eq!(fp(P - 1).add(fp(2)), fp(1));
    assert_eq!(fp(3).add(fp(4)), fp(7));
    assert_eq!(Fp::zero().add(fp(9)), fp(9));
}

#[test]
fn multiplication_is_exact() {
    assert_eq!(fp(3).mul(fp(5)), fp(15));
    assert_eq!(fp(0).mul(fp(5)), Fp::zero());
    assert_eq!(Fp::one().mul(fp(5)), fp(5));
    // (-1) * (-1) = 1 in any field.
    assert_eq!(fp(P - 1).mul(fp(P - 1)), fp(1));
}

#[test]
fn negation_is_the_additive_inverse() {
    assert_eq!(Fp::zero().neg(), Fp::zero());
    assert_eq!(fp(5).neg().add(fp(5)), Fp::zero());
    assert_eq!(fp(5).neg(), fp(P - 5));
}

#[test]
fn unknown_values_absorb_arithmetic() {
    let known = FpValue::Known(fp(3));
    assert_eq!(known.add(FpValue::Unknown), FpValue::Unknown);
    assert_eq!(FpValue::Unknown.mul(known), FpValue::Unknown);
    assert_eq!(known.add(FpValue::Known(fp(4))), FpValue::Known(fp(7)));
    assert_eq!(known.mul(FpValue::Known(fp(4))), FpValue::Known(fp(12)));
}
