use simdvec::bits::{negate, zero, NAN, SIGN, ZERO};
use simdvec::ops::{pad_left, pad_right, Op, Vs, LANES};

#[test]
fn constants_are_the_encodings() {
    assert_eq!(ZERO, 0.0f32.to_bits());
    assert_eq!(NAN, f32::NAN.to_bits());
    assert!(f32::from_bits(NAN).is_nan());
    assert_eq!(SIGN, (-0.0f32).to_bits());
    assert_eq!(LANES, 8);
}

#[test]
fn negate_agrees_with_float_negation() {
    for x in [0.0f32, -0.0, 1.0, -1.0, 3.5, -1e-40, f32::MAX, f32::MIN, f32::INFINITY, f32::NEG_INFINITY] {
        assert_eq!(negate(x.to_bits()), (-x).to_bits());
    }
    assert_eq!(negate(0x7fc0_0000), 0xffc0_0000);
    assert_eq!(negate(0xffff_ffff), 0x7fff_ffff);
    assert_eq!(negate(negate(0x1234_5678)), 0x1234_5678);
}

#[test]
fn zero_finds_both_zeroes_only() {
    assert!(zero(0.0f32.to_bits()));
    assert!(zero((-0.0f32).to_bits()));
    assert!(!zero(1));
    assert!(!zero(0x8000_0001));
    assert!(!zero(1.0f32.to_bits()));
    assert!(!zero(f32::NAN.to_bits()));
    assert!(!zero(f32::INFINITY.to_bits()));
}

#[test]
fn left_column_of_the_table() {
    let x = 3.0f32.to_bits();
    assert_eq!(pad_left(Op::Add, x), x);
    assert_eq!(pad_left(Op::Sub, x), x);
    assert_eq!(pad_left(Op::Mul, x), 0);
    assert_eq!(pad_left(Op::Div, x), 0x7fc0_0000);
    assert_eq!(pad_left(Op::Div, 0), 0x7fc0_0000);
}

#[test]
fn right_column_of_the_table() {
    let y = 3.0f32.to_bits();
    assert_eq!(pad_right(Op::Add, y), y);
    assert_eq!(pad_right(Op::Sub, y), (-3.0f32).to_bits());
    assert_eq!(pad_right(Op::Mul, y), 0);
    assert_eq!(pad_right(Op::Div, y), 0);
    assert_eq!(pad_right(Op::Div, 0), 0x7fc0_0000);
    assert_eq!(pad_right(Op::Div, 0x8000_0000), 0x7fc0_0000);
}

#[test]
fn scalar_kinds_name_operator_and_side() {
    assert_eq!(Vs::Add.operator(), Op::Add);
    assert_eq!(Vs::Mul.operator(), Op::Mul);
    assert_eq!(Vs::SubVecFromScalar.operator(), Op::Sub);
    assert_eq!(Vs::SubScalarFromVec.operator(), Op::Sub);
    assert_eq!(Vs::DivVecByScalar.operator(), Op::Div);
    assert_eq!(Vs::DivScalarByVec.operator(), Op::Div);
    assert!(!Vs::Add.scalar_on_left());
    assert!(!Vs::Mul.scalar_on_left());
    assert!(Vs::SubVecFromScalar.scalar_on_left());
    assert!(!Vs::SubScalarFromVec.scalar_on_left());
    assert!(!Vs::DivVecByScalar.scalar_on_left());
    assert!(Vs::DivScalarByVec.scalar_on_left());
}
