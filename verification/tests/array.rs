use simdvec::array::{Array, ArrayError, Operand};
use simdvec::ops::Op;

fn kernel(op: Op, x: u32, y: u32) -> u32 {
    let a = f32::from_bits(x);
    let b = f32::from_bits(y);
    let r = match op {
        Op::Add => a + b,
        Op::Sub => a - b,
        Op::Mul => a * b,
        Op::Div => a / b,
    };
    r.to_bits()
}

fn array(v: &[f32]) -> Array {
    Array::new(v.iter().map(|x| x.to_bits()).collect())
}

fn floats(a: &Array) -> Vec<f32> {
    a.tolist().into_iter().map(f32::from_bits).collect()
}

fn number(x: f32) -> Operand {
    Operand::Scalar(x.to_bits())
}

#[test]
fn new_keeps_the_elements() {
    let a = Array::new(vec![3, 1, 2]);
    assert_eq!(a.tolist(), vec![3, 1, 2]);
    assert_eq!(a.len(), 3);
}

#[test]
fn zeroes_has_the_length_asked_for() {
    let a = Array::zeroes(5);
    assert_eq!(a.len(), 5);
    assert_eq!(floats(&a), vec![0.0; 5]);
    assert_eq!(Array::zeroes(0).len(), 0);
}

#[test]
fn get_inside_and_outside() {
    let a = array(&[1.0, 2.0, 3.0]);
    assert_eq!(a.get(0), Ok(1.0f32.to_bits()));
    assert_eq!(a.get(2), Ok(3.0f32.to_bits()));
    assert_eq!(a.get(3), Err(ArrayError::IndexOutOfRange));
    assert_eq!(a.get(-1), Err(ArrayError::IndexOutOfRange));
    assert_eq!(a.get(isize::MAX), Err(ArrayError::IndexOutOfRange));
    assert_eq!(a.get(isize::MIN), Err(ArrayError::IndexOutOfRange));
    assert_eq!(Array::zeroes(0).get(0), Err(ArrayError::IndexOutOfRange));
}

#[test]
fn operators_with_another_array() {
    let a = array(&[1.0, 2.0, 3.0, 4.0]);
    let b = Operand::Array(array(&[10.0, 20.0]));
    assert_eq!(floats(&a.add(&b, &kernel)), vec![11.0, 22.0, 3.0, 4.0]);
    assert_eq!(floats(&a.radd(&b, &kernel)), vec![11.0, 22.0, 3.0, 4.0]);
    assert_eq!(floats(&a.sub(&b, &kernel)), vec![-9.0, -18.0, 3.0, 4.0]);
    assert_eq!(floats(&a.rsub(&b, &kernel)), vec![9.0, 18.0, -3.0, -4.0]);
    assert_eq!(floats(&a.mul(&b, &kernel)), vec![10.0, 40.0, 0.0, 0.0]);
    assert_eq!(floats(&a.rmul(&b, &kernel)), vec![10.0, 40.0, 0.0, 0.0]);
    let q = floats(&a.truediv(&b, &kernel));
    assert_eq!(q[0], 0.1);
    assert_eq!(q[1], 0.1);
    assert!(q[2].is_nan() && q[3].is_nan());
    assert_eq!(floats(&a.rtruediv(&b, &kernel)), vec![10.0, 10.0, 0.0, 0.0]);
}

#[test]
fn operators_with_a_scalar() {
    let a = array(&[1.0, 2.0, 4.0]);
    assert_eq!(floats(&a.add(&number(2.0), &kernel)), vec![3.0, 4.0, 6.0]);
    assert_eq!(floats(&a.radd(&number(2.0), &kernel)), vec![3.0, 4.0, 6.0]);
    assert_eq!(floats(&a.sub(&number(2.0), &kernel)), vec![-1.0, 0.0, 2.0]);
    assert_eq!(floats(&a.rsub(&number(2.0), &kernel)), vec![1.0, 0.0, -2.0]);
    assert_eq!(floats(&a.mul(&number(3.0), &kernel)), vec![3.0, 6.0, 12.0]);
    assert_eq!(floats(&a.rmul(&number(3.0), &kernel)), vec![3.0, 6.0, 12.0]);
    assert_eq!(floats(&a.truediv(&number(2.0), &kernel)), vec![0.5, 1.0, 2.0]);
    assert_eq!(floats(&a.rtruediv(&number(2.0), &kernel)), vec![2.0, 1.0, 0.5]);
}

#[test]
fn operators_leave_the_operands_alone() {
    let a = array(&[1.0, 2.0]);
    let b = Operand::Array(array(&[5.0]));
    let _ = a.sub(&b, &kernel);
    assert_eq!(floats(&a), vec![1.0, 2.0]);
    match b {
        Operand::Array(o) => assert_eq!(floats(&o), vec![5.0]),
        Operand::Scalar(_) => panic!("operand changed kind"),
    }
}
