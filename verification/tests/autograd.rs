use backprop::graph::{Arena, GraphError, OpKind};
use backprop::rational::Scalar;

fn leaf(a: &mut Arena, v: i64) -> usize {
    a.create_leaf(Scalar::from_int(v), None)
}

fn grad(a: &Arena, h: usize) -> Scalar {
    a.gradient_of(h).unwrap()
}

fn value(a: &Arena, h: usize) -> Scalar {
    a.value_of(h).unwrap()
}

fn assert_val(s: Scalar, n: i64) {
    assert!(s.eq_value(&Scalar::from_int(n)), "expected {n}, got {s:?}");
}

#[test]
fn add_of_leaves_gives_both_gradient_one() {
    let mut a = Arena::new();
    let x = leaf(&mut a, 2);
    let y = leaf(&mut a, 5);
    let out = a.add(x, y).unwrap();
    assert_val(value(&a, out), 7);
    a.backward(out).unwrap();
    assert_val(grad(&a, x), 1);
    assert_val(grad(&a, y), 1);
    assert_val(grad(&a, out), 1);
}

#[test]
fn mul_of_leaves_swaps_values_into_gradients() {
    let mut a = Arena::new();
    let x = leaf(&mut a, 4);
    let y = leaf(&mut a, 7);
    let out = a.mul(x, y).unwrap();
    assert_val(value(&a, out), 28);
    a.backward(out).unwrap();
    assert_val(grad(&a, x), 7);
    assert_val(grad(&a, y), 4);
}

#[test]
fn sub_of_leaves_gives_plus_and_minus_one() {
    let mut a = Arena::new();
    let x = leaf(&mut a, 10);
    let y = leaf(&mut a, 3);
    let out = a.sub(x, y).unwrap();
    assert_val(value(&a, out), 7);
    a.backward(out).unwrap();
    assert_val(grad(&a, x), 1);
    assert!(grad(&a, y).eq_value(&Scalar::from_int(-1)));
}

#[test]
fn div_gradients_are_exact_fractions() {
    let mut a = Arena::new();
    let x = leaf(&mut a, 1);
    let y = leaf(&mut a, 3);
    let out = a.div(x, y).unwrap();
    assert!(value(&a, out).eq_value(&Scalar::new(1, 3).unwrap()));
    a.backward(out).unwrap();
    assert!(grad(&a, x).eq_value(&Scalar::new(1, 3).unwrap()));
    assert!(grad(&a, y).eq_value(&Scalar::new(-1, 9).unwrap()));
}

#[test]
fn diamond_accumulates_both_paths() {
    // y = x*2 + x, so dy/dx must be 3, not just one path's share.
    let mut a = Arena::new();
    let x = leaf(&mut a, 3);
    let m = a.mul_const(x, Scalar::from_int(2)).unwrap();
    let y = a.add(m, x).unwrap();
    assert_val(value(&a, y), 9);
    a.backward(y).unwrap();
    assert_val(grad(&a, x), 3);
}

#[test]
fn square_accumulates_both_operand_slots() {
    // out = x*x, so dout/dx is 2x.
    let mut a = Arena::new();
    let x = leaf(&mut a, 4);
    let out = a.mul(x, x).unwrap();
    assert_val(value(&a, out), 16);
    a.backward(out).unwrap();
    assert_val(grad(&a, x), 8);
}

#[test]
fn division_by_zero_fails_and_creates_no_node() {
    let mut a = Arena::new();
    let x = leaf(&mut a, 1);
    let z = leaf(&mut a, 0);
    assert_eq!(a.div(x, z), Err(GraphError::DivisionByZero));
    assert_eq!(a.len(), 2);
    assert_eq!(a.div_const(x, Scalar::from_int(0)), Err(GraphError::DivisionByZero));
    assert_eq!(a.len(), 2);
}

#[test]
fn invalid_arity_for_leaf_op() {
    let mut a = Arena::new();
    let x = leaf(&mut a, 1);
    assert_eq!(a.create_op(OpKind::Leaf, x, x), Err(GraphError::InvalidArity));
    assert_eq!(a.len(), 1);
}

#[test]
fn unknown_handles_are_rejected() {
    let mut a = Arena::new();
    let x = leaf(&mut a, 1);
    assert_eq!(a.add(x, 5), Err(GraphError::UnknownHandle));
    assert_eq!(a.add_const(9, Scalar::from_int(1)), Err(GraphError::UnknownHandle));
    assert_eq!(a.backward(7), Err(GraphError::UnknownHandle));
    assert_eq!(a.value_of(1), Err(GraphError::UnknownHandle));
    assert_eq!(a.gradient_of(1), Err(GraphError::UnknownHandle));
    assert_eq!(a.op_of(1), Err(GraphError::UnknownHandle));
    assert_eq!(a.operands_of(1), Err(GraphError::UnknownHandle));
    assert_eq!(a.label_of(1), Err(GraphError::UnknownHandle));
    assert_eq!(a.set_label(1, String::from("x")), Err(GraphError::UnknownHandle));
    assert_eq!(a.len(), 1);
}

#[test]
fn overflow_is_reported_and_mutates_nothing() {
    let mut a = Arena::new();
    let big = a.create_leaf(Scalar::from_int(i64::MAX), None);
    assert_eq!(a.mul(big, big), Err(GraphError::Overflow));
    assert_eq!(a.len(), 1);
}

#[test]
fn reset_then_backward_twice_is_identical() {
    let mut a = Arena::new();
    let x = leaf(&mut a, 2);
    let y = leaf(&mut a, -3);
    let d = leaf(&mut a, 1);
    let c = a.add(x, y).unwrap();
    let out = a.mul(c, d).unwrap();

    a.reset_gradients();
    a.backward(out).unwrap();
    let first: Vec<Scalar> = (0..a.len()).map(|h| grad(&a, h)).collect();

    a.reset_gradients();
    a.backward(out).unwrap();
    let second: Vec<Scalar> = (0..a.len()).map(|h| grad(&a, h)).collect();

    assert_eq!(first, second);
}

#[test]
fn backward_twice_without_reset_doubles_every_gradient() {
    let mut a = Arena::new();
    let x = leaf(&mut a, 2);
    let y = leaf(&mut a, -3);
    let d = leaf(&mut a, 1);
    let c = a.add(x, y).unwrap();
    let out = a.mul(c, d).unwrap();

    a.backward(out).unwrap();
    let single: Vec<Scalar> = (0..a.len()).map(|h| grad(&a, h)).collect();
    a.backward(out).unwrap();

    for h in 0..a.len() {
        let doubled = single[h].checked_add(&single[h]).unwrap();
        assert!(
            grad(&a, h).eq_value(&doubled),
            "gradient of node {h} did not double"
        );
    }
    // Spot-check the actual numbers: every gradient is twice the
    // single-pass value, the output's included.
    assert_val(grad(&a, out), 2);
    assert_val(grad(&a, c), 2);
    assert!(grad(&a, d).eq_value(&Scalar::from_int(-2)));
    assert_val(grad(&a, x), 2);
    assert_val(grad(&a, y), 2);
}

#[test]
fn end_to_end_scenario() {
    let mut a = Arena::new();
    let x = leaf(&mut a, 2);
    let y = leaf(&mut a, -3);
    let d = leaf(&mut a, 1);
    let c = a.add(x, y).unwrap();
    assert!(value(&a, c).eq_value(&Scalar::from_int(-1)));
    let out = a.mul(c, d).unwrap();
    assert!(value(&a, out).eq_value(&Scalar::from_int(-1)));
    a.backward(out).unwrap();
    assert_val(grad(&a, out), 1);
    assert_val(grad(&a, c), 1);
    assert!(grad(&a, d).eq_value(&Scalar::from_int(-1)));
    assert_val(grad(&a, x), 1);
    assert_val(grad(&a, y), 1);
}

#[test]
fn end_to_end_scenario_with_constant_lift() {
    let mut a = Arena::new();
    let x = leaf(&mut a, 2);
    let y = leaf(&mut a, -3);
    let d = leaf(&mut a, 1);
    let c = a.add(x, y).unwrap();
    let e = a.add_const(d, Scalar::from_int(2)).unwrap();
    assert_val(value(&a, e), 3);
    let out = a.mul(c, e).unwrap();
    a.backward(out).unwrap();
    assert_val(grad(&a, x), 3);
    assert_val(grad(&a, y), 3);
    assert!(grad(&a, d).eq_value(&Scalar::from_int(-1)));
}

#[test]
fn constant_lift_makes_a_fresh_leaf_each_call() {
    let mut a = Arena::new();
    let x = leaf(&mut a, 1);
    let first = a.add_const(x, Scalar::from_int(2)).unwrap();
    let second = a.add_const(x, Scalar::from_int(2)).unwrap();
    // Each lift appended its own anonymous leaf before the new node.
    assert_eq!(first, 2);
    assert_eq!(second, 4);
    assert_eq!(a.len(), 5);
    assert_eq!(a.op_of(1).unwrap(), OpKind::Leaf);
    assert_eq!(a.op_of(3).unwrap(), OpKind::Leaf);
    assert_eq!(a.operands_of(second).unwrap(), Some((x, 3)));
}

#[test]
fn gradients_of_unreachable_nodes_are_untouched() {
    let mut a = Arena::new();
    let x = leaf(&mut a, 2);
    let stray = leaf(&mut a, 9);
    let out = a.add(x, x).unwrap();
    a.backward(out).unwrap();
    assert_val(grad(&a, x), 2);
    assert_eq!(grad(&a, stray), Scalar::from_int(0));
}

#[test]
fn accessors_report_node_data() {
    let mut a = Arena::new();
    let x = a.create_leaf(Scalar::from_int(2), Some(String::from("a")));
    let y = leaf(&mut a, 3);
    let out = a.mul(x, y).unwrap();
    assert_eq!(a.op_of(x).unwrap(), OpKind::Leaf);
    assert_eq!(a.op_of(out).unwrap(), OpKind::Multiply);
    assert_eq!(a.operands_of(x).unwrap(), None);
    assert_eq!(a.operands_of(out).unwrap(), Some((x, y)));
    assert_eq!(a.label_of(x).unwrap(), Some(String::from("a")));
    assert_eq!(a.label_of(out).unwrap(), None);
    a.set_label(out, String::from("prod")).unwrap();
    assert_eq!(a.label_of(out).unwrap(), Some(String::from("prod")));
    assert_val(value(&a, out), 6);
}

#[test]
fn fractional_values_stay_exact() {
    let mut a = Arena::new();
    let half = a.create_leaf(Scalar::new(1, 2).unwrap(), None);
    let third = a.create_leaf(Scalar::new(1, 3).unwrap(), None);
    let sum = a.add(half, third).unwrap();
    assert!(value(&a, sum).eq_value(&Scalar::new(5, 6).unwrap()));
    a.backward(sum).unwrap();
    assert_val(grad(&a, half), 1);
    assert_val(grad(&a, third), 1);
}

#[test]
fn scalar_constructor_normalizes_and_rejects() {
    let minus_half = Scalar::new(1, -2).unwrap();
    assert!(minus_half.eq_value(&Scalar::new(-1, 2).unwrap()));
    assert!(Scalar::new(1, 0).is_none());
    assert!(Scalar::new(i64::MIN, 1).is_none());
    assert!(Scalar::new(1, i64::MIN).is_none());
    assert!(Scalar::from_int(0).is_zero());
    assert!(!Scalar::from_int(3).is_zero());
}

#[test]
fn scalar_arithmetic_is_exact() {
    let half = Scalar::new(1, 2).unwrap();
    let third = Scalar::new(1, 3).unwrap();
    assert!(half.checked_add(&third).unwrap().eq_value(&Scalar::new(5, 6).unwrap()));
    assert!(half.checked_sub(&third).unwrap().eq_value(&Scalar::new(1, 6).unwrap()));
    assert!(half.checked_mul(&third).unwrap().eq_value(&Scalar::new(1, 6).unwrap()));
    assert!(half.checked_div(&third).unwrap().eq_value(&Scalar::new(3, 2).unwrap()));
    assert!(half.neg().eq_value(&Scalar::new(-1, 2).unwrap()));
    assert!(Scalar::from_int(i64::MAX).checked_mul(&Scalar::from_int(2)).is_none());
}
