use rice_nn::fixed::{add_fx, mul_fx, relu_deriv_fx, relu_fx, sub_fx, FX_MAX, FX_MIN, FX_ONE};

fn fx(x: f64) -> i64 {
    (x * FX_ONE as f64).round() as i64
}

#[test]
fn one_is_the_scale() {
    assert_eq!(FX_ONE, 65536);
    assert_eq!(fx(1.0), FX_ONE);
    assert_eq!(fx(0.5), FX_ONE / 2);
}

#[test]
fn addition_and_subtraction_are_exact_in_range() {
    assert_eq!(add_fx(fx(1.5), fx(0.25)), fx(1.75));
    assert_eq!(sub_fx(fx(1.5), fx(0.25)), fx(1.25));
    assert_eq!(add_fx(fx(-2.0), fx(0.5)), fx(-1.5));
}

#[test]
fn addition_saturates_at_the_range_ends() {
    assert_eq!(add_fx(FX_MAX, FX_MAX), FX_MAX);
    assert_eq!(add_fx(FX_MIN, FX_MIN), FX_MIN);
    assert_eq!(sub_fx(FX_MIN, FX_MAX), FX_MIN);
    assert_eq!(sub_fx(FX_MAX, FX_MIN), FX_MAX);
}

#[test]
fn multiplication_rescales() {
    assert_eq!(mul_fx(fx(0.5), fx(0.5)), fx(0.25));
    assert_eq!(mul_fx(fx(2.0), fx(3.0)), fx(6.0));
    assert_eq!(mul_fx(fx(-2.0), fx(3.0)), fx(-6.0));
    assert_eq!(mul_fx(FX_ONE, 12345), 12345);
    assert_eq!(mul_fx(12345, FX_ONE), 12345);
}

#[test]
fn multiplication_rounds_toward_zero() {
    // 3 units times 1.0 stays 3 units; 1 unit squared underflows to zero.
    assert_eq!(mul_fx(3, FX_ONE), 3);
    assert_eq!(mul_fx(1, 1), 0);
    assert_eq!(mul_fx(-1, 1), 0);
    // 3 * 21845 = 65535 units-squared: just below one unit, so zero.
    assert_eq!(mul_fx(3, 21845), 0);
    assert_eq!(mul_fx(-3, 21845), 0);
    // 3 * 0.5 = 1.5 units: truncates to one unit either side of zero.
    assert_eq!(mul_fx(3, 32768), 1);
    assert_eq!(mul_fx(-3, 32768), -1);
}

#[test]
fn relu_clamps_negatives() {
    assert_eq!(relu_fx(fx(1.25)), fx(1.25));
    assert_eq!(relu_fx(0), 0);
    assert_eq!(relu_fx(fx(-0.75)), 0);
}

#[test]
fn relu_derivative_is_a_unit_step() {
    assert_eq!(relu_deriv_fx(fx(0.25)), FX_ONE);
    assert_eq!(relu_deriv_fx(1), FX_ONE);
    assert_eq!(relu_deriv_fx(0), 0);
    assert_eq!(relu_deriv_fx(fx(-0.25)), 0);
}
