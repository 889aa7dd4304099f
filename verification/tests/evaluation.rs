use balance_formula::FormulaError;
use balance_formula::calc_n;
use balance_formula::evaluate_naive;
use balance_formula::evaluate_precise;
use balance_formula::bridge::round_trip;
use balance_formula::to_extended;
use balance_formula::to_integer;

#[test]
fn round_trip_boundary_values() {
    let samples: [u128; 12] = [
        0,
        1,
        2,
        9,
        10,
        255,
        (1u128 << 100) | 1,
        1u128 << 100,
        1u128 << 127,
        12345678901234567890,
        u128::MAX - 1,
        u128::MAX,
    ];
    for &x in samples.iter() {
        assert_eq!(round_trip(x), x);
        assert_eq!(to_integer(&to_extended(x)), x);
    }
}

#[test]
fn zero_weight_yields_zero() {
    assert_eq!(evaluate_precise(7, 3, 9, 0, 5), Ok(0));
    assert_eq!(evaluate_precise(u128::MAX, 1, 1, 0, 3), Ok(0));
}

#[test]
fn zero_amount_yields_zero() {
    assert_eq!(evaluate_precise(1u128 << 100, 12345, 0, 77, 13), Ok(0));
    assert_eq!(evaluate_precise(5, 4, 0, 2, 1), Ok(0));
}

#[test]
fn all_zero_inputs_divide_by_zero() {
    assert_eq!(evaluate_precise(0, 0, 0, 0, 0), Err(FormulaError::DivisionByZero));
}

#[test]
fn zero_weight2_divides_by_zero() {
    assert_eq!(evaluate_precise(1, 1, 1, 1, 0), Err(FormulaError::DivisionByZero));
    assert_eq!(evaluate_precise(0, 5, 5, 0, 0), Err(FormulaError::DivisionByZero));
}

#[test]
fn zero_b_and_amount_divide_by_zero() {
    assert_eq!(evaluate_precise(9, 0, 0, 3, 4), Err(FormulaError::DivisionByZero));
}

#[test]
fn scenario_all_ones() {
    // base = 1/2, ratio = 1, powered = 0.5, result = 0.5, floors to 0
    assert_eq!(evaluate_precise(1, 1, 1, 1, 1), Ok(0));
}

#[test]
fn scenario_one_two_three_four_five() {
    // base = 0.4, ratio = 0.8, result ~ 0.5068, floors to 0
    assert_eq!(evaluate_precise(1, 2, 3, 4, 5), Ok(0));
}

#[test]
fn scenario_five_four_three_two_one() {
    // base = 4/7, ratio = 2, result ~ 3.367, floors to 3
    assert_eq!(evaluate_precise(5, 4, 3, 2, 1), Ok(3));
}

#[test]
fn scenario_all_twos() {
    // base = 1/2, ratio = 1, result = 2 * 0.5 = 1 exactly
    assert_eq!(evaluate_precise(2, 2, 2, 2, 2), Ok(1));
}

#[test]
fn precision_gap_for_large_a() {
    let a = (1u128 << 100) | 1;
    let precise = evaluate_precise(a, 1000, 23, 45, 56).unwrap();
    let naive = calc_n(a, 1000, 23, 45, 56);
    let gap = if precise > naive { precise - naive } else { naive - precise };
    assert!(gap > 1000, "expected a measurable precision gap, got {}", gap);
}

#[test]
fn naive_zero_conventions() {
    assert_eq!(calc_n(0, 0, 0, 0, 0), 0);
    assert_eq!(calc_n(5, 0, 0, 1, 1), 0);
    assert_eq!(calc_n(7, 1, 1, 0, 0), 0);
    assert_eq!(calc_n(7, 3, 9, 0, 5), 0);
    assert_eq!(evaluate_naive(7, 3, 9, 0, 5), 0);
}

#[test]
fn naive_small_scenarios() {
    assert_eq!(calc_n(1, 1, 1, 1, 1), 0);
    assert_eq!(calc_n(2, 2, 2, 2, 2), 1);
    assert_eq!(calc_n(5, 4, 3, 2, 1), 3);
}

#[test]
fn naive_infinite_ratio_saturates_power_to_zero() {
    // weight2 = 0 with weight1 > 0 gives an infinite ratio; a base
    // below one raised to it vanishes, so the result is a itself
    assert_eq!(calc_n(9, 3, 5, 2, 0), 9);
}

#[test]
fn naive_matches_public_entry_point() {
    assert_eq!(evaluate_naive(5, 4, 3, 2, 1), calc_n(5, 4, 3, 2, 1));
    assert_eq!(evaluate_naive(1, 2, 3, 4, 5), calc_n(1, 2, 3, 4, 5));
}

#[test]
fn largest_inputs_are_exact() {
    // ratio = 1, denom = 2^129 - 2 (exactly representable),
    // base = 1/2 exactly, product = (2^128 - 1) / 2 = 2^127 - 0.5,
    // which floors to 2^127 - 1
    let m = u128::MAX;
    assert_eq!(evaluate_precise(m, m, m, m, m), Ok((1u128 << 127) - 1));
    // the narrow baseline rounds the product up to 2^127
    assert_eq!(calc_n(m, m, m, m, m), 1u128 << 127);
}

#[test]
fn exactly_representable_powers() {
    // base = 1/2, ratio = 2: 0.5^2 = 0.25 is exactly representable
    assert_eq!(evaluate_precise(1, 1, 1, 2, 1), Ok(0));
    // 4 * (1 - 0.25) = 3 exactly
    assert_eq!(evaluate_precise(4, 1, 1, 2, 1), Ok(3));
    // base = 1/4, ratio = 1/2: 0.25^0.5 = 0.5 is exactly representable
    assert_eq!(evaluate_precise(1, 1, 3, 1, 2), Ok(0));
    // the narrow baseline on the same exact powers
    assert_eq!(calc_n(1, 1, 1, 2, 1), 0);
    assert_eq!(calc_n(4, 1, 1, 2, 1), 3);
}

#[test]
fn monotone_in_a() {
    let samples: [u128; 7] = [0, 1, 5, 100, 10_000, 1u128 << 60, (1u128 << 100) | 1];
    let mut last = 0u128;
    for &a in samples.iter() {
        let r = evaluate_precise(a, 7, 5, 3, 4).unwrap();
        assert!(r >= last, "result decreased when a grew: {} then {}", last, r);
        last = r;
    }
}
