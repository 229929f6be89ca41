use dex_state::fp32::{fp32_div, fp32_mul, FP_32_ONE};

#[test]
fn multiply_by_one_is_identity() {
    assert_eq!(fp32_mul(0, FP_32_ONE), 0);
    assert_eq!(fp32_mul(1, FP_32_ONE), 1);
    assert_eq!(fp32_mul(1_000_000, FP_32_ONE), 1_000_000);
    assert_eq!(fp32_mul(u64::MAX, FP_32_ONE), u64::MAX);
}

#[test]
fn divide_by_one_is_identity() {
    assert_eq!(fp32_div(0, FP_32_ONE), 0);
    assert_eq!(fp32_div(42, FP_32_ONE), 42);
    assert_eq!(fp32_div(u64::MAX, FP_32_ONE), u64::MAX);
}

#[test]
fn multiply_truncates_toward_zero() {
    // Half of an odd amount rounds down.
    let half = FP_32_ONE / 2;
    assert_eq!(fp32_mul(7, half), 3);
    assert_eq!(fp32_mul(8, half), 4);
}

#[test]
fn divide_scales_up_exactly() {
    let half = FP_32_ONE / 2;
    assert_eq!(fp32_div(3, half), 6);
    assert_eq!(fp32_div(1_000, FP_32_ONE + FP_32_ONE), 500);
}

#[test]
fn round_trip_is_within_one_unit() {
    // Rates of at least one unit: dividing the product back by the same rate
    // recovers the amount up to one unit of floor truncation.
    let rates = [
        FP_32_ONE,
        FP_32_ONE + 1,
        FP_32_ONE + FP_32_ONE / 2,
        3 * FP_32_ONE,
        FP_32_ONE + 9_448_928,
    ];
    let amounts = [0u64, 1, 2, 999, 1_000_000, 123_456_789];
    for &rate in rates.iter() {
        for &amount in amounts.iter() {
            let back = fp32_div(fp32_mul(amount, rate), rate);
            assert!(back <= amount);
            assert!(amount - back <= 1);
        }
    }
}

#[test]
fn round_trip_can_lose_one_unit() {
    // 3 * 1.5 floors to 4; 4 / 1.5 floors to 2.
    let rate = FP_32_ONE + FP_32_ONE / 2;
    assert_eq!(fp32_mul(3, rate), 4);
    assert_eq!(fp32_div(4, rate), 2);
}
